//! Materials: what a surface does with a ray once the caller has computed
//! the directions that the material's optics propose.
use vstd::prelude::*;
use crate::hittable::HitRecord;
use crate::ray::{Ray, Response, Scatter};
use crate::scalar::Scalar;
use crate::texture::{SolidColor, Texture};
use crate::vec3::{Color, Vec3};

verus! {

/// A mirror whose reflection is blurred by `fuzz`, which lies in `[0, 1]`
/// whenever it was set through [`Metal::new`].
#[derive(Clone, Copy, Debug, PartialEq, Eq, Structural)]
pub struct Metal {
    pub albedo: Color,
    pub fuzz: Scalar,
}

impl Metal {
    /// The fuzz that a metal gets for a requested one: the request where it
    /// lies in `[0, 1)`, zero below that, and one for everything else.
    pub open spec fn limited(fuzz: Scalar) -> Scalar {
        if fuzz.lt_spec(Scalar::one_spec()) {
            if fuzz.lt_spec(Scalar::zero_spec()) {
                Scalar::zero_spec()
            } else {
                fuzz
            }
        } else {
            Scalar::one_spec()
        }
    }

    /// A metal of the given colour; the fuzz is held to `[0, 1]`.
    pub fn new(albedo: Vec3, fuzz: Scalar) -> (r: Metal)
        ensures
            r.albedo == albedo,
            r.fuzz == Metal::limited(fuzz),
            Scalar::zero_spec().le_spec(r.fuzz) && r.fuzz.le_spec(Scalar::one_spec()),
    {
        let fuzz_limited = if fuzz.lt(Scalar::one()) {
            if fuzz.lt(Scalar::zero()) {
                Scalar::zero()
            } else {
                fuzz
            }
        } else {
            Scalar::one()
        };
        Metal { albedo, fuzz: fuzz_limited }
    }

    /// Scatters along `direction`, the fuzzed reflection of the ray, if that
    /// still leaves the surface: `facing`, its dot product with the normal,
    /// must be positive. The outputs are written either way.
    pub fn scatter(
        &self,
        ray: &Ray,
        record: &HitRecord,
        direction: Vec3,
        facing: Scalar,
        attenuation: &mut Color,
        scattered: &mut Ray,
    ) -> (leaves: bool)
        ensures
            leaves == facing.gt_spec(Scalar::zero_spec()),
            *final(attenuation) == self.albedo,
            *final(scattered) == (Ray { origin: record.point, direction, time: ray.time }),
    {
        *scattered = Ray::new(record.point, direction, ray.time);
        *attenuation = self.albedo;
        facing.gt(Scalar::zero())
    }
}

/// A diffuse surface, coloured by a texture.
#[derive(Debug)]
pub struct Lambertian {
    pub albedo: Texture,
}

impl Lambertian {
    /// A diffuse surface of one colour.
    pub fn from_color(albedo: Color) -> (r: Lambertian)
        ensures
            r.albedo == Texture::Solid(SolidColor { color_value: albedo }),
    {
        Lambertian::new_texture(Texture::Solid(SolidColor::new(albedo.x, albedo.y, albedo.z)))
    }

    /// A diffuse surface coloured by a texture.
    pub fn new_texture(texture: Texture) -> (r: Lambertian)
        ensures
            r.albedo == texture,
    {
        Lambertian { albedo: texture }
    }

    /// The direction in which a diffuse surface scatters: `candidate`, the
    /// normal plus a random unit vector, unless the two have all but
    /// cancelled, in which case it is the normal itself.
    pub open spec fn direction_spec(candidate: Vec3, normal: Vec3) -> Vec3 {
        if candidate.near_zero_spec() {
            normal
        } else {
            candidate
        }
    }

    /// Always scatters. `candidate` is the normal plus a random unit
    /// vector, and `albedo_value` the texture's colour at the hit.
    pub fn scatter(
        &self,
        ray: &Ray,
        record: &HitRecord,
        candidate: Vec3,
        albedo_value: Color,
        attenuation: &mut Color,
        scattered: &mut Ray,
    ) -> (leaves: bool)
        ensures
            leaves,
            *final(attenuation) == albedo_value,
            *final(scattered) == (Ray {
                origin: record.point,
                direction: Lambertian::direction_spec(candidate, record.normal),
                time: ray.time,
            }),
    {
        let scatter_direction = if candidate.near_zero() {
            record.normal
        } else {
            candidate
        };
        *scattered = Ray::new(record.point, scatter_direction, ray.time);
        *attenuation = albedo_value;
        true
    }
}

/// A clear refracting solid.
#[derive(Clone, Copy, Debug, PartialEq, Eq, Structural)]
pub struct Dielectric {
    pub index_of_refraction: Scalar,
}

impl Dielectric {
    /// A dielectric with the given index of refraction.
    pub fn new(index_of_refraction: Scalar) -> (r: Dielectric)
        ensures
            r.index_of_refraction == index_of_refraction,
    {
        Dielectric { index_of_refraction }
    }

    /// Whether the ray is reflected rather than refracted: where refraction
    /// is impossible, `bend` (the ratio of the indices times the sine of the
    /// angle of incidence) exceeding one, or where the reflectance exceeds
    /// the uniform random `draw`.
    pub open spec fn reflects_spec(bend: Scalar, reflectance: Scalar, draw: Scalar) -> bool {
        bend.gt_spec(Scalar::one_spec()) || reflectance.gt_spec(draw)
    }

    /// Computes [`Dielectric::reflects_spec`].
    #[verifier::when_used_as_spec(reflects_spec)]
    pub fn reflects(bend: Scalar, reflectance: Scalar, draw: Scalar) -> (r: bool)
        ensures
            r == Dielectric::reflects_spec(bend, reflectance, draw),
    {
        bend.gt(Scalar::one()) || reflectance.gt(draw)
    }

    /// Always scatters, absorbing nothing: along `reflected` where the ray
    /// is reflected ([`Dielectric::reflects_spec`]), along `refracted`
    /// elsewhere.
    pub fn scatter(
        &self,
        ray: &Ray,
        record: &HitRecord,
        bend: Scalar,
        reflectance: Scalar,
        draw: Scalar,
        reflected: Vec3,
        refracted: Vec3,
        attenuation: &mut Color,
        scattered: &mut Ray,
    ) -> (leaves: bool)
        ensures
            leaves,
            *final(attenuation) == Vec3::one_spec(),
            *final(scattered) == (Ray {
                origin: record.point,
                direction: if Dielectric::reflects_spec(bend, reflectance, draw) {
                    reflected
                } else {
                    refracted
                },
                time: ray.time,
            }),
    {
        *attenuation = Vec3::one();
        let direction = if Dielectric::reflects(bend, reflectance, draw) {
            reflected
        } else {
            refracted
        };
        *scattered = Ray::new(record.point, direction, ray.time);
        true
    }
}

/// A light: it emits its texture and scatters nothing.
#[derive(Debug)]
pub struct DiffuseLight {
    pub emit: Texture,
}

impl DiffuseLight {
    /// A light that emits a texture.
    pub fn from_texture(texture: Texture) -> (r: DiffuseLight)
        ensures
            r.emit == texture,
    {
        DiffuseLight { emit: texture }
    }

    /// A light of one colour.
    pub fn from_color(albedo: Color) -> (r: DiffuseLight)
        ensures
            r.emit == Texture::Solid(SolidColor { color_value: albedo }),
    {
        DiffuseLight::from_texture(Texture::Solid(SolidColor::new(albedo.x, albedo.y, albedo.z)))
    }

    /// Never scatters, and leaves the outputs as they are.
    pub fn scatter(
        &self,
        _ray: &Ray,
        _record: &HitRecord,
        attenuation: &mut Color,
        scattered: &mut Ray,
    ) -> (leaves: bool)
        ensures
            !leaves,
            *final(attenuation) == *old(attenuation),
            *final(scattered) == *old(scattered),
    {
        false
    }
}

/// The phase function of a constant medium: it scatters in any direction.
#[derive(Debug)]
pub struct Isotropic {
    pub albedo: Texture,
}

impl Isotropic {
    /// A medium coloured by a texture.
    pub fn from_texture(texture: Texture) -> (r: Isotropic)
        ensures
            r.albedo == texture,
    {
        Isotropic { albedo: texture }
    }

    /// A medium of one colour.
    pub fn from_color(color: Color) -> (r: Isotropic)
        ensures
            r.albedo == Texture::Solid(SolidColor { color_value: color }),
    {
        Isotropic::from_texture(Texture::Solid(SolidColor::new(color.x, color.y, color.z)))
    }

    /// Always scatters, along `direction`, a random point of the unit
    /// sphere. `albedo_value` is the texture's colour at the hit.
    pub fn scatter(
        &self,
        ray: &Ray,
        record: &HitRecord,
        direction: Vec3,
        albedo_value: Color,
        attenuation: &mut Color,
        scattered: &mut Ray,
    ) -> (leaves: bool)
        ensures
            leaves,
            *final(attenuation) == albedo_value,
            *final(scattered) == (Ray { origin: record.point, direction, time: ray.time }),
    {
        *scattered = Ray::new(record.point, direction, ray.time);
        *attenuation = albedo_value;
        true
    }
}

/// One of the materials that the engine knows. Every surface names one;
/// there is no default.
#[derive(Debug)]
pub enum Material {
    Metal(Metal),
    Lambertian(Lambertian),
    Dielectric(Dielectric),
    DiffuseLight(DiffuseLight),
    Isotropic(Isotropic),
}

/// What the caller has computed for a hit, by the kind of material that was
/// hit: the directions that the material's optics propose, the colour of
/// its texture at the hit, and the random draw that it needs.
#[derive(Clone, Copy, Debug, PartialEq, Eq, Structural)]
pub enum Proposal {
    /// For a metal: the fuzzed reflection and its dot product with the normal.
    Mirror { direction: Vec3, facing: Scalar },
    /// For a diffuse surface: the normal plus a random unit vector, and the
    /// texture's colour.
    Diffuse { candidate: Vec3, albedo_value: Color },
    /// For a dielectric: the ratio of the indices times the sine of the
    /// angle of incidence, the reflectance, a uniform random draw, and the
    /// reflected and the refracted direction.
    Glass { bend: Scalar, reflectance: Scalar, draw: Scalar, reflected: Vec3, refracted: Vec3 },
    /// For a medium: a random point of the unit sphere, and the texture's
    /// colour.
    Fog { direction: Vec3, albedo_value: Color },
    /// For a light, which needs nothing.
    Nothing,
}

impl Material {
    /// What a material does with a ray, given the proposal that belongs to
    /// it: the attenuation and the scattered ray, or nothing where the ray
    /// ends. A light ends every ray; a metal ends the rays that it would
    /// reflect into the surface; a proposal of another kind than the
    /// material ends the ray too.
    pub open spec fn scatter_spec(&self, ray: Ray, record: HitRecord, proposal: Proposal) -> Option<
        (Color, Ray),
    > {
        match (*self, proposal) {
            (Material::Metal(metal), Proposal::Mirror { direction, facing }) => if facing.gt_spec(
                Scalar::zero_spec(),
            ) {
                Some((metal.albedo, Ray { origin: record.point, direction, time: ray.time }))
            } else {
                None
            },
            (Material::Lambertian(_), Proposal::Diffuse { candidate, albedo_value }) => Some(
                (
                    albedo_value,
                    Ray {
                        origin: record.point,
                        direction: Lambertian::direction_spec(candidate, record.normal),
                        time: ray.time,
                    },
                ),
            ),
            (
                Material::Dielectric(_),
                Proposal::Glass { bend, reflectance, draw, reflected, refracted },
            ) => Some(
                (
                    Vec3::one_spec(),
                    Ray {
                        origin: record.point,
                        direction: if Dielectric::reflects_spec(bend, reflectance, draw) {
                            reflected
                        } else {
                            refracted
                        },
                        time: ray.time,
                    },
                ),
            ),
            (Material::Isotropic(_), Proposal::Fog { direction, albedo_value }) => Some(
                (albedo_value, Ray { origin: record.point, direction, time: ray.time }),
            ),
            _ => None,
        }
    }

    /// Scatters a ray at a hit: `true`, with the attenuation and the
    /// scattered ray written, where the material sends the ray on, and
    /// `false` where the ray ends.
    pub fn scatter(
        &self,
        ray: &Ray,
        record: &HitRecord,
        proposal: Proposal,
        attenuation: &mut Color,
        scattered: &mut Ray,
    ) -> (leaves: bool)
        ensures
            leaves == self.scatter_spec(*ray, *record, proposal).is_some(),
            leaves ==> Some((*final(attenuation), *final(scattered))) == self.scatter_spec(
                *ray,
                *record,
                proposal,
            ),
    {
        match (self, proposal) {
            (Material::Metal(metal), Proposal::Mirror { direction, facing }) => metal.scatter(
                ray,
                record,
                direction,
                facing,
                attenuation,
                scattered,
            ),
            (
                Material::Lambertian(diffuse),
                Proposal::Diffuse { candidate, albedo_value },
            ) => diffuse.scatter(ray, record, candidate, albedo_value, attenuation, scattered),
            (
                Material::Dielectric(glass),
                Proposal::Glass { bend, reflectance, draw, reflected, refracted },
            ) => glass.scatter(
                ray,
                record,
                bend,
                reflectance,
                draw,
                reflected,
                refracted,
                attenuation,
                scattered,
            ),
            (Material::Isotropic(fog), Proposal::Fog { direction, albedo_value }) => fog.scatter(
                ray,
                record,
                direction,
                albedo_value,
                attenuation,
                scattered,
            ),
            (Material::DiffuseLight(light), _) => light.scatter(
                ray,
                record,
                attenuation,
                scattered,
            ),
            _ => false,
        }
    }

    /// Whether the material can scatter at all: every one but the light.
    pub open spec fn scatters_spec(&self) -> bool {
        !(*self is DiffuseLight)
    }

    /// The texture that the material emits, if it emits: only the light does.
    pub open spec fn emitter_spec(&self) -> Option<Texture> {
        match *self {
            Material::DiffuseLight(light) => Some(light.emit),
            _ => None,
        }
    }

    /// Computes [`Material::scatters_spec`].
    #[verifier::when_used_as_spec(scatters_spec)]
    pub fn scatters(&self) -> (r: bool)
        ensures
            r == self.scatters_spec(),
    {
        match self {
            Material::DiffuseLight(_) => false,
            _ => true,
        }
    }

    /// The light that the material emits at a place: the value of the
    /// light's texture there, and black for every other material. `sample`
    /// evaluates a texture at `(u, v, p)`, and is asked only for a light.
    pub fn emitted<T: Fn(&Texture, Scalar, Scalar, Vec3) -> Color>(
        &self,
        u: Scalar,
        v: Scalar,
        p: &Vec3,
        sample: &T,
    ) -> (color: Color)
        requires
            forall|texture: &Texture| call_requires(*sample, (texture, u, v, *p)),
        ensures
            match self.emitter_spec() {
                Some(texture) => call_ensures(*sample, (&texture, u, v, *p), color),
                None => color == Vec3::zero_spec(),
            },
    {
        match self {
            Material::DiffuseLight(light) => sample(&light.emit, u, v, *p),
            _ => Vec3::zero(),
        }
    }
}

/// What a material answers to a ray, given the proposal that was computed
/// for it and the light that it emits at the hit.
pub open spec fn response_spec(
    material: Material,
    ray: Ray,
    record: HitRecord,
    proposal: Proposal,
    emitted: Color,
) -> Response {
    Response {
        emitted,
        scatter: match material.scatter_spec(ray, record, proposal) {
            Some((attenuation, scattered)) => Some(Scatter { attenuation, scattered }),
            None => None,
        },
    }
}

/// What the surface at a hit does with the ray: the light that its material
/// emits, and the scattered ray unless the ray ends there. The material is
/// the one that the record names in the table; a record that names no
/// material meets a black surface that ends the ray.
///
/// `propose` computes the proposal of a material's optics for the hit, and
/// `sample` evaluates a texture. The answer is [`response_spec`] of a
/// proposal that `propose` gave, and of a colour that `sample` gave for the
/// texture of a light, or of black for another material.
pub fn respond<
    P: Fn(&Material, Ray, HitRecord) -> Proposal,
    T: Fn(&Texture, Scalar, Scalar, Vec3) -> Color,
>(materials: &Vec<Material>, ray: &Ray, record: &HitRecord, propose: &P, sample: &T) -> (response:
    Response)
    requires
        forall|material: &Material, r: Ray, h: HitRecord| call_requires(*propose, (material, r, h)),
        forall|texture: &Texture, u: Scalar, v: Scalar, p: Vec3|
            call_requires(*sample, (texture, u, v, p)),
    ensures
        record.material >= materials.len() ==> response == (Response {
            emitted: Vec3::zero_spec(),
            scatter: None,
        }),
        record.material < materials.len() ==> exists|proposal: Proposal|
            #![trigger response_spec(materials[record.material as int], *ray, *record, proposal, response.emitted)]
            call_ensures(*propose, (&materials[record.material as int], *ray, *record), proposal)
                && response == response_spec(
                materials[record.material as int],
                *ray,
                *record,
                proposal,
                response.emitted,
            ) && (match materials[record.material as int].emitter_spec() {
                Some(texture) => call_ensures(
                    *sample,
                    (&texture, record.u, record.v, record.point),
                    response.emitted,
                ),
                None => response.emitted == Vec3::zero_spec(),
            }),
{
    if record.material >= materials.len() {
        return Response { emitted: Vec3::zero(), scatter: None };
    }
    let material = &materials[record.material];
    let emitted = material.emitted(record.u, record.v, &record.point, sample);
    let proposal = propose(material, *ray, *record);
    let mut attenuation = Vec3::zero();
    let mut scattered = Ray::default();
    let leaves = material.scatter(ray, record, proposal, &mut attenuation, &mut scattered);
    let response = Response {
        emitted,
        scatter: if leaves {
            Some(Scatter { attenuation, scattered })
        } else {
            None
        },
    };
    proof {
        assert(response == response_spec(*material, *ray, *record, proposal, response.emitted));
    }
    response
}

} // verus!
