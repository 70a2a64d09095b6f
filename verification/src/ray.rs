//! Rays, and the bookkeeping of the recursive radiance estimate.
use vstd::prelude::*;
use crate::hittable::HitRecord;
use crate::scalar::Scalar;
use crate::vec3::{Color, Point3, Vec3};

verus! {

/// A ray: where it starts, where it points, and when it was cast.
#[derive(Clone, Copy, Debug, PartialEq, Eq, Structural)]
pub struct Ray {
    pub origin: Point3,
    pub direction: Vec3,
    pub time: Scalar,
}

impl Ray {
    /// The ray from `origin` along `direction`, cast at `time`.
    pub fn new(origin: Point3, direction: Vec3, time: Scalar) -> (r: Ray)
        ensures
            r == (Ray { origin, direction, time }),
    {
        Ray { origin, direction, time }
    }
}

impl Default for Ray {
    /// The ray of all zeros.
    fn default() -> (r: Ray)
        ensures
            r == (Ray {
                origin: Vec3::zero_spec(),
                direction: Vec3::zero_spec(),
                time: Scalar::zero_spec(),
            }),
    {
        Ray { origin: Vec3::zero(), direction: Vec3::zero(), time: Scalar::zero() }
    }
}

/// The start of the window in which a hit counts, 0.0001: a ray does not hit
/// the surface that it leaves.
pub const SHADOW_BIAS_BITS: u64 = 0x3f1a_36e2_eb1c_432d;

/// The ray that a material sends on, and the share of the light that comes
/// back along it which the surface passes on, channel by channel.
#[derive(Clone, Copy, Debug, PartialEq, Eq, Structural)]
pub struct Scatter {
    pub attenuation: Color,
    pub scattered: Ray,
}

/// What a surface does with a ray that hits it: the light that it emits, and
/// the scattered ray unless the ray ends here.
#[derive(Clone, Copy, Debug, PartialEq, Eq, Structural)]
pub struct Response {
    pub emitted: Color,
    pub scatter: Option<Scatter>,
}

/// The window in which the scene is asked for the nearest hit: from the
/// shadow bias to infinity.
pub open spec fn hit_window() -> (Scalar, Scalar) {
    (Scalar { bits: SHADOW_BIAS_BITS }, Scalar::infinity_spec())
}

/// Whether `oracle` tells what the scene answers inside [`hit_window`]:
/// every answer that the scene's contract allows for a ray is the oracle's.
pub open spec fn world_follows<W: Fn(Ray, Scalar, Scalar) -> Option<HitRecord>>(
    world: W,
    oracle: spec_fn(Ray) -> Option<HitRecord>,
) -> bool {
    forall|ray: Ray, t_min: Scalar, t_max: Scalar, r: Option<HitRecord>| #[trigger]
        call_ensures(world, (ray, t_min, t_max), r) && (t_min, t_max) == hit_window() ==> r
            == oracle(ray)
}

/// Whether `oracle` tells what the materials answer for a hit.
pub open spec fn surface_follows<S: Fn(Ray, HitRecord) -> Response>(
    surface: S,
    oracle: spec_fn(Ray, HitRecord) -> Response,
) -> bool {
    forall|ray: Ray, record: HitRecord, r: Response| #[trigger]
        call_ensures(surface, (ray, record), r) ==> r == oracle(ray, record)
}

/// Whether `oracle` tells what the arithmetic answers for
/// `emitted + attenuation * incoming`.
pub open spec fn shade_follows<C: Fn(Color, Color, Color) -> Color>(
    shade: C,
    oracle: spec_fn(Color, Color, Color) -> Color,
) -> bool {
    forall|emitted: Color, attenuation: Color, incoming: Color, r: Color| #[trigger]
        call_ensures(shade, (emitted, attenuation, incoming), r) ==> r == oracle(
            emitted,
            attenuation,
            incoming,
        )
}

/// Whether the scene's contract allows no hit for any ray.
pub open spec fn never_hit<W: Fn(Ray, Scalar, Scalar) -> Option<HitRecord>>(world: W) -> bool {
    forall|ray: Ray, lo: Scalar, hi: Scalar, record: HitRecord|
        !call_ensures(world, (ray, lo, hi), Some(record))
}

/// The radiance that arrives along a ray, with `depth` bounces left: black
/// once no bounce is left; the background where the ray hits nothing; the
/// emitted light alone where the surface does not scatter; and otherwise the
/// emitted light plus the attenuated radiance of the scattered ray, which
/// has one bounce fewer.
pub open spec fn ray_color_spec(
    ray: Ray,
    background: Color,
    depth: nat,
    world: spec_fn(Ray) -> Option<HitRecord>,
    surface: spec_fn(Ray, HitRecord) -> Response,
    shade: spec_fn(Color, Color, Color) -> Color,
) -> Color
    decreases depth,
{
    if depth == 0 {
        Vec3::zero_spec()
    } else {
        match world(ray) {
            None => background,
            Some(record) => {
                let response = surface(ray, record);
                match response.scatter {
                    None => response.emitted,
                    Some(scatter) => shade(
                        response.emitted,
                        scatter.attenuation,
                        ray_color_spec(
                            scatter.scattered,
                            background,
                            (depth - 1) as nat,
                            world,
                            surface,
                            shade,
                        ),
                    ),
                }
            },
        }
    }
}

/// Estimates the radiance that arrives along `ray`.
///
/// `world` gives the nearest hit of a ray inside a window, `surface` gives
/// what the material at a hit emits and where it scatters the ray, and
/// `shade` computes `emitted + attenuation * incoming`. The scene is always
/// asked inside [`hit_window`]. With no bounce left the result is black and
/// nothing is asked. For all oracles that tell what the three answer, the
/// result is [`ray_color_spec`] of those oracles.
pub fn ray_color<
    W: Fn(Ray, Scalar, Scalar) -> Option<HitRecord>,
    S: Fn(Ray, HitRecord) -> Response,
    C: Fn(Color, Color, Color) -> Color,
>(ray: &Ray, background: &Color, world: &W, surface: &S, shade: &C, depth: usize) -> (color:
    Color)
    requires
        forall|r: Ray, lo: Scalar, hi: Scalar| call_requires(*world, (r, lo, hi)),
        forall|r: Ray, record: HitRecord| call_requires(*surface, (r, record)),
        forall|a: Color, b: Color, c: Color| call_requires(*shade, (a, b, c)),
    ensures
        depth == 0 ==> color == Vec3::zero_spec(),
        depth >= 1 && never_hit(*world) ==> color == *background,
        forall|
            scene: spec_fn(Ray) -> Option<HitRecord>,
            materials: spec_fn(Ray, HitRecord) -> Response,
            arithmetic: spec_fn(Color, Color, Color) -> Color,
        |
            world_follows(*world, scene) && surface_follows(*surface, materials) && shade_follows(
                *shade,
                arithmetic,
            ) ==> color == #[trigger] ray_color_spec(
                *ray,
                *background,
                depth as nat,
                scene,
                materials,
                arithmetic,
            ),
    decreases depth,
{
    if depth == 0 {
        return Vec3::zero();
    }
    let found = world(*ray, Scalar::from_bits(SHADOW_BIAS_BITS), Scalar::infinity());
    let record = match found {
        None => {
            proof {
                assert forall|
                    scene: spec_fn(Ray) -> Option<HitRecord>,
                    materials: spec_fn(Ray, HitRecord) -> Response,
                    arithmetic: spec_fn(Color, Color, Color) -> Color,
                |
                    world_follows(*world, scene) && surface_follows(*surface, materials)
                        && shade_follows(*shade, arithmetic) implies *background
                    == #[trigger] ray_color_spec(
                    *ray,
                    *background,
                    depth as nat,
                    scene,
                    materials,
                    arithmetic,
                ) by {
                    assert(scene(*ray) == found);
                }
            }
            return *background;
        },
        Some(record) => record,
    };
    let response = surface(*ray, record);
    let scatter = match response.scatter {
        None => {
            proof {
                assert forall|
                    scene: spec_fn(Ray) -> Option<HitRecord>,
                    materials: spec_fn(Ray, HitRecord) -> Response,
                    arithmetic: spec_fn(Color, Color, Color) -> Color,
                |
                    world_follows(*world, scene) && surface_follows(*surface, materials)
                        && shade_follows(*shade, arithmetic) implies response.emitted
                    == #[trigger] ray_color_spec(
                    *ray,
                    *background,
                    depth as nat,
                    scene,
                    materials,
                    arithmetic,
                ) by {
                    assert(scene(*ray) == found);
                    assert(materials(*ray, record) == response);
                }
            }
            return response.emitted;
        },
        Some(scatter) => scatter,
    };
    let incoming = ray_color(&scatter.scattered, background, world, surface, shade, depth - 1);
    let color = shade(response.emitted, scatter.attenuation, incoming);
    proof {
        assert forall|
            scene: spec_fn(Ray) -> Option<HitRecord>,
            materials: spec_fn(Ray, HitRecord) -> Response,
            arithmetic: spec_fn(Color, Color, Color) -> Color,
        |
            world_follows(*world, scene) && surface_follows(*surface, materials) && shade_follows(
                *shade,
                arithmetic,
            ) implies color == #[trigger] ray_color_spec(
            *ray,
            *background,
            depth as nat,
            scene,
            materials,
            arithmetic,
        ) by {
            assert(scene(*ray) == found);
            assert(materials(*ray, record) == response);
            assert(incoming == ray_color_spec(
                scatter.scattered,
                *background,
                (depth - 1) as nat,
                scene,
                materials,
                arithmetic,
            ));
        }
    }
    color
}

/// An empty scene shows the background: where no ray hits anything, the
/// radiance along every ray is the background colour, for every depth of at
/// least one.
pub proof fn lemma_empty_scene_is_background(
    ray: Ray,
    background: Color,
    depth: nat,
    world: spec_fn(Ray) -> Option<HitRecord>,
    surface: spec_fn(Ray, HitRecord) -> Response,
    shade: spec_fn(Color, Color, Color) -> Color,
)
    requires
        depth >= 1,
        forall|r: Ray| (#[trigger] world(r)) is None,
    ensures
        ray_color_spec(ray, background, depth, world, surface, shade) == background,
{
}

/// With no bounce left the radiance is black, whatever the scene.
pub proof fn lemma_no_depth_is_black(
    ray: Ray,
    background: Color,
    world: spec_fn(Ray) -> Option<HitRecord>,
    surface: spec_fn(Ray, HitRecord) -> Response,
    shade: spec_fn(Color, Color, Color) -> Color,
)
    ensures
        ray_color_spec(ray, background, 0, world, surface, shade) == Vec3::zero_spec(),
{
}

/// One bounce under a uniform sky: where the ray hits a surface that emits
/// `emitted` and scatters with `attenuation`, and the scattered ray hits
/// nothing, the radiance with two bounces left is the shade of the emitted
/// light, the attenuation and the background; with one bounce left it is
/// the shade of the emitted light, the attenuation and black.
pub proof fn lemma_single_bounce(
    ray: Ray,
    background: Color,
    world: spec_fn(Ray) -> Option<HitRecord>,
    surface: spec_fn(Ray, HitRecord) -> Response,
    shade: spec_fn(Color, Color, Color) -> Color,
)
    requires
        world(ray) is Some,
        surface(ray, world(ray).unwrap()).scatter is Some,
        world(surface(ray, world(ray).unwrap()).scatter.unwrap().scattered) is None,
    ensures
        ray_color_spec(ray, background, 2, world, surface, shade) == shade(
            surface(ray, world(ray).unwrap()).emitted,
            surface(ray, world(ray).unwrap()).scatter.unwrap().attenuation,
            background,
        ),
        ray_color_spec(ray, background, 1, world, surface, shade) == shade(
            surface(ray, world(ray).unwrap()).emitted,
            surface(ray, world(ray).unwrap()).scatter.unwrap().attenuation,
            Vec3::zero_spec(),
        ),
{
    let next = surface(ray, world(ray).unwrap()).scatter.unwrap().scattered;
    assert(ray_color_spec(next, background, 1, world, surface, shade) == background);
    assert(ray_color_spec(next, background, 0, world, surface, shade) == Vec3::zero_spec());
}

} // verus!
