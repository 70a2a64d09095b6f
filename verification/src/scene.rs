//! The scene: a table of surfaces in which every composite surface names
//! its parts by index, and the parts stand before the whole.
use vstd::prelude::*;
use crate::bvh::{all_below, BVHNode};
use crate::constant_medium::ConstantMedium;
use crate::cube::Cube;
use crate::hittable::HittableList;
use crate::rectangles::{XyRectangle, XzRectangle, YzRectangle};
use crate::rotate_y::RotateY;
use crate::sphere::{MovingSphere, Sphere};
use crate::vec3::Vec3;

pub mod boxes;
pub mod query;

verus! {

/// The surface `hittable` moved by `offset`.
#[derive(Clone, Copy, Debug, PartialEq, Eq, Structural)]
pub struct Translate {
    pub hittable: usize,
    pub offset: Vec3,
}

impl Translate {
    /// The surface `hittable` moved by `offset`.
    pub fn new(hittable: usize, offset: Vec3) -> (r: Translate)
        ensures
            r == (Translate { hittable, offset }),
    {
        Translate { hittable, offset }
    }
}

/// One of the surfaces that the engine knows.
#[derive(Debug)]
pub enum Surface {
    Sphere(Sphere),
    MovingSphere(MovingSphere),
    XyRectangle(XyRectangle),
    XzRectangle(XzRectangle),
    YzRectangle(YzRectangle),
    Cube(Cube),
    ConstantMedium(ConstantMedium),
    Translate(Translate),
    RotateY(RotateY),
    List(HittableList),
    Bvh(BVHNode),
}

impl Surface {
    /// The surfaces that this one is made of, by index: the boundary of a
    /// medium, the surface that is moved or turned, the items of a list,
    /// the leaves of a hierarchy; none for the others.
    pub open spec fn parts(self) -> Seq<usize> {
        match self {
            Surface::ConstantMedium(medium) => seq![medium.boundary],
            Surface::Translate(moved) => seq![moved.hittable],
            Surface::RotateY(turned) => seq![turned.hittable],
            Surface::List(list) => list.hittable_list@,
            Surface::Bvh(node) => node.leaves(),
            _ => Seq::empty(),
        }
    }

    /// Whether every part of this surface has an index less than `bound`.
    pub fn parts_below(&self, bound: usize) -> (r: bool)
        ensures
            r == all_below(self.parts(), bound as int),
    {
        match self {
            Surface::ConstantMedium(medium) => {
                assert(self.parts() =~= seq![medium.boundary]);
                assert(self.parts()[0] == medium.boundary);
                medium.boundary < bound
            },
            Surface::Translate(moved) => {
                assert(self.parts() =~= seq![moved.hittable]);
                assert(self.parts()[0] == moved.hittable);
                moved.hittable < bound
            },
            Surface::RotateY(turned) => {
                assert(self.parts() =~= seq![turned.hittable]);
                assert(self.parts()[0] == turned.hittable);
                turned.hittable < bound
            },
            Surface::List(list) => {
                let mut k: usize = 0;
                while k < list.hittable_list.len()
                    invariant
                        k <= list.hittable_list.len(),
                        self.parts() == list.hittable_list@,
                        forall|j: int| 0 <= j < k ==> (#[trigger] list.hittable_list[j]) < bound,
                    decreases list.hittable_list.len() - k,
                {
                    if list.hittable_list[k] >= bound {
                        assert(!(self.parts()[k as int] < bound));
                        return false;
                    }
                    k += 1;
                }
                true
            },
            Surface::Bvh(node) => node.below(bound),
            _ => true,
        }
    }
}

/// A table of surfaces. Every part of a surface stands before the surface,
/// so that no surface is a part of itself, however indirectly.
#[derive(Debug)]
pub struct Scene {
    surfaces: Vec<Surface>,
}

/// Whether in a table of surfaces every part stands before its whole.
pub open spec fn parts_first(surfaces: Seq<Surface>) -> bool {
    forall|id: int| 0 <= id < surfaces.len() ==> all_below((#[trigger] surfaces[id]).parts(), id)
}

impl Scene {
    #[verifier::type_invariant]
    spec fn wf(self) -> bool {
        parts_first(self.surfaces@)
    }

    /// The surfaces, in the order in which they were added.
    pub closed spec fn view(self) -> Seq<Surface> {
        self.surfaces@
    }

    /// The empty scene.
    pub fn new() -> (r: Scene)
        ensures
            r@ == Seq::<Surface>::empty(),
    {
        Scene { surfaces: Vec::new() }
    }

    /// The number of surfaces.
    pub fn len(&self) -> (r: usize)
        ensures
            r == self@.len(),
            parts_first(self@),
    {
        proof {
            use_type_invariant(self);
        }
        self.surfaces.len()
    }

    /// The surface with the given index, if there is one.
    pub fn get(&self, id: usize) -> (r: Option<&Surface>)
        ensures
            parts_first(self@),
            id < self@.len() ==> r == Some(&self@[id as int]),
            id >= self@.len() ==> r is None,
    {
        proof {
            use_type_invariant(self);
        }
        if id < self.surfaces.len() {
            Some(&self.surfaces[id])
        } else {
            None
        }
    }

    /// Adds a surface and returns its index. A surface that names a part
    /// which is not in the scene yet is handed back, and the scene stays as
    /// it is.
    pub fn add(&mut self, surface: Surface) -> (r: Result<usize, Surface>)
        ensures
            parts_first(final(self)@),
            match r {
                Ok(id) => id == old(self)@.len() && final(self)@ == old(self)@.push(surface)
                    && all_below(surface.parts(), id as int),
                Err(back) => back == surface && final(self)@ == old(self)@ && !all_below(
                    surface.parts(),
                    old(self)@.len() as int,
                ),
            },
    {
        proof {
            use_type_invariant(&*self);
        }
        let id = self.surfaces.len();
        if !surface.parts_below(id) {
            return Err(surface);
        }
        let mut taken = Scene { surfaces: Vec::new() };
        std::mem::swap(self, &mut taken);
        let mut surfaces = taken.surfaces;
        surfaces.push(surface);
        proof {
            assert forall|k: int| 0 <= k < surfaces@.len() implies all_below(
                (#[trigger] surfaces@[k]).parts(),
                k,
            ) by {
                if k < id {
                    assert(surfaces@[k] == old(self).surfaces@[k]);
                }
            }
        }
        *self = Scene { surfaces };
        Ok(id)
    }
}

} // verus!
