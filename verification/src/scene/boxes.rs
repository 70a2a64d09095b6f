//! The bounding boxes of the surfaces of a scene, part before whole.
use vstd::prelude::*;
use crate::aabb::AABB;
use crate::hittable::union_spec;
use crate::bvh::all_below;
use crate::scene::{parts_first, Scene, Surface};

verus! {

/// Whether `oracle` tells what the function value answers for the box of a
/// sphere or a rectangle.
pub open spec fn primitive_follows<P: Fn(usize) -> Option<AABB>>(
    primitive: P,
    oracle: spec_fn(usize) -> Option<AABB>,
) -> bool {
    forall|id: usize, r: Option<AABB>| #[trigger] call_ensures(primitive, (id,), r) ==> r == oracle(
        id,
    )
}

/// Whether `oracle` tells what the function value answers for the box of a
/// moved surface, given the box of the surface itself.
pub open spec fn moved_follows<M: Fn(usize, AABB) -> AABB>(
    moved: M,
    oracle: spec_fn(usize, AABB) -> AABB,
) -> bool {
    forall|id: usize, bounds: AABB, r: AABB| #[trigger]
        call_ensures(moved, (id, bounds), r) ==> r == oracle(id, bounds)
}

/// The box of the surface with index `id`, given the boxes of the surfaces
/// before it: a cube has its corners; a medium has the box of its boundary;
/// a moved surface has the moved box of the surface itself, if that has
/// one; a turned surface has the box that it was made with, if the surface
/// itself had one; a list has the union of the boxes of its items; a
/// hierarchy has the box of its root; and the box of a sphere or a
/// rectangle is the answer of the arithmetic.
pub open spec fn box_of(
    surface: Surface,
    id: usize,
    before: Seq<Option<AABB>>,
    primitive: spec_fn(usize) -> Option<AABB>,
    moved: spec_fn(usize, AABB) -> AABB,
) -> Option<AABB> {
    match surface {
        Surface::Cube(cube) => Some(AABB { minimum: cube.box_min, maximum: cube.box_max }),
        Surface::ConstantMedium(medium) => before[medium.boundary as int],
        Surface::Translate(shifted) => match before[shifted.hittable as int] {
            Some(bounds) => Some(moved(id, bounds)),
            None => None,
        },
        Surface::RotateY(turned) => if turned.has_box {
            Some(turned.bbox)
        } else {
            None
        },
        Surface::List(list) => union_spec(list.hittable_list@, before),
        Surface::Bvh(node) => Some(node.bbox),
        _ => primitive(id),
    }
}

/// The boxes of the first `count` surfaces of a table, in order.
pub open spec fn boxes_spec(
    surfaces: Seq<Surface>,
    count: nat,
    primitive: spec_fn(usize) -> Option<AABB>,
    moved: spec_fn(usize, AABB) -> AABB,
) -> Seq<Option<AABB>>
    decreases count,
{
    if count == 0 {
        Seq::empty()
    } else {
        let before = boxes_spec(surfaces, (count - 1) as nat, primitive, moved);
        before.push(
            box_of(surfaces[count - 1], (count - 1) as usize, before, primitive, moved),
        )
    }
}

impl Scene {
    /// The box of every surface of the scene, by index; none for a surface
    /// without a box. `primitive` gives the box of a sphere or a rectangle,
    /// and `moved` the box of a moved surface from the box of the surface
    /// itself. For all oracles that tell what the two answer, the result is
    /// [`boxes_spec`] of those oracles.
    pub fn bounding_boxes<P: Fn(usize) -> Option<AABB>, M: Fn(usize, AABB) -> AABB>(
        &self,
        primitive: &P,
        moved: &M,
    ) -> (boxes: Vec<Option<AABB>>)
        requires
            forall|id: usize| call_requires(*primitive, (id,)),
            forall|id: usize, bounds: AABB| call_requires(*moved, (id, bounds)),
        ensures
            boxes.len() == self@.len(),
            forall|known: spec_fn(usize) -> Option<AABB>, shifted: spec_fn(usize, AABB) -> AABB|
                primitive_follows(*primitive, known) && moved_follows(*moved, shifted) ==> boxes@
                    == #[trigger] boxes_spec(self@, self@.len(), known, shifted),
    {
        let count = self.len();
        let mut boxes: Vec<Option<AABB>> = Vec::new();
        let mut id: usize = 0;
        while id < count
            invariant
                id <= count,
                count == self@.len(),
                parts_first(self@),
                boxes.len() == id,
                forall|k: usize| call_requires(*primitive, (k,)),
                forall|k: usize, bounds: AABB| call_requires(*moved, (k, bounds)),
                forall|known: spec_fn(usize) -> Option<AABB>, shifted: spec_fn(usize, AABB) -> AABB|
                    primitive_follows(*primitive, known) && moved_follows(*moved, shifted)
                        ==> boxes@ == #[trigger] boxes_spec(self@, id as nat, known, shifted),
            decreases count - id,
        {
            let ghost before = boxes@;
            let surface = match self.get(id) {
                Some(surface) => surface,
                None => {
                    return boxes;
                },
            };
            proof {
                assert(all_below(self@[id as int].parts(), id as int));
            }
            let own = match surface {
                Surface::Cube(cube) => Some(AABB::new(cube.box_min, cube.box_max)),
                Surface::ConstantMedium(medium) => {
                    assert(surface.parts()[0] == medium.boundary);
                    boxes[medium.boundary]
                },
                Surface::Translate(shifted) => {
                    assert(surface.parts()[0] == shifted.hittable);
                    match boxes[shifted.hittable] {
                        Some(bounds) => Some(moved(id, bounds)),
                        None => None,
                    }
                },
                Surface::RotateY(turned) => if turned.has_box {
                    Some(turned.bbox)
                } else {
                    None
                },
                Surface::List(list) => {
                    assert(surface.parts() == list.hittable_list@);
                    let mut union = AABB::default();
                    if list.bounding_box(&boxes, &mut union) {
                        Some(union)
                    } else {
                        None
                    }
                },
                Surface::Bvh(node) => Some(node.bbox),
                _ => primitive(id),
            };
            boxes.push(own);
            proof {
                assert forall|
                    known: spec_fn(usize) -> Option<AABB>,
                    shifted: spec_fn(usize, AABB) -> AABB,
                |
                    primitive_follows(*primitive, known) && moved_follows(
                        *moved,
                        shifted,
                    ) implies boxes@ == #[trigger] boxes_spec(
                    self@,
                    (id + 1) as nat,
                    known,
                    shifted,
                ) by {
                    assert(before == boxes_spec(self@, id as nat, known, shifted));
                    assert(own == box_of(self@[id as int], id, before, known, shifted));
                    assert(boxes@ == before.push(own));
                }
            }
            id += 1;
        }
        boxes
    }
}

} // verus!
