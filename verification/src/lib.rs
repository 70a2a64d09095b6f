//! The discrete core of an offline path tracer.
//!
//! Real-valued quantities enter and leave this crate as [`scalar::Scalar`]
//! values, that is as binary64 bit patterns. The crate orders, selects and
//! arranges them: bounding boxes and their unions, the bounding volume
//! hierarchy and its traversal, nearest-hit selection, the bookkeeping of the
//! radiance recursion, texel addressing and lattice hashing. Arithmetic on
//! the quantities themselves is left to the caller, who hands its results in
//! as arguments or through the function values that the traversals take.
//!
//! Surfaces, materials and textures are closed sets of variants. A scene
//! keeps its surfaces and its materials in tables; a composite surface names
//! its parts, and a surface its material, by index. In a [`scene::Scene`]
//! every part stands before its whole, so that walking a scene ends.
//!
//! Where a function takes a function value, its contract speaks of every
//! *oracle* that follows the function value: a mathematical function that
//! gives, to each question, the one answer that the function value's own
//! contract allows. For a function value that answers by chance there is no
//! such oracle, and the contract then says what holds of every outcome.
pub mod aabb;
pub mod bvh;
pub mod constant_medium;
pub mod cube;
pub mod hittable;
pub mod material;
pub mod random;
pub mod ray;
pub mod rectangles;
pub mod render;
pub mod rotate_y;
pub mod scalar;
pub mod scene;
pub mod scenes;
pub mod sphere;
pub mod texture;
pub mod vec3;
