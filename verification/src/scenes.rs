//! The preset scenes, by name.
use vstd::prelude::*;

verus! {

/// The scenes that can be rendered.
#[derive(Clone, Copy, Debug, PartialEq, Eq, Structural)]
pub enum WorldEnum {
    OneWeekendScene,
    MovableWeekendScene,
    TwoTexturedSpheresScene,
    TwoPerlinSpheresScene,
    EarthScene,
    DiffuseLightScene,
    CornellBoxScene,
    CornellSmokeScene,
    FinalScene,
}

} // verus!
