//! A sound effect of a Super Mario Maker course.

use vstd::prelude::*;

verus! {

/// A sound effect placed in a course.
#[derive(Clone, Copy, Debug, PartialEq, Eq, Structural)]
pub struct Sound {
    pub x: u32,
    pub y: u32,
    pub sound_type: u32,
    pub variation: bool,
}

} // verus!
