use vstd::prelude::*;

verus! {

/// Ways the free-flying camera can move, independent of the window
/// system's input.
#[allow(non_camel_case_types)]
#[derive(PartialEq, Eq, Clone, Copy, Debug, Structural)]
pub enum Camera_Movement {
    Forward,
    Backward,
    Left,
    Right,
}

} // verus!
