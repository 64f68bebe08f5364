use vstd::prelude::*;

verus! {

/// Ways the camera can move, independent of the window system's input.
#[derive(PartialEq, Eq, Clone, Copy, Debug, Structural)]
pub enum CameraMovement {
    Forward,
    Backward,
    Left,
    Right,
    Up,
    Down,
}

} // verus!
