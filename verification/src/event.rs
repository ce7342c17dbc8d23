//! Pointer and timer events, as the simulation reads them.

use vstd::prelude::*;
use crate::geometry::Point;

verus! {

/// The button that a pointer event is about.
#[derive(Clone, Copy, Debug, PartialEq, Eq, Structural)]
pub enum MouseButton {
    /// No button: the pointer only moved.
    NoButton,
    Left,
    Right,
    Middle,
    X1,
    X2,
}

/// The buttons that are held down during a pointer event.
#[derive(Clone, Copy, Debug, PartialEq, Eq, Structural)]
pub struct MouseButtons {
    pub left: bool,
    pub right: bool,
}

impl MouseButtons {
    /// Whether the left button is held down.
    pub fn has_left(&self) -> (held: bool)
        ensures
            held == self.left,
    {
        self.left
    }

    /// Whether the right button is held down.
    pub fn has_right(&self) -> (held: bool)
        ensures
            held == self.right,
    {
        self.right
    }
}

/// A pointer event: where, which button, and which buttons are down.
#[derive(Clone, Copy, Debug, PartialEq, Eq, Structural)]
pub struct MouseEvent {
    pub pos: Point,
    pub buttons: MouseButtons,
    pub button: MouseButton,
}

/// What can happen to the surface.
#[derive(Clone, Copy, Debug, PartialEq, Eq, Structural)]
pub enum Event {
    /// The surface has come up.
    WindowConnected,
    /// The frame timer has fired.
    Timer,
    MouseDown(MouseEvent),
    MouseUp(MouseEvent),
    MouseMove(MouseEvent),
    /// Anything else.
    Other,
}

} // verus!
