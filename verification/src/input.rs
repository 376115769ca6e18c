use vstd::prelude::*;

verus! {

/// The keys the simulation listens for; every other key is `Other`.
#[derive(Clone, Copy, Debug, PartialEq, Eq, Structural)]
pub enum Key {
    Escape,
    Q,
    P,
    R,
    D,
    Return,
    Other,
}

/// The pointer buttons the simulation listens for.
#[derive(Clone, Copy, Debug, PartialEq, Eq, Structural)]
pub enum MouseButton {
    Left,
    Right,
    Other,
}

/// One thing the host saw happen. Pointer positions are in pixels from the
/// window's top-left corner and may lie outside the window.
#[derive(Clone, Copy, Debug, PartialEq, Eq, Structural)]
pub enum Event {
    Quit,
    KeyDown { key: Key },
    MouseButtonDown { button: MouseButton, x: i32, y: i32 },
    MouseButtonUp { button: MouseButton, x: i32, y: i32 },
    MouseMotion { x: i32, y: i32 },
    Other,
}

/// A write to the board was asked for while the pointer, at pixel `(x, y)`,
/// was not over any square.
#[derive(Clone, Copy, Debug, PartialEq, Eq, Structural)]
pub struct PointerOffBoard {
    pub x: i32,
    pub y: i32,
}

} // verus!
