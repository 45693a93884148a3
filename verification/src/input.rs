//! Action states as the host reports them each tick.

use vstd::prelude::*;

verus! {

/// The state of an action during one tick.
#[derive(Debug, Clone, Copy, PartialEq, Eq, Structural, Hash)]
pub enum ActionStateKind {
    /// Not pressed, and not released this tick either.
    Idle,
    /// Pressed since this tick.
    JustPressed,
    /// Held down.
    Pressed,
    /// Released since this tick.
    JustReleased,
}

impl ActionStateKind {
    /// Whether the action went down this very tick.
    pub fn is_just_pressed(self) -> (r: bool)
        ensures
            r == (self == ActionStateKind::JustPressed),
    {
        matches!(self, ActionStateKind::JustPressed)
    }

    /// Whether the action is down, whether it went down now or earlier.
    pub fn is_pressed(self) -> (r: bool)
        ensures
            r == (self == ActionStateKind::JustPressed || self == ActionStateKind::Pressed),
    {
        matches!(self, ActionStateKind::JustPressed | ActionStateKind::Pressed)
    }

    /// Whether the action came up this very tick.
    pub fn is_just_released(self) -> (r: bool)
        ensures
            r == (self == ActionStateKind::JustReleased),
    {
        matches!(self, ActionStateKind::JustReleased)
    }

    /// Whether the action is up, whether it came up now or earlier.
    pub fn is_released(self) -> (r: bool)
        ensures
            r == (self == ActionStateKind::JustReleased || self == ActionStateKind::Idle),
    {
        matches!(self, ActionStateKind::JustReleased | ActionStateKind::Idle)
    }
}

/// The state of an action, with the cockpit it was triggered in, if any.
#[derive(Debug, Clone, Copy, PartialEq, Eq, Structural)]
pub struct ActionState {
    /// What the action is doing this tick.
    pub kind: ActionStateKind,
    /// The cockpit the triggering input belongs to, if the action is bound
    /// to one.
    pub cockpit_index: Option<usize>,
}


/// A physical key an action can be bound to by default.
#[derive(Debug, Clone, Copy, PartialEq, Eq, Structural, Hash)]
pub enum KeyCode {
    Space,
    ArrowUp,
    ArrowDown,
    ArrowLeft,
    ArrowRight,
    KeyA,
    KeyB,
    KeyC,
    KeyD,
    KeyE,
    KeyF,
    KeyG,
    KeyH,
    KeyI,
    KeyJ,
    KeyK,
    KeyL,
    KeyM,
    KeyN,
    KeyO,
    KeyP,
    KeyQ,
    KeyR,
    KeyS,
    KeyT,
    KeyU,
    KeyV,
    KeyW,
    KeyX,
    KeyY,
    KeyZ,
    Digit0,
    Digit1,
    Digit2,
    Digit3,
    Digit4,
    Digit5,
    Digit6,
    Digit7,
    Digit8,
    Digit9,
    Numpad0,
    Numpad1,
    Numpad2,
    Numpad3,
    Numpad4,
    Numpad5,
    Numpad6,
    Numpad7,
    Numpad8,
    Numpad9,
    NumpadAdd,
    NumpadSubtract,
    NumpadMultiply,
    NumpadDivide,
    NumpadDecimal,
    NumpadEnter,
}

} // verus!
