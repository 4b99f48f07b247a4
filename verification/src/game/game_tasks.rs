use vstd::prelude::*;

verus! {

/// A mouse button.
#[derive(Copy, Clone, PartialEq, Eq, Structural, Debug)]
pub enum Button {
    Left,
    Right,
    Middle,
    XButton1,
    XButton2,
}

/// A mouse wheel.
#[derive(Copy, Clone, PartialEq, Eq, Structural, Debug)]
pub enum Wheel {
    VerticalWheel,
    HorizontalWheel,
}

/// The keys the game tells apart. The digits of the number row and of the
/// number pad count alike; every key without a meaning is `Other`.
#[derive(Copy, Clone, PartialEq, Eq, Structural, Debug)]
pub enum Key {
    Num0,
    Num1,
    Num2,
    Num3,
    Num4,
    Num5,
    Num6,
    Num7,
    Num8,
    Num9,
    Numpad0,
    Numpad1,
    Numpad2,
    Numpad3,
    Numpad4,
    Numpad5,
    Numpad6,
    Numpad7,
    Numpad8,
    Numpad9,
    R,
    Q,
    Other,
}

impl Key {
    /// The digit a key stands for, if it is a digit key.
    pub open spec fn digit_value(self) -> Option<u8> {
        match self {
            Key::Num0 | Key::Numpad0 => Some(0u8),
            Key::Num1 | Key::Numpad1 => Some(1u8),
            Key::Num2 | Key::Numpad2 => Some(2u8),
            Key::Num3 | Key::Numpad3 => Some(3u8),
            Key::Num4 | Key::Numpad4 => Some(4u8),
            Key::Num5 | Key::Numpad5 => Some(5u8),
            Key::Num6 | Key::Numpad6 => Some(6u8),
            Key::Num7 | Key::Numpad7 => Some(7u8),
            Key::Num8 | Key::Numpad8 => Some(8u8),
            Key::Num9 | Key::Numpad9 => Some(9u8),
            _ => None,
        }
    }

    /// The digit a key stands for, if it is a digit key.
    pub fn digit(self) -> (d: Option<u8>)
        ensures
            d == self.digit_value(),
            d matches Some(v) ==> v <= 9,
    {
        match self {
            Key::Num0 | Key::Numpad0 => Some(0),
            Key::Num1 | Key::Numpad1 => Some(1),
            Key::Num2 | Key::Numpad2 => Some(2),
            Key::Num3 | Key::Numpad3 => Some(3),
            Key::Num4 | Key::Numpad4 => Some(4),
            Key::Num5 | Key::Numpad5 => Some(5),
            Key::Num6 | Key::Numpad6 => Some(6),
            Key::Num7 | Key::Numpad7 => Some(7),
            Key::Num8 | Key::Numpad8 => Some(8),
            Key::Num9 | Key::Numpad9 => Some(9),
            _ => None,
        }
    }
}

/// What an input event asks of the game. Positions are window pixels; the
/// scroll distance of `MouseWheelScrolled` is counted in thousandths of a
/// notch.
#[derive(Copy, Clone, PartialEq, Eq, Structural, Debug)]
pub enum GameTasks {
    /// No operation.
    NOP,
    ClickPressed(Button, i32, i32),
    ClickReleased(Button, i32, i32),
    MouseWheelScrolled(Wheel, i32, i32, i32),
    Typed(Key),
    Close,
}

} // verus!
