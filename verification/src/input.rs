//! What the platform reports: buttons, keys, pointer travel and the wheel.

use vstd::prelude::*;
use crate::geometry::Point;

verus! {

/// A button of the pointing device.
#[derive(Clone, Copy, Debug, PartialEq, Eq, Hash, Structural)]
pub enum MouseButton {
    Left,
    Right,
    Middle,
}

/// The edge that a button or key went through.
#[derive(Clone, Copy, Debug, PartialEq, Eq, Hash, Structural)]
pub enum ButtonState {
    Pressed,
    Released,
}

/// The keys that the tool listens to, named by what they do.
#[derive(Clone, Copy, Debug, PartialEq, Eq, Hash, Structural)]
pub enum Key {
    /// Switches between editing and inspecting.
    RunMode,
    /// Held to drag the camera.
    Pan,
    /// Held to scroll with the wheel and to complete the undo chord.
    Modifier,
    /// Removes the newest stroke while `Modifier` is held.
    Undo,
    /// Makes the touch cursor smaller.
    Shrink,
    /// Makes the touch cursor larger.
    Grow,
    /// Selects the first tool of the tool bar.
    Tool1,
    /// Selects the second tool of the tool bar.
    Tool2,
    /// Selects the third tool of the tool bar.
    Tool3,
    /// Wipes every stroke off the canvas.
    Clear,
    /// Flips strokes between their two materials.
    Toggle,
}

/// A button of the pointing device went down or up.
#[derive(Clone, Copy, Debug, PartialEq, Eq)]
pub struct MouseButtonInput {
    pub button: MouseButton,
    pub state: ButtonState,
    /// The window that received the event.
    pub window: u64,
    /// When the event happened, in milliseconds since start-up.
    pub time: u64,
}

/// One report of the platform.
#[derive(Clone, Copy, Debug, PartialEq, Eq)]
pub enum InputEvent {
    /// A button of the pointing device went down or up.
    Button(MouseButtonInput),
    /// The pointer moved inside the window. `world` is the same position on
    /// the canvas, where the camera could tell it.
    CursorMoved { window: Point, world: Option<Point> },
    /// The pointer left the window.
    CursorLeft,
    /// The wheel turned by `y` notches.
    Wheel { y: i32 },
    /// A key went down or up.
    Keyboard { key: Key, state: ButtonState },
}

impl MouseButtonInput {
    /// The left button went down.
    pub open spec fn is_left_press(self) -> bool {
        self.button == MouseButton::Left && self.state == ButtonState::Pressed
    }

    /// The left button went up.
    pub open spec fn is_left_release(self) -> bool {
        self.button == MouseButton::Left && self.state == ButtonState::Released
    }

    /// Whether the left button went down.
    pub fn left_pressed(&self) -> (b: bool)
        ensures
            b == self.is_left_press(),
    {
        matches!(self.button, MouseButton::Left) && matches!(self.state, ButtonState::Pressed)
    }

    /// Whether the left button went up.
    pub fn left_released(&self) -> (b: bool)
        ensures
            b == self.is_left_release(),
    {
        matches!(self.button, MouseButton::Left) && matches!(self.state, ButtonState::Released)
    }
}

impl InputEvent {
    /// The left button went down.
    pub open spec fn is_left_press(self) -> bool {
        self matches InputEvent::Button(b) && b.is_left_press()
    }

    /// The left button went up.
    pub open spec fn is_left_release(self) -> bool {
        self matches InputEvent::Button(b) && b.is_left_release()
    }

    /// The key `key` went down.
    pub open spec fn is_key_press(self, key: Key) -> bool {
        self == (InputEvent::Keyboard { key, state: ButtonState::Pressed })
    }

    /// The key `key` went up.
    pub open spec fn is_key_release(self, key: Key) -> bool {
        self == (InputEvent::Keyboard { key, state: ButtonState::Released })
    }
}

} // verus!
