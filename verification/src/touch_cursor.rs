//! The touch cursor: the round tip that draws and erases, and where it
//! stands on the canvas.

use vstd::prelude::*;
use crate::geometry::{clamp_i32, saturate, Point};

verus! {

/// A colour with eight bits for each of red, green, blue and opacity.
#[derive(Clone, Copy, Debug, PartialEq, Eq, Hash, Structural)]
pub struct Color {
    pub r: u8,
    pub g: u8,
    pub b: u8,
    pub a: u8,
}

impl Color {
    pub open spec fn white() -> Color {
        Color { r: 255, g: 255, b: 255, a: 255 }
    }

    /// Opaque white.
    pub fn new_white() -> (c: Color)
        ensures
            c == Color::white(),
    {
        Color { r: 255, g: 255, b: 255, a: 255 }
    }
}

/// The size of a touch cursor that nobody has resized.
pub const DEFAULT_SIZE: i32 = 1600;

/// By how much one tick with a size key down changes the size.
pub const SIZE_STEP: i32 = 50;

/// The tip of the pen and of the eraser. Its size is the width of a stroke
/// and the reach of the eraser.
#[derive(Clone, Copy, Debug, PartialEq, Eq, Structural)]
pub struct TouchCursor {
    pub color: Color,
    pub size: i32,
}

/// What the pointer looks like: the round tip, or the arrow of the system.
#[derive(Clone, Copy, Debug, PartialEq, Eq, Structural)]
pub enum Cursor {
    Touch(TouchCursor),
    Default,
}

/// Where the pointer stands on the canvas.
#[derive(Clone, Copy, Debug, PartialEq, Eq, Structural)]
pub struct WorldTouchCursor(pub Point);

impl TouchCursor {
    /// The white tip of `DEFAULT_SIZE`.
    pub open spec fn initial() -> TouchCursor {
        TouchCursor { color: Color::white(), size: DEFAULT_SIZE }
    }

    /// The tip after one tick in which the keys that shrink and grow it are
    /// down or not. The size stops at the ends of its range.
    pub open spec fn resized(self, shrink: bool, grow: bool) -> TouchCursor {
        let shrunk = if shrink {
            clamp_i32(self.size - SIZE_STEP)
        } else {
            self.size as int
        };
        let grown = if grow {
            clamp_i32(shrunk + SIZE_STEP)
        } else {
            shrunk
        };
        TouchCursor { size: grown as i32, ..self }
    }
}

impl Cursor {
    /// The pointer after one tick in which the size keys are down or not.
    /// The arrow of the system has no size to change.
    pub open spec fn resized(self, shrink: bool, grow: bool) -> Cursor {
        match self {
            Cursor::Touch(touch_cursor) => Cursor::Touch(touch_cursor.resized(shrink, grow)),
            Cursor::Default => Cursor::Default,
        }
    }

    /// The round tip, where the pointer shows one.
    pub open spec fn touch(self) -> Option<TouchCursor> {
        match self {
            Cursor::Touch(touch_cursor) => Some(touch_cursor),
            Cursor::Default => None,
        }
    }

    /// The round tip, where the pointer shows one.
    pub fn touch_cursor(&self) -> (t: Option<TouchCursor>)
        ensures
            t == self.touch(),
    {
        match self {
            Cursor::Touch(touch_cursor) => Some(*touch_cursor),
            Cursor::Default => None,
        }
    }

    /// Whether the pointer is the arrow of the system.
    pub fn is_default(&self) -> (b: bool)
        ensures
            b == (*self == Cursor::Default),
    {
        matches!(self, Cursor::Default)
    }
}

impl Default for Cursor {
    fn default() -> (c: Cursor)
        ensures
            c == Cursor::Touch(TouchCursor::initial()),
    {
        Cursor::Touch(TouchCursor { color: Color::new_white(), size: DEFAULT_SIZE })
    }
}

impl Default for WorldTouchCursor {
    fn default() -> (w: WorldTouchCursor)
        ensures
            w == WorldTouchCursor(Point::origin()),
    {
        WorldTouchCursor(Point::zero())
    }
}

/// Applies the size keys of one tick to the pointer: with `shrink` the tip
/// loses `SIZE_STEP`, with `grow` it gains as much.
pub fn update_touch_cursor_size(cursor: &mut Cursor, shrink: bool, grow: bool)
    ensures
        *final(cursor) == old(cursor).resized(shrink, grow),
{
    if let Cursor::Touch(touch_cursor) = *cursor {
        let mut size: i32 = touch_cursor.size;
        if shrink {
            size = saturate(size as i128 - SIZE_STEP as i128);
        }
        if grow {
            size = saturate(size as i128 + SIZE_STEP as i128);
        }
        *cursor = Cursor::Touch(TouchCursor { color: touch_cursor.color, size });
    }
}

/// Moves the cursor to `position`, where the camera could tell one, and
/// tells whether it stands somewhere else than before.
pub fn update_world_torch_cursor(
    world_touch_cursor: &mut WorldTouchCursor,
    position: Option<Point>,
) -> (changed: bool)
    ensures
        changed == (position is Some && position != Some(old(world_touch_cursor).0)),
        final(world_touch_cursor).0 == if changed {
            position->0
        } else {
            old(world_touch_cursor).0
        },
{
    match position {
        Some(point) => {
            if world_touch_cursor.0 != point {
                *world_touch_cursor = WorldTouchCursor(point);
                true
            } else {
                false
            }
        },
        None => false,
    }
}

} // verus!
