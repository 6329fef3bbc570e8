//! The window as the tool sees it, and what several parts of the tool share.

use vstd::prelude::*;
use crate::draw::{Canvas, Filter};
use crate::geometry::Point;

verus! {

/// What the tool reads and sets of the window.
#[derive(Clone, Copy, Debug, PartialEq, Eq)]
pub struct Window {
    /// Where the pointer stands in the window, while it is inside.
    pub cursor_position: Option<Point>,
    /// Whether the system shows its own pointer.
    pub cursor_visible: bool,
    /// Whether text is being entered.
    pub ime_enabled: bool,
    /// Where in the window the text goes.
    pub ime_position: Point,
}

impl Window {
    /// A window without the pointer in it, which shows the system's pointer
    /// and takes no text.
    pub open spec fn initial() -> Window {
        Window {
            cursor_position: None,
            cursor_visible: true,
            ime_enabled: false,
            ime_position: Point::origin(),
        }
    }
}

impl Default for Window {
    fn default() -> (w: Window)
        ensures
            w == Window::initial(),
    {
        Window {
            cursor_position: None,
            cursor_visible: true,
            ime_enabled: false,
            ime_position: Point::zero(),
        }
    }
}

/// Lets the system show its pointer.
pub fn show_window_cursor(window: &mut Window)
    ensures
        *final(window) == (Window { cursor_visible: true, ..*old(window) }),
{
    window.cursor_visible = true;
}

/// Keeps the system from showing its pointer.
pub fn hide_window_cursor(window: &mut Window)
    ensures
        *final(window) == (Window { cursor_visible: false, ..*old(window) }),
{
    window.cursor_visible = false;
}

/// Takes every drawable that `filter` picks off the canvas. The result holds
/// their names, the oldest first.
pub fn clear_with(canvas: &mut Canvas, filter: Filter) -> (gone: Vec<u64>)
    requires
        old(canvas).wf(),
    ensures
        final(canvas).wf(),
        final(canvas)@ == old(canvas)@.clear_with(filter),
        gone@ == old(canvas)@.picked_ids(filter),
{
    canvas.clear_with(filter)
}

} // verus!
