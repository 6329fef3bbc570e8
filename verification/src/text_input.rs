//! Text input: a double click opens it where the pointer stands, and the
//! next press closes it.

use vstd::prelude::*;
use crate::common::Window;
use crate::draw::Canvas;
use crate::touch_cursor::WorldTouchCursor;

verus! {

/// The window after text input was opened: text goes where the pointer
/// stands. With the pointer outside the window nothing is opened.
pub open spec fn entered(window: Window) -> Window {
    match window.cursor_position {
        Some(position) => Window { ime_position: position, ime_enabled: true, ..window },
        None => window,
    }
}

/// Whether text is being entered.
pub fn is_ime_enabled(window: &Window) -> (b: bool)
    ensures
        b == window.ime_enabled,
{
    window.ime_enabled
}

/// Opens text input where the pointer stands, and tells whether it did: with
/// the pointer outside the window nothing happens.
pub fn enter_text_input(window: &mut Window) -> (opened: bool)
    ensures
        *final(window) == entered(*old(window)),
        opened == old(window).cursor_position is Some,
{
    match window.cursor_position {
        Some(position) => {
            window.ime_position = position;
            window.ime_enabled = true;
            true
        },
        None => false,
    }
}

/// Closes text input.
pub fn exit_text_input(window: &mut Window)
    ensures
        *final(window) == (Window { ime_enabled: false, ..*old(window) }),
{
    window.ime_enabled = false;
}

/// Puts a caret on the canvas where the cursor stands. The result is the
/// caret's name, and `None` where the canvas has no name left to give.
pub fn spawn_text_cursor(canvas: &mut Canvas, world_cursor: &WorldTouchCursor) -> (id: Option<u64>)
    requires
        old(canvas).wf(),
    ensures
        final(canvas).wf(),
        final(canvas)@ == old(canvas)@.spawn_text_cursor(world_cursor.0),
        id == if old(canvas)@.has_room() {
            Some(old(canvas)@.next_id)
        } else {
            None
        },
{
    canvas.spawn_text_cursor(world_cursor.0)
}

} // verus!
