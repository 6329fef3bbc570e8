//! The tool bar: which key and which button select which tool, and when the
//! system's pointer shows.

use vstd::prelude::*;
use crate::geometry::Point;
use crate::input::Key;
use crate::states::{RunMode, ToolButton};
use crate::touch_cursor::{Color, Cursor, TouchCursor, DEFAULT_SIZE};

verus! {

/// What the pointer does to a part of the tool bar.
#[derive(Clone, Copy, Debug, PartialEq, Eq, Hash, Structural)]
pub enum Interaction {
    Pressed,
    Hovered,
    Idle,
}

/// How the background of a tool's button is painted.
#[derive(Clone, Copy, Debug, PartialEq, Eq, Hash, Structural)]
pub enum Background {
    /// The button of the active tool.
    Focus,
    /// Any other button.
    Clear,
}

/// One button of the tool bar.
#[derive(Clone, Copy, Debug, PartialEq, Eq, Structural)]
pub struct ToolButtonConfig {
    /// The tool that the button selects.
    pub tool: ToolButton,
    /// Where the button's icon lies on the sheet of icons, in icons.
    pub pos: Point,
    /// The key that selects the tool too.
    pub key_code: Key,
    /// What the pointer looks like while the tool is active.
    pub cursor: Cursor,
}

/// The button of the selection tool.
pub open spec fn cursor_button() -> ToolButtonConfig {
    ToolButtonConfig {
        tool: ToolButton::Cursor,
        pos: Point { x: 2, y: 0 },
        key_code: Key::Tool1,
        cursor: Cursor::Default,
    }
}

/// The button of the pen.
pub open spec fn pen_button() -> ToolButtonConfig {
    ToolButtonConfig {
        tool: ToolButton::Pen,
        pos: Point { x: 0, y: 0 },
        key_code: Key::Tool2,
        cursor: Cursor::Touch(TouchCursor::initial()),
    }
}

/// The button of the eraser.
pub open spec fn eraser_button() -> ToolButtonConfig {
    ToolButtonConfig {
        tool: ToolButton::Eraser,
        pos: Point { x: 1, y: 0 },
        key_code: Key::Tool3,
        cursor: Cursor::Touch(TouchCursor::initial()),
    }
}

/// The buttons of the tool bar, from left to right.
pub open spec fn tool_bar() -> Seq<ToolButtonConfig> {
    seq![cursor_button(), pen_button(), eraser_button()]
}

/// The button that the key `key` stands for.
pub open spec fn button_of_key(key: Key) -> Option<ToolButtonConfig> {
    match key {
        Key::Tool1 => Some(cursor_button()),
        Key::Tool2 => Some(pen_button()),
        Key::Tool3 => Some(eraser_button()),
        _ => None,
    }
}

/// The tool of the last pressed button among `buttons`, if one is pressed.
pub open spec fn pressed_tool(buttons: Seq<(Interaction, ToolButton)>) -> Option<ToolButton>
    decreases buttons.len(),
{
    if buttons.len() == 0 {
        None
    } else if buttons.last().0 == Interaction::Pressed {
        Some(buttons.last().1)
    } else {
        pressed_tool(buttons.drop_last())
    }
}

/// How the button of `tool` is painted while `focused_tool` is active.
pub open spec fn background_of(tool: ToolButton, focused_tool: ToolButton) -> Background {
    if tool == focused_tool {
        Background::Focus
    } else {
        Background::Clear
    }
}

/// Whether the system shows its pointer: over the tool bar, while the active
/// tool uses the system's pointer, and while inspecting.
pub open spec fn cursor_shows(hover: bool, cursor: Cursor, run_mode: RunMode) -> bool {
    hover || cursor == Cursor::Default || run_mode == RunMode::Debug
}

/// The buttons of the tool bar, from left to right.
pub fn tool_buttons() -> (buttons: Vec<ToolButtonConfig>)
    ensures
        buttons@ == tool_bar(),
{
    let touch = TouchCursor { color: Color::new_white(), size: DEFAULT_SIZE };
    let mut buttons: Vec<ToolButtonConfig> = Vec::new();
    buttons.push(
        ToolButtonConfig {
            tool: ToolButton::Cursor,
            pos: Point { x: 2, y: 0 },
            key_code: Key::Tool1,
            cursor: Cursor::Default,
        },
    );
    buttons.push(
        ToolButtonConfig {
            tool: ToolButton::Pen,
            pos: Point { x: 0, y: 0 },
            key_code: Key::Tool2,
            cursor: Cursor::Touch(touch),
        },
    );
    buttons.push(
        ToolButtonConfig {
            tool: ToolButton::Eraser,
            pos: Point { x: 1, y: 0 },
            key_code: Key::Tool3,
            cursor: Cursor::Touch(touch),
        },
    );
    assert(buttons@ =~= tool_bar());
    buttons
}

/// Whether the pointer is over the tool bar, pressing it or not. `None`
/// stands for a tool bar that is not there.
pub fn is_hover_tool_button_bar(interaction: Option<Interaction>) -> (hover: bool)
    ensures
        hover == (interaction == Some(Interaction::Pressed) || interaction == Some(
            Interaction::Hovered,
        )),
{
    match interaction {
        Some(Interaction::Pressed) => true,
        Some(Interaction::Hovered) => true,
        _ => false,
    }
}

/// Paints the buttons and tells which tool they select. The button of the
/// active tool is painted as in focus and every other one is left clear; a
/// pressed button selects its tool, the last one where several are pressed.
pub fn update_tool_button_background(
    interaction_query: &Vec<(Interaction, ToolButton)>,
    focused_tool: ToolButton,
) -> (painted: (Vec<Background>, Option<ToolButton>))
    ensures
        painted.0@.len() == interaction_query@.len(),
        forall|i: int|
            0 <= i < interaction_query@.len() ==> #[trigger] painted.0@[i] == background_of(
                interaction_query@[i].1,
                focused_tool,
            ),
        painted.1 == pressed_tool(interaction_query@),
{
    let mut backgrounds: Vec<Background> = Vec::new();
    let mut next: Option<ToolButton> = None;
    let mut i: usize = 0;
    while i < interaction_query.len()
        invariant
            i <= interaction_query.len(),
            backgrounds@.len() == i,
            forall|j: int|
                0 <= j < i ==> #[trigger] backgrounds@[j] == background_of(
                    interaction_query@[j].1,
                    focused_tool,
                ),
            next == pressed_tool(interaction_query@.take(i as int)),
        decreases interaction_query.len() - i,
    {
        assert(interaction_query@.take(i + 1).drop_last() =~= interaction_query@.take(i as int));
        let (interaction, tool) = interaction_query[i];
        if matches!(interaction, Interaction::Pressed) {
            next = Some(tool);
        }
        if tool == focused_tool {
            backgrounds.push(Background::Focus);
        } else {
            backgrounds.push(Background::Clear);
        }
        i += 1;
    }
    assert(interaction_query@.take(i as int) =~= interaction_query@);
    (backgrounds, next)
}

/// The button that the key `key` stands for: its tool becomes the active
/// one and its pointer the shown one when the key goes down.
pub fn focused_tool_by_key_code(key: Key) -> (button: Option<ToolButtonConfig>)
    ensures
        button == button_of_key(key),
{
    let touch = TouchCursor { color: Color::new_white(), size: DEFAULT_SIZE };
    match key {
        Key::Tool1 => Some(
            ToolButtonConfig {
                tool: ToolButton::Cursor,
                pos: Point { x: 2, y: 0 },
                key_code: Key::Tool1,
                cursor: Cursor::Default,
            },
        ),
        Key::Tool2 => Some(
            ToolButtonConfig {
                tool: ToolButton::Pen,
                pos: Point { x: 0, y: 0 },
                key_code: Key::Tool2,
                cursor: Cursor::Touch(touch),
            },
        ),
        Key::Tool3 => Some(
            ToolButtonConfig {
                tool: ToolButton::Eraser,
                pos: Point { x: 1, y: 0 },
                key_code: Key::Tool3,
                cursor: Cursor::Touch(touch),
            },
        ),
        _ => None,
    }
}

/// Whether the system is to show its pointer.
pub fn window_cursor_shows(hover: bool, cursor: &Cursor, run_mode: RunMode) -> (shows: bool)
    ensures
        shows == cursor_shows(hover, *cursor, run_mode),
{
    hover || cursor.is_default() || matches!(run_mode, RunMode::Debug)
}

/// A key stands for the button of the tool bar that names it, and for no
/// other.
pub proof fn lemma_keys_match_tool_bar(key: Key)
    ensures
        match button_of_key(key) {
            Some(button) => button.key_code == key && tool_bar().contains(button),
            None => forall|i: int| 0 <= i < tool_bar().len() ==> (#[trigger] tool_bar()[i]).key_code != key,
        },
{
    assert(tool_bar()[0] == cursor_button());
    assert(tool_bar()[1] == pen_button());
    assert(tool_bar()[2] == eraser_button());
}

} // verus!
