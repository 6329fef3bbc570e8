use lines::common::Window;
use lines::draw::Tag;
use lines::focus::HoveredMesh;
use lines::geometry::{Aabb, Point};
use lines::input::{ButtonState, InputEvent, Key, MouseButton, MouseButtonInput};
use lines::projection_2d_control::MainCamera;
use lines::selected::Selected;
use lines::session::{Held, Session};
use lines::states::{CursorState, RunMode, ToolButton, Transition};
use lines::touch_cursor::{Color, Cursor, TouchCursor};
use lines::ui::Interaction;

fn p(x: i32, y: i32) -> Point {
    Point::new(x, y)
}

fn left_down(time: u64) -> InputEvent {
    InputEvent::Button(MouseButtonInput {
        button: MouseButton::Left,
        state: ButtonState::Pressed,
        window: 0,
        time,
    })
}

fn left_up(time: u64) -> InputEvent {
    InputEvent::Button(MouseButtonInput {
        button: MouseButton::Left,
        state: ButtonState::Released,
        window: 0,
        time,
    })
}

fn key_down(key: Key) -> InputEvent {
    InputEvent::Keyboard { key, state: ButtonState::Pressed }
}

fn key_up(key: Key) -> InputEvent {
    InputEvent::Keyboard { key, state: ButtonState::Released }
}

/// The pointer moves to the same place in the window and on the canvas.
fn move_to(x: i32, y: i32) -> InputEvent {
    InputEvent::CursorMoved { window: p(x, y), world: Some(p(x, y)) }
}

/// Draws a stroke with the pen from `from` to `to` in three ticks.
fn draw(session: &mut Session, from: Point, to: Point, time: u64) {
    session.tick(&vec![move_to(from.x, from.y), left_down(time)], None);
    session.tick(&vec![move_to(to.x, to.y)], None);
    session.tick(&vec![left_up(time + 1)], None);
}

fn ids(session: &Session) -> Vec<u64> {
    session.canvas().drawables().iter().map(|d| d.id).collect()
}

#[test]
fn new_session_has_done_nothing() {
    let session = Session::new();
    assert_eq!(session.states().cursor_state(), CursorState::Hovering);
    assert_eq!(session.states().run_mode(), RunMode::Normal);
    assert_eq!(session.states().tool(), ToolButton::Pen);
    assert_eq!(session.canvas().len(), 0);
    assert_eq!(session.camera(), MainCamera { translation: p(0, 0), scale: 100 });
    assert_eq!(session.cursor(), Cursor::default());
    assert_eq!(session.world_touch_cursor().0, p(0, 0));
    assert_eq!(session.window(), Window::default());
    assert_eq!(session.selected(), &Selected(Vec::new()));
    assert_eq!(session.hovered_mesh(), HoveredMesh(None));
    assert_eq!(
        session.held(),
        Held { left: false, modifier: false, shrink: false, grow: false }
    );
    assert!(!session.is_bundle_0());
    assert!(session.nodes().is_empty());
}

#[test]
fn pen_draws_a_stroke_along_the_pointer() {
    let mut session = Session::new();
    assert!(session.tick(&vec![move_to(1000, 0), left_down(0)], None));
    assert_eq!(session.states().cursor_state(), CursorState::Drawing);
    assert_eq!(session.canvas().focused(), Some(0));
    assert_eq!(session.canvas().drawables()[0].points, vec![p(1000, 0)]);
    assert_eq!(session.canvas().drawables()[0].width, 1600);
    assert_eq!(session.canvas().drawables()[0].color, Color { r: 255, g: 255, b: 255, a: 255 });
    assert!(!session.tick(&vec![move_to(1100, 0)], None));
    assert!(!session.tick(&Vec::new(), None));
    assert!(session.tick(&vec![move_to(1100, 100), move_to(1300, 0)], None));
    assert_eq!(session.canvas().drawables()[0].points, vec![p(1000, 0), p(1300, 0)]);
    assert!(!session.tick(&vec![left_up(10)], None));
    assert_eq!(session.states().cursor_state(), CursorState::Hovering);
    assert_eq!(session.canvas().focused(), None);
    assert_eq!(session.canvas().len(), 1);
    assert!(!session.canvas().drawables()[0].focused);
}

#[test]
fn a_click_that_never_moved_leaves_no_stroke() {
    let mut session = Session::new();
    assert_eq!(
        session.handle_input(&left_down(0)),
        Some(Transition::Cursor { from: CursorState::Hovering, to: CursorState::Drawing })
    );
    assert_eq!(session.canvas().focused(), Some(0));
    assert!(!session.update(false));
    assert_eq!(
        session.handle_input(&left_up(5)),
        Some(Transition::Cursor { from: CursorState::Drawing, to: CursorState::Hovering })
    );
    assert_eq!(session.canvas().len(), 0);
}

#[test]
fn pen_does_not_draw_while_inspecting() {
    let mut session = Session::new();
    session.tick(&vec![move_to(1000, 0), left_down(0)], None);
    session.tick(&vec![key_down(Key::RunMode), move_to(3000, 0)], None);
    assert_eq!(session.canvas().drawables()[0].points, vec![p(1000, 0)]);
    session.tick(&vec![left_up(9)], None);
    assert_eq!(session.states().cursor_state(), CursorState::Drawing);
    assert_eq!(session.canvas().focused(), Some(0));
    session.tick(&vec![key_up(Key::RunMode), left_up(10)], None);
    assert_eq!(session.canvas().focused(), None);
}

#[test]
fn undo_chord_takes_the_newest_stroke() {
    let mut session = Session::new();
    draw(&mut session, p(1000, 0), p(2000, 0), 0);
    draw(&mut session, p(1000, 1000), p(2000, 1000), 1000);
    draw(&mut session, p(1000, 2000), p(2000, 2000), 2000);
    assert_eq!(ids(&session), vec![0, 1, 2]);
    session.tick(&vec![key_down(Key::Undo)], None);
    assert_eq!(ids(&session), vec![0, 1, 2]);
    session.tick(&vec![key_down(Key::Modifier), key_down(Key::Undo)], None);
    assert_eq!(ids(&session), vec![0, 1]);
    session.tick(&vec![key_up(Key::Undo), key_down(Key::Undo), key_down(Key::Undo)], None);
    assert!(ids(&session).is_empty());
    session.tick(&vec![key_down(Key::Undo)], None);
    assert!(ids(&session).is_empty());
    session.tick(&vec![key_up(Key::Modifier)], None);
    assert!(!session.held().modifier);
}

#[test]
fn clear_key_wipes_the_strokes() {
    let mut session = Session::new();
    draw(&mut session, p(1000, 0), p(2000, 0), 0);
    draw(&mut session, p(1000, 1000), p(2000, 1000), 1000);
    session.tick(&vec![key_up(Key::Clear)], None);
    assert_eq!(session.canvas().len(), 2);
    session.tick(&vec![key_down(Key::Clear)], None);
    assert_eq!(session.canvas().len(), 0);
}

#[test]
fn eraser_takes_what_the_pointer_touches() {
    let mut session = Session::new();
    draw(&mut session, p(1000, 1000), p(1000, 1300), 0);
    draw(&mut session, p(9000, 9000), p(9000, 9300), 1000);
    session.tick(&vec![key_down(Key::Tool3)], None);
    assert_eq!(session.states().tool(), ToolButton::Eraser);
    session.tick(&vec![move_to(1000, 2900)], None);
    assert_eq!(ids(&session), vec![0, 1]);
    session.tick(&vec![left_down(5000)], None);
    assert_eq!(ids(&session), vec![0, 1]);
    session.tick(&vec![move_to(1000, 2901)], None);
    assert_eq!(ids(&session), vec![0, 1]);
    session.tick(&vec![move_to(1000, 2900)], None);
    assert_eq!(ids(&session), vec![1]);
    session.tick(&vec![left_up(5001)], None);
    assert_eq!(session.canvas().focused(), None);
    assert_eq!(ids(&session), vec![1]);
}

#[test]
fn pan_key_and_drag_move_the_camera() {
    let mut session = Session::new();
    session.tick(&vec![InputEvent::Wheel { y: 50 }], None);
    assert_eq!(session.camera().scale, 150);
    assert_eq!(
        session.handle_input(&key_down(Key::Pan)),
        Some(Transition::Tool { from: ToolButton::Pen, to: ToolButton::MoveCamera })
    );
    session.handle_input(&InputEvent::CursorMoved { window: p(10, 10), world: Some(p(15, 15)) });
    assert_eq!(
        session.handle_input(&left_down(0)),
        Some(Transition::Cursor { from: CursorState::Hovering, to: CursorState::PanningCamera })
    );
    session.update(false);
    assert_eq!(session.camera().translation, p(0, 0));
    assert_eq!(session.canvas().len(), 0);
    session.tick(&vec![InputEvent::CursorMoved { window: p(15, 13), world: None }], None);
    assert_eq!(session.camera().translation, p(-5 * 150, 3 * 150));
    session.tick(&vec![InputEvent::CursorLeft], None);
    assert_eq!(session.camera().translation, p(-750, 450));
    assert_eq!(session.window().cursor_position, None);
    session.tick(&vec![left_up(9), key_up(Key::Pan)], None);
    assert_eq!(session.states().cursor_state(), CursorState::Hovering);
    assert_eq!(session.states().tool(), ToolButton::Pen);
    assert_eq!(session.camera(), MainCamera { translation: p(-750, 450), scale: 150 });
}

#[test]
fn wheel_zooms_and_scrolls_while_hovering_and_editing() {
    let mut session = Session::new();
    session.tick(&vec![InputEvent::Wheel { y: 2 }, InputEvent::Wheel { y: 3 }], None);
    assert_eq!(session.camera(), MainCamera { translation: p(0, 0), scale: 105 });
    session.tick(&vec![key_down(Key::Modifier), InputEvent::Wheel { y: -1 }], None);
    assert_eq!(session.camera(), MainCamera { translation: p(0, -20 * 105), scale: 105 });
    session.tick(&vec![key_up(Key::Modifier), key_down(Key::RunMode), InputEvent::Wheel { y: 9 }], None);
    assert_eq!(session.camera().scale, 105);
    session.tick(&vec![key_up(Key::RunMode)], None);
    assert_eq!(session.camera().scale, 105);
    session.tick(&vec![left_down(0), InputEvent::Wheel { y: 9 }], None);
    assert_eq!(session.camera().scale, 105);
}

#[test]
fn tool_keys_select_tool_and_pointer() {
    let mut session = Session::new();
    assert_eq!(
        session.handle_input(&key_down(Key::Tool1)),
        Some(Transition::Tool { from: ToolButton::Pen, to: ToolButton::Cursor })
    );
    assert_eq!(session.cursor(), Cursor::Default);
    session.update(false);
    assert!(session.window().cursor_visible);
    session.handle_input(&key_down(Key::Tool3));
    assert_eq!(session.states().tool(), ToolButton::Eraser);
    assert_eq!(session.cursor(), Cursor::default());
    session.update(false);
    assert!(!session.window().cursor_visible);
    session.handle_input(&key_down(Key::RunMode));
    assert_eq!(session.handle_input(&key_down(Key::Tool2)), None);
    assert_eq!(session.states().tool(), ToolButton::Eraser);
    session.update(false);
    assert!(session.window().cursor_visible);
    assert_eq!(session.handle_input(&key_up(Key::Tool2)), None);
}

#[test]
fn tool_bar_shows_the_system_pointer() {
    let mut session = Session::new();
    session.tick(&Vec::new(), Some(Interaction::Hovered));
    assert!(session.window().cursor_visible);
    session.tick(&Vec::new(), Some(Interaction::Idle));
    assert!(!session.window().cursor_visible);
    session.tick(&Vec::new(), Some(Interaction::Pressed));
    assert!(session.window().cursor_visible);
    session.tick(&Vec::new(), None);
    assert!(!session.window().cursor_visible);
}

#[test]
fn button_of_the_tool_bar_selects_a_tool() {
    let mut session = Session::new();
    assert_eq!(
        session.select_tool(ToolButton::Eraser),
        Some(Transition::Tool { from: ToolButton::Pen, to: ToolButton::Eraser })
    );
    assert_eq!(session.cursor(), Cursor::default());
    session.handle_input(&key_down(Key::RunMode));
    assert_eq!(session.select_tool(ToolButton::Pen), None);
    assert_eq!(session.states().tool(), ToolButton::Eraser);
}

#[test]
fn size_keys_resize_the_touch_cursor_each_tick() {
    let mut session = Session::new();
    session.tick(&vec![key_down(Key::Grow)], None);
    session.tick(&Vec::new(), None);
    assert_eq!(
        session.cursor(),
        Cursor::Touch(TouchCursor { color: Color { r: 255, g: 255, b: 255, a: 255 }, size: 1700 })
    );
    session.tick(&vec![key_up(Key::Grow), key_down(Key::Shrink)], None);
    assert_eq!(session.cursor().touch_cursor().unwrap().size, 1650);
    session.tick(&vec![key_up(Key::Shrink)], None);
    assert_eq!(session.cursor().touch_cursor().unwrap().size, 1650);
    draw(&mut session, p(1000, 0), p(2000, 0), 0);
    assert_eq!(session.canvas().drawables()[0].width, 1650);
}

#[test]
fn toggle_key_flips_on_both_edges() {
    let mut session = Session::new();
    session.handle_input(&key_down(Key::Toggle));
    assert!(session.is_bundle_0());
    session.handle_input(&key_up(Key::Toggle));
    assert!(!session.is_bundle_0());
}

#[test]
fn selection_tool_selects_and_hovers() {
    let mut session = Session::new();
    draw(&mut session, p(1000, 0), p(2000, 0), 0);
    draw(&mut session, p(1500, 0), p(2500, 0), 1000);
    assert!(session.set_aabb(0, Some(Aabb::new(p(1500, 0), p(1300, 800)))));
    assert!(session.set_aabb(1, Some(Aabb::new(p(2000, 0), p(1300, 800)))));
    assert!(!session.set_aabb(2, Some(Aabb::new(p(0, 0), p(1, 1)))));
    assert_eq!(session.nodes().len(), 2);
    session.tick(&vec![key_down(Key::Tool1), move_to(500, 0)], None);
    assert_eq!(session.hovered_mesh(), HoveredMesh(Some(0)));
    session.tick(&vec![move_to(1000, 0)], None);
    assert_eq!(session.hovered_mesh(), HoveredMesh(Some(1)));
    session.tick(&vec![left_down(5000)], None);
    assert_eq!(session.selected(), &Selected(vec![1]));
    assert_eq!(session.canvas().len(), 2);
    session.tick(&vec![move_to(3000, 0)], None);
    assert_eq!(session.hovered_mesh(), HoveredMesh(Some(1)));
    session.tick(&vec![left_up(5900)], None);
    assert_eq!(session.selected(), &Selected(vec![1]));
    session.tick(&vec![move_to(3001, 0)], None);
    assert_eq!(session.hovered_mesh(), HoveredMesh(None));
    session.tick(&vec![move_to(250, 0)], None);
    assert_eq!(session.hovered_mesh(), HoveredMesh(Some(0)));
    session.tick(&vec![left_down(9000), left_up(9900)], None);
    assert_eq!(session.selected(), &Selected(vec![0]));
    session.tick(&vec![move_to(0, 0), left_down(20000), left_up(20900)], None);
    assert_eq!(session.selected(), &Selected(Vec::new()));
    assert_eq!(session.hovered_mesh(), HoveredMesh(None));
}

#[test]
fn release_over_another_drawable_empties_the_selection() {
    let mut session = Session::new();
    draw(&mut session, p(1000, 0), p(2000, 0), 0);
    draw(&mut session, p(1000, 5000), p(2000, 5000), 1000);
    session.set_aabb(0, Some(Aabb::new(p(1500, 0), p(800, 800))));
    session.set_aabb(1, Some(Aabb::new(p(1500, 5000), p(800, 800))));
    session.tick(&vec![key_down(Key::Tool1), move_to(1500, 0), left_down(5000)], None);
    assert_eq!(session.selected(), &Selected(vec![0]));
    session.tick(&vec![move_to(1500, 5000), left_up(6000)], None);
    assert_eq!(session.selected(), &Selected(Vec::new()));
}

#[test]
fn what_leaves_the_canvas_is_no_longer_selected_or_hovered() {
    let mut session = Session::new();
    draw(&mut session, p(1000, 0), p(2000, 0), 0);
    draw(&mut session, p(1000, 5000), p(2000, 5000), 1000);
    session.set_aabb(0, Some(Aabb::new(p(1500, 0), p(800, 800))));
    session.set_aabb(1, Some(Aabb::new(p(1500, 5000), p(800, 800))));
    session.tick(&vec![key_down(Key::Tool1), move_to(1500, 5000), left_down(5000), left_up(6000)], None);
    assert_eq!(session.selected(), &Selected(vec![1]));
    session.tick(&vec![move_to(1500, 0)], None);
    assert_eq!(session.hovered_mesh(), HoveredMesh(Some(0)));
    session.tick(&vec![key_down(Key::Modifier), key_down(Key::Undo)], None);
    assert_eq!(session.selected(), &Selected(Vec::new()));
    assert_eq!(session.hovered_mesh(), HoveredMesh(Some(0)));
    session.tick(&vec![key_down(Key::Clear)], None);
    assert_eq!(session.hovered_mesh(), HoveredMesh(None));
}

#[test]
fn double_click_with_the_selection_tool_opens_text_input() {
    let mut session = Session::new();
    session.tick(&vec![key_down(Key::Tool1)], None);
    session.tick(
        &vec![
            InputEvent::CursorMoved { window: p(40, 30), world: Some(p(4000, 3000)) },
            left_down(1000),
            left_up(1050),
        ],
        None,
    );
    assert!(!session.window().ime_enabled);
    assert_eq!(session.canvas().len(), 0);
    session.tick(&vec![left_down(1150), left_up(1190)], None);
    assert!(session.window().ime_enabled);
    assert_eq!(session.window().ime_position, p(40, 30));
    assert_eq!(session.canvas().len(), 1);
    assert_eq!(session.canvas().drawables()[0].tag, Tag::TextCursor);
    assert_eq!(session.canvas().drawables()[0].position, p(4000, 3000));
    session.tick(&vec![left_down(1200), left_up(1250)], None);
    assert!(!session.window().ime_enabled);
    assert_eq!(session.canvas().len(), 0);
    session.tick(&vec![left_down(1300), left_up(1350)], None);
    assert!(session.window().ime_enabled);
    assert_eq!(session.canvas().len(), 1);
}

#[test]
fn double_click_with_the_pen_opens_nothing() {
    let mut session = Session::new();
    session.tick(&vec![move_to(40, 30), left_down(1000), left_up(1050)], None);
    session.tick(&vec![left_down(1100), left_up(1150)], None);
    assert!(!session.window().ime_enabled);
    assert_eq!(session.canvas().len(), 0);
}

#[test]
fn second_stroke_is_refused_while_one_is_in_focus() {
    let mut session = Session::new();
    session.tick(&vec![move_to(1000, 0), left_down(0)], None);
    session.tick(&vec![key_down(Key::Tool3), left_up(10)], None);
    assert_eq!(session.canvas().focused(), Some(0));
    session.tick(&vec![key_down(Key::Tool2), left_down(20)], None);
    assert_eq!(session.canvas().len(), 1);
    assert_eq!(session.canvas().focused(), Some(0));
    session.tick(&vec![move_to(5000, 0), left_up(30)], None);
    assert_eq!(session.canvas().focused(), None);
    assert_eq!(session.canvas().drawables()[0].points, vec![p(1000, 0)]);
}

#[test]
fn pen_does_not_draw_while_hovering() {
    let mut session = Session::new();
    session.tick(&vec![move_to(1000, 0), left_down(0)], None);
    session.tick(&vec![key_down(Key::Tool3), left_up(10)], None);
    session.tick(&vec![key_down(Key::Tool2), move_to(3000, 0)], None);
    assert_eq!(session.canvas().focused(), Some(0));
    assert_eq!(session.canvas().drawables()[0].points, vec![p(1000, 0)]);
}

#[test]
fn other_buttons_do_nothing() {
    let mut session = Session::new();
    let right = InputEvent::Button(MouseButtonInput {
        button: MouseButton::Right,
        state: ButtonState::Pressed,
        window: 0,
        time: 0,
    });
    assert_eq!(session.handle_input(&right), None);
    assert_eq!(session.states().cursor_state(), CursorState::Hovering);
    assert!(!session.held().left);
    assert_eq!(session.canvas().len(), 0);
}
