use lines::common::{hide_window_cursor, show_window_cursor, Window};
use lines::draw::{Canvas, Tag};
use lines::geometry::Point;
use lines::input::Key;
use lines::layer::{update_z_coordinate_based_on_layer, Layer, LAYER_COUNT};
use lines::states::{RunMode, ToolButton};
use lines::text_input::{enter_text_input, exit_text_input, is_ime_enabled, spawn_text_cursor};
use lines::toggle_component::{toggle_component, Shown, Toggle};
use lines::touch_cursor::{
    update_touch_cursor_size, update_world_torch_cursor, Color, Cursor, TouchCursor,
    WorldTouchCursor, DEFAULT_SIZE, SIZE_STEP,
};
use lines::ui::{
    focused_tool_by_key_code, is_hover_tool_button_bar, tool_buttons, update_tool_button_background,
    window_cursor_shows, Background, Interaction, ToolButtonConfig,
};

fn white() -> Color {
    Color { r: 255, g: 255, b: 255, a: 255 }
}

fn touch(size: i32) -> Cursor {
    Cursor::Touch(TouchCursor { color: white(), size })
}

#[test]
fn default_cursor_is_the_white_touch_cursor() {
    assert_eq!((DEFAULT_SIZE, SIZE_STEP), (1600, 50));
    assert_eq!(Cursor::default(), touch(1600));
    assert_eq!(Color::new_white(), white());
    assert_eq!(Cursor::default().touch_cursor(), Some(TouchCursor { color: white(), size: 1600 }));
    assert_eq!(Cursor::Default.touch_cursor(), None);
    assert!(Cursor::Default.is_default());
    assert!(!Cursor::default().is_default());
    assert_eq!(WorldTouchCursor::default(), WorldTouchCursor(Point::new(0, 0)));
}

#[test]
fn size_keys_change_the_size_by_half_a_unit() {
    let mut cursor = Cursor::default();
    update_touch_cursor_size(&mut cursor, true, false);
    assert_eq!(cursor, touch(1550));
    update_touch_cursor_size(&mut cursor, false, true);
    update_touch_cursor_size(&mut cursor, false, true);
    assert_eq!(cursor, touch(1650));
    update_touch_cursor_size(&mut cursor, true, true);
    assert_eq!(cursor, touch(1650));
    update_touch_cursor_size(&mut cursor, false, false);
    assert_eq!(cursor, touch(1650));
}

#[test]
fn size_may_fall_below_zero_and_stops_at_the_end_of_the_range() {
    let mut cursor = touch(20);
    update_touch_cursor_size(&mut cursor, true, false);
    assert_eq!(cursor, touch(-30));
    let mut cursor = touch(i32::MIN + 10);
    update_touch_cursor_size(&mut cursor, true, false);
    assert_eq!(cursor, touch(i32::MIN));
    update_touch_cursor_size(&mut cursor, true, true);
    assert_eq!(cursor, touch(i32::MIN + 50));
    let mut cursor = touch(i32::MAX);
    update_touch_cursor_size(&mut cursor, false, true);
    assert_eq!(cursor, touch(i32::MAX));
}

#[test]
fn system_pointer_has_no_size() {
    let mut cursor = Cursor::Default;
    update_touch_cursor_size(&mut cursor, true, true);
    assert_eq!(cursor, Cursor::Default);
}

#[test]
fn world_cursor_tells_when_it_moved() {
    let mut world = WorldTouchCursor::default();
    assert!(update_world_torch_cursor(&mut world, Some(Point::new(3, 4))));
    assert_eq!(world, WorldTouchCursor(Point::new(3, 4)));
    assert!(!update_world_torch_cursor(&mut world, Some(Point::new(3, 4))));
    assert!(!update_world_torch_cursor(&mut world, None));
    assert_eq!(world, WorldTouchCursor(Point::new(3, 4)));
}

#[test]
fn tool_bar_has_three_buttons() {
    assert_eq!(
        tool_buttons(),
        vec![
            ToolButtonConfig {
                tool: ToolButton::Cursor,
                pos: Point::new(2, 0),
                key_code: Key::Tool1,
                cursor: Cursor::Default,
            },
            ToolButtonConfig {
                tool: ToolButton::Pen,
                pos: Point::new(0, 0),
                key_code: Key::Tool2,
                cursor: touch(1600),
            },
            ToolButtonConfig {
                tool: ToolButton::Eraser,
                pos: Point::new(1, 0),
                key_code: Key::Tool3,
                cursor: touch(1600),
            },
        ]
    );
}

#[test]
fn keys_stand_for_their_buttons() {
    let buttons = tool_buttons();
    assert_eq!(focused_tool_by_key_code(Key::Tool1), Some(buttons[0]));
    assert_eq!(focused_tool_by_key_code(Key::Tool2), Some(buttons[1]));
    assert_eq!(focused_tool_by_key_code(Key::Tool3), Some(buttons[2]));
    assert_eq!(focused_tool_by_key_code(Key::Pan), None);
    assert_eq!(focused_tool_by_key_code(Key::Undo), None);
}

#[test]
fn pointer_over_the_tool_bar_hovers() {
    assert!(is_hover_tool_button_bar(Some(Interaction::Pressed)));
    assert!(is_hover_tool_button_bar(Some(Interaction::Hovered)));
    assert!(!is_hover_tool_button_bar(Some(Interaction::Idle)));
    assert!(!is_hover_tool_button_bar(None));
}

#[test]
fn active_tool_is_painted_and_the_last_pressed_one_selected() {
    let query = vec![
        (Interaction::Pressed, ToolButton::Cursor),
        (Interaction::Hovered, ToolButton::Pen),
        (Interaction::Pressed, ToolButton::Eraser),
    ];
    assert_eq!(
        update_tool_button_background(&query, ToolButton::Pen),
        (vec![Background::Clear, Background::Focus, Background::Clear], Some(ToolButton::Eraser))
    );
    let idle = vec![(Interaction::Idle, ToolButton::Pen), (Interaction::Hovered, ToolButton::Eraser)];
    assert_eq!(
        update_tool_button_background(&idle, ToolButton::MoveCamera),
        (vec![Background::Clear, Background::Clear], None)
    );
    assert_eq!(update_tool_button_background(&Vec::new(), ToolButton::Pen), (Vec::new(), None));
}

#[test]
fn system_pointer_shows_over_the_bar_with_the_arrow_and_while_inspecting() {
    assert!(!window_cursor_shows(false, &Cursor::default(), RunMode::Normal));
    assert!(window_cursor_shows(true, &Cursor::default(), RunMode::Normal));
    assert!(window_cursor_shows(false, &Cursor::Default, RunMode::Normal));
    assert!(window_cursor_shows(false, &Cursor::default(), RunMode::Debug));
}

#[test]
fn window_cursor_is_shown_and_hidden() {
    let mut window = Window::default();
    assert_eq!(
        window,
        Window {
            cursor_position: None,
            cursor_visible: true,
            ime_enabled: false,
            ime_position: Point::new(0, 0),
        }
    );
    hide_window_cursor(&mut window);
    assert!(!window.cursor_visible);
    show_window_cursor(&mut window);
    assert!(window.cursor_visible);
    assert_eq!(window, Window::default());
}

#[test]
fn text_input_opens_where_the_pointer_stands() {
    let mut window = Window::default();
    assert!(!is_ime_enabled(&window));
    assert!(!enter_text_input(&mut window));
    assert_eq!(window, Window::default());
    window.cursor_position = Some(Point::new(12, 34));
    assert!(enter_text_input(&mut window));
    assert!(is_ime_enabled(&window));
    assert_eq!(window.ime_position, Point::new(12, 34));
    exit_text_input(&mut window);
    assert!(!is_ime_enabled(&window));
    assert_eq!(window.ime_position, Point::new(12, 34));
}

#[test]
fn caret_is_put_where_the_cursor_stands() {
    let mut canvas = Canvas::new();
    let id = spawn_text_cursor(&mut canvas, &WorldTouchCursor(Point::new(-5, 9)));
    assert_eq!(id, Some(0));
    assert_eq!(canvas.drawables()[0].tag, Tag::TextCursor);
    assert_eq!(canvas.drawables()[0].position, Point::new(-5, 9));
}

#[test]
fn toggle_alternates_and_starts_with_the_second_look() {
    let mut is_bundle_0 = false;
    assert_eq!(toggle_component(&mut is_bundle_0), Shown::Second);
    assert!(is_bundle_0);
    assert_eq!(toggle_component(&mut is_bundle_0), Shown::First);
    assert!(!is_bundle_0);
    let looks = Toggle(1u8, "two");
    assert_eq!((looks.0, looks.1), (1, "two"));
}

#[test]
fn depth_is_the_layer_number() {
    assert_eq!(LAYER_COUNT, 126);
    let mut query = vec![
        (99, Layer::Foreground(0)),
        (99, Layer::Foreground(125)),
        (99, Layer::Foreground(-3)),
    ];
    update_z_coordinate_based_on_layer(&mut query);
    assert_eq!(
        query,
        vec![(0, Layer::Foreground(0)), (125, Layer::Foreground(125)), (-3, Layer::Foreground(-3))]
    );
}

#[test]
fn layer_tells_its_number() {
    assert_eq!(Layer::Foreground(17).order_in_layer(), 17);
    assert_eq!(Layer::Foreground(-128).order_in_layer(), -128);
}
