use lines::draw::{path, Canvas, Filter, FocusEnd, PathEvent, Tag, MIN_GAP, TEXT_CURSOR_WIDTH};
use lines::geometry::{Aabb, Point};
use lines::layer::Layer;
use lines::touch_cursor::Color;

fn red() -> Color {
    Color { r: 255, g: 0, b: 0, a: 255 }
}

fn p(x: i32, y: i32) -> Point {
    Point::new(x, y)
}

/// Draws a finished stroke through `points` and gives its name.
fn stroke(canvas: &mut Canvas, points: &[Point]) -> u64 {
    let id = canvas.begin_stroke(1600, red()).unwrap();
    for point in points {
        assert!(canvas.extend_focused(*point));
    }
    assert_eq!(canvas.end_focus(), FocusEnd::Completed(id));
    id
}

fn ids(canvas: &Canvas) -> Vec<u64> {
    canvas.drawables().iter().map(|d| d.id).collect()
}

#[test]
fn new_canvas_is_empty() {
    let canvas = Canvas::new();
    assert_eq!(canvas.len(), 0);
    assert!(canvas.drawables().is_empty());
    assert_eq!(canvas.focused(), None);
    assert!(!canvas.contains(0));
}

#[test]
fn begin_stroke_makes_an_empty_focused_stroke() {
    let mut canvas = Canvas::new();
    assert_eq!(canvas.begin_stroke(1600, red()), Some(0));
    assert_eq!(canvas.len(), 1);
    let d = &canvas.drawables()[0];
    assert_eq!(d.id, 0);
    assert_eq!(d.tag, Tag::Path);
    assert!(d.focused);
    assert!(d.points.is_empty());
    assert_eq!(d.width, 1600);
    assert_eq!(d.color, red());
    assert_eq!(d.layer, Some(Layer::Foreground(0)));
    assert_eq!(d.position, p(0, 0));
    assert_eq!(d.aabb, None);
    assert_eq!(canvas.focused(), Some(0));
    assert!(canvas.contains(0));
}

#[test]
fn begin_stroke_refuses_while_a_stroke_is_in_focus() {
    let mut canvas = Canvas::new();
    assert_eq!(canvas.begin_stroke(1600, red()), Some(0));
    let before = canvas.clone();
    assert_eq!(canvas.begin_stroke(800, red()), None);
    assert_eq!(canvas, before);
}

#[test]
fn strokes_get_growing_names_and_layers() {
    let mut canvas = Canvas::new();
    let a = stroke(&mut canvas, &[p(1000, 0)]);
    let b = stroke(&mut canvas, &[p(2000, 0)]);
    let c = stroke(&mut canvas, &[p(3000, 0)]);
    assert_eq!((a, b, c), (0, 1, 2));
    let layers: Vec<Option<Layer>> = canvas.drawables().iter().map(|d| d.layer).collect();
    assert_eq!(
        layers,
        vec![
            Some(Layer::Foreground(0)),
            Some(Layer::Foreground(1)),
            Some(Layer::Foreground(2))
        ]
    );
}

#[test]
fn layers_come_round_after_the_last_one() {
    let mut canvas = Canvas::new();
    for i in 0..127 {
        stroke(&mut canvas, &[p(1000 + i, 0)]);
    }
    assert_eq!(canvas.drawables()[125].layer, Some(Layer::Foreground(125)));
    assert_eq!(canvas.drawables()[126].layer, Some(Layer::Foreground(0)));
    assert_eq!(canvas.drawables()[126].id, 126);
}

#[test]
fn extend_takes_points_farther_than_the_gap() {
    assert_eq!(MIN_GAP, 200);
    let mut canvas = Canvas::new();
    canvas.begin_stroke(1600, red());
    assert!(!canvas.extend_focused(p(200, 0)));
    assert!(!canvas.extend_focused(p(100, 100)));
    assert!(canvas.extend_focused(p(201, 0)));
    assert!(!canvas.extend_focused(p(401, 0)));
    assert!(!canvas.extend_focused(p(201, 200)));
    assert!(canvas.extend_focused(p(402, 0)));
    assert!(canvas.extend_focused(p(201, 0)));
    assert_eq!(canvas.drawables()[0].points, vec![p(201, 0), p(402, 0), p(201, 0)]);
}

#[test]
fn first_point_is_measured_from_the_origin() {
    let mut canvas = Canvas::new();
    canvas.begin_stroke(1600, red());
    assert!(!canvas.extend_focused(p(0, 0)));
    assert!(!canvas.extend_focused(p(-141, 141)));
    assert!(canvas.extend_focused(p(-142, 142)));
    assert_eq!(canvas.drawables()[0].points, vec![p(-142, 142)]);
}

#[test]
fn point_count_never_falls_and_points_stay_apart() {
    let mut canvas = Canvas::new();
    canvas.begin_stroke(1600, red());
    let mut count = 0;
    for i in 0..200 {
        let point = p((i * 37) % 1000, (i * 91) % 700);
        canvas.extend_focused(point);
        let points = &canvas.drawables()[0].points;
        assert!(points.len() >= count);
        count = points.len();
        let mut last = p(0, 0);
        for point in points {
            assert!(last.distance_squared(point) > 200 * 200);
            last = *point;
        }
    }
    assert!(count > 1);
}

#[test]
fn extend_without_a_focused_stroke_changes_nothing() {
    let mut canvas = Canvas::new();
    assert!(!canvas.extend_focused(p(1000, 1000)));
    stroke(&mut canvas, &[p(1000, 0)]);
    let before = canvas.clone();
    assert!(!canvas.extend_focused(p(5000, 5000)));
    assert_eq!(canvas, before);
}

#[test]
fn end_focus_discards_a_stroke_without_points() {
    let mut canvas = Canvas::new();
    stroke(&mut canvas, &[p(1000, 0)]);
    let id = canvas.begin_stroke(1600, red()).unwrap();
    assert_eq!(canvas.end_focus(), FocusEnd::Discarded(id));
    assert_eq!(ids(&canvas), vec![0]);
    assert_eq!(canvas.focused(), None);
}

#[test]
fn end_focus_keeps_a_stroke_with_points() {
    let mut canvas = Canvas::new();
    let id = canvas.begin_stroke(1600, red()).unwrap();
    canvas.extend_focused(p(1000, 0));
    assert_eq!(canvas.end_focus(), FocusEnd::Completed(id));
    assert_eq!(canvas.len(), 1);
    assert!(!canvas.drawables()[0].focused);
    assert_eq!(canvas.drawables()[0].points, vec![p(1000, 0)]);
    assert_eq!(canvas.focused(), None);
}

#[test]
fn end_focus_without_a_focused_stroke_changes_nothing() {
    let mut canvas = Canvas::new();
    assert_eq!(canvas.end_focus(), FocusEnd::Nothing);
    stroke(&mut canvas, &[p(1000, 0)]);
    let before = canvas.clone();
    assert_eq!(canvas.end_focus(), FocusEnd::Nothing);
    assert_eq!(canvas, before);
}

#[test]
fn a_name_is_not_given_twice() {
    let mut canvas = Canvas::new();
    let id = canvas.begin_stroke(1600, red()).unwrap();
    canvas.end_focus();
    assert_eq!(canvas.begin_stroke(1600, red()), Some(id + 1));
}

#[test]
fn eraser_takes_a_stroke_with_a_point_in_reach() {
    let mut canvas = Canvas::new();
    let id = stroke(&mut canvas, &[p(1000, 1000)]);
    assert_eq!(canvas.erase_near(p(2000, 2000), 500), Vec::<u64>::new());
    assert_eq!(ids(&canvas), vec![id]);
    assert_eq!(canvas.erase_near(p(1000, 1000), 500), vec![id]);
    assert!(canvas.drawables().is_empty());
}

#[test]
fn eraser_reaches_as_far_as_its_radius() {
    let mut canvas = Canvas::new();
    let a = stroke(&mut canvas, &[p(1000, 0), p(2000, 0)]);
    let b = stroke(&mut canvas, &[p(5000, 0)]);
    let c = stroke(&mut canvas, &[p(2300, 400)]);
    assert_eq!(canvas.erase_near(p(2000, 400), 299), Vec::<u64>::new());
    assert_eq!(canvas.erase_near(p(2000, 400), 300), vec![c]);
    assert_eq!(canvas.erase_near(p(2000, 400), -1), Vec::<u64>::new());
    assert_eq!(canvas.erase_near(p(3500, 0), 1500), vec![a, b]);
    assert!(canvas.drawables().is_empty());
}

#[test]
fn eraser_spares_the_stroke_in_focus_and_carets() {
    let mut canvas = Canvas::new();
    let caret = canvas.spawn_text_cursor(p(1000, 0)).unwrap();
    let id = canvas.begin_stroke(1600, red()).unwrap();
    canvas.extend_focused(p(1000, 0));
    assert_eq!(canvas.erase_near(p(1000, 0), 500), Vec::<u64>::new());
    assert_eq!(ids(&canvas), vec![caret, id]);
}

#[test]
fn undo_takes_the_newest_stroke_only() {
    let mut canvas = Canvas::new();
    let a = stroke(&mut canvas, &[p(1000, 0)]);
    let b = stroke(&mut canvas, &[p(2000, 0)]);
    let c = stroke(&mut canvas, &[p(3000, 0)]);
    assert_eq!(canvas.remove_last_with(Filter::With(Tag::Path)), Some(c));
    assert_eq!(ids(&canvas), vec![a, b]);
    assert_eq!(canvas.drawables()[0].points, vec![p(1000, 0)]);
    assert_eq!(canvas.drawables()[1].points, vec![p(2000, 0)]);
}

#[test]
fn undo_on_an_empty_canvas_changes_nothing() {
    let mut canvas = Canvas::new();
    assert_eq!(canvas.remove_last_with(Filter::With(Tag::Path)), None);
    assert_eq!(canvas, Canvas::new());
}

#[test]
fn remove_last_skips_what_the_filter_does_not_pick() {
    let mut canvas = Canvas::new();
    let a = stroke(&mut canvas, &[p(1000, 0)]);
    let caret = canvas.spawn_text_cursor(p(0, 0)).unwrap();
    assert_eq!(canvas.remove_last_with(Filter::With(Tag::Path)), Some(a));
    assert_eq!(ids(&canvas), vec![caret]);
    assert_eq!(canvas.remove_last_with(Filter::With(Tag::Path)), None);
    assert_eq!(canvas.remove_last_with(Filter::With(Tag::TextCursor)), Some(caret));
    assert!(canvas.drawables().is_empty());
}

#[test]
fn remove_last_near_takes_the_newest_stroke_in_reach() {
    let mut canvas = Canvas::new();
    let a = stroke(&mut canvas, &[p(1000, 0)]);
    let b = stroke(&mut canvas, &[p(1100, 0)]);
    let c = stroke(&mut canvas, &[p(9000, 0)]);
    assert_eq!(canvas.remove_last_with(Filter::Near(p(1000, 0), 150)), Some(b));
    assert_eq!(ids(&canvas), vec![a, c]);
}

#[test]
fn clear_takes_every_drawable_of_the_kind() {
    let mut canvas = Canvas::new();
    let a = stroke(&mut canvas, &[p(1000, 0)]);
    let caret = canvas.spawn_text_cursor(p(5, 6)).unwrap();
    let b = canvas.begin_stroke(1600, red()).unwrap();
    assert_eq!(canvas.clear_with(Filter::With(Tag::Path)), vec![a, b]);
    assert_eq!(ids(&canvas), vec![caret]);
    assert_eq!(canvas.focused(), None);
    assert_eq!(canvas.clear_with(Filter::With(Tag::Path)), Vec::<u64>::new());
    assert_eq!(canvas.clear_with(Filter::With(Tag::TextCursor)), vec![caret]);
    assert!(canvas.drawables().is_empty());
}

#[test]
fn common_clear_with_is_the_canvas_one() {
    let mut canvas = Canvas::new();
    let a = stroke(&mut canvas, &[p(1000, 0)]);
    assert_eq!(lines::common::clear_with(&mut canvas, Filter::With(Tag::Path)), vec![a]);
    assert_eq!(canvas.len(), 0);
}

#[test]
fn caret_is_a_drawable_of_its_own_kind() {
    let mut canvas = Canvas::new();
    assert_eq!(canvas.spawn_text_cursor(p(30, 40)), Some(0));
    let d = &canvas.drawables()[0];
    assert_eq!(d.tag, Tag::TextCursor);
    assert!(!d.focused);
    assert!(d.points.is_empty());
    assert_eq!(d.width, TEXT_CURSOR_WIDTH);
    assert_eq!(d.color, Color { r: 255, g: 255, b: 255, a: 255 });
    assert_eq!(d.layer, None);
    assert_eq!(d.position, p(30, 40));
    assert_eq!(canvas.begin_stroke(1, red()), Some(1));
    assert_eq!(canvas.drawables()[1].layer, Some(Layer::Foreground(0)));
}

#[test]
fn set_aabb_measures_one_drawable() {
    let mut canvas = Canvas::new();
    let a = stroke(&mut canvas, &[p(1000, 0)]);
    let b = stroke(&mut canvas, &[p(2000, 0)]);
    let measured = Aabb::new(p(2000, 0), p(800, 800));
    assert!(canvas.set_aabb(b, Some(measured)));
    assert_eq!(canvas.drawables()[0].aabb, None);
    assert_eq!(canvas.drawables()[1].aabb, Some(measured));
    assert!(!canvas.set_aabb(77, Some(measured)));
    assert!(canvas.set_aabb(b, None));
    assert_eq!(canvas.drawables()[1].aabb, None);
    assert!(canvas.contains(a));
}

#[test]
fn filter_picks_by_kind_and_by_reach() {
    let mut canvas = Canvas::new();
    stroke(&mut canvas, &[p(1000, 0)]);
    canvas.spawn_text_cursor(p(1000, 0));
    let line = &canvas.drawables()[0];
    let caret = &canvas.drawables()[1];
    assert!(Filter::With(Tag::Path).picks_drawable(line));
    assert!(!Filter::With(Tag::Path).picks_drawable(caret));
    assert!(Filter::With(Tag::TextCursor).picks_drawable(caret));
    assert!(Filter::Near(p(1000, 100), 100).picks_drawable(line));
    assert!(!Filter::Near(p(1000, 100), 99).picks_drawable(line));
    assert!(!Filter::Near(p(1000, 0), 100).picks_drawable(caret));
}

#[test]
fn path_moves_to_the_first_point_and_draws_to_the_others() {
    assert_eq!(path(&Vec::new()), Vec::<PathEvent>::new());
    assert_eq!(path(&vec![p(1, 2)]), vec![PathEvent::MoveTo(p(1, 2))]);
    assert_eq!(
        path(&vec![p(1, 2), p(3, 4), p(5, 6)]),
        vec![PathEvent::MoveTo(p(1, 2)), PathEvent::LineTo(p(3, 4)), PathEvent::LineTo(p(5, 6))]
    );
}
