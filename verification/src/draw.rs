//! The stroke engine: the drawables on the canvas, how a moving pointer
//! becomes a stroke, and how strokes are erased and undone.

use vstd::prelude::*;
use crate::geometry::{dist_sq, farther_than, within, Aabb, Point};
use crate::layer::{layer_after, Layer, LAYER_COUNT};
use crate::sequences::{
    lemma_filter_all,
    lemma_filter_from,
    lemma_filter_one_out,
    lemma_filter_push,
};
use crate::touch_cursor::Color;

verus! {

/// A point is taken into a stroke only if it lies farther than this from the
/// point taken before it.
pub const MIN_GAP: i32 = 200;

/// The width of a caret.
pub const TEXT_CURSOR_WIDTH: i32 = 100;

/// What kind of thing a drawable is.
#[derive(Clone, Copy, Debug, PartialEq, Eq, Hash, Structural)]
pub enum Tag {
    /// A stroke: a line that the pen drew.
    Path,
    /// The caret that marks where text goes.
    TextCursor,
}

/// One drawable of the canvas.
#[derive(Clone, Debug, PartialEq, Eq)]
pub struct Drawable {
    /// What names the drawable for as long as the canvas lives.
    pub id: u64,
    pub tag: Tag,
    /// Whether this is the stroke that the pen is drawing now.
    pub focused: bool,
    /// The points of a stroke, in the order in which the pen passed them.
    pub points: Vec<Point>,
    /// The width of the line.
    pub width: i32,
    pub color: Color,
    /// The layer of a stroke; a caret has none.
    pub layer: Option<Layer>,
    /// Where the drawable is placed on the canvas.
    pub position: Point,
    /// The box round the drawable, once the renderer has measured it.
    pub aabb: Option<Aabb>,
}

/// What lifting the pen did to the stroke in focus.
#[derive(Clone, Copy, Debug, PartialEq, Eq, Structural)]
pub enum FocusEnd {
    /// No stroke was in focus.
    Nothing,
    /// The stroke of this name had no point and is gone.
    Discarded(u64),
    /// The stroke of this name is finished and stays.
    Completed(u64),
}

/// A drawable as a mathematical value.
pub struct DrawableView {
    pub id: u64,
    pub tag: Tag,
    pub focused: bool,
    pub points: Seq<Point>,
    pub width: i32,
    pub color: Color,
    pub layer: Option<Layer>,
    pub position: Point,
    pub aabb: Option<Aabb>,
}

impl View for Drawable {
    type V = DrawableView;

    open spec fn view(&self) -> DrawableView {
        DrawableView {
            id: self.id,
            tag: self.tag,
            focused: self.focused,
            points: self.points@,
            width: self.width,
            color: self.color,
            layer: self.layer,
            position: self.position,
            aabb: self.aabb,
        }
    }
}

/// The drawables of `s` as mathematical values.
pub open spec fn views(s: Seq<Drawable>) -> Seq<DrawableView> {
    s.map_values(|d: Drawable| d@)
}

/// The point against which the next point of a stroke is measured: the last
/// one taken, or the origin while none is.
pub open spec fn last_or_origin(points: Seq<Point>) -> Point {
    if points.len() == 0 {
        Point::origin()
    } else {
        points.last()
    }
}

/// A stroke with the points `points` takes `point` as its next one.
pub open spec fn accepts(points: Seq<Point>, point: Point) -> bool {
    farther_than(last_or_origin(points), point, MIN_GAP as int)
}

/// Every point of `points` lies farther than `MIN_GAP` from the one before
/// it, and the first one as far from the origin.
pub open spec fn spaced(points: Seq<Point>) -> bool {
    forall|k: int| 0 <= k < points.len() ==> accepts(points.take(k), #[trigger] points[k])
}

/// The points that a stroke holds after the pointer went along `path`,
/// having held `points` before.
pub open spec fn traced(points: Seq<Point>, path: Seq<Point>) -> Seq<Point>
    decreases path.len(),
{
    if path.len() == 0 {
        points
    } else {
        let before = traced(points, path.drop_last());
        if accepts(before, path.last()) {
            before.push(path.last())
        } else {
            before
        }
    }
}

impl DrawableView {
    /// What holds of every drawable on a canvas.
    pub open spec fn wf(self) -> bool {
        &&& spaced(self.points)
        &&& self.tag == Tag::TextCursor ==> !self.focused && self.points.len() == 0
            && self.layer is None
        &&& self.tag == Tag::Path ==> self.layer is Some && 0 <= self.layer->0.order()
            < LAYER_COUNT
        &&& self.tag == Tag::Path && !self.focused ==> self.points.len() > 0
    }

    /// The drawable after the pointer came to `point`: the stroke in focus
    /// takes the point if it lies far enough from its last one.
    pub open spec fn extended(self, point: Point) -> DrawableView {
        if self.focused && accepts(self.points, point) {
            DrawableView { points: self.points.push(point), ..self }
        } else {
            self
        }
    }

    /// The drawable out of focus.
    pub open spec fn unfocused(self) -> DrawableView {
        DrawableView { focused: false, ..self }
    }

    /// The stroke is in focus and has no point yet.
    pub open spec fn is_blank(self) -> bool {
        self.focused && self.points.len() == 0
    }

    /// A point of the drawable lies within `radius` of `point`.
    pub open spec fn touched_by(self, point: Point, radius: int) -> bool {
        exists|k: int| 0 <= k < self.points.len() && within(#[trigger] self.points[k], point, radius)
    }

    /// The eraser at `point` takes the drawable away: a stroke out of focus
    /// with a point in reach.
    pub open spec fn erased_by(self, point: Point, radius: int) -> bool {
        self.tag == Tag::Path && !self.focused && self.touched_by(point, radius)
    }
}

/// The canvas as a mathematical value.
pub struct CanvasView {
    /// The drawables, the oldest first.
    pub drawables: Seq<DrawableView>,
    /// The name that the next drawable gets.
    pub next_id: u64,
    /// The layer number that the next stroke gets.
    pub next_layer: i8,
}

/// The names in `s` grow from each drawable to the next.
pub open spec fn ordered(s: Seq<DrawableView>) -> bool {
    forall|i: int, j: int| 0 <= i < j < s.len() ==> (#[trigger] s[i]).id < (#[trigger] s[j]).id
}

/// At most one drawable of `s` is in focus.
pub open spec fn single_focus(s: Seq<DrawableView>) -> bool {
    forall|i: int, j: int|
        0 <= i < j < s.len() ==> !((#[trigger] s[i]).focused && (#[trigger] s[j]).focused)
}

/// A drawable of `s` is in focus.
pub open spec fn has_focused(s: Seq<DrawableView>) -> bool {
    exists|i: int| 0 <= i < s.len() && (#[trigger] s[i]).focused
}

/// A drawable of `s` has the name `id`.
pub open spec fn has_id(s: Seq<DrawableView>, id: u64) -> bool {
    exists|i: int| 0 <= i < s.len() && (#[trigger] s[i]).id == id
}

/// Picks drawables out of the canvas.
#[derive(Clone, Copy, Debug, PartialEq, Eq, Structural)]
pub enum Filter {
    /// Every drawable of the given kind.
    With(Tag),
    /// Every stroke out of focus that has a point within the given radius of
    /// the given point.
    Near(Point, i32),
}

impl Filter {
    /// The filter picks `d`.
    pub open spec fn matches(self, d: DrawableView) -> bool {
        match self {
            Filter::With(tag) => d.tag == tag,
            Filter::Near(point, radius) => d.erased_by(point, radius as int),
        }
    }

    /// The test that the drawables which the filter picks pass.
    pub open spec fn picks(self) -> spec_fn(DrawableView) -> bool {
        |d: DrawableView| self.matches(d)
    }

    /// The test that the drawables which the filter leaves pass.
    pub open spec fn leaves(self) -> spec_fn(DrawableView) -> bool {
        |d: DrawableView| !self.matches(d)
    }
}

/// The test that every drawable but a stroke in focus without points passes.
pub open spec fn not_blank() -> spec_fn(DrawableView) -> bool {
    |d: DrawableView| !d.is_blank()
}

/// The names of the drawables of `s`, in their order.
pub open spec fn ids_of(s: Seq<DrawableView>) -> Seq<u64> {
    s.map_values(|d: DrawableView| d.id)
}

/// The index of the newest drawable of `s` that `filter` picks, or `-1`
/// where it picks none.
pub open spec fn last_matching(s: Seq<DrawableView>, filter: Filter) -> int
    decreases s.len(),
{
    if s.len() == 0 {
        -1
    } else if filter.matches(s.last()) {
        s.len() - 1
    } else {
        last_matching(s.drop_last(), filter)
    }
}

impl CanvasView {
    /// What holds of every canvas: names grow with age and lie below the
    /// next one to give, at most one stroke is in focus, and every drawable
    /// is well formed.
    pub open spec fn wf(self) -> bool {
        &&& forall|i: int| 0 <= i < self.drawables.len() ==> (#[trigger] self.drawables[i]).wf()
        &&& forall|i: int|
            0 <= i < self.drawables.len() ==> (#[trigger] self.drawables[i]).id < self.next_id
        &&& ordered(self.drawables)
        &&& single_focus(self.drawables)
        &&& 0 <= self.next_layer < LAYER_COUNT
    }

    /// The canvas with nothing on it.
    pub open spec fn empty() -> CanvasView {
        CanvasView { drawables: Seq::empty(), next_id: 0, next_layer: 0 }
    }

    /// A new drawable can be made: a name is left for it.
    pub open spec fn has_room(self) -> bool {
        self.next_id < u64::MAX
    }

    /// A stroke can be begun: none is in focus and a name is left.
    pub open spec fn can_begin(self) -> bool {
        !has_focused(self.drawables) && self.has_room()
    }

    /// The stroke that `begin_stroke` makes.
    pub open spec fn new_stroke(self, width: i32, color: Color) -> DrawableView {
        DrawableView {
            id: self.next_id,
            tag: Tag::Path,
            focused: true,
            points: Seq::empty(),
            width,
            color,
            layer: Some(Layer::Foreground(self.next_layer)),
            position: Point::origin(),
            aabb: None,
        }
    }

    /// The canvas after a stroke was begun: where one can be, a stroke
    /// without points, in focus, on the next layer, is the newest drawable.
    pub open spec fn begin_stroke(self, width: i32, color: Color) -> CanvasView {
        if self.can_begin() {
            CanvasView {
                drawables: self.drawables.push(self.new_stroke(width, color)),
                next_id: (self.next_id + 1) as u64,
                next_layer: layer_after(self.next_layer) as i8,
            }
        } else {
            self
        }
    }

    /// The caret that `spawn_text_cursor` makes.
    pub open spec fn new_text_cursor(self, position: Point) -> DrawableView {
        DrawableView {
            id: self.next_id,
            tag: Tag::TextCursor,
            focused: false,
            points: Seq::empty(),
            width: TEXT_CURSOR_WIDTH,
            color: Color::white(),
            layer: None,
            position,
            aabb: None,
        }
    }

    /// The canvas after a caret was put at `position`, where a name is left
    /// for it.
    pub open spec fn spawn_text_cursor(self, position: Point) -> CanvasView {
        if self.has_room() {
            CanvasView {
                drawables: self.drawables.push(self.new_text_cursor(position)),
                next_id: (self.next_id + 1) as u64,
                ..self
            }
        } else {
            self
        }
    }

    /// The pointer at `point` makes the stroke in focus longer.
    pub open spec fn extends(self, point: Point) -> bool {
        exists|i: int|
            0 <= i < self.drawables.len() && (#[trigger] self.drawables[i]).focused && accepts(
                self.drawables[i].points,
                point,
            )
    }

    /// The canvas after the pointer came to `point`.
    pub open spec fn extend_focused(self, point: Point) -> CanvasView {
        CanvasView {
            drawables: self.drawables.map_values(|d: DrawableView| d.extended(point)),
            ..self
        }
    }

    /// Where the stroke in focus stands among the drawables.
    pub open spec fn focused_at(self) -> int {
        choose|i: int| 0 <= i < self.drawables.len() && (#[trigger] self.drawables[i]).focused
    }

    /// The name of the stroke in focus.
    pub open spec fn focused_id(self) -> Option<u64> {
        if has_focused(self.drawables) {
            Some(self.drawables[self.focused_at()].id)
        } else {
            None
        }
    }

    /// What lifting the pen does to the stroke in focus.
    pub open spec fn focus_end(self) -> FocusEnd {
        if !has_focused(self.drawables) {
            FocusEnd::Nothing
        } else if self.drawables[self.focused_at()].points.len() == 0 {
            FocusEnd::Discarded(self.drawables[self.focused_at()].id)
        } else {
            FocusEnd::Completed(self.drawables[self.focused_at()].id)
        }
    }

    /// The canvas after the pen was lifted: a stroke in focus without a
    /// point is gone, and no stroke is in focus.
    pub open spec fn end_focus(self) -> CanvasView {
        CanvasView {
            drawables: self.drawables.filter(not_blank()).map_values(
                |d: DrawableView| d.unfocused(),
            ),
            ..self
        }
    }

    /// The canvas without the drawables that `filter` picks.
    pub open spec fn clear_with(self, filter: Filter) -> CanvasView {
        CanvasView { drawables: self.drawables.filter(filter.leaves()), ..self }
    }

    /// The names of the drawables that `filter` picks, the oldest first.
    pub open spec fn picked_ids(self, filter: Filter) -> Seq<u64> {
        ids_of(self.drawables.filter(filter.picks()))
    }

    /// The canvas after the eraser of reach `radius` came to `point`: every
    /// stroke out of focus with a point in reach is gone.
    pub open spec fn erase_near(self, point: Point, radius: i32) -> CanvasView {
        self.clear_with(Filter::Near(point, radius))
    }

    /// The canvas without the newest drawable that `filter` picks.
    pub open spec fn remove_last_with(self, filter: Filter) -> CanvasView {
        let i = last_matching(self.drawables, filter);
        if i < 0 {
            self
        } else {
            CanvasView { drawables: self.drawables.remove(i), ..self }
        }
    }

    /// The name of the newest drawable that `filter` picks.
    pub open spec fn last_id_with(self, filter: Filter) -> Option<u64> {
        let i = last_matching(self.drawables, filter);
        if i < 0 {
            None
        } else {
            Some(self.drawables[i].id)
        }
    }

    /// The canvas after the renderer measured the drawable `id`.
    pub open spec fn set_aabb(self, id: u64, aabb: Option<Aabb>) -> CanvasView {
        CanvasView {
            drawables: self.drawables.map_values(
                |d: DrawableView|
                    if d.id == id {
                        DrawableView { aabb, ..d }
                    } else {
                        d
                    },
            ),
            ..self
        }
    }
}

/// One step of the path that renders a stroke.
#[derive(Clone, Copy, Debug, PartialEq, Eq, Structural)]
pub enum PathEvent {
    /// Lift the brush and set it down at the point.
    MoveTo(Point),
    /// Draw a straight line to the point.
    LineTo(Point),
}

/// The path that renders a stroke with the points `points`: it begins at
/// the first point and goes through the others in their order. A stroke
/// without points has an empty path.
pub open spec fn path_of(points: Seq<Point>) -> Seq<PathEvent> {
    Seq::new(
        points.len(),
        |i: int|
            if i == 0 {
                PathEvent::MoveTo(points[i])
            } else {
                PathEvent::LineTo(points[i])
            },
    )
}

/// Builds the path that renders a stroke with the points `line`.
pub fn path(line: &Vec<Point>) -> (events: Vec<PathEvent>)
    ensures
        events@ == path_of(line@),
{
    let mut events: Vec<PathEvent> = Vec::new();
    let mut i: usize = 0;
    while i < line.len()
        invariant
            i <= line.len(),
            events@ == path_of(line@.take(i as int)),
        decreases line.len() - i,
    {
        if i == 0 {
            events.push(PathEvent::MoveTo(line[i]));
        } else {
            events.push(PathEvent::LineTo(line[i]));
        }
        i += 1;
        assert(events@ =~= path_of(line@.take(i as int)));
    }
    assert(line@.take(i as int) =~= line@);
    events
}

/// The canvas: every drawable, the oldest first.
#[derive(Clone, Debug, PartialEq, Eq)]
pub struct Canvas {
    drawables: Vec<Drawable>,
    next_id: u64,
    next_layer: i8,
}

impl View for Canvas {
    type V = CanvasView;

    closed spec fn view(&self) -> CanvasView {
        CanvasView {
            drawables: views(self.drawables@),
            next_id: self.next_id,
            next_layer: self.next_layer,
        }
    }
}

/// Whether `point` is taken as the next point after `points`.
fn accepts_point(points: &Vec<Point>, point: &Point) -> (b: bool)
    ensures
        b == accepts(points@, *point),
{
    let last: Point = if points.len() == 0 {
        Point::zero()
    } else {
        points[points.len() - 1]
    };
    last.is_farther_than(point, MIN_GAP)
}

/// Whether a point of `points` lies within `radius` of `point`.
fn touches(points: &Vec<Point>, point: &Point, radius: i32) -> (b: bool)
    ensures
        b == exists|k: int|
            0 <= k < points@.len() && within(#[trigger] points@[k], *point, radius as int),
{
    let mut k: usize = 0;
    while k < points.len()
        invariant
            k <= points.len(),
            forall|j: int| 0 <= j < k ==> !within(#[trigger] points@[j], *point, radius as int),
        decreases points.len() - k,
    {
        if points[k].is_within(point, radius) {
            return true;
        }
        k += 1;
    }
    false
}

impl Filter {
    /// Whether the filter picks `d`.
    pub fn picks_drawable(&self, d: &Drawable) -> (b: bool)
        ensures
            b == self.matches(d@),
    {
        match self {
            Filter::With(tag) => {
                match (d.tag, *tag) {
                    (Tag::Path, Tag::Path) | (Tag::TextCursor, Tag::TextCursor) => true,
                    _ => false,
                }
            },
            Filter::Near(point, radius) => {
                let reached: bool = touches(&d.points, point, *radius);
                proof {
                    if reached {
                        let k = choose|k: int|
                            0 <= k < d.points@.len() && within(
                                #[trigger] d.points@[k],
                                *point,
                                *radius as int,
                            );
                        assert(within(d@.points[k], *point, *radius as int));
                    }
                }
                matches!(d.tag, Tag::Path) && !d.focused && reached
            },
        }
    }
}

impl Canvas {
    /// What holds of every canvas.
    pub open spec fn wf(&self) -> bool {
        self@.wf()
    }

    /// A canvas with nothing on it.
    pub fn new() -> (c: Canvas)
        ensures
            c.wf(),
            c@ == CanvasView::empty(),
    {
        let c = Canvas { drawables: Vec::new(), next_id: 0, next_layer: 0 };
        assert(views(c.drawables@) =~= Seq::empty());
        c
    }

    /// The drawables, the oldest first.
    pub fn drawables(&self) -> (d: &Vec<Drawable>)
        ensures
            views(d@) == self@.drawables,
    {
        &self.drawables
    }

    /// How many drawables the canvas holds.
    pub fn len(&self) -> (n: usize)
        ensures
            n == self@.drawables.len(),
    {
        self.drawables.len()
    }

    /// Where the drawable in focus stands among the drawables.
    fn focused_index(&self) -> (at: Option<usize>)
        ensures
            match at {
                Some(i) => i < self@.drawables.len() && self@.drawables[i as int].focused,
                None => !has_focused(self@.drawables),
            },
    {
        let mut i: usize = 0;
        while i < self.drawables.len()
            invariant
                i <= self.drawables.len(),
                forall|j: int| 0 <= j < i ==> !(#[trigger] self@.drawables[j]).focused,
            decreases self.drawables.len() - i,
        {
            if self.drawables[i].focused {
                return Some(i);
            }
            i += 1;
        }
        None
    }

    /// The name of the stroke in focus.
    pub fn focused(&self) -> (id: Option<u64>)
        requires
            self.wf(),
        ensures
            id == self@.focused_id(),
    {
        match self.focused_index() {
            Some(i) => {
                proof {
                    let j = self@.focused_at();
                    assert(self@.drawables[i as int].focused);
                    assert(self@.drawables[j].focused);
                    if j < i {
                        assert(!(self@.drawables[j].focused && self@.drawables[i as int].focused));
                    } else if i < j {
                        assert(!(self@.drawables[i as int].focused && self@.drawables[j].focused));
                    }
                }
                Some(self.drawables[i].id)
            },
            None => None,
        }
    }

    /// Whether a drawable has the name `id`.
    pub fn contains(&self, id: u64) -> (b: bool)
        ensures
            b == has_id(self@.drawables, id),
    {
        let mut i: usize = 0;
        while i < self.drawables.len()
            invariant
                i <= self.drawables.len(),
                forall|j: int| 0 <= j < i ==> (#[trigger] self@.drawables[j]).id != id,
            decreases self.drawables.len() - i,
        {
            if self.drawables[i].id == id {
                assert(self@.drawables[i as int].id == id);
                return true;
            }
            i += 1;
        }
        false
    }

    /// Begins a stroke of the given width and colour and puts it in focus.
    /// Nothing happens while another stroke is in focus, or when no name is
    /// left. The result is the name of the new stroke.
    pub fn begin_stroke(&mut self, width: i32, color: Color) -> (id: Option<u64>)
        requires
            old(self).wf(),
        ensures
            final(self).wf(),
            final(self)@ == old(self)@.begin_stroke(width, color),
            id == if old(self)@.can_begin() {
                Some(old(self)@.next_id)
            } else {
                None
            },
    {
        if self.next_id == u64::MAX {
            return None;
        }
        if self.focused_index().is_some() {
            return None;
        }
        let id: u64 = self.next_id;
        let layer: Layer = Layer::Foreground(self.next_layer);
        let stroke = Drawable {
            id,
            tag: Tag::Path,
            focused: true,
            points: Vec::new(),
            width,
            color,
            layer: Some(layer),
            position: Point::zero(),
            aabb: None,
        };
        let ghost before = self@;
        self.drawables.push(stroke);
        self.next_id = id + 1;
        self.next_layer = if self.next_layer + 1 == LAYER_COUNT {
            0
        } else {
            self.next_layer + 1
        };
        assert(self@.drawables =~= before.drawables.push(before.new_stroke(width, color)));
        Some(id)
    }

    /// Puts a caret at `position`, unless no name is left. The result is the
    /// name of the caret.
    pub fn spawn_text_cursor(&mut self, position: Point) -> (id: Option<u64>)
        requires
            old(self).wf(),
        ensures
            final(self).wf(),
            final(self)@ == old(self)@.spawn_text_cursor(position),
            id == if old(self)@.has_room() {
                Some(old(self)@.next_id)
            } else {
                None
            },
    {
        if self.next_id == u64::MAX {
            return None;
        }
        let id: u64 = self.next_id;
        let caret = Drawable {
            id,
            tag: Tag::TextCursor,
            focused: false,
            points: Vec::new(),
            width: TEXT_CURSOR_WIDTH,
            color: Color::new_white(),
            layer: None,
            position,
            aabb: None,
        };
        let ghost before = self@;
        self.drawables.push(caret);
        self.next_id = id + 1;
        assert(self@.drawables =~= before.drawables.push(before.new_text_cursor(position)));
        Some(id)
    }

    /// Takes the pointer's place `point` into the stroke in focus, if it
    /// lies farther than `MIN_GAP` from the stroke's last point (from the
    /// origin, while the stroke has none). The result tells whether the
    /// stroke has grown, so that its path must be built anew.
    pub fn extend_focused(&mut self, point: Point) -> (grown: bool)
        requires
            old(self).wf(),
        ensures
            final(self).wf(),
            final(self)@ == old(self)@.extend_focused(point),
            grown == old(self)@.extends(point),
    {
        let ghost before = self@;
        match self.focused_index() {
            Some(i) => {
                proof {
                    lemma_extend_at(before, i as int, point);
                }
                if accepts_point(&self.drawables[i].points, &point) {
                    self.drawables[i].points.push(point);
                    assert(self@.drawables =~= before.drawables.update(
                        i as int,
                        before.drawables[i as int].extended(point),
                    ));
                    true
                } else {
                    assert(self@.drawables =~= before.drawables.update(
                        i as int,
                        before.drawables[i as int].extended(point),
                    ));
                    false
                }
            },
            None => {
                proof {
                    lemma_extend_none(before, point);
                }
                false
            },
        }
    }

    /// Lifts the pen: the stroke in focus leaves the focus, and is taken off
    /// the canvas if it has no point. The result tells which of the two
    /// happened, and to which stroke.
    pub fn end_focus(&mut self) -> (end: FocusEnd)
        requires
            old(self).wf(),
        ensures
            final(self).wf(),
            final(self)@ == old(self)@.end_focus(),
            end == old(self)@.focus_end(),
    {
        let ghost before = self@;
        match self.focused_index() {
            Some(i) => {
                proof {
                    lemma_end_focus_at(before, i as int);
                }
                let id: u64 = self.drawables[i].id;
                if self.drawables[i].points.len() == 0 {
                    self.drawables.remove(i);
                    assert(self@.drawables =~= before.drawables.remove(i as int));
                    FocusEnd::Discarded(id)
                } else {
                    self.drawables[i].focused = false;
                    assert(self@.drawables =~= before.drawables.update(
                        i as int,
                        before.drawables[i as int].unfocused(),
                    ));
                    FocusEnd::Completed(id)
                }
            },
            None => {
                proof {
                    lemma_end_focus_none(before);
                }
                FocusEnd::Nothing
            },
        }
    }

    /// Takes every drawable that `filter` picks off the canvas. The result
    /// holds their names, the oldest first.
    pub fn clear_with(&mut self, filter: Filter) -> (gone: Vec<u64>)
        requires
            old(self).wf(),
        ensures
            final(self).wf(),
            final(self)@ == old(self)@.clear_with(filter),
            gone@ == old(self)@.picked_ids(filter),
    {
        let ghost before = self@;
        let ghost s = before.drawables;
        let mut gone: Vec<u64> = Vec::new();
        let mut i: usize = 0;
        let ghost mut k: int = 0;
        proof {
            assert(s.take(0) =~= Seq::empty());
            lemma_filter_all(s.take(0), filter.leaves());
            lemma_filter_all(s.take(0), filter.picks());
            assert(s.skip(0) =~= s);
            assert(self@.drawables =~= s.take(0).filter(filter.leaves()) + s.skip(0));
            assert(gone@ =~= ids_of(s.take(0).filter(filter.picks())));
        }
        while i < self.drawables.len()
            invariant
                s == before.drawables,
                0 <= k <= s.len(),
                i <= self.drawables.len(),
                self@.wf(),
                self@.next_id == before.next_id,
                self@.next_layer == before.next_layer,
                self@.drawables == s.take(k).filter(filter.leaves()) + s.skip(k),
                i == s.take(k).filter(filter.leaves()).len(),
                gone@ == ids_of(s.take(k).filter(filter.picks())),
            decreases self.drawables.len() - i,
        {
            let ghost cur = self@;
            proof {
                assert(k < s.len());
                assert(s.take(k + 1) =~= s.take(k).push(s[k]));
                lemma_filter_push(s.take(k), s[k], filter.leaves());
                lemma_filter_push(s.take(k), s[k], filter.picks());
                assert(cur.drawables[i as int] == s.skip(k)[0]);
            }
            if filter.picks_drawable(&self.drawables[i]) {
                let removed = self.drawables.remove(i);
                gone.push(removed.id);
                proof {
                    lemma_remove_wf(cur, i as int);
                    assert(self@.drawables =~= cur.drawables.remove(i as int));
                    assert(cur.drawables.remove(i as int) =~= s.take(k + 1).filter(filter.leaves())
                        + s.skip(k + 1));
                    assert(gone@ =~= ids_of(s.take(k + 1).filter(filter.picks())));
                    k = k + 1;
                }
            } else {
                proof {
                    assert(cur.drawables =~= s.take(k + 1).filter(filter.leaves()) + s.skip(
                        k + 1,
                    ));
                    k = k + 1;
                }
                i += 1;
            }
        }
        proof {
            assert(s.take(k) =~= s);
            assert(self@.drawables =~= s.filter(filter.leaves()));
        }
        gone
    }

    /// Erases at `point` with the reach `radius`: every stroke out of focus
    /// that has a point within `radius` of `point` is taken off the canvas.
    /// The result holds the names of those strokes, the oldest first.
    pub fn erase_near(&mut self, point: Point, radius: i32) -> (gone: Vec<u64>)
        requires
            old(self).wf(),
        ensures
            final(self).wf(),
            final(self)@ == old(self)@.erase_near(point, radius),
            gone@ == old(self)@.picked_ids(Filter::Near(point, radius)),
    {
        self.clear_with(Filter::Near(point, radius))
    }

    /// Takes the newest drawable that `filter` picks off the canvas. The
    /// result is its name; where the filter picks nothing, nothing happens.
    pub fn remove_last_with(&mut self, filter: Filter) -> (gone: Option<u64>)
        requires
            old(self).wf(),
        ensures
            final(self).wf(),
            final(self)@ == old(self)@.remove_last_with(filter),
            gone == old(self)@.last_id_with(filter),
    {
        let ghost before = self@;
        let mut i: usize = self.drawables.len();
        while i > 0
            invariant
                i <= self.drawables.len(),
                self@ == before,
                before == old(self)@,
                before.wf(),
                forall|j: int| i <= j < before.drawables.len() ==> !filter.matches(
                    #[trigger] before.drawables[j],
                ),
            decreases i,
        {
            i -= 1;
            if filter.picks_drawable(&self.drawables[i]) {
                proof {
                    lemma_last_matching(before.drawables, filter, i as int);
                    lemma_remove_wf(before, i as int);
                }
                let removed = self.drawables.remove(i);
                assert(self@.drawables =~= before.drawables.remove(i as int));
                return Some(removed.id);
            }
        }
        proof {
            lemma_last_matching(before.drawables, filter, -1);
        }
        None
    }

    /// Records the box that the renderer measured round the drawable `id`.
    /// The result tells whether the canvas holds that drawable.
    pub fn set_aabb(&mut self, id: u64, aabb: Option<Aabb>) -> (found: bool)
        requires
            old(self).wf(),
        ensures
            final(self).wf(),
            final(self)@ == old(self)@.set_aabb(id, aabb),
            found == has_id(old(self)@.drawables, id),
    {
        let ghost before = self@;
        let mut i: usize = 0;
        while i < self.drawables.len()
            invariant
                i <= self.drawables.len(),
                self@ == before,
                before == old(self)@,
                before.wf(),
                forall|j: int| 0 <= j < i ==> (#[trigger] before.drawables[j]).id != id,
            decreases self.drawables.len() - i,
        {
            if self.drawables[i].id == id {
                self.drawables[i].aabb = aabb;
                proof {
                    lemma_set_aabb_at(before, i as int, aabb);
                    assert(self@.drawables =~= before.drawables.update(
                        i as int,
                        DrawableView { aabb, ..before.drawables[i as int] },
                    ));
                }
                return true;
            }
            i += 1;
        }
        proof {
            assert(self@.drawables =~= before.set_aabb(id, aabb).drawables);
        }
        false
    }
}

/// A stroke that takes a point stays spaced.
pub proof fn lemma_spaced_push(points: Seq<Point>, point: Point)
    requires
        spaced(points),
        accepts(points, point),
    ensures
        spaced(points.push(point)),
{
    let longer = points.push(point);
    assert forall|k: int| 0 <= k < longer.len() implies accepts(
        longer.take(k),
        #[trigger] longer[k],
    ) by {
        if k < points.len() {
            assert(longer.take(k) =~= points.take(k));
            assert(accepts(points.take(k), points[k]));
        } else {
            assert(longer.take(k) =~= points);
        }
    }
}

/// With the stroke in focus at `i`, the pointer changes that stroke alone.
proof fn lemma_extend_at(c: CanvasView, i: int, point: Point)
    requires
        c.wf(),
        0 <= i < c.drawables.len(),
        c.drawables[i].focused,
    ensures
        c.extend_focused(point).drawables == c.drawables.update(i, c.drawables[i].extended(point)),
        c.extend_focused(point).wf(),
        c.extends(point) == accepts(c.drawables[i].points, point),
{
    let after = c.extend_focused(point).drawables;
    assert forall|j: int| 0 <= j < c.drawables.len() && j != i implies !(
    #[trigger] c.drawables[j]).focused by {
        assert(c.drawables[i].focused);
    }
    assert(after =~= c.drawables.update(i, c.drawables[i].extended(point)));
    assert(c.drawables[i].wf());
    if accepts(c.drawables[i].points, point) {
        lemma_spaced_push(c.drawables[i].points, point);
    }
    assert forall|j: int| 0 <= j < after.len() implies (#[trigger] after[j]).wf() by {
        assert(c.drawables[j].wf());
    }
    assert forall|j: int| 0 <= j < after.len() implies (#[trigger] after[j]).id
        == c.drawables[j].id && after[j].focused == c.drawables[j].focused by {}
    assert(ordered(after)) by {
        assert forall|a: int, b: int| 0 <= a < b < after.len() implies (#[trigger] after[a]).id < (
        #[trigger] after[b]).id by {
            assert(c.drawables[a].id < c.drawables[b].id);
        }
    }
    assert(single_focus(after)) by {
        assert forall|a: int, b: int| 0 <= a < b < after.len() implies !((
        #[trigger] after[a]).focused && (#[trigger] after[b]).focused) by {
            assert(!(c.drawables[a].focused && c.drawables[b].focused));
        }
    }
    assert forall|j: int| 0 <= j < after.len() implies (#[trigger] after[j]).id < c.next_id by {
        assert(c.drawables[j].id < c.next_id);
    }
}

/// With no stroke in focus, the pointer changes nothing.
proof fn lemma_extend_none(c: CanvasView, point: Point)
    requires
        !has_focused(c.drawables),
    ensures
        c.extend_focused(point) == c,
        !c.extends(point),
{
    assert(c.extend_focused(point).drawables =~= c.drawables);
}

/// A canvas without one of its drawables is a canvas.
pub proof fn lemma_remove_wf(c: CanvasView, i: int)
    requires
        c.wf(),
        0 <= i < c.drawables.len(),
    ensures
        (CanvasView { drawables: c.drawables.remove(i), ..c }).wf(),
{
    let s = c.drawables;
    let r = s.remove(i);
    assert forall|j: int| 0 <= j < r.len() implies #[trigger] r[j] == s[if j < i {
        j
    } else {
        j + 1
    }] by {}
    assert forall|j: int| 0 <= j < r.len() implies (#[trigger] r[j]).wf() && r[j].id
        < c.next_id by {
        let m = if j < i {
            j
        } else {
            j + 1
        };
        assert(s[m].wf() && s[m].id < c.next_id);
    }
    assert(ordered(r)) by {
        assert forall|a: int, b: int| 0 <= a < b < r.len() implies (#[trigger] r[a]).id < (
        #[trigger] r[b]).id by {
            let ma = if a < i {
                a
            } else {
                a + 1
            };
            let mb = if b < i {
                b
            } else {
                b + 1
            };
            assert(s[ma].id < s[mb].id);
        }
    }
    assert(single_focus(r)) by {
        assert forall|a: int, b: int| 0 <= a < b < r.len() implies !((#[trigger] r[a]).focused && (
        #[trigger] r[b]).focused) by {
            let ma = if a < i {
                a
            } else {
                a + 1
            };
            let mb = if b < i {
                b
            } else {
                b + 1
            };
            assert(!(s[ma].focused && s[mb].focused));
        }
    }
}

/// With the stroke in focus at `i`, lifting the pen changes that stroke
/// alone: it goes if it has no point, and leaves the focus if it has one.
proof fn lemma_end_focus_at(c: CanvasView, i: int)
    requires
        c.wf(),
        0 <= i < c.drawables.len(),
        c.drawables[i].focused,
    ensures
        c.focused_at() == i,
        c.end_focus().wf(),
        c.end_focus().drawables == if c.drawables[i].points.len() == 0 {
            c.drawables.remove(i)
        } else {
            c.drawables.update(i, c.drawables[i].unfocused())
        },
{
    let s = c.drawables;
    assert forall|j: int| 0 <= j < s.len() && j != i implies !(#[trigger] s[j]).focused by {
        assert(s[i].focused);
    }
    assert(has_focused(s));
    assert(s[i].wf());
    if s[i].points.len() == 0 {
        assert(!not_blank()(s[i]));
        assert forall|j: int| 0 <= j < s.len() && j != i implies not_blank()(#[trigger] s[j]) by {}
        lemma_filter_one_out(s, i, not_blank());
        let r = s.remove(i);
        assert(r.map_values(|d: DrawableView| d.unfocused()) =~= r);
        lemma_remove_wf(c, i);
    } else {
        assert forall|j: int| 0 <= j < s.len() implies not_blank()(#[trigger] s[j]) by {}
        lemma_filter_all(s, not_blank());
        let r = s.update(i, s[i].unfocused());
        assert(s.map_values(|d: DrawableView| d.unfocused()) =~= r);
        assert forall|j: int| 0 <= j < r.len() implies (#[trigger] r[j]).wf() && r[j].id
            < c.next_id && r[j].id == s[j].id by {
            assert(s[j].wf() && s[j].id < c.next_id);
        }
        assert(ordered(r)) by {
            assert forall|a: int, b: int| 0 <= a < b < r.len() implies (#[trigger] r[a]).id < (
            #[trigger] r[b]).id by {
                assert(s[a].id < s[b].id);
            }
        }
    }
}

/// With no stroke in focus, lifting the pen changes nothing.
proof fn lemma_end_focus_none(c: CanvasView)
    requires
        !has_focused(c.drawables),
    ensures
        c.end_focus() == c,
{
    let s = c.drawables;
    assert forall|j: int| 0 <= j < s.len() implies not_blank()(#[trigger] s[j]) by {}
    lemma_filter_all(s, not_blank());
    assert(s.map_values(|d: DrawableView| d.unfocused()) =~= s);
}

/// `last_matching` is the greatest index that the filter picks: it is `i`
/// where the filter picks the drawable at `i` and none after it, and `-1`
/// where it picks none.
pub proof fn lemma_last_matching(s: Seq<DrawableView>, filter: Filter, i: int)
    requires
        -1 <= i < s.len(),
        i >= 0 ==> filter.matches(s[i]),
        forall|j: int| i < j < s.len() ==> !filter.matches(#[trigger] s[j]),
    ensures
        last_matching(s, filter) == i,
    decreases s.len(),
{
    if s.len() > 0 && i != s.len() - 1 {
        lemma_last_matching(s.drop_last(), filter, i);
    }
}

/// Names are not shared, so a measurement changes the drawable at `i` alone.
proof fn lemma_set_aabb_at(c: CanvasView, i: int, aabb: Option<Aabb>)
    requires
        c.wf(),
        0 <= i < c.drawables.len(),
    ensures
        c.set_aabb(c.drawables[i].id, aabb).drawables == c.drawables.update(
            i,
            DrawableView { aabb, ..c.drawables[i] },
        ),
        c.set_aabb(c.drawables[i].id, aabb).wf(),
        has_id(c.drawables, c.drawables[i].id),
{
    let s = c.drawables;
    let r = c.set_aabb(s[i].id, aabb).drawables;
    assert forall|j: int| 0 <= j < s.len() && j != i implies (#[trigger] s[j]).id != s[i].id by {
        if j < i {
            assert(s[j].id < s[i].id);
        } else {
            assert(s[i].id < s[j].id);
        }
    }
    assert(r =~= s.update(i, DrawableView { aabb, ..s[i] }));
    assert forall|j: int| 0 <= j < r.len() implies (#[trigger] r[j]).wf() && r[j].id < c.next_id
        && r[j].id == s[j].id && r[j].focused == s[j].focused by {
        assert(s[j].wf() && s[j].id < c.next_id);
    }
    assert(ordered(r)) by {
        assert forall|a: int, b: int| 0 <= a < b < r.len() implies (#[trigger] r[a]).id < (
        #[trigger] r[b]).id by {
            assert(s[a].id < s[b].id);
        }
    }
    assert(single_focus(r)) by {
        assert forall|a: int, b: int| 0 <= a < b < r.len() implies !((#[trigger] r[a]).focused && (
        #[trigger] r[b]).focused) by {
            assert(!(s[a].focused && s[b].focused));
        }
    }
}

/// In a spaced stroke, every two points in a row lie farther than
/// `MIN_GAP` apart, and the first point lies as far from the origin.
pub proof fn lemma_spaced_points_are_apart(points: Seq<Point>, k: int)
    requires
        spaced(points),
        0 <= k < points.len(),
    ensures
        k == 0 ==> dist_sq(Point::origin(), points[0]) > MIN_GAP * MIN_GAP,
        k > 0 ==> dist_sq(points[k - 1], points[k]) > MIN_GAP * MIN_GAP,
{
    assert(accepts(points.take(k), points[k]));
    if k > 0 {
        assert(points.take(k).last() == points[k - 1]);
    }
}

/// Along every path of the pointer a stroke only grows: the points that it
/// held stay where they are, and every point still lies farther than
/// `MIN_GAP` from the one before it.
pub proof fn lemma_traced_grows(points: Seq<Point>, path: Seq<Point>)
    requires
        spaced(points),
    ensures
        spaced(traced(points, path)),
        points.len() <= traced(points, path).len() <= points.len() + path.len(),
        traced(points, path).take(points.len() as int) == points,
    decreases path.len(),
{
    if path.len() > 0 {
        let before = traced(points, path.drop_last());
        lemma_traced_grows(points, path.drop_last());
        if accepts(before, path.last()) {
            lemma_spaced_push(before, path.last());
            assert(before.push(path.last()).take(points.len() as int) =~= before.take(
                points.len() as int,
            ));
        }
    } else {
        assert(points.take(points.len() as int) =~= points);
    }
}

/// A longer path never leaves a stroke with fewer points: what the stroke
/// holds after a part of the path stays in place as the pointer goes on.
pub proof fn lemma_traced_is_monotone(points: Seq<Point>, path: Seq<Point>, n: int)
    requires
        0 <= n <= path.len(),
    ensures
        traced(points, path.take(n)).len() <= traced(points, path).len(),
        traced(points, path).take(traced(points, path.take(n)).len() as int) == traced(
            points,
            path.take(n),
        ),
    decreases path.len() - n,
{
    let part = traced(points, path.take(n));
    if n == path.len() {
        assert(path.take(n) =~= path);
        assert(part.take(part.len() as int) =~= part);
    } else {
        lemma_traced_is_monotone(points, path.drop_last(), n);
        assert(path.drop_last().take(n) =~= path.take(n));
        let before = traced(points, path.drop_last());
        if accepts(before, path.last()) {
            assert(before.push(path.last()).take(part.len() as int) =~= before.take(
                part.len() as int,
            ));
        }
    }
}

/// The canvas after the pointer went along `path`.
pub open spec fn drawn_along(c: CanvasView, path: Seq<Point>) -> CanvasView
    decreases path.len(),
{
    if path.len() == 0 {
        c
    } else {
        drawn_along(c, path.drop_last()).extend_focused(path.last())
    }
}

/// Going along a path changes the points of the stroke in focus and nothing
/// else: that stroke holds what `traced` says, and every other drawable
/// stays as it is.
pub proof fn lemma_drawn_along(c: CanvasView, path: Seq<Point>)
    ensures
        drawn_along(c, path).drawables.len() == c.drawables.len(),
        drawn_along(c, path).next_id == c.next_id,
        drawn_along(c, path).next_layer == c.next_layer,
        forall|i: int|
            0 <= i < c.drawables.len() ==> #[trigger] drawn_along(c, path).drawables[i] == (
            DrawableView {
                points: if c.drawables[i].focused {
                    traced(c.drawables[i].points, path)
                } else {
                    c.drawables[i].points
                },
                ..c.drawables[i]
            }),
    decreases path.len(),
{
    if path.len() > 0 {
        lemma_drawn_along(c, path.drop_last());
    }
}

/// Undo takes the newest stroke and no other: with a stroke as the newest
/// drawable, what is left is the canvas without it.
pub proof fn lemma_undo_takes_newest(c: CanvasView)
    requires
        c.drawables.len() > 0,
        c.drawables.last().tag == Tag::Path,
    ensures
        c.remove_last_with(Filter::With(Tag::Path)).drawables == c.drawables.drop_last(),
        c.last_id_with(Filter::With(Tag::Path)) == Some(c.drawables.last().id),
{
    assert(c.drawables.remove(c.drawables.len() - 1) =~= c.drawables.drop_last());
}

/// Undo on a canvas without a stroke changes nothing.
pub proof fn lemma_undo_without_strokes(c: CanvasView)
    requires
        forall|i: int| 0 <= i < c.drawables.len() ==> (#[trigger] c.drawables[i]).tag != Tag::Path,
    ensures
        c.remove_last_with(Filter::With(Tag::Path)) == c,
        c.last_id_with(Filter::With(Tag::Path)) is None,
{
    lemma_last_matching(c.drawables, Filter::With(Tag::Path), -1);
}

/// The eraser takes a stroke exactly if the stroke is out of focus and has
/// a point in reach: such a stroke is not on the canvas afterwards, and
/// every other drawable is.
pub proof fn lemma_erase_near(c: CanvasView, point: Point, radius: i32, i: int)
    requires
        c.wf(),
        0 <= i < c.drawables.len(),
    ensures
        c.drawables[i].erased_by(point, radius as int) <==> !has_id(
            c.erase_near(point, radius).drawables,
            c.drawables[i].id,
        ),
        !c.drawables[i].erased_by(point, radius as int) ==> c.erase_near(
            point,
            radius,
        ).drawables.contains(c.drawables[i]),
{
    let filter = Filter::Near(point, radius);
    let kept = c.drawables.filter(filter.leaves());
    if c.drawables[i].erased_by(point, radius as int) {
        if has_id(kept, c.drawables[i].id) {
            let k = choose|k: int| 0 <= k < kept.len() && (#[trigger] kept[k]).id == c.drawables[i].id;
            lemma_filter_from(c.drawables, filter.leaves(), k);
            let j = choose|j: int| 0 <= j < c.drawables.len() && #[trigger] c.drawables[j] == kept[k];
            if j < i {
                assert(c.drawables[j].id < c.drawables[i].id);
            } else if i < j {
                assert(c.drawables[i].id < c.drawables[j].id);
            }
            assert(false);
        }
    } else {
        c.drawables.lemma_filter_contains(filter.leaves(), i);
        let k = choose|k: int| 0 <= k < kept.len() && kept[k] == c.drawables[i];
        assert(kept[k].id == c.drawables[i].id);
    }
}

/// Filtering keeps the names growing.
proof fn lemma_filter_ordered(s: Seq<DrawableView>, pred: spec_fn(DrawableView) -> bool)
    requires
        ordered(s),
    ensures
        ordered(s.filter(pred)),
    decreases s.len(),
{
    reveal(Seq::filter);
    if s.len() > 0 {
        let front = s.drop_last();
        assert forall|i: int, j: int| 0 <= i < j < front.len() implies (#[trigger] front[i]).id < (
        #[trigger] front[j]).id by {
            assert(s[i].id < s[j].id);
        }
        lemma_filter_ordered(front, pred);
        if pred(s.last()) {
            let kept = front.filter(pred);
            let all = kept.push(s.last());
            assert forall|a: int, b: int| 0 <= a < b < all.len() implies (#[trigger] all[a]).id < (
            #[trigger] all[b]).id by {
                if b < kept.len() {
                    assert(kept[a].id < kept[b].id);
                } else {
                    lemma_filter_from(front, pred, a);
                    let i = choose|i: int| 0 <= i < front.len() && #[trigger] front[i] == kept[a];
                    assert(s[i].id < s[s.len() - 1].id);
                }
            }
        }
    }
}

/// A canvas without the drawables that a filter picks is a canvas.
pub proof fn lemma_clear_keeps_wf(c: CanvasView, filter: Filter)
    requires
        c.wf(),
    ensures
        c.clear_with(filter).wf(),
{
    let s = c.drawables;
    let kept = s.filter(filter.leaves());
    lemma_filter_ordered(s, filter.leaves());
    assert forall|k: int| 0 <= k < kept.len() implies (#[trigger] kept[k]).wf() && kept[k].id
        < c.next_id by {
        lemma_filter_from(s, filter.leaves(), k);
        let i = choose|i: int| 0 <= i < s.len() && #[trigger] s[i] == kept[k];
        assert(s[i].wf() && s[i].id < c.next_id);
    }
    assert(single_focus(kept)) by {
        assert forall|a: int, b: int| 0 <= a < b < kept.len() implies !((
        #[trigger] kept[a]).focused && (#[trigger] kept[b]).focused) by {
            lemma_filter_from(s, filter.leaves(), a);
            lemma_filter_from(s, filter.leaves(), b);
            let i = choose|i: int| 0 <= i < s.len() && #[trigger] s[i] == kept[a];
            let j = choose|j: int| 0 <= j < s.len() && #[trigger] s[j] == kept[b];
            assert(kept[a].id < kept[b].id);
            if i < j {
                assert(!(s[i].focused && s[j].focused));
            } else if j < i {
                assert(!(s[j].focused && s[i].focused));
            }
        }
    }
}

/// Every operation of the stroke engine leaves a canvas a canvas: names keep
/// growing, one stroke at most is in focus, and every stroke stays spaced.
pub proof fn lemma_canvas_stays_wf(c: CanvasView)
    requires
        c.wf(),
    ensures
        forall|width: i32, color: Color| (#[trigger] c.begin_stroke(width, color)).wf(),
        forall|position: Point| (#[trigger] c.spawn_text_cursor(position)).wf(),
        forall|point: Point| (#[trigger] c.extend_focused(point)).wf(),
        c.end_focus().wf(),
        forall|filter: Filter| (#[trigger] c.clear_with(filter)).wf(),
        forall|point: Point, radius: i32| (#[trigger] c.erase_near(point, radius)).wf(),
        forall|filter: Filter| (#[trigger] c.remove_last_with(filter)).wf(),
        forall|id: u64, aabb: Option<Aabb>| (#[trigger] c.set_aabb(id, aabb)).wf(),
{
    let s = c.drawables;
    assert forall|width: i32, color: Color| (#[trigger] c.begin_stroke(width, color)).wf() by {
        if c.can_begin() {
            let stroke = c.new_stroke(width, color);
            let after = c.begin_stroke(width, color).drawables;
            assert(stroke.wf());
            assert forall|i: int| 0 <= i < after.len() implies (#[trigger] after[i]).wf()
                && after[i].id < c.next_id + 1 by {
                if i < s.len() {
                    assert(s[i].wf() && s[i].id < c.next_id);
                }
            }
            assert(ordered(after)) by {
                assert forall|a: int, b: int| 0 <= a < b < after.len() implies (
                #[trigger] after[a]).id < (#[trigger] after[b]).id by {
                    if b < s.len() {
                        assert(s[a].id < s[b].id);
                    } else {
                        assert(s[a].id < c.next_id);
                    }
                }
            }
            assert(single_focus(after)) by {
                assert forall|a: int, b: int| 0 <= a < b < after.len() implies !((
                #[trigger] after[a]).focused && (#[trigger] after[b]).focused) by {
                    assert(!s[a].focused);
                }
            }
        }
    }
    assert forall|position: Point| (#[trigger] c.spawn_text_cursor(position)).wf() by {
        if c.has_room() {
            let caret = c.new_text_cursor(position);
            let after = c.spawn_text_cursor(position).drawables;
            assert(caret.wf());
            assert forall|i: int| 0 <= i < after.len() implies (#[trigger] after[i]).wf()
                && after[i].id < c.next_id + 1 by {
                if i < s.len() {
                    assert(s[i].wf() && s[i].id < c.next_id);
                }
            }
            assert(ordered(after)) by {
                assert forall|a: int, b: int| 0 <= a < b < after.len() implies (
                #[trigger] after[a]).id < (#[trigger] after[b]).id by {
                    if b < s.len() {
                        assert(s[a].id < s[b].id);
                    } else {
                        assert(s[a].id < c.next_id);
                    }
                }
            }
            assert(single_focus(after)) by {
                assert forall|a: int, b: int| 0 <= a < b < after.len() implies !((
                #[trigger] after[a]).focused && (#[trigger] after[b]).focused) by {
                    if b < s.len() {
                        assert(!(s[a].focused && s[b].focused));
                    }
                }
            }
        }
    }
    assert forall|point: Point| (#[trigger] c.extend_focused(point)).wf() by {
        if has_focused(s) {
            lemma_extend_at(c, c.focused_at(), point);
        } else {
            lemma_extend_none(c, point);
        }
    }
    if has_focused(s) {
        lemma_end_focus_at(c, c.focused_at());
    } else {
        lemma_end_focus_none(c);
    }
    assert forall|filter: Filter| (#[trigger] c.clear_with(filter)).wf() by {
        lemma_clear_keeps_wf(c, filter);
    }
    assert forall|point: Point, radius: i32| (#[trigger] c.erase_near(point, radius)).wf() by {
        lemma_clear_keeps_wf(c, Filter::Near(point, radius));
    }
    assert forall|filter: Filter| (#[trigger] c.remove_last_with(filter)).wf() by {
        lemma_last_matching_in_range(s, filter);
        if last_matching(s, filter) >= 0 {
            lemma_remove_wf(c, last_matching(s, filter));
        }
    }
    assert forall|id: u64, aabb: Option<Aabb>| (#[trigger] c.set_aabb(id, aabb)).wf() by {
        if has_id(s, id) {
            let i = choose|i: int| 0 <= i < s.len() && (#[trigger] s[i]).id == id;
            lemma_set_aabb_at(c, i, aabb);
        } else {
            assert(c.set_aabb(id, aabb).drawables =~= s);
        }
    }
}

/// `last_matching` is an index of the sequence, or `-1`, and the filter
/// picks the drawable that it points at.
pub proof fn lemma_last_matching_in_range(s: Seq<DrawableView>, filter: Filter)
    ensures
        -1 <= last_matching(s, filter) < s.len(),
        last_matching(s, filter) >= 0 ==> filter.matches(s[last_matching(s, filter)]),
    decreases s.len(),
{
    if s.len() > 0 && !filter.matches(s.last()) {
        lemma_last_matching_in_range(s.drop_last(), filter);
    }
}

} // verus!
