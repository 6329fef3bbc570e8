//! A drawing session: every part of the tool in one place, driven by the
//! events of the platform one tick at a time.
//!
//! A tick feeds the events that the platform buffered to the session in the
//! order in which they came, and then lets the parts of the tool run once:
//! first the camera and the pen or eraser, which see the modes as the events
//! left them, and last the tracking of what the pointer hovers over.

use vstd::prelude::*;
use crate::common::Window;
use crate::double_click::{after_press, is_double_click, GestureClock};
use crate::draw::{
    has_id,
    lemma_canvas_stays_wf,
    Canvas,
    CanvasView,
    DrawableView,
    Filter,
    Tag,
};
use crate::focus::{
    can_be_hit,
    find_at,
    hovered_of,
    lemma_top_index,
    mesh_focus_system,
    nodes,
    nodes_of,
    top_index,
    Hit,
    HoveredMesh,
    Node,
};
use crate::geometry::{Aabb, Point};
use crate::input::{ButtonState, InputEvent, Key};
use crate::projection_2d_control::{
    control_proj,
    set_camera_begin_transform,
    set_state_change_position_begin,
    update_camera,
    CameraBeginTransform,
    MainCamera,
    StateChangePositionBegin,
};
use crate::selected::{
    kept_by_release,
    selected_by_press,
    cancel_selected_with_cursor,
    selected,
    Selected,
};
use crate::sequences::{lemma_filter_all, lemma_filter_from, lemma_filter_push};
use crate::states::{CursorState, ModeMachine, Modes, RunMode, ToolButton, Transition};
use crate::text_input::{enter_text_input, entered, exit_text_input};
use crate::toggle_component::toggle_component;
use crate::touch_cursor::{
    update_touch_cursor_size,
    update_world_torch_cursor,
    Cursor,
    TouchCursor,
    WorldTouchCursor,
};
use crate::ui::{
    button_of_key,
    cursor_shows,
    focused_tool_by_key_code,
    is_hover_tool_button_bar,
    window_cursor_shows,
    Interaction,
};

verus! {

/// Which buttons and keys are down.
#[derive(Clone, Copy, Debug, PartialEq, Eq, Structural)]
pub struct Held {
    /// The left button of the pointing device.
    pub left: bool,
    /// The key that turns zooming into scrolling and completes the undo
    /// chord.
    pub modifier: bool,
    /// The key that makes the touch cursor smaller.
    pub shrink: bool,
    /// The key that makes the touch cursor larger.
    pub grow: bool,
}

/// A session as a mathematical value.
pub struct SessionView {
    pub modes: Modes,
    pub canvas: CanvasView,
    pub camera: MainCamera,
    /// Where the camera stood when the drag began.
    pub begin_transform: Point,
    /// Where in the window the pointer stood when the drag began.
    pub begin_position: Option<Point>,
    pub cursor: Cursor,
    /// Where the pointer stands on the canvas.
    pub world: Point,
    pub window: Window,
    pub selected: Seq<u64>,
    pub hovered: Option<u64>,
    /// The press that the double-click detector remembers.
    pub clock: Option<u64>,
    /// Whether the next flip of the looks shows the first one.
    pub is_bundle_0: bool,
    pub held: Held,
    /// Whether the pointer has moved on the canvas since the parts of the
    /// tool last ran.
    pub moved: bool,
    /// The wheel events since the parts of the tool last ran.
    pub wheel: Seq<i32>,
}

/// The test that the names of the drawables `drawables` pass.
pub open spec fn alive(drawables: Seq<DrawableView>) -> spec_fn(u64) -> bool {
    |entity: u64| has_id(drawables, entity)
}

impl SessionView {
    /// The session in which nothing has happened yet.
    pub open spec fn initial() -> SessionView {
        SessionView {
            modes: Modes::initial(),
            canvas: CanvasView::empty(),
            camera: MainCamera::initial(),
            begin_transform: Point::origin(),
            begin_position: None,
            cursor: Cursor::Touch(TouchCursor::initial()),
            world: Point::origin(),
            window: Window::initial(),
            selected: Seq::empty(),
            hovered: None,
            clock: None,
            is_bundle_0: false,
            held: Held { left: false, modifier: false, shrink: false, grow: false },
            moved: false,
            wheel: Seq::empty(),
        }
    }

    /// What holds of every session: the canvas is well formed, and what is
    /// selected or hovered over is on the canvas.
    pub open spec fn wf(self) -> bool {
        &&& self.canvas.wf()
        &&& forall|i: int|
            0 <= i < self.selected.len() ==> has_id(self.canvas.drawables, #[trigger] self.selected[i])
        &&& self.hovered is Some ==> has_id(self.canvas.drawables, self.hovered->0)
    }

    /// What the hit test finds under the pointer.
    pub open spec fn found(self) -> Option<Hit> {
        find_at(nodes_of(self.canvas.drawables), self.world)
    }

    /// The session that no longer selects or hovers over what has left the
    /// canvas.
    pub open spec fn forget_missing(self) -> SessionView {
        SessionView {
            selected: self.selected.filter(alive(self.canvas.drawables)),
            hovered: if self.hovered is Some && has_id(self.canvas.drawables, self.hovered->0) {
                self.hovered
            } else {
                None
            },
            ..self
        }
    }

    /// Text input on a press of the left button, which completes a double
    /// click or not. The selection tool alone enters text: a press closes
    /// what is open and takes the carets away, and a double click opens text
    /// input where the pointer stands and puts a caret there.
    pub open spec fn text_input(self, double: bool) -> SessionView {
        if self.modes.tool != ToolButton::Cursor {
            self
        } else {
            let closed = if self.window.ime_enabled {
                SessionView {
                    window: Window { ime_enabled: false, ..self.window },
                    canvas: self.canvas.clear_with(Filter::With(Tag::TextCursor)),
                    ..self
                }
            } else {
                self
            };
            if double && closed.window.cursor_position is Some {
                SessionView {
                    window: entered(closed.window),
                    canvas: closed.canvas.spawn_text_cursor(closed.world),
                    ..closed
                }
            } else {
                closed
            }
        }
    }

    /// What entering a pointer state does, `from` being the state before.
    /// Beginning to draw with the pen begins a stroke as wide and coloured
    /// as the touch cursor; beginning to drag the camera remembers where the
    /// camera and the pointer stand.
    pub open spec fn entered(self, from: CursorState) -> SessionView {
        if from != CursorState::Hovering {
            self
        } else if self.modes.cursor == CursorState::Drawing {
            if self.modes.tool == ToolButton::Pen && self.cursor.touch() is Some {
                SessionView {
                    canvas: self.canvas.begin_stroke(
                        self.cursor.touch()->0.size,
                        self.cursor.touch()->0.color,
                    ),
                    ..self
                }
            } else {
                self
            }
        } else if self.modes.cursor == CursorState::PanningCamera {
            SessionView {
                begin_transform: self.camera.translation,
                begin_position: if self.window.cursor_position is Some {
                    self.window.cursor_position
                } else {
                    self.begin_position
                },
                ..self
            }
        } else {
            self
        }
    }

    /// What leaving a pointer state does, `from` being the state before. To
    /// stop drawing with the pen lifts the pen.
    pub open spec fn left(self, from: CursorState) -> SessionView {
        if from == CursorState::Drawing && self.modes.cursor == CursorState::Hovering
            && self.modes.tool == ToolButton::Pen {
            SessionView { canvas: self.canvas.end_focus(), ..self }
        } else {
            self
        }
    }

    /// The session that has noted a press of the left button at `time`.
    pub open spec fn press_noted(self, time: u64) -> SessionView {
        SessionView {
            clock: after_press(self.clock, time),
            held: Held { left: true, ..self.held },
            ..self
        }
    }

    /// The session that has noted a release of the left button.
    pub open spec fn release_noted(self) -> SessionView {
        SessionView { held: Held { left: false, ..self.held }, ..self }
    }

    /// The session whose mode state machine has taken `event`.
    pub open spec fn stepped(self, event: InputEvent) -> SessionView {
        SessionView { modes: self.modes.step(event), ..self }
    }

    /// The selection's part of a press: with the selection tool, the press
    /// selects what lies under the pointer.
    pub open spec fn press_selects(self) -> SessionView {
        if self.modes.tool == ToolButton::Cursor {
            SessionView { selected: selected_by_press(self.found()), ..self }
        } else {
            self
        }
    }

    /// The selection's part of a release: with the selection tool, the
    /// release keeps the selection only over the selected drawable.
    pub open spec fn release_selects(self) -> SessionView {
        if self.modes.tool == ToolButton::Cursor {
            SessionView { selected: kept_by_release(self.selected, self.found()), ..self }
        } else {
            self
        }
    }

    /// The left button goes down at `event`, at the time `time`: the
    /// double-click detector notes the press, text input is closed or
    /// opened, the mode state machine takes the event, the state that it
    /// enters takes effect, and the press selects.
    pub open spec fn left_pressed(self, event: InputEvent, time: u64) -> SessionView {
        let typed = self.press_noted(time).text_input(is_double_click(self.clock, time));
        typed.stepped(event).entered(typed.modes.cursor).press_selects()
    }

    /// The left button goes up at `event`: the mode state machine takes the
    /// event, the state that it leaves takes effect, and the release
    /// selects.
    pub open spec fn left_released(self, event: InputEvent) -> SessionView {
        self.release_noted().stepped(event).left(self.modes.cursor).release_selects()
    }

    /// The pointer moves to `window` in the window, which is `world` on the
    /// canvas where the camera can tell.
    pub open spec fn cursor_moved(self, window: Point, world: Option<Point>) -> SessionView {
        let changed = world is Some && world != Some(self.world);
        SessionView {
            window: Window { cursor_position: Some(window), ..self.window },
            world: if changed {
                world->0
            } else {
                self.world
            },
            moved: self.moved || changed,
            ..self
        }
    }

    /// The pointer leaves the window.
    pub open spec fn cursor_left(self) -> SessionView {
        SessionView { window: Window { cursor_position: None, ..self.window }, ..self }
    }

    /// The wheel turns by `y` notches.
    pub open spec fn wheel_turned(self, y: i32) -> SessionView {
        SessionView { wheel: self.wheel.push(y), ..self }
    }

    /// The tool bar selects `tool`, and with it the pointer `cursor`. Tools
    /// are selected while editing only.
    pub open spec fn tool_selected(self, tool: ToolButton, cursor: Cursor) -> SessionView {
        if self.modes.run == RunMode::Normal {
            SessionView { modes: self.modes.select_tool(tool), cursor, ..self }
        } else {
            self
        }
    }

    /// The key `key` goes down or up at `event`.
    pub open spec fn key_changed(self, event: InputEvent, key: Key, down: bool) -> SessionView {
        match key {
            Key::RunMode | Key::Pan => SessionView { modes: self.modes.step(event), ..self },
            Key::Modifier => SessionView { held: Held { modifier: down, ..self.held }, ..self },
            Key::Shrink => SessionView { held: Held { shrink: down, ..self.held }, ..self },
            Key::Grow => SessionView { held: Held { grow: down, ..self.held }, ..self },
            Key::Tool1 | Key::Tool2 | Key::Tool3 => if down {
                self.tool_selected(button_of_key(key)->0.tool, button_of_key(key)->0.cursor)
            } else {
                self
            },
            Key::Undo => if down && self.held.modifier {
                SessionView {
                    canvas: self.canvas.remove_last_with(Filter::With(Tag::Path)),
                    ..self
                }
            } else {
                self
            },
            Key::Clear => if down {
                SessionView { canvas: self.canvas.clear_with(Filter::With(Tag::Path)), ..self }
            } else {
                self
            },
            Key::Toggle => SessionView { is_bundle_0: !self.is_bundle_0, ..self },
        }
    }

    /// The session after `event`.
    pub open spec fn handle(self, event: InputEvent) -> SessionView {
        (match event {
            InputEvent::Button(button) => if button.is_left_press() {
                self.left_pressed(event, button.time)
            } else if button.is_left_release() {
                self.left_released(event)
            } else {
                self
            },
            InputEvent::CursorMoved { window, world } => self.cursor_moved(window, world),
            InputEvent::CursorLeft => self.cursor_left(),
            InputEvent::Wheel { y } => self.wheel_turned(y),
            InputEvent::Keyboard { key, state } => self.key_changed(
                event,
                key,
                state == ButtonState::Pressed,
            ),
        }).forget_missing()
    }

    /// The session after the events `events`, in their order.
    pub open spec fn handle_all(self, events: Seq<InputEvent>) -> SessionView
        decreases events.len(),
    {
        if events.len() == 0 {
            self
        } else {
            self.handle_all(events.drop_last()).handle(events.last())
        }
    }

    /// The camera's part of a tick. While editing, a drag moves the camera
    /// with the pointer, and a hovering pointer lets the wheel zoom and
    /// scroll. While inspecting the camera stays.
    pub open spec fn camera_moved(self) -> SessionView {
        if self.modes.run != RunMode::Normal {
            self
        } else if self.modes.cursor == CursorState::PanningCamera {
            SessionView {
                camera: self.camera.dragged(
                    self.begin_transform,
                    self.begin_position,
                    self.window.cursor_position,
                ),
                ..self
            }
        } else if self.modes.cursor == CursorState::Hovering {
            SessionView {
                camera: self.camera.wheeled_all(self.wheel, self.held.modifier),
                ..self
            }
        } else {
            self
        }
    }

    /// The pen draws in this tick: the surface is edited, the pen is the
    /// tool, the left button holds it down, and the pointer has moved on the
    /// canvas.
    pub open spec fn pen_draws(self) -> bool {
        self.modes.run == RunMode::Normal && self.modes.tool == ToolButton::Pen
            && self.modes.cursor == CursorState::Drawing && self.moved
    }

    /// The eraser erases in this tick: it is the tool, the left button holds
    /// it down, the pointer has moved on the canvas and shows the touch
    /// cursor.
    pub open spec fn eraser_erases(self) -> bool {
        self.modes.tool == ToolButton::Eraser && self.modes.cursor == CursorState::Drawing
            && self.moved && self.cursor.touch() is Some
    }

    /// The pen's and the eraser's part of a tick.
    pub open spec fn tools_applied(self) -> SessionView {
        if self.pen_draws() {
            SessionView { canvas: self.canvas.extend_focused(self.world), ..self }
        } else if self.eraser_erases() {
            SessionView {
                canvas: self.canvas.erase_near(self.world, self.cursor.touch()->0.size),
                ..self
            }
        } else {
            self
        }
    }

    /// The focus tracker's part of a tick: with the selection tool, no
    /// button down and the pointer moved, what the pointer hovers over is
    /// found again.
    pub open spec fn focus_followed(self) -> SessionView {
        if self.modes.tool == ToolButton::Cursor && !self.held.left && self.moved {
            SessionView { hovered: hovered_of(self.found(), self.selected), ..self }
        } else {
            self
        }
    }

    /// The session whose touch cursor the size keys have resized.
    pub open spec fn resized(self) -> SessionView {
        SessionView { cursor: self.cursor.resized(self.held.shrink, self.held.grow), ..self }
    }

    /// The session at the end of a tick: the window has learnt whether to
    /// show the system's pointer, and the pointer's movement and the wheel
    /// events are used up.
    pub open spec fn settled(self, hover: bool) -> SessionView {
        SessionView {
            window: Window {
                cursor_visible: cursor_shows(hover, self.cursor, self.modes.run),
                ..self.window
            },
            moved: false,
            wheel: Seq::empty(),
            ..self
        }
    }

    /// The session after the parts of the tool ran once, `hover` telling
    /// whether the pointer is over the tool bar. The size keys resize the
    /// touch cursor, then the camera, the pen and the eraser and the focus
    /// tracker take their turn, and the window learns whether to show the
    /// system's pointer.
    pub open spec fn update(self, hover: bool) -> SessionView {
        self.resized().camera_moved().tools_applied().forget_missing().focus_followed().settled(
            hover,
        )
    }

    /// The session after one tick with the events `events`.
    pub open spec fn tick(self, events: Seq<InputEvent>, hover: bool) -> SessionView {
        self.handle_all(events).update(hover)
    }

    /// Whether a tick's run of the tools makes the stroke in focus longer, so
    /// that its path must be built anew.
    pub open spec fn redraws(self) -> bool {
        self.pen_draws() && self.canvas.extends(self.world)
    }
}

/// A drawing session.
#[derive(Clone, Debug)]
pub struct Session {
    states: ModeMachine,
    canvas: Canvas,
    camera: MainCamera,
    camera_transform_org: CameraBeginTransform,
    state_change_position_begin: StateChangePositionBegin,
    cursor: Cursor,
    world_touch_cursor: WorldTouchCursor,
    window: Window,
    selected: Selected,
    hovered_mesh: HoveredMesh,
    clock: GestureClock,
    is_bundle_0: bool,
    held: Held,
    moved: bool,
    wheel: Vec<i32>,
}

impl View for Session {
    type V = SessionView;

    closed spec fn view(&self) -> SessionView {
        SessionView {
            modes: self.states@,
            canvas: self.canvas@,
            camera: self.camera,
            begin_transform: self.camera_transform_org.0,
            begin_position: self.state_change_position_begin.0,
            cursor: self.cursor,
            world: self.world_touch_cursor.0,
            window: self.window,
            selected: self.selected.0@,
            hovered: self.hovered_mesh.0,
            clock: self.clock@,
            is_bundle_0: self.is_bundle_0,
            held: self.held,
            moved: self.moved,
            wheel: self.wheel@,
        }
    }
}

impl Session {
    /// What holds of every session.
    pub open spec fn wf(&self) -> bool {
        self@.wf()
    }

    /// A session in which nothing has happened yet: an empty canvas, the pen
    /// in hand, the camera at the origin.
    pub fn new() -> (s: Session)
        ensures
            s.wf(),
            s@ == SessionView::initial(),
    {
        let s = Session {
            states: ModeMachine::new(),
            canvas: Canvas::new(),
            camera: MainCamera::default(),
            camera_transform_org: CameraBeginTransform::default(),
            state_change_position_begin: StateChangePositionBegin::default(),
            cursor: Cursor::default(),
            world_touch_cursor: WorldTouchCursor::default(),
            window: Window::default(),
            selected: Selected::default(),
            hovered_mesh: HoveredMesh::default(),
            clock: GestureClock::new(),
            is_bundle_0: false,
            held: Held { left: false, modifier: false, shrink: false, grow: false },
            moved: false,
            wheel: Vec::new(),
        };
        assert(s@.selected =~= Seq::empty());
        assert(s@.wheel =~= Seq::empty());
        s
    }

    /// The mode state machine.
    pub fn states(&self) -> (m: &ModeMachine)
        ensures
            m@ == self@.modes,
    {
        &self.states
    }

    /// The canvas.
    pub fn canvas(&self) -> (c: &Canvas)
        ensures
            c@ == self@.canvas,
    {
        &self.canvas
    }

    /// The camera.
    pub fn camera(&self) -> (c: MainCamera)
        ensures
            c == self@.camera,
    {
        self.camera
    }

    /// What the pointer looks like.
    pub fn cursor(&self) -> (c: Cursor)
        ensures
            c == self@.cursor,
    {
        self.cursor
    }

    /// Where the pointer stands on the canvas.
    pub fn world_touch_cursor(&self) -> (w: WorldTouchCursor)
        ensures
            w.0 == self@.world,
    {
        self.world_touch_cursor
    }

    /// The window as the session left it.
    pub fn window(&self) -> (w: Window)
        ensures
            w == self@.window,
    {
        self.window
    }

    /// What is selected.
    pub fn selected(&self) -> (s: &Selected)
        ensures
            s.0@ == self@.selected,
    {
        &self.selected
    }

    /// What the pointer hovers over.
    pub fn hovered_mesh(&self) -> (h: HoveredMesh)
        ensures
            h.0 == self@.hovered,
    {
        self.hovered_mesh
    }

    /// Which buttons and keys are down.
    pub fn held(&self) -> (h: Held)
        ensures
            h == self@.held,
    {
        self.held
    }

    /// Whether the next flip of the looks shows the first one.
    pub fn is_bundle_0(&self) -> (b: bool)
        ensures
            b == self@.is_bundle_0,
    {
        self.is_bundle_0
    }

    /// What the hit tester sees of the canvas.
    pub fn nodes(&self) -> (found: Vec<Node>)
        ensures
            found@ == nodes_of(self@.canvas.drawables),
    {
        nodes(&self.canvas)
    }

    /// Stops selecting and hovering over what has left the canvas.
    fn forget_missing(&mut self)
        requires
            old(self)@.canvas.wf(),
        ensures
            final(self)@ == old(self)@.forget_missing(),
            final(self).wf(),
    {
        let ghost before = self@;
        let ghost test = alive(before.canvas.drawables);
        let mut kept: Vec<u64> = Vec::new();
        let mut i: usize = 0;
        proof {
            assert(before.selected.take(0) =~= Seq::empty());
            reveal(Seq::filter);
        }
        while i < self.selected.0.len()
            invariant
                i <= self.selected.0.len(),
                self@ == before,
                test == alive(before.canvas.drawables),
                kept@ == before.selected.take(i as int).filter(test),
            decreases self.selected.0.len() - i,
        {
            proof {
                assert(before.selected.take(i + 1) =~= before.selected.take(i as int).push(
                    before.selected[i as int],
                ));
                lemma_filter_push(before.selected.take(i as int), before.selected[i as int], test);
            }
            let entity: u64 = self.selected.0[i];
            if self.canvas.contains(entity) {
                kept.push(entity);
            }
            i += 1;
        }
        proof {
            assert(before.selected.take(i as int) =~= before.selected);
            assert forall|k: int| 0 <= k < kept@.len() implies has_id(
                before.canvas.drawables,
                #[trigger] kept@[k],
            ) by {
                lemma_filter_from(before.selected, test, k);
            }
        }
        self.selected = Selected(kept);
        if let Some(entity) = self.hovered_mesh.0 {
            if !self.canvas.contains(entity) {
                self.hovered_mesh = HoveredMesh(None);
            }
        }
    }

    /// Text input on a press of the left button.
    fn text_input(&mut self, double: bool)
        requires
            old(self)@.canvas.wf(),
        ensures
            final(self)@ == old(self)@.text_input(double),
            final(self)@.canvas.wf(),
    {
        if !matches!(self.states.tool(), ToolButton::Cursor) {
            return ;
        }
        if self.window.ime_enabled {
            exit_text_input(&mut self.window);
            self.canvas.clear_with(Filter::With(Tag::TextCursor));
        }
        if double && self.window.cursor_position.is_some() {
            enter_text_input(&mut self.window);
            self.canvas.spawn_text_cursor(self.world_touch_cursor.0);
        }
    }

    /// What entering a pointer state does.
    fn entered(&mut self, from: CursorState)
        requires
            old(self)@.canvas.wf(),
        ensures
            final(self)@ == old(self)@.entered(from),
            final(self)@.canvas.wf(),
    {
        if !matches!(from, CursorState::Hovering) {
            return ;
        }
        match self.states.cursor_state() {
            CursorState::Drawing => {
                if matches!(self.states.tool(), ToolButton::Pen) {
                    if let Some(touch_cursor) = self.cursor.touch_cursor() {
                        self.canvas.begin_stroke(touch_cursor.size, touch_cursor.color);
                    }
                }
            },
            CursorState::PanningCamera => {
                set_camera_begin_transform(&self.camera, &mut self.camera_transform_org);
                set_state_change_position_begin(
                    self.window.cursor_position,
                    &mut self.state_change_position_begin,
                );
            },
            CursorState::Hovering => {},
        }
    }

    /// What leaving a pointer state does.
    fn left(&mut self, from: CursorState)
        requires
            old(self)@.canvas.wf(),
        ensures
            final(self)@ == old(self)@.left(from),
            final(self)@.canvas.wf(),
    {
        if matches!(from, CursorState::Drawing) && matches!(
            self.states.cursor_state(),
            CursorState::Hovering
        ) && matches!(self.states.tool(), ToolButton::Pen) {
            self.canvas.end_focus();
        }
    }

    /// Notes a press of the left button and tells whether it completes a
    /// double click.
    fn press_noted(&mut self, time: u64) -> (double: bool)
        ensures
            final(self)@ == old(self)@.press_noted(time),
            double == is_double_click(old(self)@.clock, time),
    {
        let double: bool = self.clock.on_press(time);
        self.held.left = true;
        double
    }

    /// Notes a release of the left button.
    fn release_noted(&mut self)
        ensures
            final(self)@ == old(self)@.release_noted(),
    {
        self.held.left = false;
    }

    /// Feeds `event` to the mode state machine.
    fn stepped(&mut self, event: &InputEvent) -> (t: Option<Transition>)
        ensures
            final(self)@ == old(self)@.stepped(*event),
            t == old(self)@.modes.transition_to(final(self)@.modes),
    {
        self.states.handle_input(event)
    }

    /// The selection's part of a press.
    fn press_selects(&mut self)
        ensures
            final(self)@ == old(self)@.press_selects(),
    {
        if matches!(self.states.tool(), ToolButton::Cursor) {
            let node_query: Vec<Node> = nodes(&self.canvas);
            selected(&node_query, &self.world_touch_cursor, &mut self.selected);
        }
    }

    /// The selection's part of a release.
    fn release_selects(&mut self)
        ensures
            final(self)@ == old(self)@.release_selects(),
    {
        if matches!(self.states.tool(), ToolButton::Cursor) {
            let node_query: Vec<Node> = nodes(&self.canvas);
            cancel_selected_with_cursor(&mut self.selected, &node_query, &self.world_touch_cursor);
        }
    }

    /// The left button goes down.
    fn left_pressed(&mut self, event: &InputEvent, time: u64) -> (t: Option<Transition>)
        requires
            old(self)@.canvas.wf(),
        ensures
            final(self)@ == old(self)@.left_pressed(*event, time),
            final(self)@.canvas.wf(),
            t == old(self)@.modes.transition_to(final(self)@.modes),
    {
        let double: bool = self.press_noted(time);
        self.text_input(double);
        let from: CursorState = self.states.cursor_state();
        let t: Option<Transition> = self.stepped(event);
        self.entered(from);
        self.press_selects();
        t
    }

    /// The left button goes up.
    fn left_released(&mut self, event: &InputEvent) -> (t: Option<Transition>)
        requires
            old(self)@.canvas.wf(),
        ensures
            final(self)@ == old(self)@.left_released(*event),
            final(self)@.canvas.wf(),
            t == old(self)@.modes.transition_to(final(self)@.modes),
    {
        let from: CursorState = self.states.cursor_state();
        self.release_noted();
        let t: Option<Transition> = self.stepped(event);
        self.left(from);
        self.release_selects();
        t
    }

    /// A key goes down or up.
    fn key_changed(&mut self, event: &InputEvent, key: Key, down: bool) -> (t: Option<Transition>)
        requires
            old(self)@.canvas.wf(),
            *event == (InputEvent::Keyboard {
                key,
                state: if down {
                    ButtonState::Pressed
                } else {
                    ButtonState::Released
                },
            }),
        ensures
            final(self)@ == old(self)@.key_changed(*event, key, down),
            final(self)@.canvas.wf(),
            t == old(self)@.modes.transition_to(final(self)@.modes),
    {
        match key {
            Key::RunMode | Key::Pan => self.states.handle_input(event),
            Key::Modifier => {
                self.held.modifier = down;
                None
            },
            Key::Shrink => {
                self.held.shrink = down;
                None
            },
            Key::Grow => {
                self.held.grow = down;
                None
            },
            Key::Tool1 | Key::Tool2 | Key::Tool3 => {
                if down && self.states.is_normal() {
                    match focused_tool_by_key_code(key) {
                        Some(button) => {
                            self.cursor = button.cursor;
                            self.states.select_tool(button.tool)
                        },
                        None => None,
                    }
                } else {
                    None
                }
            },
            Key::Undo => {
                if down && self.held.modifier {
                    self.canvas.remove_last_with(Filter::With(Tag::Path));
                }
                None
            },
            Key::Clear => {
                if down {
                    self.canvas.clear_with(Filter::With(Tag::Path));
                }
                None
            },
            Key::Toggle => {
                toggle_component(&mut self.is_bundle_0);
                None
            },
        }
    }

    /// Feeds one event of the platform to the session. The result names the
    /// change of mode that the event brought, if it brought one.
    pub fn handle_input(&mut self, event: &InputEvent) -> (t: Option<Transition>)
        requires
            old(self).wf(),
        ensures
            final(self).wf(),
            final(self)@ == old(self)@.handle(*event),
            t == old(self)@.modes.transition_to(final(self)@.modes),
    {
        let t: Option<Transition> = match event {
            InputEvent::Button(button) => {
                if button.left_pressed() {
                    self.left_pressed(event, button.time)
                } else if button.left_released() {
                    self.left_released(event)
                } else {
                    None
                }
            },
            InputEvent::CursorMoved { window, world } => {
                self.window.cursor_position = Some(*window);
                if update_world_torch_cursor(&mut self.world_touch_cursor, *world) {
                    self.moved = true;
                }
                None
            },
            InputEvent::CursorLeft => {
                self.window.cursor_position = None;
                None
            },
            InputEvent::Wheel { y } => {
                self.wheel.push(*y);
                None
            },
            InputEvent::Keyboard { key, state } => {
                let down: bool = matches!(state, ButtonState::Pressed);
                self.key_changed(event, *key, down)
            },
        };
        self.forget_missing();
        t
    }

    /// The tool bar selects `tool`, as a press on its button does. Tools are
    /// selected while editing only. The result names the change of tool, if
    /// there was one.
    pub fn select_tool(&mut self, tool: ToolButton) -> (t: Option<Transition>)
        requires
            old(self).wf(),
        ensures
            final(self).wf(),
            final(self)@ == (SessionView {
                modes: old(self)@.modes.select_tool(tool),
                ..old(self)@
            }),
            t == old(self)@.modes.transition_to(final(self)@.modes),
    {
        self.states.select_tool(tool)
    }

    /// Records the box that the renderer measured round the drawable `id`.
    /// The result tells whether the canvas holds that drawable.
    pub fn set_aabb(&mut self, id: u64, aabb: Option<Aabb>) -> (found: bool)
        requires
            old(self).wf(),
        ensures
            final(self).wf(),
            final(self)@ == (SessionView {
                canvas: old(self)@.canvas.set_aabb(id, aabb),
                ..old(self)@
            }).forget_missing(),
            found == has_id(old(self)@.canvas.drawables, id),
    {
        let found: bool = self.canvas.set_aabb(id, aabb);
        self.forget_missing();
        found
    }

    /// The size keys' part of a tick.
    fn resized(&mut self)
        ensures
            final(self)@ == old(self)@.resized(),
    {
        update_touch_cursor_size(&mut self.cursor, self.held.shrink, self.held.grow);
    }

    /// The camera's part of a tick.
    fn camera_moved(&mut self)
        ensures
            final(self)@ == old(self)@.camera_moved(),
    {
        if self.states.is_normal() {
            match self.states.cursor_state() {
                CursorState::PanningCamera => {
                    update_camera(
                        self.window.cursor_position,
                        &mut self.camera,
                        &self.camera_transform_org,
                        &self.state_change_position_begin,
                    );
                },
                CursorState::Hovering => {
                    control_proj(&mut self.camera, &self.wheel, self.held.modifier);
                },
                CursorState::Drawing => {},
            }
        }
    }

    /// The pen's and the eraser's part of a tick.
    fn tools_applied(&mut self) -> (redraw: bool)
        requires
            old(self)@.canvas.wf(),
        ensures
            final(self)@ == old(self)@.tools_applied(),
            final(self)@.canvas.wf(),
            redraw == old(self)@.redraws(),
    {
        if self.states.is_normal() && matches!(self.states.tool(), ToolButton::Pen) && matches!(
            self.states.cursor_state(),
            CursorState::Drawing
        ) && self.moved {
            self.canvas.extend_focused(self.world_touch_cursor.0)
        } else if matches!(self.states.tool(), ToolButton::Eraser) && matches!(
            self.states.cursor_state(),
            CursorState::Drawing
        ) && self.moved {
            if let Some(touch_cursor) = self.cursor.touch_cursor() {
                self.canvas.erase_near(self.world_touch_cursor.0, touch_cursor.size);
            }
            false
        } else {
            false
        }
    }

    /// The focus tracker's part of a tick.
    fn focus_followed(&mut self)
        requires
            old(self).wf(),
        ensures
            final(self)@ == old(self)@.focus_followed(),
            final(self).wf(),
    {
        if matches!(self.states.tool(), ToolButton::Cursor) && !self.held.left && self.moved {
            let node_query: Vec<Node> = nodes(&self.canvas);
            mesh_focus_system(
                &node_query,
                &self.world_touch_cursor,
                &self.selected,
                &mut self.hovered_mesh,
            );
            proof {
                lemma_found_is_alive(self@.canvas, self@.world);
            }
        }
    }

    /// The end of a tick.
    fn settled(&mut self, hover: bool)
        ensures
            final(self)@ == old(self)@.settled(hover),
    {
        self.window.cursor_visible = window_cursor_shows(hover, &self.cursor, self.states.run_mode());
        self.moved = false;
        self.wheel.clear();
        assert(self.wheel@ =~= Seq::empty());
    }

    /// Lets the parts of the tool run once, as at the end of a tick. `hover`
    /// tells whether the pointer is over the tool bar. The result tells
    /// whether the stroke in focus has grown, so that its path must be built
    /// anew.
    pub fn update(&mut self, hover: bool) -> (redraw: bool)
        requires
            old(self).wf(),
        ensures
            final(self).wf(),
            final(self)@ == old(self)@.update(hover),
            redraw == old(self)@.resized().camera_moved().redraws(),
    {
        self.resized();
        self.camera_moved();
        let redraw: bool = self.tools_applied();
        self.forget_missing();
        self.focus_followed();
        self.settled(hover);
        redraw
    }

    /// Runs one tick: feeds the events to the session in their order, and
    /// then lets the parts of the tool run once. `tool_button_bar` tells what
    /// the pointer does to the tool bar. The result tells whether the stroke
    /// in focus has grown.
    pub fn tick(&mut self, events: &Vec<InputEvent>, tool_button_bar: Option<Interaction>) -> (redraw:
        bool)
        requires
            old(self).wf(),
        ensures
            final(self).wf(),
            final(self)@ == old(self)@.tick(
                events@,
                tool_button_bar == Some(Interaction::Pressed) || tool_button_bar == Some(
                    Interaction::Hovered,
                ),
            ),
            redraw == old(self)@.handle_all(events@).resized().camera_moved().redraws(),
    {
        let mut i: usize = 0;
        while i < events.len()
            invariant
                i <= events.len(),
                self.wf(),
                self@ == old(self)@.handle_all(events@.take(i as int)),
            decreases events.len() - i,
        {
            assert(events@.take(i + 1).drop_last() =~= events@.take(i as int));
            self.handle_input(&events[i]);
            i += 1;
        }
        assert(events@.take(i as int) =~= events@);
        self.update(is_hover_tool_button_bar(tool_button_bar))
    }
}

/// Nothing stays selected or hovered over that has left the canvas: after
/// `forget_missing` every selected and hovered drawable is on the canvas.
/// Where that held before, `forget_missing` changes nothing.
pub proof fn lemma_forget_missing(s: SessionView)
    ensures
        forall|i: int|
            0 <= i < s.forget_missing().selected.len() ==> has_id(
                s.canvas.drawables,
                #[trigger] s.forget_missing().selected[i],
            ),
        s.forget_missing().hovered is Some ==> has_id(
            s.canvas.drawables,
            s.forget_missing().hovered->0,
        ),
        s.canvas.wf() ==> s.forget_missing().wf(),
        s.wf() ==> s.forget_missing() == s,
{
    let test = alive(s.canvas.drawables);
    assert forall|i: int| 0 <= i < s.forget_missing().selected.len() implies has_id(
        s.canvas.drawables,
        #[trigger] s.forget_missing().selected[i],
    ) by {
        lemma_filter_from(s.selected, test, i);
    }
    if s.wf() {
        assert forall|i: int| 0 <= i < s.selected.len() implies test(#[trigger] s.selected[i]) by {}
        lemma_filter_all(s.selected, test);
    }
}

/// What a hit test on the canvas finds is on the canvas.
pub proof fn lemma_found_is_alive(canvas: CanvasView, point: Point)
    ensures
        match find_at(nodes_of(canvas.drawables), point) {
            Some(hit) => has_id(canvas.drawables, hit.entity),
            None => true,
        },
{
    let found = nodes_of(canvas.drawables);
    lemma_top_index(found, point);
    let i = top_index(found, point);
    if i >= 0 {
        let kept = canvas.drawables.filter(can_be_hit());
        lemma_filter_from(canvas.drawables, can_be_hit(), i);
        let j = choose|j: int| 0 <= j < canvas.drawables.len() && #[trigger] canvas.drawables[j] == kept[i];
        assert(canvas.drawables[j].id == found[i].hit().entity);
    }
}

/// An event leaves a session a session: whatever the platform reports, at
/// most one stroke is in focus afterwards, every stroke is spaced, and
/// nothing is selected or hovered over that is not on the canvas.
pub proof fn lemma_handle_keeps_wf(s: SessionView, event: InputEvent)
    requires
        s.wf(),
    ensures
        s.handle(event).wf(),
{
    let before = match event {
        InputEvent::Button(button) => if button.is_left_press() {
            s.left_pressed(event, button.time)
        } else if button.is_left_release() {
            s.left_released(event)
        } else {
            s
        },
        InputEvent::CursorMoved { window, world } => s.cursor_moved(window, world),
        InputEvent::CursorLeft => s.cursor_left(),
        InputEvent::Wheel { y } => s.wheel_turned(y),
        InputEvent::Keyboard { key, state } => s.key_changed(
            event,
            key,
            state == ButtonState::Pressed,
        ),
    };
    assert(before.canvas.wf()) by {
        lemma_canvas_stays_wf(s.canvas);
        match event {
            InputEvent::Button(button) => {
                if button.is_left_press() {
                    let noted = s.press_noted(button.time);
                    let typed = noted.text_input(is_double_click(s.clock, button.time));
                    lemma_canvas_stays_wf(noted.canvas.clear_with(Filter::With(Tag::TextCursor)));
                    assert(typed.canvas.wf());
                    lemma_canvas_stays_wf(typed.canvas);
                }
            },
            _ => {},
        }
    }
    lemma_forget_missing(before);
}

/// A run of the parts of the tool leaves a session a session.
pub proof fn lemma_update_keeps_wf(s: SessionView, hover: bool)
    requires
        s.wf(),
    ensures
        s.update(hover).wf(),
{
    let moved = s.resized().camera_moved();
    lemma_canvas_stays_wf(moved.canvas);
    let applied = moved.tools_applied();
    lemma_forget_missing(applied);
    let kept = applied.forget_missing();
    lemma_found_is_alive(kept.canvas, kept.world);
}

/// A tick leaves a session a session, whatever events it brings.
pub proof fn lemma_tick_keeps_wf(s: SessionView, events: Seq<InputEvent>, hover: bool)
    requires
        s.wf(),
    ensures
        s.handle_all(events).wf(),
        s.tick(events, hover).wf(),
    decreases events.len(),
{
    if events.len() > 0 {
        lemma_tick_keeps_wf(s, events.drop_last(), hover);
        lemma_handle_keeps_wf(s.handle_all(events.drop_last()), events.last());
    }
    lemma_update_keeps_wf(s.handle_all(events), hover);
}

} // verus!
