//! The mode state machine: what a pointer gesture means, whether the tool is
//! being used or inspected, and which tool is active.

use vstd::prelude::*;
use crate::input::{ButtonState, InputEvent, Key};

verus! {

/// How a pointer gesture is read at the moment.
#[derive(Clone, Copy, Debug, PartialEq, Eq, Hash, Structural)]
pub enum CursorState {
    /// No button is down: the pointer only points.
    Hovering,
    /// The left button is down and the active tool acts on the canvas.
    Drawing,
    /// The left button is down and the pointer drags the camera.
    PanningCamera,
}

/// Whether the surface is edited or inspected.
#[derive(Clone, Copy, Debug, PartialEq, Eq, Hash, Structural)]
pub enum RunMode {
    Normal,
    Debug,
}

/// The tools of the tool bar, and the camera tool that the pan key lends.
#[derive(Clone, Copy, Debug, PartialEq, Eq, Hash, Structural)]
pub enum ToolButton {
    Pen,
    Eraser,
    Cursor,
    MoveCamera,
}

impl Default for CursorState {
    fn default() -> (s: CursorState)
        ensures
            s == CursorState::Hovering,
    {
        CursorState::Hovering
    }
}

impl Default for RunMode {
    fn default() -> (m: RunMode)
        ensures
            m == RunMode::Normal,
    {
        RunMode::Normal
    }
}

impl Default for ToolButton {
    fn default() -> (t: ToolButton)
        ensures
            t == ToolButton::Pen,
    {
        ToolButton::Pen
    }
}

/// A change of one of the three axes of the machine.
#[allow(inconsistent_fields)]
#[derive(Clone, Copy, Debug, PartialEq, Eq, Structural)]
pub enum Transition {
    Cursor { from: CursorState, to: CursorState },
    Run { from: RunMode, to: RunMode },
    Tool { from: ToolButton, to: ToolButton },
}

/// The state of the machine as a mathematical value.
pub struct Modes {
    pub cursor: CursorState,
    pub run: RunMode,
    pub tool: ToolButton,
    /// The tools set aside by the pan key, the newest last.
    pub stack: Seq<ToolButton>,
    /// Whether the pan key is down.
    pub pan_held: bool,
}

impl Modes {
    /// The state in which every machine starts.
    pub open spec fn initial() -> Modes {
        Modes {
            cursor: CursorState::Hovering,
            run: RunMode::Normal,
            tool: ToolButton::Pen,
            stack: Seq::empty(),
            pan_held: false,
        }
    }

    /// The left button goes down. While editing, a hovering pointer starts to
    /// drag the camera if the pan key is down, and to draw if it is not.
    pub open spec fn press_left(self) -> Modes {
        if self.run == RunMode::Normal && self.cursor == CursorState::Hovering {
            Modes {
                cursor: if self.pan_held {
                    CursorState::PanningCamera
                } else {
                    CursorState::Drawing
                },
                ..self
            }
        } else {
            self
        }
    }

    /// The left button goes up. While editing, the pointer hovers again.
    pub open spec fn release_left(self) -> Modes {
        if self.run == RunMode::Normal {
            Modes { cursor: CursorState::Hovering, ..self }
        } else {
            self
        }
    }

    /// The run-mode key selects `run`.
    pub open spec fn set_run(self, run: RunMode) -> Modes {
        Modes { run, ..self }
    }

    /// Sets the active tool aside and makes `tool` the active one, unless it
    /// is active already.
    pub open spec fn push_tool(self, tool: ToolButton) -> Modes {
        if self.tool != tool {
            Modes { tool, stack: self.stack.push(self.tool), ..self }
        } else {
            self
        }
    }

    /// Brings back the tool that was set aside last, if `tool` is active and
    /// one was set aside.
    pub open spec fn pop_tool(self, tool: ToolButton) -> Modes {
        if self.tool == tool && self.stack.len() > 0 {
            Modes { tool: self.stack.last(), stack: self.stack.drop_last(), ..self }
        } else {
            self
        }
    }

    /// The pan key goes down and lends the camera tool.
    pub open spec fn press_pan(self) -> Modes {
        (Modes { pan_held: true, ..self }).push_tool(ToolButton::MoveCamera)
    }

    /// The pan key goes up and takes the camera tool back.
    pub open spec fn release_pan(self) -> Modes {
        (Modes { pan_held: false, ..self }).pop_tool(ToolButton::MoveCamera)
    }

    /// The tool bar selects `tool`. Tools are selected while editing only.
    pub open spec fn select_tool(self, tool: ToolButton) -> Modes {
        if self.run == RunMode::Normal {
            Modes { tool, ..self }
        } else {
            self
        }
    }

    /// The state after `event`. Events other than the left button, the
    /// run-mode key and the pan key leave the machine as it is.
    pub open spec fn step(self, event: InputEvent) -> Modes {
        if event.is_left_press() {
            self.press_left()
        } else if event.is_left_release() {
            self.release_left()
        } else if event.is_key_press(Key::RunMode) {
            self.set_run(RunMode::Debug)
        } else if event.is_key_release(Key::RunMode) {
            self.set_run(RunMode::Normal)
        } else if event.is_key_press(Key::Pan) {
            self.press_pan()
        } else if event.is_key_release(Key::Pan) {
            self.release_pan()
        } else {
            self
        }
    }

    /// The change from `self` to `next`, where an axis differs. The pointer's
    /// axis is named before the run mode, the run mode before the tool.
    pub open spec fn transition_to(self, next: Modes) -> Option<Transition> {
        if self.cursor != next.cursor {
            Some(Transition::Cursor { from: self.cursor, to: next.cursor })
        } else if self.run != next.run {
            Some(Transition::Run { from: self.run, to: next.run })
        } else if self.tool != next.tool {
            Some(Transition::Tool { from: self.tool, to: next.tool })
        } else {
            None
        }
    }
}

/// The machine itself.
#[derive(Clone, Debug, PartialEq, Eq)]
pub struct ModeMachine {
    cursor_state: CursorState,
    run_mode: RunMode,
    tool: ToolButton,
    stack: Vec<ToolButton>,
    pan_held: bool,
}

impl View for ModeMachine {
    type V = Modes;

    closed spec fn view(&self) -> Modes {
        Modes {
            cursor: self.cursor_state,
            run: self.run_mode,
            tool: self.tool,
            stack: self.stack@,
            pan_held: self.pan_held,
        }
    }
}

/// Whether two tools are the same one.
fn same_tool(a: ToolButton, b: ToolButton) -> (r: bool)
    ensures
        r == (a == b),
{
    a == b
}

impl ModeMachine {
    /// A machine that hovers, edits and holds the pen.
    pub fn new() -> (m: ModeMachine)
        ensures
            m@ == Modes::initial(),
    {
        ModeMachine {
            cursor_state: CursorState::Hovering,
            run_mode: RunMode::Normal,
            tool: ToolButton::Pen,
            stack: Vec::new(),
            pan_held: false,
        }
    }

    pub fn cursor_state(&self) -> (s: CursorState)
        ensures
            s == self@.cursor,
    {
        self.cursor_state
    }

    pub fn run_mode(&self) -> (m: RunMode)
        ensures
            m == self@.run,
    {
        self.run_mode
    }

    pub fn tool(&self) -> (t: ToolButton)
        ensures
            t == self@.tool,
    {
        self.tool
    }

    /// Whether the pan key is down.
    pub fn pan_held(&self) -> (b: bool)
        ensures
            b == self@.pan_held,
    {
        self.pan_held
    }

    /// How many tools the pan key has set aside.
    pub fn stack_depth(&self) -> (n: usize)
        ensures
            n == self@.stack.len(),
    {
        self.stack.len()
    }

    /// Whether the surface is being edited.
    pub fn is_normal(&self) -> (b: bool)
        ensures
            b == (self@.run == RunMode::Normal),
    {
        matches!(self.run_mode, RunMode::Normal)
    }

    /// Sets the active tool aside and makes `tool` the active one, unless it
    /// is active already.
    pub fn push_tool(&mut self, tool: ToolButton)
        ensures
            final(self)@ == old(self)@.push_tool(tool),
    {
        if !same_tool(self.tool, tool) {
            self.stack.push(self.tool);
            self.tool = tool;
        }
    }

    /// Brings back the tool that was set aside last, if `tool` is active and
    /// one was set aside.
    pub fn pop_tool(&mut self, tool: ToolButton)
        ensures
            final(self)@ == old(self)@.pop_tool(tool),
    {
        if same_tool(self.tool, tool) {
            if let Some(previous) = self.stack.pop() {
                self.tool = previous;
            }
        }
    }

    /// The tool bar selects `tool`; the result names the change, if there
    /// was one.
    pub fn select_tool(&mut self, tool: ToolButton) -> (t: Option<Transition>)
        ensures
            final(self)@ == old(self)@.select_tool(tool),
            t == old(self)@.transition_to(final(self)@),
    {
        let from: ToolButton = self.tool;
        if self.is_normal() && !same_tool(from, tool) {
            self.tool = tool;
            Some(Transition::Tool { from, to: tool })
        } else {
            None
        }
    }

    /// Feeds one event to the machine; the result names the change, if there
    /// was one.
    pub fn handle_input(&mut self, event: &InputEvent) -> (t: Option<Transition>)
        ensures
            final(self)@ == old(self)@.step(*event),
            t == old(self)@.transition_to(final(self)@),
    {
        match event {
            InputEvent::Button(button) => {
                if button.left_pressed() {
                    if self.is_normal() && matches!(self.cursor_state, CursorState::Hovering) {
                        let to: CursorState = if self.pan_held {
                            CursorState::PanningCamera
                        } else {
                            CursorState::Drawing
                        };
                        self.cursor_state = to;
                        Some(Transition::Cursor { from: CursorState::Hovering, to })
                    } else {
                        None
                    }
                } else if button.left_released() {
                    let from: CursorState = self.cursor_state;
                    if self.is_normal() && !matches!(from, CursorState::Hovering) {
                        self.cursor_state = CursorState::Hovering;
                        Some(Transition::Cursor { from, to: CursorState::Hovering })
                    } else {
                        None
                    }
                } else {
                    None
                }
            },
            InputEvent::Keyboard { key: Key::RunMode, state } => {
                let from: RunMode = self.run_mode;
                let to: RunMode = match state {
                    ButtonState::Pressed => RunMode::Debug,
                    ButtonState::Released => RunMode::Normal,
                };
                self.run_mode = to;
                match (from, to) {
                    (RunMode::Normal, RunMode::Normal) | (RunMode::Debug, RunMode::Debug) => None,
                    _ => Some(Transition::Run { from, to }),
                }
            },
            InputEvent::Keyboard { key: Key::Pan, state } => {
                let from: ToolButton = self.tool;
                match state {
                    ButtonState::Pressed => {
                        self.pan_held = true;
                        self.push_tool(ToolButton::MoveCamera);
                    },
                    ButtonState::Released => {
                        self.pan_held = false;
                        self.pop_tool(ToolButton::MoveCamera);
                    },
                }
                let to: ToolButton = self.tool;
                if same_tool(from, to) {
                    None
                } else {
                    Some(Transition::Tool { from, to })
                }
            },
            _ => None,
        }
    }
}

/// The state after the pan key went down `n` times in a row.
pub open spec fn pan_pressed(m: Modes, n: nat) -> Modes
    decreases n,
{
    if n == 0 {
        m
    } else {
        pan_pressed(m, (n - 1) as nat).press_pan()
    }
}

/// From hovering, a press of the left button with the pan key down never
/// starts to draw: while editing it starts to drag the camera, and while
/// inspecting it changes nothing.
pub proof fn lemma_pan_press_never_draws(m: Modes, event: InputEvent)
    requires
        m.cursor == CursorState::Hovering,
        m.pan_held,
        event.is_left_press(),
    ensures
        m.step(event).cursor != CursorState::Drawing,
        m.run == RunMode::Normal ==> m.step(event).cursor == CursorState::PanningCamera,
        m.run == RunMode::Debug ==> m.step(event) == m,
{
}

/// From hovering while editing, a press of the left button without the pan
/// key starts to draw.
pub proof fn lemma_plain_press_draws(m: Modes, event: InputEvent)
    requires
        m.cursor == CursorState::Hovering,
        m.run == RunMode::Normal,
        !m.pan_held,
        event.is_left_press(),
    ensures
        m.step(event).cursor == CursorState::Drawing,
{
}

/// A release of the left button ends a drag or a stroke exactly while
/// editing: while inspecting, the pointer's state stays.
pub proof fn lemma_release_returns_while_editing(m: Modes, event: InputEvent)
    requires
        m.cursor != CursorState::Hovering,
        event.is_left_release(),
    ensures
        m.step(event).cursor == CursorState::Hovering <==> m.run == RunMode::Normal,
        m.run == RunMode::Debug ==> m.step(event) == m,
{
}

/// While inspecting, no event changes the pointer's state.
pub proof fn lemma_debug_freezes_pointer(m: Modes, event: InputEvent)
    requires
        m.run == RunMode::Debug,
    ensures
        m.step(event).cursor == m.cursor,
{
}

/// An event changes one axis of the machine at most, so that the transition
/// that `handle_input` reports names every change.
pub proof fn lemma_one_axis_changes(m: Modes, event: InputEvent)
    ensures
        match m.transition_to(m.step(event)) {
            Some(Transition::Cursor { from, to }) => m.step(event).run == m.run && m.step(
                event,
            ).tool == m.tool,
            Some(Transition::Run { from, to }) => m.step(event).cursor == m.cursor && m.step(
                event,
            ).tool == m.tool,
            Some(Transition::Tool { from, to }) => m.step(event).cursor == m.cursor && m.step(
                event,
            ).run == m.run,
            None => m.step(event).cursor == m.cursor && m.step(event).run == m.run && m.step(
                event,
            ).tool == m.tool,
        },
{
}

/// Pressing the pan key again while it lends the camera tool changes
/// nothing, so that the stack grows by one tool at most however often the
/// key repeats.
pub proof fn lemma_pan_press_repeats(m: Modes, n: nat)
    requires
        n >= 1,
    ensures
        pan_pressed(m, n) == m.press_pan(),
        pan_pressed(m, n).stack.len() <= m.stack.len() + 1,
        m.stack.len() == 0 ==> pan_pressed(m, n).stack.len() <= 1,
    decreases n,
{
    if n > 1 {
        lemma_pan_press_repeats(m, (n - 1) as nat);
    } else {
        assert(pan_pressed(m, 0) == m);
    }
}

/// Releasing the pan key brings back the tool that was active before the key
/// went down, and the stack that was there before.
pub proof fn lemma_pan_release_restores(m: Modes, n: nat)
    requires
        n >= 1,
        m.tool != ToolButton::MoveCamera,
    ensures
        pan_pressed(m, n).release_pan().tool == m.tool,
        pan_pressed(m, n).release_pan().stack == m.stack,
{
    lemma_pan_press_repeats(m, n);
    assert(m.stack.push(m.tool).drop_last() =~= m.stack);
}

/// Taking a tool back with nothing set aside changes no tool and no stack.
pub proof fn lemma_pop_on_empty_stack(m: Modes, tool: ToolButton)
    requires
        m.stack.len() == 0,
    ensures
        m.pop_tool(tool) == m,
{
}

} // verus!
