//! The double-click detector: a timing window over presses of the left
//! button.

use vstd::prelude::*;
use crate::input::MouseButtonInput;

verus! {

/// Two presses count as a double click when less than this many milliseconds
/// lie between them.
pub const DOUBLE_DELAY: u64 = 200;

/// Reports that a window was double-clicked.
#[derive(Clone, Copy, Debug, PartialEq, Eq, Structural)]
pub struct DoubleClickEvent {
    pub window: u64,
}

/// A press at `timestamp` completes a double click: an earlier press is
/// remembered and less than `DOUBLE_DELAY` lies between the two. A press
/// stamped earlier than the remembered one counts as following it at once.
pub open spec fn is_double_click(last: Option<u64>, timestamp: u64) -> bool {
    last matches Some(previous) && timestamp - previous < DOUBLE_DELAY
}

/// What is remembered after a press at `timestamp`: nothing once a double
/// click is complete, the press itself otherwise.
pub open spec fn after_press(last: Option<u64>, timestamp: u64) -> Option<u64> {
    if is_double_click(last, timestamp) {
        None
    } else {
        Some(timestamp)
    }
}

/// What is remembered after the events of `events`, of which only presses of
/// the left button count.
pub open spec fn after_events(last: Option<u64>, events: Seq<MouseButtonInput>) -> Option<u64>
    decreases events.len(),
{
    if events.len() == 0 {
        last
    } else {
        let before = after_events(last, events.drop_last());
        if events.last().is_left_press() {
            after_press(before, events.last().time)
        } else {
            before
        }
    }
}

/// The double clicks that `events` complete, in their order.
pub open spec fn double_clicks(last: Option<u64>, events: Seq<MouseButtonInput>) -> Seq<
    DoubleClickEvent,
>
    decreases events.len(),
{
    if events.len() == 0 {
        Seq::empty()
    } else {
        let before = after_events(last, events.drop_last());
        let found = double_clicks(last, events.drop_last());
        if events.last().is_left_press() && is_double_click(before, events.last().time) {
            found.push(DoubleClickEvent { window: events.last().window })
        } else {
            found
        }
    }
}

/// Remembers the last press that no double click has used up.
#[derive(Clone, Copy, Debug, PartialEq, Eq)]
pub struct GestureClock {
    last_press: Option<u64>,
}

impl View for GestureClock {
    type V = Option<u64>;

    closed spec fn view(&self) -> Option<u64> {
        self.last_press
    }
}

impl GestureClock {
    /// A clock that remembers no press.
    pub fn new() -> (c: GestureClock)
        ensures
            c@ is None,
    {
        GestureClock { last_press: None }
    }

    /// The remembered press.
    pub fn last_press(&self) -> (t: Option<u64>)
        ensures
            t == self@,
    {
        self.last_press
    }

    /// Takes a press of the left button at `timestamp` and tells whether it
    /// completes a double click. A completed double click empties the clock,
    /// so that the next press opens a new window.
    pub fn on_press(&mut self, timestamp: u64) -> (double: bool)
        ensures
            double == is_double_click(old(self)@, timestamp),
            final(self)@ == after_press(old(self)@, timestamp),
    {
        let double: bool = match self.last_press {
            Some(previous) => timestamp < previous || timestamp - previous < DOUBLE_DELAY,
            None => false,
        };
        if double {
            self.last_press = None;
        } else {
            self.last_press = Some(timestamp);
        }
        double
    }
}

/// Runs the button events of one tick through the clock and appends a
/// `DoubleClickEvent` to `writer` for each double click that they complete.
pub fn system(
    events: &Vec<MouseButtonInput>,
    clock: &mut GestureClock,
    writer: &mut Vec<DoubleClickEvent>,
)
    ensures
        final(clock)@ == after_events(old(clock)@, events@),
        final(writer)@ == old(writer)@ + double_clicks(old(clock)@, events@),
{
    let ghost start = clock@;
    let ghost written = writer@;
    let mut i: usize = 0;
    while i < events.len()
        invariant
            i <= events.len(),
            clock@ == after_events(start, events@.take(i as int)),
            writer@ == written + double_clicks(start, events@.take(i as int)),
        decreases events.len() - i,
    {
        let event: &MouseButtonInput = &events[i];
        assert(events@.take(i + 1).drop_last() == events@.take(i as int));
        if event.left_pressed() {
            if clock.on_press(event.time) {
                writer.push(DoubleClickEvent { window: event.window });
            }
        }
        i += 1;
    }
    assert(events@.take(i as int) == events@);
}

/// Tells whether a double click is waiting in `events`, and uses all of them
/// up.
pub fn on_double_click(events: &mut Vec<DoubleClickEvent>) -> (any: bool)
    ensures
        any == (old(events)@.len() > 0),
        final(events)@.len() == 0,
{
    if events.is_empty() {
        false
    } else {
        events.clear();
        true
    }
}

/// The press after a double click never completes another one: it opens a
/// new window.
pub proof fn lemma_double_click_empties_clock(last: Option<u64>, second: u64, third: u64)
    requires
        is_double_click(last, second),
    ensures
        !is_double_click(after_press(last, second), third),
        after_press(after_press(last, second), third) == Some(third),
{
}

/// Of two presses in a row on an empty clock, the second completes a double
/// click exactly if it comes less than `DOUBLE_DELAY` after the first.
pub proof fn lemma_two_presses(first: u64, second: u64)
    ensures
        !is_double_click(None, first),
        is_double_click(after_press(None, first), second) <==> second - first < DOUBLE_DELAY,
{
}

} // verus!
