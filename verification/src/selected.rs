//! The selection: what a press picks and what a release keeps.

use vstd::prelude::*;
use crate::focus::{find_at, find_entity_with_world_cursor, mark, marked, Hit, Node, Outline};
use crate::touch_cursor::{Color, WorldTouchCursor};

verus! {

/// The selected drawables, by name. A press selects one at most.
#[derive(Clone, Debug, PartialEq, Eq)]
pub struct Selected(pub Vec<u64>);

impl Default for Selected {
    fn default() -> (s: Selected)
        ensures
            s.0@.len() == 0,
    {
        Selected(Vec::new())
    }
}

/// The selection after a press that found `found`: the drawable found, or
/// nothing.
pub open spec fn selected_by_press(found: Option<Hit>) -> Seq<u64> {
    match found {
        Some(hit) => seq![hit.entity],
        None => Seq::empty(),
    }
}

/// The selection after a release that found `found`: as it was, if the
/// drawable found is selected, and empty otherwise.
pub open spec fn kept_by_release(selected: Seq<u64>, found: Option<Hit>) -> Seq<u64> {
    match found {
        Some(hit) => if selected.contains(hit.entity) {
            selected
        } else {
            Seq::empty()
        },
        None => Seq::empty(),
    }
}

/// Whether `entity` is among `list`.
pub fn contains_entity(list: &Vec<u64>, entity: u64) -> (b: bool)
    ensures
        b == list@.contains(entity),
{
    let mut i: usize = 0;
    while i < list.len()
        invariant
            i <= list.len(),
            forall|j: int| 0 <= j < i ==> list@[j] != entity,
        decreases list.len() - i,
    {
        if list[i] == entity {
            return true;
        }
        i += 1;
    }
    false
}

/// A press selects the drawable under the cursor, and nothing where none
/// lies there.
pub fn selected(
    node_query: &Vec<Node>,
    world_touch_cursor: &WorldTouchCursor,
    selected: &mut Selected,
)
    ensures
        final(selected).0@ == selected_by_press(find_at(node_query@, world_touch_cursor.0)),
{
    selected.0.clear();
    match find_entity_with_world_cursor(node_query, world_touch_cursor) {
        Some(hit) => {
            selected.0.push(hit.entity);
            assert(selected.0@ =~= seq![hit.entity]);
        },
        None => {},
    }
}

/// A release keeps the selection if the drawable under the cursor is the
/// selected one, and empties it otherwise: over empty canvas, or over
/// another drawable.
pub fn cancel_selected_with_cursor(
    selected: &mut Selected,
    node_query: &Vec<Node>,
    world_touch_cursor: &WorldTouchCursor,
)
    ensures
        final(selected).0@ == kept_by_release(
            old(selected).0@,
            find_at(node_query@, world_touch_cursor.0),
        ),
{
    match find_entity_with_world_cursor(node_query, world_touch_cursor) {
        Some(hit) => {
            if contains_entity(&selected.0, hit.entity) {
                return ;
            }
        },
        None => {},
    }
    selected.0.clear();
}

/// The colour that marks what is selected.
pub open spec fn selection_color() -> Color {
    Color { r: 255, g: 0, b: 0, a: 255 }
}

/// The first of the selected drawables.
pub open spec fn first_of(selected: Seq<u64>) -> Option<u64> {
    if selected.len() > 0 {
        Some(selected[0])
    } else {
        None
    }
}

/// The rectangle that marks the selected drawable, for the renderer to draw.
pub fn draw_selected(node_query: &Vec<Node>, selected: &Selected) -> (o: Option<Outline>)
    ensures
        o == marked(node_query@, first_of(selected.0@), selection_color()),
{
    let first: Option<u64> = if selected.0.len() > 0 {
        Some(selected.0[0])
    } else {
        None
    };
    mark(node_query, first, Color { r: 255, g: 0, b: 0, a: 255 })
}

} // verus!
