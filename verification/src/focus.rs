//! The hit tester and the focus tracker: which drawable lies under the
//! pointer.

use vstd::prelude::*;
use crate::draw::{views, Canvas, Drawable, DrawableView};
use crate::geometry::{clamp_i32, saturate, Aabb, Point};
use crate::layer::Layer;
use crate::selected::Selected;
use crate::sequences::lemma_filter_push;
use crate::touch_cursor::{Color, WorldTouchCursor};

verus! {

/// What the hit tester sees of a drawable: its name, its box and its layer.
#[derive(Clone, Copy, Debug, PartialEq, Eq, Structural)]
pub struct Node {
    pub entity: u64,
    pub aabb: Aabb,
    pub layer: Layer,
}

/// The drawable that a hit test found.
#[derive(Clone, Copy, Debug, PartialEq, Eq, Structural)]
pub struct Hit {
    pub entity: u64,
    pub layer: i8,
    pub aabb: Aabb,
}

/// The drawable that the pointer hovers over.
#[derive(Clone, Copy, Debug, PartialEq, Eq)]
pub struct HoveredMesh(pub Option<u64>);

impl Default for HoveredMesh {
    fn default() -> (h: HoveredMesh)
        ensures
            h.0 is None,
    {
        HoveredMesh(None)
    }
}

impl Node {
    /// The hit that finding this node makes.
    pub open spec fn hit(self) -> Hit {
        Hit { entity: self.entity, layer: self.layer.order(), aabb: self.aabb }
    }
}

/// The test that the drawables which can be hit pass: those with a box and
/// a layer.
pub open spec fn can_be_hit() -> spec_fn(DrawableView) -> bool {
    |d: DrawableView| d.aabb is Some && d.layer is Some
}

/// What the hit tester sees of `d`.
pub open spec fn node_of(d: DrawableView) -> Node {
    Node { entity: d.id, aabb: d.aabb->0, layer: d.layer->0 }
}

/// What the hit tester sees of the drawables `s`: those that can be hit, in
/// their order.
pub open spec fn nodes_of(s: Seq<DrawableView>) -> Seq<Node> {
    s.filter(can_be_hit()).map_values(|d: DrawableView| node_of(d))
}

/// The node at `i` is the one that a hit test at `point` finds: its box
/// holds the point, no box that holds the point lies on a higher layer, and
/// those after it that hold the point lie on a lower one.
pub open spec fn is_top(nodes: Seq<Node>, point: Point, i: int) -> bool {
    &&& 0 <= i < nodes.len()
    &&& nodes[i].aabb.holds(point)
    &&& forall|j: int|
        0 <= j < nodes.len() && (#[trigger] nodes[j]).aabb.holds(point) ==> nodes[j].layer.order()
            <= nodes[i].layer.order()
    &&& forall|j: int|
        i < j < nodes.len() && (#[trigger] nodes[j]).aabb.holds(point) ==> nodes[j].layer.order()
            < nodes[i].layer.order()
}

/// No box of `nodes` holds `point`.
pub open spec fn misses(nodes: Seq<Node>, point: Point) -> bool {
    forall|j: int| 0 <= j < nodes.len() ==> !(#[trigger] nodes[j]).aabb.holds(point)
}

/// The index of the node that a hit test at `point` finds, or `-1` where no
/// box holds the point. Of several boxes on the highest layer the last one
/// is found.
pub open spec fn top_index(nodes: Seq<Node>, point: Point) -> int
    decreases nodes.len(),
{
    if nodes.len() == 0 {
        -1
    } else {
        let before = top_index(nodes.drop_last(), point);
        if nodes.last().aabb.holds(point) && (before < 0 || nodes[before].layer.order()
            <= nodes.last().layer.order()) {
            nodes.len() - 1
        } else {
            before
        }
    }
}

/// What a hit test at `point` finds.
pub open spec fn find_at(nodes: Seq<Node>, point: Point) -> Option<Hit> {
    let i = top_index(nodes, point);
    if i < 0 {
        None
    } else {
        Some(nodes[i].hit())
    }
}

/// What the pointer hovers over, given what the hit test found and what is
/// selected: the drawable found, unless it is the selected one.
pub open spec fn hovered_of(found: Option<Hit>, selected: Seq<u64>) -> Option<u64> {
    match found {
        Some(hit) => if selected.len() > 0 && selected[0] == hit.entity {
            None
        } else {
            Some(hit.entity)
        },
        None => None,
    }
}

/// `top_index` finds the top node where a box holds the point, and `-1`
/// where none does.
pub proof fn lemma_top_index(nodes: Seq<Node>, point: Point)
    ensures
        -1 <= top_index(nodes, point) < nodes.len(),
        top_index(nodes, point) >= 0 ==> is_top(nodes, point, top_index(nodes, point)),
        top_index(nodes, point) < 0 <==> misses(nodes, point),
    decreases nodes.len(),
{
    if nodes.len() > 0 {
        let front = nodes.drop_last();
        lemma_top_index(front, point);
        let before = top_index(front, point);
        let t = top_index(nodes, point);
        assert forall|j: int| 0 <= j < front.len() implies #[trigger] front[j] == nodes[j] by {}
        if t == nodes.len() - 1 {
            assert forall|j: int|
                0 <= j < nodes.len() && (#[trigger] nodes[j]).aabb.holds(point) implies nodes[j].layer.order()
                <= nodes[t].layer.order() by {
                if j < front.len() {
                    assert(front[j].aabb.holds(point));
                    assert(before >= 0);
                }
            }
        } else if before >= 0 {
            assert forall|j: int|
                0 <= j < nodes.len() && (#[trigger] nodes[j]).aabb.holds(point) implies nodes[j].layer.order()
                <= nodes[t].layer.order() by {
                if j < front.len() {
                    assert(front[j].aabb.holds(point));
                }
            }
            assert forall|j: int|
                t < j < nodes.len() && (#[trigger] nodes[j]).aabb.holds(point) implies nodes[j].layer.order()
                < nodes[t].layer.order() by {
                if j < front.len() {
                    assert(front[j].aabb.holds(point));
                }
            }
        } else {
            assert forall|j: int| 0 <= j < nodes.len() implies !(#[trigger] nodes[j]).aabb.holds(
                point,
            ) by {
                if j < front.len() {
                    assert(!front[j].aabb.holds(point));
                }
            }
        }
        if t >= 0 {
            assert(nodes[t].aabb.holds(point));
        }
    }
}

/// There is one top node at most.
pub proof fn lemma_top_is_unique(nodes: Seq<Node>, point: Point, i: int, j: int)
    requires
        is_top(nodes, point, i),
        is_top(nodes, point, j),
    ensures
        i == j,
{
    if i < j {
        assert(nodes[j].aabb.holds(point));
        assert(nodes[i].aabb.holds(point));
    } else if j < i {
        assert(nodes[i].aabb.holds(point));
        assert(nodes[j].aabb.holds(point));
    }
}

/// Collects what the hit tester sees of the canvas.
pub fn nodes(canvas: &Canvas) -> (found: Vec<Node>)
    ensures
        found@ == nodes_of(canvas@.drawables),
{
    let drawables: &Vec<Drawable> = canvas.drawables();
    let ghost s = views(drawables@);
    let mut found: Vec<Node> = Vec::new();
    let mut i: usize = 0;
    proof {
        assert(s.take(0) =~= Seq::empty());
        reveal(Seq::filter);
        assert(found@ =~= nodes_of(s.take(0)));
    }
    while i < drawables.len()
        invariant
            i <= drawables.len(),
            s == views(drawables@),
            found@ == nodes_of(s.take(i as int)),
        decreases drawables.len() - i,
    {
        proof {
            assert(s.take(i + 1) =~= s.take(i as int).push(s[i as int]));
            lemma_filter_push(s.take(i as int), s[i as int], can_be_hit());
        }
        let d: &Drawable = &drawables[i];
        match (d.aabb, d.layer) {
            (Some(aabb), Some(layer)) => {
                found.push(Node { entity: d.id, aabb, layer });
                assert(found@ =~= nodes_of(s.take(i + 1)));
            },
            _ => {},
        }
        i += 1;
    }
    assert(s.take(i as int) =~= s);
    found
}

/// Finds the drawable under the cursor: of the nodes whose box holds the
/// cursor, the one on the highest layer, and of several on that layer the
/// last. The result is `None` where no box holds the cursor.
pub fn find_entity_with_world_cursor(
    node_query: &Vec<Node>,
    world_touch_cursor: &WorldTouchCursor,
) -> (found: Option<Hit>)
    ensures
        found == find_at(node_query@, world_touch_cursor.0),
        match found {
            Some(hit) => exists|i: int|
                is_top(node_query@, world_touch_cursor.0, i) && hit == (#[trigger] node_query@[i]).hit(),
            None => misses(node_query@, world_touch_cursor.0),
        },
{
    let point: Point = world_touch_cursor.0;
    let mut best: Option<usize> = None;
    let mut i: usize = 0;
    while i < node_query.len()
        invariant
            i <= node_query.len(),
            point == world_touch_cursor.0,
            match best {
                Some(b) => b == top_index(node_query@.take(i as int), point),
                None => top_index(node_query@.take(i as int), point) == -1,
            },
        decreases node_query.len() - i,
    {
        proof {
            lemma_top_index(node_query@.take(i as int), point);
            assert(node_query@.take(i + 1).drop_last() =~= node_query@.take(i as int));
        }
        let node: &Node = &node_query[i];
        if node.aabb.contains(&point) {
            let higher: bool = match best {
                Some(b) => node_query[b].layer.order_in_layer() <= node.layer.order_in_layer(),
                None => true,
            };
            if higher {
                best = Some(i);
            }
        }
        i += 1;
    }
    proof {
        assert(node_query@.take(i as int) =~= node_query@);
        lemma_top_index(node_query@, point);
    }
    match best {
        Some(b) => {
            let node: &Node = &node_query[b];
            Some(Hit { entity: node.entity, layer: node.layer.order_in_layer(), aabb: node.aabb })
        },
        None => None,
    }
}

/// Tracks what the pointer hovers over: the drawable under the cursor,
/// unless it is the selected one, which is not reported again.
pub fn mesh_focus_system(
    node_query: &Vec<Node>,
    world_touch_cursor: &WorldTouchCursor,
    selected: &Selected,
    hovered_mesh: &mut HoveredMesh,
)
    ensures
        final(hovered_mesh).0 == hovered_of(
            find_at(node_query@, world_touch_cursor.0),
            selected.0@,
        ),
{
    let found: Option<Hit> = find_entity_with_world_cursor(node_query, world_touch_cursor);
    match found {
        Some(hit) => {
            if selected.0.len() > 0 && selected.0[0] == hit.entity {
                *hovered_mesh = HoveredMesh(None);
            } else {
                *hovered_mesh = HoveredMesh(Some(hit.entity));
            }
        },
        None => {
            *hovered_mesh = HoveredMesh(None);
        },
    }
}

/// A rectangle drawn round a drawable to mark it.
#[derive(Clone, Copy, Debug, PartialEq, Eq, Structural)]
pub struct Outline {
    pub center: Point,
    /// The width and the height of the rectangle.
    pub size: Point,
    pub color: Color,
}

/// The colour that marks what the pointer hovers over.
pub open spec fn focus_color() -> Color {
    Color { r: 0, g: 0, b: 255, a: 255 }
}

/// The rectangle that marks the box `aabb` in the colour `color`: it has the
/// box's centre and twice its half extents, each stopping at the end of its
/// range.
pub open spec fn outline_of(aabb: Aabb, color: Color) -> Outline {
    Outline {
        center: aabb.center,
        size: Point {
            x: clamp_i32(aabb.half_extents.x * 2) as i32,
            y: clamp_i32(aabb.half_extents.y * 2) as i32,
        },
        color,
    }
}

/// The index of the first node of `nodes` with the name `entity`, or the
/// length of `nodes` where there is none.
pub open spec fn index_of_entity(nodes: Seq<Node>, entity: u64) -> int
    decreases nodes.len(),
{
    if nodes.len() == 0 {
        0
    } else if nodes.first().entity == entity {
        0
    } else {
        1 + index_of_entity(nodes.skip(1), entity)
    }
}

/// The rectangle that marks the drawable `entity` among `nodes` in the
/// colour `color`; none where `entity` names nothing or no node.
pub open spec fn marked(nodes: Seq<Node>, entity: Option<u64>, color: Color) -> Option<Outline> {
    if entity is Some && index_of_entity(nodes, entity->0) < nodes.len() {
        Some(outline_of(nodes[index_of_entity(nodes, entity->0)].aabb, color))
    } else {
        None
    }
}

/// `index_of_entity` is the least index of a node with the name.
pub proof fn lemma_index_of_entity(nodes: Seq<Node>, entity: u64)
    ensures
        0 <= index_of_entity(nodes, entity) <= nodes.len(),
        index_of_entity(nodes, entity) < nodes.len() ==> nodes[index_of_entity(
            nodes,
            entity,
        )].entity == entity,
        forall|j: int|
            0 <= j < index_of_entity(nodes, entity) ==> (#[trigger] nodes[j]).entity != entity,
    decreases nodes.len(),
{
    if nodes.len() > 0 && nodes.first().entity != entity {
        let rest = nodes.skip(1);
        lemma_index_of_entity(rest, entity);
        assert forall|j: int| 0 <= j < index_of_entity(nodes, entity) implies (
        #[trigger] nodes[j]).entity != entity by {
            if j > 0 {
                assert(rest[j - 1] == nodes[j]);
            }
        }
    }
}

/// The rectangle round the box `aabb` in the colour `color`.
pub fn outline(aabb: &Aabb, color: Color) -> (o: Outline)
    ensures
        o == outline_of(*aabb, color),
{
    Outline {
        center: aabb.center,
        size: Point {
            x: saturate(aabb.half_extents.x as i128 * 2),
            y: saturate(aabb.half_extents.y as i128 * 2),
        },
        color,
    }
}

/// Finds the rectangle that marks the drawable `entity` among the nodes.
pub fn mark(node_query: &Vec<Node>, entity: Option<u64>, color: Color) -> (o: Option<Outline>)
    ensures
        o == marked(node_query@, entity, color),
{
    match entity {
        Some(name) => {
            let mut i: usize = 0;
            proof {
                lemma_index_of_entity(node_query@, name);
            }
            while i < node_query.len()
                invariant
                    i <= node_query.len(),
                    entity == Some(name),
                    i <= index_of_entity(node_query@, name) <= node_query@.len(),
                decreases node_query.len() - i,
            {
                proof {
                    lemma_index_of_entity(node_query@, name);
                }
                if node_query[i].entity == name {
                    assert(node_query@[i as int].entity == name);
                    return Some(outline(&node_query[i].aabb, color));
                }
                assert(node_query@[i as int].entity != name);
                i += 1;
            }
            None
        },
        None => None,
    }
}

/// The rectangle that marks what the pointer hovers over, for the renderer
/// to draw.
pub fn draw_focus(node_query: &Vec<Node>, hovered_mesh: &HoveredMesh) -> (o: Option<Outline>)
    ensures
        o == marked(node_query@, hovered_mesh.0, focus_color()),
{
    mark(node_query, hovered_mesh.0, Color { r: 0, g: 0, b: 255, a: 255 })
}

} // verus!
