//! Layers: the order in which drawables are painted and hit.

use vstd::prelude::*;

verus! {

/// How many layer numbers there are: a new drawable gets the numbers
/// `0`, `1`, and so on up to `LAYER_COUNT - 1`, and then `0` again.
pub const LAYER_COUNT: i8 = 126;

/// The layer of a drawable. A higher number is painted later and lies on top.
#[derive(Clone, Copy, Debug, PartialEq, Eq, Hash, Structural)]
pub enum Layer {
    Foreground(i8),
}

/// The layer number handed out after `current`.
pub open spec fn layer_after(current: i8) -> int {
    (current + 1) % (LAYER_COUNT as int)
}

/// The depth at which `layer` is painted, in thousandths of a world unit.
pub open spec fn z_of(layer: Layer) -> int {
    match layer {
        Layer::Foreground(order_in_layer) => order_in_layer as int,
    }
}

impl Layer {
    /// The number of the layer.
    pub open spec fn order(self) -> i8 {
        match self {
            Layer::Foreground(order_in_layer) => order_in_layer,
        }
    }

    /// The number of the layer.
    pub fn order_in_layer(&self) -> (n: i8)
        ensures
            n == self.order(),
    {
        match self {
            Layer::Foreground(order_in_layer) => *order_in_layer,
        }
    }
}

/// Sets the depth `z` of each entry to the one that its layer asks for.
pub fn update_z_coordinate_based_on_layer(query: &mut Vec<(i32, Layer)>)
    ensures
        final(query)@.len() == old(query)@.len(),
        forall|i: int|
            0 <= i < old(query)@.len() ==> (#[trigger] final(query)@[i]).1 == old(query)@[i].1
                && final(query)@[i].0 == z_of(old(query)@[i].1),
{
    let mut i: usize = 0;
    while i < query.len()
        invariant
            i <= query.len(),
            query@.len() == old(query)@.len(),
            forall|j: int| 0 <= j < query@.len() ==> (#[trigger] query@[j]).1 == old(query)@[j].1,
            forall|j: int| 0 <= j < i ==> (#[trigger] query@[j]).0 == z_of(old(query)@[j].1),
        decreases query.len() - i,
    {
        let layer: Layer = query[i].1;
        query[i].0 = layer.order_in_layer() as i32;
        i += 1;
    }
}

/// A drawable on a higher layer is painted at a greater depth, and two
/// drawables are painted at the same depth only on the same layer.
pub proof fn lemma_depth_follows_layer(a: Layer, b: Layer)
    ensures
        a.order() < b.order() <==> z_of(a) < z_of(b),
        z_of(a) == z_of(b) <==> a == b,
{
}

/// Layer numbers stay in their range and come round again after
/// `LAYER_COUNT` drawables.
pub proof fn lemma_layer_after_wraps(current: i8)
    requires
        0 <= current < LAYER_COUNT,
    ensures
        0 <= layer_after(current) < LAYER_COUNT,
        current + 1 < LAYER_COUNT ==> layer_after(current) == current + 1,
        current + 1 == LAYER_COUNT ==> layer_after(current) == 0,
{
}

} // verus!
