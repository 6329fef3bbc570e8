//! The alternator that flips drawables between two looks.

use vstd::prelude::*;

verus! {

/// Two looks, of which a drawable shows one at a time.
#[derive(Clone, Copy, Debug, PartialEq, Eq)]
pub struct Toggle<T, T2>(pub T, pub T2);

/// Which of the two looks of a `Toggle` is shown.
#[derive(Clone, Copy, Debug, PartialEq, Eq, Structural)]
pub enum Shown {
    First,
    Second,
}

/// The look that a flip shows, given whether the flip before it showed the
/// second one.
pub open spec fn shown_by(is_bundle_0: bool) -> Shown {
    if is_bundle_0 {
        Shown::First
    } else {
        Shown::Second
    }
}

/// Flips: tells which look every drawable shows from now on, and remembers
/// in `is_bundle_0` that the next flip shows the other one.
pub fn toggle_component(is_bundle_0: &mut bool) -> (shown: Shown)
    ensures
        shown == shown_by(*old(is_bundle_0)),
        *final(is_bundle_0) == !*old(is_bundle_0),
{
    let shown: Shown = if *is_bundle_0 {
        Shown::First
    } else {
        Shown::Second
    };
    *is_bundle_0 = !*is_bundle_0;
    shown
}

/// Two flips in a row show one look and then the other, and leave the
/// alternator as it was.
pub proof fn lemma_toggle_alternates(is_bundle_0: bool)
    ensures
        shown_by(is_bundle_0) != shown_by(!is_bundle_0),
        !!is_bundle_0 == is_bundle_0,
{
}

} // verus!
