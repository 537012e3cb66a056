use vstd::prelude::*;

use crate::ids::ItemId;
use crate::order::{position_of, without, swapped, placed, lemma_position_of, lemma_without, lemma_placed, lemma_swapped, DockOrder};

verus! {

/// A structural change to the Dock Order, classified from a dragover.
/// Each one is resolved against the live order when it is applied.
#[derive(Clone, Copy, Debug, PartialEq, Eq, Hash, Structural)]
pub enum Intent {
    /// The target, right neighbour of the dragged item, trades places with it.
    ShiftLeft(ItemId),
    /// The target, left neighbour of the dragged item, trades places with it.
    ShiftRight(ItemId),
    /// The dragged item comes back from limbo just before the target.
    InsertLeft(ItemId),
    /// The dragged item comes back from limbo just after the target.
    InsertRight(ItemId),
    /// The item leaves the order (the dragged item goes to limbo).
    Remove(ItemId),
    /// The drag ends on the dock: the session closes and the order stands.
    Drop,
}

/// The intent that a dragover of `target` emits while `dragging` is dragged
/// and the cursor is on the target's left half (`cursor_left`) or right half.
/// The dragged item is in limbo when the order does not hold it. At most one
/// rule holds: the shifts need the dragged item in the order, the inserts
/// need it in limbo, and the two of each pair need opposite cursor halves.
pub open spec fn intent_for(
    order: Seq<ItemId>,
    dragging: ItemId,
    target: ItemId,
    cursor_left: bool,
) -> Option<Intent> {
    if target == dragging || !order.contains(target) {
        None
    } else {
        let t = position_of(order, target);
        if order.contains(dragging) {
            let d = position_of(order, dragging);
            if t == d + 1 && cursor_left && t != 0 {
                Some(Intent::ShiftLeft(target))
            } else if t + 1 == d && !cursor_left && t != 0 {
                Some(Intent::ShiftRight(target))
            } else {
                None
            }
        } else if cursor_left && t != 0 {
            Some(Intent::InsertLeft(target))
        } else if !cursor_left {
            Some(Intent::InsertRight(target))
        } else {
            None
        }
    }
}

/// The order after `intent` is applied while `dragging` is dragged, with every
/// identifier resolved to its index in `order` at that moment.
pub open spec fn applied(order: Seq<ItemId>, dragging: ItemId, intent: Intent) -> Seq<ItemId> {
    match intent {
        Intent::ShiftLeft(t) => {
            if order.contains(t) && order.contains(dragging) && position_of(order, t)
                == position_of(order, dragging) + 1 {
                swapped(order, position_of(order, dragging), position_of(order, t))
            } else {
                order
            }
        },
        Intent::ShiftRight(t) => {
            if order.contains(t) && order.contains(dragging) && position_of(order, t) + 1
                == position_of(order, dragging) && position_of(order, t) != 0 {
                swapped(order, position_of(order, dragging), position_of(order, t))
            } else {
                order
            }
        },
        Intent::InsertLeft(t) => {
            if t != dragging && order.contains(t) && position_of(without(order, dragging), t)
                != 0 {
                placed(order, position_of(without(order, dragging), t), dragging)
            } else {
                order
            }
        },
        Intent::InsertRight(t) => {
            if t != dragging && order.contains(t) {
                placed(order, position_of(without(order, dragging), t) + 1, dragging)
            } else {
                order
            }
        },
        Intent::Remove(id) => without(order, id),
        Intent::Drop => order,
    }
}

/// Where `t` stands once `d` has been taken out of `o`.
pub proof fn lemma_position_after_removal(o: Seq<ItemId>, d: ItemId, t: ItemId)
    requires
        o.no_duplicates(),
        o.contains(t),
        t != d,
    ensures
        without(o, d).contains(t),
        position_of(without(o, d), t) == if o.contains(d) && position_of(o, d) < position_of(
            o,
            t,
        ) {
            position_of(o, t) - 1
        } else {
            position_of(o, t)
        },
{
    lemma_without(o, d);
    let pt = position_of(o, t);
    assert(0 <= pt < o.len() && o[pt] == t);
    let w = without(o, d);
    if o.contains(d) {
        let pd = position_of(o, d);
        assert(0 <= pd < o.len() && o[pd] == d);
        if pd < pt {
            assert(w[pt - 1] == t);
            lemma_position_of(w, t, pt - 1);
        } else {
            assert(pd != pt);
            assert(w[pt] == t);
            lemma_position_of(w, t, pt);
        }
    } else {
        lemma_position_of(w, t, pt);
    }
}

/// Every intent keeps the order free of duplicates, and changes which
/// identifiers it holds only by the dragged item and by an explicit removal.
pub proof fn lemma_applied(o: Seq<ItemId>, d: ItemId, i: Intent)
    requires
        o.no_duplicates(),
    ensures
        applied(o, d, i).no_duplicates(),
        forall|x: ItemId|
            x != d ==> (#[trigger] applied(o, d, i).contains(x) <==> (o.contains(x) && i
                != Intent::Remove(x))),
        applied(o, d, i).contains(d) ==> o.contains(d) || i is InsertLeft || i is InsertRight,
{
    let r = applied(o, d, i);
    match i {
        Intent::ShiftLeft(t) => {
            if r != o {
                lemma_swapped(o, position_of(o, d), position_of(o, t));
                assert(r.to_set() == o.to_set());
                assert forall|x: ItemId| #[trigger] r.contains(x) <==> o.contains(x) by {
                    assert(r.to_set().contains(x) == o.to_set().contains(x));
                }
            }
        },
        Intent::ShiftRight(t) => {
            if r != o {
                lemma_swapped(o, position_of(o, d), position_of(o, t));
                assert forall|x: ItemId| #[trigger] r.contains(x) <==> o.contains(x) by {
                    assert(r.to_set().contains(x) == o.to_set().contains(x));
                }
            }
        },
        Intent::InsertLeft(t) => {
            if t != d && o.contains(t) {
                lemma_position_after_removal(o, d, t);
                lemma_without(o, d);
                if position_of(without(o, d), t) != 0 {
                    lemma_placed(o, position_of(without(o, d), t), d);
                    assert forall|x: ItemId| #[trigger]
                        r.contains(x) <==> (o.contains(x) || x == d) by {
                        assert(r.to_set().contains(x) == o.to_set().insert(d).contains(x));
                    }
                }
            }
        },
        Intent::InsertRight(t) => {
            if t != d && o.contains(t) {
                lemma_position_after_removal(o, d, t);
                lemma_without(o, d);
                lemma_placed(o, position_of(without(o, d), t) + 1, d);
                assert forall|x: ItemId| #[trigger] r.contains(x) <==> (o.contains(x) || x == d) by {
                    assert(r.to_set().contains(x) == o.to_set().insert(d).contains(x));
                }
            }
        },
        Intent::Remove(id) => {
            lemma_without(o, id);
            assert forall|x: ItemId| #[trigger]
                r.contains(x) <==> (o.contains(x) && x != id) by {
                assert(r.to_set().contains(x) == o.to_set().remove(id).contains(x));
            }
        },
        Intent::Drop => {},
    }
}

/// The exec form of `intent_for`.
pub fn classify(order: &DockOrder, dragging: ItemId, target: ItemId, cursor_left: bool) -> (r:
    Option<Intent>)
    requires
        order.wf(),
    ensures
        r == intent_for(order@, dragging, target, cursor_left),
{
    if target == dragging {
        return None;
    }
    let t = match order.index_of(target) {
        Some(t) => t,
        None => {
            return None;
        },
    };
    match order.index_of(dragging) {
        Some(d) => {
            if d < t && t - d == 1 && cursor_left && t != 0 {
                Some(Intent::ShiftLeft(target))
            } else if t < d && d - t == 1 && !cursor_left && t != 0 {
                Some(Intent::ShiftRight(target))
            } else {
                None
            }
        },
        None => {
            if cursor_left && t != 0 {
                Some(Intent::InsertLeft(target))
            } else if !cursor_left {
                Some(Intent::InsertRight(target))
            } else {
                None
            }
        },
    }
}

/// Applies `intent` to `order` while `dragging` is dragged.
pub fn apply(order: &mut DockOrder, dragging: ItemId, intent: Intent)
    requires
        old(order).wf(),
    ensures
        final(order).wf(),
        final(order)@ == applied(old(order)@, dragging, intent),
{
    match intent {
        Intent::ShiftLeft(t) => {
            if let (Some(ti), Some(di)) = (order.index_of(t), order.index_of(dragging)) {
                if di < ti && ti - di == 1 {
                    order.swap(di, ti);
                }
            }
        },
        Intent::ShiftRight(t) => {
            if let (Some(ti), Some(di)) = (order.index_of(t), order.index_of(dragging)) {
                if ti < di && di - ti == 1 && ti != 0 {
                    order.swap(di, ti);
                }
            }
        },
        Intent::InsertLeft(t) => {
            if t != dragging {
                if let Some(ti) = order.index_of(t) {
                    let wi = left_of_removal(order, dragging, t, ti);
                    if wi != 0 {
                        order.insert(wi, dragging);
                    }
                }
            }
        },
        Intent::InsertRight(t) => {
            if t != dragging {
                if let Some(ti) = order.index_of(t) {
                    let n = order.len();
                    let wi = left_of_removal(order, dragging, t, ti);
                    proof {
                        lemma_without(order@, dragging);
                    }
                    order.insert(wi + 1, dragging);
                }
            }
        },
        Intent::Remove(id) => {
            order.remove(id);
        },
        Intent::Drop => {},
    }
}

/// The index of `t` once `d` is taken out of the order, given its index `ti` now.
fn left_of_removal(order: &DockOrder, d: ItemId, t: ItemId, ti: usize) -> (r: usize)
    requires
        order.wf(),
        t != d,
        order@.contains(t),
        ti == position_of(order@, t),
    ensures
        r == position_of(without(order@, d), t),
        r < without(order@, d).len(),
{
    proof {
        lemma_position_after_removal(order@, d, t);
        lemma_without(order@, d);
        lemma_position_of(without(order@, d), t, position_of(without(order@, d), t));
    }
    match order.index_of(d) {
        Some(di) => {
            if di < ti {
                ti - 1
            } else {
                ti
            }
        },
        None => ti,
    }
}

} // verus!
