use vstd::prelude::*;

use crate::engine::{begin_error, dragged_over, dragover_intent, lemma_pushed_wf, pushed, state_wf, DragError, EngineState};
use crate::ids::ItemId;
use crate::intent::{applied, intent_for, lemma_applied, lemma_position_after_removal, Intent};
use crate::order::{lemma_position_of, lemma_without, swapped, without};

verus! {

/// The order after `intents` are applied one by one while `dragging` is dragged.
pub open spec fn applied_all(order: Seq<ItemId>, dragging: ItemId, intents: Seq<Intent>) -> Seq<
    ItemId,
>
    decreases intents.len(),
{
    if intents.len() == 0 {
        order
    } else {
        applied_all(applied(order, dragging, intents[0]), dragging, intents.drop_first())
    }
}

/// Whatever intents are applied, the order keeps its identifiers unique, and
/// an item other than the dragged one is in it afterwards exactly when it was
/// before and no intent removed it. The dragged item comes back only through
/// an insert.
pub proof fn order_stays_a_permutation(order: Seq<ItemId>, dragging: ItemId, intents: Seq<Intent>)
    requires
        order.no_duplicates(),
    ensures
        applied_all(order, dragging, intents).no_duplicates(),
        forall|x: ItemId|
            x != dragging ==> (#[trigger] applied_all(order, dragging, intents).contains(x) <==> (
            order.contains(x) && !intents.contains(Intent::Remove(x)))),
        applied_all(order, dragging, intents).contains(dragging) ==> order.contains(dragging)
            || exists|k: int|
            0 <= k < intents.len() && (intents[k] is InsertLeft || intents[k] is InsertRight),
    decreases intents.len(),
{
    if intents.len() > 0 {
        let first = intents[0];
        let rest = intents.drop_first();
        let next = applied(order, dragging, first);
        lemma_applied(order, dragging, first);
        order_stays_a_permutation(next, dragging, rest);
        assert forall|y: Intent| #[trigger] intents.contains(y) <==> (first == y || rest.contains(y)) by {
            if intents.contains(y) {
                let k = choose|k: int| 0 <= k < intents.len() && intents[k] == y;
                if k > 0 {
                    assert(rest[k - 1] == y);
                }
            }
            if rest.contains(y) {
                let k = choose|k: int| 0 <= k < rest.len() && rest[k] == y;
                assert(intents[k + 1] == y);
            }
            if first == y {
                assert(intents[0] == y);
            }
        }
        if applied_all(order, dragging, intents).contains(dragging) && !order.contains(dragging) {
            if next.contains(dragging) {
                assert(intents[0] is InsertLeft || intents[0] is InsertRight);
            } else {
                let k = choose|k: int|
                    0 <= k < rest.len() && (rest[k] is InsertLeft || rest[k] is InsertRight);
                assert(intents[k + 1] == rest[k]);
            }
        }
    }
}

/// Offering one intent twice before it is applied leaves exactly one
/// occurrence of it in the queue.
pub proof fn pushing_twice_queues_once(s: EngineState, i: Intent)
    requires
        state_wf(s),
        s.in_flight != Some(i),
    ensures
        pushed(pushed(s, i), i) == pushed(s, i),
        pushed(s, i).queue.contains(i),
        forall|a: int, b: int|
            0 <= a < pushed(s, i).queue.len() && 0 <= b < pushed(s, i).queue.len()
                && pushed(s, i).queue[a] == i && pushed(s, i).queue[b] == i ==> a == b,
{
    lemma_pushed_wf(s, i);
    let t = pushed(s, i);
    if !s.pending.contains(i) {
        assert(t.queue[t.queue.len() - 1] == i);
        assert(t.pending[t.pending.len() - 1] == i);
    }
    assert(t.pending.contains(i));
}

/// A dragover of the dragged item's own slot emits nothing and changes nothing.
pub proof fn dragging_over_self_is_inert(s: EngineState, x: i32)
    requires
        s.session is Some,
    ensures
        dragover_intent(s, s.session->Some_0.dragging, x) is None,
        dragged_over(s, s.session->Some_0.dragging, x) == s,
{
}

/// Dragging `b` over the right half of its left neighbour `a`, and dragging
/// `a` over the left half of its right neighbour `b`, both swap the two, as
/// long as `a` is not in the leftmost slot.
pub proof fn shifts_are_symmetric(order: Seq<ItemId>, a: ItemId, b: ItemId, k: int)
    requires
        order.no_duplicates(),
        1 <= k,
        k + 1 < order.len(),
        order[k] == a,
        order[k + 1] == b,
    ensures
        intent_for(order, b, a, false) == Some(Intent::ShiftRight(a)),
        intent_for(order, a, b, true) == Some(Intent::ShiftLeft(b)),
        applied(order, b, Intent::ShiftRight(a)) == swapped(order, k, k + 1),
        applied(order, a, Intent::ShiftLeft(b)) == swapped(order, k, k + 1),
{
    lemma_position_of(order, a, k);
    lemma_position_of(order, b, k + 1);
    assert(order.contains(a));
    assert(order.contains(b));
    assert(swapped(order, k + 1, k) =~= swapped(order, k, k + 1));
}

/// With `dragging` in limbo, a dragover of the right half of the last slot
/// emits `InsertRight`, which appends the dragged item.
pub proof fn insert_right_appends_at_tail(order: Seq<ItemId>, dragging: ItemId)
    requires
        order.no_duplicates(),
        order.len() > 0,
        !order.contains(dragging),
    ensures
        intent_for(order, dragging, order.last(), false) == Some(Intent::InsertRight(order.last())),
        applied(order, dragging, Intent::InsertRight(order.last())) == order.push(dragging),
{
    let c = order.last();
    let n = order.len() - 1;
    lemma_position_of(order, c, n);
    assert(order.contains(c));
    lemma_without(order, dragging);
    lemma_position_after_removal(order, dragging, c);
    assert(without(order, dragging) == order);
    assert(order.insert(n + 1, dragging) =~= order.push(dragging));
}

/// The leftmost slot is never an insert-left target: a dragover of its left
/// half emits nothing, and an `InsertLeft` of it leaves the order as it is.
pub proof fn no_insert_left_of_leftmost(order: Seq<ItemId>, dragging: ItemId)
    requires
        order.no_duplicates(),
        order.len() > 0,
    ensures
        intent_for(order, dragging, order[0], true) is None,
        applied(order, dragging, Intent::InsertLeft(order[0])) == order,
{
    let h = order[0];
    lemma_position_of(order, h, 0);
    assert(order.contains(h));
    if h != dragging {
        lemma_position_after_removal(order, dragging, h);
    }
}

/// The item in the leftmost slot is never dragged: a dragstart on it is
/// refused while no session is open, and without a session no dragover emits
/// an intent.
pub proof fn leftmost_item_never_drags(s: EngineState)
    requires
        s.order.no_duplicates(),
        s.session is None,
        s.order.len() > 0,
    ensures
        begin_error(s, s.order[0]) == Some(DragError::AnchorSlot),
        forall|t: ItemId, x: i32| #[trigger] dragover_intent(s, t, x) is None,
{
    lemma_position_of(s.order, s.order[0], 0);
    assert(s.order.contains(s.order[0]));
}

} // verus!
