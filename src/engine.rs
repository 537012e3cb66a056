use vstd::prelude::*;

use crate::geometry::{GeometryTracker, Rect};
use crate::ids::ItemId;
use crate::intent::{applied, apply, classify, intent_for, lemma_applied, Intent};
use crate::order::{lemma_without, placed, lemma_placed, position_of, without, DockOrder};

verus! {

/// Milliseconds that an applied intent stays in the pending set, matched to
/// the length of the slide transition.
pub const SHIFT_TIME: u64 = 250;

/// The state of one drag gesture, from dragstart to drop or dragend.
#[derive(Clone, Copy, Debug, PartialEq, Eq, Structural)]
pub struct DragSession {
    pub dragging: ItemId,
    /// The slot the item was dragged from.
    pub origin_slot: usize,
    /// Pointer position minus the slot's origin, at dragstart.
    pub offset_x: i64,
    pub offset_y: i64,
    /// The last pointer position seen.
    pub pointer_x: i32,
    pub pointer_y: i32,
}

/// Why a dragstart opened no session.
#[derive(Clone, Copy, Debug, PartialEq, Eq, Structural)]
pub enum DragError {
    /// A session is already open: input has a single pointer.
    SessionActive,
    /// The item is not in the Dock Order.
    NotInDock,
    /// The item sits in the leftmost slot, which never moves.
    AnchorSlot,
    /// No box was recorded for the item.
    NoGeometry,
}

/// What a `DockData` holds, as mathematical values.
pub struct EngineState {
    pub order: Seq<ItemId>,
    pub geometry: Map<ItemId, Rect>,
    pub session: Option<DragSession>,
    /// Intents queued or being applied; a pushed intent found here is dropped.
    pub pending: Seq<Intent>,
    /// Intents waiting to be applied, oldest first.
    pub queue: Seq<Intent>,
    /// The intent applied last, whose debounce window is still open.
    pub in_flight: Option<Intent>,
}

/// The invariant of the engine: no identifier twice in the order, and the
/// pending set is exactly the queue together with the intent in flight.
pub open spec fn state_wf(s: EngineState) -> bool {
    &&& s.order.no_duplicates()
    &&& s.pending.no_duplicates()
    &&& s.queue.no_duplicates()
    &&& forall|i: Intent| #[trigger]
        s.pending.contains(i) <==> (s.queue.contains(i) || s.in_flight == Some(i))
    &&& s.in_flight matches Some(i) ==> !s.queue.contains(i)
    &&& s.session matches Some(ss) ==> offsets_in_range(ss)
}

/// Offsets that a pointer and a box in `i32` pixels can give.
pub open spec fn offsets_in_range(ss: DragSession) -> bool {
    &&& -0x1_0000_0000 <= ss.offset_x <= 0x1_0000_0000
    &&& -0x1_0000_0000 <= ss.offset_y <= 0x1_0000_0000
}

/// The state after `i` is offered to the queue: dropped if it is pending.
pub open spec fn pushed(s: EngineState, i: Intent) -> EngineState {
    if s.pending.contains(i) {
        s
    } else {
        EngineState { pending: s.pending.push(i), queue: s.queue.push(i), ..s }
    }
}

/// Offering an intent to the queue keeps the invariant.
pub proof fn lemma_pushed_wf(s: EngineState, i: Intent)
    requires
        state_wf(s),
    ensures
        state_wf(pushed(s, i)),
{
    if !s.pending.contains(i) {
        let t = pushed(s, i);
        assert forall|a: int, b: int|
            0 <= a < t.pending.len() && 0 <= b < t.pending.len() && a != b implies t.pending[a]
            != t.pending[b] by {
            if a == t.pending.len() - 1 {
                assert(s.pending.contains(t.pending[b]));
            } else if b == t.pending.len() - 1 {
                assert(s.pending.contains(t.pending[a]));
            }
        }
        assert forall|a: int, b: int|
            0 <= a < t.queue.len() && 0 <= b < t.queue.len() && a != b implies t.queue[a]
            != t.queue[b] by {
            if a == t.queue.len() - 1 {
                assert(s.queue.contains(t.queue[b]));
            } else if b == t.queue.len() - 1 {
                assert(s.queue.contains(t.queue[a]));
            }
        }
        assert forall|x: Intent| #[trigger]
            t.pending.contains(x) <==> (t.queue.contains(x) || t.in_flight == Some(x)) by {
            if t.pending.contains(x) && x != i {
                let k = choose|k: int| 0 <= k < t.pending.len() && t.pending[k] == x;
                assert(s.pending[k] == x);
            }
            if t.queue.contains(x) && x != i {
                let k = choose|k: int| 0 <= k < t.queue.len() && t.queue[k] == x;
                assert(s.queue[k] == x);
            }
            if s.pending.contains(x) {
                let k = choose|k: int| 0 <= k < s.pending.len() && s.pending[k] == x;
                assert(t.pending[k] == x);
            }
            if s.queue.contains(x) {
                let k = choose|k: int| 0 <= k < s.queue.len() && s.queue[k] == x;
                assert(t.queue[k] == x);
            }
            if x == i {
                assert(t.pending[t.pending.len() - 1] == x);
                assert(t.queue[t.queue.len() - 1] == x);
            }
        }
        if let Some(f) = t.in_flight {
            if t.queue.contains(f) {
                let k = choose|k: int| 0 <= k < t.queue.len() && t.queue[k] == f;
                if k < s.queue.len() {
                    assert(s.queue[k] == f);
                }
            }
        }
    }
}

/// The state after the oldest queued intent is applied, where no debounce
/// window is open.
pub open spec fn stepped(s: EngineState) -> EngineState {
    if s.in_flight is None && s.queue.len() > 0 {
        let i = s.queue[0];
        EngineState {
            order: match s.session {
                Some(ss) => applied(s.order, ss.dragging, i),
                None => s.order,
            },
            session: if i == Intent::Drop {
                None
            } else {
                s.session
            },
            queue: s.queue.drop_first(),
            in_flight: Some(i),
            ..s
        }
    } else {
        s
    }
}

/// The state once the debounce window of the intent in flight has elapsed.
pub open spec fn settled(s: EngineState) -> EngineState {
    match s.in_flight {
        Some(i) => EngineState { pending: without(s.pending, i), in_flight: None, ..s },
        None => s,
    }
}

/// The error, if any, with which a dragstart of `id` opens no session.
pub open spec fn begin_error(s: EngineState, id: ItemId) -> Option<DragError> {
    if s.session is Some {
        Some(DragError::SessionActive)
    } else if !s.order.contains(id) {
        Some(DragError::NotInDock)
    } else if position_of(s.order, id) == 0 {
        Some(DragError::AnchorSlot)
    } else if !s.geometry.contains_key(id) {
        Some(DragError::NoGeometry)
    } else {
        None
    }
}

/// The session that a dragstart of `id` at pointer (`x`, `y`) opens.
pub open spec fn session_for(s: EngineState, id: ItemId, x: i32, y: i32) -> DragSession {
    DragSession {
        dragging: id,
        origin_slot: position_of(s.order, id) as usize,
        offset_x: (x - s.geometry[id].left) as i64,
        offset_y: (y - s.geometry[id].top) as i64,
        pointer_x: x,
        pointer_y: y,
    }
}

/// The intent that a dragover of `target` with the cursor at `x` emits.
pub open spec fn dragover_intent(s: EngineState, target: ItemId, x: i32) -> Option<Intent> {
    match s.session {
        Some(ss) => if s.geometry.contains_key(target) {
            intent_for(s.order, ss.dragging, target, x < s.geometry[target].mid_x())
        } else {
            None
        },
        None => None,
    }
}

/// The state after a dragover: its intent, if any, offered to the queue.
pub open spec fn dragged_over(s: EngineState, target: ItemId, x: i32) -> EngineState {
    match dragover_intent(s, target, x) {
        Some(i) => pushed(s, i),
        None => s,
    }
}

/// The order after a drag is cancelled: the dragged item, moved or in limbo,
/// goes back to the slot it came from, or to the end where the order got
/// shorter.
pub open spec fn restored(order: Seq<ItemId>, ss: DragSession) -> Seq<ItemId> {
    let rest = without(order, ss.dragging);
    if ss.origin_slot <= rest.len() {
        placed(order, ss.origin_slot as int, ss.dragging)
    } else {
        placed(order, rest.len() as int, ss.dragging)
    }
}

/// The state after a dragend: with no drop queued, the session closes, the
/// queued intents are discarded and the dragged item goes back to its slot.
pub open spec fn drag_ended(s: EngineState) -> EngineState {
    match s.session {
        Some(ss) => if s.pending.contains(Intent::Drop) {
            s
        } else {
            EngineState {
                order: restored(s.order, ss),
                session: None,
                pending: match s.in_flight {
                    Some(i) => seq![i],
                    None => Seq::empty(),
                },
                queue: Seq::empty(),
                ..s
            }
        },
        None => s,
    }
}

/// The dock engine: Dock Order, Slot Geometry, Drag Session and the queue of
/// Reorder Intents, owned together and changed one event at a time.
pub struct DockData {
    order: DockOrder,
    geometry: GeometryTracker,
    session: Option<DragSession>,
    pending: Vec<Intent>,
    queue: Vec<Intent>,
    in_flight: Option<Intent>,
}

impl View for DockData {
    type V = EngineState;

    closed spec fn view(&self) -> EngineState {
        EngineState {
            order: self.order@,
            geometry: self.geometry@,
            session: self.session,
            pending: self.pending@,
            queue: self.queue@,
            in_flight: self.in_flight,
        }
    }
}

/// The first index of `i` in `v`.
fn find(v: &Vec<Intent>, i: Intent) -> (r: Option<usize>)
    ensures
        r is Some <==> v@.contains(i),
        r matches Some(k) ==> k < v@.len() && v@[k as int] == i,
{
    let mut k: usize = 0;
    while k < v.len()
        invariant
            k <= v@.len(),
            forall|j: int| 0 <= j < k ==> v@[j] != i,
        decreases v@.len() - k,
    {
        if v[k] == i {
            return Some(k);
        }
        k = k + 1;
    }
    None
}

/// Whether `v` holds `i`.
fn holds(v: &Vec<Intent>, i: Intent) -> (r: bool)
    ensures
        r == v@.contains(i),
{
    let mut k: usize = 0;
    while k < v.len()
        invariant
            k <= v@.len(),
            forall|j: int| 0 <= j < k ==> v@[j] != i,
        decreases v@.len() - k,
    {
        if v[k] == i {
            return true;
        }
        k = k + 1;
    }
    false
}

impl DockData {
    pub open spec fn wf(&self) -> bool {
        &&& state_wf(self@)
        &&& self.parts_wf()
    }

    pub closed spec fn parts_wf(&self) -> bool {
        self.geometry.wf()
    }

    /// An engine over `order`, with no geometry, no session and no intent.
    pub fn init(order: DockOrder) -> (r: DockData)
        requires
            order.wf(),
        ensures
            r.wf(),
            r@.order == order@,
            r@.geometry == Map::<ItemId, Rect>::empty(),
            r@.session is None,
            r@.pending.len() == 0,
            r@.queue.len() == 0,
            r@.in_flight is None,
    {
        DockData {
            order,
            geometry: GeometryTracker::new(),
            session: None,
            pending: Vec::new(),
            queue: Vec::new(),
            in_flight: None,
        }
    }

    /// The Dock Order, in slot order.
    pub fn order(&self) -> (r: Vec<ItemId>)
        ensures
            r@ == self@.order,
    {
        self.order.ids()
    }

    pub fn session(&self) -> (r: Option<DragSession>)
        ensures
            r == self@.session,
    {
        self.session
    }

    /// The queued intents, oldest first.
    pub fn queued(&self) -> (r: Vec<Intent>)
        ensures
            r@ == self@.queue,
    {
        let mut out: Vec<Intent> = Vec::new();
        let mut k: usize = 0;
        while k < self.queue.len()
            invariant
                k <= self.queue@.len(),
                out@ == self.queue@.subrange(0, k as int),
            decreases self.queue@.len() - k,
        {
            out.push(self.queue[k]);
            k = k + 1;
        }
        assert(out@ =~= self.queue@);
        out
    }

    pub fn in_flight(&self) -> (r: Option<Intent>)
        ensures
            r == self@.in_flight,
    {
        self.in_flight
    }

    /// Whether `i` is queued or in flight.
    pub fn is_pending(&self, i: Intent) -> (r: bool)
        ensures
            r == self@.pending.contains(i),
    {
        holds(&self.pending, i)
    }

    /// The slot index of `id` in the live order.
    pub fn index_of(&self, id: ItemId) -> (r: Option<usize>)
        requires
            self.wf(),
        ensures
            r is Some <==> self@.order.contains(id),
            r matches Some(i) ==> i == position_of(self@.order, id),
    {
        self.order.index_of(id)
    }

    /// Records the box of `id`, as measured after layout.
    pub fn record_geometry(&mut self, id: ItemId, rect: Rect)
        requires
            old(self).wf(),
        ensures
            final(self).wf(),
            final(self)@ == (EngineState {
                geometry: old(self)@.geometry.insert(id, rect),
                ..old(self)@
            }),
    {
        self.geometry.record(id, rect);
    }

    /// The box last recorded for `id`.
    pub fn geometry(&self, id: ItemId) -> (r: Option<Rect>)
        requires
            self.wf(),
        ensures
            r is Some <==> self@.geometry.contains_key(id),
            r matches Some(b) ==> b == self@.geometry[id],
    {
        self.geometry.get(id)
    }

    /// Offers `i` to the queue; an intent already pending is dropped.
    /// Returns whether it was queued.
    pub fn push(&mut self, i: Intent) -> (r: bool)
        requires
            old(self).wf(),
        ensures
            final(self).wf(),
            r == !old(self)@.pending.contains(i),
            final(self)@ == pushed(old(self)@, i),
    {
        proof {
            lemma_pushed_wf(self@, i);
        }
        if holds(&self.pending, i) {
            false
        } else {
            self.pending.push(i);
            self.queue.push(i);
            true
        }
    }
}

impl DockData {
    /// Applies the oldest queued intent, where no debounce window is open, and
    /// returns it; the caller closes its window after `SHIFT_TIME` with
    /// `debounce_elapsed`. Identifiers are resolved against the live order.
    pub fn process_next(&mut self) -> (r: Option<Intent>)
        requires
            old(self).wf(),
        ensures
            final(self).wf(),
            final(self)@ == stepped(old(self)@),
            r == (if old(self)@.in_flight is None && old(self)@.queue.len() > 0 {
                Some(old(self)@.queue[0])
            } else {
                None
            }),
    {
        if self.in_flight.is_some() || self.queue.len() == 0 {
            return None;
        }
        let ghost s0 = self@;
        let i = self.queue.remove(0);
        if let Some(ss) = self.session {
            proof {
                lemma_applied(self.order@, ss.dragging, i);
            }
            apply(&mut self.order, ss.dragging, i);
        }
        if i == Intent::Drop {
            self.session = None;
        }
        self.in_flight = Some(i);
        proof {
            let s = self@;
            assert(s.queue =~= s0.queue.drop_first());
            assert forall|a: int, b: int|
                0 <= a < s.queue.len() && 0 <= b < s.queue.len() && a != b implies s.queue[a]
                != s.queue[b] by {
                assert(s.queue[a] == s0.queue[a + 1]);
                assert(s.queue[b] == s0.queue[b + 1]);
            }
            assert forall|x: Intent| #[trigger] s0.queue.contains(x) <==> (s.queue.contains(x) || x == i) by {
                if s0.queue.contains(x) {
                    let k = choose|k: int| 0 <= k < s0.queue.len() && s0.queue[k] == x;
                    if k > 0 {
                        assert(s.queue[k - 1] == x);
                    }
                }
                if s.queue.contains(x) {
                    let k = choose|k: int| 0 <= k < s.queue.len() && s.queue[k] == x;
                    assert(s0.queue[k + 1] == x);
                }
            }
            if s.queue.contains(i) {
                let k = choose|k: int| 0 <= k < s.queue.len() && s.queue[k] == i;
                assert(s0.queue[k + 1] == i);
                assert(s0.queue[0] == i);
            }
            assert(s == stepped(s0));
        }
        Some(i)
    }

    /// Closes the debounce window of the intent in flight: it leaves the
    /// pending set, and the next queued intent may be applied.
    pub fn debounce_elapsed(&mut self)
        requires
            old(self).wf(),
        ensures
            final(self).wf(),
            final(self)@ == settled(old(self)@),
    {
        if let Some(i) = self.in_flight {
            let ghost s0 = self@;
            proof {
                lemma_without(s0.pending, i);
            }
            if let Some(k) = find(&self.pending, i) {
                proof {
                    crate::order::lemma_position_of(s0.pending, i, k as int);
                }
                self.pending.remove(k);
            }
            self.in_flight = None;
            proof {
                let s = self@;
                assert(s0.pending.contains(i));
                assert(s.pending == without(s0.pending, i));
                assert forall|x: Intent| #[trigger]
                    s.pending.contains(x) <==> (s.queue.contains(x) || s.in_flight == Some(x)) by {
                    assert(s.pending.to_set().contains(x) == s0.pending.to_set().remove(i).contains(x));
                }
            }
        }
    }

    /// Dragstart on `id` with the pointer at (`x`, `y`): opens a session,
    /// unless one is open, the item is not in the dock, sits in the leftmost
    /// slot, or has no recorded box; then nothing changes.
    pub fn begin_drag(&mut self, id: ItemId, x: i32, y: i32) -> (r: Result<(), DragError>)
        requires
            old(self).wf(),
        ensures
            final(self).wf(),
            match begin_error(old(self)@, id) {
                Some(e) => r == Err::<(), DragError>(e) && final(self)@ == old(self)@,
                None => r is Ok && final(self)@ == (EngineState {
                    session: Some(session_for(old(self)@, id, x, y)),
                    ..old(self)@
                }),
            },
    {
        if self.session.is_some() {
            return Err(DragError::SessionActive);
        }
        let idx = match self.order.index_of(id) {
            Some(idx) => idx,
            None => {
                return Err(DragError::NotInDock);
            },
        };
        if idx == 0 {
            return Err(DragError::AnchorSlot);
        }
        let rect = match self.geometry.get(id) {
            Some(rect) => rect,
            None => {
                return Err(DragError::NoGeometry);
            },
        };
        self.session = Some(
            DragSession {
                dragging: id,
                origin_slot: idx,
                offset_x: x as i64 - rect.left as i64,
                offset_y: y as i64 - rect.top as i64,
                pointer_x: x,
                pointer_y: y,
            },
        );
        Ok(())
    }

    /// Records the live pointer position of the open session.
    pub fn update_pointer(&mut self, x: i32, y: i32)
        requires
            old(self).wf(),
        ensures
            final(self).wf(),
            final(self)@ == (match old(self)@.session {
                Some(ss) => EngineState {
                    session: Some(DragSession { pointer_x: x, pointer_y: y, ..ss }),
                    ..old(self)@
                },
                None => old(self)@,
            }),
    {
        if let Some(ss) = self.session {
            self.session = Some(DragSession { pointer_x: x, pointer_y: y, ..ss });
        }
    }

    /// Dragover of the slot of `target` with the cursor at `x`: classifies
    /// the intent against the live order and the target's box, and offers it
    /// to the queue. Returns the intent classified.
    pub fn drag_over_icon(&mut self, target: ItemId, x: i32) -> (r: Option<Intent>)
        requires
            old(self).wf(),
        ensures
            final(self).wf(),
            r == dragover_intent(old(self)@, target, x),
            final(self)@ == dragged_over(old(self)@, target, x),
            old(self)@.session matches Some(ss) && ss.dragging == target ==> r is None
                && final(self)@ == old(self)@,
    {
        let ss = match self.session {
            Some(ss) => ss,
            None => {
                return None;
            },
        };
        let rect = match self.geometry.get(target) {
            Some(rect) => rect,
            None => {
                return None;
            },
        };
        let c = classify(&self.order, ss.dragging, target, rect.on_left_half(x));
        if let Some(i) = c {
            self.push(i);
        }
        c
    }

    /// The pointer left the dock: the dragged item is to leave the order.
    /// Returns the intent offered, if any.
    pub fn drag_out(&mut self) -> (r: Option<Intent>)
        requires
            old(self).wf(),
        ensures
            final(self).wf(),
            match old(self)@.session {
                Some(ss) => if old(self)@.order.contains(ss.dragging) {
                    r == Some(Intent::Remove(ss.dragging)) && final(self)@ == pushed(
                        old(self)@,
                        Intent::Remove(ss.dragging),
                    )
                } else {
                    r is None && final(self)@ == old(self)@
                },
                None => r is None && final(self)@ == old(self)@,
            },
    {
        if let Some(ss) = self.session {
            if self.order.contains(ss.dragging) {
                let i = Intent::Remove(ss.dragging);
                self.push(i);
                return Some(i);
            }
        }
        None
    }

    /// Drop on the dock: queues the intent that closes the session.
    pub fn drop(&mut self) -> (r: bool)
        requires
            old(self).wf(),
        ensures
            final(self).wf(),
            r == old(self)@.session is Some,
            final(self)@ == (if r {
                pushed(old(self)@, Intent::Drop)
            } else {
                old(self)@
            }),
    {
        if self.session.is_some() {
            self.push(Intent::Drop);
            true
        } else {
            false
        }
    }

    /// Dragend: where no drop is queued, the drag is cancelled and the item
    /// returns to the slot it came from.
    pub fn drag_end(&mut self)
        requires
            old(self).wf(),
        ensures
            final(self).wf(),
            final(self)@ == drag_ended(old(self)@),
    {
        let ss = match self.session {
            Some(ss) => ss,
            None => {
                return;
            },
        };
        if holds(&self.pending, Intent::Drop) {
            return;
        }
        let n = if self.order.contains(ss.dragging) {
            self.order.len() - 1
        } else {
            self.order.len()
        };
        proof {
            lemma_without(self.order@, ss.dragging);
            if ss.origin_slot <= n {
                lemma_placed(self.order@, ss.origin_slot as int, ss.dragging);
            } else {
                lemma_placed(self.order@, n as int, ss.dragging);
            }
        }
        if ss.origin_slot <= n {
            self.order.insert(ss.origin_slot, ss.dragging);
        } else {
            self.order.insert(n, ss.dragging);
        }
        self.session = None;
        self.queue = Vec::new();
        let mut pending: Vec<Intent> = Vec::new();
        if let Some(i) = self.in_flight {
            pending.push(i);
        }
        self.pending = pending;
        proof {
            let s = self@;
            assert(s.queue =~= Seq::<Intent>::empty());
            match s.in_flight {
                Some(i) => {
                    assert(s.pending =~= seq![i]);
                    assert forall|x: Intent| #[trigger] s.pending.contains(x) <==> x == i by {
                        if x == i {
                            assert(s.pending[0] == x);
                        }
                    }
                },
                None => assert(s.pending =~= Seq::<Intent>::empty()),
            }
        }
    }
}

} // verus!
