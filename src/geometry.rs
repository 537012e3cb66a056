use vstd::prelude::*;

use crate::ids::ItemId;

verus! {

/// A slot's box in viewport pixels.
#[derive(Clone, Copy, Debug, PartialEq, Eq, Structural)]
pub struct Rect {
    pub left: i32,
    pub top: i32,
    pub width: u32,
}

impl Rect {
    /// The horizontal middle of the box, rounded down as integer pixels are.
    pub open spec fn mid_x(self) -> int {
        self.left + self.width / 2
    }

    /// Whether `x` lies on the left half of the box.
    pub fn on_left_half(&self, x: i32) -> (r: bool)
        ensures
            r == (x < self.mid_x()),
    {
        (x as i64) < (self.left as i64) + ((self.width / 2) as i64)
    }
}

/// Whether the keys of `e` are pairwise distinct.
pub open spec fn keys_unique(e: Seq<(ItemId, Rect)>) -> bool {
    forall|i: int, j: int| 0 <= i < e.len() && 0 <= j < e.len() && i != j ==> e[i].0 != e[j].0
}

/// Whether some entry of `e` has the key `k`.
pub open spec fn has_key(e: Seq<(ItemId, Rect)>, k: ItemId) -> bool {
    exists|i: int| 0 <= i < e.len() && e[i].0 == k
}

/// The map that the entries `e` stand for.
pub open spec fn entries_map(e: Seq<(ItemId, Rect)>) -> Map<ItemId, Rect> {
    Map::new(
        |k: ItemId| has_key(e, k),
        |k: ItemId| e[choose|i: int| 0 <= i < e.len() && e[i].0 == k].1,
    )
}

proof fn lemma_entry(e: Seq<(ItemId, Rect)>, i: int)
    requires
        keys_unique(e),
        0 <= i < e.len(),
    ensures
        entries_map(e).contains_key(e[i].0),
        entries_map(e)[e[i].0] == e[i].1,
{
    let k = e[i].0;
    assert(has_key(e, k));
    let c = choose|c: int| 0 <= c < e.len() && e[c].0 == k;
    assert(c == i);
}

/// The Geometry Tracker: the last box recorded for each item.
pub struct GeometryTracker {
    entries: Vec<(ItemId, Rect)>,
}

impl View for GeometryTracker {
    type V = Map<ItemId, Rect>;

    closed spec fn view(&self) -> Map<ItemId, Rect> {
        entries_map(self.entries@)
    }
}

impl GeometryTracker {
    pub closed spec fn wf(&self) -> bool {
        keys_unique(self.entries@)
    }

    pub fn new() -> (r: GeometryTracker)
        ensures
            r.wf(),
            r@ == Map::<ItemId, Rect>::empty(),
    {
        let r = GeometryTracker { entries: Vec::new() };
        assert(r@ =~= Map::<ItemId, Rect>::empty());
        r
    }

    /// Stores `rect` for `id`, over any box recorded before.
    pub fn record(&mut self, id: ItemId, rect: Rect)
        requires
            old(self).wf(),
        ensures
            final(self).wf(),
            final(self)@ == old(self)@.insert(id, rect),
    {
        let ghost e0 = self.entries@;
        let n = self.entries.len();
        let mut i: usize = 0;
        while i < n
            invariant
                n == self.entries@.len(),
                self.entries@ == e0,
                old(self).entries@ == e0,
                keys_unique(e0),
                i <= n,
                forall|k: int| 0 <= k < i ==> e0[k].0 != id,
            decreases n - i,
        {
            if self.entries[i].0 == id {
                self.entries.set(i, (id, rect));
                proof {
                    let e1 = self.entries@;
                    assert(keys_unique(e1));
                    assert forall|k: ItemId| #[trigger] has_key(e1, k) == has_key(e0, k) by {
                        if has_key(e0, k) {
                            let c = choose|c: int| 0 <= c < e0.len() && e0[c].0 == k;
                            assert(e1[c].0 == k);
                        }
                        if has_key(e1, k) {
                            let c = choose|c: int| 0 <= c < e1.len() && e1[c].0 == k;
                            assert(e0[c].0 == k);
                        }
                    }
                    assert forall|k: ItemId| #[trigger]
                        entries_map(e1).contains_key(k) implies entries_map(e1)[k]
                        == entries_map(e0).insert(id, rect)[k] by {
                        let c = choose|c: int| 0 <= c < e1.len() && e1[c].0 == k;
                        lemma_entry(e1, c);
                        if k != id {
                            assert(e0[c] == e1[c]);
                            lemma_entry(e0, c);
                        }
                    }
                    assert(entries_map(e1) =~= entries_map(e0).insert(id, rect));
                }
                return;
            }
            i = i + 1;
        }
        self.entries.push((id, rect));
        proof {
            let e1 = self.entries@;
            assert(!has_key(e0, id));
            assert(keys_unique(e1));
            assert forall|k: ItemId| #[trigger] has_key(e1, k) == (has_key(e0, k) || k == id) by {
                if has_key(e0, k) {
                    let c = choose|c: int| 0 <= c < e0.len() && e0[c].0 == k;
                    assert(e1[c].0 == k);
                }
                if has_key(e1, k) {
                    let c = choose|c: int| 0 <= c < e1.len() && e1[c].0 == k;
                    if c < e0.len() {
                        assert(e0[c].0 == k);
                    }
                }
                if k == id {
                    assert(e1[n as int].0 == k);
                }
            }
            assert forall|k: ItemId| #[trigger]
                entries_map(e1).contains_key(k) implies entries_map(e1)[k] == entries_map(
                e0,
            ).insert(id, rect)[k] by {
                let c = choose|c: int| 0 <= c < e1.len() && e1[c].0 == k;
                lemma_entry(e1, c);
                if k != id {
                    assert(c < e0.len());
                    assert(e0[c] == e1[c]);
                    lemma_entry(e0, c);
                }
            }
            assert(entries_map(e1) =~= entries_map(e0).insert(id, rect));
        }
    }

    /// The box last recorded for `id`, if any.
    pub fn get(&self, id: ItemId) -> (r: Option<Rect>)
        requires
            self.wf(),
        ensures
            r is Some <==> self@.contains_key(id),
            r matches Some(b) ==> b == self@[id],
    {
        let n = self.entries.len();
        let mut i: usize = 0;
        while i < n
            invariant
                n == self.entries@.len(),
                keys_unique(self.entries@),
                i <= n,
                forall|k: int| 0 <= k < i ==> self.entries@[k].0 != id,
            decreases n - i,
        {
            if self.entries[i].0 == id {
                proof {
                    lemma_entry(self.entries@, i as int);
                }
                return Some(self.entries[i].1);
            }
            i = i + 1;
        }
        None
    }
}

} // verus!
