use vstd::prelude::*;

use crate::ids::ItemId;

verus! {

/// Index of `id` in `s`, or -1 where `s` does not hold it.
pub open spec fn position_of<A>(s: Seq<A>, id: A) -> int {
    if s.contains(id) {
        choose|i: int| 0 <= i < s.len() && s[i] == id
    } else {
        -1
    }
}

/// `s` with the entry `id` taken out, or `s` itself where `id` is absent.
pub open spec fn without<A>(s: Seq<A>, id: A) -> Seq<A> {
    if s.contains(id) {
        s.remove(position_of(s, id))
    } else {
        s
    }
}

/// `s` with the entries at `i` and `j` exchanged.
pub open spec fn swapped(s: Seq<ItemId>, i: int, j: int) -> Seq<ItemId> {
    s.update(i, s[j]).update(j, s[i])
}

/// `id` placed at `idx` of `s` once any earlier entry of `id` is taken out.
pub open spec fn placed(s: Seq<ItemId>, idx: int, id: ItemId) -> Seq<ItemId> {
    without(s, id).insert(idx, id)
}

pub proof fn lemma_position_of<A>(s: Seq<A>, id: A, i: int)
    requires
        s.no_duplicates(),
        0 <= i < s.len(),
        s[i] == id,
    ensures
        position_of(s, id) == i,
{
    assert(s.contains(id));
    let k = position_of(s, id);
    assert(0 <= k < s.len() && s[k] == id);
}

pub proof fn lemma_without<A>(s: Seq<A>, id: A)
    requires
        s.no_duplicates(),
    ensures
        without(s, id).no_duplicates(),
        without(s, id).to_set() == s.to_set().remove(id),
        !without(s, id).contains(id),
        s.contains(id) ==> without(s, id).len() == s.len() - 1,
        !s.contains(id) ==> without(s, id) == s,
{
    if s.contains(id) {
        let p = position_of(s, id);
        let r = s.remove(p);
        assert forall|x: A| #[trigger] r.contains(x) <==> (s.contains(x) && x != id) by {
            if r.contains(x) {
                let k = choose|k: int| 0 <= k < r.len() && r[k] == x;
                if k < p {
                    assert(s[k] == x);
                } else {
                    assert(s[k + 1] == x);
                }
            }
            if s.contains(x) && x != id {
                let k = choose|k: int| 0 <= k < s.len() && s[k] == x;
                if k < p {
                    assert(r[k] == x);
                } else {
                    assert(k != p);
                    assert(r[k - 1] == x);
                }
            }
        }
        assert(r.to_set() =~= s.to_set().remove(id));
    } else {
        assert(s.to_set() =~= s.to_set().remove(id));
    }
}

pub proof fn lemma_placed(s: Seq<ItemId>, idx: int, id: ItemId)
    requires
        s.no_duplicates(),
        0 <= idx <= without(s, id).len(),
    ensures
        placed(s, idx, id).no_duplicates(),
        placed(s, idx, id).to_set() == s.to_set().insert(id),
        placed(s, idx, id)[idx] == id,
        placed(s, idx, id).len() == without(s, id).len() + 1,
{
    lemma_without(s, id);
    let w = without(s, id);
    let r = w.insert(idx, id);
    assert forall|x: ItemId| #[trigger] r.contains(x) <==> (w.contains(x) || x == id) by {
        if r.contains(x) {
            let k = choose|k: int| 0 <= k < r.len() && r[k] == x;
            if k < idx {
                assert(w[k] == x);
            } else if k > idx {
                assert(w[k - 1] == x);
            }
        }
        if w.contains(x) {
            let k = choose|k: int| 0 <= k < w.len() && w[k] == x;
            if k < idx {
                assert(r[k] == x);
            } else {
                assert(r[k + 1] == x);
            }
        }
        if x == id {
            assert(r[idx] == x);
        }
    }
    assert(r.to_set() =~= s.to_set().insert(id));
    assert forall|i: int, j: int| 0 <= i < r.len() && 0 <= j < r.len() && i != j implies r[i]
        != r[j] by {
        if i == idx {
            if j < idx {
                assert(w[j] == r[j]);
            } else {
                assert(w[j - 1] == r[j]);
            }
        } else if j == idx {
            if i < idx {
                assert(w[i] == r[i]);
            } else {
                assert(w[i - 1] == r[i]);
            }
        } else {
            let wi = if i < idx { i } else { i - 1 };
            let wj = if j < idx { j } else { j - 1 };
            assert(w[wi] == r[i]);
            assert(w[wj] == r[j]);
        }
    }
}

pub proof fn lemma_swapped(s: Seq<ItemId>, i: int, j: int)
    requires
        s.no_duplicates(),
        0 <= i < s.len(),
        0 <= j < s.len(),
    ensures
        swapped(s, i, j).no_duplicates(),
        swapped(s, i, j).to_set() == s.to_set(),
        swapped(s, i, j).len() == s.len(),
{
    let r = swapped(s, i, j);
    let f = |k: int|
        if k == i {
            j
        } else if k == j {
            i
        } else {
            k
        };
    assert forall|k: int| 0 <= k < s.len() implies r[k] == s[f(k)] by {}
    assert forall|x: ItemId| #[trigger] r.contains(x) <==> s.contains(x) by {
        if r.contains(x) {
            let k = choose|k: int| 0 <= k < r.len() && r[k] == x;
            assert(s[f(k)] == x);
        }
        if s.contains(x) {
            let k = choose|k: int| 0 <= k < s.len() && s[k] == x;
            assert(r[f(k)] == x);
        }
    }
    assert(r.to_set() =~= s.to_set());
}

/// The Dock Order: the ordered identifiers of the dock, without duplicates.
pub struct DockOrder {
    ids: Vec<ItemId>,
}

impl View for DockOrder {
    type V = Seq<ItemId>;

    closed spec fn view(&self) -> Seq<ItemId> {
        self.ids@
    }
}

impl DockOrder {
    pub open spec fn wf(&self) -> bool {
        self@.no_duplicates()
    }

    /// Builds the order from a caller's list; `None` where the list repeats an
    /// identifier.
    pub fn new(list: Vec<ItemId>) -> (r: Option<DockOrder>)
        ensures
            r is Some <==> list@.no_duplicates(),
            r matches Some(o) ==> o@ == list@ && o.wf(),
    {
        let n = list.len();
        let mut i: usize = 0;
        while i < n
            invariant
                n == list@.len(),
                i <= n,
                forall|a: int, b: int| 0 <= a < i && 0 <= b < n && a != b ==> list@[a] != list@[b],
            decreases n - i,
        {
            let mut j: usize = 0;
            while j < n
                invariant
                    n == list@.len(),
                    i < n,
                    j <= n,
                    forall|a: int, b: int|
                        0 <= a < i && 0 <= b < n && a != b ==> list@[a] != list@[b],
                    forall|b: int| 0 <= b < j && b != i ==> list@[i as int] != list@[b],
                decreases n - j,
            {
                if j != i && list[i] == list[j] {
                    assert(!list@.no_duplicates());
                    return None;
                }
                j = j + 1;
            }
            i = i + 1;
        }
        Some(DockOrder { ids: list })
    }

    pub fn len(&self) -> (r: usize)
        ensures
            r == self@.len(),
    {
        self.ids.len()
    }

    /// The identifier at slot `idx`.
    pub fn get(&self, idx: usize) -> (r: Option<ItemId>)
        ensures
            idx < self@.len() ==> r == Some(self@[idx as int]),
            idx >= self@.len() ==> r is None,
    {
        if idx < self.ids.len() {
            Some(self.ids[idx])
        } else {
            None
        }
    }

    /// A copy of the identifiers, in slot order.
    pub fn ids(&self) -> (r: Vec<ItemId>)
        ensures
            r@ == self@,
    {
        let mut out: Vec<ItemId> = Vec::new();
        let mut i: usize = 0;
        while i < self.ids.len()
            invariant
                i <= self.ids@.len(),
                out@ == self.ids@.subrange(0, i as int),
            decreases self.ids@.len() - i,
        {
            out.push(self.ids[i]);
            i = i + 1;
        }
        assert(out@ =~= self.ids@);
        out
    }

    /// The slot index of `id`, resolved against the live order.
    pub fn index_of(&self, id: ItemId) -> (r: Option<usize>)
        requires
            self.wf(),
        ensures
            r is Some <==> self@.contains(id),
            r matches Some(i) ==> i == position_of(self@, id) && self@[i as int] == id,
    {
        let mut i: usize = 0;
        while i < self.ids.len()
            invariant
                self.wf(),
                i <= self.ids@.len(),
                forall|k: int| 0 <= k < i ==> self.ids@[k] != id,
            decreases self.ids@.len() - i,
        {
            if self.ids[i] == id {
                proof {
                    lemma_position_of(self@, id, i as int);
                }
                return Some(i);
            }
            i = i + 1;
        }
        None
    }

    pub fn contains(&self, id: ItemId) -> (r: bool)
        requires
            self.wf(),
        ensures
            r == self@.contains(id),
    {
        self.index_of(id).is_some()
    }

    /// Exchanges the entries at slots `i` and `j`.
    pub fn swap(&mut self, i: usize, j: usize)
        requires
            old(self).wf(),
            i < old(self)@.len(),
            j < old(self)@.len(),
        ensures
            final(self).wf(),
            final(self)@ == swapped(old(self)@, i as int, j as int),
            final(self)@.to_set() == old(self)@.to_set(),
    {
        let a = self.ids[i];
        let b = self.ids[j];
        self.ids.set(i, b);
        self.ids.set(j, a);
        proof {
            lemma_swapped(old(self)@, i as int, j as int);
        }
    }

    /// Takes `id` out of the order; `false` where it was not there.
    pub fn remove(&mut self, id: ItemId) -> (r: bool)
        requires
            old(self).wf(),
        ensures
            r == old(self)@.contains(id),
            final(self).wf(),
            final(self)@ == without(old(self)@, id),
            final(self)@.to_set() == old(self)@.to_set().remove(id),
    {
        proof {
            lemma_without(self@, id);
        }
        match self.index_of(id) {
            Some(i) => {
                self.ids.remove(i);
                true
            },
            None => false,
        }
    }

    /// Places `id` at slot `idx`, first taking out any earlier entry of it, so
    /// that the order never holds a duplicate.
    pub fn insert(&mut self, idx: usize, id: ItemId)
        requires
            old(self).wf(),
            idx <= without(old(self)@, id).len(),
        ensures
            final(self).wf(),
            final(self)@ == placed(old(self)@, idx as int, id),
            final(self)@.to_set() == old(self)@.to_set().insert(id),
    {
        proof {
            lemma_placed(self@, idx as int, id);
        }
        self.remove(id);
        self.ids.insert(idx, id);
    }
}

} // verus!
