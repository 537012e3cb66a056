use vstd::prelude::*;

use crate::ids::ItemId;

verus! {

/// A running application: when it started (milliseconds), its place in the
/// window stack (1 at the bottom) and whether it is minimized.
#[derive(Clone, Copy, Debug, PartialEq, Eq, Structural, Default)]
pub struct ActiveProcess {
    pub start_time: u64,
    pub window_stack_idx: usize,
    pub minimized: bool,
}

/// Whether some entry of `e` is for `id`.
pub open spec fn runs(e: Seq<(ItemId, ActiveProcess)>, id: ItemId) -> bool {
    exists|k: int| 0 <= k < e.len() && e[k].0 == id
}

/// The entries after `id` is started at `time`: its entry, new or replacing an
/// earlier one in place, is on top of a stack counted before the start.
pub open spec fn started(e: Seq<(ItemId, ActiveProcess)>, id: ItemId, time: u64) -> Seq<
    (ItemId, ActiveProcess),
> {
    let p = ActiveProcess { start_time: time, window_stack_idx: (e.len() + 1) as usize, minimized: false };
    if runs(e, id) {
        e.update(choose|k: int| 0 <= k < e.len() && e[k].0 == id, (id, p))
    } else {
        e.push((id, p))
    }
}

/// `p` with one place less in the window stack, where it stood above `idx`.
pub open spec fn lowered(p: ActiveProcess, idx: usize) -> ActiveProcess {
    if p.window_stack_idx > idx {
        ActiveProcess { window_stack_idx: (p.window_stack_idx - 1) as usize, ..p }
    } else {
        p
    }
}

/// Whether the window stack places of `e` never go down.
pub open spec fn stack_sorted(e: Seq<(ItemId, ActiveProcess)>) -> bool {
    forall|a: int, b: int|
        0 <= a < b < e.len() ==> e[a].1.window_stack_idx <= e[b].1.window_stack_idx
}

proof fn lemma_insert_multiset(s: Seq<(ItemId, ActiveProcess)>, k: int, x: (ItemId, ActiveProcess))
    requires
        0 <= k <= s.len(),
    ensures
        s.insert(k, x).to_multiset() =~= s.to_multiset().insert(x),
{
    let t = s.insert(k, x);
    assert(t.remove(k) =~= s);
    t.to_multiset_ensures();
    assert(t[k] == x);
    assert(t.contains(x));
    assert(t.to_multiset().count(x) > 0);
    assert(s.to_multiset() =~= t.to_multiset().remove(x));
    assert(t.to_multiset() =~= t.to_multiset().remove(x).insert(x));
}

/// The applications that run, each with its process, in the order they were
/// first started.
pub struct ActiveProccesses {
    entries: Vec<(ItemId, ActiveProcess)>,
}

impl View for ActiveProccesses {
    type V = Seq<(ItemId, ActiveProcess)>;

    closed spec fn view(&self) -> Seq<(ItemId, ActiveProcess)> {
        self.entries@
    }
}

impl ActiveProccesses {
    /// Whether no application has two entries.
    pub open spec fn wf(&self) -> bool {
        forall|a: int, b: int|
            0 <= a < self@.len() && 0 <= b < self@.len() && a != b ==> self@[a].0 != self@[b].0
    }

    pub fn new() -> (r: ActiveProccesses)
        ensures
            r.wf(),
            r@.len() == 0,
    {
        ActiveProccesses { entries: Vec::new() }
    }

    pub fn len(&self) -> (r: usize)
        ensures
            r == self@.len(),
    {
        self.entries.len()
    }

    /// The index of the entry of `id`.
    fn find(&self, id: ItemId) -> (r: Option<usize>)
        ensures
            r is Some <==> runs(self@, id),
            r matches Some(k) ==> k < self@.len() && self@[k as int].0 == id,
    {
        let mut k: usize = 0;
        while k < self.entries.len()
            invariant
                k <= self.entries@.len(),
                forall|j: int| 0 <= j < k ==> self.entries@[j].0 != id,
            decreases self.entries@.len() - k,
        {
            if self.entries[k].0 == id {
                return Some(k);
            }
            k = k + 1;
        }
        None
    }

    pub fn is_running(&self, id: ItemId) -> (r: bool)
        ensures
            r == runs(self@, id),
    {
        self.find(id).is_some()
    }

    /// The process of `id`, if it runs.
    pub fn get(&self, id: ItemId) -> (r: Option<ActiveProcess>)
        requires
            self.wf(),
        ensures
            r is Some <==> runs(self@, id),
            r matches Some(p) ==> exists|k: int| 0 <= k < self@.len() && self@[k] == (id, p),
    {
        match self.find(id) {
            Some(k) => Some(self.entries[k].1),
            None => None,
        }
    }

    /// The entries from the bottom of the window stack to its top; entries
    /// with the same place keep their order.
    pub fn by_stack(&self) -> (r: Vec<(ItemId, ActiveProcess)>)
        ensures
            stack_sorted(r@),
            r@.to_multiset() == self@.to_multiset(),
    {
        let mut out: Vec<(ItemId, ActiveProcess)> = Vec::new();
        let mut i: usize = 0;
        assert(out@ =~= self.entries@.subrange(0, 0));
        while i < self.entries.len()
            invariant
                i <= self.entries@.len(),
                stack_sorted(out@),
                out@.to_multiset() == self.entries@.subrange(0, i as int).to_multiset(),
            decreases self.entries@.len() - i,
        {
            let e = self.entries[i];
            let mut k: usize = 0;
            while k < out.len() && out[k].1.window_stack_idx <= e.1.window_stack_idx
                invariant
                    k <= out@.len(),
                    forall|a: int| 0 <= a < k ==> out@[a].1.window_stack_idx <= e.1.window_stack_idx,
                decreases out@.len() - k,
            {
                k = k + 1;
            }
            proof {
                lemma_insert_multiset(out@, k as int, e);
                let prefix = self.entries@.subrange(0, i as int);
                assert(self.entries@.subrange(0, i + 1) =~= prefix.push(e));
                prefix.to_multiset_ensures();
            }
            let ghost before = out@;
            out.insert(k, e);
            proof {
                assert forall|a: int, b: int| 0 <= a < b < out@.len() implies out@[a].1.window_stack_idx
                    <= out@[b].1.window_stack_idx by {
                    if b < k {
                    } else if b == k {
                        assert(out@[a] == before[a]);
                    } else if a < k {
                        assert(out@[a] == before[a]);
                        assert(out@[b] == before[b - 1]);
                        if (k as int) < before.len() {
                            assert(before[k as int].1.window_stack_idx > e.1.window_stack_idx);
                            assert(before[k as int].1.window_stack_idx <= before[b - 1].1.window_stack_idx);
                        }
                    } else if a == k {
                        assert(out@[b] == before[b - 1]);
                        assert(before[k as int].1.window_stack_idx > e.1.window_stack_idx);
                        assert(before[k as int].1.window_stack_idx <= before[b - 1].1.window_stack_idx);
                    } else {
                        assert(out@[a] == before[a - 1]);
                        assert(out@[b] == before[b - 1]);
                    }
                }
            }
            i = i + 1;
        }
        assert(self.entries@.subrange(0, self.entries@.len() as int) =~= self.entries@);
        out
    }

    /// Starts `id` at `time` on top of the window stack.
    pub fn run_app(&mut self, id: ItemId, time: u64)
        requires
            old(self).wf(),
            old(self)@.len() < usize::MAX,
        ensures
            final(self).wf(),
            final(self)@ == started(old(self)@, id, time),
    {
        let p = ActiveProcess {
            start_time: time,
            window_stack_idx: self.entries.len() + 1,
            minimized: false,
        };
        match self.find(id) {
            Some(k) => {
                let ghost c = choose|c: int| 0 <= c < self@.len() && self@[c].0 == id;
                assert(c == k);
                self.entries.set(k, (id, p));
            },
            None => {
                self.entries.push((id, p));
            },
        }
    }

    /// Stops `id`: its entry goes, and every window above it moves one place
    /// down the stack. Returns whether it ran.
    pub fn close_app(&mut self, id: ItemId) -> (r: bool)
        requires
            old(self).wf(),
        ensures
            final(self).wf(),
            r == runs(old(self)@, id),
            !r ==> final(self)@ == old(self)@,
            r ==> exists|k: int|
                0 <= k < old(self)@.len() && old(self)@[k].0 == id && final(self)@.len()
                    == old(self)@.len() - 1 && forall|j: int|
                    0 <= j < final(self)@.len() ==> #[trigger] final(self)@[j] == {
                        let q = old(self)@.remove(k)[j];
                        (q.0, lowered(q.1, old(self)@[k].1.window_stack_idx))
                    },
    {
        let k = match self.find(id) {
            Some(k) => k,
            None => {
                return false;
            },
        };
        let ghost e0 = self@;
        let (_, gone) = self.entries.remove(k);
        let idx = gone.window_stack_idx;
        let ghost e1 = self@;
        assert(e1 == e0.remove(k as int));
        let n = self.entries.len();
        let mut j: usize = 0;
        while j < n
            invariant
                n == self.entries@.len(),
                n == e1.len(),
                j <= n,
                forall|a: int| 0 <= a < j ==> #[trigger] self.entries@[a] == (e1[a].0, lowered(e1[a].1, idx)),
                forall|a: int| j <= a < n ==> #[trigger] self.entries@[a] == e1[a],
            decreases n - j,
        {
            let (key, p) = self.entries[j];
            if p.window_stack_idx > idx {
                self.entries.set(
                    j,
                    (key, ActiveProcess { window_stack_idx: p.window_stack_idx - 1, ..p }),
                );
            }
            j = j + 1;
        }
        proof {
            assert forall|a: int, b: int|
                0 <= a < self@.len() && 0 <= b < self@.len() && a != b implies self@[a].0
                != self@[b].0 by {
                let a0 = if a < k { a } else { a + 1 };
                let b0 = if b < k { b } else { b + 1 };
                assert(self@[a].0 == e0[a0].0);
                assert(self@[b].0 == e0[b0].0);
            }
        }
        true
    }
}

} // verus!
