//! Tables from outstanding operation ids to reply tickets.
//!
//! The event loop matches every accepted command to its eventual asynchronous
//! outcome through an opaque id (a query id, a request id, or the dialed
//! peer).  Each pending table maps such an id to the ticket of the reply sink
//! that the command arrived with.  An entry is inserted exactly when a command
//! is accepted and removed exactly when the terminal outcome for its id
//! arrives or the loop shuts down; no two entries share an id.

use vstd::prelude::*;

verus! {

/// Map built from an association list, later entries taking precedence.
pub open spec fn seq_to_map(s: Seq<(u64, u64)>) -> Map<u64, u64>
    decreases s.len(),
{
    if s.len() == 0 {
        Map::empty()
    } else {
        seq_to_map(s.drop_last()).insert(s.last().0, s.last().1)
    }
}

/// No two entries of the list share a key.
pub open spec fn distinct_keys(s: Seq<(u64, u64)>) -> bool {
    forall|i: int, j: int| 0 <= i < j < s.len() ==> (#[trigger] s[i]).0 != (#[trigger] s[j]).0
}

/// A key is in the map exactly when some entry of the list holds it.
pub proof fn lemma_seq_to_map_dom(s: Seq<(u64, u64)>, k: u64)
    ensures
        seq_to_map(s).dom().contains(k) <==> exists|i: int|
            0 <= i < s.len() && (#[trigger] s[i]).0 == k,
    decreases s.len(),
{
    if s.len() > 0 {
        lemma_seq_to_map_dom(s.drop_last(), k);
        if seq_to_map(s).dom().contains(k) {
            if s.last().0 != k {
                let i = choose|i: int| 0 <= i < s.drop_last().len() && (#[trigger] s.drop_last()[i]).0 == k;
                assert(s[i].0 == k);
            }
        }
        if exists|i: int| 0 <= i < s.len() && (#[trigger] s[i]).0 == k {
            let i = choose|i: int| 0 <= i < s.len() && (#[trigger] s[i]).0 == k;
            if i < s.len() - 1 {
                assert(s.drop_last()[i].0 == k);
            }
        }
    }
}

/// Under distinct keys, each entry of the list is mapped to its own value.
pub proof fn lemma_seq_to_map_index(s: Seq<(u64, u64)>, i: int)
    requires
        distinct_keys(s),
        0 <= i < s.len(),
    ensures
        seq_to_map(s).dom().contains(s[i].0),
        seq_to_map(s)[s[i].0] == s[i].1,
    decreases s.len(),
{
    lemma_seq_to_map_dom(s, s[i].0);
    if i < s.len() - 1 {
        assert(s.drop_last()[i] == s[i]);
        lemma_seq_to_map_index(s.drop_last(), i);
    }
}

/// Under distinct keys, removing the entry at `i` removes its key from the map.
pub proof fn lemma_seq_to_map_remove(s: Seq<(u64, u64)>, i: int)
    requires
        distinct_keys(s),
        0 <= i < s.len(),
    ensures
        seq_to_map(s.remove(i)) =~= seq_to_map(s).remove(s[i].0),
    decreases s.len(),
{
    lemma_seq_to_map_dom(s.drop_last(), s[i].0);
    if i == s.len() - 1 {
        assert(s.remove(i) =~= s.drop_last());
        assert(!seq_to_map(s.drop_last()).dom().contains(s[i].0));
        assert(seq_to_map(s.drop_last()).insert(s.last().0, s.last().1).remove(s.last().0)
            =~= seq_to_map(s.drop_last()));
    } else {
        assert(s.remove(i).drop_last() =~= s.drop_last().remove(i));
        lemma_seq_to_map_remove(s.drop_last(), i);
        assert(s.remove(i).last() == s.last());
        assert(seq_to_map(s.remove(i))
            == seq_to_map(s.drop_last().remove(i)).insert(s.last().0, s.last().1));
    }
}

/// Under distinct keys, the map has as many keys as the list has entries.
pub proof fn lemma_seq_to_map_len(s: Seq<(u64, u64)>)
    requires
        distinct_keys(s),
    ensures
        seq_to_map(s).dom().finite(),
        seq_to_map(s).dom().len() == s.len(),
    decreases s.len(),
{
    if s.len() > 0 {
        lemma_seq_to_map_len(s.drop_last());
        lemma_seq_to_map_dom(s.drop_last(), s.last().0);
        assert(!seq_to_map(s.drop_last()).dom().contains(s.last().0));
    }
}

/// A table from outstanding operation ids to reply tickets.
pub struct PendingTable {
    entries: Vec<(u64, u64)>,
}

impl View for PendingTable {
    type V = Map<u64, u64>;

    closed spec fn view(&self) -> Map<u64, u64> {
        seq_to_map(self.entries@)
    }
}

impl PendingTable {
    /// The representation holds no two entries with the same id.
    pub closed spec fn wf(&self) -> bool {
        distinct_keys(self.entries@)
    }

    /// An empty table.
    pub fn new() -> (t: PendingTable)
        ensures
            t.wf(),
            t@ =~= Map::<u64, u64>::empty(),
    {
        PendingTable { entries: Vec::new() }
    }

    /// How many operations are outstanding.
    pub fn len(&self) -> (n: usize)
        requires
            self.wf(),
        ensures
            n == self@.dom().len(),
    {
        proof {
            lemma_seq_to_map_len(self.entries@);
        }
        self.entries.len()
    }

    /// Whether the id `k` has an outstanding entry.
    pub fn contains(&self, k: u64) -> (r: bool)
        ensures
            r == self@.dom().contains(k),
    {
        proof {
            lemma_seq_to_map_dom(self.entries@, k);
        }
        let n = self.entries.len();
        let mut i: usize = 0;
        while i < n
            invariant
                0 <= i <= n,
                n == self.entries@.len(),
                forall|j: int| 0 <= j < i ==> (#[trigger] self.entries@[j]).0 != k,
            decreases n - i,
        {
            if self.entries[i].0 == k {
                proof {
                    lemma_seq_to_map_dom(self.entries@, k);
                    assert(0 <= i < self.entries@.len() && self.entries@[i as int].0 == k);
                }
                return true;
            }
            i = i + 1;
        }
        false
    }

    /// The ticket registered for the id `k`, if any.
    pub fn get(&self, k: u64) -> (r: Option<u64>)
        requires
            self.wf(),
        ensures
            match r {
                Some(v) => self@.dom().contains(k) && self@[k] == v,
                None => !self@.dom().contains(k),
            },
    {
        proof {
            lemma_seq_to_map_dom(self.entries@, k);
        }
        let n = self.entries.len();
        let mut i: usize = 0;
        while i < n
            invariant
                0 <= i <= n,
                n == self.entries@.len(),
                self.wf(),
                forall|j: int| 0 <= j < i ==> (#[trigger] self.entries@[j]).0 != k,
            decreases n - i,
        {
            if self.entries[i].0 == k {
                proof {
                    lemma_seq_to_map_index(self.entries@, i as int);
                }
                return Some(self.entries[i].1);
            }
            i = i + 1;
        }
        None
    }

    /// Register the ticket `v` for the fresh id `k`.
    pub fn insert(&mut self, k: u64, v: u64)
        requires
            old(self).wf(),
            !old(self)@.dom().contains(k),
        ensures
            final(self).wf(),
            final(self)@ =~= old(self)@.insert(k, v),
    {
        proof {
            lemma_seq_to_map_dom(self.entries@, k);
            assert(forall|i: int|
                0 <= i < self.entries@.len() ==> (#[trigger] self.entries@[i]).0 != k);
        }
        self.entries.push((k, v));
        proof {
            assert(self.entries@.drop_last() =~= old(self).entries@);
        }
    }

    /// Remove the entry for the id `k` and hand its ticket back, if one was
    /// registered.
    pub fn remove(&mut self, k: u64) -> (r: Option<u64>)
        requires
            old(self).wf(),
        ensures
            final(self).wf(),
            final(self)@ =~= old(self)@.remove(k),
            match r {
                Some(v) => old(self)@.dom().contains(k) && old(self)@[k] == v,
                None => !old(self)@.dom().contains(k) && final(self)@ =~= old(self)@,
            },
    {
        proof {
            lemma_seq_to_map_dom(self.entries@, k);
        }
        let n = self.entries.len();
        let mut i: usize = 0;
        while i < n
            invariant
                0 <= i <= n,
                n == self.entries@.len(),
                self.wf(),
                self == old(self),
                forall|j: int| 0 <= j < i ==> (#[trigger] self.entries@[j]).0 != k,
            decreases n - i,
        {
            if self.entries[i].0 == k {
                proof {
                    lemma_seq_to_map_index(self.entries@, i as int);
                    lemma_seq_to_map_remove(self.entries@, i as int);
                }
                let v = self.entries[i].1;
                self.entries.remove(i);
                proof {
                    assert(forall|a: int, b: int|
                        0 <= a < b < self.entries@.len() ==> (#[trigger] self.entries@[a]).0
                            != (#[trigger] self.entries@[b]).0);
                }
                return Some(v);
            }
            i = i + 1;
        }
        proof {
            assert(self@ =~= old(self)@.remove(k));
        }
        None
    }

    /// All registered tickets, one for each outstanding id.
    pub fn tickets(&self) -> (r: Vec<u64>)
        requires
            self.wf(),
        ensures
            r@.len() == self@.dom().len(),
            forall|j: int| 0 <= j < r@.len() ==> exists|k: u64|
                self@.dom().contains(k) && self@[k] == #[trigger] r@[j],
            forall|k: u64| #[trigger]
                self@.dom().contains(k) ==> exists|j: int| 0 <= j < r@.len() && r@[j] == self@[k],
    {
        proof {
            lemma_seq_to_map_len(self.entries@);
        }
        let n = self.entries.len();
        let mut r: Vec<u64> = Vec::new();
        let mut i: usize = 0;
        while i < n
            invariant
                0 <= i <= n,
                n == self.entries@.len(),
                self.wf(),
                r@.len() == i,
                forall|j: int| 0 <= j < i ==> r@[j] == (#[trigger] self.entries@[j]).1,
            decreases n - i,
        {
            r.push(self.entries[i].1);
            i = i + 1;
        }
        proof {
            assert forall|j: int| 0 <= j < r@.len() implies exists|k: u64|
                self@.dom().contains(k) && self@[k] == #[trigger] r@[j] by {
                lemma_seq_to_map_index(self.entries@, j);
                assert(self@.dom().contains(self.entries@[j].0) && self@[self.entries@[j].0]
                    == r@[j]);
            }
            assert forall|k: u64| #[trigger] self@.dom().contains(k) implies exists|j: int|
                0 <= j < r@.len() && r@[j] == self@[k] by {
                lemma_seq_to_map_dom(self.entries@, k);
                let i0 = choose|i0: int|
                    0 <= i0 < self.entries@.len() && (#[trigger] self.entries@[i0]).0 == k;
                lemma_seq_to_map_index(self.entries@, i0);
                assert(r@[i0] == self@[k]);
            }
        }
        r
    }
}

} // verus!
