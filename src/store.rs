//! The activity store: the last record of each live client identity.
use vstd::prelude::*;

use crate::activity::{ActivityRecord, ActivityView};

verus! {

/// The store after a sequence of `upsert` calls, in the order given.
pub open spec fn upsert_all(
    m: Map<Seq<char>, ActivityView>,
    writes: Seq<(Seq<char>, ActivityView)>,
) -> Map<Seq<char>, ActivityView>
    decreases writes.len(),
{
    if writes.len() == 0 {
        m
    } else {
        upsert_all(m, writes.drop_last()).insert(writes.last().0, writes.last().1)
    }
}

/// Upserts for N distinct identities into an empty store, in whatever order
/// they land, leave exactly N entries, each holding the value written for it.
pub proof fn lemma_distinct_upserts(writes: Seq<(Seq<char>, ActivityView)>)
    requires
        forall|i: int, j: int|
            0 <= i < writes.len() && 0 <= j < writes.len() && i != j ==> #[trigger] writes[i].0
                != #[trigger] writes[j].0,
    ensures
        upsert_all(Map::empty(), writes).dom().finite(),
        upsert_all(Map::empty(), writes).dom().len() == writes.len(),
        forall|i: int|
            0 <= i < writes.len() ==> #[trigger] upsert_all(Map::empty(), writes)[writes[i].0]
                == writes[i].1,
        forall|k: Seq<char>|
            #[trigger] upsert_all(Map::empty(), writes).contains_key(k) <==> exists|i: int|
                0 <= i < writes.len() && writes[i].0 == k,
    decreases writes.len(),
{
    if writes.len() > 0 {
        let prefix = writes.drop_last();
        let n = writes.len() - 1;
        assert forall|i: int, j: int|
            0 <= i < prefix.len() && 0 <= j < prefix.len() && i != j implies #[trigger] prefix[i].0
                != #[trigger] prefix[j].0 by {
            assert(writes[i].0 != writes[j].0);
        }
        lemma_distinct_upserts(prefix);
        let before = upsert_all(Map::empty(), prefix);
        let after = upsert_all(Map::empty(), writes);
        assert(!before.contains_key(writes[n].0)) by {
            if before.contains_key(writes[n].0) {
                let i = choose|i: int| 0 <= i < prefix.len() && prefix[i].0 == writes[n].0;
                assert(writes[i].0 == writes[n].0);
            }
        }
        assert forall|i: int| 0 <= i < writes.len() implies #[trigger] after[writes[i].0]
            == writes[i].1 by {
            if i < n {
                assert(prefix[i] == writes[i]);
                assert(writes[i].0 != writes[n].0);
            }
        }
        assert forall|k: Seq<char>| #[trigger] after.contains_key(k) <==> exists|i: int|
            0 <= i < writes.len() && writes[i].0 == k by {
            if after.contains_key(k) && k != writes[n].0 {
                let i = choose|i: int| 0 <= i < prefix.len() && prefix[i].0 == k;
                assert(writes[i].0 == k);
            }
            if exists|i: int| 0 <= i < writes.len() && writes[i].0 == k {
                let i = choose|i: int| 0 <= i < writes.len() && writes[i].0 == k;
                if i < n {
                    assert(prefix[i].0 == k);
                }
            }
        }
    } else {
        assert(upsert_all(Map::empty(), writes).dom() =~= Set::empty());
    }
}

/// A mapping from client identity to its last activity record. Each
/// identity has at most one entry; the order of entries carries no meaning.
pub struct ActivityStore {
    entries: Vec<(String, ActivityRecord)>,
    model: Ghost<Map<Seq<char>, ActivityView>>,
}

impl View for ActivityStore {
    type V = Map<Seq<char>, ActivityView>;

    closed spec fn view(&self) -> Map<Seq<char>, ActivityView> {
        self.model@
    }
}

impl ActivityStore {
    /// The entries name distinct identities, and they are the model.
    pub closed spec fn wf(&self) -> bool {
        let e = self.entries@;
        &&& self.model@.dom().finite()
        &&& e.len() == self.model@.dom().len()
        &&& forall|i: int, j: int|
            0 <= i < e.len() && 0 <= j < e.len() && i != j ==> #[trigger] e[i].0@ != #[trigger] e[j].0@
        &&& forall|i: int|
            0 <= i < e.len() ==> self.model@.contains_key(#[trigger] e[i].0@) && self.model@[e[i].0@]
                == e[i].1@
        &&& forall|k: Seq<char>|
            #[trigger] self.model@.contains_key(k) ==> exists|i: int| 0 <= i < e.len() && #[trigger] e[i].0@ == k
    }

    /// An empty store.
    pub fn new() -> (r: ActivityStore)
        ensures
            r.wf(),
            r@ == Map::<Seq<char>, ActivityView>::empty(),
    {
        ActivityStore { entries: Vec::new(), model: Ghost(Map::empty()) }
    }

    /// The number of identities held.
    pub fn len(&self) -> (r: usize)
        requires
            self.wf(),
        ensures
            r == self@.dom().len(),
    {
        self.entries.len()
    }

    fn find(&self, identity: &String) -> (r: Option<usize>)
        requires
            self.wf(),
        ensures
            match r {
                Some(i) => i < self.entries@.len() && self.entries@[i as int].0@ == identity@,
                None => !self@.contains_key(identity@),
            },
    {
        let mut i: usize = 0;
        while i < self.entries.len()
            invariant
                self.wf(),
                i <= self.entries@.len(),
                forall|j: int| 0 <= j < i ==> #[trigger] self.entries@[j].0@ != identity@,
            decreases self.entries@.len() - i,
        {
            if self.entries[i].0 == *identity {
                return Some(i);
            }
            i = i + 1;
        }
        None
    }

    /// The record held for an identity.
    pub fn get(&self, identity: &String) -> (r: Option<&ActivityRecord>)
        requires
            self.wf(),
        ensures
            match r {
                Some(a) => self@.contains_key(identity@) && self@[identity@] == a@,
                None => !self@.contains_key(identity@),
            },
    {
        match self.find(identity) {
            Some(i) => Some(&self.entries[i].1),
            None => None,
        }
    }

    /// Holds `record` as the identity's record, in place of any earlier one.
    pub fn upsert(&mut self, identity: String, record: ActivityRecord)
        requires
            old(self).wf(),
            old(self)@.dom().len() < usize::MAX,
        ensures
            final(self).wf(),
            final(self)@ == old(self)@.insert(identity@, record@),
    {
        let ghost k = identity@;
        let ghost v = record@;
        let ghost m0 = self.model@;
        match self.find(&identity) {
            Some(i) => {
                self.entries.remove(i);
                self.model = Ghost(m0.remove(k));
                assert(self.model@.dom() =~= m0.dom().remove(k));
                assert forall|kk: Seq<char>| #[trigger] self.model@.contains_key(kk) implies exists|j: int|
                    0 <= j < self.entries@.len() && #[trigger] self.entries@[j].0@ == kk by {
                    let j = choose|j: int| 0 <= j < old(self).entries@.len() && #[trigger] old(self).entries@[j].0@ == kk;
                    if j < i {
                        assert(self.entries@[j].0@ == kk);
                    } else {
                        assert(j != i);
                        assert(self.entries@[j - 1].0@ == kk);
                    }
                }
            },
            None => {},
        }
        let ghost m1 = self.model@;
        let ghost e1 = self.entries@;
        assert(!m1.contains_key(k));
        assert(forall|kk: Seq<char>| #[trigger] m1.contains_key(kk) ==> exists|j: int|
            0 <= j < e1.len() && #[trigger] e1[j].0@ == kk);
        self.entries.push((identity, record));
        self.model = Ghost(m1.insert(k, v));
        assert(self.model@ =~= m0.insert(k, v));
        assert forall|kk: Seq<char>| #[trigger] self.model@.contains_key(kk) implies exists|j: int|
            0 <= j < self.entries@.len() && #[trigger] self.entries@[j].0@ == kk by {
            if kk == k {
                assert(self.entries@[self.entries@.len() - 1].0@ == kk);
            } else {
                assert(m1.contains_key(kk));
                let j = choose|j: int| 0 <= j < e1.len() && #[trigger] e1[j].0@ == kk;
                assert(self.entries@[j].0@ == kk);
            }
        }
    }

    /// Drops the identity's record, if there is one.
    pub fn remove(&mut self, identity: &String)
        requires
            old(self).wf(),
        ensures
            final(self).wf(),
            final(self)@ == old(self)@.remove(identity@),
    {
        let ghost k = identity@;
        let ghost m0 = self.model@;
        match self.find(identity) {
            Some(i) => {
                self.entries.remove(i);
                self.model = Ghost(m0.remove(k));
                assert forall|kk: Seq<char>| #[trigger] self.model@.contains_key(kk) implies exists|j: int|
                    0 <= j < self.entries@.len() && #[trigger] self.entries@[j].0@ == kk by {
                    let j = choose|j: int| 0 <= j < old(self).entries@.len() && #[trigger] old(self).entries@[j].0@ == kk;
                    if j < i {
                        assert(self.entries@[j].0@ == kk);
                    } else {
                        assert(j != i);
                        assert(self.entries@[j - 1].0@ == kk);
                    }
                }
            },
            None => {
                assert(m0.remove(k) =~= m0);
            },
        }
    }

    /// A copy of every entry, taken at once: each identity held appears
    /// exactly once, with its record.
    pub fn snapshot(&self) -> (r: Vec<(String, ActivityRecord)>)
        requires
            self.wf(),
        ensures
            r@.len() == self@.dom().len(),
            forall|i: int|
                0 <= i < r@.len() ==> self@.contains_key(#[trigger] r@[i].0@) && self@[r@[i].0@]
                    == r@[i].1@,
            forall|i: int, j: int|
                0 <= i < r@.len() && 0 <= j < r@.len() && i != j ==> #[trigger] r@[i].0@
                    != #[trigger] r@[j].0@,
            forall|k: Seq<char>|
                #[trigger] self@.contains_key(k) ==> exists|i: int| 0 <= i < r@.len() && #[trigger] r@[i].0@ == k,
    {
        let mut out: Vec<(String, ActivityRecord)> = Vec::new();
        let mut i: usize = 0;
        while i < self.entries.len()
            invariant
                self.wf(),
                i <= self.entries@.len(),
                out@.len() == i,
                forall|j: int|
                    0 <= j < i ==> #[trigger] out@[j].0@ == self.entries@[j].0@ && out@[j].1@
                        == self.entries@[j].1@,
            decreases self.entries@.len() - i,
        {
            let entry = &self.entries[i];
            let key = entry.0.clone();
            let record = entry.1.duplicate();
            let ghost before = out@;
            out.push((key, record));
            assert(out@[i as int].0@ == self.entries@[i as int].0@);
            assert(out@[i as int].1@ == self.entries@[i as int].1@);
            assert forall|j: int| 0 <= j < i + 1 implies #[trigger] out@[j].0@ == self.entries@[j].0@
                && out@[j].1@ == self.entries@[j].1@ by {
                if j < i {
                    assert(out@[j] == before[j]);
                }
            }
            i = i + 1;
        }
        assert forall|k: Seq<char>| #[trigger] self@.contains_key(k) implies exists|j: int|
            0 <= j < out@.len() && #[trigger] out@[j].0@ == k by {
            let j = choose|j: int| 0 <= j < self.entries@.len() && #[trigger] self.entries@[j].0@ == k;
            assert(out@[j].0@ == k);
        }
        assert forall|a: int, b: int|
            0 <= a < out@.len() && 0 <= b < out@.len() && a != b implies #[trigger] out@[a].0@
                != #[trigger] out@[b].0@ by {
            assert(self.entries@[a].0@ != self.entries@[b].0@);
        }
        out
    }
}

} // verus!
