//! The selection set: an ordered, duplicate-free collection of entity ids.
//!
//! Membership is what the contracts speak of (the view is a `Set<EntityId>`);
//! the underlying vector keeps insertion order so iteration is deterministic.

use vstd::prelude::*;
use crate::entity::EntityId;

verus! {

/// The set of currently selected entities. Invariant: no duplicates.
#[derive(Debug)]
pub struct Selection {
    items: Vec<EntityId>,
}

/// Symmetric difference: the entities in exactly one of the two sets.
pub open spec fn sym_diff_set(a: Set<EntityId>, b: Set<EntityId>) -> Set<EntityId> {
    a.difference(b).union(b.difference(a))
}

impl Selection {
    /// The ids in iteration order.
    pub closed spec fn seq(&self) -> Seq<EntityId> {
        self.items@
    }

    /// The membership view.
    pub open spec fn to_set(&self) -> Set<EntityId> {
        self.seq().to_set()
    }

    pub open spec fn contains_spec(&self, id: EntityId) -> bool {
        self.seq().contains(id)
    }

    pub open spec fn wf(&self) -> bool {
        self.seq().no_duplicates()
    }

    pub fn new() -> (r: Selection)
        ensures
            r.wf(),
            r.seq() == Seq::<EntityId>::empty(),
            r.to_set() == Set::<EntityId>::empty(),
    {
        let r = Selection { items: Vec::new() };
        proof {
            assert(r.to_set() =~= Set::<EntityId>::empty());
        }
        r
    }

    pub fn len(&self) -> (r: usize)
        ensures
            r == self.seq().len(),
    {
        self.items.len()
    }

    /// The id at a given iteration position.
    pub fn get(&self, i: usize) -> (r: EntityId)
        requires
            i < self.seq().len(),
        ensures
            r == self.seq()[i as int],
    {
        self.items[i]
    }

    pub fn contains(&self, id: EntityId) -> (r: bool)
        ensures
            r == self.contains_spec(id),
            r == self.to_set().contains(id),
    {
        let n = self.items.len();
        let mut i: usize = 0;
        while i < n
            invariant
                n == self.seq().len(),
                i <= n,
                forall|j: int| 0 <= j < i ==> self.seq()[j] != id,
            decreases n - i,
        {
            if self.items[i] == id {
                return true;
            }
            i += 1;
        }
        false
    }

    /// An exact copy of this selection (the drag-cancel snapshot).
    pub fn snapshot(&self) -> (r: Selection)
        ensures
            r.seq() == self.seq(),
    {
        let n = self.items.len();
        let mut out: Vec<EntityId> = Vec::new();
        let mut i: usize = 0;
        while i < n
            invariant
                n == self.seq().len(),
                i <= n,
                out@ == self.seq().take(i as int),
            decreases n - i,
        {
            out.push(self.items[i]);
            proof {
                assert(out@ =~= self.seq().take(i + 1));
            }
            i += 1;
        }
        proof {
            assert(self.seq().take(n as int) =~= self.seq());
        }
        Selection { items: out }
    }

    /// Adds an id; no effect when it is already present.
    pub fn insert(&mut self, id: EntityId)
        requires
            old(self).wf(),
        ensures
            final(self).wf(),
            final(self).to_set() == old(self).to_set().insert(id),
            final(self).seq() == if old(self).contains_spec(id) {
                old(self).seq()
            } else {
                old(self).seq().push(id)
            },
    {
        if !self.contains(id) {
            let ghost prev = self.items@;
            self.items.push(id);
            proof {
                assert(self.seq() =~= prev.push(id));
                lemma_push_to_set(prev, id);
            }
        } else {
            proof {
                assert(self.to_set() =~= old(self).to_set().insert(id));
            }
        }
    }

    /// Removes an id, reporting whether it was present.
    pub fn remove(&mut self, id: EntityId) -> (r: bool)
        requires
            old(self).wf(),
        ensures
            final(self).wf(),
            r == old(self).contains_spec(id),
            final(self).to_set() == old(self).to_set().remove(id),
            !final(self).contains_spec(id),
    {
        let n = self.items.len();
        let mut i: usize = 0;
        while i < n
            invariant
                old(self) == self,
                n == self.seq().len(),
                i <= n,
                old(self).wf(),
                forall|j: int| 0 <= j < i ==> self.seq()[j] != id,
            decreases n - i,
        {
            if self.items[i] == id {
                let ghost prev = self.items@;
                self.items.remove(i);
                proof {
                    lemma_remove_keeps_distinct(prev, i as int);
                    assert(forall|j: int|
                        0 <= j < self.seq().len() ==> self.seq()[j] != id) by {
                        assert(forall|j: int| 0 <= j < self.seq().len() ==> #[trigger] self.seq()[j]
                            == if j < i { prev[j] } else { prev[j + 1] });
                    }
                    assert(!self.seq().contains(id));
                    assert(self.to_set() =~= old(self).to_set().remove(id)) by {
                        assert(forall|e: EntityId| self.seq().contains(e) ==> #[trigger] prev.contains(e));
                        assert(forall|e: EntityId| prev.contains(e) && e != id
                            ==> #[trigger] self.seq().contains(e)) by {
                            assert forall|e: EntityId| prev.contains(e) && e != id
                                implies #[trigger] self.seq().contains(e) by {
                                let k = choose|k: int| 0 <= k < prev.len() && prev[k] == e;
                                if k < i {
                                    assert(self.seq()[k] == e);
                                } else if k > i {
                                    assert(self.seq()[k - 1] == e);
                                }
                            };
                        }
                    }
                }
                return true;
            }
            i += 1;
        }
        proof {
            assert(!self.seq().contains(id));
            assert(self.to_set() =~= old(self).to_set().remove(id));
        }
        false
    }

    pub fn clear(&mut self)
        ensures
            final(self).wf(),
            final(self).seq() == Seq::<EntityId>::empty(),
            final(self).to_set() == Set::<EntityId>::empty(),
    {
        self.items = Vec::new();
        proof {
            assert(self.to_set() =~= Set::<EntityId>::empty());
        }
    }

    /// Replaces the whole selection with a single id.
    pub fn set_one(&mut self, id: EntityId)
        ensures
            final(self).wf(),
            final(self).seq() == seq![id],
            final(self).to_set() == Set::<EntityId>::empty().insert(id),
    {
        let mut items: Vec<EntityId> = Vec::new();
        items.push(id);
        self.items = items;
        proof {
            assert(self.seq() =~= seq![id]);
            assert(self.seq() =~= Seq::<EntityId>::empty().push(id));
            lemma_push_to_set(Seq::<EntityId>::empty(), id);
            assert(Seq::<EntityId>::empty().to_set() =~= Set::<EntityId>::empty());
            assert(self.to_set() == Seq::<EntityId>::empty().to_set().insert(id));
        }
    }

    /// Inserts every id of the group.
    pub fn extend(&mut self, ids: &Vec<EntityId>)
        requires
            old(self).wf(),
        ensures
            final(self).wf(),
            final(self).to_set() == old(self).to_set().union(ids@.to_set()),
    {
        let n = ids.len();
        let mut i: usize = 0;
        while i < n
            invariant
                n == ids@.len(),
                i <= n,
                self.wf(),
                self.to_set() == old(self).to_set().union(ids@.take(i as int).to_set()),
            decreases n - i,
        {
            self.insert(ids[i]);
            proof {
                lemma_take_succ_to_set(ids@, i as int);
                assert(self.to_set() =~= old(self).to_set().union(ids@.take(i + 1).to_set()));
            }
            i += 1;
        }
        proof {
            assert(ids@.take(n as int) =~= ids@);
        }
    }

    /// Removes every id of the group.
    pub fn remove_all(&mut self, ids: &Vec<EntityId>)
        requires
            old(self).wf(),
        ensures
            final(self).wf(),
            final(self).to_set() == old(self).to_set().difference(ids@.to_set()),
    {
        let n = ids.len();
        let mut i: usize = 0;
        while i < n
            invariant
                n == ids@.len(),
                i <= n,
                self.wf(),
                self.to_set() == old(self).to_set().difference(ids@.take(i as int).to_set()),
            decreases n - i,
        {
            self.remove(ids[i]);
            proof {
                lemma_take_succ_to_set(ids@, i as int);
                assert(self.to_set() =~= old(self).to_set().difference(ids@.take(i + 1).to_set()));
            }
            i += 1;
        }
        proof {
            assert(ids@.take(n as int) =~= ids@);
        }
    }

    /// Do all ids of the group belong to the selection?
    pub fn contains_all(&self, ids: &Vec<EntityId>) -> (r: bool)
        ensures
            r == ids@.to_set().subset_of(self.to_set()),
    {
        let n = ids.len();
        let mut i: usize = 0;
        while i < n
            invariant
                n == ids@.len(),
                i <= n,
                forall|j: int| 0 <= j < i ==> self.to_set().contains(#[trigger] ids@[j]),
            decreases n - i,
        {
            if !self.contains(ids[i]) {
                proof {
                    assert(ids@.to_set().contains(ids@[i as int]));
                }
                return false;
            }
            i += 1;
        }
        proof {
            assert forall|e: EntityId| ids@.to_set().contains(e)
                implies self.to_set().contains(e) by {
                let k = choose|k: int| 0 <= k < ids@.len() && ids@[k] == e;
                assert(self.to_set().contains(ids@[k]));
            };
        }
        true
    }

    /// The union of a previous selection and a set of newly hit ids,
    /// previous items first.
    pub fn union_of(prev: &Selection, hits: &Selection) -> (r: Selection)
        requires
            prev.wf(),
            hits.wf(),
        ensures
            r.wf(),
            r.to_set() == prev.to_set().union(hits.to_set()),
    {
        let mut r = prev.snapshot();
        proof {
            assert(r.wf());
        }
        let n = hits.len();
        let mut i: usize = 0;
        while i < n
            invariant
                n == hits.seq().len(),
                i <= n,
                r.wf(),
                r.to_set() == prev.to_set().union(hits.seq().take(i as int).to_set()),
            decreases n - i,
        {
            r.insert(hits.get(i));
            proof {
                lemma_take_succ_to_set(hits.seq(), i as int);
                assert(r.to_set() =~= prev.to_set().union(hits.seq().take(i + 1).to_set()));
            }
            i += 1;
        }
        proof {
            assert(hits.seq().take(n as int) =~= hits.seq());
            assert(prev.to_set().union(hits.seq().take(n as int).to_set()) =~= prev.to_set().union(hits.to_set()));
        }
        r
    }

    /// The symmetric difference of a previous selection and a set of newly
    /// hit ids: entities in exactly one of the two.
    pub fn sym_diff_of(prev: &Selection, hits: &Selection) -> (r: Selection)
        requires
            prev.wf(),
            hits.wf(),
        ensures
            r.wf(),
            r.to_set() == sym_diff_set(prev.to_set(), hits.to_set()),
    {
        let mut r = prev.snapshot();
        let n = hits.len();
        let mut k: usize = 0;
        while k < n
            invariant
                n == hits.seq().len(),
                k <= n,
                prev.wf(),
                hits.wf(),
                r.wf(),
                r.to_set() == sym_diff_set(prev.to_set(), hits.seq().take(k as int).to_set()),
            decreases n - k,
        {
            let id = hits.get(k);
            proof {
                assert(!hits.seq().take(k as int).contains(id)) by {
                    if hits.seq().take(k as int).contains(id) {
                        let m = choose|m: int|
                            0 <= m < k && #[trigger] hits.seq().take(k as int)[m] == id;
                        assert(hits.seq()[m] == hits.seq()[k as int]);
                    }
                };
                lemma_take_succ_to_set(hits.seq(), k as int);
            }
            if prev.contains(id) {
                r.remove(id);
                proof {
                    assert(r.to_set()
                        =~= sym_diff_set(prev.to_set(), hits.seq().take(k + 1).to_set()));
                }
            } else {
                r.insert(id);
                proof {
                    assert(r.to_set()
                        =~= sym_diff_set(prev.to_set(), hits.seq().take(k + 1).to_set()));
                }
            }
            k += 1;
        }
        proof {
            assert(hits.seq().take(n as int) =~= hits.seq());
            assert(sym_diff_set(prev.to_set(), hits.seq().take(n as int).to_set())
                =~= sym_diff_set(prev.to_set(), hits.to_set()));
        }
        r
    }
}

/// Pushing an element adds exactly that element to the set of elements.
proof fn lemma_push_to_set(s: Seq<EntityId>, x: EntityId)
    ensures
        s.push(x).to_set() == s.to_set().insert(x),
{
    assert(s.push(x).to_set() =~= s.to_set().insert(x)) by {
        assert forall|e: EntityId| s.push(x).contains(e)
            implies s.to_set().insert(x).contains(e) by {
            let m = choose|m: int| 0 <= m < s.len() + 1 && #[trigger] s.push(x)[m] == e;
            if m < s.len() {
                assert(s[m] == e);
            }
        };
        assert forall|e: EntityId| s.to_set().insert(x).contains(e)
            implies s.push(x).contains(e) by {
            if e == x {
                assert(s.push(x)[s.len() as int] == e);
            } else {
                let m = choose|m: int| 0 <= m < s.len() && #[trigger] s[m] == e;
                assert(s.push(x)[m] == e);
            }
        };
    };
}

/// Taking one more element of a sequence adds exactly that element to the
/// set of elements taken.
proof fn lemma_take_succ_to_set(s: Seq<EntityId>, k: int)
    requires
        0 <= k < s.len(),
    ensures
        s.take(k + 1).to_set() == s.take(k).to_set().insert(s[k]),
{
    assert(s.take(k + 1).to_set() =~= s.take(k).to_set().insert(s[k])) by {
        assert forall|e: EntityId| s.take(k + 1).contains(e)
            implies s.take(k).to_set().insert(s[k]).contains(e) by {
            let m = choose|m: int| 0 <= m < k + 1 && #[trigger] s.take(k + 1)[m] == e;
            if m < k {
                assert(s.take(k)[m] == e);
            }
        };
        assert forall|e: EntityId| s.take(k).to_set().insert(s[k]).contains(e)
            implies s.take(k + 1).contains(e) by {
            if e == s[k] {
                assert(s.take(k + 1)[k] == e);
            } else {
                let m = choose|m: int| 0 <= m < k && #[trigger] s.take(k)[m] == e;
                assert(s.take(k + 1)[m] == e);
            }
        };
    };
}

/// Removing one position from a duplicate-free sequence keeps it
/// duplicate-free.
proof fn lemma_remove_keeps_distinct(s: Seq<EntityId>, i: int)
    requires
        s.no_duplicates(),
        0 <= i < s.len(),
    ensures
        s.remove(i).no_duplicates(),
{
    let t = s.remove(i);
    assert forall|p: int, q: int| 0 <= p < q < t.len() implies t[p] != t[q] by {
        let sp = if p < i { p } else { p + 1 };
        let sq = if q < i { q } else { q + 1 };
        assert(t[p] == s[sp] && t[q] == s[sq]);
    };
}

} // verus!
