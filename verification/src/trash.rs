//! The trash index: soft-deleted app and view identifiers.
//!
//! Marking an entity trashed hides it (and its subtree) from every tree read
//! without touching its rows; restoring it makes it reappear unchanged. The
//! filter is applied per read, never at write time.

use vstd::prelude::*;

verus! {

/// The set of soft-deleted entity identifiers.
pub struct TrashIndex {
    pub ids: Vec<u64>,
}

impl View for TrashIndex {
    type V = Set<u64>;

    open spec fn view(&self) -> Set<u64> {
        self.ids@.to_set()
    }
}

impl TrashIndex {
    /// The identifier list holds no duplicates.
    pub open spec fn wf(&self) -> bool {
        forall|i: int, j: int| 0 <= i < j < self.ids@.len() ==> self.ids@[i] != self.ids@[j]
    }

    /// An empty trash index: nothing is hidden.
    pub fn new() -> (t: TrashIndex)
        ensures
            t@ == Set::<u64>::empty(),
            t.wf(),
    {
        let t = TrashIndex { ids: Vec::new() };
        proof {
            assert(t@ =~= Set::<u64>::empty());
        }
        t
    }

    /// Whether `id` is currently soft-deleted.
    pub fn is_trashed(&self, id: u64) -> (r: bool)
        ensures
            r == self@.contains(id),
    {
        let mut i: usize = 0;
        while i < self.ids.len()
            invariant
                i <= self.ids.len(),
                forall|j: int| 0 <= j < i ==> self.ids@[j] != id,
            decreases self.ids.len() - i,
        {
            if self.ids[i] == id {
                proof {
                    assert(self.ids@.contains(id));
                }
                return true;
            }
            i = i + 1;
        }
        proof {
            if self.ids@.contains(id) {
                let j = choose|j: int| 0 <= j < self.ids@.len() && self.ids@[j] == id;
                assert(self.ids@[j] != id);
            }
        }
        false
    }

    /// Soft-deletes `id`; a later tree read omits the entity and its subtree.
    pub fn mark_trashed(&mut self, id: u64)
        requires
            old(self).wf(),
        ensures
            final(self).wf(),
            final(self)@ == old(self)@.insert(id),
    {
        if !self.is_trashed(id) {
            self.ids.push(id);
            proof {
                let s0 = old(self).ids@;
                assert forall|x: u64| self@.contains(x) implies old(self)@.insert(id).contains(
                    x,
                ) by {
                    let j = choose|j: int| 0 <= j < self.ids@.len() && self.ids@[j] == x;
                    if j < s0.len() {
                        assert(s0[j] == x);
                    }
                }
                assert forall|x: u64| old(self)@.insert(id).contains(x) implies self@.contains(
                    x,
                ) by {
                    if x == id {
                        assert(self.ids@[s0.len() as int] == id);
                    } else {
                        let j = choose|j: int| 0 <= j < s0.len() && s0[j] == x;
                        assert(self.ids@[j] == x);
                    }
                }
                assert(self@ =~= old(self)@.insert(id));
            }
        } else {
            proof {
                assert(self@ =~= old(self)@.insert(id));
            }
        }
    }

    /// Restores `id`; a later tree read includes the entity again, its rows
    /// unchanged, since trashing never touched them.
    pub fn restore(&mut self, id: u64)
        requires
            old(self).wf(),
        ensures
            final(self).wf(),
            final(self)@ == old(self)@.remove(id),
    {
        let mut i: usize = 0;
        while i < self.ids.len()
            invariant
                i <= self.ids.len(),
                old(self).wf(),
                self.ids@ == old(self).ids@,
                forall|j: int| 0 <= j < i ==> self.ids@[j] != id,
            decreases self.ids.len() - i,
        {
            if self.ids[i] == id {
                self.ids.remove(i);
                proof {
                    let s0 = old(self).ids@;
                    assert forall|x: u64| self@.contains(x) implies old(self)@.remove(id).contains(
                        x,
                    ) by {
                        let j = choose|j: int| 0 <= j < self.ids@.len() && self.ids@[j] == x;
                        if j < i {
                            assert(s0[j] == x);
                        } else {
                            assert(s0[j + 1] == x);
                        }
                        assert(x != id);
                    }
                    assert forall|x: u64| old(self)@.remove(id).contains(x) implies self@.contains(
                        x,
                    ) by {
                        let j = choose|j: int| 0 <= j < s0.len() && s0[j] == x;
                        if j < i {
                            assert(self.ids@[j] == x);
                        } else if j > i {
                            assert(self.ids@[j - 1] == x);
                        }
                    }
                    assert(self@ =~= old(self)@.remove(id));
                }
                return ;
            }
            i = i + 1;
        }
        proof {
            assert(!self.ids@.contains(id));
            assert(self@ =~= old(self)@.remove(id));
        }
    }
}

} // verus!
