//! The concurrent job registry.
//!
//! The registry pairs a stable, client-visible job identifier — assigned
//! monotonically from 1 and never reused — with an internal storage slot
//! holding the computation: an arena of slots plus a separate id-to-slot
//! lookup table.  The identifier-to-slot mapping is a bijection, and removing
//! an entry removes both directions atomically.  [`Db`] is the registry as
//! the server uses it; in the running service the application keeps it behind
//! one exclusion boundary, so all registry operations are atomic with respect
//! to each other.

use crate::error::Error;
use crate::job::{CompState, CompV, Computation, Job, SpawnOutcome};
use vstd::prelude::*;

verus! {

/// The job `Id` from user side.
pub type Id = usize;

/// Take the value at slot `k`, leaving the slot empty.
fn slot_take(v: &mut Vec<Option<Computation>>, k: usize) -> (c: Option<Computation>)
    requires
        k < old(v)@.len(),
    ensures
        c == old(v)@[k as int],
        final(v)@ == old(v)@.update(k as int, None),
{
    v.push(None);
    let c = v.swap_remove(k);
    proof {
        assert(v@ =~= old(v)@.update(k as int, None));
    }
    c
}

/// Jobs database: the arena of computations and the id-to-slot lookup.
pub struct Jobs {
    /// The arena; a removed entry leaves its slot empty.
    slots: Vec<Option<Computation>>,
    /// The lookup table: one `(id, slot)` pair per live entry, a bijection.
    mapping: Vec<(usize, usize)>,
    /// The identifier the next inserted job will get; never decreased.
    next_id: usize,
}

impl View for Jobs {
    type V = Map<usize, CompV>;

    closed spec fn view(&self) -> Map<usize, CompV> {
        Map::new(|id: usize| self.spec_contains(id), |id: usize| self.comp_at(id))
    }
}

impl Jobs {
    /// Well-formedness: ids are positive, below `next_id` and unique; every
    /// mapped slot exists, is occupied, and is used by one entry only.
    pub closed spec fn wf(&self) -> bool {
        &&& self.next_id >= 1
        &&& forall|i: int|
            0 <= i < self.mapping@.len() ==> {
                &&& 1 <= (#[trigger] self.mapping@[i]).0 < self.next_id
                &&& self.mapping@[i].1 < self.slots@.len()
                &&& self.slots@[self.mapping@[i].1 as int] is Some
            }
        &&& forall|i: int, j: int|
            0 <= i < j < self.mapping@.len() ==> (#[trigger] self.mapping@[i]).0 != (
            #[trigger] self.mapping@[j]).0 && self.mapping@[i].1 != self.mapping@[j].1
    }

    /// Whether some live entry carries the identifier `id`.
    pub closed spec fn spec_contains(&self, id: usize) -> bool {
        exists|i: int| 0 <= i < self.mapping@.len() && (#[trigger] self.mapping@[i]).0 == id
    }

    /// The position of `id` in the lookup table.
    closed spec fn idx_of(&self, id: usize) -> int {
        choose|i: int| 0 <= i < self.mapping@.len() && (#[trigger] self.mapping@[i]).0 == id
    }

    /// The computation stored for `id`.
    closed spec fn comp_at(&self, id: usize) -> CompV {
        self.slots@[self.mapping@[self.idx_of(id)].1 as int].unwrap()@
    }

    /// The identifier the next inserted job will get.
    pub closed spec fn spec_next_id(&self) -> usize {
        self.next_id
    }

    /// The registry's domain is exactly the set of live identifiers.
    proof fn lemma_dom(&self, id: usize)
        ensures
            self@.dom().contains(id) <==> self.spec_contains(id),
            self@.dom().contains(id) ==> self@[id] == self.comp_at(id),
    {
    }

    /// Create empty `Jobs`.
    pub fn new() -> (jobs: Jobs)
        ensures
            jobs.wf(),
            jobs@ == Map::<usize, CompV>::empty(),
            jobs.spec_next_id() == 1,
    {
        let jobs = Jobs { slots: Vec::new(), mapping: Vec::new(), next_id: 1 };
        proof {
            assert(jobs@ =~= Map::<usize, CompV>::empty());
        }
        jobs
    }

    /// The position of `id` in the lookup table, if it is live.
    fn find(&self, id: usize) -> (r: Option<usize>)
        requires
            self.wf(),
        ensures
            r is Some <==> self.spec_contains(id),
            r matches Some(i) ==> 0 <= i < self.mapping@.len() && self.mapping@[i as int].0 == id
                && i as int == self.idx_of(id),
    {
        let n = self.mapping.len();
        for i in 0..n
            invariant
                n == self.mapping@.len(),
                self.wf(),
                forall|j: int| 0 <= j < i ==> (#[trigger] self.mapping@[j]).0 != id,
        {
            if self.mapping[i].0 == id {
                proof {
                    assert(self.spec_contains(id));
                    let w = self.idx_of(id);
                    assert(0 <= w < self.mapping@.len() && self.mapping@[w].0 == id);
                    if w != i as int {
                        assert(false);
                    }
                }
                return Some(i);
            }
        }
        proof {
            if self.spec_contains(id) {
                let w = self.idx_of(id);
                assert(0 <= w < self.mapping@.len() && self.mapping@[w].0 == id);
            }
        }
        None
    }

    /// Look for the job with `id`, returning its internal storage key, or
    /// `NotFound` if no live entry carries `id`.
    pub fn check_job(&self, id: Id) -> (r: Result<usize, Error>)
        requires
            self.wf(),
        ensures
            r is Ok <==> self@.dom().contains(id),
            r is Err ==> r == Err::<usize, Error>(Error::NotFound),
    {
        proof {
            self.lemma_dom(id);
        }
        match self.find(id) {
            Some(i) => Ok(self.mapping[i].1),
            None => Err(Error::NotFound),
        }
    }

    /// Insert a new job into database, returning the stable `Id` for later
    /// operations.  Identifiers are assigned monotonically starting at 1 and
    /// never reused: the returned id is fresh, even among removed ones.
    pub fn insert(&mut self, job: Computation) -> (id: Id)
        requires
            old(self).wf(),
            old(self).spec_next_id() < usize::MAX,
        ensures
            final(self).wf(),
            id == old(self).spec_next_id(),
            1 <= id,
            !old(self)@.dom().contains(id),
            final(self)@ == old(self)@.insert(id, job@),
            final(self).spec_next_id() == id + 1,
    {
        let ghost jobv = job@;
        let id = self.next_id;
        let k = self.slots.len();
        self.slots.push(Some(job));
        self.mapping.push((id, k));
        self.next_id = self.next_id + 1;
        proof {
            let olds = old(self);
            let len_old = olds.mapping@.len();
            assert(self.mapping@ =~= olds.mapping@.push((id, k)));
            assert(self.slots@ =~= olds.slots@.push(Some(job)));
            assert forall|i: int| 0 <= i < self.mapping@.len() implies {
                &&& 1 <= (#[trigger] self.mapping@[i]).0 < self.next_id
                &&& self.mapping@[i].1 < self.slots@.len()
                &&& self.slots@[self.mapping@[i].1 as int] is Some
            } by {
                if i < len_old {
                    assert(olds.mapping@[i] == self.mapping@[i]);
                }
            }
            assert(self.wf());
            olds.lemma_dom(id);
            if olds.spec_contains(id) {
                let w = olds.idx_of(id);
                assert(olds.mapping@[w].0 == id);
            }
            assert(!old(self)@.dom().contains(id));
            // The new map is the old map plus the fresh entry.
            assert forall|id2: usize| #[trigger] self.spec_contains(id2) implies (id2 == id
                || olds.spec_contains(id2)) by {
                let w = self.idx_of(id2);
                assert(0 <= w < self.mapping@.len() && self.mapping@[w].0 == id2);
                if w < len_old {
                    assert(olds.mapping@[w].0 == id2);
                }
            }
            assert forall|id2: usize| olds.spec_contains(id2) implies self.spec_contains(id2) by {
                let w = olds.idx_of(id2);
                assert(0 <= w < olds.mapping@.len() && olds.mapping@[w].0 == id2);
                assert(self.mapping@[w].0 == id2);
            }
            assert(self.spec_contains(id)) by {
                assert(self.mapping@[len_old as int].0 == id);
            }
            assert(self.comp_at(id) == jobv) by {
                let w = self.idx_of(id);
                assert(0 <= w < self.mapping@.len() && self.mapping@[w].0 == id);
                if w < len_old {
                    assert(olds.mapping@[w].0 == id);
                    assert(olds.spec_contains(id));
                }
                assert(w == len_old as int);
            }
            assert forall|id2: usize|
                olds.spec_contains(id2) && id2 != id implies self.comp_at(id2) == olds.comp_at(
                id2,
            ) by {
                let w_old = olds.idx_of(id2);
                assert(0 <= w_old < olds.mapping@.len() && olds.mapping@[w_old].0 == id2);
                assert(self.mapping@[w_old].0 == id2);
                assert(self.spec_contains(id2));
                let w_new = self.idx_of(id2);
                assert(0 <= w_new < self.mapping@.len() && self.mapping@[w_new].0 == id2);
                if w_new == len_old as int {
                    assert(false);
                }
                if w_new != w_old {
                    assert(false);
                }
            }
            assert forall|id2: usize|
                self@.dom().contains(id2) <==> old(self)@.insert(id, jobv).dom().contains(
                id2,
            ) by {
                self.lemma_dom(id2);
                olds.lemma_dom(id2);
            }
            assert forall|id2: usize| #[trigger]
                self@.dom().contains(id2) implies self@[id2] == old(self)@.insert(id, jobv)[id2] by {
                self.lemma_dom(id2);
                olds.lemma_dom(id2);
            }
            assert(self@ =~= old(self)@.insert(id, jobv));
        }
        id
    }

    /// Remove the job with `id`, emptying its slot and dropping its lookup
    /// entry together; `NotFound` if no live entry carries `id`.
    pub fn remove(&mut self, id: Id) -> (r: Result<(), Error>)
        requires
            old(self).wf(),
        ensures
            final(self).wf(),
            final(self).spec_next_id() == old(self).spec_next_id(),
            r is Ok <==> old(self)@.dom().contains(id),
            r is Err ==> r == Err::<(), Error>(Error::NotFound) && final(self)@ == old(self)@,
            r is Ok ==> final(self)@ == old(self)@.remove(id),
    {
        proof {
            old(self).lemma_dom(id);
        }
        let i = match self.find(id) {
            Some(i) => i,
            None => {
                return Err(Error::NotFound);
            },
        };
        let k = self.mapping[i].1;
        let _dropped = slot_take(&mut self.slots, k);
        let _entry = self.mapping.remove(i);
        proof {
            let olds = old(self);
            let len_new = self.mapping@.len();
            assert(self.mapping@ =~= olds.mapping@.remove(i as int));
            // Well-formedness survives: every surviving entry was an entry
            // before, at the same or the next position, and no surviving
            // entry used slot k.
            assert forall|j: int| 0 <= j < len_new implies {
                &&& 1 <= (#[trigger] self.mapping@[j]).0 < self.next_id
                &&& self.mapping@[j].1 < self.slots@.len()
                &&& self.slots@[self.mapping@[j].1 as int] is Some
            } by {
                let j_old: int = if j < i as int {
                    j
                } else {
                    j + 1
                };
                assert(self.mapping@[j] == olds.mapping@[j_old]);
                assert(olds.mapping@[j_old].1 != k);
            }
            assert forall|j1: int, j2: int| 0 <= j1 < j2 < len_new implies (
            #[trigger] self.mapping@[j1]).0 != (#[trigger] self.mapping@[j2]).0
                && self.mapping@[j1].1 != self.mapping@[j2].1 by {
                let o1: int = if j1 < i as int {
                    j1
                } else {
                    j1 + 1
                };
                let o2: int = if j2 < i as int {
                    j2
                } else {
                    j2 + 1
                };
                assert(self.mapping@[j1] == olds.mapping@[o1]);
                assert(self.mapping@[j2] == olds.mapping@[o2]);
            }
            assert(self.wf());
            // The new map is the old map without `id`.
            assert forall|id2: usize| #[trigger] self.spec_contains(id2) implies
                olds.spec_contains(id2) && id2 != id by {
                let w = self.idx_of(id2);
                assert(0 <= w < len_new && self.mapping@[w].0 == id2);
                let o: int = if w < i as int {
                    w
                } else {
                    w + 1
                };
                assert(olds.mapping@[o].0 == id2);
                if id2 == id {
                    assert(olds.mapping@[i as int].0 == id);
                    assert(o != i as int);
                    assert(false);
                }
            }
            assert forall|id2: usize|
                olds.spec_contains(id2) && id2 != id implies #[trigger] self.spec_contains(
                id2,
            ) && self.comp_at(id2) == olds.comp_at(id2) by {
                let w_old = olds.idx_of(id2);
                assert(0 <= w_old < olds.mapping@.len() && olds.mapping@[w_old].0 == id2);
                assert(w_old != i as int);
                let w: int = if w_old < i as int {
                    w_old
                } else {
                    w_old - 1
                };
                assert(self.mapping@[w] == olds.mapping@[w_old]);
                assert(self.spec_contains(id2));
                let w_new = self.idx_of(id2);
                assert(0 <= w_new < len_new && self.mapping@[w_new].0 == id2);
                if w_new != w {
                    let o: int = if w_new < i as int {
                        w_new
                    } else {
                        w_new + 1
                    };
                    assert(olds.mapping@[o].0 == id2);
                    assert(false);
                }
                assert(olds.mapping@[w_old].1 != k);
            }
            assert forall|id2: usize|
                self@.dom().contains(id2) <==> old(self)@.remove(id).dom().contains(id2) by {
                self.lemma_dom(id2);
                olds.lemma_dom(id2);
            }
            assert forall|id2: usize| #[trigger]
                self@.dom().contains(id2) implies self@[id2] == old(self)@.remove(id)[id2] by {
                self.lemma_dom(id2);
                olds.lemma_dom(id2);
            }
            assert(self@ =~= old(self)@.remove(id));
        }
        Ok(())
    }

    /// Remove all created jobs; the identifier counter is kept, so removed
    /// ids are not assigned again.
    pub fn clear(&mut self)
        ensures
            final(self).wf(),
            final(self)@ == Map::<usize, CompV>::empty(),
            final(self).spec_next_id() == old(self).spec_next_id() || final(self).spec_next_id()
                == 1,
            old(self).wf() ==> final(self).spec_next_id() == old(self).spec_next_id(),
    {
        self.slots.clear();
        self.mapping.clear();
        if self.next_id < 1 {
            self.next_id = 1;
        }
        proof {
            assert(self@ =~= Map::<usize, CompV>::empty());
        }
    }

    /// The identifiers of all live entries, each exactly once, in table
    /// order.
    pub fn iter(&self) -> (ids: Vec<Id>)
        requires
            self.wf(),
        ensures
            ids@.no_duplicates(),
            forall|id: usize| #[trigger] ids@.contains(id) <==> self@.dom().contains(id),
    {
        let mut ids: Vec<Id> = Vec::new();
        let n = self.mapping.len();
        for i in 0..n
            invariant
                n == self.mapping@.len(),
                self.wf(),
                ids@.len() == i,
                forall|j: int| 0 <= j < i ==> #[trigger] ids@[j] == self.mapping@[j].0,
        {
            ids.push(self.mapping[i].0);
        }
        proof {
            assert forall|j1: int, j2: int|
                0 <= j1 < j2 < ids@.len() implies ids@[j1] != ids@[j2] by {
                assert((self.mapping@[j1]).0 != (self.mapping@[j2]).0);
            }
            assert forall|id: usize| #[trigger] ids@.contains(id) implies self@.dom().contains(
                id,
            ) by {
                let j = choose|j: int| 0 <= j < ids@.len() && ids@[j] == id;
                assert(self.mapping@[j].0 == id);
                self.lemma_dom(id);
            }
            assert forall|id: usize|
                self@.dom().contains(id) implies #[trigger] ids@.contains(id) by {
                self.lemma_dom(id);
                let w = self.idx_of(id);
                assert(0 <= w < self.mapping@.len() && self.mapping@[w].0 == id);
                assert(ids@[w] == id);
            }
        }
        ids
    }

    /// Take the computation stored for `id` out of the registry, to work on
    /// it; `restore` puts it back under the same identifier.
    pub fn take(&mut self, id: Id) -> (r: Result<Computation, Error>)
        requires
            old(self).wf(),
        ensures
            final(self).wf(),
            final(self).spec_next_id() == old(self).spec_next_id(),
            r is Ok <==> old(self)@.dom().contains(id),
            r is Err ==> r == Err::<Computation, Error>(Error::NotFound) && final(self)@ == old(
                self,
            )@,
            r matches Ok(c) ==> c@ == old(self)@[id] && final(self)@ == old(self)@.remove(id)
                && 1 <= id < final(self).spec_next_id(),
    {
        proof {
            old(self).lemma_dom(id);
        }
        let i = match self.find(id) {
            Some(i) => i,
            None => {
                return Err(Error::NotFound);
            },
        };
        let k = self.mapping[i].1;
        let taken = slot_take(&mut self.slots, k);
        let c = match taken {
            Some(c) => c,
            None => {
                proof {
                    assert(false);
                }
                return Err(Error::NotFound);
            },
        };
        let ghost mid = *self;
        let _entry = self.mapping.remove(i);
        proof {
            let olds = old(self);
            let len_new = self.mapping@.len();
            assert(self.mapping@ =~= olds.mapping@.remove(i as int));
            assert(c@ == olds.comp_at(id)) by {
                let w = olds.idx_of(id);
                if w != i as int {
                    assert(olds.mapping@[w].0 == id);
                    assert(false);
                }
            }
            assert forall|j: int| 0 <= j < len_new implies {
                &&& 1 <= (#[trigger] self.mapping@[j]).0 < self.next_id
                &&& self.mapping@[j].1 < self.slots@.len()
                &&& self.slots@[self.mapping@[j].1 as int] is Some
            } by {
                let j_old: int = if j < i as int {
                    j
                } else {
                    j + 1
                };
                assert(self.mapping@[j] == olds.mapping@[j_old]);
                assert(olds.mapping@[j_old].1 != k);
            }
            assert forall|j1: int, j2: int| 0 <= j1 < j2 < len_new implies (
            #[trigger] self.mapping@[j1]).0 != (#[trigger] self.mapping@[j2]).0
                && self.mapping@[j1].1 != self.mapping@[j2].1 by {
                let o1: int = if j1 < i as int {
                    j1
                } else {
                    j1 + 1
                };
                let o2: int = if j2 < i as int {
                    j2
                } else {
                    j2 + 1
                };
                assert(self.mapping@[j1] == olds.mapping@[o1]);
                assert(self.mapping@[j2] == olds.mapping@[o2]);
            }
            assert(self.wf());
            assert forall|id2: usize| #[trigger] self.spec_contains(id2) implies
                olds.spec_contains(id2) && id2 != id by {
                let w = self.idx_of(id2);
                assert(0 <= w < len_new && self.mapping@[w].0 == id2);
                let o: int = if w < i as int {
                    w
                } else {
                    w + 1
                };
                assert(olds.mapping@[o].0 == id2);
                if id2 == id {
                    assert(olds.mapping@[i as int].0 == id);
                    assert(o != i as int);
                    assert(false);
                }
            }
            assert forall|id2: usize|
                olds.spec_contains(id2) && id2 != id implies #[trigger] self.spec_contains(
                id2,
            ) && self.comp_at(id2) == olds.comp_at(id2) by {
                let w_old = olds.idx_of(id2);
                assert(0 <= w_old < olds.mapping@.len() && olds.mapping@[w_old].0 == id2);
                assert(w_old != i as int);
                let w: int = if w_old < i as int {
                    w_old
                } else {
                    w_old - 1
                };
                assert(self.mapping@[w] == olds.mapping@[w_old]);
                assert(self.spec_contains(id2));
                let w_new = self.idx_of(id2);
                assert(0 <= w_new < len_new && self.mapping@[w_new].0 == id2);
                if w_new != w {
                    let o: int = if w_new < i as int {
                        w_new
                    } else {
                        w_new + 1
                    };
                    assert(olds.mapping@[o].0 == id2);
                    assert(false);
                }
                assert(olds.mapping@[w_old].1 != k);
            }
            assert forall|id2: usize|
                self@.dom().contains(id2) <==> old(self)@.remove(id).dom().contains(id2) by {
                self.lemma_dom(id2);
                olds.lemma_dom(id2);
            }
            assert forall|id2: usize| #[trigger]
                self@.dom().contains(id2) implies self@[id2] == old(self)@.remove(id)[id2] by {
                self.lemma_dom(id2);
                olds.lemma_dom(id2);
            }
            assert(self@ =~= old(self)@.remove(id));
            olds.lemma_dom(id);
        }
        Ok(c)
    }

    /// The computation stored for `id`, read-only.
    pub fn get(&self, id: Id) -> (r: Option<&Computation>)
        requires
            self.wf(),
        ensures
            r is Some <==> self@.dom().contains(id),
            r matches Some(c) ==> c@ == self@[id],
    {
        proof {
            self.lemma_dom(id);
        }
        match self.find(id) {
            Some(i) => {
                let k = self.mapping[i].1;
                match &self.slots[k] {
                    Some(c) => Some(c),
                    None => None,
                }
            },
            None => None,
        }
    }

    /// Put a computation back under an identifier that `take` vacated.
    pub fn restore(&mut self, id: Id, job: Computation)
        requires
            old(self).wf(),
            !old(self)@.dom().contains(id),
            1 <= id < old(self).spec_next_id(),
        ensures
            final(self).wf(),
            final(self).spec_next_id() == old(self).spec_next_id(),
            final(self)@ == old(self)@.insert(id, job@),
    {
        let ghost jobv = job@;
        let k = self.slots.len();
        self.slots.push(Some(job));
        self.mapping.push((id, k));
        proof {
            let olds = old(self);
            let len_old = olds.mapping@.len();
            olds.lemma_dom(id);
            assert(self.mapping@ =~= olds.mapping@.push((id, k)));
            assert(self.slots@ =~= olds.slots@.push(Some(job)));
            assert forall|i: int| 0 <= i < self.mapping@.len() implies {
                &&& 1 <= (#[trigger] self.mapping@[i]).0 < self.next_id
                &&& self.mapping@[i].1 < self.slots@.len()
                &&& self.slots@[self.mapping@[i].1 as int] is Some
            } by {
                if i < len_old {
                    assert(olds.mapping@[i] == self.mapping@[i]);
                }
            }
            assert forall|i: int, j: int| 0 <= i < j < self.mapping@.len() implies (
            #[trigger] self.mapping@[i]).0 != (#[trigger] self.mapping@[j]).0
                && self.mapping@[i].1 != self.mapping@[j].1 by {
                if j == len_old as int {
                    assert(self.mapping@[i] == olds.mapping@[i]);
                    if olds.mapping@[i].0 == id {
                        assert(olds.spec_contains(id));
                    }
                }
            }
            assert(self.wf());
            assert forall|id2: usize| #[trigger] self.spec_contains(id2) implies (id2 == id
                || olds.spec_contains(id2)) by {
                let w = self.idx_of(id2);
                assert(0 <= w < self.mapping@.len() && self.mapping@[w].0 == id2);
                if w < len_old {
                    assert(olds.mapping@[w].0 == id2);
                }
            }
            assert forall|id2: usize| olds.spec_contains(id2) implies self.spec_contains(id2) by {
                let w = olds.idx_of(id2);
                assert(0 <= w < olds.mapping@.len() && olds.mapping@[w].0 == id2);
                assert(self.mapping@[w].0 == id2);
            }
            assert(self.spec_contains(id)) by {
                assert(self.mapping@[len_old as int].0 == id);
            }
            assert(self.comp_at(id) == jobv) by {
                let w = self.idx_of(id);
                assert(0 <= w < self.mapping@.len() && self.mapping@[w].0 == id);
                if w < len_old {
                    assert(olds.mapping@[w].0 == id);
                    assert(olds.spec_contains(id));
                }
                assert(w == len_old as int);
            }
            assert forall|id2: usize|
                olds.spec_contains(id2) && id2 != id implies self.comp_at(id2) == olds.comp_at(
                id2,
            ) by {
                let w_old = olds.idx_of(id2);
                assert(0 <= w_old < olds.mapping@.len() && olds.mapping@[w_old].0 == id2);
                assert(self.mapping@[w_old].0 == id2);
                assert(self.spec_contains(id2));
                let w_new = self.idx_of(id2);
                assert(0 <= w_new < self.mapping@.len() && self.mapping@[w_new].0 == id2);
                if w_new == len_old as int {
                    assert(false);
                }
                if w_new != w_old {
                    assert(false);
                }
            }
            assert forall|id2: usize|
                self@.dom().contains(id2) <==> old(self)@.insert(id, jobv).dom().contains(
                id2,
            ) by {
                self.lemma_dom(id2);
                olds.lemma_dom(id2);
            }
            assert forall|id2: usize| #[trigger]
                self@.dom().contains(id2) implies self@[id2] == old(self)@.insert(id, jobv)[id2] by {
                self.lemma_dom(id2);
                olds.lemma_dom(id2);
            }
            assert(self@ =~= old(self)@.insert(id, jobv));
        }
    }
}

/// A simple in-memory DB for computational jobs.
///
/// In the running service the application shares the `Db` behind one
/// exclusion boundary, so the registry operations below are atomic with
/// respect to each other.  The application observes spawns and exits and
/// reports each outcome here as a plain value.
pub struct Db {
    inner: Jobs,
}

impl View for Db {
    type V = Map<usize, CompV>;

    closed spec fn view(&self) -> Map<usize, CompV> {
        self.inner@
    }
}

impl Db {
    /// Well-formedness of the underlying registry.
    pub closed spec fn wf(&self) -> bool {
        self.inner.wf()
    }

    /// The identifier the next inserted job will get.
    pub closed spec fn spec_next_id(&self) -> usize {
        self.inner.spec_next_id()
    }

    /// Create an empty `Db`.
    pub fn new() -> (db: Db)
        ensures
            db.wf(),
            db@ == Map::<usize, CompV>::empty(),
            db.spec_next_id() == 1,
    {
        Db { inner: Jobs::new() }
    }

    /// Insert job into the queue: the job, bound to the freshly created
    /// working directory `wrk_dir`, is registered unstarted under a fresh
    /// identifier, which no job — not even a removed one — ever had before.
    pub fn insert_job(&mut self, job: Job, wrk_dir: String) -> (id: Id)
        requires
            old(self).wf(),
            old(self).spec_next_id() < usize::MAX,
        ensures
            final(self).wf(),
            id == old(self).spec_next_id(),
            final(self).spec_next_id() == id + 1,
            1 <= id,
            !old(self)@.dom().contains(id),
            final(self)@ == old(self)@.insert(
                id,
                (CompV { job: job@, state: CompState::Created, wrk_dir: wrk_dir@ }),
            ),
    {
        let ghost jobv = job@;
        let ghost dirv = wrk_dir@;
        let c = job.submit(wrk_dir);
        proof {
            assert(c@ == (CompV { job: jobv, state: CompState::Created, wrk_dir: dirv }));
        }
        self.inner.insert(c)
    }

    /// Update the job in `id` with `new_job`, bound to the freshly created
    /// working directory `wrk_dir`.  An unknown id fails with `NotFound`; a
    /// computation that has been started fails with `AlreadyStarted` — a job
    /// is configured only before it runs; on an unstarted job the new job is
    /// what subsequently executes.
    pub fn update_job(&mut self, id: Id, new_job: Job, wrk_dir: String) -> (r: Result<(), Error>)
        requires
            old(self).wf(),
        ensures
            final(self).wf(),
            final(self).spec_next_id() == old(self).spec_next_id(),
            !old(self)@.dom().contains(id) ==> r == Err::<(), Error>(Error::NotFound) && final(self)@ == old(self)@,
            old(self)@.dom().contains(id) && old(self)@[id].state != CompState::Created ==> r
                == Err::<(), Error>(Error::AlreadyStarted) && final(self)@ == old(self)@,
            old(self)@.dom().contains(id) && old(self)@[id].state == CompState::Created ==> r
                is Ok && final(self)@ == old(self)@.insert(
                id,
                (CompV { job: new_job@, state: CompState::Created, wrk_dir: wrk_dir@ }),
            ),
    {
        let ghost jobv = new_job@;
        let ghost dirv = wrk_dir@;
        let c = self.inner.take(id)?;
        if c.is_started() {
            self.inner.restore(id, c);
            proof {
                assert(self@ =~= old(self)@);
            }
            return Err(Error::AlreadyStarted);
        }
        let newc = new_job.submit(wrk_dir);
        proof {
            assert(newc@ == (CompV { job: jobv, state: CompState::Created, wrk_dir: dirv }));
        }
        self.inner.restore(id, newc);
        proof {
            assert(self@ =~= old(self)@.insert(id, newc@));
        }
        Ok(())
    }

    /// Return a full list of submitted jobs: each live identifier exactly
    /// once.
    pub fn get_job_list(&self) -> (ids: Vec<Id>)
        requires
            self.wf(),
        ensures
            ids@.no_duplicates(),
            forall|id: usize| #[trigger] ids@.contains(id) <==> self@.dom().contains(id),
    {
        self.inner.iter()
    }

    /// Start the job `id` in background and wait until it finishes, recording
    /// the spawn and exit outcomes the application observed.  An unknown id
    /// fails with `NotFound` — and never panics; a computation already in a
    /// terminal state fails with `AlreadyStarted`, never resurrected; a spawn
    /// failure surfaces as `SpawnFailure` and leaves the job as it was; an
    /// unsuccessful exit fails the job with `ProcessFailure`.
    pub fn wait_job(&mut self, id: Id, outcome: SpawnOutcome, exit_ok: bool) -> (r: Result<
        (),
        Error,
    >)
        requires
            old(self).wf(),
        ensures
            final(self).wf(),
            final(self).spec_next_id() == old(self).spec_next_id(),
            !old(self)@.dom().contains(id) ==> r == Err::<(), Error>(Error::NotFound) && final(self)@ == old(self)@,
            old(self)@.dom().contains(id) ==> {
                let prev = old(self)@[id];
                &&& (prev.state == CompState::Completed || prev.state == CompState::Failed) ==> r
                    == Err::<(), Error>(Error::AlreadyStarted) && final(self)@ == old(self)@
                &&& (prev.state == CompState::Created || prev.state == CompState::Started) ==> {
                    &&& outcome != SpawnOutcome::Spawned ==> r == Err::<(), Error>(
                        Error::SpawnFailure,
                    ) && final(self)@ == old(self)@
                    &&& outcome == SpawnOutcome::Spawned && exit_ok ==> r is Ok && final(self)@
                        == old(self)@.insert(
                        id,
                        (CompV { state: CompState::Completed, ..prev }),
                    )
                    &&& outcome == SpawnOutcome::Spawned && !exit_ok ==> r == Err::<(), Error>(
                        Error::ProcessFailure,
                    ) && final(self)@ == old(self)@.insert(
                        id,
                        (CompV { state: CompState::Failed, ..prev }),
                    )
                }
            },
    {
        let mut c = self.inner.take(id)?;
        let st = c.state();
        if st == CompState::Completed || st == CompState::Failed {
            self.inner.restore(id, c);
            proof {
                assert(self@ =~= old(self)@);
            }
            return Err(Error::AlreadyStarted);
        }
        if let Err(e) = c.start(outcome) {
            self.inner.restore(id, c);
            proof {
                assert(self@ =~= old(self)@);
            }
            return Err(e);
        }
        let waited = c.wait(exit_ok);
        self.inner.restore(id, c);
        proof {
            assert(self@ =~= old(self)@.insert(id, (CompV { state: self@[id].state, ..old(self)@[id] })));
        }
        waited
    }

    /// Remove the job `id` from `Db`; an unknown id fails with `NotFound`.
    /// The application terminates the job's process if one is still attached
    /// when it discards the computation.
    pub fn delete_job(&mut self, id: Id) -> (r: Result<(), Error>)
        requires
            old(self).wf(),
        ensures
            final(self).wf(),
            final(self).spec_next_id() == old(self).spec_next_id(),
            r is Ok <==> old(self)@.dom().contains(id),
            r is Err ==> r == Err::<(), Error>(Error::NotFound) && final(self)@ == old(self)@,
            r is Ok ==> final(self)@ == old(self)@.remove(id),
    {
        self.inner.remove(id)
    }

    /// Remove all jobs from `Db`.  The identifier counter is kept: removed
    /// ids are not assigned again.
    pub fn clear_jobs(&mut self)
        requires
            old(self).wf(),
        ensures
            final(self).wf(),
            final(self)@ == Map::<usize, CompV>::empty(),
            final(self).spec_next_id() == old(self).spec_next_id(),
    {
        self.inner.clear();
    }

    /// The working directory of job `id`, for reading and listing its files;
    /// an unknown id fails with `NotFound`.
    pub fn job_dir(&self, id: Id) -> (r: Result<String, Error>)
        requires
            self.wf(),
        ensures
            r is Ok <==> self@.dom().contains(id),
            r matches Ok(d) ==> d@ == self@[id].wrk_dir,
            r is Err ==> r == Err::<String, Error>(Error::NotFound),
    {
        match self.inner.get(id) {
            Some(c) => Ok(String::from_str(c.wrk_dir())),
            None => Err(Error::NotFound),
        }
    }

    /// The full path of the client-named `file` inside the working directory
    /// of job `id`: relative names are resolved under the directory boundary.
    /// An unknown id fails with `NotFound`.
    pub fn job_file_path(&self, id: Id, file: &String) -> (r: Result<String, Error>)
        requires
            self.wf(),
        ensures
            r is Ok <==> self@.dom().contains(id),
            r matches Ok(p) ==> p@ == crate::job::spec_join(self@[id].wrk_dir, file@),
            r is Err ==> r == Err::<String, Error>(Error::NotFound),
    {
        match self.inner.get(id) {
            Some(c) => Ok(c.file_path(file)),
            None => Err(Error::NotFound),
        }
    }
}

} // verus!
