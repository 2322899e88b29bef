//! The ballot store: an in-memory, verified realisation of the ledger.
//!
//! One store owns every project together with its receipts.  Its
//! abstraction is the [`LedgerModel`] of [`crate::model`], and each
//! operation is proved to produce exactly the result and the successor
//! ledger that the model prescribes.  The well-formedness invariant ties
//! the stored vote count of every project to the number of its receipts,
//! so the defensive slot check of [`crate::step::vote_slot_step`] is
//! proved to always find the next slot free here.

use vstd::prelude::*;

use crate::errors::VoteError;
use crate::model::{register_result, register_state, registered, tally_result, vote_result,
    vote_state, LedgerModel};
use crate::step::{lookup_count_step, register_step, vote_slot_step, SlotAction};

verus! {

/// One registered project: its identifier, its persisted vote count, and
/// its receipts — the identity of the caller of vote `i` at index `i`.
pub struct ProjectEntry {
    /// The caller-chosen identifier the project was registered under.
    pub id: String,
    /// The persisted running total, kept equal to the number of receipts.
    pub count: i32,
    /// The append-only receipts, one voter identity per cast vote.
    pub voters: Vec<String>,
}

impl ProjectEntry {
    /// The receipts of this project as the model sees them.
    pub open spec fn receipts(self) -> Seq<Seq<char>> {
        self.voters.deep_view()
    }
}

/// Whether some entry of `s` carries the identifier `key`.
pub open spec fn ids_contain(s: Seq<ProjectEntry>, key: Seq<char>) -> bool {
    exists|i: int| 0 <= i < s.len() && (#[trigger] s[i].id@) == key
}

/// The entry of `s` carrying `key`; meaningful only when the identifiers
/// of `s` are unique and one of them is `key`.
pub open spec fn entry_for(s: Seq<ProjectEntry>, key: Seq<char>) -> ProjectEntry {
    s[choose|i: int| 0 <= i < s.len() && (#[trigger] s[i].id@) == key]
}

/// No identifier occurs twice in `s`.
pub open spec fn unique_ids(s: Seq<ProjectEntry>) -> bool {
    forall|a: int, b: int|
        0 <= a < b < s.len() ==> (#[trigger] s[a].id@) != (#[trigger] s[b].id@)
}

/// The ledger that a sequence of entries denotes.
pub open spec fn entries_ledger(s: Seq<ProjectEntry>) -> LedgerModel {
    Map::new(|key: Seq<char>| ids_contain(s, key), |key: Seq<char>| entry_for(s, key).receipts())
}

proof fn lemma_entry_for_unique(s: Seq<ProjectEntry>, i: int)
    requires
        unique_ids(s),
        0 <= i < s.len(),
    ensures
        ids_contain(s, s[i].id@),
        entry_for(s, s[i].id@) == s[i],
{
    assert(0 <= i < s.len() && s[i].id@ == s[i].id@);
    let j = choose|j: int| 0 <= j < s.len() && (#[trigger] s[j].id@) == s[i].id@;
    if i < j {
        assert(s[i].id@ != s[j].id@);
    } else if j < i {
        assert(s[j].id@ != s[i].id@);
    }
}

/// The verified ballot store.  Its contracts speak of `self@`, the
/// [`LedgerModel`] it currently denotes, and every operation requires and
/// re-establishes [`BallotStore::wf`].
pub struct BallotStore {
    entries: Vec<ProjectEntry>,
}

impl View for BallotStore {
    type V = LedgerModel;

    closed spec fn view(&self) -> LedgerModel {
        entries_ledger(self.entries@)
    }
}

impl BallotStore {
    /// Well-formedness: identifiers are unique, and each project's
    /// persisted count equals the number of its receipts.
    pub closed spec fn wf(self) -> bool {
        &&& unique_ids(self.entries@)
        &&& forall|i: int|
            0 <= i < self.entries@.len() ==> (#[trigger] self.entries@[i].count) as int
                == self.entries@[i].receipts().len()
    }

    /// Creates the empty store, the one deployment-time initialisation;
    /// every later operation works on the value it returned.
    pub fn constructor() -> (r: BallotStore)
        ensures
            r.wf(),
            r@ == Map::<Seq<char>, Seq<Seq<char>>>::empty(),
    {
        let r = BallotStore { entries: Vec::new() };
        proof {
            assert(r@ =~= Map::<Seq<char>, Seq<Seq<char>>>::empty());
        }
        r
    }

    /// The index of the entry registered under `project_id`, if any.
    fn find_entry(&self, project_id: &String) -> (r: Option<usize>)
        ensures
            match r {
                Some(i) => i < self.entries@.len() && self.entries@[i as int].id@ == project_id@,
                None => !ids_contain(self.entries@, project_id@),
            },
    {
        let mut j: usize = 0;
        while j < self.entries.len()
            invariant
                j <= self.entries@.len(),
                forall|k: int| 0 <= k < j ==> (#[trigger] self.entries@[k].id@) != project_id@,
            decreases self.entries@.len() - j,
        {
            if self.entries[j].id == *project_id {
                return Some(j);
            }
            j += 1;
        }
        proof {
            if ids_contain(self.entries@, project_id@) {
                let i = choose|i: int|
                    0 <= i < self.entries@.len() && (#[trigger] self.entries@[i].id@)
                        == project_id@;
                assert(self.entries@[i].id@ != project_id@);
            }
        }
        None
    }

    /// Registers a project under `project_id`, which callers must choose
    /// non-empty: rejected as a duplicate when the identifier is already
    /// taken, otherwise recorded with a vote count of zero.  Failure
    /// leaves the store unchanged.
    pub fn register_project(&mut self, project_id: String) -> (r: Result<(), VoteError>)
        requires
            old(self).wf(),
            project_id@.len() != 0,
        ensures
            final(self).wf(),
            r == register_result(old(self)@, project_id@),
            final(self)@ == register_state(old(self)@, project_id@),
    {
        let found = self.find_entry(&project_id);
        let observed: Option<Option<i32>> = match found {
            Some(i) => Some(Some(self.entries[i].count)),
            None => None,
        };
        match register_step(observed) {
            Err(e) => {
                proof {
                    let i = found.unwrap() as int;
                    assert(self.entries@[i].id@ == project_id@);
                    assert(registered(self@, project_id@));
                }
                Err(e)
            },
            Ok(initial_count) => {
                let ghost s1 = self.entries@;
                let entry = ProjectEntry {
                    id: project_id,
                    count: initial_count,
                    voters: Vec::new(),
                };
                let ghost e = entry;
                self.entries.push(entry);
                proof {
                    self.lemma_after_register(s1, e);
                }
                Ok(())
            },
        }
    }

    proof fn lemma_after_register(self, s1: Seq<ProjectEntry>, e: ProjectEntry)
        requires
            unique_ids(s1),
            forall|k: int|
                0 <= k < s1.len() ==> (#[trigger] s1[k].count) as int == s1[k].receipts().len(),
            !ids_contain(s1, e.id@),
            e.count == 0,
            e.voters@.len() == 0,
            self.entries@ == s1.push(e),
        ensures
            self.wf(),
            self@ == entries_ledger(s1).insert(e.id@, Seq::<Seq<char>>::empty()),
    {
        let s2 = self.entries@;
        let key0 = e.id@;
        assert(e.receipts() =~= Seq::<Seq<char>>::empty());
        assert forall|a: int| 0 <= a < s1.len() implies (#[trigger] s1[a].id@) != key0 by {
            if s1[a].id@ == key0 {
                assert(ids_contain(s1, key0));
            }
        }
        assert forall|a: int, b: int| 0 <= a < b < s2.len() implies (#[trigger] s2[a].id@)
            != (#[trigger] s2[b].id@) by {
            if b < s1.len() {
                assert(s1[a].id@ != s1[b].id@);
            } else {
                assert(s2[b] == e);
                assert(s1[a].id@ != key0);
            }
        }
        assert(unique_ids(s2));
        assert forall|k: int| 0 <= k < s2.len() implies (#[trigger] s2[k].count) as int
            == s2[k].receipts().len() by {
            if k < s1.len() {
                assert(s2[k] == s1[k]);
            } else {
                assert(s2[k] == e);
            }
        }
        let target = entries_ledger(s1).insert(key0, Seq::<Seq<char>>::empty());
        assert forall|key: Seq<char>| #[trigger] ids_contain(s2, key) implies
            target.dom().contains(key) && entries_ledger(s2)[key] == target[key] by {
            let i = choose|i: int| 0 <= i < s2.len() && (#[trigger] s2[i].id@) == key;
            if key == key0 {
                assert(s2[s1.len() as int] == e);
                lemma_entry_for_unique(s2, s1.len() as int);
                assert(entries_ledger(s2)[key] == e.receipts());
            } else {
                assert(i < s1.len());
                assert(s1[i].id@ == key);
                lemma_entry_for_unique(s1, i);
                lemma_entry_for_unique(s2, i);
                assert(entries_ledger(s2)[key] == s1[i].receipts());
                assert(entries_ledger(s1)[key] == s1[i].receipts());
            }
        }
        assert forall|key: Seq<char>| #[trigger] target.dom().contains(key) implies
            ids_contain(s2, key) by {
            if key == key0 {
                assert(s2[s1.len() as int].id@ == key);
            } else {
                let i = choose|i: int| 0 <= i < s1.len() && (#[trigger] s1[i].id@) == key;
                assert(s2[i].id@ == key);
            }
        }
        assert(entries_ledger(s2).dom() =~= target.dom());
        assert(entries_ledger(s2) =~= target);
    }

    /// Casts one vote for `project_id` by `voter_identity`: rejected when
    /// the identifier was never registered — leaving no trace — and
    /// otherwise recorded as a fresh receipt at the next index, driving
    /// the count up by exactly one.  The bound on the current count is
    /// what the `i32` counter of the storage layout forces.
    pub fn vote(&mut self, project_id: String, voter_identity: String) -> (r: Result<
        (),
        VoteError,
    >)
        requires
            old(self).wf(),
            registered(old(self)@, project_id@) ==> old(self)@[project_id@].len() < i32::MAX,
        ensures
            final(self).wf(),
            r == vote_result(old(self)@, project_id@),
            final(self)@ == vote_state(old(self)@, project_id@, voter_identity@),
    {
        let found = self.find_entry(&project_id);
        let observed: Option<Option<i32>> = match found {
            Some(i) => Some(Some(self.entries[i].count)),
            None => None,
        };
        match lookup_count_step(observed) {
            Err(e) => {
                proof {
                    assert(!registered(self@, project_id@));
                }
                Err(e)
            },
            Ok(count) => {
                let i = found.unwrap();
                proof {
                    lemma_entry_for_unique(self.entries@, i as int);
                    assert(registered(self@, project_id@));
                    assert(self@[project_id@] == self.entries@[i as int].receipts());
                }
                // The invariant puts every receipt of this project below
                // index `count`, so the slot observed at `count` is
                // necessarily free here.
                match vote_slot_step(count, None) {
                    SlotAction::AlreadyFilled => {
                        // unreachable on a well-formed store, as the
                        // contradiction below shows
                        proof {
                            assert(false);
                        }
                        Err(VoteError::UnknownProject)
                    },
                    SlotAction::Record { new_count } => {
                        let ghost s1 = self.entries@;
                        let ghost vid = voter_identity;
                        let entry = &mut self.entries[i];
                        entry.voters.push(voter_identity);
                        entry.count = new_count;
                        proof {
                            self.lemma_after_vote(s1, i as int, vid);
                        }
                        Ok(())
                    },
                }
            },
        }
    }

    proof fn lemma_after_vote(self, s1: Seq<ProjectEntry>, i: int, v: String)
        requires
            unique_ids(s1),
            forall|k: int|
                0 <= k < s1.len() ==> (#[trigger] s1[k].count) as int == s1[k].receipts().len(),
            0 <= i < s1.len(),
            self.entries@ == s1.update(i, self.entries@[i]),
            self.entries@[i].id == s1[i].id,
            self.entries@[i].voters@ == s1[i].voters@.push(v),
            self.entries@[i].count as int == s1[i].count as int + 1,
        ensures
            self.wf(),
            self@ == entries_ledger(s1).insert(s1[i].id@, s1[i].receipts().push(v@)),
    {
        let s2 = self.entries@;
        let key0 = s1[i].id@;
        let e2 = s2[i];
        assert(s2.len() == s1.len());
        assert forall|k: int| 0 <= k < s1.len() && k != i implies s2[k] == s1[k] by {}
        assert(e2.receipts() =~= s1[i].receipts().push(v@)) by {
            assert(e2.voters@.len() == s1[i].voters@.len() + 1);
            assert forall|k: int| 0 <= k < e2.receipts().len() implies #[trigger] e2.receipts()[k]
                == s1[i].receipts().push(v@)[k] by {
                if k < s1[i].voters@.len() {
                    assert(e2.voters@[k] == s1[i].voters@[k]);
                } else {
                    assert(e2.voters@[k] == v);
                }
            }
        }
        assert forall|k: int| 0 <= k < s2.len() implies (#[trigger] s2[k].id@) == s1[k].id@ by {
            if k != i {
                assert(s2[k] == s1[k]);
            }
        }
        assert(unique_ids(s2)) by {
            assert forall|a: int, b: int| 0 <= a < b < s2.len() implies (#[trigger] s2[a].id@)
                != (#[trigger] s2[b].id@) by {
                assert(s1[a].id@ != s1[b].id@);
            }
        }
        assert forall|k: int| 0 <= k < s2.len() implies (#[trigger] s2[k].count) as int
            == s2[k].receipts().len() by {
            if k != i {
                assert(s2[k] == s1[k]);
            }
        }
        let target = entries_ledger(s1).insert(key0, s1[i].receipts().push(v@));
        assert forall|key: Seq<char>| #[trigger] ids_contain(s2, key) implies
            target.dom().contains(key) && entries_ledger(s2)[key] == target[key] by {
            let j = choose|j: int| 0 <= j < s2.len() && (#[trigger] s2[j].id@) == key;
            assert(s1[j].id@ == key);
            lemma_entry_for_unique(s1, j);
            lemma_entry_for_unique(s2, j);
            if key == key0 {
                if j != i {
                    if j < i {
                        assert(s1[j].id@ != s1[i].id@);
                    } else {
                        assert(s1[i].id@ != s1[j].id@);
                    }
                    assert(false);
                }
                assert(entries_ledger(s2)[key] == e2.receipts());
            } else {
                assert(j != i);
                assert(s2[j] == s1[j]);
                assert(entries_ledger(s2)[key] == s1[j].receipts());
                assert(entries_ledger(s1)[key] == s1[j].receipts());
            }
        }
        assert forall|key: Seq<char>| #[trigger] target.dom().contains(key) implies
            ids_contain(s2, key) by {
            if key == key0 {
                assert(s2[i].id@ == key);
            } else {
                let j = choose|j: int| 0 <= j < s1.len() && (#[trigger] s1[j].id@) == key;
                assert(s2[j].id@ == key);
            }
        }
        assert(entries_ledger(s2).dom() =~= target.dom());
        assert(entries_ledger(s2) =~= target);
    }

    /// Reads the running vote total of `project_id`: its count when
    /// registered, `UnknownProject` otherwise.  A pure read.
    pub fn get_total_vote_count(&self, project_id: &String) -> (r: Result<i32, VoteError>)
        requires
            self.wf(),
        ensures
            match r {
                Ok(n) => tally_result(self@, project_id@) == Ok::<int, VoteError>(n as int),
                Err(e) => tally_result(self@, project_id@) == Err::<int, VoteError>(e),
            },
    {
        let found = self.find_entry(project_id);
        let observed: Option<Option<i32>> = match found {
            Some(i) => Some(Some(self.entries[i].count)),
            None => None,
        };
        proof {
            match found {
                Some(i) => {
                    lemma_entry_for_unique(self.entries@, i as int);
                    assert(self@[project_id@] == self.entries@[i as int].receipts());
                },
                None => {
                    assert(!registered(self@, project_id@));
                },
            }
        }
        lookup_count_step(observed)
    }

    /// Reads the receipt at `index` for `project_id`: the identity of the
    /// caller who cast that vote, or `None` when no such receipt exists.
    /// A pure read.
    pub fn get_receipt(&self, project_id: &String, index: usize) -> (r: Option<&String>)
        requires
            self.wf(),
        ensures
            match r {
                Some(v) => registered(self@, project_id@) && index < self@[project_id@].len()
                    && v@ == self@[project_id@][index as int],
                None => !registered(self@, project_id@) || index >= self@[project_id@].len(),
            },
    {
        match self.find_entry(project_id) {
            None => {
                proof {
                    assert(!registered(self@, project_id@));
                }
                None
            },
            Some(i) => {
                proof {
                    lemma_entry_for_unique(self.entries@, i as int);
                    assert(self@[project_id@] == self.entries@[i as int].receipts());
                }
                let entry = &self.entries[i];
                if index < entry.voters.len() {
                    Some(&entry.voters[index])
                } else {
                    None
                }
            },
        }
    }
}

} // verus!
