//! One deletion pass over an ordered list of entries: what to attempt for each
//! entry, what its attempt came to, the failure list, and where chunks end.
//!
//! The pass does not touch the filesystem. Its driver looks at entry `i`
//! (`next_entry`), asks which removal fits what is there (`plan_removal`), makes
//! it, and hands back what it found and whether the removal succeeded
//! (`record`).

use vstd::prelude::*;
use crate::chunks::{chunk_count_spec, chunk_end};

verus! {

/// What is at an entry's path when its turn comes.
#[derive(Clone, Copy, Debug, PartialEq, Eq, Structural)]
pub enum EntryKind {
    File,
    Dir,
    /// Neither a file nor a directory any more (removed out of band).
    Missing,
}

/// The removal that fits an entry.
#[derive(Clone, Copy, Debug, PartialEq, Eq, Structural)]
pub enum Removal {
    /// Remove a single file.
    File,
    /// Remove a directory with everything beneath it.
    Tree,
    /// Attempt nothing.
    Skip,
}

/// What became of one entry in a pass.
#[derive(Clone, Copy, Debug, PartialEq, Eq, Structural)]
pub enum Outcome {
    Removed,
    Failed,
    Skipped,
}

pub open spec fn removal_for(kind: EntryKind) -> Removal {
    match kind {
        EntryKind::File => Removal::File,
        EntryKind::Dir => Removal::Tree,
        EntryKind::Missing => Removal::Skip,
    }
}

/// A missing entry is skipped whatever is reported for it; otherwise the
/// entry is removed or failed as its removal went.
pub open spec fn outcome_spec(kind: EntryKind, succeeded: bool) -> Outcome {
    match kind {
        EntryKind::Missing => Outcome::Skipped,
        _ => if succeeded {
            Outcome::Removed
        } else {
            Outcome::Failed
        },
    }
}

/// Positions of the failed entries, in order.
pub open spec fn failed_indices(s: Seq<Outcome>) -> Seq<usize>
    decreases s.len(),
{
    if s.len() == 0 {
        Seq::empty()
    } else if s.last() == Outcome::Failed {
        failed_indices(s.drop_last()).push((s.len() - 1) as usize)
    } else {
        failed_indices(s.drop_last())
    }
}

/// How many entries came to `o`.
pub open spec fn count_outcome(s: Seq<Outcome>, o: Outcome) -> nat
    decreases s.len(),
{
    if s.len() == 0 {
        0
    } else if s.last() == o {
        count_outcome(s.drop_last(), o) + 1
    } else {
        count_outcome(s.drop_last(), o)
    }
}

/// The outcomes of entries of the given kinds whose removals went as `results` says.
pub open spec fn outcomes_of(kinds: Seq<EntryKind>, results: Seq<bool>) -> Seq<Outcome>
    recommends
        kinds.len() == results.len(),
{
    Seq::new(kinds.len(), |i: int| outcome_spec(kinds[i], results[i]))
}

/// The removal that fits an entry of this kind: a file is removed alone, a
/// directory with its whole subtree (the walk lists parents before children),
/// and nothing is attempted for a missing entry.
pub fn plan_removal(kind: EntryKind) -> (r: Removal)
    ensures
        r == removal_for(kind),
{
    match kind {
        EntryKind::File => Removal::File,
        EntryKind::Dir => Removal::Tree,
        EntryKind::Missing => Removal::Skip,
    }
}

/// What an entry of this kind came to, given whether its removal succeeded.
pub fn outcome_of(kind: EntryKind, succeeded: bool) -> (r: Outcome)
    ensures
        r == outcome_spec(kind, succeeded),
{
    match kind {
        EntryKind::Missing => Outcome::Skipped,
        _ => if succeeded {
            Outcome::Removed
        } else {
            Outcome::Failed
        },
    }
}

/// What the driver reports after one entry.
#[derive(Clone, Copy, Debug, PartialEq, Eq, Structural)]
pub struct StepReport {
    /// What became of the entry.
    pub outcome: Outcome,
    /// Entries processed so far, this one included.
    pub current: usize,
    /// Entries in the pass.
    pub total: usize,
    /// The chunk that this entry completed, if it was the last of one.
    pub chunk_done: Option<usize>,
}

/// A deletion pass over `total` entries, in chunks of `chunk_size`.
pub struct DeletionPass {
    total: usize,
    chunk_size: usize,
    outcomes: Vec<Outcome>,
    failed: Vec<usize>,
    removed: usize,
    skipped: usize,
}

impl View for DeletionPass {
    type V = Seq<Outcome>;

    /// The outcomes of the entries processed so far, in order.
    closed spec fn view(&self) -> Seq<Outcome> {
        self.outcomes@
    }
}

impl DeletionPass {
    pub closed spec fn total_spec(&self) -> nat {
        self.total as nat
    }

    pub closed spec fn chunk_size_spec(&self) -> nat {
        self.chunk_size as nat
    }

    pub closed spec fn wf(&self) -> bool {
        &&& self.chunk_size > 0
        &&& self.outcomes@.len() <= self.total
        &&& self.failed@ == failed_indices(self.outcomes@)
        &&& self.removed == count_outcome(self.outcomes@, Outcome::Removed)
        &&& self.skipped == count_outcome(self.outcomes@, Outcome::Skipped)
    }

    pub open spec fn is_done(&self) -> bool {
        self@.len() == self.total_spec()
    }

    /// A pass over `total` entries in chunks of `chunk_size`, none processed yet.
    pub fn new(total: usize, chunk_size: usize) -> (r: DeletionPass)
        requires
            chunk_size > 0,
        ensures
            r.wf(),
            r@ == Seq::<Outcome>::empty(),
            r.total_spec() == total,
            r.chunk_size_spec() == chunk_size,
    {
        DeletionPass {
            total,
            chunk_size,
            outcomes: Vec::new(),
            failed: Vec::new(),
            removed: 0,
            skipped: 0,
        }
    }

    /// Entries in the pass.
    pub fn total(&self) -> (r: usize)
        ensures
            r == self.total_spec(),
    {
        self.total
    }

    /// Chunks in the pass: `ceil(total / chunk_size)`.
    pub fn chunk_total(&self) -> (r: usize)
        requires
            self.wf(),
        ensures
            r == chunk_count_spec(self.total_spec(), self.chunk_size_spec()),
    {
        crate::chunks::chunk_count(self.total, self.chunk_size)
    }

    /// The position of the entry whose turn it is, or `None` once all are processed.
    pub fn next_entry(&self) -> (r: Option<usize>)
        requires
            self.wf(),
        ensures
            r is None <==> self.is_done(),
            r is Some ==> r->0 == self@.len(),
    {
        if self.outcomes.len() < self.total {
            Some(self.outcomes.len())
        } else {
            None
        }
    }

    /// Records the entry whose turn it is: what was found at its path and, where
    /// a removal was made, whether it succeeded.
    pub fn record(&mut self, kind: EntryKind, succeeded: bool) -> (r: StepReport)
        requires
            old(self).wf(),
            !old(self).is_done(),
        ensures
            final(self).wf(),
            final(self)@ == old(self)@.push(outcome_spec(kind, succeeded)),
            final(self).total_spec() == old(self).total_spec(),
            final(self).chunk_size_spec() == old(self).chunk_size_spec(),
            r.outcome == outcome_spec(kind, succeeded),
            r.current == final(self)@.len(),
            r.total == final(self).total_spec(),
            r.chunk_done is Some <==> ((r.current as int) % (final(self).chunk_size_spec() as int) == 0
                || r.current == r.total),
            r.chunk_done is Some ==> r.chunk_done->0 == (r.current - 1) / (final(self).chunk_size_spec() as int),
            r.chunk_done is Some ==> r.current == chunk_end(
                r.chunk_done->0 as nat,
                final(self).chunk_size_spec(),
                final(self).total_spec(),
            ),
    {
        let outcome = outcome_of(kind, succeeded);
        let index = self.outcomes.len();
        let ghost before = self.outcomes@;
        proof {
            lemma_counts_bounded(before);
        }
        self.outcomes.push(outcome);
        match outcome {
            Outcome::Failed => {
                self.failed.push(index);
            },
            Outcome::Removed => {
                self.removed = self.removed + 1;
            },
            Outcome::Skipped => {
                self.skipped = self.skipped + 1;
            },
        }
        proof {
            assert(self.outcomes@.drop_last() =~= before);
        }
        let current = index + 1;
        let size = self.chunk_size;
        let chunk_done = if current % size == 0 || current == self.total {
            let k = (current - 1) / size;
            proof {
                lemma_chunk_of_last(current as nat, size as nat, self.total as nat);
            }
            Some(k)
        } else {
            None
        };
        StepReport { outcome, current, total: self.total, chunk_done }
    }

    /// The positions of the entries that failed so far, in order.
    pub fn failures(&self) -> (r: Vec<usize>)
        requires
            self.wf(),
        ensures
            r@ == failed_indices(self@),
    {
        let r = self.failed.clone();
        assert(r@ =~= self.failed@);
        r
    }

    /// Entries removed so far.
    pub fn removed_count(&self) -> (r: usize)
        requires
            self.wf(),
        ensures
            r == count_outcome(self@, Outcome::Removed),
    {
        self.removed
    }

    /// Entries skipped so far, having gone missing before their turn.
    pub fn skipped_count(&self) -> (r: usize)
        requires
            self.wf(),
        ensures
            r == count_outcome(self@, Outcome::Skipped),
    {
        self.skipped
    }

    /// Entries that failed so far.
    pub fn failed_count(&self) -> (r: usize)
        requires
            self.wf(),
        ensures
            r == count_outcome(self@, Outcome::Failed),
    {
        proof {
            lemma_each_entry_one_outcome(self.outcomes@);
        }
        self.failed.len()
    }
}

proof fn lemma_counts_bounded(s: Seq<Outcome>)
    ensures
        count_outcome(s, Outcome::Removed) <= s.len(),
        count_outcome(s, Outcome::Skipped) <= s.len(),
        count_outcome(s, Outcome::Failed) <= s.len(),
    decreases s.len(),
{
    if s.len() > 0 {
        lemma_counts_bounded(s.drop_last());
    }
}

proof fn lemma_chunk_of_last(current: nat, size: nat, total: nat)
    requires
        0 < current <= total,
        size > 0,
        current % size == 0 || current == total,
    ensures
        current == chunk_end(((current - 1) as nat / size) as nat, size, total),
{
    let c = current as int;
    let d = size as int;
    let k = (c - 1) / d;
    vstd::arithmetic::div_mod::lemma_fundamental_div_mod(c - 1, d);
    vstd::arithmetic::div_mod::lemma_mod_bound(c - 1, d);
    assert((k + 1) * d == k * d + d) by (nonlinear_arith);
    if current % size == 0 {
        vstd::arithmetic::div_mod::lemma_fundamental_div_mod(c, d);
        assert(c == k * d + d) by (nonlinear_arith)
            requires
                c - 1 == d * k + (c - 1) % d,
                c == d * (c / d) + c % d,
                c % d == 0,
                0 <= (c - 1) % d < d,
                d > 0,
                c > 0,
        ;
    } else {
        assert(c <= (k + 1) * d);
    }
}

/// Every processed entry ends in exactly one of removed, failed or skipped: an
/// entry is on the failure list exactly when it failed, the list names each
/// failed entry once and in order, and the three counts add up to the entries
/// processed.
pub proof fn lemma_each_entry_one_outcome(s: Seq<Outcome>)
    requires
        s.len() <= usize::MAX,
    ensures
        forall|i: int|
            0 <= i < s.len() ==> (failed_indices(s).contains(i as usize) <==> s[i]
                == Outcome::Failed),
        forall|j: int| 0 <= j < failed_indices(s).len() ==> failed_indices(s)[j] < s.len(),
        forall|j: int, k: int|
            0 <= j < k < failed_indices(s).len() ==> failed_indices(s)[j] < failed_indices(s)[k],
        failed_indices(s).len() == count_outcome(s, Outcome::Failed),
        count_outcome(s, Outcome::Removed) + count_outcome(s, Outcome::Failed) + count_outcome(
            s,
            Outcome::Skipped,
        ) == s.len(),
    decreases s.len(),
{
    if s.len() > 0 {
        let p = s.drop_last();
        lemma_each_entry_one_outcome(p);
        let fp = failed_indices(p);
        let fs = failed_indices(s);
        let last = (s.len() - 1) as usize;
        if s.last() == Outcome::Failed {
            assert(fs == fp.push(last));
        } else {
            assert(fs == fp);
        }
        assert forall|j: int| 0 <= j < fs.len() implies fs[j] < s.len() by {
            if j < fp.len() {
                assert(fs[j] == fp[j]);
            }
        }
        assert forall|j: int, k: int| 0 <= j < k < fs.len() implies fs[j] < fs[k] by {
            assert(fs[j] == fp[j]);
            if k < fp.len() {
                assert(fs[k] == fp[k]);
            }
        }
        assert forall|i: int| 0 <= i < s.len() implies (fs.contains(i as usize) <==> s[i]
            == Outcome::Failed) by {
            if i < p.len() {
                assert(p[i] == s[i]);
                if fs.contains(i as usize) {
                    let j = choose|j: int| 0 <= j < fs.len() && fs[j] == i as usize;
                    if j < fp.len() {
                        assert(fp[j] == fs[j]);
                        assert(fp.contains(i as usize));
                    } else {
                        assert(fs[j] == last);
                    }
                }
                if fp.contains(i as usize) {
                    let j = choose|j: int| 0 <= j < fp.len() && fp[j] == i as usize;
                    assert(fs[j] == fp[j]);
                    assert(fs.contains(i as usize));
                }
            } else {
                assert(i as usize == last);
                if s.last() == Outcome::Failed {
                    assert(fs[fs.len() - 1] == last);
                    assert(fs.contains(i as usize));
                } else if fs.contains(i as usize) {
                    let j = choose|j: int| 0 <= j < fs.len() && fs[j] == i as usize;
                    assert(fp[j] < p.len());
                }
            }
        }
    }
}

/// Running a pass again over entries that are all gone by then fails nothing:
/// whatever is reported of their removals, every one is skipped and the new
/// failure list is empty.
pub proof fn lemma_vanished_entries_never_fail(kinds: Seq<EntryKind>, results: Seq<bool>)
    requires
        kinds.len() == results.len(),
        forall|i: int| 0 <= i < kinds.len() ==> kinds[i] == EntryKind::Missing,
    ensures
        failed_indices(outcomes_of(kinds, results)) == Seq::<usize>::empty(),
        count_outcome(outcomes_of(kinds, results), Outcome::Skipped) == kinds.len(),
    decreases kinds.len(),
{
    let s = outcomes_of(kinds, results);
    if kinds.len() > 0 {
        let kp = kinds.drop_last();
        let rp = results.drop_last();
        lemma_vanished_entries_never_fail(kp, rp);
        assert(s.drop_last() =~= outcomes_of(kp, rp));
    } else {
        assert(s.len() == 0);
    }
}

} // verus!
