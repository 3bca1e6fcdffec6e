//! Collecting the entries of a directory walk: every readable item of the walk
//! becomes an entry, in the order of the walk; an item that could not be read
//! is skipped and does not stop the collection.

use vstd::prelude::*;
use std::path::PathBuf;

verus! {

/// `std::path::PathBuf`, carried through unopened: an entry's path.
#[verifier::external_type_specification]
#[verifier::external_body]
pub struct ExPathBuf(std::path::PathBuf);

/// `walkdir::DirEntry`, carried through unopened: a readable item of a walk.
#[verifier::external_type_specification]
#[verifier::external_body]
pub struct ExDirEntry(walkdir::DirEntry);

/// `walkdir::Error`, carried through unopened: an item of a walk that could not be read.
#[verifier::external_type_specification]
#[verifier::external_body]
pub struct ExWalkError(walkdir::Error);

/// One item of a walk: an entry, or the error of one that could not be read.
pub type WalkItem = Result<walkdir::DirEntry, walkdir::Error>;

/// How many of the flags are set.
pub open spec fn count_true(s: Seq<bool>) -> nat
    decreases s.len(),
{
    if s.len() == 0 {
        0
    } else {
        count_true(s.drop_last()) + if s.last() {
            1nat
        } else {
            0nat
        }
    }
}

/// Whether each walk item was readable.
pub open spec fn readable_flags(items: Seq<WalkItem>) -> Seq<bool> {
    Seq::new(items.len(), |i: int| items[i] is Ok)
}

/// How many walk items were readable.
pub open spec fn readable_count(items: Seq<WalkItem>) -> nat {
    count_true(readable_flags(items))
}

/// The path that a walk entry holds.
pub uninterp spec fn path_of(e: walkdir::DirEntry) -> PathBuf;

/// Relies on `walkdir::DirEntry::into_path`: the entry's path, taken out of it.
#[verifier::external_body]
fn entry_into_path(e: walkdir::DirEntry) -> (r: PathBuf)
    ensures
        r == path_of(e),
{
    e.into_path()
}

proof fn lemma_count_true_bounded(s: Seq<bool>)
    ensures
        count_true(s) <= s.len(),
    decreases s.len(),
{
    if s.len() > 0 {
        lemma_count_true_bounded(s.drop_last());
    }
}

/// How many items of a buffered walk are readable: the number of entries that
/// collecting it will give, known before collecting.
pub fn count_readable(items: &Vec<WalkItem>) -> (r: usize)
    ensures
        r == readable_count(items@),
{
    let mut n: usize = 0;
    let mut i: usize = 0;
    while i < items.len()
        invariant
            i <= items@.len(),
            n == count_true(readable_flags(items@).take(i as int)),
        decreases items@.len() - i,
    {
        let ghost flags = readable_flags(items@);
        proof {
            assert(flags.take(i + 1).drop_last() =~= flags.take(i as int));
            lemma_count_true_bounded(flags.take(i as int));
        }
        if items[i].is_ok() {
            n = n + 1;
        }
        i = i + 1;
    }
    assert(readable_flags(items@).take(i as int) =~= readable_flags(items@));
    n
}

/// The entries collected from a walk so far.
pub struct TreeCollector {
    entries: Vec<PathBuf>,
    unreadable: usize,
    seen: Ghost<Seq<bool>>,
}

impl View for TreeCollector {
    type V = Seq<bool>;

    /// For each walk item taken in so far, in order, whether it was readable.
    closed spec fn view(&self) -> Seq<bool> {
        self.seen@
    }
}

impl TreeCollector {
    /// The entries collected so far, in the order of the walk.
    pub closed spec fn entries_spec(&self) -> Seq<PathBuf> {
        self.entries@
    }

    pub closed spec fn wf(&self) -> bool {
        &&& self.entries@.len() == count_true(self.seen@)
        &&& self.unreadable + count_true(self.seen@) == self.seen@.len()
    }

    /// A collector that has taken in nothing.
    pub fn new() -> (r: TreeCollector)
        ensures
            r.wf(),
            r@ == Seq::<bool>::empty(),
            r.entries_spec() == Seq::<PathBuf>::empty(),
    {
        TreeCollector { entries: Vec::new(), unreadable: 0, seen: Ghost(Seq::empty()) }
    }

    /// Takes in the next item of the walk: a readable one adds its path at the
    /// end of the entries, an unreadable one is skipped. Returns whether it was kept.
    pub fn accept(&mut self, item: WalkItem) -> (kept: bool)
        requires
            old(self).wf(),
            old(self)@.len() < usize::MAX,
        ensures
            final(self).wf(),
            kept == item is Ok,
            final(self)@ == old(self)@.push(kept),
            kept ==> final(self).entries_spec() == old(self).entries_spec().push(
                path_of(item->Ok_0),
            ),
            !kept ==> final(self).entries_spec() == old(self).entries_spec(),
    {
        proof {
            lemma_count_true_bounded(self.seen@);
        }
        let ghost before = self.seen@;
        match item {
            Ok(e) => {
                let p = entry_into_path(e);
                self.entries.push(p);
                self.seen = Ghost(before.push(true));
                assert(self.seen@.drop_last() =~= before);
                true
            },
            Err(_) => {
                self.unreadable = self.unreadable + 1;
                self.seen = Ghost(before.push(false));
                assert(self.seen@.drop_last() =~= before);
                false
            },
        }
    }

    /// Entries collected: exactly the number of readable items taken in.
    pub fn len(&self) -> (r: usize)
        requires
            self.wf(),
        ensures
            r == count_true(self@),
            r == self.entries_spec().len(),
    {
        self.entries.len()
    }

    /// Items of the walk that could not be read and were skipped.
    pub fn unreadable_count(&self) -> (r: usize)
        requires
            self.wf(),
        ensures
            r == self@.len() - count_true(self@),
    {
        self.unreadable
    }

    /// The collected entries, in the order of the walk.
    pub fn into_entries(self) -> (r: Vec<PathBuf>)
        ensures
            r@ == self.entries_spec(),
    {
        self.entries
    }
}

} // verus!
