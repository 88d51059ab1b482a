use vstd::prelude::*;

use crate::iter::{lemma_exhaustion_is_permanent, lemma_pulls, pull, pull_n, pulled, LinkerSetIter};

verus! {

/// A handle on a linker set: the region between the set's start and stop
/// boundaries, seen as an immutable, statically-lived sequence of elements.
///
/// The handle can be copied, shared across threads and iterated any number
/// of times. Its view is the sequence of elements in the order the linker
/// laid them out.
pub struct LinkerSet<T: 'static> {
    slice: &'static [T],
}

impl<T: 'static> View for LinkerSet<T> {
    type V = Seq<T>;

    closed spec fn view(&self) -> Seq<T> {
        self.slice@
    }
}

impl<T: 'static> Clone for LinkerSet<T> {
    fn clone(&self) -> (r: Self)
        ensures
            r@ == self@,
    {
        LinkerSet { slice: self.slice }
    }
}

impl<T: 'static> LinkerSet<T> {
    /// Creates a handle over the region of a linker set. An empty region
    /// (no entry was linked in) is a legal set of no elements.
    pub fn new(slice: &'static [T]) -> (r: Self)
        ensures
            r@ == slice@,
    {
        LinkerSet { slice }
    }

    /// Returns a fresh iterator over every element of the set.
    pub fn iter(&self) -> (r: LinkerSetIter<T>)
        ensures
            r@ == self@,
    {
        LinkerSetIter::over(self.slice)
    }

    /// Turns the handle into an iterator over every element of the set.
    pub fn into_iter(self) -> (r: LinkerSetIter<T>)
        ensures
            r@ == self@,
    {
        self.iter()
    }

    /// Returns the number of elements in the set.
    pub fn len(&self) -> (r: usize)
        ensures
            r == self@.len(),
    {
        self.slice.len()
    }

    /// Returns true if the set contains zero elements.
    pub fn is_empty(&self) -> (r: bool)
        ensures
            r == (self@.len() == 0),
    {
        self.slice.len() == 0
    }

    /// Returns the element at position `i` of the linker's layout.
    pub fn index(&self, i: usize) -> (r: &'static T)
        requires
            i < self@.len(),
        ensures
            *r == self@[i as int],
    {
        vstd::slice::slice_index_get(self.slice, i)
    }

    /// Returns the elements at positions `lo` up to (not including) `hi`.
    pub fn index_range(&self, lo: usize, hi: usize) -> (r: &'static [T])
        requires
            lo <= hi <= self@.len(),
        ensures
            r@ == self@.subrange(lo as int, hi as int),
    {
        vstd::slice::slice_subrange(self.slice, lo, hi)
    }
}

/// A set of `N` elements has length `N`, and a fresh iterator over it
/// (`it@ == set@`, as `iter` gives) counts `N` elements and produces an
/// element on each of its first `N` pulls and none on the pull after those.
pub proof fn lemma_iteration_counts_every_entry<T>(set: LinkerSet<T>, it: LinkerSetIter<T>)
    requires
        it@ == set@,
    ensures
        it@.len() == set@.len(),
        pulled(it@, set@.len()).len() == set@.len(),
        forall|j: nat| j < set@.len() ==> (#[trigger] pull(pull_n(it@, j)).1) is Some,
        pull(pull_n(it@, set@.len())).1 is None,
{
    lemma_pulls(it@, set@.len());
    lemma_exhaustion_is_permanent(it@, set@.len());
}

/// Two traversals of the same set, each by a fresh iterator, produce the
/// same elements with the same multiplicities.
pub proof fn lemma_traversals_agree<T>(set: LinkerSet<T>, a: LinkerSetIter<T>, b: LinkerSetIter<T>)
    requires
        a@ == set@,
        b@ == set@,
    ensures
        pulled(a@, a@.len()) == set@,
        pulled(a@, a@.len()).to_multiset() == pulled(b@, b@.len()).to_multiset(),
{
    lemma_pulls(a@, a@.len());
    lemma_pulls(b@, b@.len());
    assert(set@.subrange(0, set@.len() as int) =~= set@);
}

/// Indexing a set at position `i` gives the element that a full traversal
/// by a fresh iterator produces at position `i`.
pub proof fn lemma_index_follows_traversal<T>(set: LinkerSet<T>, it: LinkerSetIter<T>, i: int)
    requires
        it@ == set@,
        0 <= i < set@.len(),
    ensures
        pulled(it@, it@.len())[i] == set@[i],
{
    lemma_traversals_agree(set, it, it);
}

} // verus!
