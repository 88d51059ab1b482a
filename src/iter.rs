use vstd::prelude::*;

verus! {

/// What one pull from a sequence of remaining items yields: the rest of the
/// sequence, and the first item if there is one.
pub open spec fn pull<T>(rest: Seq<T>) -> (Seq<T>, Option<T>) {
    if rest.len() == 0 {
        (rest, None)
    } else {
        (rest.drop_first(), Some(rest[0]))
    }
}

/// What remains after `n` pulls.
pub open spec fn pull_n<T>(rest: Seq<T>, n: nat) -> Seq<T>
    decreases n,
{
    if n == 0 {
        rest
    } else {
        pull_n(pull(rest).0, (n - 1) as nat)
    }
}

/// The items produced by the first `n` pulls, in order; exhaustion produces nothing.
pub open spec fn pulled<T>(rest: Seq<T>, n: nat) -> Seq<T>
    decreases n,
{
    if n == 0 {
        Seq::empty()
    } else {
        match pull(rest).1 {
            Some(x) => seq![x] + pulled(pull(rest).0, (n - 1) as nat),
            None => Seq::empty(),
        }
    }
}

/// After `n` pulls from `rest`, what remains is `rest` without its first `n`
/// items, and what came out is exactly those items, in order; pulls past the
/// end take and produce nothing more.
pub proof fn lemma_pulls<T>(rest: Seq<T>, n: nat)
    ensures
        pull_n(rest, n) == rest.subrange(
            if n <= rest.len() { n as int } else { rest.len() as int },
            rest.len() as int,
        ),
        pulled(rest, n) == rest.subrange(
            0,
            if n <= rest.len() { n as int } else { rest.len() as int },
        ),
    decreases n,
{
    if n == 0 {
        assert(rest.subrange(0, rest.len() as int) =~= rest);
        assert(rest.subrange(0, 0) =~= Seq::<T>::empty());
    } else if rest.len() == 0 {
        lemma_pulls(rest, (n - 1) as nat);
    } else {
        let tail = rest.drop_first();
        lemma_pulls(tail, (n - 1) as nat);
        let m = if n <= rest.len() { n as int } else { rest.len() as int };
        assert(tail.subrange(m - 1, tail.len() as int) =~= rest.subrange(m, rest.len() as int));
        assert(seq![rest[0]] + tail.subrange(0, m - 1) =~= rest.subrange(0, m));
    }
}

/// An iterator that starts with `rest.len()` elements left produces an
/// element on each of its first `rest.len()` pulls; the pull after those
/// reports exhaustion, and so does every later pull, which leaves the
/// iterator as it is.
pub proof fn lemma_exhaustion_is_permanent<T>(rest: Seq<T>, k: nat)
    requires
        k >= rest.len(),
    ensures
        forall|j: nat| j < rest.len() ==> (#[trigger] pull(pull_n(rest, j)).1) is Some,
        pull(pull_n(rest, k)).1 is None,
        pull(pull_n(rest, k)).0 == pull_n(rest, k),
        pull_n(rest, k) == pull_n(rest, rest.len()),
{
    assert forall|j: nat| j < rest.len() implies (#[trigger] pull(pull_n(rest, j)).1) is Some by {
        lemma_pulls(rest, j);
    }
    lemma_pulls(rest, k);
    lemma_pulls(rest, rest.len());
}

/// An iterator over the elements of a linker set.
///
/// It borrows the set's static region and holds a cursor into it; each pull
/// advances the cursor by one element. Its view is the sequence of elements
/// that it has yet to produce.
pub struct LinkerSetIter<T: 'static> {
    items: &'static [T],
    next: usize,
}

impl<T: 'static> View for LinkerSetIter<T> {
    type V = Seq<T>;

    closed spec fn view(&self) -> Seq<T> {
        self.items@.subrange(self.next as int, self.items@.len() as int)
    }
}

impl<T: 'static> LinkerSetIter<T> {
    #[verifier::type_invariant]
    closed spec fn cursor_in_region(self) -> bool {
        self.next <= self.items@.len()
    }

    /// Creates an iterator over a non-empty region of elements.
    ///
    /// An empty region is a broken set-up here; a linker set that may be
    /// empty is iterated through [`crate::LinkerSet::iter`].
    pub fn new(items: &'static [T]) -> (r: Self)
        requires
            items@.len() > 0,
        ensures
            r@ == items@,
    {
        Self::over(items)
    }

    /// Creates an iterator over any region, empty or not.
    pub(crate) fn over(items: &'static [T]) -> (r: Self)
        ensures
            r@ == items@,
    {
        let r = LinkerSetIter { items, next: 0 };
        assert(r@ =~= items@);
        r
    }

    /// Produces the next element, or `None` once the region is exhausted.
    ///
    /// Exhaustion is permanent: an exhausted iterator stays as it is.
    pub fn next(&mut self) -> (r: Option<&'static T>)
        ensures
            final(self)@ == pull(old(self)@).0,
            r matches Some(x) ==> pull(old(self)@).1 == Some(*x),
            r is None <==> pull(old(self)@).1 is None,
    {
        proof {
            use_type_invariant(&*self);
        }
        let items = self.items;
        if self.next == items.len() {
            assert(self@.len() == 0);
            None
        } else {
            let i = self.next;
            let x: &'static T = vstd::slice::slice_index_get(items, i);
            self.next = i + 1;
            assert(self@ =~= old(self)@.drop_first());
            Some(x)
        }
    }

    /// The number of elements left to produce, without consuming any.
    pub fn len(&self) -> (r: usize)
        ensures
            r == self@.len(),
    {
        proof {
            use_type_invariant(self);
        }
        self.items.len() - self.next
    }

    /// True when no element is left to produce.
    pub fn is_empty(&self) -> (r: bool)
        ensures
            r == (self@.len() == 0),
    {
        self.len() == 0
    }

    /// The number of elements left; consumes the iterator.
    pub fn count(self) -> (r: usize)
        ensures
            r == self@.len(),
    {
        self.len()
    }

    /// Bounds on the number of elements left; both are exact.
    pub fn size_hint(&self) -> (r: (usize, Option<usize>))
        ensures
            r.0 == self@.len(),
            r.1 == Some(self@.len() as usize),
    {
        let len = self.len();
        (len, Some(len))
    }
}

} // verus!
