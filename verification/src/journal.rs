//! A record of the calls made to a list of observers.
//!
//! A journal can only grow through `Journal::call`, which hands a pair to
//! one observer of a list and records, for that call, the history the
//! observer has right after it.  Whoever holds a journal can therefore not
//! write into it what did not happen: each entry is the trace of a real call,
//! in the order the calls were made.
use crate::observer::Observer;
use vstd::prelude::*;

verus! {

/// The calls made so far, oldest first: for each call, the history of the
/// observer called, just after the call (its last pair is the one handed).
#[verifier::reject_recursive_types(C)]
#[verifier::reject_recursive_types(T)]
pub struct Journal<C, T> {
    calls: Ghost<Seq<Seq<(C, T)>>>,
}

impl<C, T> Journal<C, T> {
    /// The recorded calls, oldest first.
    pub closed spec fn calls(&self) -> Seq<Seq<(C, T)>> {
        self.calls@
    }

    /// A journal of no calls.
    pub fn new() -> (j: Self)
        ensures
            j.calls() == Seq::<Seq<(C, T)>>::empty(),
    {
        Journal { calls: Ghost(Seq::empty()) }
    }

    /// Hands `(ctx, item)` to the observer at position `i` of `list`, and
    /// records the call.
    pub fn call<'a>(&mut self, list: &mut Vec<Box<dyn Observer<C, T> + 'a>>, i: usize, ctx: &C, item: &T)
        requires
            i < old(list).len(),
        ensures
            final(list).len() == old(list).len(),
            final(list)@[i as int].received() == old(list)@[i as int].received().push((*ctx, *item)),
            old(list)@[i as int].inv() ==> final(list)@[i as int].inv(),
            forall|j: int| 0 <= j < old(list).len() && j != i ==> #[trigger] final(list)@[j] == old(list)@[j],
            final(self).calls() == old(self).calls().push(final(list)@[i as int].received()),
    {
        list[i].observe(ctx, item);
        self.calls = Ghost(self.calls@.push(list@[i as int].received()));
    }
}

} // verus!
