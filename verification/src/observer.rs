//! Observers: the receiving end of a stream.
//!
//! Every observer keeps, as ghost state, the sequence of context/element
//! pairs it has been handed so far.  Each delivery appends exactly one pair;
//! this is what lets the operators state precisely what they pass downstream.
//! An observer can always receive the next pair: whatever it needs for that
//! is part of its type invariant.
use crate::func::ContextFn;
use vstd::prelude::*;

verus! {

/// Something that receives context/element pairs, one at a time.
pub trait Observer<C, T> {
    /// The pairs delivered so far, oldest first.
    spec fn received(&self) -> Seq<(C, T)>;

    /// What the observer keeps true of itself from one delivery to the next
    /// (for a node of a computational tree: that it and every node below it
    /// have passed on exactly what their operators make of what they got).
    spec fn inv(&self) -> bool;

    /// Delivers one context/element pair.
    fn observe(&mut self, ctx: &C, item: &T)
        ensures
            final(self).received() == old(self).received().push((*ctx, *item)),
            old(self).inv() ==> final(self).inv(),
    ;
}

/// An observer moved into a box, as a trait object that may live for `'a`.
#[verifier::reject_recursive_types(C)]
#[verifier::reject_recursive_types(T)]
pub struct Boxed<'a, C, T> {
    pub observer: Box<dyn Observer<C, T> + 'a>,
}

/// An observer that can be moved into a box as a trait object living for
/// `'a`, which is how a broadcast keeps its observers.
pub trait IntoBoxed<'a, C, T>: Observer<C, T> + Sized {
    /// Moves the observer into a box: the boxed observer is this one, with
    /// the same history and invariant.
    fn into_boxed(self) -> (b: Boxed<'a, C, T>)
        ensures
            b.observer.received() == self.received(),
            b.observer.inv() == self.inv(),
    ;
}

/// An observer made of a user-provided callable, which is invoked once per
/// delivered pair (its result, `()`, is dropped).
pub struct FnObserver<C, T, F: ContextFn<C, T, Output = ()>> {
    func: F,
    seen: Ghost<Seq<(C, T)>>,
}

impl<C, T, F: ContextFn<C, T, Output = ()>> FnObserver<C, T, F> {
    #[verifier::type_invariant]
    closed spec fn callable(&self) -> bool {
        self.func.ready()
    }

    /// The wrapped callable.
    pub closed spec fn func(&self) -> F {
        self.func
    }

    /// Wraps a callable; nothing has been delivered yet.
    pub fn new(func: F) -> (o: Self)
        requires
            func.ready(),
        ensures
            o.func() == func,
            o.received() == Seq::<(C, T)>::empty(),
            o.inv(),
    {
        FnObserver { func, seen: Ghost(Seq::empty()) }
    }
}

impl<C, T, F: ContextFn<C, T, Output = ()>> Observer<C, T> for FnObserver<C, T, F> {
    closed spec fn received(&self) -> Seq<(C, T)> {
        self.seen@
    }

    /// A closure keeps nothing of its own to be checked.
    open spec fn inv(&self) -> bool {
        true
    }

    fn observe(&mut self, ctx: &C, item: &T)
        ensures
            final(self).func() == old(self).func(),
            old(self).func().gives(*ctx, *item, ()),
    {
        proof {
            use_type_invariant(&*self);
        }
        self.func.call(ctx, item);
        self.seen = Ghost(self.seen@.push((*ctx, *item)));
    }
}

impl<'a, C: 'a, T: 'a, F: ContextFn<C, T, Output = ()> + 'a> IntoBoxed<'a, C, T> for FnObserver<C, T, F> {
    fn into_boxed(self) -> (b: Boxed<'a, C, T>) {
        Boxed { observer: Box::new(self) }
    }
}

} // verus!
