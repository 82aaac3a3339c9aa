//! Callables that stream operators apply to the context/element pairs
//! flowing through them.
//!
//! A closure handed to an operator either looks at the context too
//! (`Fn(&C, &T) -> V`, the `_ctx` flavour of each operator) or only at
//! the element (`Fn(&T) -> V`, wrapped in [`NoContext`]).  Both are seen by
//! the operators through [`ContextFn`] (or [`ContextFoldFn`] for folds), whose
//! spec functions say when the callable may be invoked and which outputs it
//! may produce.
use core::marker::PhantomData;
use vstd::prelude::*;

verus! {

/// A callable taking a context and an element by reference.
pub trait ContextFn<C, T>: Sized {
    /// What a call produces.
    type Output;

    /// The callable may be invoked on any context/element pair.
    spec fn ready(&self) -> bool;

    /// `out` is a possible result of invoking the callable on `(ctx, item)`.
    spec fn gives(&self, ctx: C, item: T, out: Self::Output) -> bool;

    /// Invokes the callable.
    fn call(&self, ctx: &C, item: &T) -> (out: Self::Output)
        requires
            self.ready(),
        ensures
            self.gives(*ctx, *item, out),
    ;
}

impl<C, T, V, F> ContextFn<C, T> for F where F: Fn(&C, &T) -> V {
    type Output = V;

    open spec fn ready(&self) -> bool {
        forall|c: &C, t: &T| call_requires(*self, (c, t))
    }

    open spec fn gives(&self, ctx: C, item: T, out: V) -> bool {
        call_ensures(*self, (&ctx, &item), out)
    }

    fn call(&self, ctx: &C, item: &T) -> (out: V) {
        self(ctx, item)
    }
}

/// A callable taking a context, an accumulator and an element by reference,
/// and producing the next value of the accumulator.
pub trait ContextFoldFn<C, T, V>: Sized {
    /// What a call produces.
    type Output;

    /// The callable may be invoked on any context/accumulator/element triple.
    spec fn ready(&self) -> bool;

    /// `out` is a possible result of invoking the callable on `(ctx, acc, item)`.
    spec fn gives(&self, ctx: C, acc: V, item: T, out: Self::Output) -> bool;

    /// Invokes the callable.
    fn call(&self, ctx: &C, acc: &V, item: &T) -> (out: Self::Output)
        requires
            self.ready(),
        ensures
            self.gives(*ctx, *acc, *item, out),
    ;
}

impl<C, T, V, W, F> ContextFoldFn<C, T, V> for F where F: Fn(&C, &V, &T) -> W {
    type Output = W;

    open spec fn ready(&self) -> bool {
        forall|c: &C, a: &V, t: &T| call_requires(*self, (c, a, t))
    }

    open spec fn gives(&self, ctx: C, acc: V, item: T, out: W) -> bool {
        call_ensures(*self, (&ctx, &acc, &item), out)
    }

    fn call(&self, ctx: &C, acc: &V, item: &T) -> (out: W) {
        self(ctx, acc, item)
    }
}

/// Adapter that lets a closure which ignores the context act as a
/// [`ContextFn`] or a [`ContextFoldFn`]: the context is dropped before the call.
pub struct NoContext<F>(pub F);

impl<F, C, T, V> ContextFn<C, T> for NoContext<F> where F: Fn(&T) -> V {
    type Output = V;

    open spec fn ready(&self) -> bool {
        forall|t: &T| call_requires(self.0, (t,))
    }

    open spec fn gives(&self, ctx: C, item: T, out: V) -> bool {
        call_ensures(self.0, (&item,), out)
    }

    fn call(&self, _ctx: &C, item: &T) -> (out: V) {
        (self.0)(item)
    }
}

impl<F, C, T, V, W> ContextFoldFn<C, T, V> for NoContext<F> where F: Fn(&V, &T) -> W {
    type Output = W;

    open spec fn ready(&self) -> bool {
        forall|a: &V, t: &T| call_requires(self.0, (a, t))
    }

    open spec fn gives(&self, ctx: C, acc: V, item: T, out: W) -> bool {
        call_ensures(self.0, (&acc, &item), out)
    }

    fn call(&self, _ctx: &C, acc: &V, item: &T) -> (out: W) {
        (self.0)(acc, item)
    }
}

/// The composition of two callables on the same context: the second is
/// invoked on the context and on what the first made of the pair.
pub struct Then<F, G, U>(pub F, pub G, pub PhantomData<U>);

impl<C, T, U, V, F, G> ContextFn<C, T> for Then<F, G, U> where
    F: ContextFn<C, T, Output = U>,
    G: ContextFn<C, U, Output = V>,
 {
    type Output = V;

    open spec fn ready(&self) -> bool {
        self.0.ready() && self.1.ready()
    }

    open spec fn gives(&self, ctx: C, item: T, out: V) -> bool {
        exists|mid: U| #[trigger] self.0.gives(ctx, item, mid) && self.1.gives(ctx, mid, out)
    }

    fn call(&self, ctx: &C, item: &T) -> (out: V) {
        let mid = self.0.call(ctx, item);
        let out = self.1.call(ctx, &mid);
        assert(self.0.gives(*ctx, *item, mid) && self.1.gives(*ctx, mid, out));
        out
    }
}

/// A [`ContextFn`] that is known to accept every input; operator streams
/// and nodes keep their callable in this form, so that they can always
/// invoke it.
pub struct Prepared<C, T, F: ContextFn<C, T>> {
    func: F,
    marker: PhantomData<(C, T)>,
}

impl<C, T, F: ContextFn<C, T>> Prepared<C, T, F> {
    #[verifier::type_invariant]
    closed spec fn accepts_all(&self) -> bool {
        self.func.ready()
    }

    /// The wrapped callable.
    pub closed spec fn inner(&self) -> F {
        self.func
    }

    /// Wraps a callable that accepts every input.
    pub fn new(func: F) -> (p: Self)
        requires
            func.ready(),
        ensures
            p.inner() == func,
    {
        Prepared { func, marker: PhantomData }
    }

    /// Invokes the wrapped callable.
    pub fn call(&self, ctx: &C, item: &T) -> (out: F::Output)
        ensures
            self.inner().gives(*ctx, *item, out),
    {
        proof {
            use_type_invariant(self);
        }
        self.func.call(ctx, item)
    }
}

/// A [`ContextFoldFn`] that is known to accept every input.
pub struct PreparedFold<C, T, V, F: ContextFoldFn<C, T, V>> {
    func: F,
    marker: PhantomData<(C, T, V)>,
}

impl<C, T, V, F: ContextFoldFn<C, T, V>> PreparedFold<C, T, V, F> {
    #[verifier::type_invariant]
    closed spec fn accepts_all(&self) -> bool {
        self.func.ready()
    }

    /// The wrapped callable.
    pub closed spec fn inner(&self) -> F {
        self.func
    }

    /// Wraps a callable that accepts every input.
    pub fn new(func: F) -> (p: Self)
        requires
            func.ready(),
        ensures
            p.inner() == func,
    {
        PreparedFold { func, marker: PhantomData }
    }

    /// Invokes the wrapped callable.
    pub fn call(&self, ctx: &C, acc: &V, item: &T) -> (out: F::Output)
        ensures
            self.inner().gives(*ctx, *acc, *item, out),
    {
        proof {
            use_type_invariant(self);
        }
        self.func.call(ctx, acc, item)
    }
}

} // verus!
