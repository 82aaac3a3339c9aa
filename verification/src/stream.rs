//! Streams of context/element pairs and the operators that transform them.
//!
//! An operator stream only describes a transformation: nothing happens until
//! it is subscribed to.  Subscribing to it subscribes, to its parent, a node
//! (see the `node` module) that applies the transformation and feeds the new
//! observer.
use crate::broadcast::{Broadcast, Relay};
use crate::func::{ContextFn, ContextFoldFn, NoContext, Prepared, PreparedFold};
use crate::node::{
    ContextNode, FilterMapNode, FilterNode, FoldNode, InspectNode, LastNNode, MapBothNode, MapNode,
    WithContextMapNode, WithContextNode,
};
use crate::observer::{FnObserver, IntoBoxed};
use core::marker::PhantomData;
use vstd::prelude::*;

verus! {

/// A stream of context/value pairs that can be subscribed to.
pub trait Stream<'a>: Sized {
    /// The type of the context attached to emitted elements.
    type Context: 'a;

    /// The type of the elements being emitted.
    type Item: 'a;

    /// Attaches an observer that keeps its invariant to the stream, which
    /// consumes the stream object.
    fn subscribe_observer<O>(self, observer: O) where O: 'a + IntoBoxed<'a, Self::Context, Self::Item>
        requires
            observer.inv(),
    ;

    /// Attaches an observer (a user-provided closure) that receives the
    /// elements; this consumes the stream object.
    ///
    /// A stream with no observer attached is essentially just a function of
    /// an observer; it will not react to incoming events until it is
    /// subscribed to.
    fn subscribe<O>(self, observer: O) where O: 'a + Fn(&Self::Item)
        requires
            forall|t: &Self::Item| call_requires(observer, (t,)),
    {
        self.subscribe_observer(FnObserver::new(NoContext(observer)));
    }

    /// Same as `subscribe()`, but the closure receives two arguments
    /// (context/value), by reference.
    fn subscribe_ctx<O>(self, observer: O) where O: 'a + Fn(&Self::Context, &Self::Item)
        requires
            forall|c: &Self::Context, t: &Self::Item| call_requires(observer, (c, t)),
    {
        self.subscribe_observer(FnObserver::new(observer));
    }

    /// Create a broadcast from a stream, enabling multiple observers.
    ///
    /// Note: this is equivalent to creating a broadcast via
    /// `Broadcast::from_stream()`.
    fn broadcast(self) -> Broadcast<'a, Self::Context, Self::Item> {
        let broadcast = Broadcast::new();
        self.subscribe_observer(Relay::new(broadcast.clone()));
        broadcast
    }

    /// Convenience method to extract the context into a separate stream:
    /// both the context and the value of the new stream are the parent
    /// stream's context.
    fn ctx(self) -> (out: Context<Self>)
        ensures
            out.source() == self,
    {
        Context { stream: self }
    }

    /// Set the context to a fixed constant value; the value is passed down
    /// unchanged.
    fn with_ctx<T>(self, ctx: T) -> (out: WithContext<Self, T>) where T: 'a
        ensures
            out.source() == self,
            out.context() == ctx,
    {
        WithContext { stream: self, ctx }
    }

    /// Creates a new stream which calls a closure on each context/value and
    /// uses that as the context; the value is passed down unchanged.
    fn with_ctx_map<F, T>(self, func: F) -> (out: WithContextMap<Self, Prepared<Self::Context, Self::Item, F>, T>) where
        F: 'a + Fn(&Self::Context, &Self::Item) -> T,
        T: 'a,
        requires
            forall|c: &Self::Context, t: &Self::Item| call_requires(func, (c, t)),
        ensures
            out.source() == self,
            out.func().inner() == func,
    {
        WithContextMap { stream: self, func: Prepared::new(func), context: PhantomData }
    }

    /// Creates a new stream which calls a closure on each element and uses
    /// that as the value; the context is passed down unchanged.
    fn map<F, T>(self, func: F) -> (out: Mapped<Self, Prepared<Self::Context, Self::Item, NoContext<F>>, T>) where
        F: 'a + Fn(&Self::Item) -> T,
        T: 'a,
        requires
            forall|t: &Self::Item| call_requires(func, (t,)),
        ensures
            out.source() == self,
            out.func().inner() == NoContext(func),
    {
        Mapped { stream: self, func: Prepared::new(NoContext(func)), output: PhantomData }
    }

    /// Same as `map()`, but the closure receives two arguments
    /// (context/value), by reference.
    fn map_ctx<F, T>(self, func: F) -> (out: Mapped<Self, Prepared<Self::Context, Self::Item, F>, T>) where
        F: 'a + Fn(&Self::Context, &Self::Item) -> T,
        T: 'a,
        requires
            forall|c: &Self::Context, t: &Self::Item| call_requires(func, (c, t)),
        ensures
            out.source() == self,
            out.func().inner() == func,
    {
        Mapped { stream: self, func: Prepared::new(func), output: PhantomData }
    }

    /// Same as `map()`, but the closure is expected to return a
    /// `(context, value)` tuple, so that both the context and the value can
    /// be changed at the same time.
    fn map_both<F, C, T>(self, func: F) -> (out: MapBoth<Self, Prepared<Self::Context, Self::Item, NoContext<F>>, C, T>) where
        F: 'a + Fn(&Self::Item) -> (C, T),
        C: 'a,
        T: 'a,
        requires
            forall|t: &Self::Item| call_requires(func, (t,)),
        ensures
            out.source() == self,
            out.func().inner() == NoContext(func),
    {
        MapBoth { stream: self, func: Prepared::new(NoContext(func)), output: PhantomData }
    }

    /// Same as `map_both()`, but the closure receives two arguments
    /// (context/value), by reference.
    fn map_both_ctx<F, C, T>(self, func: F) -> (out: MapBoth<Self, Prepared<Self::Context, Self::Item, F>, C, T>) where
        F: 'a + Fn(&Self::Context, &Self::Item) -> (C, T),
        C: 'a,
        T: 'a,
        requires
            forall|c: &Self::Context, t: &Self::Item| call_requires(func, (c, t)),
        ensures
            out.source() == self,
            out.func().inner() == func,
    {
        MapBoth { stream: self, func: Prepared::new(func), output: PhantomData }
    }

    /// Creates a stream which uses a closure to determine if an element
    /// should be yielded: if the closure returns `true`, the pair is passed
    /// downstream unchanged.
    fn filter<F>(self, func: F) -> (out: Filter<Self, Prepared<Self::Context, Self::Item, NoContext<F>>>) where
        F: 'a + Fn(&Self::Item) -> bool,
        requires
            forall|t: &Self::Item| call_requires(func, (t,)),
        ensures
            out.source() == self,
            out.func().inner() == NoContext(func),
    {
        Filter { stream: self, func: Prepared::new(NoContext(func)) }
    }

    /// Same as `filter()`, but the closure receives two arguments
    /// (context/value), by reference.
    fn filter_ctx<F>(self, func: F) -> (out: Filter<Self, Prepared<Self::Context, Self::Item, F>>) where
        F: 'a + Fn(&Self::Context, &Self::Item) -> bool,
        requires
            forall|c: &Self::Context, t: &Self::Item| call_requires(func, (c, t)),
        ensures
            out.source() == self,
            out.func().inner() == func,
    {
        Filter { stream: self, func: Prepared::new(func) }
    }

    /// Creates a stream that both filters and maps: if the closure returns
    /// `Some(element)`, that element is passed downstream with the incoming
    /// context; otherwise it is skipped.
    fn filter_map<F, T>(self, func: F) -> (out: FilterMap<Self, Prepared<Self::Context, Self::Item, NoContext<F>>, T>) where
        F: 'a + Fn(&Self::Item) -> Option<T>,
        T: 'a,
        requires
            forall|t: &Self::Item| call_requires(func, (t,)),
        ensures
            out.source() == self,
            out.func().inner() == NoContext(func),
    {
        FilterMap { stream: self, func: Prepared::new(NoContext(func)), output: PhantomData }
    }

    /// Same as `filter_map()`, but the closure receives two arguments
    /// (context/value), by reference.
    fn filter_map_ctx<F, T>(self, func: F) -> (out: FilterMap<Self, Prepared<Self::Context, Self::Item, F>, T>) where
        F: 'a + Fn(&Self::Context, &Self::Item) -> Option<T>,
        T: 'a,
        requires
            forall|c: &Self::Context, t: &Self::Item| call_requires(func, (c, t)),
        ensures
            out.source() == self,
            out.func().inner() == func,
    {
        FilterMap { stream: self, func: Prepared::new(func), output: PhantomData }
    }

    /// 'Reduce' operation on streams: the closure receives the accumulator
    /// and an element, and returns the next accumulator, which is passed
    /// downstream with the incoming context; on the first call the
    /// accumulator is `init`.
    fn fold<F, T>(self, init: T, func: F) -> (out: Fold<Self, PreparedFold<Self::Context, Self::Item, T, NoContext<F>>, T>) where
        F: 'a + Fn(&T, &Self::Item) -> T,
        T: 'a,
        requires
            forall|a: &T, t: &Self::Item| call_requires(func, (a, t)),
        ensures
            out.source() == self,
            out.func().inner() == NoContext(func),
            out.init() == init,
    {
        Fold { stream: self, init, func: PreparedFold::new(NoContext(func)) }
    }

    /// Same as `fold()`, but the closure receives three arguments
    /// (context/accumulator/value), by reference.
    fn fold_ctx<F, T>(self, init: T, func: F) -> (out: Fold<Self, PreparedFold<Self::Context, Self::Item, T, F>, T>) where
        F: 'a + Fn(&Self::Context, &T, &Self::Item) -> T,
        T: 'a,
        requires
            forall|c: &Self::Context, a: &T, t: &Self::Item| call_requires(func, (c, a, t)),
        ensures
            out.source() == self,
            out.func().inner() == func,
            out.init() == init,
    {
        Fold { stream: self, init, func: PreparedFold::new(func) }
    }

    /// Do something with each element of a stream, passing the pair on
    /// unchanged.  The closure will only be called if the stream is actually
    /// subscribed to.
    fn inspect<F>(self, func: F) -> (out: Inspect<Self, Prepared<Self::Context, Self::Item, NoContext<F>>>) where
        F: 'a + Fn(&Self::Item),
        requires
            forall|t: &Self::Item| call_requires(func, (t,)),
        ensures
            out.source() == self,
            out.func().inner() == NoContext(func),
    {
        Inspect { stream: self, func: Prepared::new(NoContext(func)) }
    }

    /// Same as `inspect()`, but the closure receives two arguments
    /// (context/value), by reference.
    fn inspect_ctx<F>(self, func: F) -> (out: Inspect<Self, Prepared<Self::Context, Self::Item, F>>) where
        F: 'a + Fn(&Self::Context, &Self::Item),
        requires
            forall|c: &Self::Context, t: &Self::Item| call_requires(func, (c, t)),
        ensures
            out.source() == self,
            out.func().inner() == func,
    {
        Inspect { stream: self, func: Prepared::new(func) }
    }

    /// Creates a stream that caches up to `count` last elements and yields,
    /// with each context, the window of them (oldest first).  Windows hold
    /// fewer than `count` elements while the cache fills up; with a count of
    /// zero every window is empty.
    fn last_n(self, count: usize) -> (out: LastN<Self>) where Self::Item: Clone
        ensures
            out.source() == self,
            out.count() == count,
    {
        LastN { count, stream: self }
    }
}

/// Stream of the contexts of another stream, as both context and value.
pub struct Context<S> {
    stream: S,
}

impl<S> Context<S> {
    /// The parent stream.
    pub closed spec fn source(&self) -> S {
        self.stream
    }
}

impl<'a, S> Stream<'a> for Context<S> where
    S: Stream<'a>,
 {
    type Context = S::Context;

    type Item = S::Context;

    fn subscribe_observer<O>(self, observer: O) where O: 'a + IntoBoxed<'a, S::Context, S::Context> {
        let Context { stream } = self;
        stream.subscribe_observer(ContextNode::new(observer));
    }
}

/// Stream whose context is a fixed value.
pub struct WithContext<S, T> {
    stream: S,
    ctx: T,
}

impl<S, T> WithContext<S, T> {
    /// The parent stream.
    pub closed spec fn source(&self) -> S {
        self.stream
    }

    /// The context attached to every element.
    pub closed spec fn context(&self) -> T {
        self.ctx
    }
}

impl<'a, S, T: 'a> Stream<'a> for WithContext<S, T> where
    S: Stream<'a>,
 {
    type Context = T;

    type Item = S::Item;

    fn subscribe_observer<O>(self, observer: O) where O: 'a + IntoBoxed<'a, T, S::Item> {
        let WithContext { stream, ctx } = self;
        stream.subscribe_observer(WithContextNode::new(ctx, observer));
    }
}

/// Stream whose context is computed from each context/value pair.
pub struct WithContextMap<S, F, K> {
    stream: S,
    func: F,
    context: PhantomData<K>,
}

impl<S, F, K> WithContextMap<S, F, K> {
    /// The parent stream.
    pub closed spec fn source(&self) -> S {
        self.stream
    }

    /// The prepared callable.
    pub closed spec fn func(&self) -> F {
        self.func
    }
}

impl<'a, S, C: 'a, T: 'a, F, K: 'a> Stream<'a> for WithContextMap<S, Prepared<C, T, F>, K> where
    S: Stream<'a, Context = C, Item = T>,
    F: 'a + ContextFn<C, T, Output = K>,
 {
    type Context = K;

    type Item = T;

    fn subscribe_observer<O>(self, observer: O) where O: 'a + IntoBoxed<'a, K, T> {
        let WithContextMap { stream, func, context: _ } = self;
        stream.subscribe_observer(WithContextMapNode::new(func, observer));
    }
}

/// Stream of the results of a callable applied to each pair.
pub struct Mapped<S, F, V> {
    stream: S,
    func: F,
    output: PhantomData<V>,
}

impl<S, F, V> Mapped<S, F, V> {
    /// The parent stream.
    pub closed spec fn source(&self) -> S {
        self.stream
    }

    /// The prepared callable.
    pub closed spec fn func(&self) -> F {
        self.func
    }
}

impl<'a, S, C: 'a, T: 'a, F, V: 'a> Stream<'a> for Mapped<S, Prepared<C, T, F>, V> where
    S: Stream<'a, Context = C, Item = T>,
    F: 'a + ContextFn<C, T, Output = V>,
 {
    type Context = C;

    type Item = V;

    fn subscribe_observer<O>(self, observer: O) where O: 'a + IntoBoxed<'a, C, V> {
        let Mapped { stream, func, output: _ } = self;
        stream.subscribe_observer(MapNode::new(func, observer));
    }
}

/// Stream of the context/value pairs a callable computes from each pair.
pub struct MapBoth<S, F, C, T> {
    stream: S,
    func: F,
    output: PhantomData<(C, T)>,
}

impl<S, F, C, T> MapBoth<S, F, C, T> {
    /// The parent stream.
    pub closed spec fn source(&self) -> S {
        self.stream
    }

    /// The prepared callable.
    pub closed spec fn func(&self) -> F {
        self.func
    }
}

impl<'a, S, C: 'a, T: 'a, F, C2: 'a, T2: 'a> Stream<'a> for MapBoth<S, Prepared<C, T, F>, C2, T2> where
    S: Stream<'a, Context = C, Item = T>,
    F: 'a + ContextFn<C, T, Output = (C2, T2)>,
 {
    type Context = C2;

    type Item = T2;

    fn subscribe_observer<O>(self, observer: O) where O: 'a + IntoBoxed<'a, C2, T2> {
        let MapBoth { stream, func, output: _ } = self;
        stream.subscribe_observer(MapBothNode::new(func, observer));
    }
}

/// Stream of the pairs a predicate accepts.
pub struct Filter<S, F> {
    stream: S,
    func: F,
}

impl<S, F> Filter<S, F> {
    /// The parent stream.
    pub closed spec fn source(&self) -> S {
        self.stream
    }

    /// The prepared callable.
    pub closed spec fn func(&self) -> F {
        self.func
    }
}

impl<'a, S, C: 'a, T: 'a, F> Stream<'a> for Filter<S, Prepared<C, T, F>> where
    S: Stream<'a, Context = C, Item = T>,
    F: 'a + ContextFn<C, T, Output = bool>,
 {
    type Context = C;

    type Item = T;

    fn subscribe_observer<O>(self, observer: O) where O: 'a + IntoBoxed<'a, C, T> {
        let Filter { stream, func } = self;
        stream.subscribe_observer(FilterNode::new(func, observer));
    }
}

/// Stream of the `Some` results of a callable applied to each pair.
pub struct FilterMap<S, F, T> {
    stream: S,
    func: F,
    output: PhantomData<T>,
}

impl<S, F, T> FilterMap<S, F, T> {
    /// The parent stream.
    pub closed spec fn source(&self) -> S {
        self.stream
    }

    /// The prepared callable.
    pub closed spec fn func(&self) -> F {
        self.func
    }
}

impl<'a, S, C: 'a, T: 'a, F, V: 'a> Stream<'a> for FilterMap<S, Prepared<C, T, F>, V> where
    S: Stream<'a, Context = C, Item = T>,
    F: 'a + ContextFn<C, T, Output = Option<V>>,
 {
    type Context = C;

    type Item = V;

    fn subscribe_observer<O>(self, observer: O) where O: 'a + IntoBoxed<'a, C, V> {
        let FilterMap { stream, func, output: _ } = self;
        stream.subscribe_observer(FilterMapNode::new(func, observer));
    }
}

/// Stream of the running accumulators of a fold.
pub struct Fold<S, F, T> {
    stream: S,
    init: T,
    func: F,
}

impl<S, F, T> Fold<S, F, T> {
    /// The parent stream.
    pub closed spec fn source(&self) -> S {
        self.stream
    }

    /// The prepared callable.
    pub closed spec fn func(&self) -> F {
        self.func
    }

    /// The accumulator before the first element.
    pub closed spec fn init(&self) -> T {
        self.init
    }
}

impl<'a, S, C: 'a, T: 'a, F, A: 'a> Stream<'a> for Fold<S, PreparedFold<C, T, A, F>, A> where
    S: Stream<'a, Context = C, Item = T>,
    F: 'a + ContextFoldFn<C, T, A, Output = A>,
 {
    type Context = C;

    type Item = A;

    fn subscribe_observer<O>(self, observer: O) where O: 'a + IntoBoxed<'a, C, A> {
        let Fold { stream, init, func } = self;
        stream.subscribe_observer(FoldNode::new(func, init, observer));
    }
}

/// Stream that runs a callable on each pair and passes the pair on.
pub struct Inspect<S, F> {
    stream: S,
    func: F,
}

impl<S, F> Inspect<S, F> {
    /// The parent stream.
    pub closed spec fn source(&self) -> S {
        self.stream
    }

    /// The prepared callable.
    pub closed spec fn func(&self) -> F {
        self.func
    }
}

impl<'a, S, C: 'a, T: 'a, F> Stream<'a> for Inspect<S, Prepared<C, T, F>> where
    S: Stream<'a, Context = C, Item = T>,
    F: 'a + ContextFn<C, T, Output = ()>,
 {
    type Context = C;

    type Item = T;

    fn subscribe_observer<O>(self, observer: O) where O: 'a + IntoBoxed<'a, C, T> {
        let Inspect { stream, func } = self;
        stream.subscribe_observer(InspectNode::new(func, observer));
    }
}

/// Stream of the windows of the latest elements of another stream.
pub struct LastN<S> {
    count: usize,
    stream: S,
}

impl<S> LastN<S> {
    /// The parent stream.
    pub closed spec fn source(&self) -> S {
        self.stream
    }

    /// The most elements a window holds.
    pub closed spec fn count(&self) -> usize {
        self.count
    }
}

impl<'a, S> Stream<'a> for LastN<S> where
    S: Stream<'a>,
    S::Item: Clone,
 {
    type Context = S::Context;

    type Item = Vec<S::Item>;

    fn subscribe_observer<O>(self, observer: O) where O: 'a + IntoBoxed<'a, S::Context, Vec<S::Item>> {
        let LastN { count, stream } = self;
        stream.subscribe_observer(LastNNode::new(count, observer));
    }
}

} // verus!
