//! The inner nodes of a computational tree.
//!
//! Subscribing an observer to an operator stream wraps the observer in one of
//! the nodes below; the node receives the pairs the parent stream emits and
//! hands its downstream observer what the operator makes of them.  Each node
//! remembers (as ghost state) how much its downstream observer had received
//! when the node was created, and states, as `faithful()`, that everything
//! delivered since then is exactly the operator's image of what the node has
//! received: this is the law of the operator.
use crate::func::{ContextFn, ContextFoldFn, Prepared, PreparedFold, Then};
use core::marker::PhantomData;
use crate::observer::{Boxed, IntoBoxed, Observer};
use vstd::prelude::*;

verus! {

/// `outs` is what a `map` with callable `f` emits on `ins`: the same
/// contexts, each element replaced by a result of `f`.
pub open spec fn map_trace<C, T, V, F: ContextFn<C, T, Output = V>>(
    f: F,
    ins: Seq<(C, T)>,
    outs: Seq<(C, V)>,
) -> bool {
    &&& outs.len() == ins.len()
    &&& forall|i: int|
        0 <= i < ins.len() ==> {
            &&& (#[trigger] outs[i]).0 == ins[i].0
            &&& f.gives(ins[i].0, ins[i].1, outs[i].1)
        }
}

/// Node of `map()` / `map_ctx()`.
pub struct MapNode<C, T, V, F: ContextFn<C, T>, O> {
    func: Prepared<C, T, F>,
    down: O,
    output: PhantomData<V>,
    inputs: Ghost<Seq<(C, T)>>,
    start: Ghost<int>,
}

impl<C, T, V, F: ContextFn<C, T, Output = V>, O: Observer<C, V>> MapNode<C, T, V, F, O> {
    /// The callable applied to each pair.
    pub closed spec fn func(&self) -> F {
        self.func.inner()
    }

    /// The observer receiving the results.
    pub closed spec fn downstream(&self) -> O {
        self.down
    }

    /// How many pairs the downstream observer had received when the node was made.
    pub closed spec fn start(&self) -> int {
        self.start@
    }

    /// The downstream observer has received, since the node was made, the
    /// map of everything the node received.
    pub open spec fn faithful(&self) -> bool {
        &&& 0 <= self.start() <= self.downstream().received().len()
        &&& map_trace(self.func(), self.received(), self.downstream().received().skip(self.start()))
    }

    /// A node feeding `down`; it has received nothing yet.
    pub fn new(func: Prepared<C, T, F>, down: O) -> (n: Self)
        ensures
            n.func() == func.inner(),
            n.downstream() == down,
            n.start() == down.received().len(),
            n.received() == Seq::<(C, T)>::empty(),
            n.faithful(),
            down.inv() ==> n.inv(),
    {
        let ghost start = down.received().len() as int;
        let n = MapNode { func, down, output: PhantomData, inputs: Ghost(Seq::empty()), start: Ghost(start) };
        assert(n.downstream().received().skip(n.start()) =~= Seq::<(C, V)>::empty());
        n
    }
}

impl<C, T, V, F: ContextFn<C, T, Output = V>, O: Observer<C, V>> Observer<C, T> for MapNode<C, T, V, F, O> {
    closed spec fn received(&self) -> Seq<(C, T)> {
        self.inputs@
    }

    /// The node and every node below it have passed on exactly what their
    /// operators make of what they received.
    open spec fn inv(&self) -> bool {
        self.faithful() && self.downstream().inv()
    }

    fn observe(&mut self, ctx: &C, item: &T)
        ensures
            final(self).func() == old(self).func(),
            final(self).start() == old(self).start(),
            final(self).downstream().received().len() == old(self).downstream().received().len() + 1,
            final(self).downstream().received().drop_last() == old(self).downstream().received(),
            final(self).downstream().received().last().0 == *ctx,
            old(self).func().gives(*ctx, *item, final(self).downstream().received().last().1),
            old(self).faithful() ==> final(self).faithful(),
    {
        let out = self.func.call(ctx, item);
        self.down.observe(ctx, &out);
        self.inputs = Ghost(self.inputs@.push((*ctx, *item)));
        proof {
            let s = self.start@;
            assert(self.down.received().drop_last() =~= old(self).down.received());
            if old(self).faithful() {
                assert(self.down.received().skip(s) =~= old(self).down.received().skip(s).push(
                    (*ctx, out),
                ));
            }
        }
    }
}

/// `outs` is what a `map_both` with callable `f` emits on `ins`: each pair
/// replaced by a result of `f`.
pub open spec fn map_both_trace<C, T, C2, T2, F: ContextFn<C, T, Output = (C2, T2)>>(
    f: F,
    ins: Seq<(C, T)>,
    outs: Seq<(C2, T2)>,
) -> bool {
    &&& outs.len() == ins.len()
    &&& forall|i: int| 0 <= i < ins.len() ==> f.gives(ins[i].0, ins[i].1, #[trigger] outs[i])
}

/// Node of `map_both()` / `map_both_ctx()`.
pub struct MapBothNode<C, T, C2, T2, F: ContextFn<C, T>, O> {
    func: Prepared<C, T, F>,
    down: O,
    output: PhantomData<(C2, T2)>,
    inputs: Ghost<Seq<(C, T)>>,
    start: Ghost<int>,
}

impl<C, T, C2, T2, F: ContextFn<C, T, Output = (C2, T2)>, O: Observer<C2, T2>> MapBothNode<C, T, C2, T2, F, O> {
    /// The callable applied to each pair.
    pub closed spec fn func(&self) -> F {
        self.func.inner()
    }

    /// The observer receiving the results.
    pub closed spec fn downstream(&self) -> O {
        self.down
    }

    /// How many pairs the downstream observer had received when the node was made.
    pub closed spec fn start(&self) -> int {
        self.start@
    }

    /// The downstream observer has received, since the node was made, the
    /// images of everything the node received.
    pub open spec fn faithful(&self) -> bool {
        &&& 0 <= self.start() <= self.downstream().received().len()
        &&& map_both_trace(self.func(), self.received(), self.downstream().received().skip(self.start()))
    }

    /// A node feeding `down`; it has received nothing yet.
    pub fn new(func: Prepared<C, T, F>, down: O) -> (n: Self)
        ensures
            n.func() == func.inner(),
            n.downstream() == down,
            n.start() == down.received().len(),
            n.received() == Seq::<(C, T)>::empty(),
            n.faithful(),
            down.inv() ==> n.inv(),
    {
        let ghost start = down.received().len() as int;
        let n = MapBothNode { func, down, output: PhantomData, inputs: Ghost(Seq::empty()), start: Ghost(start) };
        assert(n.downstream().received().skip(n.start()) =~= Seq::<(C2, T2)>::empty());
        n
    }
}

impl<C, T, C2, T2, F: ContextFn<C, T, Output = (C2, T2)>, O: Observer<C2, T2>> Observer<C, T> for MapBothNode<C, T, C2, T2, F, O> {
    closed spec fn received(&self) -> Seq<(C, T)> {
        self.inputs@
    }

    /// The node and every node below it have passed on exactly what their
    /// operators make of what they received.
    open spec fn inv(&self) -> bool {
        self.faithful() && self.downstream().inv()
    }

    fn observe(&mut self, ctx: &C, item: &T)
        ensures
            final(self).func() == old(self).func(),
            final(self).start() == old(self).start(),
            final(self).downstream().received().len() == old(self).downstream().received().len() + 1,
            final(self).downstream().received().drop_last() == old(self).downstream().received(),
            old(self).func().gives(*ctx, *item, final(self).downstream().received().last()),
            old(self).faithful() ==> final(self).faithful(),
    {
        let (c2, t2) = self.func.call(ctx, item);
        self.down.observe(&c2, &t2);
        self.inputs = Ghost(self.inputs@.push((*ctx, *item)));
        proof {
            let s = self.start@;
            assert(self.down.received().drop_last() =~= old(self).down.received());
            if old(self).faithful() {
                assert(self.down.received().skip(s) =~= old(self).down.received().skip(s).push((c2, t2)));
            }
        }
    }
}

/// The elements of `s` whose verdict in `keep` is `true`, in order.
pub open spec fn kept<A>(s: Seq<A>, keep: Seq<bool>) -> Seq<A>
    decreases s.len(),
{
    if s.len() == 0 {
        Seq::empty()
    } else {
        let rest = kept(s.drop_last(), keep.drop_last());
        if keep.last() {
            rest.push(s.last())
        } else {
            rest
        }
    }
}

/// `outs` is what a `filter` with callable `f` emits on `ins`, where
/// `verdicts` are the results `f` gave: the pairs it said `true` of.
pub open spec fn filter_trace<C, T, F: ContextFn<C, T, Output = bool>>(
    f: F,
    ins: Seq<(C, T)>,
    verdicts: Seq<bool>,
    outs: Seq<(C, T)>,
) -> bool {
    &&& verdicts.len() == ins.len()
    &&& forall|i: int| 0 <= i < ins.len() ==> f.gives(ins[i].0, ins[i].1, #[trigger] verdicts[i])
    &&& outs == kept(ins, verdicts)
}

/// Node of `filter()` / `filter_ctx()`.
pub struct FilterNode<C, T, F: ContextFn<C, T>, O> {
    func: Prepared<C, T, F>,
    down: O,
    inputs: Ghost<Seq<(C, T)>>,
    verdicts: Ghost<Seq<bool>>,
    start: Ghost<int>,
}

impl<C, T, F: ContextFn<C, T, Output = bool>, O: Observer<C, T>> FilterNode<C, T, F, O> {
    /// The predicate.
    pub closed spec fn func(&self) -> F {
        self.func.inner()
    }

    /// The observer receiving the pairs that pass.
    pub closed spec fn downstream(&self) -> O {
        self.down
    }

    /// How many pairs the downstream observer had received when the node was made.
    pub closed spec fn start(&self) -> int {
        self.start@
    }

    /// What the predicate answered for each pair received, in order.
    pub closed spec fn verdicts(&self) -> Seq<bool> {
        self.verdicts@
    }

    /// The downstream observer has received, since the node was made, exactly
    /// the pairs the predicate accepted, in order.
    pub open spec fn faithful(&self) -> bool {
        &&& 0 <= self.start() <= self.downstream().received().len()
        &&& filter_trace(
            self.func(),
            self.received(),
            self.verdicts(),
            self.downstream().received().skip(self.start()),
        )
    }

    /// A node feeding `down`; it has received nothing yet.
    pub fn new(func: Prepared<C, T, F>, down: O) -> (n: Self)
        ensures
            n.func() == func.inner(),
            n.downstream() == down,
            n.start() == down.received().len(),
            n.received() == Seq::<(C, T)>::empty(),
            n.faithful(),
            down.inv() ==> n.inv(),
    {
        let ghost start = down.received().len() as int;
        let n = FilterNode {
            func,
            down,
            inputs: Ghost(Seq::empty()),
            verdicts: Ghost(Seq::empty()),
            start: Ghost(start),
        };
        assert(n.downstream().received().skip(n.start()) =~= Seq::<(C, T)>::empty());
        n
    }
}

impl<C, T, F: ContextFn<C, T, Output = bool>, O: Observer<C, T>> Observer<C, T> for FilterNode<C, T, F, O> {
    closed spec fn received(&self) -> Seq<(C, T)> {
        self.inputs@
    }

    /// The node and every node below it have passed on exactly what their
    /// operators make of what they received.
    open spec fn inv(&self) -> bool {
        self.faithful() && self.downstream().inv()
    }

    fn observe(&mut self, ctx: &C, item: &T)
        ensures
            final(self).func() == old(self).func(),
            final(self).start() == old(self).start(),
            old(self).func().gives(*ctx, *item, final(self).verdicts().last()),
            final(self).verdicts().last() ==> final(self).downstream().received() == old(
                self,
            ).downstream().received().push((*ctx, *item)),
            !final(self).verdicts().last() ==> final(self).downstream().received() == old(
                self,
            ).downstream().received(),
            old(self).faithful() ==> final(self).faithful(),
    {
        let keep = self.func.call(ctx, item);
        if keep {
            self.down.observe(ctx, item);
        }
        let ghost ins = self.inputs@.push((*ctx, *item));
        let ghost vs = self.verdicts@.push(keep);
        self.inputs = Ghost(ins);
        self.verdicts = Ghost(vs);
        proof {
            let s = self.start@;
            assert(ins.drop_last() =~= old(self).inputs@);
            assert(vs.drop_last() =~= old(self).verdicts@);
            if old(self).faithful() {
                if keep {
                    assert(self.down.received().skip(s) =~= old(self).down.received().skip(s).push(
                        (*ctx, *item),
                    ));
                }
            }
        }
    }
}

/// The elements that `results` holds, each paired with the context of the
/// corresponding element of `ins`, in order.
pub open spec fn picked<C, T, V>(ins: Seq<(C, T)>, results: Seq<Option<V>>) -> Seq<(C, V)>
    decreases ins.len(),
{
    if ins.len() == 0 {
        Seq::empty()
    } else {
        let rest = picked(ins.drop_last(), results.drop_last());
        match results.last() {
            Some(v) => rest.push((ins.last().0, v)),
            None => rest,
        }
    }
}

/// `outs` is what a `filter_map` with callable `f` emits on `ins`, where
/// `results` are the results `f` gave: the `Some` values, with their contexts.
pub open spec fn filter_map_trace<C, T, V, F: ContextFn<C, T, Output = Option<V>>>(
    f: F,
    ins: Seq<(C, T)>,
    results: Seq<Option<V>>,
    outs: Seq<(C, V)>,
) -> bool {
    &&& results.len() == ins.len()
    &&& forall|i: int| 0 <= i < ins.len() ==> f.gives(ins[i].0, ins[i].1, #[trigger] results[i])
    &&& outs == picked(ins, results)
}

/// Node of `filter_map()` / `filter_map_ctx()`.
pub struct FilterMapNode<C, T, V, F: ContextFn<C, T>, O> {
    func: Prepared<C, T, F>,
    down: O,
    output: PhantomData<V>,
    inputs: Ghost<Seq<(C, T)>>,
    results: Ghost<Seq<F::Output>>,
    start: Ghost<int>,
}

impl<C, T, V, F: ContextFn<C, T, Output = Option<V>>, O: Observer<C, V>> FilterMapNode<C, T, V, F, O> {
    /// The callable applied to each pair.
    pub closed spec fn func(&self) -> F {
        self.func.inner()
    }

    /// The observer receiving the `Some` values.
    pub closed spec fn downstream(&self) -> O {
        self.down
    }

    /// How many pairs the downstream observer had received when the node was made.
    pub closed spec fn start(&self) -> int {
        self.start@
    }

    /// What the callable returned for each pair received, in order.
    pub closed spec fn results(&self) -> Seq<Option<V>> {
        self.results@
    }

    /// The downstream observer has received, since the node was made, exactly
    /// the `Some` values the callable produced, with their contexts.
    pub open spec fn faithful(&self) -> bool {
        &&& 0 <= self.start() <= self.downstream().received().len()
        &&& filter_map_trace(
            self.func(),
            self.received(),
            self.results(),
            self.downstream().received().skip(self.start()),
        )
    }

    /// A node feeding `down`; it has received nothing yet.
    pub fn new(func: Prepared<C, T, F>, down: O) -> (n: Self)
        ensures
            n.func() == func.inner(),
            n.downstream() == down,
            n.start() == down.received().len(),
            n.received() == Seq::<(C, T)>::empty(),
            n.faithful(),
            down.inv() ==> n.inv(),
    {
        let ghost start = down.received().len() as int;
        let n = FilterMapNode {
            func,
            down,
            output: PhantomData,
            inputs: Ghost(Seq::empty()),
            results: Ghost(Seq::empty()),
            start: Ghost(start),
        };
        assert(n.downstream().received().skip(n.start()) =~= Seq::<(C, V)>::empty());
        n
    }
}

impl<C, T, V, F: ContextFn<C, T, Output = Option<V>>, O: Observer<C, V>> Observer<C, T> for FilterMapNode<C, T, V, F, O> {
    closed spec fn received(&self) -> Seq<(C, T)> {
        self.inputs@
    }

    /// The node and every node below it have passed on exactly what their
    /// operators make of what they received.
    open spec fn inv(&self) -> bool {
        self.faithful() && self.downstream().inv()
    }

    fn observe(&mut self, ctx: &C, item: &T)
        ensures
            final(self).func() == old(self).func(),
            final(self).start() == old(self).start(),
            old(self).func().gives(*ctx, *item, final(self).results().last()),
            final(self).results().last() matches Some(v) ==> final(self).downstream().received()
                == old(self).downstream().received().push((*ctx, v)),
            final(self).results().last() is None ==> final(self).downstream().received() == old(
                self,
            ).downstream().received(),
            old(self).faithful() ==> final(self).faithful(),
    {
        let result = self.func.call(ctx, item);
        let ghost r = result;
        if let Some(v) = &result {
            self.down.observe(ctx, v);
        }
        let ghost ins = self.inputs@.push((*ctx, *item));
        let ghost rs = self.results@.push(r);
        self.inputs = Ghost(ins);
        self.results = Ghost(rs);
        proof {
            let s = self.start@;
            assert(ins.drop_last() =~= old(self).inputs@);
            assert(rs.drop_last() =~= old(self).results@);
            if old(self).faithful() {
                if let Some(v) = r {
                    assert(self.down.received().skip(s) =~= old(self).down.received().skip(s).push(
                        (*ctx, v),
                    ));
                }
            }
        }
    }
}

/// The accumulator a fold holds after emitting the results `outs`, starting
/// from `init`.
pub open spec fn fold_acc<C, V>(init: V, outs: Seq<(C, V)>) -> V {
    if outs.len() == 0 {
        init
    } else {
        outs.last().1
    }
}

/// `outs` is what a `fold` with callable `f` and initial accumulator `init`
/// emits on `ins`: for each pair, its context and the new accumulator, which
/// `f` computed from the context, the previous accumulator and the element.
pub open spec fn fold_trace<C, T, V, F: ContextFoldFn<C, T, V, Output = V>>(
    f: F,
    init: V,
    ins: Seq<(C, T)>,
    outs: Seq<(C, V)>,
) -> bool {
    &&& outs.len() == ins.len()
    &&& forall|i: int|
        0 <= i < ins.len() ==> {
            &&& (#[trigger] outs[i]).0 == ins[i].0
            &&& f.gives(ins[i].0, fold_acc(init, outs.take(i)), ins[i].1, outs[i].1)
        }
}

/// Node of `fold()` / `fold_ctx()`.
pub struct FoldNode<C, T, V, F: ContextFoldFn<C, T, V>, O> {
    func: PreparedFold<C, T, V, F>,
    acc: V,
    init: Ghost<V>,
    down: O,
    inputs: Ghost<Seq<(C, T)>>,
    start: Ghost<int>,
}

impl<C, T, V, F: ContextFoldFn<C, T, V, Output = V>, O: Observer<C, V>> FoldNode<C, T, V, F, O> {
    /// The callable computing the next accumulator.
    pub closed spec fn func(&self) -> F {
        self.func.inner()
    }

    /// The observer receiving the accumulators.
    pub closed spec fn downstream(&self) -> O {
        self.down
    }

    /// How many pairs the downstream observer had received when the node was made.
    pub closed spec fn start(&self) -> int {
        self.start@
    }

    /// The accumulator the node started with.
    pub closed spec fn init(&self) -> V {
        self.init@
    }

    /// The current accumulator.
    pub closed spec fn accumulator(&self) -> V {
        self.acc
    }

    /// The downstream observer has received, since the node was made, the
    /// successive accumulators, and the node holds the last of them.
    pub open spec fn faithful(&self) -> bool {
        &&& 0 <= self.start() <= self.downstream().received().len()
        &&& fold_trace(self.func(), self.init(), self.received(), self.downstream().received().skip(self.start()))
        &&& self.accumulator() == fold_acc(self.init(), self.downstream().received().skip(self.start()))
    }

    /// A node feeding `down`, starting from the accumulator `init`.
    pub fn new(func: PreparedFold<C, T, V, F>, init: V, down: O) -> (n: Self)
        ensures
            n.func() == func.inner(),
            n.init() == init,
            n.accumulator() == init,
            n.downstream() == down,
            n.start() == down.received().len(),
            n.received() == Seq::<(C, T)>::empty(),
            n.faithful(),
            down.inv() ==> n.inv(),
    {
        let ghost start = down.received().len() as int;
        let ghost first = init;
        let n = FoldNode {
            func,
            acc: init,
            init: Ghost(first),
            down,
            inputs: Ghost(Seq::empty()),
            start: Ghost(start),
        };
        assert(n.downstream().received().skip(n.start()) =~= Seq::<(C, V)>::empty());
        n
    }
}

impl<C, T, V, F: ContextFoldFn<C, T, V, Output = V>, O: Observer<C, V>> Observer<C, T> for FoldNode<C, T, V, F, O> {
    closed spec fn received(&self) -> Seq<(C, T)> {
        self.inputs@
    }

    /// The node and every node below it have passed on exactly what their
    /// operators make of what they received.
    open spec fn inv(&self) -> bool {
        self.faithful() && self.downstream().inv()
    }

    fn observe(&mut self, ctx: &C, item: &T)
        ensures
            final(self).func() == old(self).func(),
            final(self).init() == old(self).init(),
            final(self).start() == old(self).start(),
            old(self).func().gives(*ctx, old(self).accumulator(), *item, final(self).accumulator()),
            final(self).downstream().received() == old(self).downstream().received().push(
                (*ctx, final(self).accumulator()),
            ),
            old(self).faithful() ==> final(self).faithful(),
    {
        let next = self.func.call(ctx, &self.acc, item);
        self.acc = next;
        self.down.observe(ctx, &self.acc);
        self.inputs = Ghost(self.inputs@.push((*ctx, *item)));
        proof {
            let s = self.start@;
            if old(self).faithful() {
                let before = old(self).down.received().skip(s);
                let after = self.down.received().skip(s);
                assert(after =~= before.push((*ctx, self.acc)));
                assert(after.take(before.len() as int) =~= before);
                assert forall|i: int| 0 <= i < before.len() implies #[trigger] after.take(i) == before.take(i) by {
                    assert(after.take(i) =~= before.take(i));
                }
            }
        }
    }
}

/// Node of `inspect()` / `inspect_ctx()`.
pub struct InspectNode<C, T, F: ContextFn<C, T>, O> {
    func: Prepared<C, T, F>,
    down: O,
    inputs: Ghost<Seq<(C, T)>>,
    start: Ghost<int>,
}

impl<C, T, F: ContextFn<C, T, Output = ()>, O: Observer<C, T>> InspectNode<C, T, F, O> {
    /// The callable run on each pair.
    pub closed spec fn func(&self) -> F {
        self.func.inner()
    }

    /// The observer receiving the pairs.
    pub closed spec fn downstream(&self) -> O {
        self.down
    }

    /// How many pairs the downstream observer had received when the node was made.
    pub closed spec fn start(&self) -> int {
        self.start@
    }

    /// The downstream observer has received, since the node was made, exactly
    /// the pairs the node received, and the callable has run on each of them.
    pub open spec fn faithful(&self) -> bool {
        &&& 0 <= self.start() <= self.downstream().received().len()
        &&& self.downstream().received().skip(self.start()) == self.received()
        &&& forall|i: int|
            0 <= i < self.received().len() ==> self.func().gives(
                #[trigger] self.received()[i].0,
                self.received()[i].1,
                (),
            )
    }

    /// A node feeding `down`; it has received nothing yet.
    pub fn new(func: Prepared<C, T, F>, down: O) -> (n: Self)
        ensures
            n.func() == func.inner(),
            n.downstream() == down,
            n.start() == down.received().len(),
            n.received() == Seq::<(C, T)>::empty(),
            n.faithful(),
            down.inv() ==> n.inv(),
    {
        let ghost start = down.received().len() as int;
        let n = InspectNode { func, down, inputs: Ghost(Seq::empty()), start: Ghost(start) };
        assert(n.downstream().received().skip(n.start()) =~= Seq::<(C, T)>::empty());
        n
    }
}

impl<C, T, F: ContextFn<C, T, Output = ()>, O: Observer<C, T>> Observer<C, T> for InspectNode<C, T, F, O> {
    closed spec fn received(&self) -> Seq<(C, T)> {
        self.inputs@
    }

    /// The node and every node below it have passed on exactly what their
    /// operators make of what they received.
    open spec fn inv(&self) -> bool {
        self.faithful() && self.downstream().inv()
    }

    fn observe(&mut self, ctx: &C, item: &T)
        ensures
            final(self).func() == old(self).func(),
            final(self).start() == old(self).start(),
            old(self).func().gives(*ctx, *item, ()),
            final(self).downstream().received() == old(self).downstream().received().push((*ctx, *item)),
            old(self).faithful() ==> final(self).faithful(),
    {
        self.func.call(ctx, item);
        self.down.observe(ctx, item);
        self.inputs = Ghost(self.inputs@.push((*ctx, *item)));
        proof {
            let s = self.start@;
            if old(self).faithful() {
                assert(self.down.received().skip(s) =~= old(self).down.received().skip(s).push(
                    (*ctx, *item),
                ));
            }
        }
    }
}

/// `outs` is what a `with_ctx` with context `k` emits on `ins`: the same
/// elements, each with context `k`.
pub open spec fn with_ctx_trace<C, T, K>(k: K, ins: Seq<(C, T)>, outs: Seq<(K, T)>) -> bool {
    &&& outs.len() == ins.len()
    &&& forall|i: int| 0 <= i < ins.len() ==> #[trigger] outs[i] == (k, ins[i].1)
}

/// Node of `with_ctx()`: replaces every context by a fixed value.
pub struct WithContextNode<C, T, K, O> {
    ctx: K,
    down: O,
    inputs: Ghost<Seq<(C, T)>>,
    start: Ghost<int>,
}

impl<C, T, K, O: Observer<K, T>> WithContextNode<C, T, K, O> {
    /// The context handed downstream.
    pub closed spec fn context(&self) -> K {
        self.ctx
    }

    /// The observer receiving the pairs.
    pub closed spec fn downstream(&self) -> O {
        self.down
    }

    /// How many pairs the downstream observer had received when the node was made.
    pub closed spec fn start(&self) -> int {
        self.start@
    }

    /// The downstream observer has received, since the node was made, the
    /// elements the node received, each with the fixed context.
    pub open spec fn faithful(&self) -> bool {
        &&& 0 <= self.start() <= self.downstream().received().len()
        &&& with_ctx_trace(self.context(), self.received(), self.downstream().received().skip(self.start()))
    }

    /// A node feeding `down` with context `ctx`; it has received nothing yet.
    pub fn new(ctx: K, down: O) -> (n: Self)
        ensures
            n.context() == ctx,
            n.downstream() == down,
            n.start() == down.received().len(),
            n.received() == Seq::<(C, T)>::empty(),
            n.faithful(),
            down.inv() ==> n.inv(),
    {
        let ghost start = down.received().len() as int;
        let n = WithContextNode { ctx, down, inputs: Ghost(Seq::empty()), start: Ghost(start) };
        assert(n.downstream().received().skip(n.start()) =~= Seq::<(K, T)>::empty());
        n
    }
}

impl<C, T, K, O: Observer<K, T>> Observer<C, T> for WithContextNode<C, T, K, O> {
    closed spec fn received(&self) -> Seq<(C, T)> {
        self.inputs@
    }

    /// The node and every node below it have passed on exactly what their
    /// operators make of what they received.
    open spec fn inv(&self) -> bool {
        self.faithful() && self.downstream().inv()
    }

    fn observe(&mut self, ctx: &C, item: &T)
        ensures
            final(self).context() == old(self).context(),
            final(self).start() == old(self).start(),
            final(self).downstream().received() == old(self).downstream().received().push(
                (old(self).context(), *item),
            ),
            old(self).faithful() ==> final(self).faithful(),
    {
        self.down.observe(&self.ctx, item);
        self.inputs = Ghost(self.inputs@.push((*ctx, *item)));
        proof {
            let s = self.start@;
            if old(self).faithful() {
                assert(self.down.received().skip(s) =~= old(self).down.received().skip(s).push(
                    (self.ctx, *item),
                ));
            }
        }
    }
}

/// Node of `with_ctx_map()`: replaces every context by what the callable
/// computes from the pair.
pub struct WithContextMapNode<C, T, K, F: ContextFn<C, T>, O> {
    func: Prepared<C, T, F>,
    down: O,
    context: PhantomData<K>,
    inputs: Ghost<Seq<(C, T)>>,
    start: Ghost<int>,
}

/// `outs` is what a `with_ctx_map` with callable `f` emits on `ins`: the
/// same elements, each with a context computed by `f`.
pub open spec fn with_ctx_map_trace<C, T, K, F: ContextFn<C, T, Output = K>>(
    f: F,
    ins: Seq<(C, T)>,
    outs: Seq<(K, T)>,
) -> bool {
    &&& outs.len() == ins.len()
    &&& forall|i: int|
        0 <= i < ins.len() ==> {
            &&& (#[trigger] outs[i]).1 == ins[i].1
            &&& f.gives(ins[i].0, ins[i].1, outs[i].0)
        }
}

impl<C, T, K, F: ContextFn<C, T, Output = K>, O: Observer<K, T>> WithContextMapNode<C, T, K, F, O> {
    /// The callable computing the new context.
    pub closed spec fn func(&self) -> F {
        self.func.inner()
    }

    /// The observer receiving the pairs.
    pub closed spec fn downstream(&self) -> O {
        self.down
    }

    /// How many pairs the downstream observer had received when the node was made.
    pub closed spec fn start(&self) -> int {
        self.start@
    }

    /// The downstream observer has received, since the node was made, the
    /// elements the node received, each with its computed context.
    pub open spec fn faithful(&self) -> bool {
        &&& 0 <= self.start() <= self.downstream().received().len()
        &&& with_ctx_map_trace(self.func(), self.received(), self.downstream().received().skip(self.start()))
    }

    /// A node feeding `down`; it has received nothing yet.
    pub fn new(func: Prepared<C, T, F>, down: O) -> (n: Self)
        ensures
            n.func() == func.inner(),
            n.downstream() == down,
            n.start() == down.received().len(),
            n.received() == Seq::<(C, T)>::empty(),
            n.faithful(),
            down.inv() ==> n.inv(),
    {
        let ghost start = down.received().len() as int;
        let n = WithContextMapNode {
            func,
            down,
            context: PhantomData,
            inputs: Ghost(Seq::empty()),
            start: Ghost(start),
        };
        assert(n.downstream().received().skip(n.start()) =~= Seq::<(K, T)>::empty());
        n
    }
}

impl<C, T, K, F: ContextFn<C, T, Output = K>, O: Observer<K, T>> Observer<C, T> for WithContextMapNode<C, T, K, F, O> {
    closed spec fn received(&self) -> Seq<(C, T)> {
        self.inputs@
    }

    /// The node and every node below it have passed on exactly what their
    /// operators make of what they received.
    open spec fn inv(&self) -> bool {
        self.faithful() && self.downstream().inv()
    }

    fn observe(&mut self, ctx: &C, item: &T)
        ensures
            final(self).func() == old(self).func(),
            final(self).start() == old(self).start(),
            final(self).downstream().received().len() == old(self).downstream().received().len() + 1,
            final(self).downstream().received().drop_last() == old(self).downstream().received(),
            final(self).downstream().received().last().1 == *item,
            old(self).func().gives(*ctx, *item, final(self).downstream().received().last().0),
            old(self).faithful() ==> final(self).faithful(),
    {
        let c2 = self.func.call(ctx, item);
        self.down.observe(&c2, item);
        self.inputs = Ghost(self.inputs@.push((*ctx, *item)));
        proof {
            let s = self.start@;
            assert(self.down.received().drop_last() =~= old(self).down.received());
            if old(self).faithful() {
                assert(self.down.received().skip(s) =~= old(self).down.received().skip(s).push(
                    (c2, *item),
                ));
            }
        }
    }
}

/// `outs` is what `ctx` emits on `ins`: each context, as both context and
/// element.
pub open spec fn ctx_trace<C, T>(ins: Seq<(C, T)>, outs: Seq<(C, C)>) -> bool {
    &&& outs.len() == ins.len()
    &&& forall|i: int| 0 <= i < ins.len() ==> #[trigger] outs[i] == (ins[i].0, ins[i].0)
}

/// Node of `ctx()`: hands the context downstream as both context and element.
pub struct ContextNode<C, T, O> {
    down: O,
    inputs: Ghost<Seq<(C, T)>>,
    start: Ghost<int>,
}

impl<C, T, O: Observer<C, C>> ContextNode<C, T, O> {
    /// The observer receiving the contexts.
    pub closed spec fn downstream(&self) -> O {
        self.down
    }

    /// How many pairs the downstream observer had received when the node was made.
    pub closed spec fn start(&self) -> int {
        self.start@
    }

    /// The downstream observer has received, since the node was made, the
    /// context of each pair the node received, twice.
    pub open spec fn faithful(&self) -> bool {
        &&& 0 <= self.start() <= self.downstream().received().len()
        &&& ctx_trace(self.received(), self.downstream().received().skip(self.start()))
    }

    /// A node feeding `down`; it has received nothing yet.
    pub fn new(down: O) -> (n: Self)
        ensures
            n.downstream() == down,
            n.start() == down.received().len(),
            n.received() == Seq::<(C, T)>::empty(),
            n.faithful(),
            down.inv() ==> n.inv(),
    {
        let ghost start = down.received().len() as int;
        let n = ContextNode { down, inputs: Ghost(Seq::empty()), start: Ghost(start) };
        assert(n.downstream().received().skip(n.start()) =~= Seq::<(C, C)>::empty());
        n
    }
}

impl<C, T, O: Observer<C, C>> Observer<C, T> for ContextNode<C, T, O> {
    closed spec fn received(&self) -> Seq<(C, T)> {
        self.inputs@
    }

    /// The node and every node below it have passed on exactly what their
    /// operators make of what they received.
    open spec fn inv(&self) -> bool {
        self.faithful() && self.downstream().inv()
    }

    fn observe(&mut self, ctx: &C, item: &T)
        ensures
            final(self).start() == old(self).start(),
            final(self).downstream().received() == old(self).downstream().received().push((*ctx, *ctx)),
            old(self).faithful() ==> final(self).faithful(),
    {
        self.down.observe(ctx, ctx);
        self.inputs = Ghost(self.inputs@.push((*ctx, *item)));
        proof {
            let s = self.start@;
            if old(self).faithful() {
                assert(self.down.received().skip(s) =~= old(self).down.received().skip(s).push(
                    (*ctx, *ctx),
                ));
            }
        }
    }
}

/// How many elements a `last_n(count)` window holds once `n` elements have
/// arrived: all of them while fewer than `count` arrived, `count` after
/// that (so none at all for a count of zero).
pub open spec fn window_len(count: nat, n: nat) -> nat {
    if n <= count {
        n
    } else {
        count
    }
}

/// `w` holds clones of the last `window_len(count, ins.len())` elements of
/// `ins`, oldest first.
pub open spec fn is_window<C, T: Clone>(count: nat, ins: Seq<(C, T)>, w: Seq<T>) -> bool {
    &&& w.len() == window_len(count, ins.len())
    &&& forall|k: int| 0 <= k < w.len() ==> cloned(ins[ins.len() - w.len() + k].1, #[trigger] w[k])
}

/// `outs` is what `last_n(count)` emits on `ins`: for each pair, its context
/// and the window of the latest elements up to and including it.
pub open spec fn last_n_trace<C, T: Clone>(count: nat, ins: Seq<(C, T)>, outs: Seq<(C, Vec<T>)>) -> bool {
    &&& outs.len() == ins.len()
    &&& forall|i: int|
        0 <= i < ins.len() ==> {
            &&& (#[trigger] outs[i]).0 == ins[i].0
            &&& is_window(count, ins.take(i + 1), outs[i].1@)
        }
}

/// Node of `last_n()`: keeps the latest elements and hands downstream, with
/// each context, the window of them.
pub struct LastNNode<C, T, O> {
    count: usize,
    window: Vec<T>,
    down: O,
    inputs: Ghost<Seq<(C, T)>>,
    start: Ghost<int>,
}

impl<C, T: Clone, O: Observer<C, Vec<T>>> LastNNode<C, T, O> {
    /// The most elements a window holds.
    pub closed spec fn count(&self) -> nat {
        self.count as nat
    }

    /// The elements currently kept, oldest first.
    pub closed spec fn window(&self) -> Seq<T> {
        self.window@
    }

    /// The observer receiving the windows.
    pub closed spec fn downstream(&self) -> O {
        self.down
    }

    /// How many pairs the downstream observer had received when the node was made.
    pub closed spec fn start(&self) -> int {
        self.start@
    }

    /// The downstream observer has received, since the node was made, the
    /// successive windows, and the node holds the latest one.
    pub open spec fn faithful(&self) -> bool {
        &&& 0 <= self.start() <= self.downstream().received().len()
        &&& last_n_trace(self.count(), self.received(), self.downstream().received().skip(self.start()))
        &&& is_window(self.count(), self.received(), self.window())
    }

    /// A node feeding `down` with windows of up to `count` elements.
    pub fn new(count: usize, down: O) -> (n: Self)
        ensures
            n.count() == count,
            n.window() == Seq::<T>::empty(),
            n.downstream() == down,
            n.start() == down.received().len(),
            n.received() == Seq::<(C, T)>::empty(),
            n.faithful(),
            down.inv() ==> n.inv(),
    {
        let ghost start = down.received().len() as int;
        let n = LastNNode {
            count,
            window: Vec::with_capacity(count),
            down,
            inputs: Ghost(Seq::empty()),
            start: Ghost(start),
        };
        assert(n.downstream().received().skip(n.start()) =~= Seq::<(C, Vec<T>)>::empty());
        n
    }
}

impl<C, T: Clone, O: Observer<C, Vec<T>>> Observer<C, T> for LastNNode<C, T, O> {
    closed spec fn received(&self) -> Seq<(C, T)> {
        self.inputs@
    }

    /// The node and every node below it have passed on exactly what their
    /// operators make of what they received.
    open spec fn inv(&self) -> bool {
        self.faithful() && self.downstream().inv()
    }

    fn observe(&mut self, ctx: &C, item: &T)
        ensures
            final(self).count() == old(self).count(),
            final(self).start() == old(self).start(),
            old(self).count() == 0 ==> final(self).window() == old(self).window(),
            old(self).count() > 0 ==> {
                &&& final(self).window().len() > 0
                &&& final(self).window().drop_last() == (if old(self).window().len() >= old(self).count() {
                    old(self).window().drop_first()
                } else {
                    old(self).window()
                })
                &&& cloned(*item, final(self).window().last())
            },
            final(self).downstream().received().len() == old(self).downstream().received().len() + 1,
            final(self).downstream().received().drop_last() == old(self).downstream().received(),
            final(self).downstream().received().last().0 == *ctx,
            final(self).downstream().received().last().1@ == final(self).window(),
            old(self).faithful() ==> final(self).faithful(),
    {
        if self.count == 0 {
            self.down.observe(ctx, &self.window);
            let ghost ins = self.inputs@.push((*ctx, *item));
            self.inputs = Ghost(ins);
            proof {
                let s = self.start@;
                assert(self.down.received().drop_last() =~= old(self).down.received());
                if old(self).faithful() {
                    let n = old(self).inputs@.len();
                    let before = old(self).down.received().skip(s);
                    let after = self.down.received().skip(s);
                    assert(after =~= before.push((*ctx, self.window)));
                    assert(ins.take((n + 1) as int) =~= ins);
                    assert forall|i: int| 0 <= i < n implies #[trigger] ins.take(i + 1) == old(self).inputs@.take(i + 1) by {
                        assert(ins.take(i + 1) =~= old(self).inputs@.take(i + 1));
                    }
                }
            }
            return;
        }
        if self.window.len() >= self.count {
            let _ = self.window.remove(0);
        }
        let ghost kept = self.window@;
        let copy = item.clone();
        self.window.push(copy);
        self.down.observe(ctx, &self.window);
        let ghost ins = self.inputs@.push((*ctx, *item));
        self.inputs = Ghost(ins);
        proof {
            let s = self.start@;
            let w = self.window@;
            assert(w.drop_last() =~= kept);
            assert(self.down.received().drop_last() =~= old(self).down.received());
            if old(self).window@.len() >= old(self).count {
                assert(kept =~= old(self).window@.drop_first());
            }
            if old(self).faithful() {
                let n = old(self).inputs@.len();
                let count = self.count as nat;
                let old_w = old(self).window@;
                assert(ins.drop_last() =~= old(self).inputs@);
                assert forall|k: int| 0 <= k < w.len() implies cloned(
                    ins[ins.len() - w.len() + k].1,
                    #[trigger] w[k],
                ) by {
                    if k < w.len() - 1 {
                        if old_w.len() >= count {
                            assert(w[k] == old_w[k + 1]);
                            assert(ins[ins.len() - w.len() + k] == old(self).inputs@[n - old_w.len() + k + 1]);
                        } else {
                            assert(w[k] == old_w[k]);
                            assert(ins[ins.len() - w.len() + k] == old(self).inputs@[n - old_w.len() + k]);
                        }
                    }
                }
                let before = old(self).down.received().skip(s);
                let after = self.down.received().skip(s);
                assert(after =~= before.push((*ctx, self.window)));
                assert(ins.take((n + 1) as int) =~= ins);
                assert forall|i: int| 0 <= i < n implies #[trigger] ins.take(i + 1) == old(self).inputs@.take(i + 1) by {
                    assert(ins.take(i + 1) =~= old(self).inputs@.take(i + 1));
                }
            }
        }
    }
}

/// Every node can be boxed as a trait object, like any observer.
impl<'a, C: 'a, T: 'a, V: 'a, F: ContextFn<C, T, Output = V> + 'a, O: Observer<C, V> + 'a> IntoBoxed<'a, C, T> for MapNode<C, T, V, F, O> {
    fn into_boxed(self) -> (b: Boxed<'a, C, T>) {
        Boxed { observer: Box::new(self) }
    }
}

impl<'a, C: 'a, T: 'a, C2: 'a, T2: 'a, F: ContextFn<C, T, Output = (C2, T2)> + 'a, O: Observer<C2, T2> + 'a> IntoBoxed<'a, C, T> for MapBothNode<C, T, C2, T2, F, O> {
    fn into_boxed(self) -> (b: Boxed<'a, C, T>) {
        Boxed { observer: Box::new(self) }
    }
}

impl<'a, C: 'a, T: 'a, F: ContextFn<C, T, Output = bool> + 'a, O: Observer<C, T> + 'a> IntoBoxed<'a, C, T> for FilterNode<C, T, F, O> {
    fn into_boxed(self) -> (b: Boxed<'a, C, T>) {
        Boxed { observer: Box::new(self) }
    }
}

impl<'a, C: 'a, T: 'a, V: 'a, F: ContextFn<C, T, Output = Option<V>> + 'a, O: Observer<C, V> + 'a> IntoBoxed<'a, C, T> for FilterMapNode<C, T, V, F, O> {
    fn into_boxed(self) -> (b: Boxed<'a, C, T>) {
        Boxed { observer: Box::new(self) }
    }
}

impl<'a, C: 'a, T: 'a, V: 'a, F: ContextFoldFn<C, T, V, Output = V> + 'a, O: Observer<C, V> + 'a> IntoBoxed<'a, C, T> for FoldNode<C, T, V, F, O> {
    fn into_boxed(self) -> (b: Boxed<'a, C, T>) {
        Boxed { observer: Box::new(self) }
    }
}

impl<'a, C: 'a, T: 'a, F: ContextFn<C, T, Output = ()> + 'a, O: Observer<C, T> + 'a> IntoBoxed<'a, C, T> for InspectNode<C, T, F, O> {
    fn into_boxed(self) -> (b: Boxed<'a, C, T>) {
        Boxed { observer: Box::new(self) }
    }
}

impl<'a, C: 'a, T: 'a, K: 'a, O: Observer<K, T> + 'a> IntoBoxed<'a, C, T> for WithContextNode<C, T, K, O> {
    fn into_boxed(self) -> (b: Boxed<'a, C, T>) {
        Boxed { observer: Box::new(self) }
    }
}

impl<'a, C: 'a, T: 'a, K: 'a, F: ContextFn<C, T, Output = K> + 'a, O: Observer<K, T> + 'a> IntoBoxed<'a, C, T> for WithContextMapNode<C, T, K, F, O> {
    fn into_boxed(self) -> (b: Boxed<'a, C, T>) {
        Boxed { observer: Box::new(self) }
    }
}

impl<'a, C: 'a, T: 'a, O: Observer<C, C> + 'a> IntoBoxed<'a, C, T> for ContextNode<C, T, O> {
    fn into_boxed(self) -> (b: Boxed<'a, C, T>) {
        Boxed { observer: Box::new(self) }
    }
}

impl<'a, C: 'a, T: Clone + 'a, O: Observer<C, Vec<T>> + 'a> IntoBoxed<'a, C, T> for LastNNode<C, T, O> {
    fn into_boxed(self) -> (b: Boxed<'a, C, T>) {
        Boxed { observer: Box::new(self) }
    }
}

/// A filter feeding a map (`filter(p).map(f)`), the map node made fresh for
/// the filter, after any number of deliveries (`inv()` holds of every chain
/// built with `new` and fed through `observe`): everything the final observer has received since the map
/// node was made is, in order, each pair the predicate accepted, with its
/// context unchanged and its element replaced by a result of `f`.
pub proof fn lemma_filter_then_map<C, T, V, P, F, O>(n: FilterNode<C, T, P, MapNode<C, T, V, F, O>>) where
    P: ContextFn<C, T, Output = bool>,
    F: ContextFn<C, T, Output = V>,
    O: Observer<C, V>,

    requires
        n.inv(),
        n.start() == 0,
    ensures
        map_trace(
            n.downstream().func(),
            kept(n.received(), n.verdicts()),
            n.downstream().downstream().received().skip(n.downstream().start()),
        ),
{
    assert(n.downstream().received().skip(0) =~= n.downstream().received());
}

/// Two maps in a row (`map(f).map(g)`), the second node made fresh for the
/// first, after any number of deliveries: the final observer has received, for the `i`-th pair the first
/// node received, its context with `g` applied to the `i`-th result of `f`.
pub proof fn lemma_map_then_map<C, T, U, V, F, G, O>(n: MapNode<C, T, U, F, MapNode<C, U, V, G, O>>) where
    F: ContextFn<C, T, Output = U>,
    G: ContextFn<C, U, Output = V>,
    O: Observer<C, V>,

    requires
        n.inv(),
        n.start() == 0,
    ensures
        ({
            let mid = n.downstream().received();
            let fin = n.downstream().downstream().received().skip(n.downstream().start());
            &&& mid.len() == n.received().len()
            &&& fin.len() == n.received().len()
            &&& forall|i: int|
                0 <= i < n.received().len() ==> {
                    &&& (#[trigger] fin[i]).0 == n.received()[i].0
                    &&& n.func().gives(n.received()[i].0, n.received()[i].1, mid[i].1)
                    &&& n.downstream().func().gives(n.received()[i].0, mid[i].1, fin[i].1)
                }
        }),
{
    let mid = n.downstream().received();
    assert(mid.skip(0) =~= mid);
    let fin = n.downstream().downstream().received().skip(n.downstream().start());
    assert forall|i: int| 0 <= i < n.received().len() implies {
        &&& (#[trigger] fin[i]).0 == n.received()[i].0
        &&& n.func().gives(n.received()[i].0, n.received()[i].1, mid[i].1)
        &&& n.downstream().func().gives(n.received()[i].0, mid[i].1, fin[i].1)
    } by {
        assert(mid[i] == mid.skip(0)[i]);
    }
}

/// Two maps in a row (`map(f).map(g)`), the second node made fresh for the
/// first, emit what one map of the composition emits, after any number of
/// deliveries: the final observer has
/// received exactly the `map_trace` of `Then(f, g)` on what the first node
/// received.
pub proof fn lemma_map_then_map_is_one_map<C, T, U, V, F, G, O>(n: MapNode<C, T, U, F, MapNode<C, U, V, G, O>>) where
    F: ContextFn<C, T, Output = U>,
    G: ContextFn<C, U, Output = V>,
    O: Observer<C, V>,

    requires
        n.inv(),
        n.start() == 0,
    ensures
        map_trace(
            Then(n.func(), n.downstream().func(), PhantomData::<U>),
            n.received(),
            n.downstream().downstream().received().skip(n.downstream().start()),
        ),
{
    lemma_map_then_map(n);
    let h = Then(n.func(), n.downstream().func(), PhantomData::<U>);
    let mid = n.downstream().received();
    let fin = n.downstream().downstream().received().skip(n.downstream().start());
    assert forall|i: int| 0 <= i < n.received().len() implies {
        &&& (#[trigger] fin[i]).0 == n.received()[i].0
        &&& h.gives(n.received()[i].0, n.received()[i].1, fin[i].1)
    } by {
        let (c, x) = n.received()[i];
        assert(fin[i].0 == c);
        assert(h.0.gives(c, x, mid[i].1));
        assert(h.1.gives(c, mid[i].1, fin[i].1));
    }
}

} // verus!
