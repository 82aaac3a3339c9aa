//! Broadcasts: event sources that pass each context/value pair on to every
//! subscribed observer, in the order of subscription.
use crate::journal::Journal;
use crate::observer::{Boxed, IntoBoxed, Observer};
use crate::stream::Stream;
use std::rc::Rc;
use vstd::cell::invcell::InvCell;
use vstd::predicate::Predicate;
use vstd::std_specs::iter::IteratorSpec;
use vstd::prelude::*;

verus! {

/// The calls one delivery of `(ctx, value)` makes to `n` observers: one
/// per observer, by position, oldest subscription first.
pub open spec fn round<C, T>(n: nat, ctx: C, value: T) -> Seq<(nat, C, T)> {
    Seq::new(n, |i: int| (i as nat, ctx, value))
}

/// The calls made to `n` observers when `values` are delivered one after
/// another, each with `ctx`: a whole round per value, in order.
pub open spec fn rounds<C, T>(n: nat, ctx: C, values: Seq<T>) -> Seq<(nat, C, T)>
    decreases values.len(),
{
    if values.len() == 0 {
        Seq::empty()
    } else {
        rounds(n, ctx, values.drop_last()) + round(n, ctx, values.last())
    }
}

/// The calls made when `values` are fed one after another, each with `ctx`,
/// to observers whose histories were `starts`: for each value in turn, one
/// call per observer in position order, each recorded by that observer's
/// history just after it.
pub open spec fn fed_calls<C, T>(starts: Seq<Seq<(C, T)>>, ctx: C, values: Seq<T>) -> Seq<Seq<(C, T)>>
    decreases values.len(),
{
    if values.len() == 0 {
        Seq::empty()
    } else {
        fed_calls(starts, ctx, values.drop_last()) + Seq::new(
            starts.len(),
            |i: int| starts[i] + values.map_values(|v: T| (ctx, v)),
        )
    }
}

/// Feeding `first` and then `second` makes the same calls, in the same
/// order, as feeding `first + second` in one go.
pub proof fn lemma_rounds_concat<C, T>(n: nat, ctx: C, first: Seq<T>, second: Seq<T>)
    ensures
        rounds(n, ctx, first + second) == rounds(n, ctx, first) + rounds(n, ctx, second),
    decreases second.len(),
{
    if second.len() == 0 {
        assert(first + second =~= first);
        assert(rounds(n, ctx, first) + rounds(n, ctx, second) =~= rounds(n, ctx, first));
    } else {
        lemma_rounds_concat(n, ctx, first, second.drop_last());
        assert((first + second).drop_last() =~= first + second.drop_last());
        assert((first + second).last() == second.last());
        assert(rounds(n, ctx, first) + rounds(n, ctx, second) =~= rounds(n, ctx, first) + rounds(
            n,
            ctx,
            second.drop_last(),
        ) + round(n, ctx, second.last()));
    }
}

/// Feeding a single value makes the same calls as sending it.
pub proof fn lemma_rounds_single<C, T>(n: nat, ctx: C, value: T)
    ensures
        rounds(n, ctx, seq![value]) == round(n, ctx, value),
{
    assert(seq![value].drop_last() =~= Seq::<T>::empty());
    assert(rounds(n, ctx, Seq::<T>::empty()) + round(n, ctx, value) =~= round(n, ctx, value));
}

/// The observers of a broadcast, in the order in which they subscribed.
#[verifier::reject_recursive_types(C)]
#[verifier::reject_recursive_types(T)]
pub struct Registry<'a, C, T> {
    list: Vec<Box<dyn Observer<C, T> + 'a>>,
    log: Ghost<Seq<(nat, C, T)>>,
    journal: Journal<C, T>,
}

impl<'a, C, T> Registry<'a, C, T> {
    /// The subscribed observers, oldest subscription first.
    pub closed spec fn observers(&self) -> Seq<Box<dyn Observer<C, T> + 'a>> {
        self.list@
    }

    /// Every observer keeps its invariant (for an operator node: it and every
    /// node below it have passed on exactly what their operators make of
    /// what they received).
    pub open spec fn sound(&self) -> bool {
        forall|i: int| 0 <= i < self.observers().len() ==> #[trigger] self.observers()[i].inv()
    }

    /// The calls made to the observers, in the order they were made: the
    /// position of the observer called and the pair handed to it.
    pub closed spec fn deliveries(&self) -> Seq<(nat, C, T)> {
        self.log@
    }

    /// The calls actually made to the observers, in the order they were
    /// made: for each, the history of the observer called, just after the
    /// call (see `Journal`).
    pub closed spec fn calls(&self) -> Seq<Seq<(C, T)>> {
        self.journal.calls()
    }

    /// A registry with no observers, which has made no call yet.
    pub fn new() -> (r: Self)
        ensures
            r.observers().len() == 0,
            r.deliveries() == Seq::<(nat, C, T)>::empty(),
            r.calls() == Seq::<Seq<(C, T)>>::empty(),
            r.sound(),
    {
        Registry { list: Vec::new(), log: Ghost(Seq::empty()), journal: Journal::new() }
    }

    /// The registry with `observer` appended after all the present ones.
    pub fn with<O: IntoBoxed<'a, C, T>>(self, observer: O) -> (r: Self)
        ensures
            r.observers().len() == self.observers().len() + 1,
            r.observers().drop_last() == self.observers(),
            r.observers().last().received() == observer.received(),
            r.observers().last().inv() == observer.inv(),
            r.deliveries() == self.deliveries(),
            r.calls() == self.calls(),
            self.sound() && observer.inv() ==> r.sound(),
    {
        let Registry { list, log, journal } = self;
        let mut list = list;
        let Boxed { observer: boxed } = observer.into_boxed();
        let mut single = vec![boxed];
        list.append(&mut single);
        let r = Registry { list, log, journal };
        assert(r.observers().drop_last() =~= self.observers());
        r
    }

    /// Appends all observers of `other`, keeping their order (the calls
    /// `other` made are not this registry's and are not added to its record).
    pub fn absorb(&mut self, other: Self)
        ensures
            final(self).observers() == old(self).observers() + other.observers(),
            final(self).deliveries() == old(self).deliveries(),
            final(self).calls() == old(self).calls(),
            old(self).sound() && other.sound() ==> final(self).sound(),
    {
        let ghost mine = self.list@;
        let ghost theirs = other.observers();
        let ghost sound_before = old(self).sound() && other.sound();
        let mut rest = other;
        self.list.append(&mut rest.list);
        assert(self.list@ =~= mine + theirs);
        proof {
            if sound_before {
                assert forall|i: int| 0 <= i < self.list@.len() implies #[trigger] self.list@[i].inv() by {
                    if i >= mine.len() {
                        assert(self.list@[i] == theirs[i - mine.len()]);
                    }
                }
            }
        }
    }

    /// Hands `(ctx, value)` to every observer, oldest subscription first:
    /// the calls made are, in order, one to each observer by position.
    pub fn deliver(&mut self, ctx: &C, value: &T)
        ensures
            final(self).observers().len() == old(self).observers().len(),
            final(self).calls() == old(self).calls() + Seq::new(
                old(self).observers().len(),
                |i: int| final(self).observers()[i].received(),
            ),
            final(self).deliveries() == old(self).deliveries() + round(
                old(self).observers().len(),
                *ctx,
                *value,
            ),
            forall|i: int|
                0 <= i < old(self).observers().len() ==> #[trigger] final(self).observers()[i].received()
                    == old(self).observers()[i].received().push((*ctx, *value)),
            forall|i: int|
                0 <= i < old(self).observers().len() ==> (old(self).observers()[i].inv()
                    ==> #[trigger] final(self).observers()[i].inv()),
            old(self).sound() ==> final(self).sound(),
    {
        let n = self.list.len();
        let mut i: usize = 0;
        assert(round(0, *ctx, *value) =~= Seq::<(nat, C, T)>::empty());
        assert(old(self).calls() + Seq::new(0, |j: int| self.list@[j].received()) =~= old(self).calls());
        while i < n
            invariant
                self.list@.len() == n,
                n == old(self).observers().len(),
                0 <= i <= n,
                forall|j: int|
                    0 <= j < i ==> #[trigger] self.list@[j].received() == old(self).observers()[j].received().push(
                        (*ctx, *value),
                    ),
                forall|j: int| i <= j < n ==> #[trigger] self.list@[j] == old(self).observers()[j],
                forall|j: int|
                    0 <= j < i ==> (old(self).observers()[j].inv() ==> #[trigger] self.list@[j].inv()),
                self.log@ == old(self).deliveries() + round(i as nat, *ctx, *value),
                self.journal.calls() == old(self).calls() + Seq::new(
                    i as nat,
                    |j: int| self.list@[j].received(),
                ),
            decreases n - i,
        {
            let ghost before = self.list@;
            self.journal.call(&mut self.list, i, ctx, value);
            assert(self.journal.calls() =~= old(self).calls() + Seq::new(
                (i + 1) as nat,
                |j: int| self.list@[j].received(),
            )) by {
                assert forall|j: int| 0 <= j < i implies self.list@[j] == before[j] by {}
            }
            self.log = Ghost(self.log@.push((i as nat, *ctx, *value)));
            assert(round((i + 1) as nat, *ctx, *value) =~= round(i as nat, *ctx, *value).push(
                (i as nat, *ctx, *value),
            ));
            i = i + 1;
        }
    }
}

impl<'a, C, T> Registry<'a, C, T> {
    /// Hands every value `iter` yields, in order and each with `ctx`, to
    /// every observer.
    pub fn feed<I>(&mut self, ctx: &C, iter: I) where I: Iterator<Item = T>
        requires
            iter.obeys_prophetic_iter_laws(),
            iter.decrease() is Some,
        ensures
            final(self).observers().len() == old(self).observers().len(),
            final(self).deliveries() == old(self).deliveries() + rounds(
                old(self).observers().len(),
                *ctx,
                iter.remaining(),
            ),
            final(self).calls() == old(self).calls() + fed_calls(
                Seq::new(old(self).observers().len(), |i: int| old(self).observers()[i].received()),
                *ctx,
                iter.remaining(),
            ),
            forall|i: int|
                0 <= i < old(self).observers().len() ==> #[trigger] final(self).observers()[i].received()
                    == old(self).observers()[i].received() + iter.remaining().map_values(
                    |v: T| (*ctx, v),
                ),
            forall|i: int|
                0 <= i < old(self).observers().len() ==> (old(self).observers()[i].inv()
                    ==> #[trigger] final(self).observers()[i].inv()),
            old(self).sound() ==> final(self).sound(),
    {
        let ghost all = iter.remaining();
        let ghost start = self.observers();
        let ghost start_log = self.deliveries();
        let ghost start_calls = self.calls();
        let ghost starts = Seq::new(start.len(), |i: int| start[i].received());
        let mut iter = iter;
        let ghost mut done: int = 0;
        loop
            invariant
                iter.obeys_prophetic_iter_laws(),
                iter.decrease() is Some,
                0 <= done <= all.len(),
                iter.remaining() == all.skip(done),
                self.observers().len() == start.len(),
                self.deliveries() == start_log + rounds(start.len(), *ctx, all.take(done)),
                starts == Seq::new(start.len(), |i: int| start[i].received()),
                self.calls() == start_calls + fed_calls(starts, *ctx, all.take(done)),
                forall|i: int|
                    0 <= i < start.len() ==> #[trigger] self.observers()[i].received()
                        == start[i].received() + all.take(done).map_values(|v: T| (*ctx, v)),
                forall|i: int|
                    0 <= i < start.len() ==> (start[i].inv() ==> #[trigger] self.observers()[i].inv()),
            ensures
                self.observers().len() == start.len(),
                self.deliveries() == start_log + rounds(start.len(), *ctx, all),
                self.calls() == start_calls + fed_calls(starts, *ctx, all),
                forall|i: int|
                    0 <= i < start.len() ==> #[trigger] self.observers()[i].received()
                        == start[i].received() + all.map_values(|v: T| (*ctx, v)),
                forall|i: int|
                    0 <= i < start.len() ==> (start[i].inv() ==> #[trigger] self.observers()[i].inv()),
            decreases iter.decrease()->0,
        {
            let ghost before = self.observers();
            match iter.next() {
                Some(value) => {
                    self.deliver(ctx, &value);
                    proof {
                        assert(value == all[done]);
                        assert(all.take(done + 1) =~= all.take(done).push(value));
                        assert(all.take(done + 1).drop_last() =~= all.take(done));
                        assert(rounds(start.len(), *ctx, all.take(done + 1)) == rounds(
                            start.len(),
                            *ctx,
                            all.take(done),
                        ) + round(start.len(), *ctx, value));
                        assert(all.take(done + 1).map_values(|v: T| (*ctx, v)) =~= all.take(
                            done,
                        ).map_values(|v: T| (*ctx, v)).push((*ctx, value)));
                        assert forall|i: int| 0 <= i < start.len() implies #[trigger] self.observers()[i].received()
                            == start[i].received() + all.take(done + 1).map_values(|v: T| (*ctx, v)) by {
                            assert(self.observers()[i].received() == before[i].received().push((*ctx, value)));
                            assert(start[i].received() + all.take(done + 1).map_values(|v: T| (*ctx, v))
                                =~= (start[i].received() + all.take(done).map_values(|v: T| (*ctx, v))).push(
                                (*ctx, value),
                            ));
                        }
                        let vals = all.take(done + 1);
                        let fresh = Seq::new(
                            starts.len(),
                            |i: int| starts[i] + vals.map_values(|v: T| (*ctx, v)),
                        );
                        assert(fed_calls(starts, *ctx, vals) == fed_calls(starts, *ctx, vals.drop_last())
                            + fresh);
                        let now = Seq::new(start.len(), |i: int| self.observers()[i].received());
                        assert forall|i: int| 0 <= i < start.len() implies now[i] == fresh[i] by {
                            assert(self.observers()[i].received() == start[i].received()
                                + all.take(done + 1).map_values(|v: T| (*ctx, v)));
                        }
                        assert(now =~= fresh);
                        assert(self.calls() =~= start_calls + fed_calls(starts, *ctx, all.take(done + 1)));
                        done = done + 1;
                    }
                },
                None => {
                    proof {
                        assert(all.take(done) =~= all);
                    }
                    break;
                },
            }
        }
    }
}

/// The invariant of the cell that a broadcast and its clones share: the
/// registry held there is sound, so every observer of a broadcast keeps its
/// invariant at all times.
pub struct SoundRegistry;

impl<'a, C, T> Predicate<Registry<'a, C, T>> for SoundRegistry {
    open spec fn predicate(&self, r: Registry<'a, C, T>) -> bool {
        r.sound()
    }
}

/// Event source that transmits context/value pairs to multiple observers.
///
/// Cloning a broadcast yields another handle on the same observers: a value
/// sent through any handle reaches the observers subscribed through all of
/// them.  A broadcast receives values either from `send()`, `send_ctx()`,
/// `feed()` and `feed_ctx()`, or from a parent stream it was made from
/// (`from_stream()`); each pair received is handed, by reference, to each
/// subscribed observer.
///
/// The observers are kept in a `Registry` inside an `InvCell` that all clones
/// share.  A send takes the registry out of the cell, delivers through it
/// (`Registry::deliver`) and puts it back; the registry's own contracts say
/// what every observer receives.
#[verifier::reject_recursive_types(C)]
#[verifier::reject_recursive_types(T)]
pub struct Broadcast<'a, C, T> {
    observers: Rc<InvCell<Registry<'a, C, T>, SoundRegistry>>,
}

/// Simplified broadcast that only transmits values without context.
pub type SimpleBroadcast<'a, T> = Broadcast<'a, (), T>;

impl<'a, C: 'a, T: 'a> Broadcast<'a, C, T> {
    /// Creates a new broadcast with no observers.
    pub fn new() -> Self {
        let registry = Registry::new();
        Broadcast { observers: Rc::new(InvCell::new(registry, Ghost(SoundRegistry))) }
    }

    /// Takes the observers out of the shared cell, leaving an empty registry there.
    fn take(&self) -> (r: Registry<'a, C, T>)
        ensures
            r.sound(),
    {
        let empty = Registry::new();
        self.observers.replace(empty)
    }

    /// Puts the observers back into the shared cell, keeping after them any
    /// observer that subscribed while they were out.
    fn put_back(&self, registry: Registry<'a, C, T>)
        requires
            registry.sound(),
    {
        let mut registry = registry;
        let empty = Registry::new();
        let added_meanwhile = self.observers.replace(empty);
        registry.absorb(added_meanwhile);
        let _ = self.observers.replace(registry);
    }

    /// Create a broadcast from a stream, enabling multiple observers
    /// ("fork" the stream): every pair the stream emits is sent through the
    /// new broadcast.
    pub fn from_stream<S>(stream: S) -> Self where S: Stream<'a, Context = C, Item = T> {
        stream.broadcast()
    }

    /// Subscribes an observer after all the present ones.
    pub fn push<O>(&self, observer: O) where O: 'a + IntoBoxed<'a, C, T>
        requires
            observer.inv(),
    {
        let registry = self.take();
        self.put_back(registry.with(observer));
    }

    /// Send a value along with context to all observers of the broadcast.
    pub fn send_ctx(&self, ctx: &C, value: &T) {
        let mut registry = self.take();
        registry.deliver(ctx, value);
        self.put_back(registry);
    }

    /// Similar to `send_ctx()`, but the context is set to the type's default value.
    pub fn send(&self, value: &T) where C: Default {
        let ctx = C::default();
        self.send_ctx(&ctx, value);
    }

    /// Convenience method to feed an iterator of values to all observers of
    /// the broadcast, along with a given context, one value after another.
    pub fn feed_ctx<I>(&self, ctx: &C, iter: I) where I: Iterator<Item = T>
        requires
            iter.obeys_prophetic_iter_laws(),
            iter.decrease() is Some,
    {
        let mut registry = self.take();
        registry.feed(ctx, iter);
        self.put_back(registry);
    }

    /// Similar to `feed_ctx()`, but the context is set to the type's default value.
    pub fn feed<I>(&self, iter: I) where I: Iterator<Item = T>, C: Default
        requires
            iter.obeys_prophetic_iter_laws(),
            iter.decrease() is Some,
    {
        let ctx = C::default();
        self.feed_ctx(&ctx, iter);
    }
}

impl<'a, C: 'a, T: 'a> Default for Broadcast<'a, C, T> {
    /// A new broadcast with no observers.
    fn default() -> Self {
        Self::new()
    }
}

impl<'a, C: 'a, T: 'a> Clone for Broadcast<'a, C, T> {
    /// Another handle on the same observers.
    fn clone(&self) -> (res: Self)
        ensures
            res == *self,
    {
        Broadcast { observers: Rc::clone(&self.observers) }
    }
}

/// An observer that sends everything it receives through a broadcast.
#[verifier::reject_recursive_types(C)]
#[verifier::reject_recursive_types(T)]
pub struct Relay<'a, C, T> {
    target: Broadcast<'a, C, T>,
    seen: Ghost<Seq<(C, T)>>,
}

impl<'a, C: 'a, T: 'a> Relay<'a, C, T> {
    /// The broadcast everything is sent through.
    pub closed spec fn target(&self) -> Broadcast<'a, C, T> {
        self.target
    }

    /// A relay into `target` that has received nothing yet.
    pub fn new(target: Broadcast<'a, C, T>) -> (r: Self)
        ensures
            r.target() == target,
            r.received() == Seq::<(C, T)>::empty(),
            r.inv(),
    {
        Relay { target, seen: Ghost(Seq::empty()) }
    }
}

impl<'a, C: 'a, T: 'a> Observer<C, T> for Relay<'a, C, T> {
    closed spec fn received(&self) -> Seq<(C, T)> {
        self.seen@
    }

    /// A relay keeps nothing of its own to be checked.
    open spec fn inv(&self) -> bool {
        true
    }

    fn observe(&mut self, ctx: &C, item: &T) {
        self.target.send_ctx(ctx, item);
        self.seen = Ghost(self.seen@.push((*ctx, *item)));
    }
}

impl<'a, C: 'a, T: 'a> IntoBoxed<'a, C, T> for Relay<'a, C, T> {
    fn into_boxed(self) -> (b: Boxed<'a, C, T>) {
        Boxed { observer: Box::new(self) }
    }
}

impl<'a, C: 'a, T: 'a> Stream<'a> for Broadcast<'a, C, T> {
    type Context = C;

    type Item = T;

    fn subscribe_observer<O>(self, observer: O) where O: 'a + IntoBoxed<'a, C, T> {
        self.push(observer);
    }
}

} // verus!
