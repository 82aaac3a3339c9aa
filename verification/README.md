# reactive_rs

Building blocks for functional reactive programming, verified with Verus.

A computational tree has a root, a `Broadcast`, into which context/value
pairs are sent; inner nodes that transform the pairs (`map`, `filter`,
`filter_map`, `fold`, `inspect`, `last_n`, `with_ctx`, `with_ctx_map`,
`ctx`, `map_both` and their `_ctx` variants); and leaves, the observers.
A stream can be turned back into a broadcast with `broadcast()`, so that
several observers share one computation.

## Layout

- `src/func.rs` — `ContextFn` / `ContextFoldFn`: the callables the operators
  apply, with `NoContext` for closures that ignore the context, and
  `Prepared` / `PreparedFold`, which keep the fact that a callable accepts
  every input as a type invariant, and `Then`, the composition of two
  callables (two maps in a row emit what one map of `Then` emits).
- `src/observer.rs` — the `Observer` trait: every observer records, as ghost
  state, the pairs it has received; each delivery appends exactly one and
  keeps the observer's invariant `inv()` (for a node: it and every node below
  it are `faithful()`).  `IntoBoxed` moves an observer into a box as a
  trait object that is provably the same observer.
  `FnObserver` makes an observer of a closure.
- `src/node.rs` — one node per operator.  Each node states, as `faithful()`,
  that what its downstream observer has received since the node was made is
  exactly the operator's image of what the node received (`map_trace`,
  `filter_trace`, `fold_trace`, `last_n_trace`, ...), and proves that every
  delivery keeps it so.
- `src/stream.rs` — the `Stream` trait and the operator streams; subscribing
  to an operator stream subscribes the corresponding node to its parent.
- `src/broadcast.rs` — `Registry`, the ordered list of observers, with exact
  contracts for delivering and feeding (including a ghost record of the order
  in which observers are called) and for the order of subscription, and
  `Broadcast`, a
  shareable handle on a registry kept in a `vstd` `InvCell`.

## Design notes

- Closures are `Fn`, not `FnMut`: a stored callable must stay callable, and
  Verus keeps that fact only as a type invariant, which rules out mutable
  borrows of the callable.
- `send` and `send_ctx` take references; the iterators
  given to `feed` must be finite iterators that follow `vstd`'s iterator
  specification.
- `last_n` yields the window as a `Vec` of the latest elements; with a count
  of zero every window is empty.  The window is kept in a `Vec` rather than
  a `slice_deque::SliceDeque`: what a `SliceDeque<T>` holds could only be
  described to Verus by an unverified assumption that is generic in `T`,
  while `vstd` already specifies `Vec`.
- Every observer held by a broadcast keeps its invariant (`SoundRegistry`,
  the invariant of the shared cell): subscribing requires it, and delivering
  keeps it.
- The map operator's stream type is called `Mapped`.
- A value sent while a broadcast is delivering (an observer sending into the
  broadcast it observes) reaches only the observers subscribed during that
  delivery; observers subscribed during a delivery are kept after the others.
