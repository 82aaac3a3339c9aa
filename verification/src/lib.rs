//! Building blocks for functional reactive programming: computational trees
//! whose root receives context/value pairs, whose inner nodes transform them
//! and whose leaves, the observers, consume them.
mod broadcast;
mod func;
mod journal;
mod node;
mod observer;
mod stream;

pub use broadcast::{fed_calls, lemma_rounds_concat, lemma_rounds_single, round, rounds, SoundRegistry, Broadcast, Registry, Relay, SimpleBroadcast};
pub use journal::Journal;
pub use func::{ContextFn, ContextFoldFn, NoContext, Prepared, PreparedFold, Then};
pub use node::{
    ctx_trace, filter_map_trace, filter_trace, fold_acc, fold_trace, is_window, kept, last_n_trace,
    lemma_filter_then_map, lemma_map_then_map, lemma_map_then_map_is_one_map,
    map_both_trace, map_trace, picked, window_len, with_ctx_map_trace, with_ctx_trace, ContextNode,
    FilterMapNode, FilterNode, FoldNode, InspectNode, LastNNode, MapBothNode, MapNode,
    WithContextMapNode, WithContextNode,
};
pub use observer::{Boxed, FnObserver, IntoBoxed, Observer};
pub use stream::{
    Context, Filter, FilterMap, Fold, Inspect, LastN, MapBoth, Mapped, Stream, WithContext,
    WithContextMap,
};
