//! Scoped arena allocation with verified capability logic.
//!
//! Containers draw memory from a bump-style arena that is *active* within a
//! bounded scope, without the arena being threaded through every constructor.
//! An arena pool registers one arena in a [`ScopeContext`](context::ScopeContext);
//! activating it yields a guard that restores the previous slot on release; an
//! allocation handle snapshots whatever was active when it was built and
//! serves a conventional allocate / deallocate / grow / shrink contract on
//! top of a backing store that supports none of deallocate, in-place grow,
//! or in-place shrink.

mod arena;
mod context;
mod growable;
mod handle;
mod owning_box;

pub use arena::AllocFailure;
pub use arena::Arena;
pub use arena::Block;
pub use arena::align_up;
pub use context::AllocatorGuard;
pub use context::ScopeContext;
pub use context::WrapAllocator;
pub use growable::BoxedSlice;
pub use growable::GrowableArray;
pub use growable::grow_target;
pub use growable::lemma_sequential_pushes;
pub use growable::pushed_in_order;
pub use growable::reserve_target;
pub use handle::LimboAllocator;
pub use handle::can_carve;
pub use handle::fresh_block;
pub use owning_box::OwningBox;
