//! A single-value owning container drawing its slot from the arena its
//! handle captured.

use vstd::prelude::*;
use vstd::pervasive::unreached;

use crate::arena::Block;
use crate::context::ScopeContext;
use crate::handle::LimboAllocator;
use crate::handle::can_carve;

verus! {

/// Owns exactly one value resident in an arena slot drawn from its handle's
/// arena at construction. Dropping the box never releases the slot: the
/// memory lives until its arena does. The arena model measures blocks in
/// value slots, one unit each; real layouts scale by the value's size,
/// which changes nothing stated here.
pub struct OwningBox<T> {
    value: T,
    block: Block,
    alloc: LimboAllocator,
}

impl<T> View for OwningBox<T> {
    type V = T;

    closed spec fn view(&self) -> T {
        self.value
    }
}

impl<T> OwningBox<T> {
    /// The handle the box allocates through.
    pub closed spec fn alloc_spec(&self) -> LimboAllocator {
        self.alloc
    }

    /// The arena slot the box occupies.
    pub closed spec fn block_spec(&self) -> Block {
        self.block
    }

    /// The box's slot is a one-unit block of its handle's captured arena,
    /// registered in `ctx`.
    pub open spec fn valid_in(&self, ctx: &ScopeContext) -> bool {
        &&& self.alloc_spec().wf(ctx)
        &&& self.alloc_spec().captured()
        &&& self.block_spec().size == 1
        &&& self.block_spec().in_store(
            ctx.arena_view(self.alloc_spec().captured_id().unwrap()).len() as int,
        )
    }

    /// Allocate a slot through `alloc` and move `value` in. Allocation
    /// failure is fatal for a container, so the contract demands a handle
    /// with a captured arena that has room for one more slot.
    pub fn new_in(value: T, alloc: LimboAllocator, ctx: &mut ScopeContext) -> (b: OwningBox<T>)
        requires
            old(ctx).wf(),
            alloc.wf(old(ctx)),
            alloc.captured(),
            can_carve(old(ctx).arena_view(alloc.captured_id().unwrap()), 1, 1),
        ensures
            b@ == value,
            b.alloc_spec() == alloc,
            b.valid_in(final(ctx)),
            final(ctx).wf(),
            old(ctx).grew_only(final(ctx), alloc.captured_id().unwrap()),
            final(ctx).arena_view(alloc.captured_id().unwrap()).len() == old(ctx).arena_view(
                alloc.captured_id().unwrap(),
            ).len() + 1,
    {
        match alloc.allocate(ctx, 1, 1) {
            Ok(block) => OwningBox { value, block, alloc },
            Err(_) => unreached(),
        }
    }

    /// Allocate through a handle that snapshots whatever arena is active in
    /// `ctx` right now. An empty slot would make the allocation fail, which
    /// is fatal here, so the contract demands an active arena with room.
    pub fn new(value: T, ctx: &mut ScopeContext) -> (b: OwningBox<T>)
        requires
            old(ctx).wf(),
            old(ctx).active_id() is Some,
            can_carve(old(ctx).arena_view(old(ctx).active_id().unwrap()), 1, 1),
        ensures
            b@ == value,
            b.alloc_spec().captured_id() == old(ctx).active_id(),
            b.valid_in(final(ctx)),
            final(ctx).wf(),
            old(ctx).grew_only(final(ctx), old(ctx).active_id().unwrap()),
            final(ctx).arena_view(old(ctx).active_id().unwrap()).len() == old(ctx).arena_view(
                old(ctx).active_id().unwrap(),
            ).len() + 1,
    {
        let alloc = LimboAllocator::new(ctx);
        OwningBox::new_in(value, alloc, ctx)
    }

    /// Consume the box and move the value out. The vacated slot is never
    /// reclaimed; a consumed box cannot be used again.
    pub fn unbox(self) -> (v: T)
        ensures
            v == self@,
    {
        let OwningBox { value, block: _, alloc: _ } = self;
        value
    }

    /// Read access to the boxed value.
    pub fn as_ref(&self) -> (r: &T)
        ensures
            *r == self@,
    {
        &self.value
    }

    /// Write access to the boxed value. The slot, and so validity in any
    /// context, is untouched.
    pub fn as_mut(&mut self) -> (r: &mut T)
        ensures
            *r == old(self)@,
            final(self)@ == *final(r),
            final(self).alloc_spec() == old(self).alloc_spec(),
            final(self).block_spec() == old(self).block_spec(),
    {
        &mut self.value
    }
}

} // verus!
