//! The allocation capability: a copyable handle that snapshots whichever
//! arena was active when it was built, and serves the six-operation
//! allocator contract against that arena. The backing store supports no
//! individual free, no in-place grow and no in-place shrink, so deallocate
//! is a no-op and grow and shrink always carve a fresh block and copy.

use vstd::prelude::*;
use vstd::pervasive::unreached;

use crate::arena::AllocFailure;
use crate::arena::Block;
use crate::arena::align_up;
use crate::context::ScopeContext;

verus! {

/// A block was carved fresh from the arena that held `pre` bytes and holds
/// `post` afterwards: the block sits at the aligned old end of the store,
/// the new end is the block's end, and every byte already carved is kept.
pub open spec fn fresh_block(pre: Seq<u8>, post: Seq<u8>, b: Block, size: int, align: int) -> bool {
    &&& b.size == size
    &&& b.addr as int == align_up(pre.len() as int, align)
    &&& b.addr as int % align == 0
    &&& pre.len() <= b.addr
    &&& post.len() == b.addr + size
    &&& post.subrange(0, pre.len() as int) =~= pre
}

/// The aligned end of an arena holding `pre` bytes leaves room for `size`
/// more: exactly then can a block of that size and alignment be carved.
pub open spec fn can_carve(pre: Seq<u8>, size: int, align: int) -> bool {
    align_up(pre.len() as int, align) + size <= usize::MAX
}

/// A small copyable capability: an optional arena identity, fixed when the
/// handle is built by snapshotting the context's active slot. Later changes
/// to the slot never affect a handle already built.
#[derive(Clone, Copy)]
pub struct LimboAllocator {
    arena: Option<usize>,
}

impl LimboAllocator {
    /// The arena captured at construction, if any.
    pub closed spec fn captured_id(&self) -> Option<int> {
        match self.arena {
            Some(i) => Some(i as int),
            None => None,
        }
    }

    /// The handle captured an arena.
    pub open spec fn captured(&self) -> bool {
        self.captured_id() is Some
    }

    /// The captured arena, when there is one, is registered in `ctx`.
    pub open spec fn wf(&self, ctx: &ScopeContext) -> bool {
        self.captured_id() matches Some(i) ==> 0 <= i < ctx.arena_count()
    }

    /// Build a handle by snapshotting whatever arena is active in `ctx`
    /// right now — possibly none.
    pub fn new(ctx: &ScopeContext) -> (h: LimboAllocator)
        ensures
            h.captured_id() == ctx.active_id(),
            ctx.wf() ==> h.wf(ctx),
    {
        LimboAllocator { arena: ctx.snapshot() }
    }

    /// Request a block of exactly `size` bytes satisfying `align`. Fails
    /// with `NoActiveArena` when the handle captured no arena, and with
    /// `AddressConstructionFailure` when no address for the block fits in a
    /// machine word; succeeds in every other case. The block's contents are
    /// left unspecified. Nothing already carved, in any arena, changes.
    pub fn allocate(&self, ctx: &mut ScopeContext, size: usize, align: usize) -> (r: Result<
        Block,
        AllocFailure,
    >)
        requires
            old(ctx).wf(),
            self.wf(old(ctx)),
            1 <= align,
        ensures
            final(ctx).wf(),
            self.wf(final(ctx)),
            !self.captured() ==> r == Err::<Block, AllocFailure>(AllocFailure::NoActiveArena)
                && old(ctx).same_state(final(ctx)),
            self.captured_id() matches Some(id) ==> {
                &&& old(ctx).grew_only(final(ctx), id)
                &&& r is Ok <==> can_carve(old(ctx).arena_view(id), size as int, align as int)
                &&& match r {
                    Ok(b) => fresh_block(
                        old(ctx).arena_view(id),
                        final(ctx).arena_view(id),
                        b,
                        size as int,
                        align as int,
                    ),
                    Err(e) => e == AllocFailure::AddressConstructionFailure && old(ctx).same_state(
                        final(ctx),
                    ),
                }
            },
    {
        match self.arena {
            None => Err(AllocFailure::NoActiveArena),
            Some(id) => ctx.carve_in(id, size, align),
        }
    }

    /// As [`Self::allocate`], but the block's contents are guaranteed to be
    /// all zero.
    pub fn allocate_zeroed(&self, ctx: &mut ScopeContext, size: usize, align: usize) -> (r: Result<
        Block,
        AllocFailure,
    >)
        requires
            old(ctx).wf(),
            self.wf(old(ctx)),
            1 <= align,
        ensures
            final(ctx).wf(),
            self.wf(final(ctx)),
            !self.captured() ==> r == Err::<Block, AllocFailure>(AllocFailure::NoActiveArena)
                && old(ctx).same_state(final(ctx)),
            self.captured_id() matches Some(id) ==> {
                &&& old(ctx).grew_only(final(ctx), id)
                &&& r is Ok <==> can_carve(old(ctx).arena_view(id), size as int, align as int)
                &&& match r {
                    Ok(b) => fresh_block(
                        old(ctx).arena_view(id),
                        final(ctx).arena_view(id),
                        b,
                        size as int,
                        align as int,
                    ) && forall|i: int|
                        b.addr <= i < b.addr + b.size ==> final(ctx).arena_view(id)[i] == 0u8,
                    Err(e) => e == AllocFailure::AddressConstructionFailure && old(ctx).same_state(
                        final(ctx),
                    ),
                }
            },
    {
        match self.arena {
            None => Err(AllocFailure::NoActiveArena),
            Some(id) => ctx.carve_in(id, size, align),
        }
    }

    /// Release a block: by design a no-op that always succeeds. Individual
    /// blocks are never reclaimed; the whole arena's memory is released at
    /// once when the arena is dropped.
    pub fn deallocate(&self, ctx: &mut ScopeContext, block: Block)
        ensures
            *final(ctx) == *old(ctx),
    {
        let _ = block;
    }

    /// Grow `block` to `new_size` bytes. The backing store cannot extend a
    /// block in place, so a fresh block is always carved and the old
    /// block's `block.size` bytes are copied to its start; the trailing
    /// `new_size - block.size` bytes are left unspecified. The old block's
    /// bytes survive unchanged at their old address. Failure cases are
    /// those of [`Self::allocate`].
    pub fn grow(&self, ctx: &mut ScopeContext, block: Block, new_size: usize, align: usize) -> (r:
        Result<Block, AllocFailure>)
        requires
            old(ctx).wf(),
            self.wf(old(ctx)),
            1 <= align,
            block.size <= new_size,
            self.captured_id() matches Some(id) ==> block.in_store(
                old(ctx).arena_view(id).len() as int,
            ),
        ensures
            final(ctx).wf(),
            self.wf(final(ctx)),
            !self.captured() ==> r == Err::<Block, AllocFailure>(AllocFailure::NoActiveArena)
                && old(ctx).same_state(final(ctx)),
            self.captured_id() matches Some(id) ==> {
                &&& old(ctx).grew_only(final(ctx), id)
                &&& r is Ok <==> can_carve(old(ctx).arena_view(id), new_size as int, align as int)
                &&& match r {
                    Ok(nb) => {
                        &&& fresh_block(
                            old(ctx).arena_view(id),
                            final(ctx).arena_view(id),
                            nb,
                            new_size as int,
                            align as int,
                        )
                        &&& forall|i: int|
                            nb.addr <= i < nb.addr + block.size ==> final(ctx).arena_view(id)[i]
                                == old(ctx).arena_view(id)[block.addr + (i - nb.addr)]
                    },
                    Err(e) => e == AllocFailure::AddressConstructionFailure && old(ctx).same_state(
                        final(ctx),
                    ),
                }
            },
    {
        match self.arena {
            None => Err(AllocFailure::NoActiveArena),
            Some(id) => {
                match ctx.carve_in(id, new_size, align) {
                    Ok(nb) => {
                        ctx.copy_in(id, block, nb, block.size);
                        Ok(nb)
                    },
                    Err(e) => Err(e),
                }
            },
        }
    }

    /// As [`Self::grow`], but the trailing `new_size - block.size` bytes of
    /// the fresh block are guaranteed to be all zero.
    pub fn grow_zeroed(
        &self,
        ctx: &mut ScopeContext,
        block: Block,
        new_size: usize,
        align: usize,
    ) -> (r: Result<Block, AllocFailure>)
        requires
            old(ctx).wf(),
            self.wf(old(ctx)),
            1 <= align,
            block.size <= new_size,
            self.captured_id() matches Some(id) ==> block.in_store(
                old(ctx).arena_view(id).len() as int,
            ),
        ensures
            final(ctx).wf(),
            self.wf(final(ctx)),
            !self.captured() ==> r == Err::<Block, AllocFailure>(AllocFailure::NoActiveArena)
                && old(ctx).same_state(final(ctx)),
            self.captured_id() matches Some(id) ==> {
                &&& old(ctx).grew_only(final(ctx), id)
                &&& r is Ok <==> can_carve(old(ctx).arena_view(id), new_size as int, align as int)
                &&& match r {
                    Ok(nb) => {
                        &&& fresh_block(
                            old(ctx).arena_view(id),
                            final(ctx).arena_view(id),
                            nb,
                            new_size as int,
                            align as int,
                        )
                        &&& forall|i: int|
                            nb.addr <= i < nb.addr + block.size ==> final(ctx).arena_view(id)[i]
                                == old(ctx).arena_view(id)[block.addr + (i - nb.addr)]
                        &&& forall|i: int|
                            nb.addr + block.size <= i < nb.addr + new_size
                                ==> final(ctx).arena_view(id)[i] == 0u8
                    },
                    Err(e) => e == AllocFailure::AddressConstructionFailure && old(ctx).same_state(
                        final(ctx),
                    ),
                }
            },
    {
        match self.arena {
            None => Err(AllocFailure::NoActiveArena),
            Some(id) => {
                match ctx.carve_in(id, new_size, align) {
                    Ok(nb) => {
                        ctx.copy_in(id, block, nb, block.size);
                        Ok(nb)
                    },
                    Err(e) => Err(e),
                }
            },
        }
    }

    /// Shrink `block` to `new_size` bytes: carve a fresh block and copy the
    /// old block's first `new_size` bytes into it. A handle that captured
    /// no arena must not call shrink — unlike the other operations, that
    /// condition has no failure value here — so the contract demands a
    /// captured arena. Only an unrepresentable address still fails.
    pub fn shrink(&self, ctx: &mut ScopeContext, block: Block, new_size: usize, align: usize) -> (r:
        Result<Block, AllocFailure>)
        requires
            old(ctx).wf(),
            self.wf(old(ctx)),
            1 <= align,
            new_size <= block.size,
            self.captured(),
            self.captured_id() matches Some(id) ==> block.in_store(
                old(ctx).arena_view(id).len() as int,
            ),
        ensures
            final(ctx).wf(),
            self.wf(final(ctx)),
            self.captured_id() matches Some(id) ==> {
                &&& old(ctx).grew_only(final(ctx), id)
                &&& r is Ok <==> can_carve(old(ctx).arena_view(id), new_size as int, align as int)
                &&& match r {
                    Ok(nb) => {
                        &&& fresh_block(
                            old(ctx).arena_view(id),
                            final(ctx).arena_view(id),
                            nb,
                            new_size as int,
                            align as int,
                        )
                        &&& forall|i: int|
                            nb.addr <= i < nb.addr + new_size ==> final(ctx).arena_view(id)[i]
                                == old(ctx).arena_view(id)[block.addr + (i - nb.addr)]
                    },
                    Err(e) => e == AllocFailure::AddressConstructionFailure && old(ctx).same_state(
                        final(ctx),
                    ),
                }
            },
    {
        match self.arena {
            None => Err(AllocFailure::NoActiveArena),
            Some(id) => {
                match ctx.carve_in(id, new_size, align) {
                    Ok(nb) => {
                        ctx.copy_in(id, block, nb, new_size);
                        Ok(nb)
                    },
                    Err(e) => Err(e),
                }
            },
        }
    }

    /// Read byte `i` of `block` through this handle.
    pub fn read_byte(&self, ctx: &ScopeContext, block: Block, i: usize) -> (b: u8)
        requires
            ctx.wf(),
            self.wf(ctx),
            self.captured(),
            i < block.size,
            self.captured_id() matches Some(id) ==> block.in_store(ctx.arena_view(id).len() as int),
        ensures
            b == ctx.arena_view(self.captured_id().unwrap())[block.addr + i],
    {
        match self.arena {
            None => unreached(),
            Some(id) => {
                // The store length bounds the byte's offset within a machine word.
                let store_len = ctx.arena_len(id);
                ctx.read_byte_in(id, block.addr + i)
            },
        }
    }

    /// Write byte `i` of `block` through this handle. No byte outside the
    /// block changes, in this arena or any other.
    pub fn write_byte(&self, ctx: &mut ScopeContext, block: Block, i: usize, b: u8)
        requires
            old(ctx).wf(),
            self.wf(old(ctx)),
            self.captured(),
            i < block.size,
            self.captured_id() matches Some(id) ==> block.in_store(
                old(ctx).arena_view(id).len() as int,
            ),
        ensures
            final(ctx).wf(),
            self.wf(final(ctx)),
            final(ctx).arena_count() == old(ctx).arena_count(),
            final(ctx).active_id() == old(ctx).active_id(),
            forall|j: int|
                0 <= j < old(ctx).arena_count() && j != self.captured_id().unwrap()
                    ==> final(ctx).arena_view(j) =~= old(ctx).arena_view(j),
            final(ctx).arena_view(self.captured_id().unwrap()) =~= old(ctx).arena_view(
                self.captured_id().unwrap(),
            ).update(block.addr + i, b),
    {
        match self.arena {
            None => unreached(),
            Some(id) => {
                // The store length bounds the byte's offset within a machine word.
                let store_len = ctx.arena_len(id);
                ctx.write_byte_in(id, block.addr + i, b);
            },
        }
    }
}

} // verus!
