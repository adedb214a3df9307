//! The scope protocol: a registry of arenas with one active slot, pools that
//! own an arena apiece, and guards that activate a pool and restore the
//! previous slot on release.

use vstd::prelude::*;

use crate::arena::AllocFailure;
use crate::arena::Arena;
use crate::arena::Block;
use crate::arena::align_up;

verus! {

/// The per-thread scope state, made explicit: a registry owning every arena
/// created on this thread (an arena's identity is its index, so liveness is
/// checkable rather than documentation-only) and a single slot naming the
/// currently active arena, if any. The slot starts empty.
pub struct ScopeContext {
    arenas: Vec<Arena>,
    active: Option<usize>,
}

impl ScopeContext {
    /// How many arenas the registry holds. Arenas are never removed, so an
    /// identity once granted stays valid for the context's whole life.
    pub closed spec fn arena_count(&self) -> int {
        self.arenas@.len() as int
    }

    /// The bytes arena `id` has carved so far.
    pub closed spec fn arena_view(&self, id: int) -> Seq<u8> {
        self.arenas@[id]@
    }

    /// The identity in the active slot, if any.
    pub closed spec fn active_id(&self) -> Option<int> {
        match self.active {
            Some(i) => Some(i as int),
            None => None,
        }
    }

    /// The active slot, when filled, names a registered arena.
    pub open spec fn wf(&self) -> bool {
        self.active_id() matches Some(i) ==> 0 <= i < self.arena_count()
    }

    /// Both contexts register the same arenas with the same contents and
    /// agree on the active slot.
    pub open spec fn same_state(&self, other: &ScopeContext) -> bool {
        &&& other.arena_count() == self.arena_count()
        &&& other.active_id() == self.active_id()
        &&& forall|j: int|
            0 <= j < self.arena_count() ==> other.arena_view(j) =~= self.arena_view(j)
    }

    /// `other` differs from `self` at most in arena `id`, whose earlier
    /// bytes it keeps as a prefix: nothing already carved anywhere is lost
    /// or changed, and no other arena is touched.
    pub open spec fn grew_only(&self, other: &ScopeContext, id: int) -> bool {
        &&& other.arena_count() == self.arena_count()
        &&& other.active_id() == self.active_id()
        &&& forall|j: int|
            0 <= j < self.arena_count() && j != id ==> other.arena_view(j) =~= self.arena_view(j)
        &&& self.arena_view(id).len() <= other.arena_view(id).len()
        &&& other.arena_view(id).subrange(0, self.arena_view(id).len() as int) =~= self.arena_view(
            id,
        )
    }

    /// A fresh context: no arenas registered, the slot empty.
    pub fn new() -> (c: ScopeContext)
        ensures
            c.wf(),
            c.arena_count() == 0,
            c.active_id() is None,
    {
        ScopeContext { arenas: Vec::new(), active: None }
    }

    /// How many bytes arena `id` has carved.
    pub fn arena_len(&self, id: usize) -> (n: usize)
        requires
            0 <= id < self.arena_count(),
        ensures
            n == self.arena_view(id as int).len(),
    {
        self.arenas[id].len()
    }

    /// Read byte `i` of arena `id`.
    pub fn read_byte_in(&self, id: usize, i: usize) -> (b: u8)
        requires
            0 <= id < self.arena_count(),
            i < self.arena_view(id as int).len(),
        ensures
            b == self.arena_view(id as int)[i as int],
    {
        self.arenas[id].read_byte(i)
    }

    /// Write byte `i` of arena `id`.
    pub fn write_byte_in(&mut self, id: usize, i: usize, b: u8)
        requires
            0 <= id < old(self).arena_count(),
            i < old(self).arena_view(id as int).len(),
        ensures
            final(self).arena_count() == old(self).arena_count(),
            final(self).active_id() == old(self).active_id(),
            forall|j: int|
                0 <= j < old(self).arena_count() && j != id ==> final(self).arena_view(j)
                    =~= old(self).arena_view(j),
            final(self).arena_view(id as int) =~= old(self).arena_view(id as int).update(
                i as int,
                b,
            ),
    {
        let a = &mut self.arenas[id];
        a.write_byte(i, b);
    }

    /// Carve a fresh zeroed block from arena `id`; see [`Arena::carve`].
    pub(crate) fn carve_in(&mut self, id: usize, size: usize, align: usize) -> (r: Result<
        Block,
        AllocFailure,
    >)
        requires
            0 <= id < old(self).arena_count(),
            1 <= align,
        ensures
            final(self).arena_count() == old(self).arena_count(),
            final(self).active_id() == old(self).active_id(),
            forall|j: int|
                0 <= j < old(self).arena_count() && j != id ==> final(self).arena_view(j)
                    =~= old(self).arena_view(j),
            r is Ok <==> align_up(old(self).arena_view(id as int).len() as int, align as int)
                + size <= usize::MAX,
            match r {
                Ok(b) => {
                    &&& b.size == size
                    &&& b.addr as int == align_up(
                        old(self).arena_view(id as int).len() as int,
                        align as int,
                    )
                    &&& b.addr as int % align as int == 0
                    &&& old(self).arena_view(id as int).len() <= b.addr
                    &&& final(self).arena_view(id as int).len() == b.addr + b.size
                    &&& final(self).arena_view(id as int).subrange(
                        0,
                        old(self).arena_view(id as int).len() as int,
                    ) =~= old(self).arena_view(id as int)
                    &&& forall|i: int|
                        old(self).arena_view(id as int).len() <= i < final(self).arena_view(
                            id as int,
                        ).len() ==> final(self).arena_view(id as int)[i] == 0u8
                },
                Err(e) => {
                    &&& e == AllocFailure::AddressConstructionFailure
                    &&& final(self).arena_view(id as int) =~= old(self).arena_view(id as int)
                },
            },
    {
        let a = &mut self.arenas[id];
        a.carve(size, align)
    }

    /// Copy bytes between two blocks of arena `id`; see [`Arena::copy_bytes`].
    pub(crate) fn copy_in(&mut self, id: usize, src: Block, dst: Block, count: usize)
        requires
            0 <= id < old(self).arena_count(),
            count <= src.size,
            count <= dst.size,
            src.in_store(old(self).arena_view(id as int).len() as int),
            dst.in_store(old(self).arena_view(id as int).len() as int),
            src.addr + src.size <= dst.addr,
        ensures
            final(self).arena_count() == old(self).arena_count(),
            final(self).active_id() == old(self).active_id(),
            forall|j: int|
                0 <= j < old(self).arena_count() && j != id ==> final(self).arena_view(j)
                    =~= old(self).arena_view(j),
            final(self).arena_view(id as int).len() == old(self).arena_view(id as int).len(),
            forall|i: int|
                dst.addr <= i < dst.addr + count ==> final(self).arena_view(id as int)[i] == old(
                    self,
                ).arena_view(id as int)[src.addr + (i - dst.addr)],
            forall|i: int|
                0 <= i < old(self).arena_view(id as int).len() && !(dst.addr <= i < dst.addr
                    + count) ==> final(self).arena_view(id as int)[i] == old(self).arena_view(
                    id as int,
                )[i],
    {
        let a = &mut self.arenas[id];
        a.copy_bytes(src, dst, count);
    }

    /// Register a fresh empty arena and return its identity.
    pub(crate) fn register(&mut self) -> (id: usize)
        ensures
            id == old(self).arena_count(),
            final(self).arena_count() == old(self).arena_count() + 1,
            final(self).active_id() == old(self).active_id(),
            forall|j: int|
                0 <= j < old(self).arena_count() ==> final(self).arena_view(j) =~= old(
                    self,
                ).arena_view(j),
            final(self).arena_view(id as int) =~= Seq::<u8>::empty(),
            old(self).wf() ==> final(self).wf(),
    {
        let id = self.arenas.len();
        self.arenas.push(Arena::new());
        id
    }

    /// Fill the active slot with arena `id`, returning what it held before.
    pub(crate) fn activate(&mut self, id: usize) -> (prev: Option<usize>)
        requires
            0 <= id < old(self).arena_count(),
        ensures
            final(self).wf(),
            final(self).active_id() == Some(id as int),
            final(self).arena_count() == old(self).arena_count(),
            forall|j: int|
                0 <= j < old(self).arena_count() ==> final(self).arena_view(j) =~= old(
                    self,
                ).arena_view(j),
            match prev {
                Some(p) => old(self).active_id() == Some(p as int),
                None => old(self).active_id() is None,
            },
    {
        let prev = self.active;
        self.active = Some(id);
        prev
    }

    /// Put `slot` back into the active slot.
    pub(crate) fn restore(&mut self, slot: Option<usize>)
        requires
            slot matches Some(i) ==> 0 <= i < old(self).arena_count(),
        ensures
            final(self).wf(),
            final(self).arena_count() == old(self).arena_count(),
            forall|j: int|
                0 <= j < old(self).arena_count() ==> final(self).arena_view(j) =~= old(
                    self,
                ).arena_view(j),
            match slot {
                Some(i) => final(self).active_id() == Some(i as int),
                None => final(self).active_id() is None,
            },
    {
        self.active = slot;
    }

    /// Snapshot the active slot, as a handle does at construction.
    pub(crate) fn snapshot(&self) -> (slot: Option<usize>)
        ensures
            match slot {
                Some(i) => self.active_id() == Some(i as int),
                None => self.active_id() is None,
            },
    {
        self.active
    }
}

/// An arena pool: owns exactly one arena, registered in a [`ScopeContext`]
/// at construction. Activating the pool fills the context's slot and yields
/// an [`AllocatorGuard`] that restores the previous slot value on release.
pub struct WrapAllocator {
    id: usize,
}

impl WrapAllocator {
    /// The identity of this pool's arena in its registry.
    pub closed spec fn id_spec(&self) -> int {
        self.id as int
    }

    /// The pool's arena is registered in `ctx`.
    pub open spec fn wf(&self, ctx: &ScopeContext) -> bool {
        0 <= self.id_spec() < ctx.arena_count()
    }

    /// Create a pool with a fresh empty arena registered in `ctx`.
    pub fn new(ctx: &mut ScopeContext) -> (p: WrapAllocator)
        ensures
            p.wf(final(ctx)),
            p.id_spec() == old(ctx).arena_count(),
            final(ctx).arena_count() == old(ctx).arena_count() + 1,
            final(ctx).active_id() == old(ctx).active_id(),
            forall|j: int|
                0 <= j < old(ctx).arena_count() ==> final(ctx).arena_view(j) =~= old(
                    ctx,
                ).arena_view(j),
            final(ctx).arena_view(p.id_spec()) =~= Seq::<u8>::empty(),
            old(ctx).wf() ==> final(ctx).wf(),
    {
        let id = ctx.register();
        WrapAllocator { id }
    }

    /// Activate this pool: mark its arena as the one active in `ctx` and
    /// return a guard remembering what the slot held before. Handles built
    /// while the guard is live capture this pool's arena. At most one guard
    /// should be live per context at a time; releases must nest with
    /// activations, or the slot ends up naming an arena a still-live scope
    /// no longer expects.
    pub fn guard(&self, ctx: &mut ScopeContext) -> (g: AllocatorGuard)
        requires
            old(ctx).wf(),
            self.wf(old(ctx)),
        ensures
            final(ctx).wf(),
            g.wf(final(ctx)),
            final(ctx).active_id() == Some(self.id_spec()),
            g.saved_id() == old(ctx).active_id(),
            final(ctx).arena_count() == old(ctx).arena_count(),
            forall|j: int|
                0 <= j < old(ctx).arena_count() ==> final(ctx).arena_view(j) =~= old(
                    ctx,
                ).arena_view(j),
    {
        let prev = ctx.activate(self.id);
        AllocatorGuard { prev }
    }
}

/// Scoped activation token: holds whatever the active slot named when its
/// pool was activated, and puts that value back on release. It owns no
/// memory of its own.
pub struct AllocatorGuard {
    prev: Option<usize>,
}

impl AllocatorGuard {
    /// What the active slot held when this guard was created.
    pub closed spec fn saved_id(&self) -> Option<int> {
        match self.prev {
            Some(i) => Some(i as int),
            None => None,
        }
    }

    /// The remembered slot value, when filled, names an arena of `ctx`.
    pub open spec fn wf(&self, ctx: &ScopeContext) -> bool {
        self.saved_id() matches Some(i) ==> 0 <= i < ctx.arena_count()
    }

    /// Release the guard: restore the slot value that was active when the
    /// guard was created. Memory carved meanwhile is untouched; it lives
    /// until its arena is dropped.
    pub fn release(self, ctx: &mut ScopeContext)
        requires
            self.wf(old(ctx)),
        ensures
            final(ctx).wf(),
            final(ctx).active_id() == self.saved_id(),
            final(ctx).arena_count() == old(ctx).arena_count(),
            forall|j: int|
                0 <= j < old(ctx).arena_count() ==> final(ctx).arena_view(j) =~= old(
                    ctx,
                ).arena_view(j),
    {
        ctx.restore(self.prev);
    }
}

} // verus!
