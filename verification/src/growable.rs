//! A growable contiguous sequence drawing its capacity blocks from the
//! arena its handle captured, and its exact-size boxed form.

use vstd::prelude::*;
use vstd::pervasive::unreached;

use crate::arena::Block;
use crate::context::ScopeContext;
use crate::handle::LimboAllocator;
use crate::handle::can_carve;

verus! {

/// The capacity requested when a full array must grow: at least doubling,
/// so that pushes stay amortized constant, with a small floor for the first
/// block.
pub open spec fn grow_target(cap: int) -> int {
    if cap == 0 {
        4
    } else {
        2 * cap
    }
}

/// The capacity requested when room for `need` elements is reserved: the
/// doubling target, unless `need` itself asks for more.
pub open spec fn reserve_target(cap: int, need: int) -> int {
    if grow_target(cap) >= need {
        grow_target(cap)
    } else {
        need
    }
}

/// The sequence built by pushing the values of `vals` onto an empty
/// sequence, one after the other, in order.
pub open spec fn pushed_in_order<T>(vals: Seq<T>) -> Seq<T>
    decreases vals.len(),
{
    if vals.len() == 0 {
        Seq::empty()
    } else {
        pushed_in_order(vals.drop_last()).push(vals.last())
    }
}

/// Law: for every count of values, pushing them sequentially onto an empty
/// array yields exactly that many elements, and the element at each index
/// is the value pushed at that index.
pub proof fn lemma_sequential_pushes<T>(vals: Seq<T>)
    ensures
        pushed_in_order(vals).len() == vals.len(),
        forall|i: int| 0 <= i < vals.len() ==> pushed_in_order(vals)[i] == vals[i],
    decreases vals.len(),
{
    if vals.len() > 0 {
        lemma_sequential_pushes(vals.drop_last());
        assert forall|i: int| 0 <= i < vals.len() implies pushed_in_order(vals)[i] == vals[i] by {
            if i < vals.len() - 1 {
                assert(pushed_in_order(vals)[i] == pushed_in_order(vals.drop_last())[i]);
                assert(vals.drop_last()[i] == vals[i]);
            } else {
                assert(pushed_in_order(vals)[i] == vals.last());
            }
        }
    }
}

/// Owns a contiguous run of values, length at most capacity. Capacity lives
/// in a block of its handle's captured arena; the block is renewed through
/// the handle's grow and shrink operations, which always copy, and the
/// superseded blocks are never reclaimed. The arena model measures blocks
/// in element slots, one unit each; real layouts scale by the element's
/// size, which changes nothing stated here.
pub struct GrowableArray<T> {
    elems: Vec<T>,
    alloc: LimboAllocator,
    block: Option<Block>,
    cap: usize,
}

impl<T> View for GrowableArray<T> {
    type V = Seq<T>;

    closed spec fn view(&self) -> Seq<T> {
        self.elems@
    }
}

impl<T> GrowableArray<T> {
    /// The handle the array allocates through.
    pub closed spec fn alloc_spec(&self) -> LimboAllocator {
        self.alloc
    }

    /// How many elements fit before the capacity block must be renewed.
    pub closed spec fn capacity_spec(&self) -> int {
        self.cap as int
    }

    /// The current capacity block, if capacity was ever requested.
    pub closed spec fn block_spec(&self) -> Option<Block> {
        self.block
    }

    /// Structural soundness: the length never passes the capacity, and the
    /// capacity is exactly the size of the current block — no block meaning
    /// no capacity.
    pub open spec fn inv(&self) -> bool {
        &&& self@.len() <= self.capacity_spec()
        &&& (self.capacity_spec() == 0 <==> self.block_spec() is None)
        &&& (self.block_spec() matches Some(b) ==> b.size == self.capacity_spec())
    }

    /// The capacity block, when one exists, is a block of the handle's
    /// captured arena, registered in `ctx`.
    pub open spec fn valid_in(&self, ctx: &ScopeContext) -> bool {
        &&& self.alloc_spec().wf(ctx)
        &&& (self.block_spec() matches Some(b) ==> self.alloc_spec().captured()
            && b.in_store(ctx.arena_view(self.alloc_spec().captured_id().unwrap()).len() as int))
    }

    /// An empty array allocating through `alloc`: zero capacity, and no
    /// allocation performed yet.
    pub fn new_in(alloc: LimboAllocator) -> (a: GrowableArray<T>)
        ensures
            a@ =~= Seq::<T>::empty(),
            a.capacity_spec() == 0,
            a.block_spec() is None,
            a.alloc_spec() == alloc,
            a.inv(),
    {
        GrowableArray { elems: Vec::new(), alloc, block: None, cap: 0 }
    }

    /// An empty array allocating through a handle that snapshots whatever
    /// arena is active in `ctx` right now.
    pub fn new(ctx: &ScopeContext) -> (a: GrowableArray<T>)
        ensures
            a@ =~= Seq::<T>::empty(),
            a.capacity_spec() == 0,
            a.block_spec() is None,
            a.alloc_spec().captured_id() == ctx.active_id(),
            a.inv(),
            ctx.wf() ==> a.valid_in(ctx),
    {
        GrowableArray::new_in(LimboAllocator::new(ctx))
    }

    /// An empty array with room for `capacity` elements reserved eagerly
    /// through `alloc`. Allocation failure is fatal for a container, so for
    /// a nonzero capacity the contract demands a captured arena with room.
    pub fn with_capacity_in(capacity: usize, alloc: LimboAllocator, ctx: &mut ScopeContext) -> (a:
        GrowableArray<T>)
        requires
            old(ctx).wf(),
            alloc.wf(old(ctx)),
            capacity > 0 ==> alloc.captured() && can_carve(
                old(ctx).arena_view(alloc.captured_id().unwrap()),
                capacity as int,
                1,
            ),
        ensures
            a@ =~= Seq::<T>::empty(),
            a.capacity_spec() == capacity,
            a.alloc_spec() == alloc,
            a.inv(),
            a.valid_in(final(ctx)),
            final(ctx).wf(),
            capacity == 0 ==> old(ctx).same_state(final(ctx)),
            capacity > 0 ==> old(ctx).grew_only(final(ctx), alloc.captured_id().unwrap())
                && final(ctx).arena_view(alloc.captured_id().unwrap()).len() == old(
                ctx,
            ).arena_view(alloc.captured_id().unwrap()).len() + capacity,
    {
        if capacity == 0 {
            GrowableArray { elems: Vec::new(), alloc, block: None, cap: 0 }
        } else {
            match alloc.allocate(ctx, capacity, 1) {
                Ok(b) => GrowableArray { elems: Vec::new(), alloc, block: Some(b), cap: capacity },
                Err(_) => unreached(),
            }
        }
    }

    /// As [`Self::with_capacity_in`], through a handle that snapshots
    /// whatever arena is active in `ctx` right now.
    pub fn with_capacity(capacity: usize, ctx: &mut ScopeContext) -> (a: GrowableArray<T>)
        requires
            old(ctx).wf(),
            capacity > 0 ==> old(ctx).active_id() is Some && can_carve(
                old(ctx).arena_view(old(ctx).active_id().unwrap()),
                capacity as int,
                1,
            ),
        ensures
            a@ =~= Seq::<T>::empty(),
            a.capacity_spec() == capacity,
            a.alloc_spec().captured_id() == old(ctx).active_id(),
            a.inv(),
            a.valid_in(final(ctx)),
            final(ctx).wf(),
            capacity == 0 ==> old(ctx).same_state(final(ctx)),
            capacity > 0 ==> old(ctx).grew_only(final(ctx), old(ctx).active_id().unwrap()),
    {
        let alloc = LimboAllocator::new(ctx);
        GrowableArray::with_capacity_in(capacity, alloc, ctx)
    }

    /// How many elements the array holds.
    pub fn len(&self) -> (n: usize)
        ensures
            n == self@.len(),
    {
        self.elems.len()
    }

    /// The array holds no elements.
    pub fn is_empty(&self) -> (r: bool)
        ensures
            r <==> self@.len() == 0,
    {
        self.elems.is_empty()
    }

    /// How many elements fit before the capacity block must be renewed.
    pub fn capacity(&self) -> (n: usize)
        ensures
            n == self.capacity_spec(),
    {
        self.cap
    }

    /// The elements as a slice, in index order.
    pub fn as_slice(&self) -> (s: &[T])
        ensures
            s@ =~= self@,
    {
        self.elems.as_slice()
    }

    /// Read the element at `i`.
    pub fn get(&self, i: usize) -> (r: &T)
        requires
            i < self@.len(),
        ensures
            *r == self@[i as int],
    {
        &self.elems[i]
    }

    /// The elements as a mutable slice, in index order. Writing through the
    /// slice changes the elements and nothing else.
    pub fn as_mut_slice(&mut self) -> (s: &mut [T])
        ensures
            s@ == old(self)@,
            final(self)@ == final(s)@,
            final(self).capacity_spec() == old(self).capacity_spec(),
            final(self).alloc_spec() == old(self).alloc_spec(),
            final(self).block_spec() == old(self).block_spec(),
    {
        self.elems.as_mut_slice()
    }

    /// Overwrite the element at `i`.
    pub fn set_at(&mut self, i: usize, value: T)
        requires
            i < old(self)@.len(),
        ensures
            final(self)@ =~= old(self)@.update(i as int, value),
            final(self).capacity_spec() == old(self).capacity_spec(),
            final(self).alloc_spec() == old(self).alloc_spec(),
            final(self).block_spec() == old(self).block_spec(),
    {
        self.elems[i] = value;
    }

    /// Append `value`. While capacity remains the context is untouched;
    /// when the array is full a fresh block of the doubling target is
    /// requested through the handle's grow operation (the first block
    /// through allocate), which copies the elements already stored.
    /// Allocation failure is fatal for a container, so the contract demands
    /// a captured arena with room whenever growth is due.
    pub fn push(&mut self, ctx: &mut ScopeContext, value: T)
        requires
            old(self).inv(),
            old(self).valid_in(old(ctx)),
            old(ctx).wf(),
            old(self).alloc_spec().captured(),
            old(self)@.len() < usize::MAX,
            old(self).capacity_spec() <= usize::MAX / 2,
            old(self)@.len() == old(self).capacity_spec() ==> can_carve(
                old(ctx).arena_view(old(self).alloc_spec().captured_id().unwrap()),
                grow_target(old(self).capacity_spec()),
                1,
            ),
        ensures
            final(self).inv(),
            final(self).valid_in(final(ctx)),
            final(ctx).wf(),
            final(self)@ =~= old(self)@.push(value),
            final(self).alloc_spec() == old(self).alloc_spec(),
            old(self)@.len() < old(self).capacity_spec() ==> final(self).capacity_spec() == old(
                self,
            ).capacity_spec() && old(ctx).same_state(final(ctx)),
            old(self)@.len() == old(self).capacity_spec() ==> final(self).capacity_spec()
                == grow_target(old(self).capacity_spec()) && old(ctx).grew_only(
                final(ctx),
                old(self).alloc_spec().captured_id().unwrap(),
            ),
    {
        if self.elems.len() == self.cap {
            let new_cap: usize = if self.cap == 0 {
                4
            } else {
                self.cap * 2
            };
            match self.block {
                None => {
                    match self.alloc.allocate(ctx, new_cap, 1) {
                        Ok(b) => {
                            self.block = Some(b);
                            self.cap = new_cap;
                        },
                        Err(_) => unreached(),
                    }
                },
                Some(b) => {
                    match self.alloc.grow(ctx, b, new_cap, 1) {
                        Ok(nb) => {
                            self.block = Some(nb);
                            self.cap = new_cap;
                        },
                        Err(_) => unreached(),
                    }
                },
            }
        }
        self.elems.push(value);
    }

    /// Ensure capacity for at least `additional` more elements. If room
    /// already exists nothing happens; otherwise a fresh block of the
    /// reserve target is requested through the handle, copying the
    /// elements already stored.
    pub fn reserve(&mut self, ctx: &mut ScopeContext, additional: usize)
        requires
            old(self).inv(),
            old(self).valid_in(old(ctx)),
            old(ctx).wf(),
            old(self).alloc_spec().captured(),
            old(self)@.len() + additional <= usize::MAX,
            old(self).capacity_spec() <= usize::MAX / 2,
            old(self)@.len() + additional > old(self).capacity_spec() ==> can_carve(
                old(ctx).arena_view(old(self).alloc_spec().captured_id().unwrap()),
                reserve_target(old(self).capacity_spec(), old(self)@.len() + additional),
                1,
            ),
        ensures
            final(self).inv(),
            final(self).valid_in(final(ctx)),
            final(ctx).wf(),
            final(self)@ =~= old(self)@,
            final(self).alloc_spec() == old(self).alloc_spec(),
            final(self).capacity_spec() >= old(self)@.len() + additional,
            old(self)@.len() + additional <= old(self).capacity_spec()
                ==> final(self).capacity_spec() == old(self).capacity_spec() && old(ctx).same_state(
                final(ctx),
            ),
            old(self)@.len() + additional > old(self).capacity_spec()
                ==> final(self).capacity_spec() == reserve_target(
                old(self).capacity_spec(),
                old(self)@.len() + additional,
            ) && old(ctx).grew_only(final(ctx), old(self).alloc_spec().captured_id().unwrap()),
    {
        let need = self.elems.len() + additional;
        if need <= self.cap {
            return ;
        }
        let doubled: usize = if self.cap == 0 {
            4
        } else {
            self.cap * 2
        };
        let new_cap: usize = if doubled >= need {
            doubled
        } else {
            need
        };
        match self.block {
            None => {
                match self.alloc.allocate(ctx, new_cap, 1) {
                    Ok(b) => {
                        self.block = Some(b);
                        self.cap = new_cap;
                    },
                    Err(_) => unreached(),
                }
            },
            Some(b) => {
                match self.alloc.grow(ctx, b, new_cap, 1) {
                    Ok(nb) => {
                        self.block = Some(nb);
                        self.cap = new_cap;
                    },
                    Err(_) => unreached(),
                }
            },
        }
    }

    /// Shrink the capacity block to exactly the current length, through the
    /// handle's shrink operation, which copies the elements. An empty array
    /// hands its block back through deallocate — a no-op, as ever — and
    /// keeps no block.
    pub fn shrink_to_fit(&mut self, ctx: &mut ScopeContext)
        requires
            old(self).inv(),
            old(self).valid_in(old(ctx)),
            old(ctx).wf(),
            old(self).capacity_spec() > old(self)@.len() && old(self)@.len() > 0 ==> can_carve(
                old(ctx).arena_view(old(self).alloc_spec().captured_id().unwrap()),
                old(self)@.len() as int,
                1,
            ),
        ensures
            final(self).inv(),
            final(self).valid_in(final(ctx)),
            final(ctx).wf(),
            final(self)@ =~= old(self)@,
            final(self).alloc_spec() == old(self).alloc_spec(),
            final(self).capacity_spec() == old(self)@.len(),
            old(self).capacity_spec() == old(self)@.len() ==> old(ctx).same_state(final(ctx)),
            old(self).capacity_spec() > old(self)@.len() && old(self)@.len() == 0 ==> old(
                ctx,
            ).same_state(final(ctx)),
            old(self).capacity_spec() > old(self)@.len() && old(self)@.len() > 0 ==> old(
                ctx,
            ).grew_only(final(ctx), old(self).alloc_spec().captured_id().unwrap()),
    {
        let n = self.elems.len();
        if self.cap > n {
            match self.block {
                None => unreached(),
                Some(b) => {
                    if n == 0 {
                        self.alloc.deallocate(ctx, b);
                        self.block = None;
                        self.cap = 0;
                    } else {
                        match self.alloc.shrink(ctx, b, n, 1) {
                            Ok(nb) => {
                                self.block = Some(nb);
                                self.cap = n;
                            },
                            Err(_) => unreached(),
                        }
                    }
                },
            }
        }
    }

    /// Append every value of `values`, in order, growing capacity once up
    /// front under the same policy as [`Self::reserve`].
    pub fn extend_from_vec(&mut self, ctx: &mut ScopeContext, values: Vec<T>)
        requires
            old(self).inv(),
            old(self).valid_in(old(ctx)),
            old(ctx).wf(),
            old(self).alloc_spec().captured(),
            old(self)@.len() + values@.len() <= usize::MAX,
            old(self).capacity_spec() <= usize::MAX / 2,
            old(self)@.len() + values@.len() > old(self).capacity_spec() ==> can_carve(
                old(ctx).arena_view(old(self).alloc_spec().captured_id().unwrap()),
                reserve_target(old(self).capacity_spec(), (old(self)@.len() + values@.len()) as int),
                1,
            ),
        ensures
            final(self).inv(),
            final(self).valid_in(final(ctx)),
            final(ctx).wf(),
            final(self)@ =~= old(self)@ + values@,
            final(self).alloc_spec() == old(self).alloc_spec(),
            old(self)@.len() + values@.len() <= old(self).capacity_spec() ==> old(ctx).same_state(
                final(ctx),
            ),
            old(self)@.len() + values@.len() > old(self).capacity_spec() ==> old(ctx).grew_only(
                final(ctx),
                old(self).alloc_spec().captured_id().unwrap(),
            ),
    {
        let ghost pre = self@;
        let ghost all = values@;
        let mut vals = values;
        self.reserve(ctx, vals.len());
        let ghost ctx_mid = *ctx;
        let ghost cap_mid = self.capacity_spec();
        let ghost block_mid = self.block_spec();
        let ghost mut k: int = 0;
        proof {
            assert(pre + all.subrange(0, 0) =~= pre);
            assert(all.subrange(0, all.len() as int) =~= all);
        }
        while vals.len() > 0
            invariant
                0 <= k <= all.len(),
                vals@ =~= all.subrange(k, all.len() as int),
                self@ =~= pre + all.subrange(0, k),
                pre.len() + all.len() <= self.capacity_spec(),
                *ctx == ctx_mid,
                self.inv(),
                self.valid_in(ctx),
                self.alloc_spec() == old(self).alloc_spec(),
                self.capacity_spec() == cap_mid,
                self.block_spec() == block_mid,
            decreases all.len() - k,
        {
            let v = vals.remove(0);
            self.elems.push(v);
            proof {
                k = k + 1;
                assert(all.subrange(0, k) =~= all.subrange(0, k - 1).push(all[k - 1]));
                assert(vals@ =~= all.subrange(k, all.len() as int));
            }
        }
        proof {
            assert(self@ =~= pre + all);
        }
    }

    /// Build an array from a sequence of values, in order, through a handle
    /// that snapshots whatever arena is active in `ctx` right now. Capacity
    /// grows once up front, under the same policy as [`Self::reserve`].
    pub fn from_vec(values: Vec<T>, ctx: &mut ScopeContext) -> (a: GrowableArray<T>)
        requires
            old(ctx).wf(),
            values@.len() > 0 ==> old(ctx).active_id() is Some && can_carve(
                old(ctx).arena_view(old(ctx).active_id().unwrap()),
                reserve_target(0, values@.len() as int),
                1,
            ),
        ensures
            a@ =~= values@,
            a.inv(),
            a.valid_in(final(ctx)),
            final(ctx).wf(),
            a.alloc_spec().captured_id() == old(ctx).active_id(),
            values@.len() == 0 ==> old(ctx).same_state(final(ctx)),
            values@.len() > 0 ==> old(ctx).grew_only(final(ctx), old(ctx).active_id().unwrap()),
    {
        let alloc = LimboAllocator::new(ctx);
        let mut a = GrowableArray::new_in(alloc);
        if values.len() > 0 {
            a.extend_from_vec(ctx, values);
        }
        a
    }

    /// Consume the array and hand the elements out as a plain vector, in
    /// index order. The capacity block stays behind in its arena,
    /// unreclaimed, as every block does.
    pub fn into_vec(self) -> (v: Vec<T>)
        ensures
            v@ =~= self@,
    {
        let GrowableArray { elems, alloc: _, block: _, cap: _ } = self;
        elems
    }

    /// Convert to the boxed-slice form: shrink the capacity block to
    /// exactly the current length, then seal length and capacity together.
    /// The elements and their order are exactly those of the array.
    pub fn into_boxed_slice(self, ctx: &mut ScopeContext) -> (b: BoxedSlice<T>)
        requires
            self.inv(),
            self.valid_in(old(ctx)),
            old(ctx).wf(),
            self.capacity_spec() > self@.len() && self@.len() > 0 ==> can_carve(
                old(ctx).arena_view(self.alloc_spec().captured_id().unwrap()),
                self@.len() as int,
                1,
            ),
        ensures
            b@ =~= self@,
            b.inv(),
            b.valid_in(final(ctx)),
            final(ctx).wf(),
            b.alloc_spec() == self.alloc_spec(),
            final(ctx).arena_count() == old(ctx).arena_count(),
            final(ctx).active_id() == old(ctx).active_id(),
    {
        let mut this = self;
        this.shrink_to_fit(ctx);
        let GrowableArray { elems, alloc, block, cap: _ } = this;
        BoxedSlice { elems, alloc, block }
    }
}

/// The exact-size form of a [`GrowableArray`]: a contiguous run of values
/// whose block, when one exists, is sized exactly to the element count.
/// Its length never changes.
pub struct BoxedSlice<T> {
    elems: Vec<T>,
    alloc: LimboAllocator,
    block: Option<Block>,
}

impl<T> View for BoxedSlice<T> {
    type V = Seq<T>;

    closed spec fn view(&self) -> Seq<T> {
        self.elems@
    }
}

impl<T> BoxedSlice<T> {
    /// The handle the slice was allocated through.
    pub closed spec fn alloc_spec(&self) -> LimboAllocator {
        self.alloc
    }

    /// The block holding the elements, if the slice is nonempty.
    pub closed spec fn block_spec(&self) -> Option<Block> {
        self.block
    }

    /// The block is sized exactly to the element count; an empty slice
    /// holds no block.
    pub open spec fn inv(&self) -> bool {
        &&& (self@.len() == 0 <==> self.block_spec() is None)
        &&& (self.block_spec() matches Some(b) ==> b.size == self@.len())
    }

    /// The block, when one exists, is a block of the handle's captured
    /// arena, registered in `ctx`.
    pub open spec fn valid_in(&self, ctx: &ScopeContext) -> bool {
        &&& self.alloc_spec().wf(ctx)
        &&& (self.block_spec() matches Some(b) ==> self.alloc_spec().captured()
            && b.in_store(ctx.arena_view(self.alloc_spec().captured_id().unwrap()).len() as int))
    }

    /// How many elements the slice holds.
    pub fn len(&self) -> (n: usize)
        ensures
            n == self@.len(),
    {
        self.elems.len()
    }

    /// Read the element at `i`.
    pub fn get(&self, i: usize) -> (r: &T)
        requires
            i < self@.len(),
        ensures
            *r == self@[i as int],
    {
        &self.elems[i]
    }

    /// The elements as a slice, in index order.
    pub fn as_slice(&self) -> (s: &[T])
        ensures
            s@ =~= self@,
    {
        self.elems.as_slice()
    }

    /// Consume the slice and hand the elements out as a plain vector, in
    /// index order.
    pub fn into_vec(self) -> (v: Vec<T>)
        ensures
            v@ =~= self@,
    {
        let BoxedSlice { elems, alloc: _, block: _ } = self;
        elems
    }
}

} // verus!
