//! The bump region: an append-only byte store that carves aligned blocks.

use vstd::prelude::*;

verus! {

/// Why an allocation request was not satisfied.
#[derive(Clone, Copy, Debug, PartialEq, Eq, Structural)]
pub enum AllocFailure {
    /// The handle making the request captured no arena.
    NoActiveArena,
    /// The backing store cannot produce a representable block address:
    /// the aligned end of the store plus the requested size does not fit
    /// in a machine word.
    AddressConstructionFailure,
}

/// A block granted by an arena: `size` contiguous bytes starting at offset
/// `addr` of the arena's store. Blocks stay valid for the arena's whole
/// life; they are never reclaimed individually.
#[derive(Clone, Copy, Debug, PartialEq, Eq, Structural)]
pub struct Block {
    /// Offset of the block's first byte in the arena's store.
    pub addr: usize,
    /// Length of the block in bytes.
    pub size: usize,
}

impl Block {
    /// The block lies wholly inside a store of `len` bytes.
    pub open spec fn in_store(self, len: int) -> bool {
        self.addr + self.size <= len
    }
}

/// `len` rounded up to the next multiple of `align`.
pub open spec fn align_up(len: int, align: int) -> int
    recommends
        1 <= align,
{
    if len % align == 0 {
        len
    } else {
        len + (align - len % align)
    }
}

/// An append-only memory region. It grows on demand, carves aligned blocks
/// from its end, and never reclaims an individual block: all memory is
/// released at once when the arena is dropped.
pub struct Arena {
    bytes: Vec<u8>,
}

impl View for Arena {
    type V = Seq<u8>;

    closed spec fn view(&self) -> Seq<u8> {
        self.bytes@
    }
}

impl Arena {
    /// An empty arena: no bytes carved yet.
    pub fn new() -> (a: Arena)
        ensures
            a@ =~= Seq::<u8>::empty(),
    {
        Arena { bytes: Vec::new() }
    }

    /// How many bytes the arena has carved so far.
    pub fn len(&self) -> (n: usize)
        ensures
            n == self@.len(),
    {
        self.bytes.len()
    }

    /// Read one byte of the store.
    pub fn read_byte(&self, i: usize) -> (b: u8)
        requires
            i < self@.len(),
        ensures
            b == self@[i as int],
    {
        self.bytes[i]
    }

    /// Write one byte of the store.
    pub fn write_byte(&mut self, i: usize, b: u8)
        requires
            i < old(self)@.len(),
        ensures
            final(self)@ =~= old(self)@.update(i as int, b),
    {
        self.bytes[i] = b;
    }

    /// Carve a fresh block of `size` bytes aligned to `align` from the end
    /// of the store. The request fails exactly when the aligned end of the
    /// store plus `size` does not fit in a machine word; everything already
    /// carved is left untouched either way. The fresh bytes are zeroed.
    pub fn carve(&mut self, size: usize, align: usize) -> (r: Result<Block, AllocFailure>)
        requires
            1 <= align,
        ensures
            r is Ok <==> align_up(old(self)@.len() as int, align as int) + size <= usize::MAX,
            match r {
                Ok(b) => {
                    &&& b.size == size
                    &&& b.addr as int == align_up(old(self)@.len() as int, align as int)
                    &&& b.addr as int % align as int == 0
                    &&& old(self)@.len() <= b.addr
                    &&& final(self)@.len() == b.addr + b.size
                    &&& final(self)@.subrange(0, old(self)@.len() as int) =~= old(self)@
                    &&& forall|i: int|
                        old(self)@.len() <= i < final(self)@.len() ==> final(self)@[i] == 0u8
                },
                Err(e) => {
                    &&& e == AllocFailure::AddressConstructionFailure
                    &&& final(self)@ =~= old(self)@
                },
            },
    {
        let len = self.bytes.len();
        let rem = len % align;
        let pad: usize = if rem == 0 {
            0
        } else {
            align - rem
        };
        if pad > usize::MAX - len {
            return Err(AllocFailure::AddressConstructionFailure);
        }
        let addr = len + pad;
        if size > usize::MAX - addr {
            return Err(AllocFailure::AddressConstructionFailure);
        }
        let target = addr + size;
        proof {
            assert(addr as int == align_up(len as int, align as int));
            assert(addr as int % align as int == 0) by (nonlinear_arith)
                requires
                    1 <= align,
                    rem == len as int % align as int,
                    addr as int == if rem == 0 {
                        len as int
                    } else {
                        len as int + (align as int - rem)
                    },
            ;
        }
        let ghost pre = self.bytes@;
        while self.bytes.len() < target
            invariant
                pre.len() <= self.bytes@.len() <= target,
                self.bytes@.subrange(0, pre.len() as int) =~= pre,
                forall|i: int| pre.len() <= i < self.bytes@.len() ==> self.bytes@[i] == 0u8,
            decreases target - self.bytes@.len(),
        {
            self.bytes.push(0u8);
            proof {
                assert(self.bytes@.subrange(0, pre.len() as int) =~= pre);
            }
        }
        Ok(Block { addr, size })
    }

    /// Copy the first `count` bytes of `src` onto the start of `dst`, a block
    /// granted later than `src` (so the two cannot overlap). No byte outside
    /// the written range changes.
    pub fn copy_bytes(&mut self, src: Block, dst: Block, count: usize)
        requires
            count <= src.size,
            count <= dst.size,
            src.in_store(old(self)@.len() as int),
            dst.in_store(old(self)@.len() as int),
            src.addr + src.size <= dst.addr,
        ensures
            final(self)@.len() == old(self)@.len(),
            forall|i: int|
                dst.addr <= i < dst.addr + count ==> final(self)@[i] == old(self)@[src.addr + (i
                    - dst.addr)],
            forall|i: int|
                0 <= i < old(self)@.len() && !(dst.addr <= i < dst.addr + count)
                    ==> final(self)@[i] == old(self)@[i],
    {
        let ghost pre = self.bytes@;
        // The store length bounds every block offset within a machine word.
        let store_len = self.bytes.len();
        let mut i: usize = 0;
        while i < count
            invariant
                store_len == pre.len(),
                i <= count,
                count <= src.size,
                count <= dst.size,
                src.in_store(pre.len() as int),
                dst.in_store(pre.len() as int),
                src.addr + src.size <= dst.addr,
                self.bytes@.len() == pre.len(),
                forall|j: int|
                    dst.addr <= j < dst.addr + i ==> self.bytes@[j] == pre[src.addr + (j
                        - dst.addr)],
                forall|j: int|
                    0 <= j < pre.len() && !(dst.addr <= j < dst.addr + i) ==> self.bytes@[j]
                        == pre[j],
            decreases count - i,
        {
            let b = self.bytes[src.addr + i];
            self.bytes[dst.addr + i] = b;
            i = i + 1;
        }
    }
}

} // verus!
