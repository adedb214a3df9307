use scoped_arena::AllocFailure;
use scoped_arena::GrowableArray;
use scoped_arena::LimboAllocator;
use scoped_arena::OwningBox;
use scoped_arena::ScopeContext;
use scoped_arena::WrapAllocator;

#[test]
fn pushes_in_order_many() {
    let mut ctx = ScopeContext::new();
    let pool = WrapAllocator::new(&mut ctx);
    let _guard = pool.guard(&mut ctx);

    let mut v: GrowableArray<usize> = GrowableArray::new(&ctx);
    for i in 0..100 {
        v.push(&mut ctx, i);
    }
    assert_eq!(v.len(), 100);
    for i in 0..100 {
        assert_eq!(*v.get(i), i);
    }
}

#[test]
fn pushes_in_order_none() {
    let ctx = ScopeContext::new();
    let v: GrowableArray<u8> = GrowableArray::new(&ctx);
    assert_eq!(v.len(), 0);
    assert!(v.is_empty());
}

#[test]
fn uncaptured_handle_allocate_fails() {
    let mut ctx = ScopeContext::new();
    let handle = LimboAllocator::new(&ctx);
    let r = handle.allocate(&mut ctx, 8, 1);
    assert_eq!(r, Err(AllocFailure::NoActiveArena));
    let r = handle.allocate_zeroed(&mut ctx, 8, 1);
    assert_eq!(r, Err(AllocFailure::NoActiveArena));
}

#[test]
fn uncaptured_handle_grow_fails() {
    let mut ctx = ScopeContext::new();
    let pool = WrapAllocator::new(&mut ctx);
    let guard = pool.guard(&mut ctx);
    let captured = LimboAllocator::new(&ctx);
    let block = captured.allocate(&mut ctx, 4, 1).unwrap();
    guard.release(&mut ctx);

    let bare = LimboAllocator::new(&ctx);
    assert_eq!(bare.grow(&mut ctx, block, 8, 1), Err(AllocFailure::NoActiveArena));
    assert_eq!(bare.grow_zeroed(&mut ctx, block, 8, 1), Err(AllocFailure::NoActiveArena));
}

#[test]
fn unrepresentable_address_fails() {
    let mut ctx = ScopeContext::new();
    let pool = WrapAllocator::new(&mut ctx);
    let _guard = pool.guard(&mut ctx);
    let handle = LimboAllocator::new(&ctx);

    let first = handle.allocate(&mut ctx, 1, 1);
    assert!(first.is_ok());
    let r = handle.allocate(&mut ctx, usize::MAX, 1);
    assert_eq!(r, Err(AllocFailure::AddressConstructionFailure));
}

#[test]
fn arena_switch_keeps_contents_independent() {
    let mut ctx = ScopeContext::new();
    let pool_a = WrapAllocator::new(&mut ctx);
    let pool_b = WrapAllocator::new(&mut ctx);

    let guard_a = pool_a.guard(&mut ctx);
    let handle_a = LimboAllocator::new(&ctx);
    let block_a = handle_a.allocate(&mut ctx, 4, 1).unwrap();
    for i in 0..4 {
        handle_a.write_byte(&mut ctx, block_a, i, (i as u8) + 1);
    }
    let box_a = OwningBox::new(7u32, &mut ctx);
    guard_a.release(&mut ctx);

    let guard_b = pool_b.guard(&mut ctx);
    let handle_b = LimboAllocator::new(&ctx);
    let block_b = handle_b.allocate(&mut ctx, 4, 1).unwrap();
    for i in 0..4 {
        handle_b.write_byte(&mut ctx, block_b, i, 9);
    }
    let box_b = OwningBox::new(9u32, &mut ctx);
    guard_b.release(&mut ctx);

    for i in 0..4 {
        assert_eq!(handle_a.read_byte(&ctx, block_a, i), (i as u8) + 1);
        assert_eq!(handle_b.read_byte(&ctx, block_b, i), 9);
    }
    assert_eq!(*box_a.as_ref(), 7);
    assert_eq!(*box_b.as_ref(), 9);
}

#[test]
fn release_restores_previous_slot() {
    let mut ctx = ScopeContext::new();
    let pool_a = WrapAllocator::new(&mut ctx);
    let pool_b = WrapAllocator::new(&mut ctx);

    let guard_a = pool_a.guard(&mut ctx);
    let guard_b = pool_b.guard(&mut ctx);
    guard_b.release(&mut ctx);

    // The slot is back on pool A, not empty: a fresh handle can allocate.
    let handle = LimboAllocator::new(&ctx);
    assert!(handle.allocate(&mut ctx, 1, 1).is_ok());

    guard_a.release(&mut ctx);
    // Now the slot is empty again.
    let handle = LimboAllocator::new(&ctx);
    assert_eq!(handle.allocate(&mut ctx, 1, 1), Err(AllocFailure::NoActiveArena));
}

#[test]
fn grow_copies_and_zeroes() {
    let mut ctx = ScopeContext::new();
    let pool = WrapAllocator::new(&mut ctx);
    let _guard = pool.guard(&mut ctx);
    let handle = LimboAllocator::new(&ctx);

    let pattern: [u8; 8] = [0xde, 0xad, 0xbe, 0xef, 0x01, 0x02, 0x03, 0x04];

    let block = handle.allocate(&mut ctx, 8, 1).unwrap();
    for i in 0..8 {
        handle.write_byte(&mut ctx, block, i, pattern[i]);
    }
    let grown = handle.grow(&mut ctx, block, 16, 1).unwrap();
    assert_eq!(grown.size, 16);
    for i in 0..8 {
        assert_eq!(handle.read_byte(&ctx, grown, i), pattern[i]);
    }

    let block2 = handle.allocate(&mut ctx, 8, 1).unwrap();
    for i in 0..8 {
        handle.write_byte(&mut ctx, block2, i, pattern[i]);
    }
    let grown2 = handle.grow_zeroed(&mut ctx, block2, 16, 1).unwrap();
    for i in 0..8 {
        assert_eq!(handle.read_byte(&ctx, grown2, i), pattern[i]);
    }
    for i in 8..16 {
        assert_eq!(handle.read_byte(&ctx, grown2, i), 0);
    }
}

#[test]
fn shrink_copies_prefix() {
    let mut ctx = ScopeContext::new();
    let pool = WrapAllocator::new(&mut ctx);
    let _guard = pool.guard(&mut ctx);
    let handle = LimboAllocator::new(&ctx);

    let block = handle.allocate(&mut ctx, 16, 1).unwrap();
    for i in 0..16 {
        handle.write_byte(&mut ctx, block, i, 0x40 + (i as u8));
    }
    let shrunk = handle.shrink(&mut ctx, block, 8, 1).unwrap();
    assert_eq!(shrunk.size, 8);
    for i in 0..8 {
        assert_eq!(handle.read_byte(&ctx, shrunk, i), 0x40 + (i as u8));
    }
}

#[test]
fn deallocate_is_a_noop() {
    let mut ctx = ScopeContext::new();
    let pool = WrapAllocator::new(&mut ctx);
    let _guard = pool.guard(&mut ctx);
    let handle = LimboAllocator::new(&ctx);

    let block = handle.allocate(&mut ctx, 4, 1).unwrap();
    handle.write_byte(&mut ctx, block, 0, 0x5a);
    handle.deallocate(&mut ctx, block);
    // The block's bytes are still there: nothing is ever reclaimed.
    assert_eq!(handle.read_byte(&ctx, block, 0), 0x5a);
}

#[test]
fn boxed_slice_round_trip_lengths() {
    // Empty.
    let mut ctx = ScopeContext::new();
    let pool = WrapAllocator::new(&mut ctx);
    let _guard = pool.guard(&mut ctx);

    let v: GrowableArray<i32> = GrowableArray::new(&ctx);
    let b = v.into_boxed_slice(&mut ctx);
    assert_eq!(b.len(), 0);
    assert_eq!(b.as_slice(), &[] as &[i32]);

    // One element.
    let mut v = GrowableArray::new(&ctx);
    v.push(&mut ctx, 5i32);
    let before: Vec<i32> = v.as_slice().to_vec();
    let b = v.into_boxed_slice(&mut ctx);
    assert_eq!(b.len(), 1);
    assert_eq!(b.as_slice(), before.as_slice());
    assert_eq!(*b.get(0), 5);

    // More than one.
    let mut v = GrowableArray::new(&ctx);
    v.push(&mut ctx, 1i32);
    v.push(&mut ctx, 2i32);
    v.push(&mut ctx, 3i32);
    let before: Vec<i32> = v.as_slice().to_vec();
    let b = v.into_boxed_slice(&mut ctx);
    assert_eq!(b.len(), 3);
    assert_eq!(b.as_slice(), before.as_slice());
    assert_eq!(b.into_vec(), vec![1, 2, 3]);
}

#[test]
fn scenario_pool_guard_array() {
    let mut ctx = ScopeContext::new();
    let pool = WrapAllocator::new(&mut ctx);
    let guard = pool.guard(&mut ctx);
    let mut v = GrowableArray::new(&ctx);
    v.push(&mut ctx, 1);
    v.push(&mut ctx, 2);
    v.push(&mut ctx, 3);
    assert_eq!(v.len(), 3);
    assert_eq!(v.as_slice(), &[1, 2, 3][..]);
    guard.release(&mut ctx);
}

#[test]
fn scenario_box_deref_and_unbox() {
    let mut ctx = ScopeContext::new();
    let pool = WrapAllocator::new(&mut ctx);
    let _guard = pool.guard(&mut ctx);
    let boxed = OwningBox::new(42, &mut ctx);
    assert_eq!(*boxed.as_ref(), 42);
    let owned = boxed.unbox();
    assert_eq!(owned, 42);
}

#[test]
fn capacity_growth_policy() {
    let mut ctx = ScopeContext::new();
    let pool = WrapAllocator::new(&mut ctx);
    let _guard = pool.guard(&mut ctx);

    let mut v = GrowableArray::new(&ctx);
    assert_eq!(v.capacity(), 0);
    v.push(&mut ctx, 0u8);
    assert_eq!(v.capacity(), 4);
    for i in 1..5 {
        v.push(&mut ctx, i as u8);
    }
    assert_eq!(v.capacity(), 8);

    v.shrink_to_fit(&mut ctx);
    assert_eq!(v.capacity(), 5);
    assert_eq!(v.as_slice(), &[0, 1, 2, 3, 4][..]);

    let mut v: GrowableArray<u16> = GrowableArray::with_capacity(3, &mut ctx);
    assert_eq!(v.capacity(), 3);
    v.reserve(&mut ctx, 7);
    assert!(v.capacity() >= 7);
    assert_eq!(v.capacity(), 7);
}

#[test]
fn allocate_zeroed_is_zero() {
    let mut ctx = ScopeContext::new();
    let pool = WrapAllocator::new(&mut ctx);
    let _guard = pool.guard(&mut ctx);
    let handle = LimboAllocator::new(&ctx);

    let block = handle.allocate_zeroed(&mut ctx, 8, 4).unwrap();
    assert_eq!(block.size, 8);
    assert_eq!(block.addr % 4, 0);
    for i in 0..8 {
        assert_eq!(handle.read_byte(&ctx, block, i), 0);
    }
}

#[test]
fn handle_snapshot_is_fixed_at_construction() {
    let mut ctx = ScopeContext::new();
    let pool = WrapAllocator::new(&mut ctx);

    // Captured before any activation: stays empty even once a guard is live.
    let early = LimboAllocator::new(&ctx);
    let guard = pool.guard(&mut ctx);
    assert_eq!(early.allocate(&mut ctx, 1, 1), Err(AllocFailure::NoActiveArena));

    // Captured under the guard: keeps its arena after release.
    let late = LimboAllocator::new(&ctx);
    guard.release(&mut ctx);
    assert!(late.allocate(&mut ctx, 1, 1).is_ok());
}

#[test]
fn from_vec_matches_source() {
    let mut ctx = ScopeContext::new();
    let pool = WrapAllocator::new(&mut ctx);
    let _guard = pool.guard(&mut ctx);

    let v = GrowableArray::from_vec(vec![10, 20, 30], &mut ctx);
    assert_eq!(v.len(), 3);
    assert_eq!(v.as_slice(), &[10, 20, 30][..]);

    let empty: GrowableArray<i64> = GrowableArray::from_vec(Vec::new(), &mut ctx);
    assert!(empty.is_empty());
}
