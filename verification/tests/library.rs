use scoped_arena::AllocatorGuard;
use scoped_arena::GrowableArray;
use scoped_arena::OwningBox;
use scoped_arena::ScopeContext;
use scoped_arena::WrapAllocator;

#[test]
fn test_vec_basic_operations() {
    let mut ctx = ScopeContext::new();
    let allocator = WrapAllocator::new(&mut ctx);
    let _guard = allocator.guard(&mut ctx);

    let mut vec = GrowableArray::new(&ctx);
    vec.push(&mut ctx, 1);
    vec.push(&mut ctx, 2);
    vec.push(&mut ctx, 3);
    assert_eq!(vec.len(), 3);
    assert_eq!(*vec.get(0), 1);
    assert_eq!(*vec.get(1), 2);
    assert_eq!(*vec.get(2), 3);
}

#[test]
fn test_box() {
    let mut ctx = ScopeContext::new();
    let allocator = WrapAllocator::new(&mut ctx);
    let boxed = {
        let guard = allocator.guard(&mut ctx);
        let b = OwningBox::new(42, &mut ctx);
        guard.release(&mut ctx);
        b
    };
    assert_eq!(*boxed.as_ref(), 42);
}

#[test]
fn test_vec_iteration() {
    let mut ctx = ScopeContext::new();
    let allocator = WrapAllocator::new(&mut ctx);
    let _guard = allocator.guard(&mut ctx);

    let mut vec = GrowableArray::new(&ctx);
    vec.extend_from_vec(&mut ctx, vec![0, 1, 2]);

    let sum: i32 = vec.as_slice().iter().sum();
    assert_eq!(sum, 3);

    let sum: i32 = vec.as_mut_slice().iter_mut().map(|x| *x).sum();
    assert_eq!(sum, 3);

    let sum: i32 = vec.into_vec().into_iter().sum();
    assert_eq!(sum, 3);
}

struct TestParser<'a> {
    _some_reference: &'a str,
    vector: GrowableArray<String>,
    _allocator: &'a WrapAllocator,
    _guard: AllocatorGuard,
}

impl<'a> TestParser<'a> {
    fn new(
        reference: &'a str,
        allocator: &'a WrapAllocator,
        guard: AllocatorGuard,
        ctx: &mut ScopeContext,
    ) -> Self {
        let mut vector = GrowableArray::new(ctx);

        vector.push(ctx, String::from("We are"));
        vector.push(ctx, String::from("So Back"));

        TestParser { _some_reference: reference, vector, _allocator: allocator, _guard: guard }
    }

    fn add_item(&mut self, ctx: &mut ScopeContext, item: String) {
        self.vector.push(ctx, item);
    }
}

#[test]
fn test_allocator_with_different_lifetimes() {
    {
        let text = String::from("test string");
        {
            let mut ctx = ScopeContext::new();
            let allocator: WrapAllocator = WrapAllocator::new(&mut ctx);

            let guard = allocator.guard(&mut ctx);

            let mut parser = TestParser::new(&text, &allocator, guard, &mut ctx);
            parser.add_item(&mut ctx, String::from("Additional item"));
        }
    }
}
