use std::cell::Cell;
use std::cell::RefCell;
use std::rc::Rc;

use light_rc_arena::Arena;
use light_rc_arena::ArenaStore;
use light_rc_arena::DEFAULT_CAPACITY;

#[test]
fn basic_usage() {
    let mut store: ArenaStore<Cell<u32>> = ArenaStore::new();
    let arena = Arena::new(&mut store, 8);
    for i in 0..128 {
        let r = arena.allocate(&mut store, Cell::new(i));
        // Test value
        assert_eq!(r.get(&store).get(), i);

        // Test mutability
        assert_eq!(r.get(&store).replace(1), i);

        // Ensure set
        assert_eq!(r.get(&store).get(), 1);
    }

    let r = arena.allocate(&mut store, Cell::new(1));
    assert_eq!(r.get(&store).get(), 1);

    arena.drop_handle(&mut store);

    assert_eq!(r.try_get(&store), None);
}

#[test]
fn usage_guide_from_readme() {
    // Making an arena
    type MyType = Cell<i32>;
    let mut store: ArenaStore<MyType> = ArenaStore::new();
    let arena = Arena::new(&mut store, DEFAULT_CAPACITY);

    // Allocating objects: wrap them in a Cell or RefCell to mutate.
    let obj1 = arena.allocate(&mut store, Cell::new(0));
    let obj2 = arena.allocate(&mut store, Cell::new(1));
    let obj3 = arena.allocate(&mut store, Cell::new(2));

    assert_eq!(obj1.get(&store).get(), 0); //> 0
    assert_eq!(obj2.get(&store).get(), 1); //> 1

    obj3.get(&store).set(-99);
    assert_eq!(obj3.get(&store).get(), -99); //> -99

    // You can clone the Arena handle or the references as much as you like
    let arena2 = arena.clone_handle(&mut store);
    let _obj1 = obj1.clone();

    // And you can even get an Arena back from a reference.
    let arena3: Option<Arena> = obj1.get_arena(&mut store);

    // But a reference will NOT keep the arena alive.
    arena.drop_handle(&mut store);
    arena2.drop_handle(&mut store);
    if let Some(a) = arena3 {
        a.drop_handle(&mut store);
    }

    // You can test if your arena is still valid:
    let value: Option<&MyType> = obj1.try_get(&store);
    assert_eq!(value, None)
}

#[test]
fn pointer_stability() {
    let mut store: ArenaStore<u32> = ArenaStore::new();
    let arena = Arena::new(&mut store, 8);
    let mut refs = Vec::new();
    for i in 0..128 {
        let r = arena.allocate(&mut store, i);
        // Readable immediately after allocation
        assert_eq!(*r.get(&store), i);
        refs.push(r);
    }
    // Every earlier reference still reads its own value after all 128
    // allocations (15 segment growths after the first segment).
    for (i, r) in refs.iter().enumerate() {
        assert_eq!(*r.get(&store), i as u32);
    }
    arena.drop_handle(&mut store);
}

#[test]
fn capacity_triggered_growth() {
    // Exactly N + 1 elements into an arena of capacity N.
    let mut store: ArenaStore<u64> = ArenaStore::new();
    let arena = Arena::new(&mut store, 4);
    let mut refs = Vec::new();
    for i in 0..5u64 {
        refs.push(arena.allocate(&mut store, 100 + i));
    }
    for (i, r) in refs.iter().enumerate() {
        assert_eq!(*r.get(&store), 100 + i as u64);
    }
    arena.drop_handle(&mut store);
}

#[test]
fn liveness_transition() {
    let mut store: ArenaStore<&str> = ArenaStore::new();
    let arena = Arena::new(&mut store, 2);
    let r = arena.allocate(&mut store, "hello");
    assert_eq!(r.try_get(&store), Some(&"hello"));
    arena.drop_handle(&mut store);
    assert_eq!(r.try_get(&store), None);
}

struct Noisy {
    id: usize,
    log: Rc<RefCell<Vec<usize>>>,
}

impl Drop for Noisy {
    fn drop(&mut self) {
        self.log.borrow_mut().push(self.id);
    }
}

#[test]
fn destructors_run_once_in_order() {
    let log: Rc<RefCell<Vec<usize>>> = Rc::new(RefCell::new(Vec::new()));
    let mut store: ArenaStore<Noisy> = ArenaStore::new();
    let arena = Arena::new(&mut store, 2);
    for id in 0..5 {
        arena.allocate(&mut store, Noisy { id, log: log.clone() });
    }
    let arena2 = arena.clone_handle(&mut store);
    arena.drop_handle(&mut store);
    // A non-final drop destroys nothing.
    assert_eq!(log.borrow().len(), 0);
    arena2.drop_handle(&mut store);
    // The final drop destroys each element exactly once, in slot order
    // within a segment and in chain order across segments.
    assert_eq!(*log.borrow(), vec![0, 1, 2, 3, 4]);
}

#[test]
fn shared_handles_keep_arena_alive() {
    let mut store: ArenaStore<u8> = ArenaStore::new();
    let original = Arena::new(&mut store, 3);
    let r = original.allocate(&mut store, 7);
    let clone = original.clone_handle(&mut store);
    original.drop_handle(&mut store);
    assert_eq!(r.try_get(&store), Some(&7));
    clone.drop_handle(&mut store);
    assert_eq!(r.try_get(&store), None);
}

#[test]
fn get_arena_cannot_resurrect() {
    let mut store: ArenaStore<u8> = ArenaStore::new();
    let arena = Arena::new(&mut store, 3);
    let r = arena.allocate(&mut store, 42);

    // While alive, the recovered handle is a real strong owner.
    let recovered = r.get_arena(&mut store).unwrap();
    arena.drop_handle(&mut store);
    assert_eq!(r.try_get(&store), Some(&42));
    recovered.drop_handle(&mut store);

    // Once dead, a reference cannot bring the arena back.
    assert!(r.get_arena(&mut store).is_none());
    assert_eq!(r.try_get(&store), None);
}

#[test]
fn identity_equality() {
    let mut store: ArenaStore<u16> = ArenaStore::new();
    let a = Arena::new(&mut store, 2);
    let a_clone = a.clone_handle(&mut store);
    let b = Arena::new(&mut store, 2);

    // Clones of the same arena compare equal; independent arenas do not,
    // even with identical contents.
    assert!(a == a_clone);
    assert!(a != b);

    let ra0 = a.allocate(&mut store, 5);
    let rb0 = b.allocate(&mut store, 5);
    let ra1 = a.allocate(&mut store, 5);

    // Same slot of the same arena, also via a copied reference.
    assert!(ra0.ptr_eq(&ra0.clone()));
    // Same arena, different slots.
    assert!(!ra0.ptr_eq(&ra1));
    // Same slot position, different arenas.
    assert!(!ra0.ptr_eq(&rb0));

    a.drop_handle(&mut store);
    a_clone.drop_handle(&mut store);
    // Same-target comparison still answers after the arena died.
    assert!(ra0.ptr_eq(&ra0.clone()));
    assert!(!ra0.ptr_eq(&rb0));
    b.drop_handle(&mut store);
}
