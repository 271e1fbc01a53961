use kcore::rwlock::{LockState, Mutator, RwLock};

/// A mutation that appends one byte, so replay order is visible.
struct AppendByte(u8);

impl Mutator<Vec<u8>> for AppendByte {
    fn result(&self, mut v: Vec<u8>) -> Vec<u8> {
        v.push(self.0);
        v
    }

    fn apply(&self, v: &mut Vec<u8>) {
        v.push(self.0);
    }
}

#[test]
fn new_lock_is_unlocked_and_readable() {
    let lock: RwLock<Vec<u8>, AppendByte> = RwLock::new(vec![9]);
    assert_eq!(lock.state(), LockState::Unlocked);
    assert_eq!(*lock.read().value(), vec![9]);
}

#[test]
fn first_write_applies_immediately() {
    let mut lock: RwLock<Vec<u8>, AppendByte> = RwLock::new(Vec::new());
    let g = lock.write(AppendByte(1)).unwrap();
    assert!(g.originating());
    assert_eq!(lock.state(), LockState::Locked);
    assert_eq!(*lock.read().value(), vec![1]);
    lock.release(g);
    assert_eq!(lock.state(), LockState::Unlocked);
    assert_eq!(*lock.read().value(), vec![1]);
}

#[test]
fn hung_writers_replay_in_fifo_order() {
    // One writer locks, two mutations A then B hang; after the
    // originating guard is released both have run, in that order.
    let mut lock: RwLock<Vec<u8>, AppendByte> = RwLock::new(Vec::new());
    let g0 = lock.write(AppendByte(1)).unwrap();
    assert!(g0.originating());

    let ga = lock.write(AppendByte(2)).unwrap();
    assert!(!ga.originating());
    let gb = lock.write(AppendByte(3)).unwrap();
    assert!(!gb.originating());

    // the hung mutations have not run yet
    assert_eq!(*lock.read().value(), vec![1]);
    assert_eq!(lock.state(), LockState::Locked);

    lock.release(g0);
    assert_eq!(*lock.read().value(), vec![1, 2, 3]);
    assert_eq!(lock.state(), LockState::Unlocked);
}

#[test]
fn releasing_a_hung_writers_guard_does_nothing() {
    let mut lock: RwLock<Vec<u8>, AppendByte> = RwLock::new(Vec::new());
    let g0 = lock.write(AppendByte(1)).unwrap();
    let ga = lock.write(AppendByte(2)).unwrap();

    lock.release(ga);
    assert_eq!(lock.state(), LockState::Locked);
    assert_eq!(*lock.read().value(), vec![1]);

    lock.release(g0);
    assert_eq!(lock.state(), LockState::Unlocked);
    assert_eq!(*lock.read().value(), vec![1, 2]);
}

#[test]
fn lock_is_reusable_after_drain() {
    let mut lock: RwLock<Vec<u8>, AppendByte> = RwLock::new(Vec::new());
    let g0 = lock.write(AppendByte(1)).unwrap();
    let _ = lock.write(AppendByte(2)).unwrap();
    lock.release(g0);

    let g1 = lock.write(AppendByte(3)).unwrap();
    assert!(g1.originating());
    lock.release(g1);
    assert_eq!(*lock.read().value(), vec![1, 2, 3]);
}

#[test]
fn reads_are_allowed_while_locked() {
    let mut lock: RwLock<Vec<u8>, AppendByte> = RwLock::new(Vec::new());
    let g0 = lock.write(AppendByte(7)).unwrap();
    assert_eq!(*lock.read().value(), vec![7]);
    lock.release(g0);
}
