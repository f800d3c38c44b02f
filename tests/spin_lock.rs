use sync_primitives::spin_lock::SpinLock;

#[test]
fn safe_version_test() {
    let mut nums = SpinLock::new(Vec::new());
    nums.lock().push(1);
    nums.unlock();
    {
        let guard = nums.lock();
        guard.push(2);
        guard.push(2);
    }
    nums.unlock();
    let guard = nums.lock();
    assert!(*guard == [1, 2, 2] || *guard == [2, 2, 1]);
}

#[test]
fn unsafe_version_test() {
    let mut lock = SpinLock::new(0i32);
    for _ in 0..10 {
        let data = lock.lock();
        *data += 1;
        lock.unlock();
    }
    let data = lock.lock();
    assert_eq!(*data, 10);
    lock.unlock();
}

#[test]
fn new_lock_is_free() {
    let lock = SpinLock::new(7u32);
    assert!(!lock.is_locked());
    assert_eq!(lock.into_inner(), 7);
}

#[test]
fn lock_stays_taken_until_unlock() {
    let mut lock = SpinLock::new(1u32);
    *lock.lock() = 2;
    assert!(lock.is_locked());
    assert!(lock.try_lock().is_none());
    lock.unlock();
    assert!(!lock.is_locked());
    assert_eq!(lock.try_lock().copied(), Some(2));
    assert!(lock.is_locked());
}

#[test]
fn next_holder_sees_the_whole_write() {
    let mut lock = SpinLock::new((0u64, String::new()));
    {
        let data = lock.lock();
        data.0 = 99;
        data.1.push_str("written");
    }
    lock.unlock();
    let data = lock.lock();
    assert_eq!(*data, (99, String::from("written")));
}

#[test]
fn counter_under_lock_reaches_n_times_m() {
    let threads = 4usize;
    let rounds = 25usize;
    let mut lock = SpinLock::new(0usize);
    for _ in 0..rounds {
        for _ in 0..threads {
            let data = lock.lock();
            *data += 1;
            lock.unlock();
        }
    }
    assert_eq!(lock.into_inner(), threads * rounds);
}
