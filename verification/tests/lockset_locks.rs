use systrace::lockset::RemoteRWLock;

#[test]
fn readers_share_writers_exclude() {
    let mut l = RemoteRWLock::new();
    let site = 0x4010a2u64;
    // reads are shared
    assert!(l.try_read_lock(1, site));
    assert!(l.try_read_lock(2, site));
    // a site held for read refuses a write acquisition
    assert!(!l.try_write_lock(3, site));
    // a site held for write refuses reads and writes
    assert!(l.try_read_unlock(1, site));
    assert!(l.try_read_unlock(2, site));
    assert!(l.try_write_lock(3, site));
    assert!(!l.try_read_lock(1, site));
    assert!(!l.try_write_lock(4, site));
    assert!(l.try_write_unlock(3, site));
    assert!(l.try_read_lock(1, site));
}

#[test]
fn upgrade_requires_own_release() {
    let mut l = RemoteRWLock::new();
    let site = 0x7f0000001000u64;
    assert!(l.try_read_lock(7, site));
    // the same thread must release its read before writing
    assert!(!l.try_write_lock(7, site));
    assert!(l.try_read_unlock(7, site));
    assert!(l.try_write_lock(7, site));
}

#[test]
fn two_threads_race_one_patches() {
    // two sibling threads hit the same fresh site: both take the read
    // lock on entry; the first to upgrade while the other still reads
    // loses; exactly one write-acquires
    let mut l = RemoteRWLock::new();
    let site = 0x55e4f00021d0u64;
    assert!(l.try_read_lock(11, site));
    assert!(l.try_read_lock(12, site));
    // thread 11 tries to upgrade and fails: 12 still holds its read
    assert!(l.try_read_unlock(11, site));
    assert!(!l.try_write_lock(11, site));
    // thread 12 releases and wins the write
    assert!(l.try_read_unlock(12, site));
    assert!(l.try_write_lock(12, site));
    assert!(!l.try_write_lock(11, site));
    assert!(l.try_write_unlock(12, site));
}

#[test]
fn sites_are_independent() {
    let mut l = RemoteRWLock::new();
    assert!(l.try_write_lock(1, 0x1000));
    // a write at one site leaves another site free
    assert!(l.try_read_lock(2, 0x2000));
    assert!(l.try_write_lock(3, 0x3000));
    assert!(!l.try_read_lock(4, 0x1000));
    assert!(l.try_read_lock(4, 0x2000));
}

#[test]
fn unlock_without_hold_reports_false() {
    let mut l = RemoteRWLock::new();
    assert!(!l.try_read_unlock(1, 0x9000));
    assert!(!l.try_write_unlock(1, 0x9000));
    assert!(l.try_read_lock(1, 0x9000));
    // releasing a read another thread holds reports false and changes
    // nothing for the holder
    assert!(!l.try_read_unlock(2, 0x9000));
    assert!(!l.try_write_lock(3, 0x9000));
}
