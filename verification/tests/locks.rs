use doorman::locks::{LockFile, LockMode};

#[test]
fn a_new_lock_file_is_free() {
    assert_eq!(LockFile::new(), LockFile { shared: 0, exclusive: false });
}

#[test]
fn many_may_hold_a_lock_shared() {
    let mut file = LockFile::new();
    assert!(file.try_lock(LockMode::Shared));
    assert!(file.try_lock(LockMode::Shared));
    assert_eq!(file, LockFile { shared: 2, exclusive: false });
}

#[test]
fn only_one_may_hold_a_lock_exclusively() {
    let mut file = LockFile::new();
    assert!(file.try_lock(LockMode::Exclusive));
    assert!(!file.try_lock(LockMode::Exclusive));
    assert_eq!(file, LockFile { shared: 0, exclusive: true });
}

#[test]
fn a_shared_holder_and_an_exclusive_request_never_both_succeed() {
    let mut file = LockFile::new();
    assert!(file.try_lock(LockMode::Shared));
    assert!(!file.try_lock(LockMode::Exclusive));
    assert_eq!(file, LockFile { shared: 1, exclusive: false });
}

#[test]
fn an_exclusive_holder_excludes_shared_requests() {
    let mut file = LockFile::new();
    assert!(file.try_lock(LockMode::Exclusive));
    assert!(!file.try_lock(LockMode::Shared));
    assert_eq!(file, LockFile { shared: 0, exclusive: true });
}

#[test]
fn a_lock_that_is_given_back_can_be_taken_again() {
    let mut file = LockFile::new();
    assert!(file.try_lock(LockMode::Exclusive));
    file.unlock(LockMode::Exclusive);
    assert_eq!(file, LockFile::new());
    assert!(file.try_lock(LockMode::Shared));
    file.unlock(LockMode::Shared);
    assert!(file.try_lock(LockMode::Exclusive));
}

#[test]
fn the_last_shared_holder_frees_the_lock() {
    let mut file = LockFile::new();
    assert!(file.try_lock(LockMode::Shared));
    assert!(file.try_lock(LockMode::Shared));
    file.unlock(LockMode::Shared);
    assert!(!file.try_lock(LockMode::Exclusive));
    file.unlock(LockMode::Shared);
    assert!(file.try_lock(LockMode::Exclusive));
}

#[test]
fn giving_back_a_lock_that_is_not_held_changes_nothing() {
    let mut file = LockFile::new();
    file.unlock(LockMode::Shared);
    file.unlock(LockMode::Exclusive);
    assert_eq!(file, LockFile::new());
}
