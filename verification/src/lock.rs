use vstd::prelude::*;
use crate::errors::{ErrView, FaeError};

verus! {

/// The persisted bootstrap record: `first_run` is `Some(true)` while
/// dependency installation is still owed, `Some(false)` once it has
/// completed, and `None` when the lock file on disk holds no usable record.
pub struct FaeLock {
    pub first_run: Option<bool>,
}

/// The lock that one invocation works from: the record read from disk, or
/// the pending-install default when no lock file exists.
pub open spec fn effective_lock_spec(on_disk: Option<FaeLock>) -> FaeLock {
    match on_disk {
        Some(l) => l,
        None => FaeLock { first_run: Some(true) },
    }
}

/// Whether a lock record demands a dependency sweep before the entry point
/// runs; a record without the field is malformed and demands nothing.
pub open spec fn needs_install_spec(lock: FaeLock) -> Option<bool> {
    lock.first_run
}

/// The lock record after a successful dependency sweep.
pub open spec fn mark_installed_spec(lock: FaeLock) -> FaeLock {
    FaeLock { first_run: Some(false) }
}

/// Materializes the lock that this invocation works from: an absent lock
/// file is not an error but a pending first run.
pub fn effective_lock(on_disk: Option<FaeLock>) -> (r: FaeLock)
    ensures
        r == effective_lock_spec(on_disk),
{
    match on_disk {
        Some(l) => l,
        None => FaeLock { first_run: Some(true) },
    }
}

/// Whether `start` must run the dependency sweep first; a lock record
/// without a usable `firstRun` field is fatal.
pub fn needs_install(lock: &FaeLock) -> (r: Result<bool, FaeError>)
    ensures
        match needs_install_spec(*lock) {
            Some(b) => r == Ok::<bool, FaeError>(b),
            None => r matches Err(e) && e@ == ErrView::MalformedLock,
        },
{
    match lock.first_run {
        Some(b) => Ok(b),
        None => Err(FaeError::MalformedLock),
    }
}

/// Durably records that the dependency sweep completed: the next start
/// operation must not install again.
pub fn mark_installed(lock: &mut FaeLock)
    ensures
        *final(lock) == mark_installed_spec(*old(lock)),
        final(lock).first_run == Some(false),
{
    lock.first_run = Some(false);
}

/// The lock bootstrap law. An absent lock file behaves as a pending first
/// run, so `start` triggers installation; after a completed sweep is marked,
/// the record shows `firstRun = false` and no later start installs again; an
/// explicit `firstRun = false` record never demands installation.
pub proof fn lemma_lock_bootstrap(on_disk: Option<FaeLock>)
    ensures
        on_disk is None ==> needs_install_spec(effective_lock_spec(on_disk)) == Some(true),
        needs_install_spec(mark_installed_spec(effective_lock_spec(on_disk))) == Some(false),
        effective_lock_spec(on_disk).first_run == Some(false)
            ==> needs_install_spec(effective_lock_spec(on_disk)) == Some(false),
{
}

} // verus!
