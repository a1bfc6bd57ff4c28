//! The locking and the unlocking that a caller asks for by hand.
use vstd::prelude::*;
use crate::file_lock::FileLock;
use crate::model::LockView;
use crate::types::{Kept, LockKind, LockRequest, Poll, State};

verus! {

/// A lock that was asked for and that a task is about to take.
#[must_use]
pub struct LockFuture<'a, S, T, E> {
    /// The lock, whose file the task has.
    pub file_lock: &'a mut FileLock<S, T, E>,
}

impl<'a, S, T, E> LockFuture<'a, S, T, E> {
    /// Asks for an exclusive lock.
    pub(crate) fn new_exclusive(file_lock: &'a mut FileLock<S, T, E>) -> (started: (
        LockFuture<'a, S, T, E>,
        LockRequest<S>,
    ))
        requires
            old(file_lock)@.unlocked_file is Some,
        ensures
            started.0.file_lock@ == old(file_lock)@.begin_locking(LockKind::Exclusive),
            *final(file_lock) == *final(started.0.file_lock),
            started.1.kind == LockKind::Exclusive,
            started.1.wait,
            Some(started.1.file) == old(file_lock)@.unlocked_file,
    {
        let file = file_lock.begin_locking(LockKind::Exclusive);
        (LockFuture { file_lock }, LockRequest { kind: LockKind::Exclusive, wait: true, file })
    }

    /// Asks for a shared lock.
    pub(crate) fn new_shared(file_lock: &'a mut FileLock<S, T, E>) -> (started: (
        LockFuture<'a, S, T, E>,
        LockRequest<S>,
    ))
        requires
            old(file_lock)@.unlocked_file is Some,
        ensures
            started.0.file_lock@ == old(file_lock)@.begin_locking(LockKind::Shared),
            *final(file_lock) == *final(started.0.file_lock),
            started.1.kind == LockKind::Shared,
            started.1.wait,
            Some(started.1.file) == old(file_lock)@.unlocked_file,
    {
        let file = file_lock.begin_locking(LockKind::Shared);
        (LockFuture { file_lock }, LockRequest { kind: LockKind::Shared, wait: true, file })
    }

    /// Takes what polling the locking task gave, and says whether the lock was
    /// taken.
    pub fn poll(&mut self, polled: Poll<Result<T, (S, E)>>) -> (locked: Poll<Result<(), E>>)
        requires
            old(self).file_lock@.wf(),
            old(self).file_lock@.locking is Some,
        ensures
            final(self).file_lock@.wf(),
            *final(final(self).file_lock) == *final(old(self).file_lock),
            match polled {
                Poll::Pending => {
                    &&& locked == Poll::<Result<(), E>>::Pending
                    &&& final(self).file_lock@ == old(self).file_lock@
                },
                Poll::Ready(Ok(file)) => {
                    &&& locked == Poll::Ready(Ok::<(), E>(()))
                    &&& final(self).file_lock@ == old(self).file_lock@.end_locking(Ok(file))
                    &&& final(self).file_lock@ == (LockView {
                        state: State::Locked,
                        locked_file: Some(file),
                        held: old(self).file_lock@.locking,
                        locking: None,
                        ..old(self).file_lock@
                    })
                },
                Poll::Ready(Err((file, e))) => {
                    &&& locked == Poll::Ready(Err::<(), E>(e))
                    &&& final(self).file_lock@ == old(self).file_lock@.end_locking(Err((file, e)))
                    &&& final(self).file_lock@ == (LockView {
                        state: State::Unlocked,
                        unlocked_file: Some(file),
                        locking: None,
                        ..old(self).file_lock@
                    })
                },
            },
    {
        self.file_lock.poll_locking_fut(polled)
    }
}

/// A lock that a task is about to give up.
#[must_use]
pub struct UnlockFuture<'a, S, T, E> {
    /// The lock, whose file the task has.
    pub file_lock: &'a mut FileLock<S, T, E>,
}

impl<'a, S, T, E> UnlockFuture<'a, S, T, E> {
    /// Gives up the lock.
    pub(crate) fn new(file_lock: &'a mut FileLock<S, T, E>) -> (started: (
        UnlockFuture<'a, S, T, E>,
        T,
    ))
        requires
            old(file_lock)@.locked_file is Some,
        ensures
            started.0.file_lock@ == old(file_lock)@.begin_unlocking(),
            *final(file_lock) == *final(started.0.file_lock),
            Some(started.1) == old(file_lock)@.locked_file,
    {
        let file = file_lock.begin_unlocking();
        (UnlockFuture { file_lock }, file)
    }

    /// Takes what polling the unlocking task gave, and says whether the task is
    /// done. A failure to unlock is kept for the next operation to return.
    pub fn poll(&mut self, polled: Poll<(S, Result<(), E>)>) -> (unlocked: Poll<()>)
        requires
            old(self).file_lock@.wf(),
            old(self).file_lock@.unlocking,
            !(old(self).file_lock@.result matches Some(Kept::Ended(_, _))),
        ensures
            final(self).file_lock@.wf(),
            *final(final(self).file_lock) == *final(old(self).file_lock),
            match polled {
                Poll::Pending => {
                    &&& unlocked == Poll::<()>::Pending
                    &&& final(self).file_lock@ == old(self).file_lock@
                },
                Poll::Ready((file, outcome)) => {
                    &&& unlocked == Poll::Ready(())
                    &&& final(self).file_lock@ == old(self).file_lock@.end_unlocking(file, outcome)
                    &&& final(self).file_lock@ == (LockView {
                        state: State::Unlocked,
                        unlocked_file: Some(file),
                        unlocking: false,
                        result: match outcome {
                            Ok(_) => old(self).file_lock@.result,
                            Err(e) => Some(Kept::UnlockFailure(e)),
                        },
                        ..old(self).file_lock@
                    })
                },
            },
    {
        self.file_lock.poll_unlock(polled)
    }
}

} // verus!
