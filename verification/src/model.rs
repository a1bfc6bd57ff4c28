//! What a lock is and how it moves, without its code.
use vstd::prelude::*;
use crate::types::{
    Action, Event, Kept, LockKind, LockRequest, Operation, Outcome, Poll, SeekFrom, State,
};

verus! {

/// What a lock knows and holds.
///
/// The file is in one place at a time: with the lock, unlocked or locked, or with
/// the task that locks it, unlocks it, seeks in it or syncs it.
pub struct LockView<S, T, E> {
    /// Where an operation seeks to before it works.
    pub mode: SeekFrom,
    /// Where the lock stands.
    pub state: State,
    /// Whether the lock is kept until it is given up by hand.
    pub is_manually_locked: bool,
    /// The file, while it is here and not locked.
    pub unlocked_file: Option<S>,
    /// The file, while it is here and locked.
    pub locked_file: Option<T>,
    /// The kind of the lock, while the file is here and locked.
    pub held: Option<LockKind>,
    /// What is kept to return once the file is unlocked.
    pub result: Option<Kept<E>>,
    /// The kind of the lock, while a locking task has the file.
    pub locking: Option<LockKind>,
    /// Whether an unlocking task has the file.
    pub unlocking: bool,
    /// Whether a seeking task has the file.
    pub seeking: bool,
}

impl<S, T, E> LockView<S, T, E> {
    /// The lock of a file that is not locked.
    pub open spec fn new(file: S) -> Self {
        LockView {
            mode: SeekFrom::Current(0),
            state: State::Unlocked,
            is_manually_locked: false,
            unlocked_file: Some(file),
            locked_file: None,
            held: None,
            result: None,
            locking: None,
            unlocking: false,
            seeking: false,
        }
    }

    /// The file is in one place at most, the place fits the state, and the outcome
    /// of an operation is kept only while the lock that was taken for it is given up.
    pub open spec fn wf(self) -> bool {
        &&& match self.state {
            State::Unlocked => {
                &&& self.locked_file is None
                &&& !self.unlocking
                &&& self.unlocked_file is Some ==> self.locking is None && !self.seeking
                &&& !(self.locking is Some && self.seeking)
            },
            State::Locking => {
                &&& self.locked_file is None
                &&& self.unlocked_file is None
                &&& self.locking is Some && !self.unlocking && !self.seeking
            },
            State::Unlocking => {
                &&& self.locked_file is None
                &&& self.unlocked_file is None
                &&& self.locking is None && self.unlocking && !self.seeking
            },
            _ => {
                &&& self.locked_file is Some
                &&& self.unlocked_file is None
                &&& self.locking is None && !self.unlocking && !self.seeking
            },
        }
        &&& self.held is Some <==> self.locked_file is Some
        &&& match self.result {
            Some(Kept::Ended(_, outcome)) => {
                &&& self.state is Unlocking
                &&& !self.is_manually_locked
                &&& outcome matches Ok(n) ==> n <= usize::MAX
            },
            _ => true,
        }
    }

    /// The file has left for a task that takes a lock of this kind.
    pub open spec fn begin_locking(self, kind: LockKind) -> Self {
        LockView { unlocked_file: None, locking: Some(kind), ..self }
    }

    /// The file has come back from a locking task.
    pub open spec fn end_locking(self, outcome: Result<T, (S, E)>) -> Self {
        match outcome {
            Ok(file) => LockView {
                locked_file: Some(file),
                held: self.locking,
                locking: None,
                state: State::Locked,
                ..self
            },
            Err((file, _)) => LockView {
                unlocked_file: Some(file),
                locking: None,
                state: State::Unlocked,
                ..self
            },
        }
    }

    /// The file has left for an unlocking task.
    pub open spec fn begin_unlocking(self) -> Self {
        LockView {
            locked_file: None,
            held: None,
            unlocking: true,
            state: State::Unlocking,
            ..self
        }
    }

    /// The file has come back from an unlocking task. A failure is kept for the
    /// next operation, in the place of what was kept before.
    pub open spec fn end_unlocking(self, file: S, outcome: Result<(), E>) -> Self {
        LockView {
            unlocked_file: Some(file),
            unlocking: false,
            state: State::Unlocked,
            result: match outcome {
                Ok(_) => self.result,
                Err(e) => Some(Kept::UnlockFailure(e)),
            },
            ..self
        }
    }

    /// A lock of this kind was asked for by hand and the file has left for a locking
    /// task.
    pub open spec fn lock_by_hand(self, kind: LockKind) -> Self {
        LockView { is_manually_locked: true, ..self }.begin_locking(kind)
    }

    /// The lock was given up by hand and its file has left for an unlocking task.
    pub open spec fn unlock_by_hand(self) -> Self {
        LockView { is_manually_locked: false, ..self }.begin_unlocking()
    }

    /// Whether no operation is under way.
    pub open spec fn at_rest(self) -> bool {
        self.state is Unlocked || self.state is Locked
    }

    /// Whether an operation has its seek behind it or under way.
    pub open spec fn past_seek(self) -> bool {
        self.state is Seeking || self.state is Working
    }

    /// What has been sought so far does not count any more: the operation under way
    /// has to seek anew.
    pub open spec fn forget_seek(self) -> Self {
        if self.past_seek() {
            LockView { state: State::Starting, ..self }
        } else {
            self
        }
    }

    /// The file has left for a seeking task.
    pub open spec fn begin_seek(self) -> Self {
        LockView { unlocked_file: None, seeking: true, ..self }
    }

    /// The file has come back from a seeking task.
    pub open spec fn end_seek(self, file: S) -> Self {
        LockView { unlocked_file: Some(file), seeking: false, ..self }
    }

    /// The file has left for a sync.
    pub open spec fn begin_sync(self) -> Self {
        LockView { unlocked_file: None, ..self }
    }

    /// Whether a sync has the file.
    pub open spec fn syncing(self) -> bool {
        self.state is Unlocked && self.unlocked_file is None && self.locking is None
            && !self.seeking
    }

    /// The file has come back from a sync.
    pub open spec fn end_sync(self, file: S) -> Self {
        LockView { unlocked_file: Some(file), ..self }
    }

    /// Whether an operation can be polled: something is kept for it to return, or
    /// the file is neither with a seeking task nor with a sync.
    pub open spec fn operable(self) -> bool {
        self.state is Unlocked && self.result is None ==> self.locking is Some
            || self.unlocked_file is Some
    }

    /// Whether a lock of this kind is good enough for an operation: it was asked for
    /// by hand, or it is of the operation's kind or exclusive.
    pub open spec fn suits(self, operation: Operation, kind: LockKind) -> bool {
        self.is_manually_locked || kind == operation.kind() || kind == LockKind::Exclusive
    }

    /// Whether an event can come in the poll of an operation: the event answers what
    /// the lock waits for, and the operation has a lock that suits it where it needs
    /// one.
    pub open spec fn accepts<R>(self, operation: Operation, event: Event<S, T, E, R>) -> bool {
        match event {
            Event::Polled => self.operable(),
            Event::Locking(_) => self.state is Locking,
            Event::Unlocking(_) => self.state is Unlocking,
            Event::SeekStarted(_) => {
                &&& self.state is Starting
                &&& self.mode != SeekFrom::Current(0)
                &&& self.suits(operation, self.held->0)
            },
            Event::SeekCompleted(_) => self.state is Seeking && self.suits(
                operation,
                self.held->0,
            ),
            Event::Worked(_) => self.state is Working && self.suits(operation, self.held->0),
        }
    }

    /// What an operation has to do next, and the lock as it is then.
    ///
    /// What another operation has left behind is not returned, and a lock that
    /// another operation has left behind is given up if it does not suit this one.
    pub open spec fn next<R: Outcome>(self, operation: Operation) -> (Self, Action<S, T, E, R>) {
        match self.state {
            State::Unlocked => match self.result {
                Some(Kept::UnlockFailure(e)) => (
                    LockView { result: None, ..self },
                    Action::Return(Poll::Ready(Err(e))),
                ),
                Some(Kept::Ended(of, outcome)) if of == operation => (
                    LockView { result: None, ..self },
                    Action::Return(
                        Poll::Ready(
                            match outcome {
                                Ok(n) => Ok(R::of_count(n)),
                                Err(e) => Err(e),
                            },
                        ),
                    ),
                ),
                _ => if self.locking is Some {
                    (
                        LockView { result: None, state: State::Locking, ..self },
                        Action::PollLocking,
                    )
                } else {
                    (
                        LockView { result: None, state: State::Locking, ..self }.begin_locking(
                            operation.kind(),
                        ),
                        Action::SpawnLocking(
                            LockRequest {
                                kind: operation.kind(),
                                wait: true,
                                file: self.unlocked_file->0,
                            },
                        ),
                    )
                },
            },
            State::Locking => (self, Action::PollLocking),
            State::Unlocking => (self, Action::PollUnlocking),
            _ => if !self.suits(operation, self.held->0) {
                (self.begin_unlocking(), Action::SpawnUnlocking(self.locked_file->0))
            } else if self.state is Seeking {
                (self, Action::PollSeek)
            } else if self.state is Working {
                (self, Action::Work)
            } else if self.mode == SeekFrom::Current(0) {
                (LockView { state: State::Working, ..self }, Action::Work)
            } else {
                (LockView { state: State::Starting, ..self }, Action::StartSeek(self.mode))
            },
        }
    }

    /// What an operation does once its work is done, and the lock as it is then: a
    /// lock that was taken by hand stays, another one is given up first.
    pub open spec fn finish<R: Outcome>(self, operation: Operation, worked: Result<R, E>) -> (
        Self,
        Action<S, T, E, R>,
    ) {
        if self.is_manually_locked {
            (LockView { state: State::Locked, ..self }, Action::Return(Poll::Ready(worked)))
        } else {
            let outcome = match worked {
                Ok(outcome) => Ok(outcome.count()),
                Err(e) => Err(e),
            };
            (
                LockView {
                    result: Some(Kept::Ended(operation, outcome)),
                    ..self
                }.begin_unlocking(),
                Action::SpawnUnlocking(self.locked_file->0),
            )
        }
    }

    /// What an operation does upon an event, and the lock as it is then.
    ///
    /// A step that is not through leaves the lock as it is. A seek that the file does
    /// not take or does not complete ends the operation without its work, and the
    /// next operation seeks anew.
    pub open spec fn step<R: Outcome>(self, operation: Operation, event: Event<S, T, E, R>) -> (
        Self,
        Action<S, T, E, R>,
    ) {
        match event {
            Event::Polled => self.next(operation),
            Event::Locking(Poll::Ready(Ok(file))) => self.end_locking(Ok(file)).next(operation),
            Event::Locking(Poll::Ready(Err((file, e)))) => (
                self.end_locking(Err((file, e))),
                Action::Return(Poll::Ready(Err(e))),
            ),
            Event::Unlocking(Poll::Ready((file, outcome))) => self.end_unlocking(
                file,
                outcome,
            ).next(operation),
            Event::SeekStarted(Poll::Ready(Ok(_))) => (
                LockView { state: State::Seeking, ..self },
                Action::PollSeek,
            ),
            Event::SeekStarted(Poll::Ready(Err(e))) => self.finish(operation, Err(e)),
            Event::SeekCompleted(Poll::Ready(Ok(_))) => (
                LockView { state: State::Working, ..self },
                Action::Work,
            ),
            Event::SeekCompleted(Poll::Ready(Err(e))) => self.finish(operation, Err(e)),
            Event::Worked(Poll::Ready(worked)) => self.finish(operation, worked),
            _ => (self, Action::Return(Poll::Pending)),
        }
    }
}

} // verus!
