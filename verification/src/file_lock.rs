//! The lock itself.
use vstd::prelude::*;
use crate::future::{LockFuture, UnlockFuture};
use crate::laws::{due, is_pending};
use crate::model::LockView;
use crate::types::{
    Action, Event, Kept, LockKind, LockRequest, OpenFile, Operation, Outcome, Poll, SeekFrom,
    SeekSource, SeekStart, State, SyncKind, SyncTarget,
};

verus! {

/// Locks a file for asynchronous code.
///
/// Locks the file if a read or write is polled, and keeps it locked only for that
/// operation unless the lock was taken by hand. Can seek to a given location before
/// each operation.
///
/// `S` is an unlocked file, `T` a locked one and `E` an error. The lock does
/// nothing to a file itself: it hands files out with what has to be done to them,
/// and is told what came of it.
pub struct FileLock<S, T, E> {
    mode: SeekFrom,
    state: State,
    is_manually_locked: bool,
    unlocked_file: Option<S>,
    locked_file: Option<T>,
    held: Option<LockKind>,
    result: Option<Kept<E>>,
    locking: Option<LockKind>,
    unlocking: bool,
    seeking: bool,
}

impl<S, T, E> View for FileLock<S, T, E> {
    type V = LockView<S, T, E>;

    closed spec fn view(&self) -> LockView<S, T, E> {
        LockView {
            mode: self.mode,
            state: self.state,
            is_manually_locked: self.is_manually_locked,
            unlocked_file: self.unlocked_file,
            locked_file: self.locked_file,
            held: self.held,
            result: self.result,
            locking: self.locking,
            unlocking: self.unlocking,
            seeking: self.seeking,
        }
    }
}

impl<S, T, E> FileLock<S, T, E> {
    /// Creates the lock of a file that is not locked.
    pub fn new_std(std_file: S) -> (lock: FileLock<S, T, E>)
        ensures
            lock@.wf(),
            lock@ == LockView::<S, T, E>::new(std_file),
            lock@.unlocked_file == Some(std_file),
            lock@.locked_file is None,
            lock@.state is Unlocked,
            lock@.result is None,
            lock@.mode == SeekFrom::Current(0),
            !lock@.is_manually_locked,
    {
        FileLock {
            mode: SeekFrom::Current(0),
            state: State::Unlocked,
            is_manually_locked: false,
            unlocked_file: Some(std_file),
            locked_file: None,
            held: None,
            result: None,
            locking: None,
            unlocking: false,
            seeking: false,
        }
    }

    /// Locks the file for reading and writing until [`Self::unlock`] is called.
    ///
    /// A task has to take the lock that is asked for; the future is told how the
    /// task fares.
    pub fn lock_exclusive(&mut self) -> (started: (LockFuture<'_, S, T, E>, LockRequest<S>))
        requires
            old(self)@.wf(),
            old(self)@.unlocked_file is Some,
        ensures
            started.0.file_lock@.wf(),
            started.0.file_lock@ == old(self)@.lock_by_hand(LockKind::Exclusive),
            started.0.file_lock@ == (LockView {
                unlocked_file: None,
                locking: Some(LockKind::Exclusive),
                is_manually_locked: true,
                ..old(self)@
            }),
            *final(self) == *final(started.0.file_lock),
            started.1.kind == LockKind::Exclusive,
            started.1.wait,
            Some(started.1.file) == old(self)@.unlocked_file,
    {
        self.is_manually_locked = true;
        LockFuture::new_exclusive(self)
    }

    /// Locks the file for reading and writing until [`Self::unlock`] is called,
    /// if that can be done at once.
    ///
    /// The lock that is asked for has to be tried and the outcome handed to
    /// [`Self::end_try_lock`]. If the file is locked here already, nothing is asked
    /// for and nothing changes: the try has failed.
    pub fn try_lock_exclusive(&mut self) -> (request: Option<LockRequest<S>>)
        requires
            old(self)@.wf(),
            old(self)@.unlocked_file is Some || old(self)@.locked_file is Some,
        ensures
            final(self)@.wf(),
            match request {
                Some(request) => {
                    &&& final(self)@ == old(self)@.lock_by_hand(LockKind::Exclusive)
                    &&& final(self)@ == (LockView {
                        unlocked_file: None,
                        locking: Some(LockKind::Exclusive),
                        is_manually_locked: true,
                        ..old(self)@
                    })
                    &&& request.kind == LockKind::Exclusive
                    &&& !request.wait
                    &&& Some(request.file) == old(self)@.unlocked_file
                },
                None => {
                    &&& final(self)@ == old(self)@
                    &&& old(self)@.locked_file is Some
                },
            },
    {
        if self.locked_file.is_some() {
            return None;
        }
        self.is_manually_locked = true;
        let file = self.begin_locking(LockKind::Exclusive);
        Some(LockRequest { kind: LockKind::Exclusive, wait: false, file })
    }

    /// Locks the file for reading until [`Self::unlock`] is called.
    ///
    /// A task has to take the lock that is asked for; the future is told how the
    /// task fares.
    pub fn lock_shared(&mut self) -> (started: (LockFuture<'_, S, T, E>, LockRequest<S>))
        requires
            old(self)@.wf(),
            old(self)@.unlocked_file is Some,
        ensures
            started.0.file_lock@.wf(),
            started.0.file_lock@ == old(self)@.lock_by_hand(LockKind::Shared),
            started.0.file_lock@ == (LockView {
                unlocked_file: None,
                locking: Some(LockKind::Shared),
                is_manually_locked: true,
                ..old(self)@
            }),
            *final(self) == *final(started.0.file_lock),
            started.1.kind == LockKind::Shared,
            started.1.wait,
            Some(started.1.file) == old(self)@.unlocked_file,
    {
        self.is_manually_locked = true;
        LockFuture::new_shared(self)
    }

    /// Locks the file for reading until [`Self::unlock`] is called,
    /// if that can be done at once.
    ///
    /// The lock that is asked for has to be tried and the outcome handed to
    /// [`Self::end_try_lock`]. If the file is locked here already, nothing is asked
    /// for and nothing changes: the try has failed.
    pub fn try_lock_shared(&mut self) -> (request: Option<LockRequest<S>>)
        requires
            old(self)@.wf(),
            old(self)@.unlocked_file is Some || old(self)@.locked_file is Some,
        ensures
            final(self)@.wf(),
            match request {
                Some(request) => {
                    &&& final(self)@ == old(self)@.lock_by_hand(LockKind::Shared)
                    &&& final(self)@ == (LockView {
                        unlocked_file: None,
                        locking: Some(LockKind::Shared),
                        is_manually_locked: true,
                        ..old(self)@
                    })
                    &&& request.kind == LockKind::Shared
                    &&& !request.wait
                    &&& Some(request.file) == old(self)@.unlocked_file
                },
                None => {
                    &&& final(self)@ == old(self)@
                    &&& old(self)@.locked_file is Some
                },
            },
    {
        if self.locked_file.is_some() {
            return None;
        }
        self.is_manually_locked = true;
        let file = self.begin_locking(LockKind::Shared);
        Some(LockRequest { kind: LockKind::Shared, wait: false, file })
    }

    /// Takes the outcome of a lock that was tried: the locked file, or the file as
    /// it was and why it could not be locked.
    pub fn end_try_lock(&mut self, outcome: Result<T, (S, E)>) -> (locked: Result<(), E>)
        requires
            old(self)@.wf(),
            old(self)@.locking is Some,
        ensures
            final(self)@.wf(),
            final(self)@ == old(self)@.end_locking(outcome),
            match outcome {
                Ok(file) => {
                    &&& locked == Ok::<(), E>(())
                    &&& final(self)@ == (LockView {
                        state: State::Locked,
                        locked_file: Some(file),
                        held: old(self)@.locking,
                        locking: None,
                        ..old(self)@
                    })
                },
                Err((file, e)) => {
                    &&& locked == Err::<(), E>(e)
                    &&& final(self)@ == (LockView {
                        state: State::Unlocked,
                        unlocked_file: Some(file),
                        locking: None,
                        ..old(self)@
                    })
                },
            },
    {
        self.end_locking(outcome)
    }

    /// Unlocks the file.
    ///
    /// A task has to finish what the file has in hand and give up its lock; the
    /// future is told how the task fares.
    pub fn unlock(&mut self) -> (started: (UnlockFuture<'_, S, T, E>, T))
        requires
            old(self)@.wf(),
            old(self)@.locked_file is Some,
        ensures
            started.0.file_lock@.wf(),
            started.0.file_lock@ == old(self)@.unlock_by_hand(),
            started.0.file_lock@ == (LockView {
                state: State::Unlocking,
                is_manually_locked: false,
                locked_file: None,
                held: None,
                unlocking: true,
                ..old(self)@
            }),
            *final(self) == *final(started.0.file_lock),
            Some(started.1) == old(self)@.locked_file,
    {
        self.is_manually_locked = false;
        UnlockFuture::new(self)
    }

    /// Sets the seeking mode: every operation seeks to this location before it
    /// works, also one that was left after its seek to another location.
    /// `SeekFrom::Current(0)` leaves the cursor where it is.
    pub fn set_seeking_mode(&mut self, mode: SeekFrom)
        requires
            old(self)@.wf(),
        ensures
            final(self)@.wf(),
            final(self)@ == (LockView { mode, ..old(self)@.forget_seek() }),
            final(self)@ == (LockView { mode, state: final(self)@.state, ..old(self)@ }),
            final(self)@.state == if old(self)@.state is Seeking || old(self)@.state is Working {
                State::Starting
            } else {
                old(self)@.state
            },
    {
        self.forget_seek();
        self.mode = mode;
    }

    /// Has the operation under way seek anew.
    fn forget_seek(&mut self)
        requires
            old(self)@.wf(),
        ensures
            final(self)@.wf(),
            final(self)@ == old(self)@.forget_seek(),
    {
        match self.state {
            State::Seeking => self.state = State::Starting,
            State::Working => self.state = State::Starting,
            _ => {},
        }
    }

    /// The seeking mode.
    pub fn seeking_mode(&self) -> (mode: SeekFrom)
        ensures
            mode == self@.mode,
    {
        self.mode
    }

    /// Where to sync the file's data and all its metadata to disk.
    ///
    /// A file that is handed out goes back through [`Self::end_sync`].
    pub fn sync_all(&mut self) -> (target: SyncTarget<S>)
        requires
            old(self)@.wf(),
            old(self)@.unlocked_file is Some || old(self)@.locked_file is Some,
        ensures
            final(self)@.wf(),
            match target {
                SyncTarget::Locked(what) => {
                    &&& what == SyncKind::All
                    &&& old(self)@.locked_file is Some
                    &&& final(self)@ == old(self)@
                },
                SyncTarget::Unlocked(what, file) => {
                    &&& what == SyncKind::All
                    &&& old(self)@.unlocked_file == Some(file)
                    &&& final(self)@ == old(self)@.begin_sync()
                    &&& final(self)@ == (LockView { unlocked_file: None, ..old(self)@ })
                },
            },
    {
        self.begin_sync(SyncKind::All)
    }

    /// Where to sync the file's data to disk.
    ///
    /// A file that is handed out goes back through [`Self::end_sync`].
    pub fn sync_data(&mut self) -> (target: SyncTarget<S>)
        requires
            old(self)@.wf(),
            old(self)@.unlocked_file is Some || old(self)@.locked_file is Some,
        ensures
            final(self)@.wf(),
            match target {
                SyncTarget::Locked(what) => {
                    &&& what == SyncKind::Data
                    &&& old(self)@.locked_file is Some
                    &&& final(self)@ == old(self)@
                },
                SyncTarget::Unlocked(what, file) => {
                    &&& what == SyncKind::Data
                    &&& old(self)@.unlocked_file == Some(file)
                    &&& final(self)@ == old(self)@.begin_sync()
                    &&& final(self)@ == (LockView { unlocked_file: None, ..old(self)@ })
                },
            },
    {
        self.begin_sync(SyncKind::Data)
    }

    /// Chooses the file to sync, and hands it out if it is not locked.
    fn begin_sync(&mut self, kind: SyncKind) -> (target: SyncTarget<S>)
        requires
            old(self)@.wf(),
            old(self)@.unlocked_file is Some || old(self)@.locked_file is Some,
        ensures
            final(self)@.wf(),
            match target {
                SyncTarget::Locked(what) => {
                    &&& what == kind
                    &&& old(self)@.locked_file is Some
                    &&& final(self)@ == old(self)@
                },
                SyncTarget::Unlocked(what, file) => {
                    &&& what == kind
                    &&& old(self)@.unlocked_file == Some(file)
                    &&& final(self)@ == old(self)@.begin_sync()
                },
            },
    {
        if self.locked_file.is_some() {
            return SyncTarget::Locked(kind);
        }
        SyncTarget::Unlocked(kind, self.unlocked_file.take().unwrap())
    }

    /// Takes back the file that was handed out for a sync, and gives how the sync
    /// went.
    pub fn end_sync(&mut self, file: S, result: Result<(), E>) -> (synced: Result<(), E>)
        requires
            old(self)@.wf(),
            old(self)@.syncing(),
        ensures
            final(self)@.wf(),
            final(self)@ == old(self)@.end_sync(file),
            final(self)@ == (LockView { unlocked_file: Some(file), ..old(self)@ }),
            synced == result,
    {
        self.unlocked_file = Some(file);
        result
    }

    /// Gets a reference to the file.
    ///
    /// If the file is locked it is in the second element, otherwise in the first.
    /// It is in neither while a task has it.
    pub fn get_ref(&self) -> (files: (Option<&S>, Option<&T>))
        ensures
            match self@.unlocked_file {
                Some(file) => files.0 == Some(&file),
                None => files.0 is None,
            },
            match self@.locked_file {
                Some(file) => files.1 == Some(&file),
                None => files.1 is None,
            },
    {
        (self.unlocked_file.as_ref(), self.locked_file.as_ref())
    }

    /// Gets a mutable reference to the file.
    ///
    /// If the file is locked it is in the second element, otherwise in the first.
    /// It is in neither while a task has it.
    pub fn get_mut(&mut self) -> (files: (Option<&mut S>, Option<&mut T>))
        requires
            old(self)@.wf(),
        ensures
            files.0 is Some <==> old(self)@.unlocked_file is Some,
            files.0 matches Some(file) ==> *file == old(self)@.unlocked_file->0,
            files.1 is Some <==> old(self)@.locked_file is Some,
            files.1 matches Some(file) ==> *file == old(self)@.locked_file->0,
            final(self)@.wf(),
            final(self)@ == (LockView {
                unlocked_file: match files.0 {
                    Some(file) => Some(*final(file)),
                    None => None,
                },
                locked_file: match files.1 {
                    Some(file) => Some(*final(file)),
                    None => None,
                },
                ..old(self)@
            }),
    {
        (self.unlocked_file.as_mut(), self.locked_file.as_mut())
    }

    /// The file of a lock at rest, or nothing while an operation or a task is
    /// under way.
    pub fn open_file(&self) -> (shown: Option<OpenFile<'_, S, T>>)
        requires
            self@.wf(),
        ensures
            match (self@.state, self@.unlocked_file, self@.locked_file) {
                (State::Unlocked, Some(file), _) => shown == Some(OpenFile::<S, T>::Unlocked(&file)),
                (State::Locked, _, Some(file)) => shown == Some(OpenFile::<S, T>::Locked(&file)),
                _ => shown is None,
            },
    {
        match self.state {
            State::Unlocked => match &self.unlocked_file {
                Some(file) => Some(OpenFile::Unlocked(file)),
                None => None,
            },
            State::Locked => match &self.locked_file {
                Some(file) => Some(OpenFile::Locked(file)),
                None => None,
            },
            _ => None,
        }
    }

    /// Whether an event can be handed to a poll of an operation: it answers what the
    /// lock waits for in such a poll, and a first poll finds the file.
    pub fn accepts<R>(&self, operation: Operation, event: &Event<S, T, E, R>) -> (accepted: bool)
        requires
            self@.wf(),
        ensures
            accepted == self@.accepts(operation, *event),
    {
        match event {
            Event::Polled => match self.state {
                State::Unlocked => self.result.is_some() || self.locking.is_some()
                    || self.unlocked_file.is_some(),
                _ => true,
            },
            Event::Locking(_) => self.state == State::Locking,
            Event::Unlocking(_) => self.state == State::Unlocking,
            Event::SeekStarted(_) => self.state == State::Starting && self.mode
                != SeekFrom::Current(0) && self.suits(operation),
            Event::SeekCompleted(_) => self.state == State::Seeking && self.suits(operation),
            Event::Worked(_) => self.state == State::Working && self.suits(operation),
        }
    }

    /// Whether the lock that is held is good enough for an operation.
    fn suits(&self, operation: Operation) -> (suited: bool)
        requires
            self@.wf(),
            self@.locked_file is Some,
        ensures
            suited == self@.suits(operation, self@.held->0),
    {
        let kind = self.held.unwrap();
        self.is_manually_locked || kind == operation.kind() || kind == LockKind::Exclusive
    }

    /// Polls a write: the lock is taken for reading and writing.
    pub fn poll_write(&mut self, event: Event<S, T, E, usize>) -> (action: Action<S, T, E, usize>)
        requires
            old(self)@.wf(),
            old(self)@.accepts(Operation::Write, event),
        ensures
            final(self)@.wf(),
            (final(self)@, action) == old(self)@.step(Operation::Write, event),
            final(self)@.mode == old(self)@.mode,
            final(self)@.is_manually_locked == old(self)@.is_manually_locked,
            action == Action::<S, T, E, usize>::Return(Poll::Pending) <==> is_pending(event),
            match due(old(self)@, Operation::Write, event) {
                Some(result) => action == Action::<S, T, E, usize>::Return(Poll::Ready(result)),
                None => !(action matches Action::Return(Poll::Ready(_))),
            },
            action matches Action::StartSeek(to) ==> to == old(self)@.mode,
            action is SpawnUnlocking ==> !old(self)@.is_manually_locked,
            action matches Action::SpawnLocking(request) ==> request.kind == LockKind::Exclusive
                && request.wait,
    {
        self.poll_loop(Operation::Write, event)
    }

    /// Polls a flush: the lock is taken for reading and writing.
    pub fn poll_flush(&mut self, event: Event<S, T, E, ()>) -> (action: Action<S, T, E, ()>)
        requires
            old(self)@.wf(),
            old(self)@.accepts(Operation::Flush, event),
        ensures
            final(self)@.wf(),
            (final(self)@, action) == old(self)@.step(Operation::Flush, event),
            final(self)@.mode == old(self)@.mode,
            final(self)@.is_manually_locked == old(self)@.is_manually_locked,
            action == Action::<S, T, E, ()>::Return(Poll::Pending) <==> is_pending(event),
            match due(old(self)@, Operation::Flush, event) {
                Some(result) => action == Action::<S, T, E, ()>::Return(Poll::Ready(result)),
                None => !(action matches Action::Return(Poll::Ready(_))),
            },
            action matches Action::StartSeek(to) ==> to == old(self)@.mode,
            action is SpawnUnlocking ==> !old(self)@.is_manually_locked,
            action matches Action::SpawnLocking(request) ==> request.kind == LockKind::Exclusive
                && request.wait,
    {
        self.poll_loop(Operation::Flush, event)
    }

    /// Polls a shutdown, for which nothing has to be done: the file is unlocked
    /// as soon as an operation is through.
    pub fn poll_shutdown(&self) -> (done: Poll<Result<(), E>>)
        ensures
            done == Poll::Ready(Ok::<(), E>(())),
    {
        Poll::Ready(Ok(()))
    }

    /// Polls a read: the lock is taken for reading.
    pub fn poll_read(&mut self, event: Event<S, T, E, usize>) -> (action: Action<S, T, E, usize>)
        requires
            old(self)@.wf(),
            old(self)@.accepts(Operation::Read, event),
        ensures
            final(self)@.wf(),
            (final(self)@, action) == old(self)@.step(Operation::Read, event),
            final(self)@.mode == old(self)@.mode,
            final(self)@.is_manually_locked == old(self)@.is_manually_locked,
            action == Action::<S, T, E, usize>::Return(Poll::Pending) <==> is_pending(event),
            match due(old(self)@, Operation::Read, event) {
                Some(result) => action == Action::<S, T, E, usize>::Return(Poll::Ready(result)),
                None => !(action matches Action::Return(Poll::Ready(_))),
            },
            action matches Action::StartSeek(to) ==> to == old(self)@.mode,
            action is SpawnUnlocking ==> !old(self)@.is_manually_locked,
            action matches Action::SpawnLocking(request) ==> request.kind == LockKind::Shared
                && request.wait,
    {
        self.poll_loop(Operation::Read, event)
    }

    /// Starts a seek: in the locked file, or in a task that gets the unlocked one.
    /// An operation that was left after its own seek will seek anew.
    pub fn start_seek(&mut self, position: SeekFrom) -> (start: SeekStart<S>)
        requires
            old(self)@.wf(),
            old(self)@.unlocked_file is Some || old(self)@.locked_file is Some,
        ensures
            final(self)@.wf(),
            match start {
                SeekStart::Locked(to) => {
                    &&& old(self)@.locked_file is Some
                    &&& to == position
                    &&& final(self)@ == old(self)@.forget_seek()
                    &&& final(self)@ == (LockView { state: final(self)@.state, ..old(self)@ })
                    &&& final(self)@.state == if old(self)@.state is Seeking
                        || old(self)@.state is Working {
                        State::Starting
                    } else {
                        old(self)@.state
                    }
                },
                SeekStart::Unlocked(file, to) => {
                    &&& old(self)@.unlocked_file == Some(file)
                    &&& to == position
                    &&& final(self)@ == old(self)@.begin_seek()
                    &&& final(self)@ == (LockView {
                        unlocked_file: None,
                        seeking: true,
                        ..old(self)@
                    })
                },
            },
    {
        if self.locked_file.is_some() {
            self.forget_seek();
            return SeekStart::Locked(position);
        }
        self.seeking = true;
        SeekStart::Unlocked(self.unlocked_file.take().unwrap(), position)
    }

    /// Whom to ask for the end of a seek. What the seeking task answers goes to
    /// [`Self::end_seek`].
    pub fn poll_complete(&self) -> (source: SeekSource)
        requires
            self@.wf(),
            self@.locked_file is Some || self@.seeking,
        ensures
            self@.locked_file is Some ==> source == SeekSource::Locked,
            self@.seeking ==> source == SeekSource::Task,
    {
        if self.locked_file.is_some() {
            SeekSource::Locked
        } else {
            SeekSource::Task
        }
    }

    /// Takes what polling the seeking task gave: how the seek went and the file.
    pub fn end_seek(&mut self, polled: Poll<(Result<u64, E>, S)>) -> (sought: Poll<Result<u64, E>>)
        requires
            old(self)@.wf(),
            old(self)@.seeking,
        ensures
            final(self)@.wf(),
            match polled {
                Poll::Pending => {
                    &&& sought == Poll::<Result<u64, E>>::Pending
                    &&& final(self)@ == old(self)@
                },
                Poll::Ready((result, file)) => {
                    &&& sought == Poll::Ready(result)
                    &&& final(self)@ == old(self)@.end_seek(file)
                    &&& final(self)@ == (LockView {
                        unlocked_file: Some(file),
                        seeking: false,
                        ..old(self)@
                    })
                },
            },
    {
        match polled {
            Poll::Ready((result, file)) => {
                self.seeking = false;
                self.unlocked_file = Some(file);
                Poll::Ready(result)
            },
            Poll::Pending => Poll::Pending,
        }
    }

    /// Hands the unlocked file out for a lock of the given kind.
    pub(crate) fn begin_locking(&mut self, kind: LockKind) -> (file: S)
        requires
            old(self)@.unlocked_file is Some,
        ensures
            Some(file) == old(self)@.unlocked_file,
            final(self)@ == old(self)@.begin_locking(kind),
    {
        self.locking = Some(kind);
        self.unlocked_file.take().unwrap()
    }

    /// Takes the file back that was handed out to be locked.
    fn end_locking(&mut self, outcome: Result<T, (S, E)>) -> (locked: Result<(), E>)
        requires
            old(self)@.wf(),
            old(self)@.locking is Some,
        ensures
            final(self)@.wf(),
            final(self)@ == old(self)@.end_locking(outcome),
            match outcome {
                Ok(_) => locked == Ok::<(), E>(()),
                Err((_, e)) => locked == Err::<(), E>(e),
            },
    {
        let kind = self.locking.take();
        match outcome {
            Ok(file) => {
                self.locked_file = Some(file);
                self.held = kind;
                self.state = State::Locked;
                Ok(())
            },
            Err((file, e)) => {
                self.unlocked_file = Some(file);
                self.state = State::Unlocked;
                Err(e)
            },
        }
    }

    /// Hands the locked file out to be unlocked.
    pub(crate) fn begin_unlocking(&mut self) -> (file: T)
        requires
            old(self)@.locked_file is Some,
        ensures
            Some(file) == old(self)@.locked_file,
            final(self)@ == old(self)@.begin_unlocking(),
    {
        self.unlocking = true;
        self.held = None;
        self.state = State::Unlocking;
        self.locked_file.take().unwrap()
    }

    /// Takes what polling the locking task gave.
    pub(crate) fn poll_locking_fut(&mut self, polled: Poll<Result<T, (S, E)>>) -> (locked: Poll<
        Result<(), E>,
    >)
        requires
            old(self)@.wf(),
            old(self)@.locking is Some,
        ensures
            final(self)@.wf(),
            match polled {
                Poll::Pending => {
                    &&& locked == Poll::<Result<(), E>>::Pending
                    &&& final(self)@ == old(self)@
                },
                Poll::Ready(Ok(file)) => {
                    &&& locked == Poll::Ready(Ok::<(), E>(()))
                    &&& final(self)@ == old(self)@.end_locking(Ok(file))
                },
                Poll::Ready(Err((file, e))) => {
                    &&& locked == Poll::Ready(Err::<(), E>(e))
                    &&& final(self)@ == old(self)@.end_locking(Err((file, e)))
                },
            },
    {
        match polled {
            Poll::Ready(outcome) => Poll::Ready(self.end_locking(outcome)),
            Poll::Pending => Poll::Pending,
        }
    }

    /// Takes what polling the unlocking task gave. A failure to unlock is kept
    /// for the next operation to return.
    pub(crate) fn poll_unlock(&mut self, polled: Poll<(S, Result<(), E>)>) -> (unlocked: Poll<()>)
        requires
            old(self)@.wf(),
            old(self)@.unlocking,
        ensures
            !(old(self)@.result matches Some(Kept::Ended(_, _))) ==> final(self)@.wf(),
            match polled {
                Poll::Pending => {
                    &&& unlocked == Poll::<()>::Pending
                    &&& final(self)@ == old(self)@
                },
                Poll::Ready((file, outcome)) => {
                    &&& unlocked == Poll::Ready(())
                    &&& final(self)@ == old(self)@.end_unlocking(file, outcome)
                },
            },
    {
        let (file, result) = match polled {
            Poll::Ready(ready) => ready,
            Poll::Pending => return Poll::Pending,
        };
        self.unlocked_file = Some(file);
        if let Err(e) = result {
            self.result = Some(Kept::UnlockFailure(e));
        }
        self.state = State::Unlocked;
        self.unlocking = false;
        Poll::Ready(())
    }

    /// Ends an operation: at once if the lock was taken by hand, otherwise once the
    /// lock is given up.
    fn finish<R: Outcome>(&mut self, operation: Operation, worked: Result<R, E>) -> (action: Action<
        S,
        T,
        E,
        R,
    >)
        requires
            old(self)@.wf(),
            old(self)@.locked_file is Some,
        ensures
            final(self)@.wf(),
            (final(self)@, action) == old(self)@.finish(operation, worked),
    {
        if self.is_manually_locked {
            self.state = State::Locked;
            return Action::Return(Poll::Ready(worked));
        }
        let outcome = match worked {
            Ok(outcome) => {
                proof {
                    outcome.lemma_count();
                }
                Ok(outcome.into_count())
            },
            Err(e) => Err(e),
        };
        self.result = Some(Kept::Ended(operation, outcome));
        Action::SpawnUnlocking(self.begin_unlocking())
    }

    /// Runs an operation from one event to what it has to do next.
    fn poll_loop<R: Outcome>(&mut self, operation: Operation, event: Event<S, T, E, R>) -> (action:
        Action<S, T, E, R>)
        requires
            old(self)@.wf(),
            old(self)@.accepts(operation, event),
        ensures
            final(self)@.wf(),
            (final(self)@, action) == old(self)@.step(operation, event),
    {
        match event {
            Event::Polled => {},
            Event::Locking(polled) => match self.poll_locking_fut(polled) {
                Poll::Pending => return Action::Return(Poll::Pending),
                Poll::Ready(Err(e)) => return Action::Return(Poll::Ready(Err(e))),
                Poll::Ready(Ok(())) => {},
            },
            Event::Unlocking(polled) => match self.poll_unlock(polled) {
                Poll::Pending => return Action::Return(Poll::Pending),
                Poll::Ready(()) => {},
            },
            // The operation has to work where the seeking mode says, so it goes on only
            // once the file has taken the seek.
            Event::SeekStarted(started) => match started {
                Poll::Pending => return Action::Return(Poll::Pending),
                Poll::Ready(Err(e)) => return self.finish(operation, Err(e)),
                Poll::Ready(Ok(())) => self.state = State::Seeking,
            },
            Event::SeekCompleted(completed) => match completed {
                Poll::Pending => return Action::Return(Poll::Pending),
                Poll::Ready(Err(e)) => return self.finish(operation, Err(e)),
                Poll::Ready(Ok(_)) => self.state = State::Working,
            },
            Event::Worked(worked) => match worked {
                Poll::Pending => return Action::Return(Poll::Pending),
                Poll::Ready(result) => return self.finish(operation, result),
            },
        }
        match self.state {
            State::Unlocked => {
                match self.result.take() {
                    Some(Kept::UnlockFailure(e)) => return Action::Return(Poll::Ready(Err(e))),
                    Some(Kept::Ended(of, outcome)) => if of == operation {
                        return Action::Return(
                            Poll::Ready(
                                match outcome {
                                    Ok(n) => Ok(R::from_count(n)),
                                    Err(e) => Err(e),
                                },
                            ),
                        );
                    },
                    None => {},
                }
                self.state = State::Locking;
                if self.locking.is_some() {
                    Action::PollLocking
                } else {
                    let kind = operation.kind();
                    let file = self.begin_locking(kind);
                    Action::SpawnLocking(LockRequest { kind, wait: true, file })
                }
            },
            State::Locking => Action::PollLocking,
            State::Unlocking => Action::PollUnlocking,
            // Another operation may have left a lock behind that this one cannot use.
            _ => if !self.suits(operation) {
                Action::SpawnUnlocking(self.begin_unlocking())
            } else {
                self.next_under_lock()
            },
        }
    }

    /// What an operation has to do next under a lock that suits it.
    fn next_under_lock<R>(&mut self) -> (action: Action<S, T, E, R>)
        requires
            old(self)@.wf(),
            old(self)@.locked_file is Some,
        ensures
            final(self)@.wf(),
            match old(self)@.state {
                State::Seeking => {
                    &&& action == Action::<S, T, E, R>::PollSeek
                    &&& final(self)@ == old(self)@
                },
                State::Working => {
                    &&& action == Action::<S, T, E, R>::Work
                    &&& final(self)@ == old(self)@
                },
                _ => if old(self)@.mode == SeekFrom::Current(0) {
                    &&& action == Action::<S, T, E, R>::Work
                    &&& final(self)@ == (LockView { state: State::Working, ..old(self)@ })
                } else {
                    &&& action == Action::<S, T, E, R>::StartSeek(old(self)@.mode)
                    &&& final(self)@ == (LockView { state: State::Starting, ..old(self)@ })
                },
            },
    {
        match self.state {
            State::Seeking => Action::PollSeek,
            State::Working => Action::Work,
            _ => match self.mode {
                SeekFrom::Current(0) => {
                    self.state = State::Working;
                    Action::Work
                },
                mode => {
                    self.state = State::Starting;
                    Action::StartSeek(mode)
                },
            },
        }
    }
}

} // verus!
