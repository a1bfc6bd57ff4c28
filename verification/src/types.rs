//! The values that a [`FileLock`](crate::FileLock) exchanges with its driver.
use vstd::prelude::*;

verus! {

/// A position in a file, as a seek takes it.
#[derive(Clone, Copy, Debug, PartialEq, Eq, Structural)]
pub enum SeekFrom {
    /// This many bytes after the start.
    Start(u64),
    /// This many bytes after the end, or before it.
    End(i64),
    /// This many bytes after the cursor, or before it.
    Current(i64),
}

/// Where a lock stands between two steps.
#[derive(Clone, Copy, Debug, PartialEq, Eq, Structural)]
pub enum State {
    /// No lock is held and no operation has asked for one.
    Unlocked,
    /// The lock is being given up.
    Unlocking,
    /// The lock is held and no operation is under way.
    Locked,
    /// An operation waits for the lock.
    Locking,
    /// An operation holds the lock and has yet to start its seek.
    Starting,
    /// An operation holds the lock and waits for its seek.
    Seeking,
    /// An operation holds the lock and works on the file.
    Working,
}

/// Who may hold a lock at the same time.
#[derive(Clone, Copy, Debug, PartialEq, Eq, Structural)]
pub enum LockKind {
    /// One holder, who reads and writes.
    Exclusive,
    /// Any number of holders, who read.
    Shared,
}

/// What is done to a file under a lock.
#[derive(Clone, Copy, Debug, PartialEq, Eq, Structural)]
pub enum Operation {
    /// Bytes are written.
    Write,
    /// Bytes that were written are pushed out.
    Flush,
    /// Bytes are read.
    Read,
}

impl Operation {
    /// The kind of lock that the operation takes.
    pub open spec fn spec_kind(self) -> LockKind {
        match self {
            Operation::Read => LockKind::Shared,
            _ => LockKind::Exclusive,
        }
    }

    /// The kind of lock that the operation takes: a shared one to read, an
    /// exclusive one to write or to flush.
    #[verifier::when_used_as_spec(spec_kind)]
    pub fn kind(self) -> (kind: LockKind)
        ensures
            kind == self.kind(),
    {
        match self {
            Operation::Read => LockKind::Shared,
            _ => LockKind::Exclusive,
        }
    }
}

/// What a lock keeps to return from a poll once its file is unlocked.
#[derive(Debug, PartialEq, Eq)]
pub enum Kept<E> {
    /// How an operation ended. It is for that operation alone.
    Ended(Operation, Result<u64, E>),
    /// Why the file could not be unlocked. It is for any operation.
    UnlockFailure(E),
}

/// What asking for a value gave.
#[derive(Debug, PartialEq, Eq)]
pub enum Poll<R> {
    /// The value is here.
    Ready(R),
    /// The value is not here yet; the asking task will be woken.
    Pending,
}

/// A lock to be taken on a file.
#[derive(Debug, PartialEq, Eq)]
pub struct LockRequest<S> {
    /// The kind of lock.
    pub kind: LockKind,
    /// Whether to wait until other holders have gone, or to fail at once.
    pub wait: bool,
    /// The file to lock.
    pub file: S,
}

/// What a driver tells a lock while an operation is polled.
///
/// `S` is an unlocked file, `T` a locked one, `E` an error and `R` what the
/// operation yields.
#[derive(Debug, PartialEq, Eq)]
pub enum Event<S, T, E, R> {
    /// The operation is polled, for the first time or again.
    Polled,
    /// The locking task was polled. It yields the locked file, or the file as it
    /// was and why it could not be locked.
    Locking(Poll<Result<T, (S, E)>>),
    /// The unlocking task was polled. It yields the file and whether giving up
    /// its lock went well.
    Unlocking(Poll<(S, Result<(), E>)>),
    /// The locked file was told to seek.
    SeekStarted(Poll<Result<(), E>>),
    /// The locked file was asked for the end of its seek.
    SeekCompleted(Poll<Result<u64, E>>),
    /// The locked file was told to do the operation's work.
    Worked(Poll<Result<R, E>>),
}

/// What a lock wants done while an operation is polled.
///
/// The parameters are those of [`Event`].
#[derive(Debug, PartialEq, Eq)]
pub enum Action<S, T, E, R> {
    /// Start a task that takes this lock, then poll it.
    SpawnLocking(LockRequest<S>),
    /// Poll the locking task.
    PollLocking,
    /// Start a task that finishes what this file has in hand and then gives up
    /// its lock, then poll it.
    SpawnUnlocking(T),
    /// Poll the unlocking task.
    PollUnlocking,
    /// Tell the locked file to seek.
    StartSeek(SeekFrom),
    /// Ask the locked file for the end of its seek.
    PollSeek,
    /// Tell the locked file to do the operation's work.
    Work,
    /// Return this from the poll.
    Return(Poll<Result<R, E>>),
}

/// What a sync brings to disk.
#[derive(Clone, Copy, Debug, PartialEq, Eq, Structural)]
pub enum SyncKind {
    /// The file's data and all its metadata.
    All,
    /// The file's data, and metadata only as far as the data needs it.
    Data,
}

/// What to sync, and in which file.
#[derive(Debug, PartialEq, Eq)]
pub enum SyncTarget<S> {
    /// The locked file, in its place.
    Locked(SyncKind),
    /// This file, which then goes back to the lock.
    Unlocked(SyncKind, S),
}

/// How to start a seek.
#[derive(Debug, PartialEq, Eq)]
pub enum SeekStart<S> {
    /// Tell the locked file to seek there and return what it answers.
    Locked(SeekFrom),
    /// Start a task that seeks there in this file; the seek counts as started.
    Unlocked(S, SeekFrom),
}

/// Whom to ask for the end of a seek.
#[derive(Clone, Copy, Debug, PartialEq, Eq, Structural)]
pub enum SeekSource {
    /// The locked file.
    Locked,
    /// The seeking task.
    Task,
}

/// The file of a lock that is at rest.
#[derive(Debug, PartialEq, Eq)]
pub enum OpenFile<'a, S, T> {
    /// No lock is held.
    Unlocked(&'a S),
    /// The lock is held.
    Locked(&'a T),
}

/// What an operation yields, in a form that can be kept until the file is
/// unlocked.
pub trait Outcome: Sized {
    /// The number that stands for this outcome.
    spec fn count(self) -> u64;

    /// The outcome that a number stands for.
    spec fn of_count(n: u64) -> Self;

    /// The number that stands for this outcome.
    fn into_count(self) -> (n: u64)
        ensures
            n == self.count(),
    ;

    /// The outcome that a number stands for.
    fn from_count(n: u64) -> (outcome: Self)
        ensures
            outcome == Self::of_count(n),
    ;

    /// An outcome comes back from its number, which fits a length.
    proof fn lemma_count(self)
        ensures
            Self::of_count(self.count()) == self,
            self.count() <= usize::MAX,
    ;
}

/// A number of bytes read or written.
impl Outcome for usize {
    open spec fn count(self) -> u64 {
        self as u64
    }

    open spec fn of_count(n: u64) -> usize {
        n as usize
    }

    fn into_count(self) -> (n: u64) {
        self as u64
    }

    fn from_count(n: u64) -> (outcome: usize) {
        n as usize
    }

    proof fn lemma_count(self) {
    }
}

/// The end of an operation that counts nothing.
impl Outcome for () {
    open spec fn count(self) -> u64 {
        0
    }

    open spec fn of_count(n: u64) -> () {
        ()
    }

    fn into_count(self) -> (n: u64) {
        0
    }

    fn from_count(n: u64) -> (outcome: ()) {
    }

    proof fn lemma_count(self) {
    }
}

} // verus!
