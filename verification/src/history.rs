//! What holds over a whole history of calls on one lock.
use vstd::prelude::*;
use crate::laws::{
    ends_operation, manual_lock_stays, operation_keeps_file, operation_keeps_settings,
};
use crate::model::LockView;
use crate::types::{Action, Event, Kept, LockKind, Operation, Outcome, Poll, SeekFrom};

verus! {

/// One call on a lock, with what its driver reports in it.
pub enum Call<S, T, E> {
    /// A write took an event.
    Write(Event<S, T, E, usize>),
    /// A flush took an event.
    Flush(Event<S, T, E, ()>),
    /// A read took an event.
    Read(Event<S, T, E, usize>),
    /// A lock of this kind was asked for by hand, with or without waiting.
    Lock(LockKind),
    /// The lock that was asked for by hand was taken or refused.
    EndLock(Result<T, (S, E)>),
    /// The lock was given up by hand.
    Unlock,
    /// The unlocking by hand came to its end.
    EndUnlock(S, Result<(), E>),
    /// A seek was started by hand.
    StartSeek(SeekFrom),
    /// The seek in the unlocked file came to its end.
    EndSeek(S),
    /// A sync was started.
    Sync,
    /// The sync of the unlocked file came to its end.
    EndSync(S),
    /// The seeking mode was set.
    SetSeekingMode(SeekFrom),
}

impl<S, T, E> Call<S, T, E> {
    /// Whether the call can be made on a lock.
    pub open spec fn allowed(self, s: LockView<S, T, E>) -> bool {
        match self {
            Call::Write(event) => s.accepts(Operation::Write, event),
            Call::Flush(event) => s.accepts(Operation::Flush, event),
            Call::Read(event) => s.accepts(Operation::Read, event),
            Call::Lock(_) => s.unlocked_file is Some,
            Call::EndLock(_) => s.locking is Some,
            Call::Unlock => s.locked_file is Some,
            Call::EndUnlock(_, _) => s.unlocking && !(s.result matches Some(
                Kept::Ended(_, _),
            )),
            Call::StartSeek(_) => s.unlocked_file is Some || s.locked_file is Some,
            Call::EndSeek(_) => s.seeking,
            Call::Sync => s.unlocked_file is Some || s.locked_file is Some,
            Call::EndSync(_) => s.syncing(),
            Call::SetSeekingMode(_) => true,
        }
    }

    /// The lock after the call.
    pub open spec fn apply(self, s: LockView<S, T, E>) -> LockView<S, T, E> {
        match self {
            Call::Write(event) => s.step(Operation::Write, event).0,
            Call::Flush(event) => s.step(Operation::Flush, event).0,
            Call::Read(event) => s.step(Operation::Read, event).0,
            Call::Lock(kind) => s.lock_by_hand(kind),
            Call::EndLock(outcome) => s.end_locking(outcome),
            Call::Unlock => s.unlock_by_hand(),
            Call::EndUnlock(file, outcome) => s.end_unlocking(file, outcome),
            Call::StartSeek(_) => if s.locked_file is Some {
                s.forget_seek()
            } else {
                s.begin_seek()
            },
            Call::EndSeek(file) => s.end_seek(file),
            Call::Sync => if s.locked_file is Some {
                s
            } else {
                s.begin_sync()
            },
            Call::EndSync(file) => s.end_sync(file),
            Call::SetSeekingMode(mode) => LockView { mode, ..s.forget_seek() },
        }
    }

    /// Whether the call asks for an operation's work on the file.
    pub open spec fn asks_for_work(self, s: LockView<S, T, E>) -> bool {
        match self {
            Call::Write(event) => s.step(Operation::Write, event).1 is Work,
            Call::Flush(event) => s.step(Operation::Flush, event).1 is Work,
            Call::Read(event) => s.step(Operation::Read, event).1 is Work,
            _ => false,
        }
    }

    /// Whether the call hands the file of an operation out to be unlocked.
    pub open spec fn asks_for_unlock(self, s: LockView<S, T, E>) -> bool {
        match self {
            Call::Write(event) => s.step(Operation::Write, event).1 is SpawnUnlocking,
            Call::Flush(event) => s.step(Operation::Flush, event).1 is SpawnUnlocking,
            Call::Read(event) => s.step(Operation::Read, event).1 is SpawnUnlocking,
            _ => false,
        }
    }

    /// Whether the call gives the lock up, by hand or after an operation's work.
    pub open spec fn gives_up(self, s: LockView<S, T, E>) -> bool {
        self is Unlock || self.asks_for_unlock(s)
    }

    /// The kind of lock that the call asks for, if it asks for one.
    pub open spec fn asks_for_lock(self, s: LockView<S, T, E>) -> Option<LockKind> {
        match self {
            Call::Write(event) => match s.step(Operation::Write, event).1 {
                Action::SpawnLocking(request) => Some(request.kind),
                _ => None,
            },
            Call::Flush(event) => match s.step(Operation::Flush, event).1 {
                Action::SpawnLocking(request) => Some(request.kind),
                _ => None,
            },
            Call::Read(event) => match s.step(Operation::Read, event).1 {
                Action::SpawnLocking(request) => Some(request.kind),
                _ => None,
            },
            Call::Lock(kind) => Some(kind),
            _ => None,
        }
    }

    /// The kind of lock that the call asks for whenever it asks for one.
    pub open spec fn lock_kind(self) -> Option<LockKind> {
        match self {
            Call::Write(_) => Some(LockKind::Exclusive),
            Call::Flush(_) => Some(LockKind::Exclusive),
            Call::Read(_) => Some(LockKind::Shared),
            Call::Lock(kind) => Some(kind),
            _ => None,
        }
    }

    /// Whether the call reports that a lock was taken.
    pub open spec fn lock_taken(self) -> bool {
        match self {
            Call::Write(event) => event matches Event::Locking(Poll::Ready(Ok(_))),
            Call::Flush(event) => event matches Event::Locking(Poll::Ready(Ok(_))),
            Call::Read(event) => event matches Event::Locking(Poll::Ready(Ok(_))),
            Call::EndLock(outcome) => outcome is Ok,
            _ => false,
        }
    }

    /// Whether the call reports that the file has started to seek for an operation.
    pub open spec fn seek_started(self) -> bool {
        match self {
            Call::Write(event) => event matches Event::SeekStarted(Poll::Ready(Ok(_))),
            Call::Flush(event) => event matches Event::SeekStarted(Poll::Ready(Ok(_))),
            Call::Read(event) => event matches Event::SeekStarted(Poll::Ready(Ok(_))),
            _ => false,
        }
    }

    /// Whether the call reports that the file has sought for an operation.
    pub open spec fn seek_completed(self) -> bool {
        match self {
            Call::Write(event) => event matches Event::SeekCompleted(Poll::Ready(Ok(_))),
            Call::Flush(event) => event matches Event::SeekCompleted(Poll::Ready(Ok(_))),
            Call::Read(event) => event matches Event::SeekCompleted(Poll::Ready(Ok(_))),
            _ => false,
        }
    }

    /// Whether the cursor may have moved since: an operation's work was done, or a
    /// seek was started by hand.
    pub open spec fn moves_cursor(self) -> bool {
        match self {
            Call::Write(event) => event matches Event::Worked(Poll::Ready(_)),
            Call::Flush(event) => event matches Event::Worked(Poll::Ready(_)),
            Call::Read(event) => event matches Event::Worked(Poll::Ready(_)),
            Call::StartSeek(_) => true,
            _ => false,
        }
    }

    /// Where the call asks the file to seek for an operation, if it asks for that.
    pub open spec fn asks_for_seek(self, s: LockView<S, T, E>) -> Option<SeekFrom> {
        match self {
            Call::Write(event) => match s.step(Operation::Write, event).1 {
                Action::StartSeek(to) => Some(to),
                _ => None,
            },
            Call::Flush(event) => match s.step(Operation::Flush, event).1 {
                Action::StartSeek(to) => Some(to),
                _ => None,
            },
            Call::Read(event) => match s.step(Operation::Read, event).1 {
                Action::StartSeek(to) => Some(to),
                _ => None,
            },
            _ => None,
        }
    }

    /// Whether the call is one of an operation.
    pub open spec fn is_operation(self) -> bool {
        self is Write || self is Flush || self is Read
    }

    /// Whether the call does not end the operation under way: the operation itself
    /// does not return, or the call is not about locking.
    pub open spec fn leaves_under_way(self, s: LockView<S, T, E>) -> bool {
        match self {
            Call::Write(event) => !ends_operation(s.step(Operation::Write, event).1),
            Call::Flush(event) => !ends_operation(s.step(Operation::Flush, event).1),
            Call::Read(event) => !ends_operation(s.step(Operation::Read, event).1),
            Call::StartSeek(_) => true,
            Call::Sync => true,
            Call::SetSeekingMode(_) => true,
            _ => false,
        }
    }
}

/// The lock after the first `n` calls.
pub open spec fn at<S, T, E>(s: LockView<S, T, E>, calls: Seq<Call<S, T, E>>, n: int) -> LockView<
    S,
    T,
    E,
>
    decreases n,
{
    if n <= 0 {
        s
    } else {
        calls[n - 1].apply(at(s, calls, n - 1))
    }
}

/// Whether every call can be made when it comes.
pub open spec fn is_history<S, T, E>(s: LockView<S, T, E>, calls: Seq<Call<S, T, E>>) -> bool {
    forall|i: int| 0 <= i < calls.len() ==> #[trigger] calls[i].allowed(at(s, calls, i))
}

/// One call keeps the lock well formed.
proof fn lemma_call_keeps_wf<S, T, E>(s: LockView<S, T, E>, call: Call<S, T, E>)
    requires
        s.wf(),
        call.allowed(s),
    ensures
        call.apply(s).wf(),
{
    match call {
        Call::Write(event) => operation_keeps_file(s, Operation::Write, event),
        Call::Flush(event) => operation_keeps_file(s, Operation::Flush, event),
        Call::Read(event) => operation_keeps_file(s, Operation::Read, event),
        _ => {},
    }
}

/// A lock is well formed after any history of calls: its file is in one place, as
/// [`file_is_in_one_place`](crate::laws::file_is_in_one_place) has it.
pub proof fn history_keeps_wf<S, T, E>(s: LockView<S, T, E>, calls: Seq<Call<S, T, E>>, n: int)
    requires
        s.wf(),
        is_history(s, calls),
        0 <= n <= calls.len(),
    ensures
        at(s, calls, n).wf(),
    decreases n,
{
    if n > 0 {
        history_keeps_wf(s, calls, n - 1);
        assert(calls[n - 1].allowed(at(s, calls, n - 1)));
        lemma_call_keeps_wf(at(s, calls, n - 1), calls[n - 1]);
    }
}

/// One call other than an unlock keeps a lock that was taken by hand.
proof fn lemma_call_keeps_manual_lock<S, T, E>(s: LockView<S, T, E>, call: Call<S, T, E>)
    requires
        s.wf(),
        s.is_manually_locked,
        s.locked_file is Some,
        call.allowed(s),
        call !is Unlock,
    ensures
        call.apply(s).is_manually_locked,
        call.apply(s).locked_file == s.locked_file,
        !call.asks_for_unlock(s),
        call.asks_for_lock(s) is None,
{
    match call {
        Call::Write(event) => manual_lock_stays(s, Operation::Write, event),
        Call::Flush(event) => manual_lock_stays(s, Operation::Flush, event),
        Call::Read(event) => manual_lock_stays(s, Operation::Read, event),
        _ => {},
    }
}

/// A lock that was taken by hand stays until it is given up by hand: through any
/// history without an unlock the file stays locked, and no operation asks for it
/// to be unlocked or locked anew.
pub proof fn manual_lock_stays_until_unlock<S, T, E>(
    s: LockView<S, T, E>,
    calls: Seq<Call<S, T, E>>,
    n: int,
)
    requires
        s.wf(),
        s.is_manually_locked,
        s.locked_file is Some,
        is_history(s, calls),
        forall|i: int| 0 <= i < calls.len() ==> (#[trigger] calls[i]) !is Unlock,
        0 <= n <= calls.len(),
    ensures
        at(s, calls, n).is_manually_locked,
        at(s, calls, n).locked_file == s.locked_file,
        n < calls.len() ==> !calls[n].asks_for_unlock(at(s, calls, n)),
        n < calls.len() ==> calls[n].asks_for_lock(at(s, calls, n)) is None,
    decreases n,
{
    if n > 0 {
        manual_lock_stays_until_unlock(s, calls, n - 1);
        history_keeps_wf(s, calls, n - 1);
        assert(calls[n - 1].allowed(at(s, calls, n - 1)));
        lemma_call_keeps_manual_lock(at(s, calls, n - 1), calls[n - 1]);
    }
    if n < calls.len() {
        history_keeps_wf(s, calls, n);
        assert(calls[n].allowed(at(s, calls, n)));
        lemma_call_keeps_manual_lock(at(s, calls, n), calls[n]);
    }
}

/// One event comes to seek from a seek that was started, and to work from a
/// completed seek or, if the seeking mode leaves the cursor where it is, at once.
proof fn lemma_event_comes_to_work<S, T, E, R: Outcome>(
    s: LockView<S, T, E>,
    operation: Operation,
    event: Event<S, T, E, R>,
)
    requires
        s.wf(),
        s.accepts(operation, event),
    ensures
        s.step(operation, event).0.mode == s.mode,
        s.step(operation, event).0.state is Seeking ==> {
            ||| s.state is Seeking
            ||| s.state is Starting && event matches Event::SeekStarted(Poll::Ready(Ok(_)))
        },
        s.step(operation, event).0.state is Working ==> {
            ||| s.state is Working
            ||| s.state is Seeking && event matches Event::SeekCompleted(Poll::Ready(Ok(_)))
            ||| s.mode == SeekFrom::Current(0)
        },
        s.step(operation, event).1 is Work ==> s.step(operation, event).0.state is Working,
        s.step(operation, event).0.past_seek() ==> !(event matches Event::Worked(Poll::Ready(_))),
        s.step(operation, event).0.state is Seeking || s.step(operation, event).0.state is Working
            && s.mode != SeekFrom::Current(0) ==> {
            &&& s.locked_file is Some
            &&& s.step(operation, event).0.locked_file == s.locked_file
            &&& s.step(operation, event).0.held == s.held
        },
{
}

/// One call comes to seek from a seek that was started, and to work from a
/// completed seek or, if the seeking mode leaves the cursor where it is, at once.
proof fn lemma_call_comes_to_work<S, T, E>(s: LockView<S, T, E>, call: Call<S, T, E>)
    requires
        s.wf(),
        call.allowed(s),
    ensures
        call.apply(s).past_seek() ==> {
            &&& call.apply(s).mode == s.mode
            &&& !call.moves_cursor()
        },
        call.apply(s).state is Seeking || call.apply(s).state is Working && s.mode
            != SeekFrom::Current(0) ==> {
            &&& s.locked_file is Some
            &&& call.apply(s).locked_file == s.locked_file
            &&& call.apply(s).held == s.held
        },
        call.apply(s).state is Seeking ==> {
            ||| s.state is Seeking
            ||| s.state is Starting && call.seek_started()
        },
        call.apply(s).state is Working ==> {
            ||| s.state is Working
            ||| s.state is Seeking && call.seek_completed()
            ||| s.mode == SeekFrom::Current(0)
        },
        call.asks_for_work(s) ==> call.apply(s).state is Working,
{
    match call {
        Call::Write(event) => lemma_event_comes_to_work(s, Operation::Write, event),
        Call::Flush(event) => lemma_event_comes_to_work(s, Operation::Flush, event),
        Call::Read(event) => lemma_event_comes_to_work(s, Operation::Read, event),
        _ => {},
    }
}

/// Whether the lock that was held before call `i` is still held before call `k`: the
/// same file is locked, by a lock of the same kind.
pub open spec fn holds_lock<S, T, E>(
    s: LockView<S, T, E>,
    calls: Seq<Call<S, T, E>>,
    i: int,
    k: int,
) -> bool {
    &&& at(s, calls, k).locked_file is Some
    &&& at(s, calls, k).locked_file == at(s, calls, i).locked_file
    &&& at(s, calls, k).held == at(s, calls, i).held
}

/// Whether call `i` started a seek to a location for an operation and, among the
/// first `n` calls, nothing has moved the cursor since and the lock was held all the
/// while.
pub open spec fn sought_since<S, T, E>(
    s: LockView<S, T, E>,
    calls: Seq<Call<S, T, E>>,
    to: SeekFrom,
    i: int,
    n: int,
) -> bool {
    &&& 0 <= i < n
    &&& calls[i].seek_started()
    &&& at(s, calls, i).state is Starting
    &&& at(s, calls, i).mode == to
    &&& forall|k: int| i < k < n ==> !(#[trigger] calls[k]).moves_cursor()
    &&& forall|k: int| i < k <= n ==> #[trigger] holds_lock(s, calls, i, k)
}

/// The seeks so far: an operation that waits for its seek has started one to the
/// seeking mode, and one that works has completed it.
proof fn lemma_seeks<S, T, E>(s: LockView<S, T, E>, calls: Seq<Call<S, T, E>>, n: int) -> (seek: (
    int,
    int,
))
    requires
        s.wf(),
        !s.past_seek(),
        is_history(s, calls),
        0 <= n <= calls.len(),
    ensures
        at(s, calls, n).state is Seeking ==> sought_since(
            s,
            calls,
            at(s, calls, n).mode,
            seek.0,
            n,
        ),
        at(s, calls, n).state is Working && at(s, calls, n).mode != SeekFrom::Current(0) ==> {
            &&& sought_since(s, calls, at(s, calls, n).mode, seek.0, n)
            &&& seek.0 < seek.1 < n
            &&& calls[seek.1].seek_completed()
        },
    decreases n,
{
    if n == 0 {
        (0, 0)
    } else {
        let before = at(s, calls, n - 1);
        let call = calls[n - 1];
        let seek = lemma_seeks(s, calls, n - 1);
        history_keeps_wf(s, calls, n - 1);
        assert(call.allowed(before));
        lemma_call_comes_to_work(before, call);
        assert(holds_lock(s, calls, seek.0, n - 1) && holds_lock(s, calls, n - 1, n) ==> holds_lock(
            s,
            calls,
            seek.0,
            n,
        ));
        if before.state is Starting && at(s, calls, n).state is Seeking {
            assert(holds_lock(s, calls, n - 1, n));
            (n - 1, 0)
        } else if before.state is Seeking && at(s, calls, n).state is Working {
            (seek.0, n - 1)
        } else {
            seek
        }
    }
}

/// Every operation works where the seeking mode says: if a call asks for work, the
/// file has started a seek to the seeking mode and completed it, nothing has moved the
/// cursor in between, and the lock that was held at the seek is still held at the work.
pub proof fn seek_precedes_work<S, T, E>(s: LockView<S, T, E>, calls: Seq<Call<S, T, E>>, n: int)
    requires
        s.wf(),
        !s.past_seek(),
        is_history(s, calls),
        0 <= n < calls.len(),
        calls[n].asks_for_work(at(s, calls, n)),
        at(s, calls, n).mode != SeekFrom::Current(0),
    ensures
        exists|i: int, j: int|
            #![trigger calls[i], calls[j]]
            {
                &&& sought_since(s, calls, at(s, calls, n).mode, i, n + 1)
                &&& i < j <= n
                &&& calls[j].seek_completed()
            },
{
    history_keeps_wf(s, calls, n);
    assert(calls[n].allowed(at(s, calls, n)));
    lemma_call_comes_to_work(at(s, calls, n), calls[n]);
    let seek = lemma_seeks(s, calls, n + 1);
    assert(sought_since(s, calls, at(s, calls, n).mode, seek.0, n + 1));
    assert(calls[seek.1].seek_completed());
}

/// One event asks for a lock on a file that is not locked, has the file locked only
/// if that lock was taken, and works only under a lock that suits it.
proof fn lemma_event_comes_to_lock<S, T, E, R: Outcome>(
    s: LockView<S, T, E>,
    operation: Operation,
    event: Event<S, T, E, R>,
)
    requires
        s.wf(),
        s.accepts(operation, event),
    ensures
        s.step(operation, event).0.is_manually_locked == s.is_manually_locked,
        match s.step(operation, event).1 {
            Action::SpawnLocking(request) => {
                &&& request.kind == operation.kind()
                &&& s.step(operation, event).0.locking == Some(request.kind)
            },
            Action::SpawnUnlocking(_) => {
                &&& s.step(operation, event).0.locking is None
                &&& s.step(operation, event).0.locked_file is None
            },
            Action::Work => {
                &&& s.step(operation, event).0.locked_file is Some
                &&& s.suits(operation, s.step(operation, event).0.held->0)
            },
            _ => s.step(operation, event).0.locking is Some ==> s.step(operation, event).0.locking
                == s.locking,
        },
        s.step(operation, event).0.locked_file is Some ==> {
            ||| s.locked_file is Some && s.step(operation, event).0.held == s.held
            ||| s.step(operation, event).0.held == s.locking && event matches Event::Locking(
                Poll::Ready(Ok(_)),
            )
        },
{
}

/// One call asks for a lock on a file that is not locked, has the file locked only
/// if that lock was taken, and works only under a lock that suits it.
proof fn lemma_call_comes_to_lock<S, T, E>(s: LockView<S, T, E>, call: Call<S, T, E>)
    requires
        s.wf(),
        call.allowed(s),
    ensures
        call.apply(s).locking is Some ==> {
            ||| call.asks_for_lock(s) is None && s.locking == call.apply(s).locking
            ||| call.asks_for_lock(s) == call.apply(s).locking
        },
        call.apply(s).locked_file is Some ==> {
            ||| s.locked_file is Some && call.apply(s).held == s.held
            ||| s.locking is Some && call.lock_taken() && call.apply(s).held == s.locking
        },
        call.apply(s).locked_file is Some ==> call.asks_for_lock(s) is None,
        call.gives_up(s) ==> call.apply(s).locking is None && call.apply(s).locked_file is None,
        call.asks_for_work(s) ==> {
            &&& call.apply(s).locked_file is Some
            &&& call is Read || s.is_manually_locked || call.apply(s).held == Some(
                LockKind::Exclusive,
            )
        },
        call.asks_for_lock(s) is Some ==> call.asks_for_lock(s) == call.lock_kind(),
{
    lemma_call_keeps_wf(s, call);
    match call {
        Call::Write(event) => lemma_event_comes_to_lock(s, Operation::Write, event),
        Call::Flush(event) => lemma_event_comes_to_lock(s, Operation::Flush, event),
        Call::Read(event) => lemma_event_comes_to_lock(s, Operation::Read, event),
        _ => {},
    }
}

/// Whether call `k` leaves the lock that was asked for before.
pub open spec fn leaves_lock<S, T, E>(
    s: LockView<S, T, E>,
    calls: Seq<Call<S, T, E>>,
    k: int,
) -> bool {
    &&& calls[k].asks_for_lock(at(s, calls, k)) is None
    &&& !calls[k].gives_up(at(s, calls, k))
}

/// Whether call `i` asked for a lock and, among the first `n` calls, none has asked
/// for another one or given the lock up since.
pub open spec fn asked_since<S, T, E>(
    s: LockView<S, T, E>,
    calls: Seq<Call<S, T, E>>,
    i: int,
    n: int,
) -> bool {
    &&& 0 <= i < n
    &&& calls[i].asks_for_lock(at(s, calls, i)) is Some
    &&& forall|k: int| i < k < n ==> #[trigger] leaves_lock(s, calls, k)
}

/// The locks so far: a file that is being locked was asked for, and one that is
/// locked was asked for and the lock was taken.
proof fn lemma_locks<S, T, E>(s: LockView<S, T, E>, calls: Seq<Call<S, T, E>>, n: int) -> (lock: (
    int,
    int,
))
    requires
        s.wf(),
        s.unlocked_file is Some,
        is_history(s, calls),
        0 <= n <= calls.len(),
    ensures
        at(s, calls, n).locking is Some ==> {
            &&& asked_since(s, calls, lock.0, n)
            &&& calls[lock.0].asks_for_lock(at(s, calls, lock.0)) == at(s, calls, n).locking
        },
        at(s, calls, n).locked_file is Some ==> {
            &&& asked_since(s, calls, lock.0, n)
            &&& calls[lock.0].asks_for_lock(at(s, calls, lock.0)) == at(s, calls, n).held
            &&& lock.0 < lock.1 < n
            &&& calls[lock.1].lock_taken()
        },
    decreases n,
{
    if n == 0 {
        (0, 0)
    } else {
        let before = at(s, calls, n - 1);
        let call = calls[n - 1];
        let lock = lemma_locks(s, calls, n - 1);
        history_keeps_wf(s, calls, n - 1);
        history_keeps_wf(s, calls, n);
        assert(call.allowed(before));
        lemma_call_comes_to_lock(before, call);
        if call.asks_for_lock(before) is Some {
            (n - 1, 0)
        } else if before.locking is Some && at(s, calls, n).locked_file is Some {
            (lock.0, n - 1)
        } else {
            lock
        }
    }
}

/// Every operation works under a lock: if a call asks for work, then since the
/// file was last unlocked a lock was asked for and taken, and it has not been given
/// up. The lock is of the kind of the call that asked for it: exclusive for a write
/// or a flush, shared for a read, and by hand the one that was wanted. A write or a
/// flush works under an exclusive lock unless the lock is kept by hand.
pub proof fn lock_precedes_work<S, T, E>(s: LockView<S, T, E>, calls: Seq<Call<S, T, E>>, n: int)
    requires
        s.wf(),
        s.unlocked_file is Some,
        is_history(s, calls),
        0 <= n < calls.len(),
        calls[n].asks_for_work(at(s, calls, n)),
    ensures
        exists|i: int, j: int|
            #![trigger calls[i], calls[j]]
            {
                &&& asked_since(s, calls, i, n + 1)
                &&& i < j <= n
                &&& calls[j].lock_taken()
                &&& calls[i].asks_for_lock(at(s, calls, i)) == calls[i].lock_kind()
                &&& (calls[n] is Write || calls[n] is Flush) && !at(s, calls, n).is_manually_locked
                    ==> calls[i].asks_for_lock(at(s, calls, i)) == Some(LockKind::Exclusive)
            },
{
    history_keeps_wf(s, calls, n);
    assert(calls[n].allowed(at(s, calls, n)));
    lemma_call_comes_to_lock(at(s, calls, n), calls[n]);
    let lock = lemma_locks(s, calls, n + 1);
    history_keeps_wf(s, calls, lock.0);
    assert(calls[lock.0].allowed(at(s, calls, lock.0)));
    lemma_call_comes_to_lock(at(s, calls, lock.0), calls[lock.0]);
    assert(asked_since(s, calls, lock.0, n + 1));
    assert(calls[lock.1].lock_taken());
}

/// How an operation's work went, as a number or an error.
pub open spec fn counted<E, R: Outcome>(worked: Result<R, E>) -> Result<u64, E> {
    match worked {
        Ok(outcome) => Ok(outcome.count()),
        Err(e) => Err(e),
    }
}

/// How an event ends an operation, if it does: its work is done, or it could not
/// have its lock or its seek.
pub open spec fn ending<S, T, E, R: Outcome>(event: Event<S, T, E, R>) -> Option<Result<u64, E>> {
    match event {
        Event::Worked(Poll::Ready(worked)) => Some(counted(worked)),
        Event::Locking(Poll::Ready(Err((_, e)))) => Some(Err(e)),
        Event::SeekStarted(Poll::Ready(Err(e))) => Some(Err(e)),
        Event::SeekCompleted(Poll::Ready(Err(e))) => Some(Err(e)),
        _ => None,
    }
}

/// What an action returns from an operation, if it ends it.
pub open spec fn returned<S, T, E, R: Outcome>(action: Action<S, T, E, R>) -> Option<
    Result<u64, E>,
> {
    match action {
        Action::Return(Poll::Ready(worked)) => Some(counted(worked)),
        _ => None,
    }
}

impl<S, T, E> Call<S, T, E> {
    /// The operation that the call polls, if it polls one.
    pub open spec fn operation(self) -> Option<Operation> {
        match self {
            Call::Write(_) => Some(Operation::Write),
            Call::Flush(_) => Some(Operation::Flush),
            Call::Read(_) => Some(Operation::Read),
            _ => None,
        }
    }

    /// How the call ends its operation, if it does.
    pub open spec fn ends(self) -> Option<Result<u64, E>> {
        match self {
            Call::Write(event) => ending(event),
            Call::Flush(event) => ending(event),
            Call::Read(event) => ending(event),
            _ => None,
        }
    }

    /// Why the file could not be unlocked, if the call reports that.
    pub open spec fn unlock_failure(self) -> Option<E> {
        match self {
            Call::Write(Event::Unlocking(Poll::Ready((_, Err(e))))) => Some(e),
            Call::Flush(Event::Unlocking(Poll::Ready((_, Err(e))))) => Some(e),
            Call::Read(Event::Unlocking(Poll::Ready((_, Err(e))))) => Some(e),
            Call::EndUnlock(_, Err(e)) => Some(e),
            _ => None,
        }
    }

    /// What the call returns from its operation, if the operation is over.
    pub open spec fn yields(self, s: LockView<S, T, E>) -> Option<Result<u64, E>> {
        match self {
            Call::Write(event) => returned(s.step(Operation::Write, event).1),
            Call::Flush(event) => returned(s.step(Operation::Flush, event).1),
            Call::Read(event) => returned(s.step(Operation::Read, event).1),
            _ => None,
        }
    }
}

/// One event returns how it ends its operation itself, or what was kept for it, or a
/// failure to unlock; and it keeps how it ends its operation, a failure to unlock, or
/// what was kept before.
proof fn lemma_event_returns<S, T, E, R: Outcome>(
    s: LockView<S, T, E>,
    operation: Operation,
    event: Event<S, T, E, R>,
)
    requires
        s.wf(),
        s.accepts(operation, event),
    ensures
        match s.step(operation, event).1 {
            Action::Return(Poll::Ready(worked)) => {
                ||| ending(event) == Some(counted(worked))
                ||| match worked {
                    Ok(outcome) => s.result matches Some(Kept::Ended(of, Ok(n))) && of == operation
                        && outcome == R::of_count(n),
                    Err(e) => {
                        ||| s.result == Some(Kept::<E>::Ended(operation, Err(e)))
                        ||| s.result == Some(Kept::<E>::UnlockFailure(e))
                        ||| event matches Event::Unlocking(Poll::Ready((_, Err(f)))) && e == f
                    },
                }
            },
            _ => true,
        },
        match s.step(operation, event).0.result {
            Some(Kept::Ended(of, outcome)) => {
                ||| ending(event) == Some(outcome) && of == operation
                ||| s.result == Some(Kept::Ended(of, outcome)) && returned(
                    s.step(operation, event).1,
                ) is None
            },
            Some(Kept::UnlockFailure(e)) => s.result == Some(Kept::UnlockFailure(e)),
            None => true,
        },
{
}

/// One call returns how it ends its operation itself, or what was kept for it, or a
/// failure to unlock; and it keeps how it ends its operation, a failure to unlock, or
/// what was kept before.
proof fn lemma_call_returns<S, T, E>(s: LockView<S, T, E>, call: Call<S, T, E>)
    requires
        s.wf(),
        call.allowed(s),
    ensures
        match call.yields(s) {
            Some(outcome) => {
                ||| call.ends() == Some(outcome)
                ||| s.result == Some(Kept::Ended(call.operation()->0, outcome))
                ||| call is Flush && outcome == Ok::<u64, E>(0) && s.result matches Some(
                    Kept::Ended(Operation::Flush, Ok(_)),
                )
                ||| outcome matches Err(e) && (s.result == Some(Kept::UnlockFailure(e))
                    || call.unlock_failure() == Some(e))
            },
            None => true,
        },
        match call.apply(s).result {
            Some(Kept::Ended(of, outcome)) => {
                ||| call.ends() == Some(outcome) && call.operation() == Some(of)
                ||| s.result == Some(Kept::Ended(of, outcome)) && call.yields(s) is None
            },
            Some(Kept::UnlockFailure(e)) => {
                ||| s.result == Some(Kept::UnlockFailure(e))
                ||| call.unlock_failure() == Some(e)
            },
            None => true,
        },
{
    match call {
        Call::Write(event) => lemma_event_returns(s, Operation::Write, event),
        Call::Flush(event) => lemma_event_returns(s, Operation::Flush, event),
        Call::Read(event) => lemma_event_returns(s, Operation::Read, event),
        _ => {},
    }
}

/// Whether call `k` returns nothing from an operation.
pub open spec fn is_silent<S, T, E>(
    s: LockView<S, T, E>,
    calls: Seq<Call<S, T, E>>,
    k: int,
) -> bool {
    calls[k].yields(at(s, calls, k)) is None
}

/// Whether call `i` ended an operation with an outcome, and no call has returned
/// anything since, up to call `n`.
pub open spec fn ended_since<S, T, E>(
    s: LockView<S, T, E>,
    calls: Seq<Call<S, T, E>>,
    operation: Operation,
    outcome: Result<u64, E>,
    i: int,
    n: int,
) -> bool {
    &&& calls[i].operation() == Some(operation)
    &&& calls[i].ends() == Some(outcome)
    &&& forall|k: int| i < k < n ==> #[trigger] is_silent(s, calls, k)
}

/// Where what is kept comes from.
proof fn lemma_kept<S, T, E>(s: LockView<S, T, E>, calls: Seq<Call<S, T, E>>, n: int) -> (i: int)
    requires
        s.wf(),
        s.result is None,
        is_history(s, calls),
        0 <= n <= calls.len(),
    ensures
        match at(s, calls, n).result {
            Some(Kept::Ended(of, outcome)) => {
                &&& 0 <= i < n
                &&& ended_since(s, calls, of, outcome, i, n)
            },
            Some(Kept::UnlockFailure(e)) => {
                &&& 0 <= i < n
                &&& calls[i].unlock_failure() == Some(e)
            },
            None => true,
        },
    decreases n,
{
    if n == 0 {
        0
    } else {
        let before = at(s, calls, n - 1);
        let call = calls[n - 1];
        let i = lemma_kept(s, calls, n - 1);
        history_keeps_wf(s, calls, n - 1);
        assert(call.allowed(before));
        lemma_call_returns(before, call);
        match at(s, calls, n).result {
            Some(Kept::Ended(of, outcome)) => if call.ends() == Some(outcome) && call.operation()
                == Some(of) {
                n - 1
            } else {
                assert(is_silent(s, calls, n - 1));
                i
            },
            Some(Kept::UnlockFailure(e)) => if call.unlock_failure() == Some(e) {
                n - 1
            } else {
                i
            },
            None => 0,
        }
    }
}

/// An operation returns its own outcome: what a call returns is how a poll of the
/// same operation ended, not returned before, or it is a failure to unlock. What
/// another operation has left behind is never returned.
pub proof fn operation_returns_its_own<S, T, E>(
    s: LockView<S, T, E>,
    calls: Seq<Call<S, T, E>>,
    n: int,
    outcome: Result<u64, E>,
)
    requires
        s.wf(),
        s.result is None,
        is_history(s, calls),
        0 <= n < calls.len(),
        calls[n].yields(at(s, calls, n)) == Some(outcome),
    ensures
        exists|i: int|
            #![trigger calls[i]]
            0 <= i <= n && {
                ||| ended_since(s, calls, calls[n].operation()->0, outcome, i, n)
                ||| outcome matches Err(e) && calls[i].unlock_failure() == Some(e)
            },
{
    history_keeps_wf(s, calls, n);
    let now = at(s, calls, n);
    let call = calls[n];
    assert(call.allowed(now));
    lemma_call_returns(now, call);
    let i = lemma_kept(s, calls, n);
    let operation = call.operation()->0;
    if call.ends() == Some(outcome) {
        assert(ended_since(s, calls, operation, outcome, n, n));
    } else if now.result is Some && now.result->0 is Ended {
        assert(0 <= i <= n);
        if let Err(e) = outcome {
            if call.unlock_failure() == Some(e) {
                assert(calls[n].unlock_failure() == Some(e));
            } else {
                assert(ended_since(s, calls, operation, outcome, i, n));
            }
        } else {
            assert(ended_since(s, calls, operation, outcome, i, n));
        }
    } else {
        let e = outcome->Err_0;
        if call.unlock_failure() == Some(e) {
            assert(calls[n].unlock_failure() == Some(e));
        } else {
            assert(calls[i].unlock_failure() == Some(e));
        }
    }
}

/// Which file an action hands out, if it hands one out. `unlocked` and `locked` tell
/// files apart.
pub open spec fn file_in_action<S, T, E, R, I>(
    action: Action<S, T, E, R>,
    unlocked: spec_fn(S) -> I,
    locked: spec_fn(T) -> I,
) -> Option<I> {
    match action {
        Action::SpawnLocking(request) => Some(unlocked(request.file)),
        Action::SpawnUnlocking(file) => Some(locked(file)),
        _ => None,
    }
}

/// Which file an event gives back, if it gives one back.
pub open spec fn file_in_event<S, T, E, R, I>(
    event: Event<S, T, E, R>,
    unlocked: spec_fn(S) -> I,
    locked: spec_fn(T) -> I,
) -> Option<I> {
    match event {
        Event::Locking(Poll::Ready(Ok(file))) => Some(locked(file)),
        Event::Locking(Poll::Ready(Err((file, _)))) => Some(unlocked(file)),
        Event::Unlocking(Poll::Ready((file, _))) => Some(unlocked(file)),
        _ => None,
    }
}

/// Which file a lock has, if it is here.
pub open spec fn file_here<S, T, E, I>(
    s: LockView<S, T, E>,
    unlocked: spec_fn(S) -> I,
    locked: spec_fn(T) -> I,
) -> Option<I> {
    match (s.unlocked_file, s.locked_file) {
        (Some(file), _) => Some(unlocked(file)),
        (None, Some(file)) => Some(locked(file)),
        (None, None) => None,
    }
}

impl<S, T, E> Call<S, T, E> {
    /// Which file the call hands out, if it hands one out.
    pub open spec fn hands_out<I>(
        self,
        s: LockView<S, T, E>,
        unlocked: spec_fn(S) -> I,
        locked: spec_fn(T) -> I,
    ) -> Option<I> {
        match self {
            Call::Write(event) => file_in_action(
                s.step(Operation::Write, event).1,
                unlocked,
                locked,
            ),
            Call::Flush(event) => file_in_action(
                s.step(Operation::Flush, event).1,
                unlocked,
                locked,
            ),
            Call::Read(event) => file_in_action(s.step(Operation::Read, event).1, unlocked, locked),
            Call::Lock(_) => Some(unlocked(s.unlocked_file->0)),
            Call::Unlock => Some(locked(s.locked_file->0)),
            Call::StartSeek(_) | Call::Sync => match s.unlocked_file {
                Some(file) => Some(unlocked(file)),
                None => None,
            },
            _ => None,
        }
    }

    /// Which file the call gives back, if it gives one back.
    pub open spec fn gives_back<I>(
        self,
        unlocked: spec_fn(S) -> I,
        locked: spec_fn(T) -> I,
    ) -> Option<I> {
        match self {
            Call::Write(event) => file_in_event(event, unlocked, locked),
            Call::Flush(event) => file_in_event(event, unlocked, locked),
            Call::Read(event) => file_in_event(event, unlocked, locked),
            Call::EndLock(Ok(file)) => Some(locked(file)),
            Call::EndLock(Err((file, _))) => Some(unlocked(file)),
            Call::EndUnlock(file, _) => Some(unlocked(file)),
            Call::EndSeek(file) => Some(unlocked(file)),
            Call::EndSync(file) => Some(unlocked(file)),
            _ => None,
        }
    }
}

/// Which file was handed out last among the first `n` calls; `first` if none was.
pub open spec fn last_out<S, T, E, I>(
    s: LockView<S, T, E>,
    calls: Seq<Call<S, T, E>>,
    n: int,
    unlocked: spec_fn(S) -> I,
    locked: spec_fn(T) -> I,
    first: I,
) -> I
    decreases n,
{
    if n <= 0 {
        first
    } else {
        match calls[n - 1].hands_out(at(s, calls, n - 1), unlocked, locked) {
            Some(file) => file,
            None => last_out(s, calls, n - 1, unlocked, locked, first),
        }
    }
}

/// Whether call `k` gives back the file that was handed out last, if it gives one
/// back.
pub open spec fn is_honest<S, T, E, I>(
    s: LockView<S, T, E>,
    calls: Seq<Call<S, T, E>>,
    k: int,
    unlocked: spec_fn(S) -> I,
    locked: spec_fn(T) -> I,
    first: I,
) -> bool {
    calls[k].gives_back(unlocked, locked) matches Some(file) ==> file == last_out(
        s,
        calls,
        k,
        unlocked,
        locked,
        first,
    )
}

/// One event hands out the file that was here or that it gives back, and leaves that
/// file here.
proof fn lemma_event_keeps_identity<S, T, E, R: Outcome, I>(
    s: LockView<S, T, E>,
    operation: Operation,
    event: Event<S, T, E, R>,
    unlocked: spec_fn(S) -> I,
    locked: spec_fn(T) -> I,
    id: I,
)
    requires
        s.wf(),
        s.accepts(operation, event),
        file_here(s, unlocked, locked) matches Some(file) ==> file == id,
        file_in_event(event, unlocked, locked) matches Some(file) ==> file == id,
    ensures
        file_here(s.step(operation, event).0, unlocked, locked) matches Some(file) ==> file == id,
        file_in_action(s.step(operation, event).1, unlocked, locked) matches Some(file) ==> file
            == id,
{
}

/// One call hands out the file that was here or that it gives back, and leaves that
/// file here.
proof fn lemma_call_keeps_identity<S, T, E, I>(
    s: LockView<S, T, E>,
    call: Call<S, T, E>,
    unlocked: spec_fn(S) -> I,
    locked: spec_fn(T) -> I,
    id: I,
)
    requires
        s.wf(),
        call.allowed(s),
        file_here(s, unlocked, locked) matches Some(file) ==> file == id,
        call.gives_back(unlocked, locked) matches Some(file) ==> file == id,
    ensures
        file_here(call.apply(s), unlocked, locked) matches Some(file) ==> file == id,
        call.hands_out(s, unlocked, locked) matches Some(file) ==> file == id,
{
    match call {
        Call::Write(event) => lemma_event_keeps_identity(
            s,
            Operation::Write,
            event,
            unlocked,
            locked,
            id,
        ),
        Call::Flush(event) => lemma_event_keeps_identity(
            s,
            Operation::Flush,
            event,
            unlocked,
            locked,
            id,
        ),
        Call::Read(event) => lemma_event_keeps_identity(
            s,
            Operation::Read,
            event,
            unlocked,
            locked,
            id,
        ),
        _ => {},
    }
}

/// The file is the constructor's one throughout, by induction on the history.
proof fn lemma_identity<S, T, E, I>(
    file: S,
    calls: Seq<Call<S, T, E>>,
    n: int,
    unlocked: spec_fn(S) -> I,
    locked: spec_fn(T) -> I,
)
    requires
        is_history(LockView::<S, T, E>::new(file), calls),
        forall|k: int|
            0 <= k < calls.len() ==> #[trigger] is_honest(
                LockView::<S, T, E>::new(file),
                calls,
                k,
                unlocked,
                locked,
                unlocked(file),
            ),
        0 <= n <= calls.len(),
    ensures
        file_here(at(LockView::<S, T, E>::new(file), calls, n), unlocked, locked) matches Some(f)
            ==> f == unlocked(file),
        last_out(LockView::<S, T, E>::new(file), calls, n, unlocked, locked, unlocked(file))
            == unlocked(file),
    decreases n,
{
    let s = LockView::<S, T, E>::new(file);
    if n > 0 {
        lemma_identity(file, calls, n - 1, unlocked, locked);
        history_keeps_wf(s, calls, n - 1);
        assert(calls[n - 1].allowed(at(s, calls, n - 1)));
        assert(is_honest(s, calls, n - 1, unlocked, locked, unlocked(file)));
        lemma_call_keeps_identity(
            at(s, calls, n - 1),
            calls[n - 1],
            unlocked,
            locked,
            unlocked(file),
        );
    }
}

/// A lock has its constructor's file after any history of calls, provided that its
/// driver gives back the file that it was handed: the file is here unlocked, or here
/// locked, and then nowhere else, or it is with the task that locks it, unlocks it,
/// seeks in it or syncs it. Every file that is handed out is that file, too.
/// `unlocked` and `locked` tell files apart.
pub proof fn file_is_the_constructors<S, T, E, I>(
    file: S,
    calls: Seq<Call<S, T, E>>,
    n: int,
    unlocked: spec_fn(S) -> I,
    locked: spec_fn(T) -> I,
)
    requires
        is_history(LockView::<S, T, E>::new(file), calls),
        forall|k: int|
            0 <= k < calls.len() ==> #[trigger] is_honest(
                LockView::<S, T, E>::new(file),
                calls,
                k,
                unlocked,
                locked,
                unlocked(file),
            ),
        0 <= n <= calls.len(),
    ensures
        ({
            let now = at(LockView::<S, T, E>::new(file), calls, n);
            &&& match (now.unlocked_file, now.locked_file) {
                (Some(f), None) => unlocked(f) == unlocked(file),
                (None, Some(f)) => locked(f) == unlocked(file),
                (None, None) => now.locking is Some || now.unlocking || now.seeking
                    || now.syncing(),
                (Some(_), Some(_)) => false,
            }
            &&& n < calls.len() ==> (calls[n].hands_out(now, unlocked, locked) matches Some(f)
                ==> f == unlocked(file))
        }),
{
    let s = LockView::<S, T, E>::new(file);
    history_keeps_wf(s, calls, n);
    lemma_identity(file, calls, n, unlocked, locked);
    if n < calls.len() {
        assert(calls[n].allowed(at(s, calls, n)));
        assert(is_honest(s, calls, n, unlocked, locked, unlocked(file)));
        lemma_call_keeps_identity(at(s, calls, n), calls[n], unlocked, locked, unlocked(file));
    }
}

/// The seeking mode that was set last among the first `n` calls, or the one that
/// leaves the cursor where it is.
pub open spec fn last_mode<S, T, E>(calls: Seq<Call<S, T, E>>, n: int) -> SeekFrom
    decreases n,
{
    if n <= 0 {
        SeekFrom::Current(0)
    } else {
        match calls[n - 1] {
            Call::SetSeekingMode(mode) => mode,
            _ => last_mode(calls, n - 1),
        }
    }
}

/// One call leaves the seeking mode, unless it sets it.
proof fn lemma_call_keeps_mode<S, T, E>(s: LockView<S, T, E>, call: Call<S, T, E>)
    requires
        s.wf(),
        call.allowed(s),
    ensures
        call.apply(s).mode == match call {
            Call::SetSeekingMode(mode) => mode,
            _ => s.mode,
        },
{
    match call {
        Call::Write(event) => lemma_event_comes_to_work(s, Operation::Write, event),
        Call::Flush(event) => lemma_event_comes_to_work(s, Operation::Flush, event),
        Call::Read(event) => lemma_event_comes_to_work(s, Operation::Read, event),
        _ => {},
    }
}

/// The seeking mode is the one that was set last, and leaves the cursor where it is
/// until one is set: nothing else changes it.
pub proof fn mode_is_the_last_set<S, T, E>(file: S, calls: Seq<Call<S, T, E>>, n: int)
    requires
        is_history(LockView::<S, T, E>::new(file), calls),
        0 <= n <= calls.len(),
    ensures
        at(LockView::<S, T, E>::new(file), calls, n).mode == last_mode(calls, n),
    decreases n,
{
    let s = LockView::<S, T, E>::new(file);
    if n > 0 {
        mode_is_the_last_set(file, calls, n - 1);
        history_keeps_wf(s, calls, n - 1);
        assert(calls[n - 1].allowed(at(s, calls, n - 1)));
        lemma_call_keeps_mode(at(s, calls, n - 1), calls[n - 1]);
    }
}

/// One call of an operation that does not return puts the operation under way, and
/// what can be done meanwhile keeps it so.
proof fn lemma_call_leaves_under_way<S, T, E>(s: LockView<S, T, E>, call: Call<S, T, E>)
    requires
        s.wf(),
        call.allowed(s),
        call.leaves_under_way(s),
        call.is_operation() || !s.at_rest(),
    ensures
        !call.apply(s).at_rest(),
{
}

/// An operation that has not returned is under way, through whatever is set, sought or
/// synced by hand meanwhile: the lock is not at rest, and shows no file.
pub proof fn operation_stays_under_way<S, T, E>(
    s: LockView<S, T, E>,
    calls: Seq<Call<S, T, E>>,
    i: int,
    n: int,
)
    requires
        s.wf(),
        is_history(s, calls),
        0 <= i < n <= calls.len(),
        calls[i].is_operation(),
        forall|k: int| i <= k < n ==> #[trigger] calls[k].leaves_under_way(at(s, calls, k)),
    ensures
        !at(s, calls, n).at_rest(),
    decreases n,
{
    if i < n - 1 {
        operation_stays_under_way(s, calls, i, n - 1);
    }
    history_keeps_wf(s, calls, n - 1);
    assert(calls[n - 1].allowed(at(s, calls, n - 1)));
    assert(calls[n - 1].leaves_under_way(at(s, calls, n - 1)));
    lemma_call_leaves_under_way(at(s, calls, n - 1), calls[n - 1]);
}

/// Whether a seek that call `k` reports as started answers the call before, which asked
/// for a seek.
pub open spec fn answers_seek<S, T, E>(
    s: LockView<S, T, E>,
    calls: Seq<Call<S, T, E>>,
    k: int,
) -> bool {
    calls[k].seek_started() ==> k > 0 && calls[k - 1].asks_for_seek(at(s, calls, k - 1)) is Some
}

/// One call asks for a seek to the seeking mode, if it asks for one, and leaves that mode.
proof fn lemma_call_seeks_to_mode<S, T, E>(s: LockView<S, T, E>, call: Call<S, T, E>)
    requires
        s.wf(),
        call.allowed(s),
    ensures
        call.asks_for_seek(s) matches Some(to) ==> {
            &&& to == s.mode
            &&& call.apply(s).mode == s.mode
        },
{
    match call {
        Call::Write(event) => operation_keeps_settings(s, Operation::Write, event),
        Call::Flush(event) => operation_keeps_settings(s, Operation::Flush, event),
        Call::Read(event) => operation_keeps_settings(s, Operation::Read, event),
        _ => {},
    }
}

/// Every seek that an operation asks for is to the seeking mode that was set last.
pub proof fn seeks_go_to_the_last_mode<S, T, E>(
    file: S,
    calls: Seq<Call<S, T, E>>,
    n: int,
    to: SeekFrom,
)
    requires
        is_history(LockView::<S, T, E>::new(file), calls),
        0 <= n < calls.len(),
        calls[n].asks_for_seek(at(LockView::<S, T, E>::new(file), calls, n)) == Some(to),
    ensures
        to == last_mode(calls, n),
        to != SeekFrom::Current(0),
{
    let s = LockView::<S, T, E>::new(file);
    history_keeps_wf(s, calls, n);
    assert(calls[n].allowed(at(s, calls, n)));
    lemma_call_seeks_to_mode(at(s, calls, n), calls[n]);
    mode_is_the_last_set(file, calls, n);
}

/// Whether the file was asked to seek to a location for an operation, call `i` reports
/// that it started that seek in answer and call `j` that it completed it, and among the
/// first `n` calls nothing has moved the cursor since and the lock was held all the while.
pub open spec fn was_told_to_seek<S, T, E>(
    s: LockView<S, T, E>,
    calls: Seq<Call<S, T, E>>,
    to: SeekFrom,
    i: int,
    j: int,
    n: int,
) -> bool {
    &&& 0 < i < j < n
    &&& calls[i - 1].asks_for_seek(at(s, calls, i - 1)) == Some(to)
    &&& sought_since(s, calls, to, i, n)
    &&& calls[j].seek_completed()
}

/// A seek that was started in answer was asked for with the location that it was started
/// for.
proof fn lemma_seek_was_asked_for<S, T, E>(
    s: LockView<S, T, E>,
    calls: Seq<Call<S, T, E>>,
    i: int,
)
    requires
        s.wf(),
        is_history(s, calls),
        0 <= i < calls.len(),
        calls[i].seek_started(),
        answers_seek(s, calls, i),
    ensures
        0 < i,
        calls[i - 1].asks_for_seek(at(s, calls, i - 1)) == Some(at(s, calls, i).mode),
{
    history_keeps_wf(s, calls, i - 1);
    assert(calls[i - 1].allowed(at(s, calls, i - 1)));
    lemma_call_seeks_to_mode(at(s, calls, i - 1), calls[i - 1]);
}

/// Every operation works where its file was told to seek to: if a call asks for work, the
/// file was asked to seek to the seeking mode, then started that seek and completed it,
/// and nothing has moved the cursor since the seek was started. The driver reports that
/// a seek was started in answer to the call that asked for it.
pub proof fn work_follows_the_seek_that_was_asked_for<S, T, E>(
    s: LockView<S, T, E>,
    calls: Seq<Call<S, T, E>>,
    n: int,
)
    requires
        s.wf(),
        !s.past_seek(),
        is_history(s, calls),
        forall|k: int| 0 <= k < calls.len() ==> #[trigger] answers_seek(s, calls, k),
        0 <= n < calls.len(),
        calls[n].asks_for_work(at(s, calls, n)),
        at(s, calls, n).mode != SeekFrom::Current(0),
    ensures
        exists|i: int, j: int|
            #[trigger] was_told_to_seek(s, calls, at(s, calls, n).mode, i, j, n + 1),
{
    let to = at(s, calls, n).mode;
    seek_precedes_work(s, calls, n);
    let (i, j) = choose|i: int, j: int|
        #![trigger calls[i], calls[j]]
        {
            &&& sought_since(s, calls, to, i, n + 1)
            &&& i < j <= n
            &&& calls[j].seek_completed()
        };
    assert(answers_seek(s, calls, i));
    lemma_seek_was_asked_for(s, calls, i);
    assert(was_told_to_seek(s, calls, to, i, j, n + 1));
}

/// Whether the last call by hand among the first `n` that locked or unlocked asked for a
/// lock.
pub open spec fn last_by_hand<S, T, E>(calls: Seq<Call<S, T, E>>, n: int) -> bool
    decreases n,
{
    if n <= 0 {
        false
    } else {
        match calls[n - 1] {
            Call::Lock(_) => true,
            Call::Unlock => false,
            _ => last_by_hand(calls, n - 1),
        }
    }
}

/// One call leaves whether the lock is kept by hand, unless it locks or unlocks by hand.
proof fn lemma_call_keeps_mark<S, T, E>(s: LockView<S, T, E>, call: Call<S, T, E>)
    requires
        s.wf(),
        call.allowed(s),
    ensures
        call.apply(s).is_manually_locked == match call {
            Call::Lock(_) => true,
            Call::Unlock => false,
            _ => s.is_manually_locked,
        },
{
    match call {
        Call::Write(event) => operation_keeps_settings(s, Operation::Write, event),
        Call::Flush(event) => operation_keeps_settings(s, Operation::Flush, event),
        Call::Read(event) => operation_keeps_settings(s, Operation::Read, event),
        _ => {},
    }
}

/// A lock is kept by hand exactly if it was last asked for by hand and not given up by
/// hand since. Nothing else decides that: no operation, no seek, no sync, no seeking mode
/// and no answer of a task.
pub proof fn only_hands_keep_the_lock<S, T, E>(file: S, calls: Seq<Call<S, T, E>>, n: int)
    requires
        is_history(LockView::<S, T, E>::new(file), calls),
        0 <= n <= calls.len(),
    ensures
        at(LockView::<S, T, E>::new(file), calls, n).is_manually_locked == last_by_hand(calls, n),
    decreases n,
{
    let s = LockView::<S, T, E>::new(file);
    if n > 0 {
        only_hands_keep_the_lock(file, calls, n - 1);
        history_keeps_wf(s, calls, n - 1);
        assert(calls[n - 1].allowed(at(s, calls, n - 1)));
        lemma_call_keeps_mark(at(s, calls, n - 1), calls[n - 1]);
    }
}

/// Once call `i` has asked for a lock by hand the lock stays kept by hand, as long as
/// nobody unlocks by hand.
proof fn lemma_mark_stays<S, T, E>(
    s: LockView<S, T, E>,
    calls: Seq<Call<S, T, E>>,
    i: int,
    n: int,
)
    requires
        s.wf(),
        is_history(s, calls),
        0 <= i < n <= calls.len(),
        calls[i] is Lock,
        forall|k: int| i < k < n ==> (#[trigger] calls[k]) !is Unlock,
    ensures
        at(s, calls, n).is_manually_locked,
    decreases n,
{
    if i < n - 1 {
        lemma_mark_stays(s, calls, i, n - 1);
    }
    history_keeps_wf(s, calls, n - 1);
    assert(calls[n - 1].allowed(at(s, calls, n - 1)));
    assert(calls[n - 1] !is Unlock);
    lemma_call_keeps_mark(at(s, calls, n - 1), calls[n - 1]);
}

/// After a lock was asked for by hand, and until somebody unlocks by hand, no operation
/// asks for the file to be unlocked: neither under that lock nor, if it was refused, under
/// one that an operation took.
pub proof fn no_operation_unlocks_after_a_lock_by_hand<S, T, E>(
    s: LockView<S, T, E>,
    calls: Seq<Call<S, T, E>>,
    i: int,
    n: int,
)
    requires
        s.wf(),
        is_history(s, calls),
        0 <= i < n < calls.len(),
        calls[i] is Lock,
        forall|k: int| i < k < n ==> (#[trigger] calls[k]) !is Unlock,
    ensures
        !calls[n].asks_for_unlock(at(s, calls, n)),
{
    lemma_mark_stays(s, calls, i, n);
    history_keeps_wf(s, calls, n);
    assert(calls[n].allowed(at(s, calls, n)));
}

/// The file that a lock by hand was asked for on is locked, if at all, by a lock of the
/// kind that was asked for.
proof fn lemma_asked_kind<S, T, E>(
    s: LockView<S, T, E>,
    calls: Seq<Call<S, T, E>>,
    kind: LockKind,
    i: int,
    n: int,
)
    requires
        s.wf(),
        is_history(s, calls),
        0 <= i < n <= calls.len(),
        calls[i] == Call::<S, T, E>::Lock(kind),
        forall|k: int| i < k < n ==> #[trigger] leaves_lock(s, calls, k),
    ensures
        at(s, calls, n).locking matches Some(asked) ==> asked == kind,
    decreases n,
{
    history_keeps_wf(s, calls, n - 1);
    assert(calls[n - 1].allowed(at(s, calls, n - 1)));
    lemma_call_comes_to_lock(at(s, calls, n - 1), calls[n - 1]);
    if i < n - 1 {
        lemma_asked_kind(s, calls, kind, i, n - 1);
        assert(leaves_lock(s, calls, n - 1));
    }
}

/// One call other than an unlock by hand keeps a lock that is kept by hand, and its kind.
proof fn lemma_call_keeps_held<S, T, E>(s: LockView<S, T, E>, call: Call<S, T, E>)
    requires
        s.wf(),
        s.is_manually_locked,
        s.locked_file is Some,
        call.allowed(s),
        call !is Unlock,
    ensures
        call.apply(s).held == s.held,
{
    lemma_call_keeps_manual_lock(s, call);
    lemma_call_comes_to_lock(s, call);
}

/// A lock that was asked for by hand and granted is held until somebody unlocks by hand:
/// that file stays locked, by a lock of that kind, through any operations, seeks, syncs
/// and seeking modes, and no operation asks for it to be unlocked or locked anew.
pub proof fn lock_by_hand_is_held_until_unlock<S, T, E>(
    s: LockView<S, T, E>,
    calls: Seq<Call<S, T, E>>,
    kind: LockKind,
    locked_file: T,
    i: int,
    j: int,
    n: int,
)
    requires
        s.wf(),
        is_history(s, calls),
        0 <= i < j < n <= calls.len(),
        calls[i] == Call::<S, T, E>::Lock(kind),
        calls[j] == Call::<S, T, E>::EndLock(Ok(locked_file)),
        forall|k: int| i < k < j ==> #[trigger] leaves_lock(s, calls, k),
        forall|k: int| i < k < n ==> (#[trigger] calls[k]) !is Unlock,
    ensures
        at(s, calls, n).locked_file == Some(locked_file),
        at(s, calls, n).held == Some(kind),
        at(s, calls, n).is_manually_locked,
        n < calls.len() ==> !calls[n].asks_for_unlock(at(s, calls, n)),
        n < calls.len() ==> calls[n].asks_for_lock(at(s, calls, n)) is None,
    decreases n,
{
    lemma_mark_stays(s, calls, i, n);
    history_keeps_wf(s, calls, n - 1);
    assert(calls[n - 1].allowed(at(s, calls, n - 1)));
    if n == j + 1 {
        lemma_asked_kind(s, calls, kind, i, j);
    } else {
        lock_by_hand_is_held_until_unlock(s, calls, kind, locked_file, i, j, n - 1);
        assert(calls[n - 1] !is Unlock);
        lemma_call_keeps_manual_lock(at(s, calls, n - 1), calls[n - 1]);
        lemma_call_keeps_held(at(s, calls, n - 1), calls[n - 1]);
    }
    if n < calls.len() {
        history_keeps_wf(s, calls, n);
        assert(calls[n].allowed(at(s, calls, n)));
        if calls[n] !is Unlock {
            lemma_call_keeps_manual_lock(at(s, calls, n), calls[n]);
        }
    }
}

/// Once call `i` has unlocked by hand the lock is not kept by hand, as long as nobody asks
/// for a lock by hand.
proof fn lemma_mark_stays_off<S, T, E>(
    s: LockView<S, T, E>,
    calls: Seq<Call<S, T, E>>,
    i: int,
    n: int,
)
    requires
        s.wf(),
        is_history(s, calls),
        0 <= i < n <= calls.len(),
        calls[i] is Unlock,
        forall|k: int| i < k < n ==> (#[trigger] calls[k]) !is Lock,
    ensures
        !at(s, calls, n).is_manually_locked,
    decreases n,
{
    if i < n - 1 {
        lemma_mark_stays_off(s, calls, i, n - 1);
    }
    history_keeps_wf(s, calls, n - 1);
    assert(calls[n - 1].allowed(at(s, calls, n - 1)));
    assert(calls[n - 1] !is Lock);
    lemma_call_keeps_mark(at(s, calls, n - 1), calls[n - 1]);
}

/// One call that returns from an operation leaves the file unlocked, unless the lock is
/// kept by hand.
proof fn lemma_return_leaves_unlocked<S, T, E>(s: LockView<S, T, E>, call: Call<S, T, E>)
    requires
        s.wf(),
        call.allowed(s),
        !s.is_manually_locked,
        call.yields(s) is Some,
    ensures
        call.apply(s).locked_file is None,
        call.apply(s).state is Unlocked,
{
}

/// After an unlock by hand, and until somebody asks for a lock by hand, every operation
/// that returns leaves the file unlocked.
pub proof fn operations_unlock_after_an_unlock_by_hand<S, T, E>(
    s: LockView<S, T, E>,
    calls: Seq<Call<S, T, E>>,
    i: int,
    n: int,
)
    requires
        s.wf(),
        is_history(s, calls),
        0 <= i < n < calls.len(),
        calls[i] is Unlock,
        forall|k: int| i < k < n ==> (#[trigger] calls[k]) !is Lock,
        calls[n].yields(at(s, calls, n)) is Some,
    ensures
        at(s, calls, n + 1).locked_file is None,
        at(s, calls, n + 1).state is Unlocked,
{
    lemma_mark_stays_off(s, calls, i, n);
    history_keeps_wf(s, calls, n);
    assert(calls[n].allowed(at(s, calls, n)));
    lemma_return_leaves_unlocked(at(s, calls, n), calls[n]);
}

/// Without a lock by hand every operation that returns leaves the file unlocked, whatever
/// seeking modes were set and whatever was sought or synced.
pub proof fn operations_unlock_without_a_lock_by_hand<S, T, E>(
    file: S,
    calls: Seq<Call<S, T, E>>,
    n: int,
)
    requires
        is_history(LockView::<S, T, E>::new(file), calls),
        0 <= n < calls.len(),
        !last_by_hand(calls, n),
        calls[n].yields(at(LockView::<S, T, E>::new(file), calls, n)) is Some,
    ensures
        at(LockView::<S, T, E>::new(file), calls, n + 1).locked_file is None,
        at(LockView::<S, T, E>::new(file), calls, n + 1).state is Unlocked,
{
    let s = LockView::<S, T, E>::new(file);
    only_hands_keep_the_lock(file, calls, n);
    history_keeps_wf(s, calls, n);
    assert(calls[n].allowed(at(s, calls, n)));
    lemma_return_leaves_unlocked(at(s, calls, n), calls[n]);
}

/// A seek by hand, a sync or a new seeking mode on a lock at rest leaves it at rest, with
/// the file as locked as it was; the seeking mode is the only thing that is set.
pub proof fn lock_at_rest_stays_at_rest<S, T, E>(s: LockView<S, T, E>, call: Call<S, T, E>)
    requires
        s.wf(),
        s.state is Unlocked || s.state is Locked,
        call.allowed(s),
        call is StartSeek || call is Sync || call is SetSeekingMode,
    ensures
        call.apply(s).state == s.state,
        call.apply(s).locked_file == s.locked_file,
        call.apply(s).held == s.held,
        call.apply(s).result == s.result,
        call.apply(s).locking == s.locking,
        call.apply(s).unlocking == s.unlocking,
        call.apply(s).is_manually_locked == s.is_manually_locked,
        call matches Call::SetSeekingMode(mode) ==> call.apply(s) == (LockView { mode, ..s }),
        call !is SetSeekingMode ==> call.apply(s).mode == s.mode,
        s.locked_file is Some && call !is SetSeekingMode ==> call.apply(s) == s,
{
}

} // verus!
