//! What holds of a lock whatever its driver reports.
use vstd::prelude::*;
use crate::model::LockView;
use crate::types::{
    Action, Event, Kept, LockKind, LockRequest, Operation, Outcome, Poll, SeekFrom, State,
};

verus! {

/// How many places have the file, of those that the lock knows of.
pub open spec fn places<S, T, E>(s: LockView<S, T, E>) -> int {
    (if s.unlocked_file is Some { 1int } else { 0 }) + (if s.locked_file is Some { 1int } else { 0 })
        + (if s.locking is Some { 1int } else { 0 }) + (if s.unlocking { 1int } else { 0 })
        + (if s.seeking { 1int } else { 0 })
}

/// The file is in exactly one place, and in none of the lock's own while it is
/// being synced.
pub proof fn file_is_in_one_place<S, T, E>(s: LockView<S, T, E>)
    requires
        s.wf(),
    ensures
        places(s) == if s.syncing() { 0int } else { 1 },
{
}

/// A file that is locked cannot be locked again: it is not there to be handed out
/// for a lock.
pub proof fn locked_file_is_not_lockable<S, T, E>(s: LockView<S, T, E>)
    requires
        s.wf(),
        s.locked_file is Some,
    ensures
        s.unlocked_file is None,
{
}

/// A file that is not locked cannot be unlocked: it is not there to be handed out
/// for an unlock.
pub proof fn unlocked_file_is_not_unlockable<S, T, E>(s: LockView<S, T, E>)
    requires
        s.wf(),
        s.unlocked_file is Some,
    ensures
        s.locked_file is None,
{
}

/// An operation never loses the file: it is in one place after every step.
pub proof fn operation_keeps_file<S, T, E, R: Outcome>(
    s: LockView<S, T, E>,
    operation: Operation,
    event: Event<S, T, E, R>,
)
    requires
        s.wf(),
        s.accepts(operation, event),
    ensures
        s.step(operation, event).0.wf(),
        places(s.step(operation, event).0) == places(s),
{
    if let Event::Worked(Poll::Ready(Ok(outcome))) = event {
        outcome.lemma_count();
    }
}

/// An operation works on the file only while the file is locked.
pub proof fn operation_works_under_lock<S, T, E, R: Outcome>(
    s: LockView<S, T, E>,
    operation: Operation,
    event: Event<S, T, E, R>,
)
    requires
        s.wf(),
        s.accepts(operation, event),
        s.step(operation, event).1 is Work,
    ensures
        s.step(operation, event).0.locked_file is Some,
        s.step(operation, event).0.state is Working,
{
}

/// The lock that an operation asks for is of the operation's kind, is waited for,
/// and is asked for on the file that was idle or that has just been unlocked.
pub proof fn operation_asks_for_its_lock<S, T, E, R: Outcome>(
    s: LockView<S, T, E>,
    operation: Operation,
    event: Event<S, T, E, R>,
    request: LockRequest<S>,
)
    requires
        s.wf(),
        s.accepts(operation, event),
        s.step(operation, event).1 == Action::<S, T, E, R>::SpawnLocking(request),
    ensures
        request.kind == operation.kind(),
        request.wait,
        match event {
            Event::Unlocking(Poll::Ready((file, _))) => request.file == file,
            _ => s.unlocked_file == Some(request.file),
        },
{
}

/// A lock that was taken by hand stays: no operation gives it up, whatever comes
/// of its steps.
pub proof fn manual_lock_stays<S, T, E, R: Outcome>(
    s: LockView<S, T, E>,
    operation: Operation,
    event: Event<S, T, E, R>,
)
    requires
        s.wf(),
        s.accepts(operation, event),
        s.is_manually_locked,
        s.locked_file is Some,
    ensures
        s.step(operation, event).0.is_manually_locked,
        s.step(operation, event).0.locked_file == s.locked_file,
        s.step(operation, event).1 !is SpawnUnlocking,
{
}

/// A lock that an operation took for itself is given up before the operation
/// returns, whether it succeeds or fails.
pub proof fn automatic_lock_goes<S, T, E, R: Outcome>(
    s: LockView<S, T, E>,
    operation: Operation,
    event: Event<S, T, E, R>,
    result: Result<R, E>,
)
    requires
        s.wf(),
        s.accepts(operation, event),
        !s.is_manually_locked,
        s.step(operation, event).1 == Action::<S, T, E, R>::Return(Poll::Ready(result)),
    ensures
        s.step(operation, event).0.state is Unlocked,
        s.step(operation, event).0.locked_file is None,
        result is Ok ==> s.step(operation, event).0.unlocked_file is Some,
{
}

/// Whether a lock is at rest with this file, which is not locked, and has nothing
/// kept to return.
pub open spec fn idle<S, T, E>(s: LockView<S, T, E>, file: S) -> bool {
    &&& s.wf()
    &&& s.state is Unlocked
    &&& s.unlocked_file == Some(file)
    &&& s.result is None
}

/// From the step that finds the lock held to its work, an operation seeks, unless
/// the seeking mode leaves the cursor where it is. `position` is where the seek
/// arrives.
pub open spec fn comes_to_work<S, T, E, R: Outcome>(
    held: (LockView<S, T, E>, Action<S, T, E, R>),
    operation: Operation,
    position: u64,
    working: LockView<S, T, E>,
) -> bool {
    if working.mode == SeekFrom::Current(0) {
        held == (working, Action::<S, T, E, R>::Work)
    } else {
        let started = Event::<S, T, E, R>::SeekStarted(Poll::Ready(Ok(())));
        let completed = Event::<S, T, E, R>::SeekCompleted(Poll::Ready(Ok(position)));
        let seeking = held.0.step(operation, started);
        &&& held.0 == (LockView { state: State::Starting, ..working })
        &&& held.1 == Action::<S, T, E, R>::StartSeek(working.mode)
        &&& held.0.accepts(operation, started)
        &&& seeking.1 == Action::<S, T, E, R>::PollSeek
        &&& seeking.0.accepts(operation, completed)
        &&& seeking.0.step(operation, completed) == (working, Action::<S, T, E, R>::Work)
    }
}

/// An operation on an idle file that nobody locked by hand takes the lock, seeks,
/// works, gives the lock up and returns what its work gave. Unlocking in vain
/// turns that into the failure to unlock. The lock is then idle again.
pub proof fn operation_on_idle_file<S, T, E, R: Outcome>(
    s: LockView<S, T, E>,
    operation: Operation,
    file: S,
    locked_file: T,
    position: u64,
    worked: Result<R, E>,
    back: S,
    unlocked: Result<(), E>,
)
    requires
        idle(s, file),
        !s.is_manually_locked,
    ensures
        ({
            let polled = Event::<S, T, E, R>::Polled;
            let granted = Event::<S, T, E, R>::Locking(Poll::Ready(Ok(locked_file)));
            let done = Event::<S, T, E, R>::Worked(Poll::Ready(worked));
            let released = Event::<S, T, E, R>::Unlocking(Poll::Ready((back, unlocked)));
            let locking = s.step(operation, polled);
            let locked = locking.0.step(operation, granted);
            let working = LockView {
                state: State::Working,
                unlocked_file: None,
                locked_file: Some(locked_file),
                held: Some(operation.kind()),
                ..s
            };
            let unlocking = working.step(operation, done);
            let end = unlocking.0.step(operation, released);
            &&& s.accepts(operation, polled)
            &&& locking.1 == Action::<S, T, E, R>::SpawnLocking(
                LockRequest { kind: operation.kind(), wait: true, file },
            )
            &&& locking.0.accepts(operation, granted)
            &&& comes_to_work(locked, operation, position, working)
            &&& working.accepts(operation, done)
            &&& unlocking.1 == Action::<S, T, E, R>::SpawnUnlocking(locked_file)
            &&& unlocking.0.accepts(operation, released)
            &&& end.0 == (LockView { unlocked_file: Some(back), ..s })
            &&& end.1 == Action::<S, T, E, R>::Return(
                Poll::Ready(
                    match unlocked {
                        Ok(_) => worked,
                        Err(e) => Err(e),
                    },
                ),
            )
        }),
{
    if let Ok(outcome) = worked {
        outcome.lemma_count();
    }
}

/// An operation on an idle file whose lock was asked for by hand, and refused, takes the
/// lock, seeks, works and returns what its work gave. The lock is then kept by hand.
pub proof fn operation_after_refused_lock<S, T, E, R: Outcome>(
    s: LockView<S, T, E>,
    operation: Operation,
    file: S,
    locked_file: T,
    position: u64,
    worked: Result<R, E>,
)
    requires
        idle(s, file),
        s.is_manually_locked,
    ensures
        ({
            let polled = Event::<S, T, E, R>::Polled;
            let granted = Event::<S, T, E, R>::Locking(Poll::Ready(Ok(locked_file)));
            let done = Event::<S, T, E, R>::Worked(Poll::Ready(worked));
            let locking = s.step(operation, polled);
            let locked = locking.0.step(operation, granted);
            let working = LockView {
                state: State::Working,
                unlocked_file: None,
                locked_file: Some(locked_file),
                held: Some(operation.kind()),
                ..s
            };
            &&& s.accepts(operation, polled)
            &&& locking.1 == Action::<S, T, E, R>::SpawnLocking(
                LockRequest { kind: operation.kind(), wait: true, file },
            )
            &&& locking.0.accepts(operation, granted)
            &&& comes_to_work(locked, operation, position, working)
            &&& working.accepts(operation, done)
            &&& working.step(operation, done) == (
                LockView { state: State::Locked, ..working },
                Action::<S, T, E, R>::Return(Poll::Ready(worked)),
            )
        }),
{
}

/// An operation on a file that was locked by hand seeks, works and returns what
/// its work gave. The lock is then as it was.
pub proof fn operation_on_manually_locked_file<S, T, E, R: Outcome>(
    s: LockView<S, T, E>,
    operation: Operation,
    position: u64,
    worked: Result<R, E>,
)
    requires
        s.wf(),
        s.state is Locked,
        s.is_manually_locked,
    ensures
        ({
            let polled = Event::<S, T, E, R>::Polled;
            let done = Event::<S, T, E, R>::Worked(Poll::Ready(worked));
            let working = LockView { state: State::Working, ..s };
            &&& s.accepts(operation, polled)
            &&& comes_to_work(s.step(operation, polled), operation, position, working)
            &&& working.accepts(operation, done)
            &&& working.step(operation, done) == (
                s,
                Action::<S, T, E, R>::Return(Poll::Ready(worked)),
            )
        }),
{
}

/// A seek that fails ends the operation with its error and without its work. A lock
/// that was taken by hand stays, at rest; another one is given up first.
pub proof fn failed_seek_ends_operation<S, T, E, R: Outcome>(
    s: LockView<S, T, E>,
    operation: Operation,
    event: Event<S, T, E, R>,
    e: E,
    back: S,
)
    requires
        s.wf(),
        s.accepts(operation, event),
        event == Event::<S, T, E, R>::SeekStarted(Poll::Ready(Err(e))) || event == Event::<
            S,
            T,
            E,
            R,
        >::SeekCompleted(Poll::Ready(Err(e))),
    ensures
        ({
            let failed = s.step(operation, event);
            let released = Event::<S, T, E, R>::Unlocking(Poll::Ready((back, Ok(()))));
            let returned = Action::<S, T, E, R>::Return(Poll::Ready(Err(e)));
            if s.is_manually_locked {
                failed == (LockView { state: State::Locked, ..s }, returned)
            } else {
                &&& failed.1 == Action::<S, T, E, R>::SpawnUnlocking(s.locked_file->0)
                &&& failed.0.accepts(operation, released)
                &&& failed.0.step(operation, released) == (
                    LockView {
                        state: State::Unlocked,
                        locked_file: None,
                        held: None,
                        unlocked_file: Some(back),
                        result: None,
                        ..s
                    },
                    returned,
                )
            }
        }),
{
}

/// A lock that another operation has left behind and that does not suit this one is
/// given up, and a lock of this one's kind is asked for.
pub proof fn left_lock_is_replaced<S, T, E, R: Outcome>(
    s: LockView<S, T, E>,
    operation: Operation,
    back: S,
)
    requires
        s.wf(),
        s.locked_file is Some,
        s.result is None,
        !s.suits(operation, s.held->0),
    ensures
        ({
            let polled = Event::<S, T, E, R>::Polled;
            let released = Event::<S, T, E, R>::Unlocking(Poll::Ready((back, Ok(()))));
            let given_up = s.step(operation, polled);
            &&& s.accepts(operation, polled)
            &&& given_up.1 == Action::<S, T, E, R>::SpawnUnlocking(s.locked_file->0)
            &&& given_up.0.accepts(operation, released)
            &&& given_up.0.step(operation, released).1 == Action::<S, T, E, R>::SpawnLocking(
                LockRequest { kind: operation.kind(), wait: true, file: back },
            )
        }),
{
}

/// The outcome that another operation has left behind is not returned: this one
/// drops it and asks for its own lock.
pub proof fn left_outcome_is_dropped<S, T, E, R: Outcome>(
    s: LockView<S, T, E>,
    operation: Operation,
    of: Operation,
    outcome: Result<u64, E>,
    back: S,
)
    requires
        s.wf(),
        s.result == Some(Kept::Ended(of, outcome)),
        of != operation,
    ensures
        ({
            let released = Event::<S, T, E, R>::Unlocking(Poll::Ready((back, Ok(()))));
            let locking = s.step(operation, released);
            &&& s.accepts(operation, released)
            &&& locking.0.result is None
            &&& locking.1 == Action::<S, T, E, R>::SpawnLocking(
                LockRequest { kind: operation.kind(), wait: true, file: back },
            )
        }),
{
}

/// An operation that cannot have its lock returns why, and the file is idle again.
pub proof fn operation_without_lock<S, T, E, R: Outcome>(
    s: LockView<S, T, E>,
    operation: Operation,
    file: S,
    back: S,
    e: E,
)
    requires
        idle(s, file),
    ensures
        ({
            let polled = Event::<S, T, E, R>::Polled;
            let refused = Event::<S, T, E, R>::Locking(Poll::Ready(Err((back, e))));
            let locking = s.step(operation, polled).0;
            &&& locking.accepts(operation, refused)
            &&& locking.step(operation, refused) == (
                LockView { unlocked_file: Some(back), ..s },
                Action::<S, T, E, R>::Return(Poll::Ready(Err(e))),
            )
        }),
{
}

/// Unlocking undoes locking: a file that is locked by hand and unlocked again is
/// where it was, and is not locked by hand any more.
pub proof fn unlock_undoes_lock<S, T, E>(
    s: LockView<S, T, E>,
    kind: LockKind,
    locked_file: T,
    back: S,
)
    requires
        s.wf(),
        s.unlocked_file is Some,
    ensures
        ({
            let locked = s.lock_by_hand(kind).end_locking(Ok(locked_file));
            &&& locked.wf()
            &&& locked.state is Locked
            &&& locked.locked_file == Some(locked_file)
            &&& locked.held == Some(kind)
            &&& locked.unlock_by_hand().end_unlocking(back, Ok(())) == (LockView {
                unlocked_file: Some(back),
                is_manually_locked: false,
                ..s
            })
        }),
{
}

/// A lock that was asked for by hand and refused leaves all as it was, but for the
/// mark that a lock was asked for by hand.
pub proof fn refused_lock_leaves_file<S, T, E>(
    s: LockView<S, T, E>,
    kind: LockKind,
    back: S,
    e: E,
)
    requires
        s.wf(),
        s.unlocked_file is Some,
    ensures
        s.lock_by_hand(kind).end_locking(Err((back, e))) == (LockView {
            unlocked_file: Some(back),
            is_manually_locked: true,
            ..s
        }),
{
}

/// A seek or a sync by hand gives the file back to a lock that is otherwise as it
/// was.
pub proof fn seek_and_sync_give_file_back<S, T, E>(s: LockView<S, T, E>, back: S)
    requires
        s.wf(),
        s.unlocked_file is Some,
    ensures
        s.begin_seek().seeking,
        s.begin_seek().end_seek(back) == (LockView { unlocked_file: Some(back), ..s }),
        s.begin_sync().syncing(),
        s.begin_sync().end_sync(back) == (LockView { unlocked_file: Some(back), ..s }),
{
}

/// A failure to unlock by hand is not lost: the next operation returns it, and
/// does nothing else.
pub proof fn unlock_failure_is_returned<S, T, E, R: Outcome>(
    s: LockView<S, T, E>,
    operation: Operation,
    back: S,
    e: E,
)
    requires
        s.wf(),
        s.locked_file is Some,
    ensures
        ({
            let unlocked = s.unlock_by_hand().end_unlocking(back, Err(e));
            let polled = Event::<S, T, E, R>::Polled;
            &&& unlocked.wf()
            &&& unlocked.accepts(operation, polled)
            &&& unlocked.step(operation, polled) == (
                LockView { result: None, ..unlocked },
                Action::<S, T, E, R>::Return(Poll::Ready(Err(e))),
            )
        }),
{
}

/// Whether an event says that a step is not through.
pub open spec fn is_pending<S, T, E, R>(event: Event<S, T, E, R>) -> bool {
    match event {
        Event::Polled => false,
        Event::Locking(polled) => polled is Pending,
        Event::Unlocking(polled) => polled is Pending,
        Event::SeekStarted(polled) => polled is Pending,
        Event::SeekCompleted(polled) => polled is Pending,
        Event::Worked(polled) => polled is Pending,
    }
}

/// The action that an event answers, on a lock in this state.
pub open spec fn answered<S, T, E, R>(s: LockView<S, T, E>, event: Event<S, T, E, R>) -> Action<
    S,
    T,
    E,
    R,
>
    recommends
        event !is Polled,
{
    match event {
        Event::Locking(_) => Action::PollLocking,
        Event::Unlocking(_) => Action::PollUnlocking,
        Event::SeekStarted(_) => Action::StartSeek(s.mode),
        Event::SeekCompleted(_) => Action::PollSeek,
        _ => Action::Work,
    }
}

/// A step that is not through changes nothing, the operation is pending and under way,
/// and polling it again asks for that very step.
pub proof fn pending_step_is_resumed<S, T, E, R: Outcome>(
    s: LockView<S, T, E>,
    operation: Operation,
    event: Event<S, T, E, R>,
)
    requires
        s.wf(),
        s.accepts(operation, event),
        is_pending(event),
    ensures
        s.step(operation, event) == (s, Action::<S, T, E, R>::Return(Poll::Pending)),
        s.accepts(operation, Event::<S, T, E, R>::Polled),
        s.step(operation, Event::<S, T, E, R>::Polled) == (s, answered(s, event)),
        !s.at_rest(),
{
}

/// How many steps an operation can still take before it returns. A lock that it
/// finds being taken and cannot use costs it two of them.
pub open spec fn steps_left<S, T, E>(s: LockView<S, T, E>, operation: Operation) -> int {
    match s.state {
        State::Unlocked => 5,
        State::Unlocking => match s.result {
            Some(Kept::UnlockFailure(_)) => 1,
            Some(Kept::Ended(of, _)) if of == operation => 1,
            _ => 6,
        },
        State::Locking => if s.suits(operation, s.locking->0) {
            5
        } else {
            7
        },
        State::Locked => 4,
        State::Starting => 4,
        State::Seeking => 3,
        State::Working => 2,
    }
}

/// The lock after an operation took these events in turn.
pub open spec fn after<S, T, E, R: Outcome>(
    s: LockView<S, T, E>,
    operation: Operation,
    events: Seq<Event<S, T, E, R>>,
) -> LockView<S, T, E>
    decreases events.len(),
{
    if events.len() == 0 {
        s
    } else {
        after(s, operation, events.drop_last()).step(operation, events.last()).0
    }
}

/// What an operation does upon one of the events that it takes in turn.
pub open spec fn action_at<S, T, E, R: Outcome>(
    s: LockView<S, T, E>,
    operation: Operation,
    events: Seq<Event<S, T, E, R>>,
    i: int,
) -> Action<S, T, E, R> {
    after(s, operation, events.take(i)).step(operation, events[i]).1
}

/// Whether these events are one poll of an operation: the poll, then the answers
/// to what it asked for.
pub open spec fn is_one_poll<S, T, E, R: Outcome>(
    s: LockView<S, T, E>,
    operation: Operation,
    events: Seq<Event<S, T, E, R>>,
) -> bool {
    &&& forall|i: int|
        0 <= i < events.len() ==> after(s, operation, events.take(i)).accepts(
            operation,
            #[trigger] events[i],
        )
    &&& forall|i: int| 0 <= i < events.len() ==> (#[trigger] events[i] is Polled <==> i == 0)
    &&& forall|i: int|
        0 <= i < events.len() - 1 ==> #[trigger] action_at(s, operation, events, i) !is Return
}

/// Every step that does not end a poll leaves fewer of them.
pub proof fn step_leaves_fewer<S, T, E, R: Outcome>(
    s: LockView<S, T, E>,
    operation: Operation,
    event: Event<S, T, E, R>,
)
    requires
        s.wf(),
        s.accepts(operation, event),
    ensures
        1 <= steps_left(s, operation) <= 7,
        event !is Polled && s.step(operation, event).1 !is Return ==> steps_left(
            s.step(operation, event).0,
            operation,
        ) < steps_left(s, operation),
{
}

/// The bound on one poll, by induction on the poll.
proof fn lemma_poll_is_short<S, T, E, R: Outcome>(
    s: LockView<S, T, E>,
    operation: Operation,
    events: Seq<Event<S, T, E, R>>,
)
    requires
        s.wf(),
        is_one_poll(s, operation, events),
        events.len() > 0,
    ensures
        after(s, operation, events).wf(),
        events.len() <= 8,
        action_at(s, operation, events, events.len() - 1) !is Return ==> events.len() + steps_left(
            after(s, operation, events),
            operation,
        ) <= 8,
    decreases events.len(),
{
    let n = events.len() as int;
    let before = events.drop_last();
    let s1 = after(s, operation, before);
    assert(before =~= events.take(n - 1));
    assert(s1.accepts(operation, events[n - 1]));
    if n == 1 {
        assert(s1 == s);
    } else {
        assert(is_one_poll(s, operation, before)) by {
            assert forall|i: int| 0 <= i < n - 1 implies #[trigger] before.take(i) == events.take(
                i,
            ) by {
                assert(before.take(i) =~= events.take(i));
            }
            assert forall|i: int| 0 <= i < n - 1 implies after(
                s,
                operation,
                before.take(i),
            ).accepts(operation, #[trigger] before[i]) by {
                assert(before[i] == events[i]);
                assert(before.take(i) == events.take(i));
            }
            assert forall|i: int| 0 <= i < n - 1 implies (#[trigger] before[i] is Polled <==> i
                == 0) by {
                assert(before[i] == events[i]);
            }
            assert forall|i: int| 0 <= i < n - 2 implies #[trigger] action_at(
                s,
                operation,
                before,
                i,
            ) !is Return by {
                assert(before.take(i) == events.take(i));
                assert(action_at(s, operation, events, i) !is Return);
            }
        }
        lemma_poll_is_short(s, operation, before);
        assert(action_at(s, operation, before, n - 2) == action_at(s, operation, events, n - 2)) by {
            assert(before.take(n - 2) =~= events.take(n - 2));
        }
        assert(action_at(s, operation, events, n - 2) !is Return);
    }
    operation_keeps_file(s1, operation, events[n - 1]);
    step_leaves_fewer(s1, operation, events[n - 1]);
}

/// A poll is over after seven steps at most: it has then returned.
pub proof fn poll_ends<S, T, E, R: Outcome>(
    s: LockView<S, T, E>,
    operation: Operation,
    events: Seq<Event<S, T, E, R>>,
)
    requires
        s.wf(),
        is_one_poll(s, operation, events),
    ensures
        events.len() <= 8,
        events.len() == 8 ==> action_at(s, operation, events, 7) is Return,
{
    if events.len() > 0 {
        lemma_poll_is_short(s, operation, events);
    }
}

/// Whether an action ends its operation.
pub open spec fn ends_operation<S, T, E, R>(action: Action<S, T, E, R>) -> bool {
    action matches Action::Return(Poll::Ready(_))
}

/// Whether these events are one operation, over any number of polls: each answers what
/// the operation waits for, and only the last may end it.
pub open spec fn is_one_operation<S, T, E, R: Outcome>(
    s: LockView<S, T, E>,
    operation: Operation,
    events: Seq<Event<S, T, E, R>>,
) -> bool {
    &&& forall|i: int|
        0 <= i < events.len() ==> after(s, operation, events.take(i)).accepts(
            operation,
            #[trigger] events[i],
        )
    &&& forall|i: int|
        0 <= i < events.len() - 1 ==> !ends_operation(#[trigger] action_at(s, operation, events, i))
}

/// How far an operation has come.
spec fn stage<S, T, E>(s: LockView<S, T, E>) -> int {
    match s.state {
        State::Unlocked => 0,
        State::Locking => 1,
        State::Locked => 2,
        State::Starting => 3,
        State::Seeking => 4,
        State::Working => 5,
        State::Unlocking => 6,
    }
}

/// Whether nothing that another operation has left behind is in the way of this one.
spec fn is_clear<S, T, E>(s: LockView<S, T, E>, operation: Operation) -> bool {
    &&& s.wf()
    &&& match s.state {
        State::Unlocked => s.unlocked_file is Some && s.result is None,
        State::Locking => s.suits(operation, s.locking->0) && s.result is None,
        State::Unlocking => s.result matches Some(Kept::Ended(of, _)) && of == operation,
        _ => s.suits(operation, s.held->0) && s.result is None,
    }
}

/// A step that does not end an operation leads it on.
proof fn lemma_step_leads_on<S, T, E, R: Outcome>(
    s: LockView<S, T, E>,
    operation: Operation,
    event: Event<S, T, E, R>,
)
    requires
        is_clear(s, operation),
        s.accepts(operation, event),
    ensures
        !ends_operation(s.step(operation, event).1) ==> {
            &&& is_clear(s.step(operation, event).0, operation)
            &&& stage(s) <= stage(s.step(operation, event).0)
            &&& event matches Event::Worked(Poll::Ready(_)) ==> stage(s.step(operation, event).0)
                == 6
        },
        s.step(operation, event).1 is SpawnLocking ==> stage(s) == 0 && stage(
            s.step(operation, event).0,
        ) == 1,
        s.step(operation, event).1 is SpawnUnlocking ==> stage(s) < 6 && stage(
            s.step(operation, event).0,
        ) == 6,
        event matches Event::Worked(Poll::Ready(_)) ==> stage(s) == 5,
{
    operation_keeps_file(s, operation, event);
}

/// The lock after one more event.
proof fn lemma_after_next<S, T, E, R: Outcome>(
    s: LockView<S, T, E>,
    operation: Operation,
    events: Seq<Event<S, T, E, R>>,
    i: int,
)
    requires
        0 <= i < events.len(),
    ensures
        after(s, operation, events.take(i + 1)) == after(s, operation, events.take(i)).step(
            operation,
            events[i],
        ).0,
{
    assert(events.take(i + 1).drop_last() =~= events.take(i));
    assert(events.take(i + 1).last() == events[i]);
}

/// An operation does not go back.
proof fn lemma_operation_leads_on<S, T, E, R: Outcome>(
    s: LockView<S, T, E>,
    operation: Operation,
    events: Seq<Event<S, T, E, R>>,
    i: int,
    j: int,
)
    requires
        is_clear(s, operation),
        is_one_operation(s, operation, events),
        0 <= i <= j < events.len(),
    ensures
        is_clear(after(s, operation, events.take(j)), operation),
        stage(after(s, operation, events.take(i))) <= stage(after(s, operation, events.take(j))),
    decreases j,
{
    if j == 0 {
        assert(events.take(0) =~= Seq::empty());
    } else {
        lemma_operation_leads_on(
            s,
            operation,
            events,
            if i < j {
                i
            } else {
                j - 1
            },
            j - 1,
        );
        assert(after(s, operation, events.take(j - 1)).accepts(operation, events[j - 1]));
        assert(!ends_operation(action_at(s, operation, events, j - 1)));
        lemma_step_leads_on(after(s, operation, events.take(j - 1)), operation, events[j - 1]);
        lemma_after_next(s, operation, events, j - 1);
    }
}

/// One operation, over any number of polls, asks for one lock at most and for one
/// unlock at most, and has its work done once at most. It starts on a file that is
/// idle, or that was locked by hand.
pub proof fn operation_does_all_once<S, T, E, R: Outcome>(
    s: LockView<S, T, E>,
    operation: Operation,
    events: Seq<Event<S, T, E, R>>,
    i: int,
    j: int,
)
    requires
        s.wf(),
        s.result is None,
        s.unlocked_file is Some || s.locked_file is Some && s.is_manually_locked,
        is_one_operation(s, operation, events),
        0 <= i < j < events.len(),
    ensures
        !(action_at(s, operation, events, i) is SpawnLocking && action_at(
            s,
            operation,
            events,
            j,
        ) is SpawnLocking),
        !(action_at(s, operation, events, i) is SpawnUnlocking && action_at(
            s,
            operation,
            events,
            j,
        ) is SpawnUnlocking),
        !(events[i] matches Event::Worked(Poll::Ready(_))) || !(events[j] matches Event::Worked(
            Poll::Ready(_),
        )),
{
    lemma_operation_leads_on(s, operation, events, i + 1, j);
    lemma_operation_leads_on(s, operation, events, i, i);
    assert(after(s, operation, events.take(i)).accepts(operation, events[i]));
    assert(after(s, operation, events.take(j)).accepts(operation, events[j]));
    assert(!ends_operation(action_at(s, operation, events, i)));
    lemma_step_leads_on(after(s, operation, events.take(i)), operation, events[i]);
    lemma_step_leads_on(after(s, operation, events.take(j)), operation, events[j]);
    lemma_after_next(s, operation, events, i);
}

/// Whether an operation may work under a lock of a kind: any operation may under a lock
/// that was asked for by hand, a read under any lock, the others under an exclusive one.
pub open spec fn may_work(by_hand: bool, kind: Option<LockKind>, operation: Operation) -> bool {
    by_hand || operation is Read || kind == Some(LockKind::Exclusive)
}

/// What is kept for an operation to return, if anything is.
pub open spec fn kept_for<E, R: Outcome>(kept: Option<Kept<E>>, operation: Operation) -> Option<
    Result<R, E>,
> {
    match kept {
        Some(Kept::UnlockFailure(e)) => Some(Err(e)),
        Some(Kept::Ended(of, Ok(n))) => if of == operation {
            Some(Ok(R::of_count(n)))
        } else {
            None
        },
        Some(Kept::Ended(of, Err(e))) => if of == operation {
            Some(Err(e))
        } else {
            None
        },
        None => None,
    }
}

/// How an event ends an operation under a lock, if it does: its work is done, or its
/// seek has failed.
pub open spec fn ended<S, T, E, R>(event: Event<S, T, E, R>) -> Option<Result<R, E>> {
    match event {
        Event::Worked(Poll::Ready(worked)) => Some(worked),
        Event::SeekStarted(Poll::Ready(Err(e))) => Some(Err(e)),
        Event::SeekCompleted(Poll::Ready(Err(e))) => Some(Err(e)),
        _ => None,
    }
}

/// What an operation owes its caller upon an event, if it owes anything: why the lock
/// was refused or could not be given up, what was kept for it, or how it ended under a
/// lock that stays.
pub open spec fn due<S, T, E, R: Outcome>(
    s: LockView<S, T, E>,
    operation: Operation,
    event: Event<S, T, E, R>,
) -> Option<Result<R, E>> {
    match event {
        Event::Locking(Poll::Ready(Err((_, e)))) => Some(Err(e)),
        Event::Unlocking(Poll::Ready((_, Err(e)))) => Some(Err(e)),
        Event::Unlocking(Poll::Ready((_, Ok(_)))) => kept_for(s.result, operation),
        Event::Polled => if s.state is Unlocked {
            kept_for(s.result, operation)
        } else {
            None
        },
        _ => if s.is_manually_locked {
            ended(event)
        } else {
            None
        },
    }
}

/// Whether an event finds a lock held, or brings one, that the operation may work
/// under.
pub open spec fn has_lock<S, T, E, R>(
    s: LockView<S, T, E>,
    operation: Operation,
    event: Event<S, T, E, R>,
) -> bool {
    match event {
        Event::Polled => s.locked_file is Some && may_work(
            s.is_manually_locked,
            s.held,
            operation,
        ),
        Event::Locking(Poll::Ready(Ok(_))) => may_work(
            s.is_manually_locked,
            s.locking,
            operation,
        ),
        _ => false,
    }
}

/// An event is accepted in its turn and only then. A poll is, unless the file is away
/// to be sought in or synced and nothing is kept to return; an answer is, while an
/// operation waits for it and may work under the lock that is held.
pub proof fn event_is_accepted_in_turn<S, T, E, R>(
    s: LockView<S, T, E>,
    operation: Operation,
    event: Event<S, T, E, R>,
)
    requires
        s.wf(),
    ensures
        s.accepts(operation, event) <==> match event {
            Event::Polled => {
                ||| s.unlocked_file is Some
                ||| s.locked_file is Some
                ||| s.locking is Some
                ||| s.unlocking
                ||| s.result is Some
            },
            Event::Locking(_) => s.state is Locking,
            Event::Unlocking(_) => s.unlocking,
            Event::SeekStarted(_) => s.state is Starting && s.mode != SeekFrom::Current(0)
                && may_work(s.is_manually_locked, s.held, operation),
            Event::SeekCompleted(_) => s.state is Seeking && may_work(
                s.is_manually_locked,
                s.held,
                operation,
            ),
            Event::Worked(_) => s.state is Working && may_work(
                s.is_manually_locked,
                s.held,
                operation,
            ),
        },
{
}

/// Whether an event answers an action.
pub open spec fn answers<S, T, E, R>(event: Event<S, T, E, R>, action: Action<S, T, E, R>) -> bool {
    match action {
        Action::SpawnLocking(_) => event is Locking,
        Action::PollLocking => event is Locking,
        Action::SpawnUnlocking(_) => event is Unlocking,
        Action::PollUnlocking => event is Unlocking,
        Action::StartSeek(_) => event is SeekStarted,
        Action::PollSeek => event is SeekCompleted,
        Action::Work => event is Worked,
        Action::Return(_) => false,
    }
}

/// What an operation asks for can be answered, whatever the answer: after every step
/// that does not return, every answer is accepted, and so is another poll.
pub proof fn every_answer_is_accepted<S, T, E, R: Outcome>(
    s: LockView<S, T, E>,
    operation: Operation,
    event: Event<S, T, E, R>,
    answer: Event<S, T, E, R>,
)
    requires
        s.wf(),
        s.accepts(operation, event),
        answers(answer, s.step(operation, event).1),
    ensures
        s.step(operation, event).0.accepts(operation, answer),
        s.step(operation, event).0.accepts(operation, Event::<S, T, E, R>::Polled),
{
}

/// No step of an operation touches what is set by hand: the seeking mode, whether the
/// lock is kept by hand, and whether a seek by hand has the file.
pub proof fn operation_keeps_settings<S, T, E, R: Outcome>(
    s: LockView<S, T, E>,
    operation: Operation,
    event: Event<S, T, E, R>,
)
    requires
        s.wf(),
        s.accepts(operation, event),
    ensures
        s.step(operation, event).0.mode == s.mode,
        s.step(operation, event).0.is_manually_locked == s.is_manually_locked,
        s.step(operation, event).0.seeking == s.seeking,
{
}

/// An operation is pending exactly if something that it asked for is: it never waits for
/// nothing.
pub proof fn operation_pends_with_its_answer<S, T, E, R: Outcome>(
    s: LockView<S, T, E>,
    operation: Operation,
    event: Event<S, T, E, R>,
)
    requires
        s.wf(),
        s.accepts(operation, event),
    ensures
        s.step(operation, event).1 == Action::<S, T, E, R>::Return(Poll::Pending) <==> is_pending(
            event,
        ),
        is_pending(event) ==> s.step(operation, event).0 == s,
{
}

/// An operation returns exactly what it owes, as soon as it owes it.
pub proof fn operation_returns_what_is_due<S, T, E, R: Outcome>(
    s: LockView<S, T, E>,
    operation: Operation,
    event: Event<S, T, E, R>,
    result: Result<R, E>,
)
    requires
        s.wf(),
        s.accepts(operation, event),
    ensures
        s.step(operation, event).1 == Action::<S, T, E, R>::Return(Poll::Ready(result))
            <==> due(s, operation, event) == Some(result),
{
}

/// An operation that owes nothing yet asks for a lock exactly if it finds the file
/// unlocked or has just got it back unlocked: for an exclusive one, for a read for a
/// shared one, and it waits for it. It asks after the lock while a task takes it.
pub proof fn operation_locks_an_unlocked_file<S, T, E, R: Outcome>(
    s: LockView<S, T, E>,
    operation: Operation,
    event: Event<S, T, E, R>,
    request: LockRequest<S>,
)
    requires
        s.wf(),
        s.accepts(operation, event),
    ensures
        s.step(operation, event).1 == Action::<S, T, E, R>::SpawnLocking(request) <==> {
            &&& due(s, operation, event) is None
            &&& match event {
                Event::Polled => s.unlocked_file == Some(request.file),
                Event::Unlocking(Poll::Ready((file, _))) => file == request.file,
                _ => false,
            }
            &&& request.kind == if operation is Read {
                LockKind::Shared
            } else {
                LockKind::Exclusive
            }
            &&& request.wait
        },
        s.step(operation, event).1 is PollLocking <==> {
            &&& event is Polled
            &&& s.locking is Some
            &&& due(s, operation, event) is None
        },
{
}

/// An operation has the file unlocked exactly if the lock is not kept by hand, and the
/// operation has ended or cannot work under that lock. It asks after the unlocking while
/// a task is at it.
pub proof fn operation_unlocks_what_it_is_through_with<S, T, E, R: Outcome>(
    s: LockView<S, T, E>,
    operation: Operation,
    event: Event<S, T, E, R>,
    file: T,
)
    requires
        s.wf(),
        s.accepts(operation, event),
    ensures
        s.step(operation, event).1 == Action::<S, T, E, R>::SpawnUnlocking(file) <==> {
            &&& !s.is_manually_locked
            &&& match event {
                Event::Polled => s.locked_file == Some(file) && !has_lock(s, operation, event),
                Event::Locking(Poll::Ready(Ok(locked))) => locked == file && !has_lock(
                    s,
                    operation,
                    event,
                ),
                _ => s.locked_file == Some(file) && ended(event) is Some,
            }
        },
        s.step(operation, event).1 is PollUnlocking <==> event is Polled && s.unlocking,
{
}

/// An operation that has its lock seeks to the seeking mode before it works: to that
/// location and to no other. It does not seek if the seeking mode leaves the cursor
/// where it is, nor again once it has sought.
pub proof fn operation_seeks_to_the_mode<S, T, E, R: Outcome>(
    s: LockView<S, T, E>,
    operation: Operation,
    event: Event<S, T, E, R>,
    to: SeekFrom,
)
    requires
        s.wf(),
        s.accepts(operation, event),
    ensures
        s.step(operation, event).1 == Action::<S, T, E, R>::StartSeek(to) <==> {
            &&& has_lock(s, operation, event)
            &&& !(s.state is Seeking || s.state is Working)
            &&& to == s.mode
            &&& to != SeekFrom::Current(0)
        },
        s.step(operation, event).1 is PollSeek <==> {
            ||| event matches Event::SeekStarted(Poll::Ready(Ok(_)))
            ||| event is Polled && s.state is Seeking && has_lock(s, operation, event)
        },
{
}

/// An operation works once it has its lock and has sought, and at once if the seeking
/// mode leaves the cursor where it is.
pub proof fn operation_works_once_it_can<S, T, E, R: Outcome>(
    s: LockView<S, T, E>,
    operation: Operation,
    event: Event<S, T, E, R>,
)
    requires
        s.wf(),
        s.accepts(operation, event),
    ensures
        s.step(operation, event).1 is Work <==> {
            ||| event matches Event::SeekCompleted(Poll::Ready(Ok(_)))
            ||| has_lock(s, operation, event) && s.state is Working
            ||| has_lock(s, operation, event) && s.state !is Seeking && s.mode
                == SeekFrom::Current(0)
        },
{
}

/// What an operation asks for is what the lock then waits for, and once it has returned
/// the lock is at rest: locked if it is kept by hand and was held, or else unlocked.
pub proof fn operation_waits_for_what_it_asks<S, T, E, R: Outcome>(
    s: LockView<S, T, E>,
    operation: Operation,
    event: Event<S, T, E, R>,
)
    requires
        s.wf(),
        s.accepts(operation, event),
    ensures
        s.step(operation, event).0.state == match s.step(operation, event).1 {
            Action::SpawnLocking(_) => State::Locking,
            Action::PollLocking => State::Locking,
            Action::SpawnUnlocking(_) => State::Unlocking,
            Action::PollUnlocking => State::Unlocking,
            Action::StartSeek(_) => State::Starting,
            Action::PollSeek => State::Seeking,
            Action::Work => State::Working,
            Action::Return(Poll::Pending) => s.state,
            Action::Return(Poll::Ready(_)) => if s.is_manually_locked && s.locked_file is Some {
                State::Locked
            } else {
                State::Unlocked
            },
        },
{
}

/// An operation moves the file only as it says: the file is where it was, or where the
/// event brings it, until an action hands it out to be locked or unlocked.
pub proof fn operation_moves_the_file_as_it_says<S, T, E, R: Outcome>(
    s: LockView<S, T, E>,
    operation: Operation,
    event: Event<S, T, E, R>,
)
    requires
        s.wf(),
        s.accepts(operation, event),
    ensures
        s.step(operation, event).0.unlocked_file == if s.step(operation, event).1 is SpawnLocking {
            None
        } else {
            match event {
                Event::Locking(Poll::Ready(Err((file, _)))) => Some(file),
                Event::Unlocking(Poll::Ready((file, _))) => Some(file),
                _ => s.unlocked_file,
            }
        },
        s.step(operation, event).0.locked_file == if s.step(operation, event).1 is SpawnUnlocking {
            None
        } else {
            match event {
                Event::Locking(Poll::Ready(Ok(file))) => Some(file),
                _ => s.locked_file,
            }
        },
        s.step(operation, event).0.held == if s.step(operation, event).0.locked_file is None {
            None
        } else {
            match event {
                Event::Locking(_) => s.locking,
                _ => s.held,
            }
        },
        s.step(operation, event).0.locking == match s.step(operation, event).1 {
            Action::SpawnLocking(request) => Some(request.kind),
            _ => match event {
                Event::Locking(Poll::Ready(_)) => None,
                _ => s.locking,
            },
        },
        s.step(operation, event).0.unlocking == match s.step(operation, event).1 {
            Action::SpawnUnlocking(_) => true,
            _ => match event {
                Event::Unlocking(Poll::Ready(_)) => false,
                _ => s.unlocking,
            },
        },
{
}

/// An operation that has ended keeps how it ended while its lock is given up. What is
/// kept goes once it is returned, and once an operation for which it is not kept has the
/// file unlocked; nothing else touches it.
pub proof fn operation_keeps_how_it_ended<S, T, E, R: Outcome>(
    s: LockView<S, T, E>,
    operation: Operation,
    event: Event<S, T, E, R>,
)
    requires
        s.wf(),
        s.accepts(operation, event),
    ensures
        s.step(operation, event).0.result == match event {
            Event::Polled => if s.state is Unlocked {
                None
            } else {
                s.result
            },
            Event::Unlocking(Poll::Ready(_)) => None,
            _ => match ended(event) {
                Some(worked) => if s.is_manually_locked {
                    s.result
                } else {
                    Some(
                        Kept::Ended(
                            operation,
                            match worked {
                                Ok(outcome) => Ok(outcome.count()),
                                Err(e) => Err(e),
                            },
                        ),
                    )
                },
                None => s.result,
            },
        },
{
}

/// How an operation ended is returned from it as it was: keeping it while the lock is
/// given up changes nothing.
pub proof fn kept_outcome_comes_back<S, T, E, R: Outcome>(
    s: LockView<S, T, E>,
    operation: Operation,
    event: Event<S, T, E, R>,
    back: S,
)
    requires
        s.wf(),
        s.accepts(operation, event),
        ended(event) is Some,
        !s.is_manually_locked,
    ensures
        ({
            let released = Event::<S, T, E, R>::Unlocking(Poll::Ready((back, Ok(()))));
            let unlocking = s.step(operation, event).0;
            &&& unlocking.accepts(operation, released)
            &&& unlocking.step(operation, released).1 == Action::<S, T, E, R>::Return(
                Poll::Ready(ended(event)->0),
            )
            &&& unlocking.step(operation, released).0.unlocked_file == Some(back)
            &&& unlocking.step(operation, released).0.locked_file is None
        }),
{
    if let Event::Worked(Poll::Ready(Ok(outcome))) = event {
        outcome.lemma_count();
    }
}

/// A new lock has its file, unlocked and at rest. Nothing is asked for by hand, and
/// operations leave the cursor where it is.
pub proof fn new_lock_is_idle<S, T, E>(file: S)
    ensures
        ({
            let s = LockView::<S, T, E>::new(file);
            &&& s.wf()
            &&& s.state is Unlocked
            &&& s.unlocked_file == Some(file)
            &&& s.locked_file is None
            &&& s.held is None
            &&& s.locking is None
            &&& !s.unlocking
            &&& !s.seeking
            &&& s.result is None
            &&& s.mode == SeekFrom::Current(0)
            &&& !s.is_manually_locked
        }),
{
}

/// Asking for a lock by hand hands the file out for that lock and has the lock kept;
/// nothing else changes.
pub proof fn lock_by_hand_is_marked<S, T, E>(s: LockView<S, T, E>, kind: LockKind)
    requires
        s.wf(),
        s.unlocked_file is Some,
    ensures
        s.lock_by_hand(kind).wf(),
        s.lock_by_hand(kind) == (LockView {
            unlocked_file: None,
            locking: Some(kind),
            is_manually_locked: true,
            ..s
        }),
{
}

/// A lock that is granted is held, of the kind that was asked for, and a refused one is
/// not. Neither touches the seeking mode, whether the lock is kept by hand, or what is
/// kept to return.
pub proof fn locking_ends_as_reported<S, T, E>(
    s: LockView<S, T, E>,
    outcome: Result<T, (S, E)>,
)
    requires
        s.wf(),
        s.locking is Some,
    ensures
        s.end_locking(outcome).wf(),
        s.end_locking(outcome).mode == s.mode,
        s.end_locking(outcome).is_manually_locked == s.is_manually_locked,
        s.end_locking(outcome).result == s.result,
        s.end_locking(outcome).locking is None,
        !s.end_locking(outcome).unlocking,
        !s.end_locking(outcome).seeking,
        match outcome {
            Ok(file) => {
                &&& s.end_locking(outcome).state is Locked
                &&& s.end_locking(outcome).locked_file == Some(file)
                &&& s.end_locking(outcome).held == s.locking
                &&& s.end_locking(outcome).unlocked_file is None
            },
            Err((file, _)) => {
                &&& s.end_locking(outcome).state is Unlocked
                &&& s.end_locking(outcome).unlocked_file == Some(file)
                &&& s.end_locking(outcome).locked_file is None
                &&& s.end_locking(outcome).held is None
            },
        },
{
}

/// A lock that was asked for by hand and granted is kept by hand.
pub proof fn granted_lock_is_kept_by_hand<S, T, E>(
    s: LockView<S, T, E>,
    kind: LockKind,
    locked_file: T,
)
    requires
        s.wf(),
        s.unlocked_file is Some,
    ensures
        s.lock_by_hand(kind).end_locking(Ok(locked_file)).is_manually_locked,
        s.lock_by_hand(kind).end_locking(Ok(locked_file)).locked_file == Some(locked_file),
        s.lock_by_hand(kind).end_locking(Ok(locked_file)).held == Some(kind),
        s.lock_by_hand(kind).end_locking(Ok(locked_file)).mode == s.mode,
{
}

/// Unlocking by hand hands the file out to be unlocked and ends the keeping by hand, in
/// whatever state the lock is; the seeking mode and what is kept to return stay.
pub proof fn unlock_by_hand_is_unmarked<S, T, E>(s: LockView<S, T, E>)
    requires
        s.wf(),
        s.locked_file is Some,
    ensures
        s.unlock_by_hand().wf(),
        !s.unlock_by_hand().is_manually_locked,
        s.unlock_by_hand() == (LockView {
            state: State::Unlocking,
            is_manually_locked: false,
            locked_file: None,
            held: None,
            unlocking: true,
            ..s
        }),
{
}

/// A file that comes back unlocked is here and the lock is at rest. A failure to unlock
/// is kept to be returned; nothing else changes.
pub proof fn unlocking_ends_as_reported<S, T, E>(
    s: LockView<S, T, E>,
    back: S,
    outcome: Result<(), E>,
)
    requires
        s.wf(),
        s.unlocking,
    ensures
        !(s.result matches Some(Kept::Ended(_, _))) ==> s.end_unlocking(back, outcome).wf(),
        s.end_unlocking(back, outcome).mode == s.mode,
        s.end_unlocking(back, outcome).is_manually_locked == s.is_manually_locked,
        s.end_unlocking(back, outcome).state is Unlocked,
        s.end_unlocking(back, outcome).unlocked_file == Some(back),
        s.end_unlocking(back, outcome).locked_file is None,
        s.end_unlocking(back, outcome).held is None,
        s.end_unlocking(back, outcome).locking is None,
        !s.end_unlocking(back, outcome).unlocking,
        !s.end_unlocking(back, outcome).seeking,
        s.end_unlocking(back, outcome).result == match outcome {
            Ok(_) => s.result,
            Err(e) => Some(Kept::UnlockFailure(e)),
        },
{
}

/// A new seeking mode, or a seek by hand in a locked file, concerns only an operation
/// that has started to seek or is past that: it has to start its seek again. A lock at
/// rest stays as it is, and so does one that is taken or given up.
pub proof fn seek_by_hand_leaves_rest<S, T, E>(s: LockView<S, T, E>, mode: SeekFrom)
    requires
        s.wf(),
    ensures
        s.forget_seek().wf(),
        (LockView { mode, ..s.forget_seek() }).wf(),
        s.forget_seek() == (LockView { state: s.forget_seek().state, ..s }),
        s.state is Seeking || s.state is Working ==> s.forget_seek().state is Starting,
        !(s.state is Seeking || s.state is Working) ==> s.forget_seek() == s,
{
}

/// A seek or a sync by hand hands an unlocked file out and changes nothing else; the
/// file that comes back is here again.
pub proof fn seek_and_sync_touch_only_the_file<S, T, E>(s: LockView<S, T, E>, back: S)
    requires
        s.wf(),
    ensures
        s.unlocked_file is Some ==> {
            &&& s.begin_seek().wf()
            &&& s.begin_sync().wf()
            &&& s.begin_seek() == (LockView { unlocked_file: None, seeking: true, ..s })
            &&& s.begin_sync() == (LockView { unlocked_file: None, ..s })
        },
        s.seeking ==> s.end_seek(back) == (LockView {
            unlocked_file: Some(back),
            seeking: false,
            ..s
        }),
        s.syncing() ==> s.end_sync(back) == (LockView { unlocked_file: Some(back), ..s }),
        s.syncing() <==> places(s) == 0,
{
}

/// Once it was sought by hand or the seeking mode was set on a lock that is held at rest,
/// the next poll of any operation asks for what it would have asked for: a seek to the
/// seeking mode, or the work if that leaves the cursor where it is.
pub proof fn poll_under_lock_goes_on<S, T, E, R: Outcome>(
    s: LockView<S, T, E>,
    operation: Operation,
    mode: SeekFrom,
)
    requires
        s.wf(),
        s.state is Locked,
        may_work(s.is_manually_locked, s.held, operation),
    ensures
        ({
            let polled = Event::<S, T, E, R>::Polled;
            let set = LockView { mode, ..s.forget_seek() };
            &&& s.forget_seek().step(operation, polled) == s.step(operation, polled)
            &&& set.accepts(operation, polled)
            &&& set.step(operation, polled).1 == if mode == SeekFrom::Current(0) {
                Action::<S, T, E, R>::Work
            } else {
                Action::<S, T, E, R>::StartSeek(mode)
            }
        }),
{
}

} // verus!
