//! Single steps of the lock, on files that are mere numbers.
use async_file_lock::{
    Action, Event, FileLock, LockKind, LockRequest, OpenFile, Operation, Outcome, Poll, SeekFrom,
    SeekSource, SeekStart, SyncKind, SyncTarget,
};

/// Unlocked files are numbers, locked files are letters.
type Lock = FileLock<u32, char, &'static str>;

fn idle() -> Lock {
    FileLock::new_std(7)
}

fn locked() -> Lock {
    let mut lock = idle();
    let request = lock.try_lock_exclusive();
    assert_eq!(request, Some(LockRequest { kind: LockKind::Exclusive, wait: false, file: 7 }));
    assert_eq!(lock.end_try_lock(Ok('g')), Ok(()));
    lock
}

fn spawn(kind: LockKind, file: u32) -> Action<u32, char, &'static str, usize> {
    Action::SpawnLocking(LockRequest { kind, wait: true, file })
}

#[test]
fn new_lock_is_idle() {
    let lock = idle();
    assert_eq!(lock.get_ref(), (Some(&7), None));
    assert_eq!(lock.seeking_mode(), SeekFrom::Current(0));
    assert_eq!(lock.open_file(), Some(OpenFile::Unlocked(&7)));
}

#[test]
fn write_locks_works_and_unlocks() {
    let mut lock = idle();
    assert_eq!(lock.poll_write(Event::Polled), spawn(LockKind::Exclusive, 7));
    assert_eq!(lock.get_ref(), (None, None));
    assert_eq!(lock.open_file(), None);
    assert_eq!(lock.poll_write(Event::Locking(Poll::Ready(Ok('g')))), Action::Work);
    assert_eq!(lock.get_ref(), (None, Some(&'g')));
    assert_eq!(lock.open_file(), None);
    assert_eq!(lock.poll_write(Event::Worked(Poll::Ready(Ok(5)))), Action::SpawnUnlocking('g'));
    assert_eq!(lock.get_ref(), (None, None));
    assert_eq!(
        lock.poll_write(Event::Unlocking(Poll::Ready((8, Ok(()))))),
        Action::Return(Poll::Ready(Ok(5)))
    );
    assert_eq!(lock.get_ref(), (Some(&8), None));
    assert_eq!(lock.poll_write(Event::Polled), spawn(LockKind::Exclusive, 8));
}

#[test]
fn read_takes_a_shared_lock() {
    let mut lock = idle();
    assert_eq!(lock.poll_read(Event::Polled), spawn(LockKind::Shared, 7));
}

#[test]
fn flush_takes_an_exclusive_lock_and_yields_nothing() {
    let mut lock = idle();
    assert_eq!(
        lock.poll_flush(Event::Polled),
        Action::SpawnLocking(LockRequest { kind: LockKind::Exclusive, wait: true, file: 7 })
    );
    assert_eq!(lock.poll_flush(Event::Locking(Poll::Ready(Ok('g')))), Action::Work);
    assert_eq!(lock.poll_flush(Event::Worked(Poll::Ready(Ok(())))), Action::SpawnUnlocking('g'));
    assert_eq!(
        lock.poll_flush(Event::Unlocking(Poll::Ready((7, Ok(()))))),
        Action::Return(Poll::Ready(Ok(())))
    );
}

#[test]
fn refused_lock_ends_the_operation() {
    let mut lock = idle();
    lock.poll_write(Event::Polled);
    assert_eq!(
        lock.poll_write(Event::Locking(Poll::Ready(Err((9, "refused"))))),
        Action::Return(Poll::Ready(Err("refused")))
    );
    assert_eq!(lock.get_ref(), (Some(&9), None));
}

#[test]
fn failed_work_is_returned_after_the_unlock() {
    let mut lock = idle();
    lock.poll_read(Event::Polled);
    lock.poll_read(Event::Locking(Poll::Ready(Ok('g'))));
    assert_eq!(
        lock.poll_read(Event::Worked(Poll::Ready(Err("broken")))),
        Action::SpawnUnlocking('g')
    );
    assert_eq!(
        lock.poll_read(Event::Unlocking(Poll::Ready((7, Ok(()))))),
        Action::Return(Poll::Ready(Err("broken")))
    );
}

#[test]
fn failed_unlock_replaces_the_result() {
    let mut lock = idle();
    lock.poll_write(Event::Polled);
    lock.poll_write(Event::Locking(Poll::Ready(Ok('g'))));
    lock.poll_write(Event::Worked(Poll::Ready(Ok(5))));
    assert_eq!(
        lock.poll_write(Event::Unlocking(Poll::Ready((7, Err("stuck"))))),
        Action::Return(Poll::Ready(Err("stuck")))
    );
    assert_eq!(lock.poll_write(Event::Polled), spawn(LockKind::Exclusive, 7));
}

#[test]
fn failed_unlock_by_hand_is_returned_once() {
    let mut lock = locked();
    let (mut future, file) = lock.unlock();
    assert_eq!(file, 'g');
    assert_eq!(future.poll(Poll::Pending), Poll::Pending);
    assert_eq!(future.poll(Poll::Ready((7, Err("stuck")))), Poll::Ready(()));
    assert_eq!(lock.poll_read(Event::Polled), Action::Return(Poll::Ready(Err("stuck"))));
    assert_eq!(lock.poll_read(Event::Polled), spawn(LockKind::Shared, 7));
}

#[test]
fn manual_lock_is_kept() {
    let mut lock = locked();
    assert_eq!(lock.poll_write(Event::Polled), Action::Work);
    assert_eq!(
        lock.poll_write(Event::Worked(Poll::Ready(Ok(1)))),
        Action::Return(Poll::Ready(Ok(1)))
    );
    assert_eq!(lock.open_file(), Some(OpenFile::Locked(&'g')));
    assert_eq!(lock.poll_read(Event::Polled), Action::Work);
    assert_eq!(
        lock.poll_read(Event::Worked(Poll::Ready(Err("broken")))),
        Action::Return(Poll::Ready(Err("broken")))
    );
    assert_eq!(lock.get_ref(), (None, Some(&'g')));
}

#[test]
fn unlock_undoes_lock() {
    let mut lock = idle();
    let (mut future, request) = lock.lock_shared();
    assert_eq!(request, LockRequest { kind: LockKind::Shared, wait: true, file: 7 });
    assert_eq!(future.poll(Poll::Pending), Poll::Pending);
    assert_eq!(future.poll(Poll::Ready(Ok('g'))), Poll::Ready(Ok(())));
    assert_eq!(lock.get_ref(), (None, Some(&'g')));
    let (mut future, file) = lock.unlock();
    assert_eq!(file, 'g');
    assert_eq!(future.poll(Poll::Ready((7, Ok(())))), Poll::Ready(()));
    assert_eq!(lock.get_ref(), (Some(&7), None));
    // The next operation gives its lock up again.
    lock.poll_write(Event::Polled);
    lock.poll_write(Event::Locking(Poll::Ready(Ok('g'))));
    assert_eq!(lock.poll_write(Event::Worked(Poll::Ready(Ok(1)))), Action::SpawnUnlocking('g'));
}

#[test]
fn refused_manual_lock_keeps_the_next_lock() {
    let mut lock = idle();
    let (mut future, request) = lock.lock_exclusive();
    assert_eq!(request, LockRequest { kind: LockKind::Exclusive, wait: true, file: 7 });
    assert_eq!(future.poll(Poll::Ready(Err((7, "refused")))), Poll::Ready(Err("refused")));
    assert_eq!(lock.get_ref(), (Some(&7), None));
    lock.poll_write(Event::Polled);
    lock.poll_write(Event::Locking(Poll::Ready(Ok('g'))));
    assert_eq!(
        lock.poll_write(Event::Worked(Poll::Ready(Ok(1)))),
        Action::Return(Poll::Ready(Ok(1)))
    );
}

#[test]
fn refused_try_lock_gives_the_file_back() {
    let mut lock = idle();
    assert_eq!(
        lock.try_lock_shared(),
        Some(LockRequest { kind: LockKind::Shared, wait: false, file: 7 })
    );
    assert_eq!(lock.end_try_lock(Err((7, "held"))), Err("held"));
    assert_eq!(lock.get_ref(), (Some(&7), None));
}

#[test]
fn abandoned_lock_is_picked_up_by_an_operation() {
    let mut lock = idle();
    let (future, _) = lock.lock_exclusive();
    drop(future);
    assert_eq!(lock.open_file(), None);
    assert_eq!(lock.poll_write(Event::Polled), Action::PollLocking);
    assert_eq!(lock.poll_write(Event::Locking(Poll::Ready(Ok('g')))), Action::Work);
}

#[test]
fn operation_seeks_before_it_works() {
    let mut lock = idle();
    lock.set_seeking_mode(SeekFrom::End(0));
    assert_eq!(lock.seeking_mode(), SeekFrom::End(0));
    lock.poll_write(Event::Polled);
    assert_eq!(
        lock.poll_write(Event::Locking(Poll::Ready(Ok('g')))),
        Action::StartSeek(SeekFrom::End(0))
    );
    assert_eq!(lock.poll_write(Event::SeekStarted(Poll::Ready(Ok(())))), Action::PollSeek);
    assert_eq!(lock.poll_write(Event::SeekCompleted(Poll::Ready(Ok(3)))), Action::Work);
    lock.poll_write(Event::Worked(Poll::Ready(Ok(1))));
    assert_eq!(
        lock.poll_write(Event::Unlocking(Poll::Ready((7, Ok(()))))),
        Action::Return(Poll::Ready(Ok(1)))
    );
}

#[test]
fn seek_that_stays_in_place_is_a_seek_unless_it_is_zero() {
    let mut lock = locked();
    lock.set_seeking_mode(SeekFrom::Current(1));
    assert_eq!(lock.poll_read(Event::Polled), Action::StartSeek(SeekFrom::Current(1)));
    lock.set_seeking_mode(SeekFrom::Start(0));
    assert_eq!(lock.poll_read(Event::Polled), Action::StartSeek(SeekFrom::Start(0)));
    lock.set_seeking_mode(SeekFrom::Current(0));
    assert_eq!(lock.poll_read(Event::Polled), Action::Work);
}

#[test]
fn seek_that_cannot_start_yet_is_asked_for_again() {
    let mut lock = locked();
    lock.set_seeking_mode(SeekFrom::Start(4));
    assert_eq!(lock.poll_write(Event::Polled), Action::StartSeek(SeekFrom::Start(4)));
    assert_eq!(
        lock.poll_write(Event::SeekStarted(Poll::Pending)),
        Action::Return(Poll::Pending)
    );
    assert_eq!(lock.poll_write(Event::Polled), Action::StartSeek(SeekFrom::Start(4)));
    assert_eq!(
        lock.poll_write(Event::SeekStarted(Poll::Ready(Err("gone")))),
        Action::Return(Poll::Ready(Err("gone")))
    );
    assert_eq!(lock.poll_write(Event::Polled), Action::StartSeek(SeekFrom::Start(4)));
}

#[test]
fn failed_seek_gives_the_lock_up_and_is_returned() {
    let mut lock = idle();
    lock.set_seeking_mode(SeekFrom::End(-1));
    lock.poll_write(Event::Polled);
    lock.poll_write(Event::Locking(Poll::Ready(Ok('g'))));
    lock.poll_write(Event::SeekStarted(Poll::Ready(Ok(()))));
    assert_eq!(
        lock.poll_write(Event::SeekCompleted(Poll::Ready(Err("before the start")))),
        Action::SpawnUnlocking('g')
    );
    assert_eq!(
        lock.poll_write(Event::Unlocking(Poll::Ready((7, Ok(()))))),
        Action::Return(Poll::Ready(Err("before the start")))
    );
    assert_eq!(lock.get_ref(), (Some(&7), None));
    assert_eq!(lock.poll_write(Event::Polled), spawn(LockKind::Exclusive, 7));
    lock.poll_write(Event::Locking(Poll::Ready(Ok('g'))));
    assert_eq!(
        lock.poll_write(Event::SeekStarted(Poll::Ready(Err("gone")))),
        Action::SpawnUnlocking('g')
    );
}

#[test]
fn failed_seek_leaves_a_manual_lock_at_rest() {
    let mut lock = locked();
    lock.set_seeking_mode(SeekFrom::End(-1));
    lock.poll_read(Event::Polled);
    lock.poll_read(Event::SeekStarted(Poll::Ready(Ok(()))));
    assert_eq!(
        lock.poll_read(Event::SeekCompleted(Poll::Ready(Err("before the start")))),
        Action::Return(Poll::Ready(Err("before the start")))
    );
    assert_eq!(lock.open_file(), Some(OpenFile::Locked(&'g')));
    assert_eq!(lock.poll_read(Event::Polled), Action::StartSeek(SeekFrom::End(-1)));
}

#[test]
fn write_does_not_work_under_the_lock_that_a_read_asked_for() {
    let mut lock = idle();
    assert_eq!(lock.poll_read(Event::Polled), spawn(LockKind::Shared, 7));
    assert_eq!(lock.poll_write(Event::Polled), Action::PollLocking);
    assert_eq!(
        lock.poll_write(Event::Locking(Poll::Ready(Ok('g')))),
        Action::SpawnUnlocking('g')
    );
    assert_eq!(
        lock.poll_write(Event::Unlocking(Poll::Ready((7, Ok(()))))),
        spawn(LockKind::Exclusive, 7)
    );
    assert_eq!(lock.poll_write(Event::Locking(Poll::Ready(Ok('h')))), Action::Work);
}

#[test]
fn write_does_not_work_under_the_lock_that_a_read_holds() {
    let mut lock = idle();
    lock.poll_read(Event::Polled);
    assert_eq!(lock.poll_read(Event::Locking(Poll::Ready(Ok('g')))), Action::Work);
    let worked = Event::<u32, char, &'static str, usize>::Worked(Poll::Pending);
    assert!(lock.accepts(Operation::Read, &worked));
    assert!(!lock.accepts(Operation::Write, &worked));
    assert_eq!(lock.poll_write(Event::Polled), Action::SpawnUnlocking('g'));
    assert_eq!(
        lock.poll_write(Event::Unlocking(Poll::Ready((7, Ok(()))))),
        spawn(LockKind::Exclusive, 7)
    );
}

#[test]
fn read_works_under_the_lock_that_a_write_holds() {
    let mut lock = idle();
    lock.poll_write(Event::Polled);
    lock.poll_write(Event::Locking(Poll::Ready(Ok('g'))));
    assert_eq!(lock.poll_read(Event::Polled), Action::Work);
}

#[test]
fn write_works_under_a_shared_lock_that_was_taken_by_hand() {
    let mut lock = idle();
    lock.try_lock_shared();
    lock.end_try_lock(Ok('g')).unwrap();
    assert_eq!(lock.poll_write(Event::Polled), Action::Work);
}

#[test]
fn read_does_not_return_what_a_write_left() {
    let mut lock = idle();
    lock.poll_write(Event::Polled);
    lock.poll_write(Event::Locking(Poll::Ready(Ok('g'))));
    lock.poll_write(Event::Worked(Poll::Ready(Ok(3))));
    assert_eq!(
        lock.poll_write(Event::Unlocking(Poll::Pending)),
        Action::Return(Poll::Pending)
    );
    assert_eq!(lock.poll_read(Event::Polled), Action::PollUnlocking);
    assert_eq!(
        lock.poll_read(Event::Unlocking(Poll::Ready((7, Ok(()))))),
        spawn(LockKind::Shared, 7)
    );
    lock.poll_read(Event::Locking(Poll::Ready(Ok('g'))));
    lock.poll_read(Event::Worked(Poll::Ready(Ok(1))));
    assert_eq!(
        lock.poll_read(Event::Unlocking(Poll::Ready((7, Ok(()))))),
        Action::Return(Poll::Ready(Ok(1)))
    );
}

#[test]
fn any_operation_returns_a_failure_to_unlock() {
    let mut lock = idle();
    lock.poll_write(Event::Polled);
    lock.poll_write(Event::Locking(Poll::Ready(Ok('g'))));
    lock.poll_write(Event::Worked(Poll::Ready(Ok(3))));
    assert_eq!(
        lock.poll_read(Event::Unlocking(Poll::Ready((7, Err("stuck"))))),
        Action::Return(Poll::Ready(Err("stuck")))
    );
}

#[test]
fn operation_that_was_left_seeks_to_a_new_mode() {
    let mut lock = locked();
    lock.set_seeking_mode(SeekFrom::End(0));
    lock.poll_write(Event::Polled);
    assert_eq!(lock.poll_write(Event::SeekStarted(Poll::Ready(Ok(())))), Action::PollSeek);
    lock.set_seeking_mode(SeekFrom::Start(0));
    assert_eq!(lock.poll_write(Event::Polled), Action::StartSeek(SeekFrom::Start(0)));
    lock.poll_write(Event::SeekStarted(Poll::Ready(Ok(()))));
    lock.poll_write(Event::SeekCompleted(Poll::Ready(Ok(0))));
    assert_eq!(lock.start_seek(SeekFrom::Start(9)), SeekStart::Locked(SeekFrom::Start(9)));
    assert_eq!(lock.poll_write(Event::Polled), Action::StartSeek(SeekFrom::Start(0)));
}

#[test]
fn file_is_not_shown_while_a_seek_cannot_start() {
    let mut lock = locked();
    lock.set_seeking_mode(SeekFrom::End(0));
    assert_eq!(lock.open_file(), Some(OpenFile::Locked(&'g')));
    lock.poll_write(Event::Polled);
    assert_eq!(
        lock.poll_write(Event::SeekStarted(Poll::Pending)),
        Action::Return(Poll::Pending)
    );
    assert_eq!(lock.open_file(), None);
    lock.poll_write(Event::Polled);
    lock.poll_write(Event::SeekStarted(Poll::Ready(Ok(()))));
    assert_eq!(lock.open_file(), None);
    lock.poll_write(Event::SeekCompleted(Poll::Ready(Ok(0))));
    assert_eq!(lock.open_file(), None);
    lock.poll_write(Event::Worked(Poll::Ready(Ok(1))));
    assert_eq!(lock.open_file(), Some(OpenFile::Locked(&'g')));
}

#[test]
fn file_is_not_shown_when_the_mode_is_set_during_an_operation() {
    let mut lock = idle();
    lock.poll_write(Event::Polled);
    lock.poll_write(Event::Locking(Poll::Ready(Ok('g'))));
    assert_eq!(lock.poll_write(Event::Worked(Poll::Pending)), Action::Return(Poll::Pending));
    lock.set_seeking_mode(SeekFrom::End(0));
    assert_eq!(lock.open_file(), None);
    lock.set_seeking_mode(SeekFrom::Current(0));
    assert_eq!(lock.open_file(), None);
    assert_eq!(lock.poll_write(Event::Polled), Action::Work);
}

#[test]
fn file_is_not_shown_when_a_seek_by_hand_starts_during_an_operation() {
    let mut lock = locked();
    lock.set_seeking_mode(SeekFrom::End(0));
    lock.poll_write(Event::Polled);
    lock.poll_write(Event::SeekStarted(Poll::Ready(Ok(()))));
    assert_eq!(
        lock.poll_write(Event::SeekCompleted(Poll::Pending)),
        Action::Return(Poll::Pending)
    );
    lock.start_seek(SeekFrom::Start(2));
    assert_eq!(lock.open_file(), None);
    assert_eq!(lock.sync_data(), SyncTarget::Locked(SyncKind::Data));
    assert_eq!(lock.open_file(), None);
    assert_eq!(lock.poll_write(Event::Polled), Action::StartSeek(SeekFrom::End(0)));
}

#[test]
fn operation_over_many_polls_does_all_once() {
    type E = Event<u32, char, &'static str, usize>;
    let mut lock = idle();
    lock.set_seeking_mode(SeekFrom::End(0));
    let events = [
        E::Polled,
        E::Polled,
        E::Locking(Poll::Pending),
        E::Polled,
        E::Locking(Poll::Ready(Ok('g'))),
        E::SeekStarted(Poll::Pending),
        E::Polled,
        E::SeekStarted(Poll::Ready(Ok(()))),
        E::SeekCompleted(Poll::Pending),
        E::Polled,
        E::SeekCompleted(Poll::Ready(Ok(3))),
        E::Worked(Poll::Pending),
        E::Polled,
        E::Worked(Poll::Ready(Ok(6))),
        E::Unlocking(Poll::Pending),
        E::Polled,
        E::Unlocking(Poll::Ready((7, Ok(())))),
    ];
    let mut locks = 0;
    let mut unlocks = 0;
    let mut last = Action::PollSeek;
    for event in events {
        assert!(lock.accepts(Operation::Write, &event));
        last = lock.poll_write(event);
        match last {
            Action::SpawnLocking(_) => locks += 1,
            Action::SpawnUnlocking(_) => unlocks += 1,
            _ => {}
        }
    }
    assert_eq!((locks, unlocks), (1, 1));
    assert_eq!(last, Action::Return(Poll::Ready(Ok(6))));
}

#[test]
fn mode_is_the_last_that_was_set() {
    let mut lock = idle();
    assert_eq!(lock.seeking_mode(), SeekFrom::Current(0));
    lock.set_seeking_mode(SeekFrom::Start(4));
    lock.set_seeking_mode(SeekFrom::End(-2));
    lock.start_seek(SeekFrom::Start(1));
    lock.end_seek(Poll::Ready((Ok(1), 7)));
    lock.try_lock_shared();
    lock.end_try_lock(Ok('g')).unwrap();
    lock.poll_read(Event::Polled);
    lock.poll_read(Event::SeekStarted(Poll::Ready(Err("gone"))));
    assert_eq!(lock.seeking_mode(), SeekFrom::End(-2));
}

#[test]
fn try_on_a_locked_file_asks_for_nothing() {
    let mut lock = locked();
    assert_eq!(lock.try_lock_exclusive(), None);
    assert_eq!(lock.try_lock_shared(), None);
    assert_eq!(lock.open_file(), Some(OpenFile::Locked(&'g')));
}

#[test]
fn operations_have_their_kind_of_lock() {
    assert_eq!(Operation::Write.kind(), LockKind::Exclusive);
    assert_eq!(Operation::Flush.kind(), LockKind::Exclusive);
    assert_eq!(Operation::Read.kind(), LockKind::Shared);
}

#[test]
fn pending_steps_are_resumed() {
    let mut lock = idle();
    lock.set_seeking_mode(SeekFrom::End(0));
    let pending = Action::Return(Poll::Pending);
    lock.poll_write(Event::Polled);
    assert_eq!(lock.poll_write(Event::Locking(Poll::Pending)), pending);
    assert_eq!(lock.poll_write(Event::Polled), Action::PollLocking);
    lock.poll_write(Event::Locking(Poll::Ready(Ok('g'))));
    lock.poll_write(Event::SeekStarted(Poll::Ready(Ok(()))));
    assert_eq!(lock.poll_write(Event::SeekCompleted(Poll::Pending)), pending);
    assert_eq!(lock.poll_write(Event::Polled), Action::PollSeek);
    lock.poll_write(Event::SeekCompleted(Poll::Ready(Ok(0))));
    assert_eq!(lock.poll_write(Event::Worked(Poll::Pending)), pending);
    assert_eq!(lock.poll_write(Event::Polled), Action::Work);
    lock.poll_write(Event::Worked(Poll::Ready(Ok(2))));
    assert_eq!(lock.poll_write(Event::Unlocking(Poll::Pending)), pending);
    assert_eq!(lock.poll_write(Event::Polled), Action::PollUnlocking);
    assert_eq!(
        lock.poll_write(Event::Unlocking(Poll::Ready((7, Ok(()))))),
        Action::Return(Poll::Ready(Ok(2)))
    );
}

#[test]
fn abandoned_unlock_is_finished_before_the_lock_is_taken_again() {
    let mut lock = locked();
    let (future, file) = lock.unlock();
    assert_eq!(file, 'g');
    drop(future);
    assert_eq!(lock.poll_read(Event::Polled), Action::PollUnlocking);
    assert_eq!(
        lock.poll_read(Event::Unlocking(Poll::Ready((7, Ok(()))))),
        spawn(LockKind::Shared, 7)
    );
}

#[test]
fn longest_poll_has_seven_steps() {
    let mut lock = idle();
    lock.set_seeking_mode(SeekFrom::End(0));
    lock.poll_read(Event::Polled);
    assert_eq!(lock.poll_write(Event::Polled), Action::PollLocking);
    lock.poll_write(Event::Locking(Poll::Ready(Ok('g'))));
    lock.poll_write(Event::Unlocking(Poll::Ready((7, Ok(())))));
    lock.poll_write(Event::Locking(Poll::Ready(Ok('g'))));
    lock.poll_write(Event::SeekStarted(Poll::Ready(Ok(()))));
    lock.poll_write(Event::SeekCompleted(Poll::Ready(Ok(0))));
    lock.poll_write(Event::Worked(Poll::Ready(Ok(1))));
    assert_eq!(
        lock.poll_write(Event::Unlocking(Poll::Ready((7, Ok(()))))),
        Action::Return(Poll::Ready(Ok(1)))
    );
}

#[test]
fn seek_by_hand_takes_the_unlocked_file() {
    let mut lock = idle();
    assert_eq!(
        lock.start_seek(SeekFrom::Start(3)),
        SeekStart::Unlocked(7, SeekFrom::Start(3))
    );
    assert_eq!(lock.get_ref(), (None, None));
    assert_eq!(lock.poll_complete(), SeekSource::Task);
    assert!(!lock.accepts(Operation::Write, &Event::<u32, char, &'static str, usize>::Polled));
    assert_eq!(lock.end_seek(Poll::Pending), Poll::Pending);
    assert_eq!(lock.end_seek(Poll::Ready((Ok(3), 7))), Poll::Ready(Ok(3)));
    assert_eq!(lock.get_ref(), (Some(&7), None));
    lock.start_seek(SeekFrom::End(-9));
    assert_eq!(lock.end_seek(Poll::Ready((Err("negative"), 7))), Poll::Ready(Err("negative")));
    assert_eq!(lock.get_ref(), (Some(&7), None));
}

#[test]
fn seek_by_hand_leaves_the_locked_file() {
    let mut lock = locked();
    assert_eq!(lock.start_seek(SeekFrom::Start(3)), SeekStart::Locked(SeekFrom::Start(3)));
    assert_eq!(lock.poll_complete(), SeekSource::Locked);
    assert_eq!(lock.get_ref(), (None, Some(&'g')));
}

#[test]
fn sync_borrows_the_unlocked_file() {
    let mut lock = idle();
    assert_eq!(lock.sync_all(), SyncTarget::Unlocked(SyncKind::All, 7));
    assert_eq!(lock.get_ref(), (None, None));
    assert_eq!(lock.end_sync(7, Err("full")), Err("full"));
    assert_eq!(lock.sync_data(), SyncTarget::Unlocked(SyncKind::Data, 7));
    assert_eq!(lock.end_sync(7, Ok(())), Ok(()));
    assert_eq!(lock.get_ref(), (Some(&7), None));
    let mut lock = locked();
    assert_eq!(lock.sync_all(), SyncTarget::Locked(SyncKind::All));
    assert_eq!(lock.sync_data(), SyncTarget::Locked(SyncKind::Data));
}

#[test]
fn events_are_accepted_in_turn() {
    type E = Event<u32, char, &'static str, usize>;
    let mut lock = idle();
    assert!(lock.accepts(Operation::Write, &E::Polled));
    assert!(!lock.accepts(Operation::Write, &E::Locking(Poll::Pending)));
    lock.poll_write(E::Polled);
    assert!(lock.accepts(Operation::Write, &E::Locking(Poll::Pending)));
    assert!(!lock.accepts(Operation::Write, &E::Worked(Poll::Pending)));
    lock.poll_write(E::Locking(Poll::Ready(Ok('g'))));
    assert!(lock.accepts(Operation::Write, &E::Worked(Poll::Pending)));
    assert!(!lock.accepts(Operation::Write, &E::SeekStarted(Poll::Pending)));
    lock.poll_write(E::Worked(Poll::Ready(Ok(1))));
    assert!(lock.accepts(Operation::Write, &E::Unlocking(Poll::Pending)));
    assert!(!lock.accepts(Operation::Write, &E::SeekCompleted(Poll::Pending)));
    let mut lock = locked();
    assert!(!lock.accepts(Operation::Write, &E::SeekStarted(Poll::Pending)));
    lock.set_seeking_mode(SeekFrom::End(0));
    assert!(!lock.accepts(Operation::Write, &E::SeekStarted(Poll::Pending)));
    lock.poll_write(E::Polled);
    assert!(lock.accepts(Operation::Write, &E::SeekStarted(Poll::Pending)));
    lock.poll_write(E::SeekStarted(Poll::Ready(Ok(()))));
    assert!(lock.accepts(Operation::Write, &E::SeekCompleted(Poll::Pending)));
}

#[test]
fn shutdown_does_nothing() {
    let lock = locked();
    assert_eq!(lock.poll_shutdown(), Poll::Ready(Ok(())));
    assert_eq!(lock.get_ref(), (None, Some(&'g')));
}

#[test]
fn handles_can_be_changed_in_place() {
    let mut lock = idle();
    *lock.get_mut().0.unwrap() = 12;
    assert_eq!(lock.get_ref(), (Some(&12), None));
    let mut lock = locked();
    assert!(lock.get_mut().0.is_none());
    *lock.get_mut().1.unwrap() = 'h';
    assert_eq!(lock.get_ref(), (None, Some(&'h')));
}

#[test]
fn outcomes_come_back_from_their_numbers() {
    assert_eq!(usize::MAX.into_count(), usize::MAX as u64);
    assert_eq!(usize::from_count(5), 5);
    assert_eq!(().into_count(), 0);
    <() as Outcome>::from_count(9);
}
