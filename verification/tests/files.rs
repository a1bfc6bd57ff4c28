//! The lock on real files, driven without waiting for anything twice.
use async_file_lock::{
    Action, Event, FileLock, LockKind, LockRequest, Operation, Poll, SeekFrom, SeekSource,
    SeekStart, SyncKind, SyncTarget,
};
use fs3::FileExt;
use std::io::{Error, Read, Seek, Write};
use tempfile::NamedTempFile;

fn seek<F: Seek>(file: &mut F, to: SeekFrom) -> Result<u64, Error> {
    file.seek(match to {
        SeekFrom::Start(n) => std::io::SeekFrom::Start(n),
        SeekFrom::End(n) => std::io::SeekFrom::End(n),
        SeekFrom::Current(n) => std::io::SeekFrom::Current(n),
    })
}

/// Takes the lock that a request asks for. A lock that another handle has would
/// never come here, so nothing is waited for.
fn take<F: FileExt>(request: LockRequest<F>) -> Result<F, (F, Error)> {
    let file = request.file;
    let taken = match request.kind {
        LockKind::Exclusive => FileExt::try_lock_exclusive(&file),
        LockKind::Shared => FileExt::try_lock_shared(&file),
    };
    match taken {
        Ok(()) => Ok(file),
        Err(e) => Err((file, e)),
    }
}

fn drive<F, R>(
    lock: &mut FileLock<F, F, Error>,
    operation: Operation,
    step: impl Fn(&mut FileLock<F, F, Error>, Event<F, F, Error, R>) -> Action<F, F, Error, R>,
    mut work: impl FnMut(&mut F) -> Result<R, Error>,
) -> Result<R, Error>
where
    F: FileExt + Seek,
{
    let mut event = Event::Polled;
    // Files seek in the background: a seek that is started is heard of later.
    let mut sought = Ok(0);
    loop {
        assert!(lock.accepts(operation, &event), "the file is elsewhere");
        event = match step(lock, event) {
            Action::SpawnLocking(request) => Event::Locking(Poll::Ready(take(request))),
            Action::SpawnUnlocking(file) => {
                let unlocked = FileExt::unlock(&file);
                Event::Unlocking(Poll::Ready((file, unlocked)))
            }
            Action::StartSeek(to) => {
                sought = seek(lock.get_mut().1.unwrap(), to);
                Event::SeekStarted(Poll::Ready(Ok(())))
            }
            Action::PollSeek => {
                Event::SeekCompleted(Poll::Ready(std::mem::replace(&mut sought, Ok(0))))
            }
            Action::Work => Event::Worked(Poll::Ready(work(lock.get_mut().1.unwrap()))),
            Action::Return(Poll::Ready(result)) => return result,
            _ => panic!("every step is through at once"),
        };
    }
}

fn write<F: FileExt + Seek + Write>(
    lock: &mut FileLock<F, F, Error>,
    buf: &[u8],
) -> Result<usize, Error> {
    drive(lock, Operation::Write, |lock, event| lock.poll_write(event), |file| file.write(buf))
}

fn flush<F: FileExt + Seek + Write>(lock: &mut FileLock<F, F, Error>) -> Result<(), Error> {
    drive(lock, Operation::Flush, |lock, event| lock.poll_flush(event), |file| file.flush())
}

fn read<F: FileExt + Seek + Read>(
    lock: &mut FileLock<F, F, Error>,
    buf: &mut [u8],
) -> Result<usize, Error> {
    drive(lock, Operation::Read, |lock, event| lock.poll_read(event), |file| file.read(buf))
}

fn read_to_string<F: FileExt + Seek + Read>(lock: &mut FileLock<F, F, Error>) -> String {
    let mut text = String::new();
    loop {
        let mut buf = [0u8; 2];
        let n = read(lock, &mut buf).unwrap();
        if n == 0 {
            return text;
        }
        for b in &buf[..n] {
            text.push(char::from(*b));
        }
    }
}

fn seek_by_hand<F: Seek>(
    lock: &mut FileLock<F, F, Error>,
    position: SeekFrom,
) -> Result<u64, Error> {
    match lock.start_seek(position) {
        SeekStart::Locked(to) => {
            assert_eq!(lock.poll_complete(), SeekSource::Locked);
            seek(lock.get_mut().1.unwrap(), to)
        }
        SeekStart::Unlocked(mut file, to) => {
            assert_eq!(lock.poll_complete(), SeekSource::Task);
            let result = seek(&mut file, to);
            match lock.end_seek(Poll::Ready((result, file))) {
                Poll::Ready(sought) => sought,
                Poll::Pending => panic!("the seek is through"),
            }
        }
    }
}

fn refuse_if_locked<F>(lock: &FileLock<F, F, Error>) {
    if lock.get_ref().1.is_some() {
        panic!("File already locked.");
    }
}

fn lock_exclusive<F: FileExt>(lock: &mut FileLock<F, F, Error>) -> Result<(), Error> {
    refuse_if_locked(lock);
    let (mut future, request) = lock.lock_exclusive();
    match future.poll(Poll::Ready(take(request))) {
        Poll::Ready(locked) => locked,
        Poll::Pending => panic!("the locking is through"),
    }
}

fn lock_shared<F: FileExt>(lock: &mut FileLock<F, F, Error>) -> Result<(), Error> {
    refuse_if_locked(lock);
    let (mut future, request) = lock.lock_shared();
    match future.poll(Poll::Ready(take(request))) {
        Poll::Ready(locked) => locked,
        Poll::Pending => panic!("the locking is through"),
    }
}

fn try_lock_exclusive<F: FileExt>(lock: &mut FileLock<F, F, Error>) -> Result<(), Error> {
    match lock.try_lock_exclusive() {
        Some(request) => lock.end_try_lock(take(request)),
        None => Err(fs3::lock_contended_error()),
    }
}

fn try_lock_shared<F: FileExt>(lock: &mut FileLock<F, F, Error>) -> Result<(), Error> {
    match lock.try_lock_shared() {
        Some(request) => lock.end_try_lock(take(request)),
        None => Err(fs3::lock_contended_error()),
    }
}

fn unlock<F: FileExt>(lock: &mut FileLock<F, F, Error>) {
    if lock.get_ref().0.is_some() {
        panic!("File already unlocked.");
    }
    let (mut future, file) = lock.unlock();
    let unlocked = FileExt::unlock(&file);
    assert_eq!(future.poll(Poll::Ready((file, unlocked))), Poll::Ready(()));
}

#[test]
fn normal1() {
    let tmp = NamedTempFile::new().unwrap();
    let mut file = FileLock::new_std(tmp.reopen().unwrap());
    assert_eq!(write(&mut file, b"a").unwrap(), 1);
    let mut other = FileLock::new_std(tmp.reopen().unwrap());
    assert_eq!(write(&mut other, b"b").unwrap(), 1);
    assert_eq!(seek_by_hand(&mut file, SeekFrom::Start(0)).unwrap(), 0);
    // The other handle wrote at location 0 too.
    assert_eq!(read_to_string(&mut file), "b");
}

#[test]
fn append_mode() {
    let tmp = NamedTempFile::new().unwrap();
    let mut file = FileLock::new_std(tmp.reopen().unwrap());
    file.set_seeking_mode(SeekFrom::End(0));
    write(&mut file, b"a").unwrap();
    let mut other = FileLock::new_std(tmp.reopen().unwrap());
    write(&mut other, b"bb").unwrap();
    flush(&mut other).unwrap();
    write(&mut file, b"a").unwrap();
    seek_by_hand(&mut file, SeekFrom::Start(0)).unwrap();
    // Turn off auto seeking mode
    file.set_seeking_mode(SeekFrom::Current(0));
    // Each file handle has its own position.
    assert_eq!(read_to_string(&mut file), "bba");
}

#[test]
fn read_me_example() {
    let tmp = NamedTempFile::new().unwrap();
    let mut file = FileLock::new_std(tmp.reopen().unwrap());
    write(&mut file, b"a").unwrap();
    seek_by_hand(&mut file, SeekFrom::Start(0)).unwrap();
    assert_eq!(read_to_string(&mut file), "a");
    seek_by_hand(&mut file, SeekFrom::Start(0)).unwrap();
    lock_exclusive(&mut file).unwrap();
    file.set_seeking_mode(SeekFrom::End(0));
    write(&mut file, b"b").unwrap();
    seek_by_hand(&mut file, SeekFrom::Start(0)).unwrap();
    write(&mut file, b"c").unwrap();
    unlock(&mut file);
    lock_shared(&mut file).unwrap();
    seek_by_hand(&mut file, SeekFrom::Start(0)).unwrap();
    file.set_seeking_mode(SeekFrom::Current(0));
    assert_eq!(read_to_string(&mut file), "abc");
}

#[test]
#[should_panic]
fn exclusive_locking_locked_file_panics() {
    let mut file = FileLock::new_std(tempfile::tempfile().unwrap());
    lock_exclusive(&mut file).unwrap();
    lock_exclusive(&mut file).unwrap();
}

#[test]
#[should_panic]
fn shared_locking_locked_file_panics() {
    let mut file = FileLock::new_std(tempfile::tempfile().unwrap());
    lock_shared(&mut file).unwrap();
    lock_shared(&mut file).unwrap();
}

#[test]
#[should_panic]
fn shared_locking_exclusive_file_panics() {
    let mut file = FileLock::new_std(tempfile::tempfile().unwrap());
    lock_exclusive(&mut file).unwrap();
    lock_shared(&mut file).unwrap();
}

#[test]
#[should_panic]
fn exclusive_locking_shared_file_panics() {
    let mut file = FileLock::new_std(tempfile::tempfile().unwrap());
    lock_shared(&mut file).unwrap();
    lock_exclusive(&mut file).unwrap();
}

#[test]
#[should_panic]
fn unlocking_file_panics() {
    let mut file = FileLock::new_std(tempfile::tempfile().unwrap());
    unlock(&mut file);
}

#[test]
#[should_panic]
fn unlocking_unlocked_file_panics() {
    let mut file = FileLock::new_std(tempfile::tempfile().unwrap());
    lock_exclusive(&mut file).unwrap();
    unlock(&mut file);
    unlock(&mut file);
}

#[test]
fn file_stays_locked() {
    let mut file = FileLock::new_std(tempfile::tempfile().unwrap());
    lock_exclusive(&mut file).unwrap();
    write(&mut file, b"a").unwrap();
    unlock(&mut file);
}

#[test]
#[should_panic]
fn file_auto_unlocks() {
    let mut file = FileLock::new_std(tempfile::tempfile().unwrap());
    write(&mut file, b"a").unwrap();
    unlock(&mut file);
}

#[test]
fn shared_locks_coexist() {
    let tmp = NamedTempFile::new().unwrap();
    let mut file = FileLock::new_std(tmp.reopen().unwrap());
    let mut other = FileLock::new_std(tmp.reopen().unwrap());
    lock_shared(&mut other).unwrap();
    lock_shared(&mut file).unwrap();
}

#[test]
fn exclusive_lock_waits_for_exclusive_lock() {
    let tmp = NamedTempFile::new().unwrap();
    let mut file = FileLock::new_std(tmp.reopen().unwrap());
    let mut other = FileLock::new_std(tmp.reopen().unwrap());
    lock_exclusive(&mut other).unwrap();
    assert!(try_lock_exclusive(&mut file).is_err());
    assert!(file.get_ref().0.is_some());
    unlock(&mut other);
    try_lock_exclusive(&mut file).unwrap();
    assert!(file.get_ref().1.is_some());
}

#[test]
fn exclusive_lock_waits_for_shared_lock() {
    let tmp = NamedTempFile::new().unwrap();
    let mut file = FileLock::new_std(tmp.reopen().unwrap());
    let mut other = FileLock::new_std(tmp.reopen().unwrap());
    lock_shared(&mut other).unwrap();
    assert!(try_lock_exclusive(&mut file).is_err());
    try_lock_shared(&mut file).unwrap();
}

#[test]
fn dropping_the_file_drops_its_lock() {
    let tmp = NamedTempFile::new().unwrap();
    let mut file = FileLock::new_std(tmp.reopen().unwrap());
    let mut other = FileLock::new_std(tmp.reopen().unwrap());
    lock_exclusive(&mut other).unwrap();
    drop(other);
    try_lock_exclusive(&mut file).unwrap();
}

#[test]
fn operation_without_lock_fails_and_changes_nothing() {
    let tmp = NamedTempFile::new().unwrap();
    let mut file = FileLock::new_std(tmp.reopen().unwrap());
    let mut other = FileLock::new_std(tmp.reopen().unwrap());
    lock_shared(&mut other).unwrap();
    assert!(write(&mut file, b"a").is_err());
    assert_eq!(read_to_string(&mut file), "");
    unlock(&mut other);
    assert_eq!(write(&mut file, b"a").unwrap(), 1);
}

#[test]
fn seek_before_the_start_fails_and_unlocks() {
    let mut file = FileLock::new_std(tempfile::tempfile().unwrap());
    file.set_seeking_mode(SeekFrom::Current(-1));
    let mut buf = [7u8; 1];
    assert!(read(&mut file, &mut buf).is_err());
    assert_eq!(buf, [7]);
    assert!(matches!(file.get_ref(), (Some(_), None)));
    // The next operation seeks again.
    file.set_seeking_mode(SeekFrom::Start(2));
    assert_eq!(write(&mut file, b"a").unwrap(), 1);
    assert!(matches!(file.get_ref(), (Some(_), None)));
    assert_eq!(seek_by_hand(&mut file, SeekFrom::Current(0)).unwrap(), 3);
}

#[test]
fn failed_seek_keeps_a_manual_lock() {
    let mut file = FileLock::new_std(tempfile::tempfile().unwrap());
    lock_exclusive(&mut file).unwrap();
    file.set_seeking_mode(SeekFrom::End(-5));
    assert!(write(&mut file, b"a").is_err());
    assert!(matches!(file.get_ref(), (None, Some(_))));
    // The next operation seeks again, and fails again.
    assert!(write(&mut file, b"a").is_err());
    file.set_seeking_mode(SeekFrom::End(0));
    assert_eq!(write(&mut file, b"a").unwrap(), 1);
    unlock(&mut file);
}

#[test]
fn try_on_a_locked_handle_fails() {
    let mut file = FileLock::new_std(tempfile::tempfile().unwrap());
    try_lock_exclusive(&mut file).unwrap();
    assert!(try_lock_exclusive(&mut file).is_err());
    assert!(try_lock_shared(&mut file).is_err());
    assert!(matches!(file.get_ref(), (None, Some(_))));
    unlock(&mut file);
}

#[test]
fn syncs_where_the_file_is() {
    let mut file = FileLock::new_std(tempfile::tempfile().unwrap());
    match file.sync_all() {
        SyncTarget::Unlocked(kind, handle) => {
            assert_eq!(kind, SyncKind::All);
            assert!(file.get_ref().0.is_none());
            let result = handle.sync_all();
            file.end_sync(handle, result).unwrap();
        }
        SyncTarget::Locked(_) => panic!("the file is not locked"),
    }
    assert!(file.get_ref().0.is_some());
    lock_exclusive(&mut file).unwrap();
    assert!(matches!(file.sync_data(), SyncTarget::Locked(SyncKind::Data)));
    file.get_ref().1.unwrap().sync_data().unwrap();
    assert!(file.get_ref().1.is_some());
}
