# async-file-lock

An asynchronous file lock that can lock and seek by itself, with its behaviour
stated as contracts and proved by Verus.

- exclusive and shared locks
- locks before a read, a write or a flush, and unlocks after it
- seeks before a read, a write or a flush
- locks and unlocks by hand; a lock that was taken by hand stays

## Layout

- `src/` is the lock. It touches no file: it hands files out with what has to be
  done to them, and is told what came of it. Files and errors are type
  parameters.
  - `types.rs`: what the lock and its driver exchange.
  - `model.rs`: what a lock is and how it moves.
  - `file_lock.rs`: the lock.
  - `future.rs`: locking and unlocking by hand.
  - `laws.rs`: what holds of every step and of every poll.
  - `history.rs`: what holds over any history of calls.
- `app/` drives the lock with Tokio's files and with `flock`.
- `tests/` runs the lock on real files and step by step.

## Driving a lock

A poll starts with `Event::Polled`. Each action asks for one thing to be done;
the answer is the next event, until the action is `Action::Return`.

```rust
let mut event = Event::Polled;
loop {
    event = match lock.poll_write(event) {
        Action::SpawnLocking(request) => Event::Locking(start_and_poll(request)),
        Action::Work => Event::Worked(write(lock.get_mut().1.unwrap())),
        // ...
        Action::Return(result) => return result,
    };
}
```

A poll is over after seven answers at most.
