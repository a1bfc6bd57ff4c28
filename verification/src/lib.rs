//! A file lock for asynchronous code that locks, seeks and unlocks by itself.
//!
//! [`FileLock`] decides and never blocks: what has to be done to the file is
//! handed out as a request or an [`Action`], and what came of it is handed back
//! as an argument or an [`Event`]. The file handles and the errors are the
//! caller's own types.

pub mod file_lock;
pub mod future;
pub mod history;
pub mod laws;
pub mod model;
pub mod types;

pub use crate::file_lock::FileLock;
pub use crate::future::{LockFuture, UnlockFuture};
pub use crate::types::{
    Action, Event, Kept, LockKind, LockRequest, OpenFile, Operation, Outcome, Poll, SeekFrom,
    SeekSource, SeekStart, SyncKind, SyncTarget,
};
