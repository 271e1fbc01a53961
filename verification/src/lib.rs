//! Runtime substrate for a minimal, single-threaded kernel: a growable
//! array over a managed buffer, a text type with a byte-encoded shadow,
//! a reader-writer lock with deferred-writer replay, and a leveled,
//! timestamp-ordered logger.

pub mod array;
pub mod console;
pub mod klog;
pub mod numtext;
pub mod rwlock;
pub mod text;
pub mod time;
