//! A character device whose nodes share one fixed-size, in-memory byte buffer.
//!
//! `storage` holds the buffer and the offset-bounded copy rules, `shared` puts the
//! buffer behind an exclusive lock, `file` is the per-open handle, and `device`
//! models the registration of minor numbers and the module that owns it all.
pub mod device;
pub mod error;
pub mod file;
pub mod shared;
pub mod storage;
