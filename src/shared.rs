use vstd::prelude::*;
use vstd::rwlock::{RwLock, RwLockPredicate};

use crate::error::Error;
use crate::storage::{clamp_transfer, transfer_len, Storage, BUFFER_SIZE};

verus! {

/// What the lock asks of the storage it holds: the full buffer length.
pub struct FullLength;

impl RwLockPredicate<Storage> for FullLength {
    open spec fn inv(self, v: Storage) -> bool {
        v.wf()
    }
}

/// The one buffer that every open handle reads and writes. Each access, read or
/// write, holds the lock exclusively for the whole copy and releases it before
/// returning, so calls never interleave byte by byte.
pub struct SharedBuffer {
    lock: RwLock<Storage, FullLength>,
}

impl SharedBuffer {
    #[verifier::type_invariant]
    spec fn lock_keeps_length(&self) -> bool {
        self.lock.pred() == FullLength
    }

    /// A buffer of `BUFFER_SIZE` zero bytes.
    pub fn new() -> (s: SharedBuffer) {
        SharedBuffer { lock: RwLock::new(Storage::new(), Ghost(FullLength)) }
    }

    /// Writes `source` at `offset` under the lock. At or past the end of the
    /// buffer this fails with `InvalidArgument` without taking the lock; otherwise
    /// the bytes that fit are copied and their count returned.
    pub fn write(&self, source: &[u8], offset: u64) -> (r: Result<usize, Error>)
        ensures
            offset >= BUFFER_SIZE ==> r == Err::<usize, Error>(Error::InvalidArgument),
            offset < BUFFER_SIZE ==> r == Ok::<usize, Error>(
                transfer_len(offset as int, source@.len() as int) as usize,
            ),
    {
        if clamp_transfer(offset, source.len()).is_none() {
            return Err(Error::InvalidArgument);
        }
        proof {
            use_type_invariant(self);
        }
        let (mut storage, guard) = self.lock.acquire_write();
        let r = storage.write_at(source, offset);
        guard.release_write(storage);
        r
    }

    /// Reads into the front of `dest` under the lock, as many bytes as `dest`
    /// holds and the buffer has from `offset` on, and returns their count. From
    /// the end of the buffer on this is zero bytes, and no error. The rest of
    /// `dest` stays.
    pub fn read(&self, dest: &mut Vec<u8>, offset: u64) -> (r: Result<usize, Error>)
        ensures
            r == Ok::<usize, Error>(transfer_len(offset as int, old(dest)@.len() as int) as usize),
            final(dest)@.len() == old(dest)@.len(),
            ({
                let n = transfer_len(offset as int, old(dest)@.len() as int);
                final(dest)@.skip(n) == old(dest)@.skip(n)
            }),
    {
        if clamp_transfer(offset, dest.len()).is_none() {
            return Ok(0);
        }
        proof {
            use_type_invariant(self);
        }
        let (storage, guard) = self.lock.acquire_write();
        let n = storage.read_into(dest, offset);
        guard.release_write(storage);
        Ok(n)
    }
}

} // verus!
