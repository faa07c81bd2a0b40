use vstd::prelude::*;

use crate::error::Error;
use crate::shared::SharedBuffer;
use crate::storage::{transfer_len, BUFFER_SIZE};

verus! {

/// The handle for one open of a device node. It keeps no position of its own:
/// the host supplies the offset on every call.
pub struct RustFile<'a> {
    inner: &'a SharedBuffer,
}

impl<'a> RustFile<'a> {
    /// The buffer this handle reads and writes.
    pub closed spec fn buffer(&self) -> SharedBuffer {
        *self.inner
    }

    /// Opens a handle on `shared`. Nothing is allocated, so this always succeeds.
    pub fn open(shared: &'a SharedBuffer) -> (r: Result<RustFile<'a>, Error>)
        ensures
            r matches Ok(f) && f.buffer() == *shared,
    {
        Ok(RustFile { inner: shared })
    }

    /// Writes `source` at `offset` into the shared buffer (see `SharedBuffer::write`).
    pub fn write(&self, source: &[u8], offset: u64) -> (r: Result<usize, Error>)
        ensures
            offset >= BUFFER_SIZE ==> r == Err::<usize, Error>(Error::InvalidArgument),
            offset < BUFFER_SIZE ==> r == Ok::<usize, Error>(
                transfer_len(offset as int, source@.len() as int) as usize,
            ),
    {
        self.inner.write(source, offset)
    }

    /// Reads from the shared buffer at `offset` into `dest` (see `SharedBuffer::read`).
    pub fn read(&self, dest: &mut Vec<u8>, offset: u64) -> (r: Result<usize, Error>)
        ensures
            r == Ok::<usize, Error>(transfer_len(offset as int, old(dest)@.len() as int) as usize),
            final(dest)@.len() == old(dest)@.len(),
            ({
                let n = transfer_len(offset as int, old(dest)@.len() as int);
                final(dest)@.skip(n) == old(dest)@.skip(n)
            }),
    {
        self.inner.read(dest, offset)
    }
}

} // verus!
