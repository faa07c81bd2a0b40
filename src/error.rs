use vstd::prelude::*;

verus! {

/// What a device operation can fail with.
#[derive(Clone, Copy, Debug, PartialEq, Eq, Structural)]
pub enum Error {
    /// A write was asked for at or beyond the end of the buffer.
    InvalidArgument,
    /// The handle for an open could not be allocated.
    AllocationFailure,
    /// The host failed to copy from or to the caller's memory.
    CopyFault,
    /// A minor number could not be bound, or the registration is gone.
    RegistrationFailure,
}

} // verus!
