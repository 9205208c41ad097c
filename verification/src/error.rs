//! Errors that the kernel hands to its callers.
use vstd::prelude::*;

verus! {

/// What a filesystem can object to.
#[derive(Clone, Copy, Debug, PartialEq, Eq, Structural)]
pub enum FsError {
    /// No object of that name or number.
    NotFound,
}

/// What a kernel operation can object to.
#[derive(Clone, Copy, Debug, PartialEq, Eq, Structural)]
pub enum KernelError {
    /// An argument is outside of what the operation accepts.
    InvalidValue,
    /// No memory is left for the request.
    NoMemory,
    /// The operation is known but not provided.
    NotSupported,
    /// The caller has no child to wait for.
    NoChildProcess,
    /// A signal ended the wait.
    Interrupted,
    /// A page table could not be reached.
    Fault,
    /// A filesystem objected.
    Fs(FsError),
}

} // verus!
