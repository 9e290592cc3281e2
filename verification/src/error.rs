use vstd::prelude::*;

verus! {

/// Why an operating-system call, or the handoff built on it, did not succeed.
#[derive(Clone, Copy, Debug, PartialEq, Eq, Structural)]
pub enum IoError {
    /// The primary instance's endpoint could not be located.
    NotFound,
    /// A value cannot be handed on as it is: a payload holds a field that the
    /// wire format cannot carry or is too long for one message, or an
    /// identifier holds NUL.
    InvalidInput,
    /// The payload was not accepted by the primary instance's endpoint.
    Send,
    /// The mutex could not be created; the system gave this error code.
    Mutex(u32),
    /// The listening endpoint could not be created.
    Endpoint,
    /// A registry call failed with this result code.
    Os(i32),
}

/// The failures that the library reports.
#[derive(Clone, Copy, Debug, PartialEq, Eq, Structural)]
pub enum Error {
    /// The identifier was already set.
    AlreadyExists,
    /// A call into the operating system failed.
    Io(IoError),
}

} // verus!
