use vstd::prelude::*;

verus! {

/// What can go wrong in the library's operations.
#[derive(Clone, Copy, Debug, PartialEq, Eq, Structural)]
pub enum Error {
    /// Nothing registered matched the handle.
    NotFound,
    /// The handle is already registered; use `reregister` to replace it.
    AlreadyRegistered,
    /// The operation has no implementation on this backend.
    Unsupported,
    /// An error code reported by the host for one subscription.
    Os(u16),
}

} // verus!
