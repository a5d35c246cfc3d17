//! Errors of the reactor fleet.
use vstd::prelude::*;

use nix::errno::Errno;

verus! {

#[verifier::external_type_specification]
#[verifier::external_body]
pub struct ExErrno(Errno);

/// Relies on nix's `Errno::from_raw`: the errno value for a raw code.
pub assume_specification[ Errno::from_raw ](err: i32) -> Errno;

/// Relies on nix's `Errno::ENOSYS`, the "function not implemented" errno.
#[verifier::external_body]
pub(crate) fn errno_not_implemented() -> Errno {
    Errno::ENOSYS
}

/// Relies on nix's `Errno::UnknownErrno`, the errno of an unknown cause.
#[verifier::external_body]
pub(crate) fn errno_unknown() -> Errno {
    Errno::UnknownErrno
}

/// Errors that the fleet reports to its callers.
#[derive(Debug)]
pub enum CoreError {
    /// A reactor could not be started on a core: the core is not enabled,
    /// or pinning a thread to it failed with `source`.
    ReactorConfigureFailed { source: Errno },
    /// A message could not be dispatched to a logical thread.
    NotSupported { source: Errno },
}

} // verus!
