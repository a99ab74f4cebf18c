//! The errors of hook installation and removal.
use vstd::prelude::*;

verus! {

/// Errors that can occur during hook installation or removal.
#[derive(Debug, Clone, Copy, PartialEq, Eq, Structural)]
pub enum Error {
    /// Failed to allocate executable memory within 2GB of the target function.
    TrampolineAlloc,
    /// Failed to change memory protection on the target function's page.
    ProtectFailed,
    /// The target function is too small to hook: `need` bytes were required,
    /// the function ended after `have`.
    InsufficientSpace { need: usize, have: usize },
    /// Instruction decoding or relocation failed.
    RelocationFailed,
    /// Attempted to unhook a hook that is not currently installed.
    NotInstalled,
}

/// Convenience alias for `std::result::Result<T, Error>`.
pub type Result<T> = std::result::Result<T, Error>;

} // verus!
