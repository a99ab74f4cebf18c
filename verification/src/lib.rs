//! Inline function hooking for x86_64.
//!
//! The library holds the decisions of hooking: how a detour jump is encoded,
//! where a trampoline may be placed, which instructions are stolen from the
//! target and relocated, and what is written back when a hook is removed.
//! Everything that touches live memory is done by the caller.
use vstd::prelude::*;

pub mod nearby;
pub mod protect;
pub mod relocate;
pub mod error;
pub mod hook;
pub mod install;
pub mod jump;

pub use error::{Error, Result};

