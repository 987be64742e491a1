//! Process-control and breakpoint engine of a native-code command-line
//! debugger: it drives a traced child process (run/continue/step/kill),
//! installs and transparently removes software breakpoints by patching
//! executable memory one byte at a time, resolves breakpoint locations
//! against a symbol table, and reconstructs call stacks by walking the
//! saved-frame-pointer chain.

use vstd::prelude::*;

pub mod breakpoint;
pub mod command;
pub mod inferior;
pub mod list;
pub mod session;
pub mod symbols;
mod trace;
pub mod unwind;
pub mod vecops;
pub mod word;

pub use trace::WaitEvent;

verus! {

/// Errors reported to the session user.  Each command-level failure is
/// recoverable: the session itself never dies of one of these.
#[derive(Debug, Clone, Copy, PartialEq, Eq, Structural)]
pub enum DebugError {
    /// The target binary could not be spawned.
    SpawnFailure,
    /// An operating-system tracing call was rejected; the raw errno is kept.
    /// The controller that reported this must be discarded.
    TraceFailure(i32),
    /// A breakpoint location could not be resolved to an address.
    UnresolvedLocation,
    /// The frame-pointer walk could not continue.
    UnwindFailure,
}

} // verus!
