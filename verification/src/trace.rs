//! The narrow boundary to the operating system's tracing facility.
//!
//! Every privileged operation on the traced child goes through one of the
//! functions here; each one wraps a single request to the kernel and hands
//! plain values back.  What a traced process does is decided by the live
//! process itself, so none of these results can be promised in advance: the
//! verified callers state what holds whatever comes back.
//!
//! Errors are reported as the raw errno value.

use vstd::prelude::*;

verus! {

/// What the wait call reported of the traced child, reduced to plain values.
#[derive(Debug, Clone, Copy, PartialEq, Eq, Structural)]
pub enum WaitEvent {
    /// The child exited normally with the given code.
    Exited(i32),
    /// The child was terminated by the given signal.
    Signaled(i32),
    /// The child is alive but stopped by the given signal.
    Stopped(i32),
    /// Any other report (still alive, trace event, ...).
    Other,
}

/// Relies on nix::sys::wait::waitpid: blocks until the child next changes
/// state and reports how.  The outcome depends on the live process.
#[verifier::external_body]
pub(crate) fn wait_child(pid: i32) -> Result<WaitEvent, i32> {
    match nix::sys::wait::waitpid(nix::unistd::Pid::from_raw(pid), None) {
        Ok(nix::sys::wait::WaitStatus::Exited(_, code)) => Ok(WaitEvent::Exited(code)),
        Ok(nix::sys::wait::WaitStatus::Signaled(_, sig, _)) => Ok(WaitEvent::Signaled(sig as i32)),
        Ok(nix::sys::wait::WaitStatus::Stopped(_, sig)) => Ok(WaitEvent::Stopped(sig as i32)),
        Ok(_) => Ok(WaitEvent::Other),
        Err(e) => Err(e as i32),
    }
}

/// Relies on nix::sys::ptrace::cont: asks the kernel to let the traced child
/// run until it next stops or ends.
#[verifier::external_body]
pub(crate) fn ptrace_cont(pid: i32) -> Result<(), i32> {
    match nix::sys::ptrace::cont(nix::unistd::Pid::from_raw(pid), None) {
        Ok(()) => Ok(()),
        Err(e) => Err(e as i32),
    }
}

/// Relies on nix::sys::ptrace::step: asks the kernel to execute one single
/// instruction of the traced child and stop again.
#[verifier::external_body]
pub(crate) fn ptrace_step(pid: i32) -> Result<(), i32> {
    match nix::sys::ptrace::step(nix::unistd::Pid::from_raw(pid), None) {
        Ok(()) => Ok(()),
        Err(e) => Err(e as i32),
    }
}

/// Relies on nix::sys::ptrace::read: reads the machine word of the traced
/// child's memory at `addr`.  What the word holds depends on the live
/// process.
#[verifier::external_body]
pub(crate) fn ptrace_read_word(pid: i32, addr: usize) -> Result<u64, i32> {
    match nix::sys::ptrace::read(nix::unistd::Pid::from_raw(pid), addr as nix::sys::ptrace::AddressType) {
        Ok(word) => Ok(word as u64),
        Err(e) => Err(e as i32),
    }
}

/// Relies on nix::sys::ptrace::write: writes one machine word into the
/// traced child's memory at `addr`.
#[verifier::external_body]
pub(crate) fn ptrace_write_word(pid: i32, addr: usize, word: u64) -> Result<(), i32> {
    match nix::sys::ptrace::write(nix::unistd::Pid::from_raw(pid), addr as nix::sys::ptrace::AddressType, word as i64) {
        Ok(()) => Ok(()),
        Err(e) => Err(e as i32),
    }
}

/// Relies on nix::sys::ptrace::getregs: reads the child's register set and
/// hands back the instruction pointer and the frame base pointer.
#[verifier::external_body]
pub(crate) fn read_registers(pid: i32) -> Result<(u64, u64), i32> {
    match nix::sys::ptrace::getregs(nix::unistd::Pid::from_raw(pid)) {
        Ok(regs) => Ok((regs.rip, regs.rbp)),
        Err(e) => Err(e as i32),
    }
}

/// Relies on nix::sys::ptrace::getregs and nix::sys::ptrace::setregs: writes
/// the register set back with the instruction pointer set to `rip` and every
/// other register as the kernel reported it.
#[verifier::external_body]
pub(crate) fn write_instruction_pointer(pid: i32, rip: u64) -> Result<(), i32> {
    match nix::sys::ptrace::getregs(nix::unistd::Pid::from_raw(pid)) {
        Ok(mut regs) => {
            regs.rip = rip;
            match nix::sys::ptrace::setregs(nix::unistd::Pid::from_raw(pid), regs) {
                Ok(()) => Ok(()),
                Err(e) => Err(e as i32),
            }
        },
        Err(e) => Err(e as i32),
    }
}

/// Relies on nix::sys::signal::kill: sends SIGKILL to the child.  Fails with
/// errno ESRCH when no such process exists any more.
#[verifier::external_body]
pub(crate) fn kill_child(pid: i32) -> Result<(), i32> {
    match nix::sys::signal::kill(nix::unistd::Pid::from_raw(pid), nix::sys::signal::Signal::SIGKILL) {
        Ok(()) => Ok(()),
        Err(e) => Err(e as i32),
    }
}

} // verus!
