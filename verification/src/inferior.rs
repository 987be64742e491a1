//! The target process controller.
//!
//! An `Inferior` owns the handle of one traced child process.  It resumes and
//! single-steps the child, decodes what the wait call reports into a
//! `Status`, patches trap bytes in and out of the child's memory, and runs
//! the breakpoint-hit protocol: rewind the instruction pointer over the trap,
//! restore the displaced byte, step the original instruction, re-arm the
//! trap, and only then report the stop.
//!
//! Any failing tracing call marks the controller defunct; a defunct
//! controller must be discarded, never driven again.

use vstd::prelude::*;

use crate::DebugError;
use crate::breakpoint::BreakpointTable;
use crate::symbols::SymbolTable;
use crate::trace;
use crate::trace::WaitEvent;
use crate::unwind::Frame;
use crate::unwind::entry_function_name;
use crate::unwind::frame_resolved;
use crate::word;

verus! {

/// The single-byte trap instruction patched over an original opcode to make
/// a software breakpoint.
pub const TRAP_BYTE: u8 = 0xcc;

/// Width in bytes of the trap instruction; a trap stop is reported with the
/// instruction pointer this far past the breakpoint address.
pub const TRAP_WIDTH: usize = 1;

/// Signal number of the debug trap that a breakpoint raises.
pub const TRAP_SIGNAL: i32 = 5;

/// Errno value meaning that the process addressed no longer exists.
pub const ERRNO_NO_SUCH_PROCESS: i32 = 3;

/// Errno value reported for a wait report that cannot be decoded into a
/// `Status` (EINVAL).
pub const ERRNO_INVALID_REPORT: i32 = 22;

/// Upper bound on frames walked in one backtrace, so that a cyclic
/// frame-pointer chain in corrupted stack memory cannot be walked forever.
/// Generous enough that any honest call chain ends at the entry function
/// long before the bound.
pub const MAX_BACKTRACE_FRAMES: usize = 65536;

/// What a resume or single step ended in.  Recomputed on every wait and
/// matched exhaustively by every consumer.
#[derive(Debug, Clone, Copy, PartialEq, Eq, Structural)]
pub enum Status {
    /// The child stopped; carries the stopping signal and the instruction
    /// pointer it stopped at.
    Stopped(i32, usize),
    /// The child exited normally; carries the exit code.
    Exited(i32),
    /// The child was terminated by a signal; carries that signal.
    Signaled(i32),
}

/// How one wait report is decoded into a `Status`: an exit and a fatal
/// signal carry their own values through, a stop is tagged with the
/// instruction pointer read from the registers, and any other report is
/// undecodable.
pub fn status_of_event(ev: WaitEvent, rip: usize) -> (r: Option<Status>)
    ensures
        r == match ev {
            WaitEvent::Exited(code) => Some(Status::Exited(code)),
            WaitEvent::Signaled(sig) => Some(Status::Signaled(sig)),
            WaitEvent::Stopped(sig) => Some(Status::Stopped(sig, rip)),
            WaitEvent::Other => None::<Status>,
        },
{
    match ev {
        WaitEvent::Exited(code) => Some(Status::Exited(code)),
        WaitEvent::Signaled(sig) => Some(Status::Signaled(sig)),
        WaitEvent::Stopped(sig) => Some(Status::Stopped(sig, rip)),
        WaitEvent::Other => None,
    }
}

/// The address whose breakpoint was hit, if `st` reports a debug trap whose
/// trap byte sits `TRAP_WIDTH` before the reported instruction pointer at an
/// address the table has a breakpoint for.
pub fn breakpoint_hit(table: &BreakpointTable, st: Status) -> (r: Option<usize>)
    requires
        table.wf(),
    ensures
        r == match st {
            Status::Stopped(sig, rip) => {
                if sig == TRAP_SIGNAL && rip >= TRAP_WIDTH && table.spec_contains(
                    (rip - TRAP_WIDTH) as usize,
                ) {
                    Some((rip - TRAP_WIDTH) as usize)
                } else {
                    None::<usize>
                }
            },
            _ => None::<usize>,
        },
{
    match st {
        Status::Stopped(sig, rip) => {
            if sig == TRAP_SIGNAL && rip >= TRAP_WIDTH {
                let addr = rip - TRAP_WIDTH;
                if table.lookup(addr).is_some() {
                    Some(addr)
                } else {
                    None
                }
            } else {
                None
            }
        },
        _ => None,
    }
}

/// The idempotent-kill rule: a kill refused only because the process is
/// already gone is no error.
pub fn absorb_no_such_process(r: Result<(), i32>) -> (out: Result<(), DebugError>)
    ensures
        out == match r {
            Ok(()) => Ok::<(), DebugError>(()),
            Err(e) => if e == ERRNO_NO_SUCH_PROCESS {
                Ok::<(), DebugError>(())
            } else {
                Err::<(), DebugError>(DebugError::TraceFailure(e))
            },
        },
{
    match r {
        Ok(()) => Ok(()),
        Err(e) => if e == ERRNO_NO_SUCH_PROCESS {
            Ok(())
        } else {
            Err(DebugError::TraceFailure(e))
        },
    }
}

/// A controller for one traced child process.
pub struct Inferior {
    /// The traced process's identifier.
    pub pid: i32,
    /// Whether a tracing call has failed on this controller; once true, the
    /// controller must be discarded, never driven again.
    pub defunct: bool,
    /// Breakpoints installed in this process, with the bytes they displaced.
    pub breakpoints: BreakpointTable,
    /// Requested breakpoint addresses that could not be patched (unmapped
    /// memory); launching goes on without them.
    pub failed_installs: Vec<usize>,
}

impl Inferior {
    /// The controller's well-formedness: the breakpoint table keeps at most
    /// one saved byte per address.
    pub open spec fn wf(&self) -> bool {
        self.breakpoints.wf()
    }

    /// Whether a tracing call has failed on this controller.
    pub open spec fn spec_defunct(&self) -> bool {
        self.defunct
    }

    /// The process identifier, stable for the process's lifetime.
    pub open spec fn spec_pid(&self) -> i32 {
        self.pid
    }

    /// Takes control of a child that was just spawned with tracing enabled:
    /// waits for its initial stop, then installs a trap byte at every
    /// requested address.  An address that cannot be patched is kept in
    /// `failed_installs` as a non-fatal warning; taking control fails only
    /// when the initial stop is never observed.
    pub fn new(pid: i32, breakpoint_addrs: &Vec<usize>) -> (r: Option<Inferior>)
        ensures
            match r {
                Some(inf) => {
                    &&& inf.wf()
                    &&& inf.spec_pid() == pid
                    &&& !inf.spec_defunct()
                    &&& forall|j: int|
                        0 <= j < breakpoint_addrs@.len() ==> inf.breakpoints.spec_contains(
                            #[trigger] breakpoint_addrs@[j],
                        ) || inf.failed_installs@.contains(breakpoint_addrs@[j])
                    &&& forall|a: usize|
                        #[trigger] inf.breakpoints.spec_contains(a) ==> breakpoint_addrs@.contains(
                            a,
                        )
                    &&& forall|a: usize|
                        #[trigger] inf.failed_installs@.contains(a) ==> breakpoint_addrs@.contains(
                            a,
                        )
                },
                None => true,
            },
    {
        match trace::wait_child(pid) {
            Ok(WaitEvent::Stopped(_)) => {},
            _ => {
                return None;
            },
        }
        let mut inf = Inferior {
            pid,
            defunct: false,
            breakpoints: BreakpointTable::new(),
            failed_installs: Vec::new(),
        };
        let mut i: usize = 0;
        while i < breakpoint_addrs.len()
            invariant
                inf.wf(),
                !inf.spec_defunct(),
                inf.spec_pid() == pid,
                i <= breakpoint_addrs@.len(),
                forall|j: int|
                    0 <= j < i ==> inf.breakpoints.spec_contains(
                        #[trigger] breakpoint_addrs@[j],
                    ) || inf.failed_installs@.contains(breakpoint_addrs@[j]),
                forall|a: usize|
                    #[trigger] inf.breakpoints.spec_contains(a) ==> breakpoint_addrs@.contains(a),
                forall|a: usize|
                    #[trigger] inf.failed_installs@.contains(a) ==> breakpoint_addrs@.contains(a),
            decreases breakpoint_addrs@.len() - i,
        {
            let addr = breakpoint_addrs[i];
            let ghost pre = inf;
            proof {
                assert(breakpoint_addrs@.contains(addr)) by {
                    assert(breakpoint_addrs@[i as int] == addr);
                }
            }
            if inf.install_breakpoint(addr).is_err() {
                inf.failed_installs.push(addr);
                proof {
                    assert(inf.failed_installs@.last() == addr);
                    assert(inf.failed_installs@.contains(addr));
                    assert forall|j: int|
                        0 <= j < i && pre.failed_installs@.contains(
                            breakpoint_addrs@[j],
                        ) implies inf.failed_installs@.contains(breakpoint_addrs@[j]) by {
                        let k = choose|k: int|
                            0 <= k < pre.failed_installs@.len() && pre.failed_installs@[k]
                                == breakpoint_addrs@[j];
                        assert(inf.failed_installs@[k] == breakpoint_addrs@[j]);
                    }
                    assert forall|a: usize|
                        #[trigger] inf.failed_installs@.contains(a) implies breakpoint_addrs@.contains(
                        a,
                    ) by {
                        let k = choose|k: int|
                            0 <= k < inf.failed_installs@.len() && inf.failed_installs@[k] == a;
                        if k < pre.failed_installs@.len() {
                            assert(pre.failed_installs@[k] == a);
                            assert(pre.failed_installs@.contains(a));
                        } else {
                            assert(a == addr);
                        }
                    }
                }
            }
            i = i + 1;
        }
        Some(inf)
    }

    /// The process identifier.
    pub fn pid(&self) -> (r: i32)
        ensures
            r == self.spec_pid(),
    {
        self.pid
    }

    /// Patches the trap byte in at `addr` and records the displaced byte.
    /// An address already holding a breakpoint is left exactly as it is, so
    /// the saved byte is never clobbered by a second trap write.  Failure to
    /// patch is non-fatal and leaves the table unchanged.
    pub fn install_breakpoint(&mut self, addr: usize) -> (r: Result<(), DebugError>)
        requires
            old(self).wf(),
        ensures
            final(self).wf(),
            final(self).spec_pid() == old(self).spec_pid(),
            final(self).spec_defunct() == old(self).spec_defunct(),
            final(self).failed_installs == old(self).failed_installs,
            final(self).breakpoints.spec_contains(addr) || r is Err,
            old(self).breakpoints.spec_contains(addr) ==> r is Ok && *final(self) == *old(self),
            r is Err ==> *final(self) == *old(self),
            forall|a: usize|
                a != addr ==> final(self).breakpoints.spec_contains(a) == old(
                    self,
                ).breakpoints.spec_contains(a),
    {
        if self.breakpoints.lookup(addr).is_some() {
            return Ok(());
        }
        match self.write_byte(addr, TRAP_BYTE) {
            Ok(orig_byte) => {
                self.breakpoints.record(addr, orig_byte);
                Ok(())
            },
            Err(e) => Err(DebugError::TraceFailure(e)),
        }
    }

    /// Replaces the byte at `addr` of the child's memory by `val` and hands
    /// back the byte it displaced.  The containing word is read whole, one
    /// byte is substituted, and the word is written back, so every
    /// neighbouring byte is preserved exactly.
    pub fn write_byte(&mut self, addr: usize, val: u8) -> (r: Result<u8, i32>)
        ensures
            *final(self) == *old(self),
    {
        let aligned = word::align_addr_to_word(addr);
        let offset = addr - aligned;
        let old_word = match trace::ptrace_read_word(self.pid, aligned) {
            Ok(w) => w,
            Err(e) => {
                return Err(e);
            },
        };
        let orig_byte = word::extract_byte(old_word, offset);
        let new_word = word::replace_byte(old_word, offset, val);
        match trace::ptrace_write_word(self.pid, aligned, new_word) {
            Ok(()) => Ok(orig_byte),
            Err(e) => Err(e),
        }
    }

    /// Blocks until the child changes state and decodes the report into a
    /// `Status`; reads the instruction pointer only for a stop.  A report
    /// that cannot be decoded, or a rejected tracing call, marks the
    /// controller defunct.
    pub fn wait(&mut self) -> (r: Result<Status, DebugError>)
        requires
            old(self).wf(),
        ensures
            final(self).wf(),
            final(self).spec_pid() == old(self).spec_pid(),
            final(self).breakpoints == old(self).breakpoints,
            final(self).failed_installs == old(self).failed_installs,
            r is Err ==> final(self).spec_defunct(),
            r is Ok ==> final(self).spec_defunct() == old(self).spec_defunct(),
    {
        let ev = match trace::wait_child(self.pid) {
            Ok(ev) => ev,
            Err(e) => {
                self.defunct = true;
                return Err(DebugError::TraceFailure(e));
            },
        };
        let rip: usize = match ev {
            WaitEvent::Stopped(_) => {
                match trace::read_registers(self.pid) {
                    Ok((rip, _)) => rip as usize,
                    Err(e) => {
                        self.defunct = true;
                        return Err(DebugError::TraceFailure(e));
                    },
                }
            },
            _ => 0,
        };
        match status_of_event(ev, rip) {
            Some(st) => Ok(st),
            None => {
                self.defunct = true;
                Err(DebugError::TraceFailure(ERRNO_INVALID_REPORT))
            },
        }
    }

    /// Lets the child run until it next stops for any reason; resume and
    /// wait are one atomic operation for the caller.  A trap stop one byte
    /// past an installed breakpoint is handed to the breakpoint-hit protocol
    /// before anything is reported, so a hit is reported at the breakpoint
    /// address itself, never at the address after the trap byte; a trap the
    /// table does not know passes through with its own address.
    pub fn cont(&mut self) -> (r: Result<Status, DebugError>)
        requires
            old(self).wf(),
            !old(self).spec_defunct(),
        ensures
            final(self).wf(),
            final(self).spec_pid() == old(self).spec_pid(),
            final(self).breakpoints == old(self).breakpoints,
            final(self).failed_installs == old(self).failed_installs,
            r is Err ==> final(self).spec_defunct(),
            r is Ok ==> !final(self).spec_defunct(),
    {
        match trace::ptrace_cont(self.pid) {
            Ok(()) => {},
            Err(e) => {
                self.defunct = true;
                return Err(DebugError::TraceFailure(e));
            },
        }
        let st = match self.wait() {
            Ok(st) => st,
            Err(e) => {
                return Err(e);
            },
        };
        match breakpoint_hit(&self.breakpoints, st) {
            Some(addr) => self.continue_breakpoint(addr),
            None => Ok(st),
        }
    }

    /// The breakpoint-hit protocol, entered after a trap stop whose
    /// breakpoint address is `addr`: rewind the instruction pointer to
    /// `addr`, restore the displaced byte, single-step so the original
    /// instruction executes, re-arm the trap unless the step ended the
    /// process, and only then report the stop at the breakpoint.  No other
    /// resume or step runs in between.
    pub fn continue_breakpoint(&mut self, addr: usize) -> (r: Result<Status, DebugError>)
        requires
            old(self).wf(),
            !old(self).spec_defunct(),
            old(self).breakpoints.spec_contains(addr),
        ensures
            final(self).wf(),
            final(self).spec_pid() == old(self).spec_pid(),
            final(self).breakpoints == old(self).breakpoints,
            final(self).failed_installs == old(self).failed_installs,
            r is Err ==> final(self).spec_defunct(),
            r is Ok ==> !final(self).spec_defunct(),
            match r {
                Ok(Status::Stopped(sig, ip)) => sig == TRAP_SIGNAL && ip == addr,
                _ => true,
            },
    {
        // Step 1: rewind the reported instruction pointer over the trap byte
        // so it addresses the original instruction again.
        match trace::write_instruction_pointer(self.pid, addr as u64) {
            Ok(()) => {},
            Err(e) => {
                self.defunct = true;
                return Err(DebugError::TraceFailure(e));
            },
        }
        // Step 2: undo the patch by writing the saved original byte back.
        // The table is known to hold this address, so the lookup cannot miss.
        let orig_byte = match self.breakpoints.lookup(addr) {
            Some(b) => b,
            None => {
                return vstd::pervasive::unreached();
            },
        };
        match self.write_byte(addr, orig_byte) {
            Ok(_) => {},
            Err(e) => {
                self.defunct = true;
                return Err(DebugError::TraceFailure(e));
            },
        }
        // Step 3: single-step exactly one instruction, so the original
        // instruction actually executes.
        match trace::ptrace_step(self.pid) {
            Ok(()) => {},
            Err(e) => {
                self.defunct = true;
                return Err(DebugError::TraceFailure(e));
            },
        }
        let step_status = match self.wait() {
            Ok(st) => st,
            Err(e) => {
                return Err(e);
            },
        };
        match step_status {
            Status::Exited(_) | Status::Signaled(_) => {
                // The step ended the process: skip re-arming and report how
                // it ended.
                return Ok(step_status);
            },
            Status::Stopped(_, _) => {},
        }
        // Step 4: re-install the trap byte at the same address.
        match self.write_byte(addr, TRAP_BYTE) {
            Ok(_) => {},
            Err(e) => {
                self.defunct = true;
                return Err(DebugError::TraceFailure(e));
            },
        }
        // Step 5: only now does control return as "stopped at breakpoint".
        Ok(Status::Stopped(TRAP_SIGNAL, addr))
    }

    /// Executes exactly one instruction of the child, then reports how it
    /// stopped or ended.
    pub fn single_step(&mut self) -> (r: Result<Status, DebugError>)
        requires
            old(self).wf(),
            !old(self).spec_defunct(),
        ensures
            final(self).wf(),
            final(self).spec_pid() == old(self).spec_pid(),
            final(self).breakpoints == old(self).breakpoints,
            final(self).failed_installs == old(self).failed_installs,
            r is Err ==> final(self).spec_defunct(),
            r is Ok ==> !final(self).spec_defunct(),
    {
        match trace::ptrace_step(self.pid) {
            Ok(()) => {},
            Err(e) => {
                self.defunct = true;
                return Err(DebugError::TraceFailure(e));
            },
        }
        self.wait()
    }

    /// Walks the live call stack by the saved-frame-pointer convention,
    /// innermost frame first: each stop's instruction pointer is resolved to
    /// a function and line, the walk ends inclusively at the entry function,
    /// and an unresolvable address or unreadable memory word truncates it.
    /// The second component reports whether the walk ended complete: a
    /// complete walk's last frame is the entry function, every frame comes
    /// from the symbol table, and no more than `MAX_BACKTRACE_FRAMES` frames
    /// are ever produced.
    pub fn backtrace(&mut self, symbols: &SymbolTable) -> (r: Result<(Vec<Frame>, bool), DebugError>)
        requires
            old(self).wf(),
            !old(self).spec_defunct(),
        ensures
            final(self).wf(),
            final(self).pid == old(self).pid,
            final(self).breakpoints == old(self).breakpoints,
            final(self).failed_installs == old(self).failed_installs,
            r is Err ==> final(self).spec_defunct(),
            r is Ok ==> !final(self).spec_defunct(),
            r matches Ok(pair) ==> pair.0@.len() <= MAX_BACKTRACE_FRAMES,
            r matches Ok(pair) ==> (pair.1 ==> pair.0@.len() > 0 && pair.0@.last().func@
                == entry_function_name()),
            r matches Ok(pair) ==> forall|k: int|
                0 <= k < pair.0@.len() ==> frame_resolved(*symbols, #[trigger] pair.0@[k]),
    {
        let (rip, rbp) = match trace::read_registers(self.pid) {
            Ok(regs) => regs,
            Err(e) => {
                self.defunct = true;
                return Err(DebugError::TraceFailure(e));
            },
        };
        let mut ip: usize = #[verifier::truncate] (rip as usize);
        let mut bp: usize = #[verifier::truncate] (rbp as usize);
        let mut frames: Vec<Frame> = Vec::new();
        let entry = "main".to_owned();
        let mut remaining: usize = MAX_BACKTRACE_FRAMES;
        while remaining > 0
            invariant
                self.wf(),
                self.pid == old(self).pid,
                self.breakpoints == old(self).breakpoints,
                self.failed_installs == old(self).failed_installs,
                self.defunct == old(self).defunct,
                !self.defunct,
                entry@ == entry_function_name(),
                remaining <= MAX_BACKTRACE_FRAMES,
                frames@.len() == MAX_BACKTRACE_FRAMES - remaining,
                forall|k: int|
                    0 <= k < frames@.len() ==> frame_resolved(*symbols, #[trigger] frames@[k]),
            decreases remaining,
        {
            let name = match symbols.get_function_from_addr(ip) {
                Some(n) => n,
                None => {
                    return Ok((frames, false));
                },
            };
            let line = match symbols.get_line_from_addr(ip) {
                Some(l) => l,
                None => {
                    return Ok((frames, false));
                },
            };
            let is_entry = name == entry;
            let ghost earlier = frames@;
            frames.push(Frame { func: name, line });
            proof {
                let f = frames@.last();
                assert(frame_resolved(*symbols, f)) by {
                    assert(symbols.spec_function_at(ip) matches Some(rec) && rec.name == f.func
                        && symbols.spec_line_at(ip) == Some(f.line));
                }
                assert forall|k: int|
                    0 <= k < frames@.len() implies frame_resolved(
                    *symbols,
                    #[trigger] frames@[k],
                ) by {
                    if k < earlier.len() {
                        assert(frames@[k] == earlier[k]);
                    }
                }
            }
            if is_entry {
                return Ok((frames, true));
            }
            if bp > usize::MAX - word::WORD_SIZE {
                return Ok((frames, false));
            }
            let return_addr = match trace::ptrace_read_word(self.pid, bp + word::WORD_SIZE) {
                Ok(w) => w,
                Err(_) => {
                    return Ok((frames, false));
                },
            };
            let caller_bp = match trace::ptrace_read_word(self.pid, bp) {
                Ok(w) => w,
                Err(_) => {
                    return Ok((frames, false));
                },
            };
            ip = #[verifier::truncate] (return_addr as usize);
            bp = #[verifier::truncate] (caller_bp as usize);
            remaining = remaining - 1;
        }
        Ok((frames, false))
    }

    /// Terminates the child.  Killing is idempotent: a process that already
    /// exited is absorbed as a no-op, never an error.  The child is reaped
    /// afterwards so no zombie lingers.
    pub fn kill(&mut self) -> (r: Result<(), DebugError>)
        ensures
            final(self).wf() == old(self).wf(),
            final(self).spec_pid() == old(self).spec_pid(),
            final(self).breakpoints == old(self).breakpoints,
            final(self).failed_installs == old(self).failed_installs,
            r != Err::<(), DebugError>(DebugError::TraceFailure(ERRNO_NO_SUCH_PROCESS)),
    {
        let killed = absorb_no_such_process(trace::kill_child(self.pid));
        let _ = trace::wait_child(self.pid);
        killed
    }
}

} // verus!
