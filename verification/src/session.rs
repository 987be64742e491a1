//! The session orchestrator.
//!
//! A `Debugger` owns zero or one live process controller and the list of
//! pending breakpoint addresses, which outlives any one process.  It maps
//! the session's commands onto the controller: a launch kills any earlier
//! process first and installs every pending breakpoint in the new one; a
//! stop on an exit or a fatal signal, or any tracing failure, falls back to
//! having no process; a breakpoint command resolves its location and both
//! queues it and — when a process is active — installs it at once.

use vstd::prelude::*;

use crate::DebugError;
use crate::command;
use crate::inferior::Inferior;
use crate::inferior::MAX_BACKTRACE_FRAMES;
use crate::inferior::Status;
use crate::symbols::SymbolTable;
use crate::unwind::Frame;
use crate::unwind::entry_function_name;
use crate::unwind::frame_resolved;

verus! {

/// One debugging session: at most one traced process, the pending
/// breakpoint addresses, and the target's symbol table.
pub struct Debugger {
    /// The controller of the currently traced process, if one is live.
    pub inferior: Option<Inferior>,
    /// Requested breakpoint addresses; they persist across process restarts
    /// and are installed into every newly launched process.
    pub breakpoints: Vec<usize>,
    /// The target's debug information.
    pub symbols: SymbolTable,
}

impl Debugger {
    /// Any controller held is well-formed and still usable.
    pub open spec fn wf(&self) -> bool {
        match self.inferior {
            Some(inf) => inf.wf() && !inf.spec_defunct(),
            None => true,
        }
    }

    /// Whether a process is under control (the session is not `NoProcess`).
    pub open spec fn spec_has_process(&self) -> bool {
        self.inferior is Some
    }

    /// Whether a process is under control.
    pub fn has_process(&self) -> (r: bool)
        ensures
            r == self.spec_has_process(),
    {
        self.inferior.is_some()
    }

    /// A fresh session: no process, no pending breakpoints.
    pub fn new(symbols: SymbolTable) -> (r: Debugger)
        ensures
            r.wf(),
            !r.spec_has_process(),
            r.breakpoints@.len() == 0,
            r.symbols == symbols,
    {
        Debugger { inferior: None, breakpoints: Vec::new(), symbols }
    }

    /// Resolves `loc` and, on success, queues the address as pending; when a
    /// process is active the trap byte is also patched in at once (an
    /// address that cannot be patched is a non-fatal miss; the queue keeps
    /// it for the next launch).  On resolution failure nothing changes.
    pub fn add_breakpoint(&mut self, loc: &String) -> (r: Result<usize, DebugError>)
        requires
            old(self).wf(),
        ensures
            final(self).wf(),
            final(self).symbols == old(self).symbols,
            final(self).spec_has_process() == old(self).spec_has_process(),
            match command::spec_resolve_location(loc@, old(self).symbols) {
                Ok(addr) => {
                    &&& r == Ok::<usize, DebugError>(addr)
                    &&& final(self).breakpoints@ == old(self).breakpoints@.push(addr)
                    &&& (old(self).inferior matches Some(held) ==> {
                        &&& final(self).inferior matches Some(kept)
                        &&& kept.spec_pid() == held.spec_pid()
                        &&& kept.failed_installs == held.failed_installs
                        &&& (kept.breakpoints.spec_contains(addr) || kept == held)
                        &&& forall|a: usize|
                            a != addr ==> kept.breakpoints.spec_contains(a)
                                == held.breakpoints.spec_contains(a)
                    })
                },
                Err(e) => r == Err::<usize, DebugError>(e) && final(self).breakpoints@ == old(
                    self,
                ).breakpoints@ && final(self).inferior == old(self).inferior,
            },
    {
        let addr = match command::resolve_location(loc, &self.symbols) {
            Ok(a) => a,
            Err(e) => {
                return Err(e);
            },
        };
        self.breakpoints.push(addr);
        match self.inferior.take() {
            Some(mut inf) => {
                let _ = inf.install_breakpoint(addr);
                self.inferior = Some(inf);
            },
            None => {},
        }
        Ok(addr)
    }

    /// Kills and discards any controlled process; with none, a no-op and
    /// never an error.  Afterwards the session is `NoProcess` either way.
    pub fn kill_inferior(&mut self) -> (r: Result<(), DebugError>)
        requires
            old(self).wf(),
        ensures
            final(self).wf(),
            !final(self).spec_has_process(),
            final(self).breakpoints == old(self).breakpoints,
            final(self).symbols == old(self).symbols,
            !old(self).spec_has_process() ==> r == Ok::<(), DebugError>(()),
    {
        match self.inferior.take() {
            Some(mut inf) => inf.kill(),
            None => Ok(()),
        }
    }

    /// Takes control of a freshly spawned traced child and resumes it: waits
    /// for the initial stop, installs every pending breakpoint, and lets the
    /// target run to its first stop.  When the initial stop is never seen
    /// the launch has failed and the session stays `NoProcess`.
    pub fn launch(&mut self, pid: i32) -> (r: Result<Status, DebugError>)
        requires
            old(self).wf(),
            !old(self).spec_has_process(),
        ensures
            final(self).wf(),
            final(self).breakpoints == old(self).breakpoints,
            final(self).symbols == old(self).symbols,
            match r {
                Ok(Status::Stopped(_, _)) => final(self).spec_has_process(),
                Ok(Status::Exited(_)) => !final(self).spec_has_process(),
                Ok(Status::Signaled(_)) => !final(self).spec_has_process(),
                Err(_) => !final(self).spec_has_process(),
            },
            r matches Ok(Status::Stopped(_, _)) ==> (final(self).inferior matches Some(kept)
                && forall|j: int|
                0 <= j < old(self).breakpoints@.len() ==> kept.breakpoints.spec_contains(
                    #[trigger] old(self).breakpoints@[j],
                ) || kept.failed_installs@.contains(old(self).breakpoints@[j])),
            r matches Ok(Status::Stopped(_, _)) ==> (final(self).inferior matches Some(kept)
                && forall|a: usize|
                #[trigger] kept.breakpoints.spec_contains(a) ==> old(
                    self,
                ).breakpoints@.contains(a)),
            r matches Ok(Status::Stopped(_, _)) ==> (final(self).inferior matches Some(kept)
                && forall|a: usize|
                #[trigger] kept.failed_installs@.contains(a) ==> old(
                    self,
                ).breakpoints@.contains(a)),
    {
        let inf = match Inferior::new(pid, &self.breakpoints) {
            Some(inf) => inf,
            None => {
                return Err(DebugError::SpawnFailure);
            },
        };
        self.inferior = Some(inf);
        self.continue_process()
    }

    /// Lets the controlled process run on until it next stops.  An exit or a
    /// fatal signal, and any tracing failure, leaves the session
    /// `NoProcess`; a stop keeps the process under control.
    pub fn continue_process(&mut self) -> (r: Result<Status, DebugError>)
        requires
            old(self).wf(),
            old(self).spec_has_process(),
        ensures
            final(self).wf(),
            final(self).breakpoints == old(self).breakpoints,
            final(self).symbols == old(self).symbols,
            match r {
                Ok(Status::Stopped(_, _)) => final(self).spec_has_process(),
                Ok(Status::Exited(_)) => !final(self).spec_has_process(),
                Ok(Status::Signaled(_)) => !final(self).spec_has_process(),
                Err(_) => !final(self).spec_has_process(),
            },
            r matches Ok(Status::Stopped(_, _)) ==> (final(self).inferior matches Some(kept)
                && old(self).inferior matches Some(taken) && kept.breakpoints == taken.breakpoints
                && kept.failed_installs == taken.failed_installs),
    {
        let mut inf = match self.inferior.take() {
            Some(inf) => inf,
            None => {
                return vstd::pervasive::unreached();
            },
        };
        match inf.cont() {
            Ok(Status::Stopped(sig, ip)) => {
                self.inferior = Some(inf);
                Ok(Status::Stopped(sig, ip))
            },
            Ok(st) => {
                // Exited or fatally signaled: the controller is done with.
                Ok(st)
            },
            Err(e) => {
                // A defunct controller is discarded, never reused.
                Err(e)
            },
        }
    }

    /// Walks the controlled process's call stack, innermost frame first.  A
    /// walk that could not reach the entry function hands its partial frames
    /// back together with the unwind failure, so the caller can report both;
    /// a walk without that failure ends at the entry function.  Every frame
    /// comes from the session's symbol table.
    pub fn backtrace(&mut self) -> (r: Result<(Vec<Frame>, Option<DebugError>), DebugError>)
        requires
            old(self).wf(),
            old(self).spec_has_process(),
        ensures
            final(self).wf(),
            final(self).breakpoints == old(self).breakpoints,
            final(self).symbols == old(self).symbols,
            r is Ok ==> final(self).spec_has_process(),
            r is Err ==> !final(self).spec_has_process(),
            r matches Ok(pair) ==> (pair.1 is None || pair.1 == Some(DebugError::UnwindFailure)),
            r matches Ok(pair) ==> pair.0@.len() <= MAX_BACKTRACE_FRAMES,
            r matches Ok(pair) ==> (pair.1 is None ==> pair.0@.len() > 0 && pair.0@.last().func@
                == entry_function_name()),
            r matches Ok(pair) ==> forall|k: int|
                0 <= k < pair.0@.len() ==> frame_resolved(old(self).symbols, #[trigger] pair.0@[k]),
    {
        let mut inf = match self.inferior.take() {
            Some(inf) => inf,
            None => {
                return vstd::pervasive::unreached();
            },
        };
        match inf.backtrace(&self.symbols) {
            Ok((frames, complete)) => {
                self.inferior = Some(inf);
                if complete {
                    Ok((frames, None))
                } else {
                    Ok((frames, Some(DebugError::UnwindFailure)))
                }
            },
            Err(e) => Err(e),
        }
    }
}

} // verus!
