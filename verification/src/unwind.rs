//! The stack unwinder.
//!
//! A backtrace is reconstructed with the standard saved-frame-pointer
//! convention: the current instruction pointer names the innermost frame;
//! unless that frame is the program's entry function, the return address
//! saved at `frame base + word size` and the caller's frame base saved at
//! `frame base` name the next one, and so on.  The walk ends inclusively at
//! the entry function, and is truncated — reported incomplete — when an
//! address resolves to no function or line, or a memory word cannot be read.
//!
//! The walk itself is pure: it reads machine words through a `MemoryImage`,
//! so the whole unwinding logic is stated and verified over plain values.
//! The controller feeds it an image of the live process's stack.

use vstd::prelude::*;

use crate::symbols::SymbolTable;
use crate::word::WORD_SIZE;

verus! {

/// One backtrace frame: the function's name and the source line of the
/// instruction the frame stands at.
#[derive(Debug)]
pub struct Frame {
    pub func: String,
    pub line: usize,
}

/// Name of the program's entry function, where every complete walk stops.
pub open spec fn entry_function_name() -> Seq<char> {
    "main"@
}

/// Whether `frame` could have been resolved from `st`: some address's
/// function record carries the frame's name and some covering line record
/// its line.
pub open spec fn frame_resolved(st: SymbolTable, frame: Frame) -> bool {
    exists|a: usize|
        {
            &&& #[trigger] st.spec_function_at(a) matches Some(rec) && rec.name == frame.func
            &&& st.spec_line_at(a) == Some(frame.line)
        }
}

/// A word-addressed image of the fragments of target memory that a stack
/// walk reads.
pub struct MemoryImage {
    pub cells: Vec<(usize, u64)>,
}

impl MemoryImage {
    /// The word recorded for `addr` at or after index `i`.
    pub open spec fn spec_read_from(&self, i: int, addr: usize) -> Option<u64>
        decreases self.cells@.len() - i,
    {
        if i < 0 || i >= self.cells@.len() {
            None
        } else if self.cells@[i].0 == addr {
            Some(self.cells@[i].1)
        } else {
            self.spec_read_from(i + 1, addr)
        }
    }

    /// The word recorded for `addr`, if any.
    pub open spec fn spec_read(&self, addr: usize) -> Option<u64> {
        self.spec_read_from(0, addr)
    }

    /// An image with no cells: every read fails.
    pub fn new() -> (r: Self)
        ensures
            r.cells@.len() == 0,
    {
        MemoryImage { cells: Vec::new() }
    }

    /// Record the word `value` at address `addr` (earlier records win).
    pub fn push_cell(&mut self, addr: usize, value: u64)
        ensures
            final(self).cells@ == old(self).cells@.push((addr, value)),
    {
        self.cells.push((addr, value));
    }

    fn read_rec(&self, i: usize, addr: usize) -> (r: Option<u64>)
        requires
            i <= self.cells@.len(),
        ensures
            r == self.spec_read_from(i as int, addr),
        decreases self.cells@.len() - i,
    {
        if i == self.cells.len() {
            None
        } else {
            let cell = &self.cells[i];
            if cell.0 == addr {
                Some(cell.1)
            } else {
                self.read_rec(i + 1, addr)
            }
        }
    }

    /// The word this image holds at `addr`.
    pub fn read(&self, addr: usize) -> (r: Option<u64>)
        ensures
            r == self.spec_read(addr),
    {
        self.read_rec(0, addr)
    }
}

/// The frames a stack walk yields from instruction pointer `ip` and frame
/// base `bp`, paired with whether the walk ended complete (reached the entry
/// function) rather than truncated.  `fuel` bounds the number of frames so
/// that a cyclic frame-pointer chain cannot be walked forever.
pub open spec fn spec_unwind(
    st: SymbolTable,
    mem: MemoryImage,
    ip: usize,
    bp: usize,
    fuel: nat,
) -> (Seq<Frame>, bool)
    decreases fuel,
{
    if fuel == 0 {
        (Seq::<Frame>::empty(), false)
    } else {
        match (st.spec_function_at(ip), st.spec_line_at(ip)) {
            (Some(rec), Some(line)) => {
                let frame = Frame { func: rec.name, line };
                if rec.name@ == entry_function_name() {
                    (seq![frame], true)
                } else if bp > usize::MAX - WORD_SIZE {
                    (seq![frame], false)
                } else {
                    match (mem.spec_read((bp + WORD_SIZE) as usize), mem.spec_read(bp)) {
                        (Some(ra), Some(caller_bp)) => {
                            let rest = spec_unwind(
                                st,
                                mem,
                                ra as usize,
                                caller_bp as usize,
                                (fuel - 1) as nat,
                            );
                            (seq![frame] + rest.0, rest.1)
                        },
                        _ => (seq![frame], false),
                    }
                }
            },
            _ => (Seq::<Frame>::empty(), false),
        }
    }
}

/// Walks the frame-pointer chain through the memory image, innermost frame
/// first, yielding exactly the frames of `spec_unwind` and whether the walk
/// reached the entry function.
pub fn unwind_from(
    st: &SymbolTable,
    mem: &MemoryImage,
    ip: usize,
    bp: usize,
    fuel: usize,
) -> (r: (Vec<Frame>, bool))
    ensures
        r.0@ == spec_unwind(*st, *mem, ip, bp, fuel as nat).0,
        r.1 == spec_unwind(*st, *mem, ip, bp, fuel as nat).1,
    decreases fuel,
{
    if fuel == 0 {
        return (Vec::new(), false);
    }
    let name = match st.get_function_from_addr(ip) {
        Some(n) => n,
        None => {
            return (Vec::new(), false);
        },
    };
    let line = match st.get_line_from_addr(ip) {
        Some(l) => l,
        None => {
            return (Vec::new(), false);
        },
    };
    let is_entry = name == "main".to_owned();
    let frame = Frame { func: name, line };
    if is_entry {
        let mut frames: Vec<Frame> = Vec::new();
        frames.push(frame);
        proof {
            assert(frames@ =~= seq![frame]);
        }
        return (frames, true);
    }
    if bp > usize::MAX - WORD_SIZE {
        let mut frames: Vec<Frame> = Vec::new();
        frames.push(frame);
        proof {
            assert(frames@ =~= seq![frame]);
        }
        return (frames, false);
    }
    let ra = mem.read(bp + WORD_SIZE);
    let caller_bp = mem.read(bp);
    match (ra, caller_bp) {
        (Some(ra), Some(caller_bp)) => {
            let next_ip: usize = #[verifier::truncate] (ra as usize);
            let next_bp: usize = #[verifier::truncate] (caller_bp as usize);
            let (mut rest, complete) = unwind_from(st, mem, next_ip, next_bp, fuel - 1);
            let mut frames: Vec<Frame> = Vec::new();
            frames.push(frame);
            frames.append(&mut rest);
            proof {
                assert(frames@ =~= seq![frame] + spec_unwind(
                    *st,
                    *mem,
                    next_ip,
                    next_bp,
                    (fuel - 1) as nat,
                ).0);
            }
            (frames, complete)
        },
        _ => {
            let mut frames: Vec<Frame> = Vec::new();
            frames.push(frame);
            proof {
                assert(frames@ =~= seq![frame]);
            }
            (frames, false)
        },
    }
}

/// A walk standing in the entry function yields that one frame alone and is
/// complete: unwinding stops at the entry function with no further reads.
pub proof fn lemma_unwind_stops_at_entry(
    st: SymbolTable,
    mem: MemoryImage,
    ip: usize,
    bp: usize,
    fuel: nat,
)
    requires
        fuel > 0,
        st.spec_function_at(ip) matches Some(rec) && rec.name@ == entry_function_name(),
        st.spec_line_at(ip) is Some,
    ensures
        spec_unwind(st, mem, ip, bp, fuel).0.len() == 1,
        spec_unwind(st, mem, ip, bp, fuel).1,
{
}

} // verus!
