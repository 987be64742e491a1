//! The symbol resolver consumed by the debugger.
//!
//! Debug information reaches the engine as plain address-indexed records: a
//! function covers a half-open address range, and a line record maps a range
//! of instruction addresses to one source line.  All lookups are best-effort
//! — "not found" is an ordinary `None`, never a sentinel address.

use vstd::prelude::*;

verus! {

/// One function of the target: its name and the half-open address range
/// `[low, high)` its code occupies.
#[derive(Debug, Clone)]
pub struct FunctionRecord {
    pub name: String,
    pub low: usize,
    pub high: usize,
}

/// One line-table entry: the addresses in `[low, high)` belong to source
/// line `line`.
#[derive(Debug, Clone, Copy, PartialEq, Eq, Structural)]
pub struct LineRecord {
    pub low: usize,
    pub high: usize,
    pub line: usize,
}

/// Whether `rec` covers `addr`.
pub open spec fn func_covers(rec: FunctionRecord, addr: usize) -> bool {
    rec.low <= addr < rec.high
}

/// Whether `rec` covers `addr`.
pub open spec fn line_covers(rec: LineRecord, addr: usize) -> bool {
    rec.low <= addr < rec.high
}

/// The address-indexed debug information of one target binary.
pub struct SymbolTable {
    pub functions: Vec<FunctionRecord>,
    pub lines: Vec<LineRecord>,
}

impl SymbolTable {
    /// The first function record at or after index `i` covering `addr`.
    pub open spec fn spec_function_from(&self, i: int, addr: usize) -> Option<FunctionRecord>
        decreases self.functions@.len() - i,
    {
        if i < 0 || i >= self.functions@.len() {
            None
        } else if func_covers(self.functions@[i], addr) {
            Some(self.functions@[i])
        } else {
            self.spec_function_from(i + 1, addr)
        }
    }

    /// The function record covering `addr`, if any.
    pub open spec fn spec_function_at(&self, addr: usize) -> Option<FunctionRecord> {
        self.spec_function_from(0, addr)
    }

    /// The first line record at or after index `i` covering `addr`.
    pub open spec fn spec_line_from(&self, i: int, addr: usize) -> Option<usize>
        decreases self.lines@.len() - i,
    {
        if i < 0 || i >= self.lines@.len() {
            None
        } else if line_covers(self.lines@[i], addr) {
            Some(self.lines@[i].line)
        } else {
            self.spec_line_from(i + 1, addr)
        }
    }

    /// The source line covering `addr`, if any.
    pub open spec fn spec_line_at(&self, addr: usize) -> Option<usize> {
        self.spec_line_from(0, addr)
    }

    /// The entry address of the first function at or after index `i` named
    /// `name`.
    pub open spec fn spec_function_addr_from(&self, i: int, name: Seq<char>) -> Option<usize>
        decreases self.functions@.len() - i,
    {
        if i < 0 || i >= self.functions@.len() {
            None
        } else if self.functions@[i].name@ == name {
            Some(self.functions@[i].low)
        } else {
            self.spec_function_addr_from(i + 1, name)
        }
    }

    /// The entry address of the function named `name`, if any.
    pub open spec fn spec_function_addr(&self, name: Seq<char>) -> Option<usize> {
        self.spec_function_addr_from(0, name)
    }

    /// The first address of the first line record at or after index `i` for
    /// source line `line`.
    pub open spec fn spec_line_addr_from(&self, i: int, line: usize) -> Option<usize>
        decreases self.lines@.len() - i,
    {
        if i < 0 || i >= self.lines@.len() {
            None
        } else if self.lines@[i].line == line {
            Some(self.lines@[i].low)
        } else {
            self.spec_line_addr_from(i + 1, line)
        }
    }

    /// The first address belonging to source line `line`, if any.
    pub open spec fn spec_line_addr(&self, line: usize) -> Option<usize> {
        self.spec_line_addr_from(0, line)
    }

    /// An empty table: every lookup misses.
    pub fn new() -> (r: Self)
        ensures
            r.functions@.len() == 0,
            r.lines@.len() == 0,
    {
        SymbolTable { functions: Vec::new(), lines: Vec::new() }
    }

    fn function_name_rec(&self, i: usize, addr: usize) -> (r: Option<String>)
        requires
            i <= self.functions@.len(),
        ensures
            r == match self.spec_function_from(i as int, addr) {
                Some(rec) => Some(rec.name),
                None => None::<String>,
            },
        decreases self.functions@.len() - i,
    {
        if i == self.functions.len() {
            None
        } else {
            let rec = &self.functions[i];
            if rec.low <= addr && addr < rec.high {
                Some(rec.name.clone())
            } else {
                self.function_name_rec(i + 1, addr)
            }
        }
    }

    /// The name of the function whose code covers `addr`.
    pub fn get_function_from_addr(&self, addr: usize) -> (r: Option<String>)
        ensures
            r == match self.spec_function_at(addr) {
                Some(rec) => Some(rec.name),
                None => None::<String>,
            },
    {
        self.function_name_rec(0, addr)
    }

    fn line_rec(&self, i: usize, addr: usize) -> (r: Option<usize>)
        requires
            i <= self.lines@.len(),
        ensures
            r == self.spec_line_from(i as int, addr),
        decreases self.lines@.len() - i,
    {
        if i == self.lines.len() {
            None
        } else {
            let rec = &self.lines[i];
            if rec.low <= addr && addr < rec.high {
                Some(rec.line)
            } else {
                self.line_rec(i + 1, addr)
            }
        }
    }

    /// The source line whose instructions cover `addr`.
    pub fn get_line_from_addr(&self, addr: usize) -> (r: Option<usize>)
        ensures
            r == self.spec_line_at(addr),
    {
        self.line_rec(0, addr)
    }

    fn function_addr_rec(&self, i: usize, name: &String) -> (r: Option<usize>)
        requires
            i <= self.functions@.len(),
        ensures
            r == self.spec_function_addr_from(i as int, name@),
        decreases self.functions@.len() - i,
    {
        if i == self.functions.len() {
            None
        } else {
            let rec = &self.functions[i];
            if rec.name == *name {
                Some(rec.low)
            } else {
                self.function_addr_rec(i + 1, name)
            }
        }
    }

    /// The entry address of the function named `name`.
    pub fn get_addr_for_function(&self, name: &String) -> (r: Option<usize>)
        ensures
            r == self.spec_function_addr(name@),
    {
        self.function_addr_rec(0, name)
    }

    fn line_addr_rec(&self, i: usize, line: usize) -> (r: Option<usize>)
        requires
            i <= self.lines@.len(),
        ensures
            r == self.spec_line_addr_from(i as int, line),
        decreases self.lines@.len() - i,
    {
        if i == self.lines.len() {
            None
        } else {
            let rec = &self.lines[i];
            if rec.line == line {
                Some(rec.low)
            } else {
                self.line_addr_rec(i + 1, line)
            }
        }
    }

    /// The first address whose instructions belong to source line `line`.
    pub fn get_addr_for_line(&self, line: usize) -> (r: Option<usize>)
        ensures
            r == self.spec_line_addr(line),
    {
        self.line_addr_rec(0, line)
    }
}

} // verus!
