//! The breakpoint table: which addresses currently hold a trap byte, and the
//! original byte each trap displaced.
//!
//! A saved original byte is meaningful only while the trap byte actually
//! occupies its address, so the table holds at most one entry per address.

use vstd::prelude::*;

verus! {

/// One installed software breakpoint: the patched target address and the
/// original byte the trap instruction displaced there.
#[derive(Debug, Clone, Copy, PartialEq, Eq, Structural)]
pub struct Breakpoint {
    pub addr: usize,
    pub orig_byte: u8,
}

/// All breakpoints installed in the currently traced process.
pub struct BreakpointTable {
    entries: Vec<Breakpoint>,
}

impl BreakpointTable {
    /// The table never holds two entries for the same address.
    pub closed spec fn wf(&self) -> bool {
        forall|i: int, j: int|
            0 <= i < j < self.entries@.len() ==> self.entries@[i].addr != self.entries@[j].addr
    }

    /// Whether some entry is recorded for `addr`.
    pub closed spec fn spec_contains(&self, addr: usize) -> bool {
        exists|i: int| 0 <= i < self.entries@.len() && self.entries@[i].addr == addr
    }

    /// The saved original byte for `addr` (meaningful only when an entry for
    /// `addr` is recorded).
    pub closed spec fn spec_orig_byte(&self, addr: usize) -> u8 {
        let i = choose|i: int| 0 <= i < self.entries@.len() && self.entries@[i].addr == addr;
        self.entries@[i].orig_byte
    }

    /// Any index holding `addr` determines the saved byte: the table has at
    /// most one entry per address.
    proof fn lemma_entry_determines(&self, addr: usize, i: int)
        requires
            self.wf(),
            0 <= i < self.entries@.len(),
            self.entries@[i].addr == addr,
        ensures
            self.spec_contains(addr),
            self.spec_orig_byte(addr) == self.entries@[i].orig_byte,
    {
        assert(self.spec_contains(addr));
        let k = choose|k: int| 0 <= k < self.entries@.len() && self.entries@[k].addr == addr;
        if k < i {
            assert(self.entries@[k].addr != self.entries@[i].addr);
        } else if i < k {
            assert(self.entries@[i].addr != self.entries@[k].addr);
        }
    }

    /// An empty table, for a freshly attached process.
    pub fn new() -> (r: Self)
        ensures
            r.wf(),
            forall|a: usize| !r.spec_contains(a),
    {
        BreakpointTable { entries: Vec::new() }
    }

    /// The saved original byte at `addr`, or `None` when no breakpoint is
    /// recorded there.
    pub fn lookup(&self, addr: usize) -> (r: Option<u8>)
        requires
            self.wf(),
        ensures
            match r {
                Some(b) => self.spec_contains(addr) && b == self.spec_orig_byte(addr),
                None => !self.spec_contains(addr),
            },
    {
        let mut i: usize = 0;
        while i < self.entries.len()
            invariant
                i <= self.entries@.len(),
                self.wf(),
                forall|j: int| 0 <= j < i ==> self.entries@[j].addr != addr,
            decreases self.entries@.len() - i,
        {
            if self.entries[i].addr == addr {
                proof {
                    self.lemma_entry_determines(addr, i as int);
                }
                return Some(self.entries[i].orig_byte);
            }
            i = i + 1;
        }
        None
    }

    /// Record that the original byte at `addr` was `orig_byte` when the trap
    /// was patched in.  Every other entry is kept as it was.
    pub fn record(&mut self, addr: usize, orig_byte: u8)
        requires
            old(self).wf(),
            !old(self).spec_contains(addr),
        ensures
            final(self).wf(),
            final(self).spec_contains(addr),
            final(self).spec_orig_byte(addr) == orig_byte,
            forall|a: usize|
                a != addr ==> final(self).spec_contains(a) == old(self).spec_contains(a),
            forall|a: usize|
                a != addr && old(self).spec_contains(a) ==> final(self).spec_orig_byte(a)
                    == old(self).spec_orig_byte(a),
    {
        let ghost olds = self.entries@;
        self.entries.push(Breakpoint { addr, orig_byte });
        proof {
            let n = olds.len() as int;
            assert(self.entries@ == olds.push(Breakpoint { addr, orig_byte }));
            assert forall|i: int, j: int|
                0 <= i < j < self.entries@.len() implies self.entries@[i].addr
                != self.entries@[j].addr by {
                if j < n {
                    assert(olds[i].addr != olds[j].addr);
                } else {
                    // `j` is the new entry; `i` held some other address, else
                    // the old table would already have contained `addr`.
                    assert(self.entries@[j].addr == addr);
                    if olds[i].addr == addr {
                        assert(old(self).spec_contains(addr));
                    }
                }
            }
            self.lemma_entry_determines(addr, n);
            assert forall|a: usize| a != addr && old(self).spec_contains(a) implies {
                &&& final(self).spec_contains(a)
                &&& final(self).spec_orig_byte(a) == old(self).spec_orig_byte(a)
            } by {
                let i = choose|i: int| 0 <= i < olds.len() && olds[i].addr == a;
                old(self).lemma_entry_determines(a, i);
                self.lemma_entry_determines(a, i);
            }
            assert forall|a: usize| a != addr && final(self).spec_contains(a) implies old(
                self,
            ).spec_contains(a) by {
                let i = choose|i: int|
                    0 <= i < self.entries@.len() && self.entries@[i].addr == a;
                assert(0 <= i < n);
                assert(olds[i].addr == a);
            }
        }
    }
}

} // verus!
