//! Word-granular byte patching.
//!
//! The tracing facility reads and writes target memory one machine word at a
//! time, while a software breakpoint replaces a single byte.  Everything here
//! is the pure arithmetic of that mismatch: rounding an address down to its
//! containing word, extracting one byte of a word, and replacing one byte of
//! a word while provably leaving every other byte untouched.

use vstd::prelude::*;

verus! {

/// Number of bytes in a machine word of the traced process.
pub const WORD_SIZE: usize = 8;

/// The byte of `word` at byte offset `off` (least-significant byte first).
pub open spec fn word_byte(word: u64, off: u64) -> u8 {
    (word >> (8 * off)) as u8
}

/// `word` with its byte at offset `off` replaced by `val`: every bit of the
/// target byte is masked out, then the new byte is OR-ed in.
pub open spec fn word_with_byte(word: u64, off: u64, val: u8) -> u64 {
    (word & !(0xffu64 << (8 * off))) | ((val as u64) << (8 * off))
}

/// Round `addr` down to the start of the machine word containing it.
pub fn align_addr_to_word(addr: usize) -> (r: usize)
    ensures
        r == addr - addr % WORD_SIZE,
        r % WORD_SIZE == 0,
        r <= addr < r + WORD_SIZE,
{
    proof {
        assert(addr - addr % 8 == (addr / 8) * 8 && (addr / 8) * 8 % 8 == 0) by (nonlinear_arith);
    }
    addr - addr % WORD_SIZE
}

/// Extract the byte of `word` at byte offset `off`.
pub fn extract_byte(word: u64, off: usize) -> (r: u8)
    requires
        off < WORD_SIZE,
    ensures
        r == word_byte(word, off as u64),
{
    let sh: u64 = 8 * (off as u64);
    let r: u8 = #[verifier::truncate] ((word >> sh) as u8);
    proof {
        assert((word >> sh) as u8 == word_byte(word, sh / 8)) by (bit_vector)
            requires
                sh < 64 && sh % 8 == 0,
        ;
    }
    r
}

/// Replace the byte of `word` at byte offset `off` by `val`.  Every other
/// byte of the word is left exactly as it was.
pub fn replace_byte(word: u64, off: usize, val: u8) -> (r: u64)
    requires
        off < WORD_SIZE,
    ensures
        r == word_with_byte(word, off as u64, val),
        word_byte(r, off as u64) == val,
        forall|i: u64| i < WORD_SIZE && i != off ==> word_byte(r, i) == word_byte(word, i),
{
    let masked: u64 = word & !(0xffu64 << (8 * off as u32));
    let r: u64 = masked | ((val as u64) << (8 * off as u32));
    proof {
        lemma_replace_byte(word, off as u64, val);
    }
    r
}

/// Replacing a byte puts that byte in place and disturbs no other byte.
pub proof fn lemma_replace_byte(word: u64, off: u64, val: u8)
    requires
        off < 8,
    ensures
        word_byte(word_with_byte(word, off, val), off) == val,
        forall|i: u64| i < 8 && i != off ==> word_byte(word_with_byte(word, off, val), i)
            == word_byte(word, i),
{
    assert(word_byte(word_with_byte(word, off, val), off) == val) by (bit_vector)
        requires
            off < 8,
    ;
    assert forall|i: u64| i < 8 && i != off implies word_byte(word_with_byte(word, off, val), i)
        == word_byte(word, i) by {
        assert(word_byte(word_with_byte(word, off, val), i) == word_byte(word, i)) by (bit_vector)
            requires
                off < 8 && i < 8 && i != off,
        ;
    }
}

/// Patch/restore round-trip: writing a trap byte into a word and then
/// writing the previously extracted original byte back leaves the word
/// bit-for-bit identical to its pre-patch value, for every byte offset
/// within the word and every trap byte value.
pub proof fn lemma_patch_restore_roundtrip(word: u64, off: u64, trap: u8)
    requires
        off < 8,
    ensures
        word_with_byte(word_with_byte(word, off, trap), off, word_byte(word, off)) == word,
{
    assert(word_with_byte(word_with_byte(word, off, trap), off, word_byte(word, off)) == word)
        by (bit_vector)
        requires
            off < 8,
    ;
}

} // verus!
