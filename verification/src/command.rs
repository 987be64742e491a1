//! User commands and breakpoint locations.
//!
//! A command line is a sequence of whitespace-split tokens; `from_tokens`
//! classifies it.  A breakpoint location is resolved with a fixed
//! precedence: a leading `*` means a literal hexadecimal address parsed with
//! no symbol lookup at all; otherwise a numeric value is tried as a source
//! line, and anything else — or a line with no address — is tried as a
//! function name.

use vstd::prelude::*;

use crate::DebugError;
use crate::symbols::SymbolTable;

verus! {

/// One textual command of the debugging session.
#[derive(Debug, Clone, PartialEq, Eq)]
pub enum DebuggerCommand {
    /// Launch the target with the given arguments.
    Run(Vec<String>),
    /// Let the stopped target run on.
    Continue,
    /// Walk and report the call stack.
    Backtrace,
    /// Install or queue a breakpoint at the given location.
    BreakPoint(String),
    /// Kill any target and end the session.
    Quit,
}

/// Whether `c` is a digit of base `radix` (decimal digits first, then both
/// letter cases).
pub open spec fn digit_in_radix(c: char, radix: u32) -> bool {
    let u = c as u32;
    ||| (48 <= u <= 57 && u - 48 < radix)
    ||| (97 <= u <= 122 && u - 97 + 10 < radix)
    ||| (65 <= u <= 90 && u - 65 + 10 < radix)
}

/// The numeric value of digit `c` (meaningful only when `c` is a digit of
/// the radix at hand).
pub open spec fn digit_value(c: char) -> int {
    let u = c as u32;
    if 48 <= u <= 57 {
        u - 48
    } else if 97 <= u {
        u - 97 + 10
    } else {
        u - 65 + 10
    }
}

/// The value of the digit string `s` read in base `radix`, most significant
/// digit first.
pub open spec fn radix_value(s: Seq<char>, radix: u32) -> int
    decreases s.len(),
{
    if s.len() == 0 {
        0
    } else {
        radix_value(s.drop_last(), radix) * radix + digit_value(s.last())
    }
}

/// Whether every character of `s` is a digit of base `radix`.
pub open spec fn all_digits(s: Seq<char>, radix: u32) -> bool {
    forall|i: int| 0 <= i < s.len() ==> digit_in_radix(s[i], radix)
}

/// Whether `s` is a well-formed base-`radix` numeral whose value fits an
/// address: non-empty, digits only, and no larger than `usize::MAX`.
pub open spec fn numeral_ok(s: Seq<char>, radix: u32) -> bool {
    s.len() > 0 && all_digits(s, radix) && radix_value(s, radix) <= usize::MAX
}

/// A valid digit string has a non-negative value.
proof fn lemma_radix_value_nonneg(s: Seq<char>, radix: u32)
    requires
        1 <= radix,
        all_digits(s, radix),
    ensures
        radix_value(s, radix) >= 0,
    decreases s.len(),
{
    if s.len() > 0 {
        assert(all_digits(s.drop_last(), radix)) by {
            assert(forall|i: int|
                0 <= i < s.drop_last().len() ==> s.drop_last()[i] == s[i] && digit_in_radix(
                    s[i],
                    radix,
                ));
        }
        lemma_radix_value_nonneg(s.drop_last(), radix);
        let a = radix_value(s.drop_last(), radix);
        assert(a * radix >= 0) by (nonlinear_arith)
            requires
                a >= 0 && radix >= 1,
        ;
        assert(digit_value(s.last()) >= 0);
    }
}

/// Reading a longer prefix of a valid digit string never shrinks the value.
proof fn lemma_radix_prefix_le(s: Seq<char>, radix: u32, j: int, k: int)
    requires
        1 <= radix,
        all_digits(s, radix),
        0 <= j <= k <= s.len(),
    ensures
        radix_value(s.subrange(0, j), radix) <= radix_value(s.subrange(0, k), radix),
    decreases k - j,
{
    if j < k {
        let shorter = s.subrange(0, k - 1);
        let longer = s.subrange(0, k);
        assert(longer.drop_last() =~= shorter);
        assert(all_digits(shorter, radix));
        assert(digit_in_radix(longer.last(), radix));
        lemma_radix_value_nonneg(shorter, radix);
        let a = radix_value(shorter, radix);
        assert(a * radix >= a) by (nonlinear_arith)
            requires
                a >= 0 && radix >= 1,
        ;
        lemma_radix_prefix_le(s, radix, j, k - 1);
    }
}

/// The digit value of `c` in base `radix`, or `None` when `c` is no such
/// digit.
pub fn parse_digit(c: char, radix: u32) -> (r: Option<u32>)
    requires
        radix <= 36,
    ensures
        r == if digit_in_radix(c, radix) {
            Some(digit_value(c) as u32)
        } else {
            None::<u32>
        },
{
    let u = c as u32;
    if 48 <= u && u <= 57 {
        if u - 48 < radix {
            Some(u - 48)
        } else {
            None
        }
    } else if 97 <= u && u <= 122 {
        if u - 97 + 10 < radix {
            Some(u - 87)
        } else {
            None
        }
    } else if 65 <= u && u <= 90 {
        if u - 65 + 10 < radix {
            Some(u - 55)
        } else {
            None
        }
    } else {
        None
    }
}

/// How many characters of an optional leading plus sign stand before the
/// digits of `s`.
pub open spec fn plus_len(s: Seq<char>) -> int {
    if s.len() >= 1 && s[0] == '+' {
        1
    } else {
        0
    }
}

/// What reading `s` as a base-`radix` numeral yields: after an optional
/// leading `+`, a non-empty all-digit string whose value fits an address.
pub open spec fn spec_parse_radix(s: Seq<char>, radix: u32) -> Option<usize> {
    let digits = s.skip(plus_len(s));
    if numeral_ok(digits, radix) {
        Some(radix_value(digits, radix) as usize)
    } else {
        None
    }
}

/// What parsing a hexadecimal address yields: an optional `0x`/`0X` prefix,
/// then an optional `+`, then the digits.
pub open spec fn spec_parse_address(s: Seq<char>) -> Option<usize> {
    spec_parse_radix(s.skip(hex_prefix_len(s)), 16)
}

/// Reads `s` from character `start` on as a base-`radix` numeral: one
/// optional leading `+`, then a non-empty all-digit tail whose value fits
/// `usize`, exactly as `spec_parse_radix` says.
pub fn parse_radix_from(s: &str, start: usize, radix: u32) -> (r: Option<usize>)
    requires
        2 <= radix <= 36,
        start <= s@.len(),
    ensures
        r == spec_parse_radix(s@.skip(start as int), radix),
{
    let n = s.unicode_len();
    let ghost t = s@.skip(start as int);
    let begin: usize = if start < n && s.get_char(start) == '+' {
        start + 1
    } else {
        start
    };
    let ghost u = s@.skip(begin as int);
    proof {
        if start < n {
            assert(t[0] == s@[start as int]);
        }
        if begin == start + 1 {
            assert(u =~= t.skip(1));
        } else {
            assert(u =~= t.skip(0));
        }
        assert(u == t.skip(plus_len(t)));
    }
    if begin >= n {
        proof {
            assert(u.len() == 0);
        }
        return None;
    }
    let mut acc: u128 = 0;
    let mut i: usize = begin;
    while i < n
        invariant
            2 <= radix <= 36,
            begin <= i <= n,
            n == s@.len(),
            u == s@.skip(begin as int),
            u == s@.skip(start as int).skip(plus_len(s@.skip(start as int))),
            forall|j: int| 0 <= j < i - begin ==> digit_in_radix(u[j], radix),
            acc == radix_value(u.subrange(0, i - begin), radix),
            acc <= usize::MAX as u128,
        decreases n - i,
    {
        let c = s.get_char(i);
        proof {
            assert(u[i - begin] == s@[i as int]);
        }
        match parse_digit(c, radix) {
            None => {
                // A non-digit anywhere makes the numeral malformed.
                proof {
                    assert(!digit_in_radix(u[i - begin], radix));
                }
                return None;
            },
            Some(d) => {
                proof {
                    assert(d < radix);
                    assert(acc * (radix as u128) + (d as u128) <= u128::MAX) by (nonlinear_arith)
                        requires
                            acc <= 0xffff_ffff_ffff_ffffu128 && radix <= 36u32 && d < radix,
                    ;
                }
                let next: u128 = acc * (radix as u128) + (d as u128);
                proof {
                    let prefix = u.subrange(0, i + 1 - begin);
                    assert(prefix.drop_last() =~= u.subrange(0, i - begin));
                    assert(prefix.last() == u[i - begin]);
                    assert(next == radix_value(prefix, radix));
                }
                if next > (usize::MAX as u128) {
                    // The numeral's value only grows with more digits, so
                    // the whole tail is already too large to be an address.
                    proof {
                        if all_digits(u, radix) {
                            lemma_radix_prefix_le(u, radix, i + 1 - begin, u.len() as int);
                            assert(u.subrange(0, u.len() as int) =~= u);
                        }
                    }
                    return None;
                }
                acc = next;
            },
        }
        i = i + 1;
    }
    proof {
        assert(u.subrange(0, n - begin) =~= u);
    }
    Some(acc as usize)
}

/// How many characters of a hexadecimal prefix (`0x` or `0X`) stand before
/// the digits of `s`.
pub open spec fn hex_prefix_len(s: Seq<char>) -> int {
    if s.len() >= 2 && s[0] == '0' && (s[1] == 'x' || s[1] == 'X') {
        2
    } else {
        0
    }
}

/// Parses a hexadecimal address, with or without a leading `0x`/`0X`.
/// `Some` exactly when what follows the optional prefix — allowing one
/// leading `+` — is a non-empty string of hexadecimal digits whose value
/// fits an address.
pub fn parse_address(addr: &str) -> (r: Option<usize>)
    ensures
        r == spec_parse_address(addr@),
{
    let n = addr.unicode_len();
    let start: usize = if n >= 2 && addr.get_char(0) == '0' && (addr.get_char(1) == 'x'
        || addr.get_char(1) == 'X') {
        2
    } else {
        0
    };
    parse_radix_from(addr, start, 16)
}

/// Where a breakpoint location resolves to, by the fixed precedence: a
/// leading `*` is a literal hexadecimal address and consults no symbol; a
/// numeral is a source line looked up in the line table; a numeral with no
/// known address, or any other string, is a function name looked up for its
/// entry address.
pub open spec fn spec_resolve_location(loc: Seq<char>, st: SymbolTable) -> Result<
    usize,
    DebugError,
> {
    if loc.len() > 0 && loc[0] == '*' {
        match spec_parse_address(loc.skip(1)) {
            Some(a) => Ok(a),
            None => Err(DebugError::UnresolvedLocation),
        }
    } else {
        let by_line = match spec_parse_radix(loc, 10) {
            Some(line) => st.spec_line_addr(line),
            None => None,
        };
        match by_line {
            Some(a) => Ok(a),
            None => match st.spec_function_addr(loc) {
                Some(a) => Ok(a),
                None => Err(DebugError::UnresolvedLocation),
            },
        }
    }
}

/// Resolves the location string of a `break` command against the symbol
/// table, exactly as `spec_resolve_location` lays the precedence down.
pub fn resolve_location(loc: &String, symbols: &SymbolTable) -> (r: Result<usize, DebugError>)
    ensures
        r == spec_resolve_location(loc@, *symbols),
{
    let n = loc.as_str().unicode_len();
    if n > 0 && loc.as_str().get_char(0) == '*' {
        let rest = loc.as_str().substring_char(1, n);
        proof {
            assert(rest@ =~= loc@.skip(1));
        }
        match parse_address(rest) {
            Some(a) => Ok(a),
            None => Err(DebugError::UnresolvedLocation),
        }
    } else {
        match parse_radix_from(loc.as_str(), 0, 10) {
            Some(line) => {
                proof {
                    assert(loc@.skip(0) =~= loc@);
                }
                match symbols.get_addr_for_line(line) {
                    Some(a) => Ok(a),
                    None => match symbols.get_addr_for_function(loc) {
                        Some(a) => Ok(a),
                        None => Err(DebugError::UnresolvedLocation),
                    },
                }
            },
            None => {
                proof {
                    assert(loc@.skip(0) =~= loc@);
                }
                match symbols.get_addr_for_function(loc) {
                    Some(a) => Ok(a),
                    None => Err(DebugError::UnresolvedLocation),
                }
            },
        }
    }
}

/// Classifies one whitespace-split command line.  The first token picks the
/// command: `run` takes the remaining tokens as target arguments, `break`
/// takes exactly one location token, and `continue`, `backtrace` and `quit`
/// stand alone; anything else is unrecognized.
pub fn from_tokens(tokens: &Vec<String>) -> (r: Option<DebuggerCommand>)
    ensures
        tokens@.len() == 0 ==> r is None,
        tokens@.len() > 0 ==> {
            let head = tokens@[0]@;
            if head == "run"@ {
                &&& r matches Some(DebuggerCommand::Run(rest))
                &&& rest@ == tokens@.skip(1)
            } else if head == "continue"@ {
                r == Some(DebuggerCommand::Continue)
            } else if head == "backtrace"@ {
                r == Some(DebuggerCommand::Backtrace)
            } else if head == "break"@ {
                if tokens@.len() == 2 {
                    &&& r matches Some(DebuggerCommand::BreakPoint(loc))
                    &&& loc == tokens@[1]
                } else {
                    r is None
                }
            } else if head == "quit"@ {
                r == Some(DebuggerCommand::Quit)
            } else {
                r is None
            }
        },
{
    proof {
        reveal_strlit("run");
        reveal_strlit("continue");
        reveal_strlit("backtrace");
        reveal_strlit("break");
        reveal_strlit("quit");
    }
    if tokens.len() == 0 {
        return None;
    }
    let head = &tokens[0];
    if *head == "run".to_owned() {
        let mut rest: Vec<String> = Vec::new();
        let mut i: usize = 1;
        while i < tokens.len()
            invariant
                1 <= i <= tokens@.len(),
                rest@ == tokens@.subrange(1, i as int),
            decreases tokens@.len() - i,
        {
            rest.push(tokens[i].clone());
            proof {
                assert(rest@ =~= tokens@.subrange(1, i + 1));
            }
            i = i + 1;
        }
        proof {
            assert(tokens@.subrange(1, tokens@.len() as int) =~= tokens@.skip(1));
        }
        Some(DebuggerCommand::Run(rest))
    } else if *head == "continue".to_owned() {
        Some(DebuggerCommand::Continue)
    } else if *head == "backtrace".to_owned() {
        Some(DebuggerCommand::Backtrace)
    } else if *head == "break".to_owned() {
        if tokens.len() == 2 {
            Some(DebuggerCommand::BreakPoint(tokens[1].clone()))
        } else {
            None
        }
    } else if *head == "quit".to_owned() {
        Some(DebuggerCommand::Quit)
    } else {
        None
    }
}

} // verus!
