use deet::DebugError;
use deet::WaitEvent;
use deet::breakpoint::BreakpointTable;
use deet::command::{from_tokens, parse_address, resolve_location, DebuggerCommand};
use deet::inferior::{absorb_no_such_process, breakpoint_hit, status_of_event, Status};
use deet::session::Debugger;
use deet::symbols::{FunctionRecord, LineRecord, SymbolTable};
use deet::unwind::{unwind_from, MemoryImage};
use deet::word::{align_addr_to_word, extract_byte, replace_byte};

fn sample_symbols() -> SymbolTable {
    SymbolTable {
        functions: vec![
            FunctionRecord { name: "main".to_string(), low: 0x1000, high: 0x1100 },
            FunctionRecord { name: "f".to_string(), low: 0x2000, high: 0x2100 },
            FunctionRecord { name: "g".to_string(), low: 0x3000, high: 0x3100 },
            FunctionRecord { name: "sum".to_string(), low: 0x5000, high: 0x5040 },
        ],
        lines: vec![
            LineRecord { low: 0x1000, high: 0x1100, line: 5 },
            LineRecord { low: 0x2000, high: 0x2100, line: 20 },
            LineRecord { low: 0x3000, high: 0x3100, line: 30 },
            LineRecord { low: 0x5000, high: 0x5040, line: 10 },
        ],
    }
}

#[test]
fn test_align_addr_to_word() {
    assert_eq!(align_addr_to_word(0x1000), 0x1000);
    assert_eq!(align_addr_to_word(0x1003), 0x1000);
    assert_eq!(align_addr_to_word(0x1007), 0x1000);
    assert_eq!(align_addr_to_word(0x1008), 0x1008);
}

#[test]
fn test_byte_patching() {
    let word: u64 = 0x1122334455667788;
    assert_eq!(extract_byte(word, 0), 0x88);
    assert_eq!(extract_byte(word, 2), 0x66);
    assert_eq!(extract_byte(word, 7), 0x11);
    assert_eq!(replace_byte(word, 2, 0xcc), 0x11223344_55cc7788);
    assert_eq!(replace_byte(word, 7, 0xcc), 0xcc22334455667788);
}

#[test]
fn test_patch_restore_roundtrip() {
    // Patching a trap byte in and writing the saved byte back restores the
    // word bit for bit, at every byte offset.
    let word: u64 = 0xdeadbeef01020304;
    for off in 0..8 {
        let saved = extract_byte(word, off);
        let patched = replace_byte(word, off, 0xcc);
        assert_ne!(patched, word);
        assert_eq!(replace_byte(patched, off, saved), word);
    }
}

#[test]
fn test_breakpoint_table() {
    let mut table = BreakpointTable::new();
    assert_eq!(table.lookup(0x5000), None);
    table.record(0x5000, 0x55);
    table.record(0x6000, 0x66);
    assert_eq!(table.lookup(0x5000), Some(0x55));
    assert_eq!(table.lookup(0x6000), Some(0x66));
    assert_eq!(table.lookup(0x7000), None);
}

#[test]
fn test_status_of_event() {
    assert_eq!(status_of_event(WaitEvent::Exited(3), 0), Some(Status::Exited(3)));
    assert_eq!(status_of_event(WaitEvent::Signaled(9), 0), Some(Status::Signaled(9)));
    assert_eq!(status_of_event(WaitEvent::Stopped(5), 0x5001), Some(Status::Stopped(5, 0x5001)));
    assert_eq!(status_of_event(WaitEvent::Other, 0), None);
}

#[test]
fn test_breakpoint_hit() {
    let mut table = BreakpointTable::new();
    table.record(0x5000, 0x55);
    // A trap one byte past an installed breakpoint is a hit at that address.
    assert_eq!(breakpoint_hit(&table, Status::Stopped(5, 0x5001)), Some(0x5000));
    // A trap anywhere else, a non-trap stop, and an exit are no hits.
    assert_eq!(breakpoint_hit(&table, Status::Stopped(5, 0x9999)), None);
    assert_eq!(breakpoint_hit(&table, Status::Stopped(11, 0x5001)), None);
    assert_eq!(breakpoint_hit(&table, Status::Exited(0)), None);
}

#[test]
fn test_idempotent_kill_rule() {
    // Killing a process that is already gone (errno ESRCH = 3) is a no-op.
    assert_eq!(absorb_no_such_process(Ok(())), Ok(()));
    assert_eq!(absorb_no_such_process(Err(3)), Ok(()));
    assert_eq!(absorb_no_such_process(Err(13)), Err(DebugError::TraceFailure(13)));
}

#[test]
fn test_parse_address() {
    assert_eq!(parse_address("400120"), Some(0x400120));
    assert_eq!(parse_address("0x400120"), Some(0x400120));
    assert_eq!(parse_address("0X400120"), Some(0x400120));
    assert_eq!(parse_address("DEADbeef"), Some(0xdeadbeef));
    assert_eq!(parse_address("zz"), None);
    assert_eq!(parse_address(""), None);
    assert_eq!(parse_address("0x"), None);
    assert_eq!(parse_address("1ffffffffffffffff"), None);
}

#[test]
fn test_parse_address_plus_sign() {
    // One leading `+` is accepted after the optional 0x prefix, as the
    // standard integer parsers take it.
    assert_eq!(parse_address("+1f"), Some(0x1f));
    assert_eq!(parse_address("0x+1f"), Some(0x1f));
    assert_eq!(parse_address("+"), None);
    assert_eq!(parse_address("++1"), None);
    assert_eq!(parse_address("+0x10"), None);
}

#[test]
fn test_location_with_plus_sign() {
    let symbols = sample_symbols();
    // `+10` parses as the non-negative line number 10.
    assert_eq!(resolve_location(&"+10".to_string(), &symbols), Ok(0x5000));
    assert_eq!(resolve_location(&"*+1f".to_string(), &symbols), Ok(0x1f));
}

#[test]
fn test_location_precedence() {
    let symbols = sample_symbols();
    // A numeral resolves through the line table.
    assert_eq!(resolve_location(&"10".to_string(), &symbols), Ok(0x5000));
    // A name resolves through the function table.
    assert_eq!(resolve_location(&"main".to_string(), &symbols), Ok(0x1000));
    // A leading `*` bypasses symbol lookup entirely.
    assert_eq!(resolve_location(&"*0x400120".to_string(), &symbols), Ok(0x400120));
    assert_eq!(resolve_location(&"*400120".to_string(), &symbols), Ok(0x400120));
    // Malformed hex after `*` is an unresolved location.
    assert_eq!(
        resolve_location(&"*zz".to_string(), &symbols),
        Err(DebugError::UnresolvedLocation)
    );
    // An unknown name is an unresolved location.
    assert_eq!(
        resolve_location(&"nosuch".to_string(), &symbols),
        Err(DebugError::UnresolvedLocation)
    );
}

#[test]
fn test_numeral_falls_back_to_function_name() {
    // A numeral with no line entry is retried as a function name.
    let symbols = SymbolTable {
        functions: vec![FunctionRecord { name: "42".to_string(), low: 0x9000, high: 0x9010 }],
        lines: vec![],
    };
    assert_eq!(resolve_location(&"42".to_string(), &symbols), Ok(0x9000));
}

#[test]
fn test_from_tokens() {
    let toks = |words: &[&str]| words.iter().map(|w| w.to_string()).collect::<Vec<String>>();
    assert_eq!(
        from_tokens(&toks(&["run", "sample", "arg"])),
        Some(DebuggerCommand::Run(vec!["sample".to_string(), "arg".to_string()]))
    );
    assert_eq!(from_tokens(&toks(&["continue"])), Some(DebuggerCommand::Continue));
    assert_eq!(from_tokens(&toks(&["backtrace"])), Some(DebuggerCommand::Backtrace));
    assert_eq!(
        from_tokens(&toks(&["break", "main"])),
        Some(DebuggerCommand::BreakPoint("main".to_string()))
    );
    assert_eq!(from_tokens(&toks(&["quit"])), Some(DebuggerCommand::Quit));
    assert_eq!(from_tokens(&toks(&["break"])), None);
    assert_eq!(from_tokens(&toks(&["step"])), None);
    assert_eq!(from_tokens(&toks(&[])), None);
}

#[test]
fn test_backtrace_three_frames() {
    // Call chain main -> f -> g, stopped inside g: the walk yields exactly
    // g, f, main in that order and stops at main.
    let symbols = sample_symbols();
    let mut mem = MemoryImage::new();
    // g's frame: return address into f, saved frame base of f.
    mem.push_cell(0x7008, 0x2010);
    mem.push_cell(0x7000, 0x7100);
    // f's frame: return address into main, saved frame base of main.
    mem.push_cell(0x7108, 0x1010);
    mem.push_cell(0x7100, 0x7200);
    let (frames, complete) = unwind_from(&symbols, &mem, 0x3010, 0x7000, 64);
    assert!(complete);
    assert_eq!(frames.len(), 3);
    assert_eq!(frames[0].func, "g");
    assert_eq!(frames[0].line, 30);
    assert_eq!(frames[1].func, "f");
    assert_eq!(frames[1].line, 20);
    assert_eq!(frames[2].func, "main");
    assert_eq!(frames[2].line, 5);
}

#[test]
fn test_backtrace_truncates_on_unreadable_memory() {
    let symbols = sample_symbols();
    let mem = MemoryImage::new();
    // Stopped inside g with no readable stack: one frame, incomplete.
    let (frames, complete) = unwind_from(&symbols, &mem, 0x3010, 0x7000, 64);
    assert!(!complete);
    assert_eq!(frames.len(), 1);
    assert_eq!(frames[0].func, "g");
}

#[test]
fn test_backtrace_truncates_on_unknown_address() {
    let symbols = sample_symbols();
    let mem = MemoryImage::new();
    let (frames, complete) = unwind_from(&symbols, &mem, 0xffff, 0x7000, 64);
    assert!(!complete);
    assert_eq!(frames.len(), 0);
}

#[test]
fn test_breakpoint_scenario_at_sum() {
    // A breakpoint at function `sum`: resolving the location, recognizing
    // the trap stop, and unwinding from the stop.
    let symbols = sample_symbols();
    let sum_entry = resolve_location(&"sum".to_string(), &symbols).unwrap();
    assert_eq!(sum_entry, 0x5000);

    // The launch installs the trap; the first continue reports a trap stop
    // one byte past the entry, which is recognized as this breakpoint.
    let mut table = BreakpointTable::new();
    table.record(sum_entry, 0x55);
    let status = status_of_event(WaitEvent::Stopped(5), sum_entry + 1).unwrap();
    assert_eq!(breakpoint_hit(&table, status), Some(sum_entry));

    // A backtrace from the stop lists sum, its caller, then main.
    let mut mem = MemoryImage::new();
    mem.push_cell(0x7008, 0x2010); // return address into f, sum's caller
    mem.push_cell(0x7000, 0x7100);
    mem.push_cell(0x7108, 0x1010); // return address into main
    mem.push_cell(0x7100, 0x7200);
    let (frames, complete) = unwind_from(&symbols, &mem, sum_entry, 0x7000, 64);
    assert!(complete);
    assert_eq!(frames.len(), 3);
    assert_eq!(frames[0].func, "sum");
    assert_eq!(frames[1].func, "f");
    assert_eq!(frames[2].func, "main");
}

#[test]
fn test_launch_without_child_is_spawn_failure() {
    let mut session = Debugger::new(sample_symbols());
    // No such traced child exists, so the initial stop is never observed and
    // the launch fails; the session stays without a process.
    assert_eq!(session.launch(999_999), Err(DebugError::SpawnFailure));
    assert!(!session.has_process());
}

#[test]
fn test_session_without_process() {
    let mut session = Debugger::new(sample_symbols());
    assert!(!session.has_process());
    // Killing with no process is a no-op, never an error — twice over.
    assert_eq!(session.kill_inferior(), Ok(()));
    assert_eq!(session.kill_inferior(), Ok(()));
    // Breakpoints queue as pending while no process runs.
    assert_eq!(session.add_breakpoint(&"sum".to_string()), Ok(0x5000));
    assert_eq!(session.add_breakpoint(&"*0x400120".to_string()), Ok(0x400120));
    assert_eq!(
        session.add_breakpoint(&"*zz".to_string()),
        Err(DebugError::UnresolvedLocation)
    );
    assert_eq!(session.breakpoints, vec![0x5000, 0x400120]);
    assert!(!session.has_process());
}
