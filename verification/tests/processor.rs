use prettypanic::processor::Event;
use prettypanic::BacktraceProcessor;

#[derive(Debug, PartialEq)]
enum E {
    Line(String, bool),
    Header(String, String),
    Msg(String),
    Bt(Vec<(usize, String, Option<String>)>, usize),
}

fn simple(events: Vec<Event>) -> Vec<E> {
    events
        .into_iter()
        .map(|e| match e {
            Event::Line { text, to_stderr } => E::Line(text, to_stderr),
            Event::PanicHeader { test_name, location } => E::Header(test_name, location),
            Event::PanicMessage { text } => E::Msg(text),
            Event::Backtrace { frames, hidden } => E::Bt(
                frames.into_iter().map(|f| (f.index, f.name, f.file)).collect(),
                hidden,
            ),
        })
        .collect()
}

fn feed(p: &mut BacktraceProcessor, lines: &[&str], to_stderr: bool) -> Vec<E> {
    let mut all = Vec::new();
    for l in lines {
        all.extend(simple(p.next_events(l, to_stderr)));
    }
    all
}

fn line(s: &str) -> E {
    E::Line(s.to_string(), false)
}

const README_BACKTRACE: &[&str] = &[
    "stack backtrace:",
    "   0: rust_begin_unwind",
    "             at /rustc/abc/library/std/src/panicking.rs:608:5",
    "   1: core::panicking::panic_fmt",
    "             at /rustc/abc/library/core/src/panicking.rs:67:14",
    "   2: tester::divide",
    "             at ./src/main.rs:7:9",
    "   3: tester::tests::test_divide",
    "             at ./src/main.rs:27:17",
    "   4: tester::tests::test_divide::{{closure}}",
    "             at ./src/main.rs:26:29",
    "   5: core::ops::function::FnOnce::call_once",
    "             at /rustc/abc/library/core/src/ops/function.rs:250:5",
];

fn readme_user_frames() -> Vec<(usize, String, Option<String>)> {
    vec![
        (2, "tester::divide".to_string(), Some("./src/main.rs:7:9".to_string())),
        (3, "tester::tests::test_divide".to_string(), Some("./src/main.rs:27:17".to_string())),
        (
            4,
            "tester::tests::test_divide::{{closure}}".to_string(),
            Some("./src/main.rs:26:29".to_string()),
        ),
    ]
}

#[test]
fn readme_panic_is_shown_with_user_frames_only() {
    let mut p = BacktraceProcessor::new(false);
    let mut ev = feed(
        &mut p,
        &["thread 'tests::test_divide' panicked at src/main.rs:7:9:", "division by zero!"],
        false,
    );
    assert_eq!(
        ev,
        vec![
            E::Header("test_divide".to_string(), "src/main.rs:7:9".to_string()),
            E::Msg("division by zero!".to_string()),
        ]
    );
    ev = feed(&mut p, README_BACKTRACE, false);
    assert_eq!(ev, vec![]);
    ev = feed(
        &mut p,
        &["note: Some details are omitted, run with `RUST_BACKTRACE=full` for a verbose backtrace."],
        false,
    );
    assert_eq!(ev, vec![E::Bt(readme_user_frames(), 3)]);
    assert_eq!(feed(&mut p, &["test tests::other ... ok"], false), vec![line("test tests::other ... ok")]);
}

#[test]
fn backtrace_ended_by_other_line_shows_it() {
    let mut p = BacktraceProcessor::new(false);
    feed(&mut p, README_BACKTRACE, true);
    let ev = feed(&mut p, &["test tests::test_divide ... FAILED"], true);
    assert_eq!(
        ev,
        vec![
            E::Bt(readme_user_frames(), 3),
            E::Line("test tests::test_divide ... FAILED".to_string(), true),
        ]
    );
}

#[test]
fn flush_shows_pending_backtrace_once() {
    let mut p = BacktraceProcessor::new(false);
    feed(&mut p, README_BACKTRACE, false);
    assert_eq!(simple(p.flush_events()), vec![E::Bt(readme_user_frames(), 3)]);
    assert_eq!(simple(p.flush_events()), vec![]);
    assert_eq!(feed(&mut p, &["after"], false), vec![line("after")]);
}

#[test]
fn flush_outside_backtrace_shows_nothing() {
    let mut p = BacktraceProcessor::new(false);
    feed(&mut p, &["hello"], false);
    assert_eq!(simple(p.flush_events()), vec![]);
}

#[test]
fn backtrace_without_user_frames() {
    let mut p = BacktraceProcessor::new(false);
    let ev = feed(
        &mut p,
        &[
            "stack backtrace:",
            "   0: rust_begin_unwind",
            "   1: std::rt::lang_start",
            "             at /rustc/abc/library/std/src/rt.rs:1:1",
            "done",
        ],
        false,
    );
    assert_eq!(ev, vec![E::Bt(vec![], 2), line("done")]);
}

#[test]
fn empty_backtrace_shows_nothing() {
    let mut p = BacktraceProcessor::new(false);
    let ev = feed(&mut p, &["stack backtrace:", "note: nothing"], false);
    assert_eq!(ev, vec![]);
}

#[test]
fn old_panic_format_splits_message() {
    let mut p = BacktraceProcessor::new(false);
    let ev = feed(
        &mut p,
        &["thread 'main' panicked at 'boom', src/main.rs:2:5", "next line"],
        false,
    );
    assert_eq!(
        ev,
        vec![
            E::Header("main".to_string(), "src/main.rs:2:5".to_string()),
            E::Msg("boom".to_string()),
            line("next line"),
        ]
    );
}

#[test]
fn readme_old_panic_line_is_split() {
    let mut p = BacktraceProcessor::new(false);
    let ev = feed(
        &mut p,
        &["thread 'tests::test_divide' panicked at 'division by zero!', src/main.rs:7:9"],
        false,
    );
    assert_eq!(
        ev,
        vec![
            E::Header("test_divide".to_string(), "src/main.rs:7:9".to_string()),
            E::Msg("division by zero!".to_string()),
        ]
    );
}

#[test]
fn old_panic_message_may_hold_quote_comma() {
    let mut p = BacktraceProcessor::new(false);
    let ev = feed(&mut p, &["thread 'a' panicked at 'x', y', src/lib.rs:1:1"], false);
    assert_eq!(
        ev,
        vec![
            E::Header("a".to_string(), "src/lib.rs:1:1".to_string()),
            E::Msg("x', y".to_string()),
        ]
    );
}

#[test]
fn new_panic_format_with_quotes_is_not_split() {
    let mut p = BacktraceProcessor::new(false);
    let ev = feed(&mut p, &["thread 't' panicked at 'a', b:", "the message", "after"], false);
    assert_eq!(
        ev,
        vec![
            E::Header("t".to_string(), "'a', b".to_string()),
            E::Msg("the message".to_string()),
            line("after"),
        ]
    );
}

#[test]
fn quoted_text_without_location_is_kept_whole() {
    let mut p = BacktraceProcessor::new(false);
    let ev = feed(&mut p, &["thread 'a' panicked at 'just quoted'"], false);
    assert_eq!(ev, vec![E::Header("a".to_string(), "'just quoted'".to_string())]);
    let ev = feed(&mut p, &["thread 'a' panicked at ', x'"], false);
    assert_eq!(ev, vec![E::Header("a".to_string(), "', x'".to_string())]);
}

#[test]
fn panic_header_edge_cases() {
    let mut p = BacktraceProcessor::new(false);
    let ev = feed(&mut p, &["it panicked at nowhere"], false);
    assert_eq!(ev, vec![E::Header("?".to_string(), "nowhere".to_string())]);
    let ev = feed(&mut p, &["thread 'unclosed panicked at x.rs:1:1"], false);
    assert_eq!(ev, vec![E::Header("?".to_string(), "x.rs:1:1".to_string())]);
    let ev = feed(&mut p, &["thread 'a::b:::c' panicked at y.rs:3:4::  ", "msg"], false);
    assert_eq!(
        ev,
        vec![E::Header(":c".to_string(), "y.rs:3:4::".to_string()), E::Msg("msg".to_string())]
    );
    let ev = feed(&mut p, &["something panicked at"], false);
    assert_eq!(ev, vec![E::Header("?".to_string(), "".to_string())]);
}

#[test]
fn failures_summary_is_dropped() {
    let mut p = BacktraceProcessor::new(false);
    let ev = feed(
        &mut p,
        &[
            "failures:",
            "    tests::test_divide",
            "    tests::test_other",
            "",
            "test result: FAILED. 1 passed; 2 failed",
        ],
        false,
    );
    assert_eq!(ev, vec![line(""), line("test result: FAILED. 1 passed; 2 failed")]);
}

#[test]
fn failures_section_header_is_kept() {
    let mut p = BacktraceProcessor::new(false);
    let ev = feed(&mut p, &["failures:", "", "---- tests::test_divide stdout ----"], true);
    assert_eq!(
        ev,
        vec![
            E::Line("failures:".to_string(), true),
            E::Line("".to_string(), true),
            E::Line("---- tests::test_divide stdout ----".to_string(), true),
        ]
    );
}

#[test]
fn failures_header_followed_by_panic() {
    let mut p = BacktraceProcessor::new(false);
    let ev = feed(&mut p, &["  failures:  ", "thread 'x' panicked at a.rs:1:1:"], false);
    assert_eq!(
        ev,
        vec![line("failures:"), E::Header("x".to_string(), "a.rs:1:1".to_string())]
    );
}

#[test]
fn fuzz_stack_backtrace_silences_the_rest() {
    let mut p = BacktraceProcessor::new(true);
    let ev = feed(&mut p, &["before", "Stack backtrace:", "   0: x", "anything", ""], false);
    assert_eq!(ev, vec![line("before")]);
}

#[test]
fn stack_backtrace_is_plain_outside_fuzz_mode() {
    let mut p = BacktraceProcessor::new(false);
    let ev = feed(&mut p, &["Stack backtrace:", "after"], false);
    assert_eq!(ev, vec![line("Stack backtrace:"), line("after")]);
}

#[test]
fn fuzz_noise_is_dropped() {
    let mut p = BacktraceProcessor::new(true);
    let ev = feed(
        &mut p,
        &[
            "artifact_prefix='./'; Test unit written to ./crash-1",
            "NOTE: libFuzzer has rudimentary signal handlers.",
            "  Combine libFuzzer with AddressSanitizer",
            "SUMMARY: libFuzzer: deadly signal",
            "MS: 1 ChangeBit-; base unit: 0",
            "Base64: AAAA",
            "Base64:",
            "Minimize test case with:",
            "  cargo fuzz tmin fuzz_target_1 crash",
            "────────────────",
            "kept",
        ],
        false,
    );
    assert_eq!(ev, vec![line("kept")]);
}

#[test]
fn fuzz_blank_lines_collapse() {
    let mut p = BacktraceProcessor::new(true);
    let ev = feed(&mut p, &["a", "", "   ", "", "b", "", "c"], false);
    assert_eq!(ev, vec![line("a"), line(""), line("b"), line(""), line("c")]);
}

#[test]
fn blank_lines_pass_outside_fuzz_mode() {
    let mut p = BacktraceProcessor::new(false);
    let ev = feed(&mut p, &["", ""], false);
    assert_eq!(ev, vec![line(""), line("")]);
}

#[test]
fn fuzz_sanitizer_report_is_dropped() {
    let mut p = BacktraceProcessor::new(true);
    let ev = feed(
        &mut p,
        &[
            "==123== ERROR: AddressSanitizer: heap-buffer-overflow",
            "    #0 0x55 in fuzz_target",
            "\t#1 0x56 in main",
            "==123==ABORTING",
            "",
            "after report",
        ],
        false,
    );
    assert_eq!(ev, vec![line("after report")]);
}

#[test]
fn fuzz_sanitizer_report_ends_at_unindented_line() {
    let mut p = BacktraceProcessor::new(true);
    let ev = feed(
        &mut p,
        &["==9== ERROR: libFuzzer: deadly signal", "    #0 frame", "plain again", "    #1 kept"],
        false,
    );
    assert_eq!(ev, vec![line("plain again"), line("    #1 kept")]);
}
