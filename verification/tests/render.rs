use prettypanic::render::Output;
use prettypanic::BacktraceProcessor;

fn texts(outs: Vec<Output>) -> Vec<(String, bool)> {
    outs.into_iter().map(|o| (o.text, o.to_stderr)).collect()
}

fn out(s: &str) -> (String, bool) {
    (s.to_string(), false)
}

const TOP: &str = "\x1b[94m━━━ Your Code ━━━━━━━━━━━━━━━━━━━━━━━━━━━━━━━━━━━━━\x1b[0m";
const BOTTOM: &str = "\x1b[94m━━━━━━━━━━━━━━━━━━━━━━━━━━━━━━━━━━━━━━━━━━━━━━━━━━━\x1b[0m";

#[test]
fn panic_header_and_message_are_painted() {
    let mut p = BacktraceProcessor::new(false);
    let a = texts(p.process_line("thread 'tests::test_divide' panicked at src/main.rs:7:9:", true, true));
    assert_eq!(
        a,
        vec![out(
            "\x1b[1;91mTest\x1b[0m \x1b[1;97mtest_divide\x1b[0m \x1b[91mpanicked at\x1b[0m \x1b[93msrc/main.rs:7:9\x1b[0m"
        )]
    );
    let b = texts(p.process_line("division by zero!", true, true));
    assert_eq!(b, vec![out("\x1b[1;97mdivision by zero!\x1b[0m")]);
}

#[test]
fn painted_message_keeps_style_after_inner_reset() {
    let mut p = BacktraceProcessor::new(false);
    p.process_line("thread 'x' panicked at a.rs:1:1:", false, true);
    let b = texts(p.process_line("a\x1b[0mb", false, true));
    assert_eq!(b, vec![out("\x1b[1;97ma\x1b[0m\x1b[1;97mb\x1b[0m")]);
}

#[test]
fn passed_on_lines_keep_their_stream() {
    let mut p = BacktraceProcessor::new(false);
    assert_eq!(
        texts(p.process_line("test a ... ok", true, true)),
        vec![("test a ... \x1b[32mok\x1b[0m".to_string(), true)]
    );
    assert_eq!(texts(p.process_line("plain", false, true)), vec![out("plain")]);
}

#[test]
fn backtrace_is_framed() {
    let mut p = BacktraceProcessor::new(false);
    for l in [
        "stack backtrace:",
        "   0: rust_begin_unwind",
        "             at /rustc/abc/library/std/src/panicking.rs:608:5",
        "   2: tester::divide",
        "             at ./src/main.rs:7:9",
        "   3: tester::main",
    ] {
        assert!(p.process_line(l, false, true).is_empty());
    }
    let got = texts(p.flush(true));
    let dim = |s: &str| format!("  \x1b[90m{}\x1b[0m", s);
    let expected: Vec<(String, bool)> = vec![
        out(""),
        out(TOP),
        out(""),
        out("  \x1b[3;90mmost recent call\x1b[0m"),
        (dim("   ||"), false),
        (dim("   ||"), false),
        (dim("   ||"), false),
        (dim("\\______/"), false),
        (dim(" \\    /"), false),
        (dim("  \\  /"), false),
        (dim("   \\/"), false),
        out("  \x1b[90m#2\x1b[0m \x1b[97mtester::divide\x1b[0m"),
        out("       \x1b[90mat\x1b[0m \x1b[93m./src/main.rs:7:9\x1b[0m"),
        out("  \x1b[90m#3\x1b[0m \x1b[97mtester::main\x1b[0m"),
        (dim("   /\\"), false),
        (dim("  /  \\"), false),
        (dim(" /    \\"), false),
        (dim("/______\\"), false),
        (dim("   ||"), false),
        (dim("   ||"), false),
        (dim("   ||"), false),
        out("  \x1b[3;90moldest call\x1b[0m"),
        out(""),
        out("  \x1b[90m···\x1b[0m \x1b[33m1\x1b[0m stdlib/dependency frame hidden"),
        out(BOTTOM),
        out(""),
    ];
    assert_eq!(got, expected);
}

#[test]
fn backtrace_without_user_code_says_so() {
    let mut p = BacktraceProcessor::new(false);
    for l in ["stack backtrace:", "   0: std::rt::lang_start", "   1: core::ops::call_once"] {
        assert!(p.process_line(l, false, true).is_empty());
    }
    let got = texts(p.process_line("note: run with RUST_BACKTRACE=full", false, true));
    assert_eq!(
        got,
        vec![
            out(""),
            out(TOP),
            out(""),
            out("  \x1b[90m(no user-code frames found in backtrace)\x1b[0m"),
            out(""),
            out("  \x1b[90m···\x1b[0m \x1b[33m2\x1b[0m stdlib/dependency frames hidden"),
            out(BOTTOM),
            out(""),
        ]
    );
}

#[test]
fn backtrace_with_nothing_hidden_has_no_count() {
    let mut p = BacktraceProcessor::new(false);
    for l in ["stack backtrace:", "  10: app::run"] {
        assert!(p.process_line(l, false, true).is_empty());
    }
    let got = texts(p.process_line("end", false, true));
    assert_eq!(got.len(), 24);
    assert_eq!(got[11], out("  \x1b[90m#10\x1b[0m \x1b[97mapp::run\x1b[0m"));
    assert_eq!(got[19], out("  \x1b[3;90moldest call\x1b[0m"));
    assert_eq!(got[20], out(""));
    assert_eq!(got[21], out(BOTTOM));
    assert_eq!(got[22], out(""));
    assert_eq!(got[23], out("end"));
}

#[test]
fn readme_old_panic_line_is_painted_on_two_lines() {
    let mut p = BacktraceProcessor::new(false);
    let a = texts(p.process_line(
        "thread 'tests::test_divide' panicked at 'division by zero!', src/main.rs:7:9",
        false,
        true,
    ));
    assert_eq!(
        a,
        vec![
            out("\x1b[1;91mTest\x1b[0m \x1b[1;97mtest_divide\x1b[0m \x1b[91mpanicked at\x1b[0m \x1b[93msrc/main.rs:7:9\x1b[0m"),
            out("\x1b[1;97mdivision by zero!\x1b[0m"),
        ]
    );
}
