use prettypanic::colorize_test_line;
use prettypanic::BacktraceProcessor;

#[test]
fn without_colors_lines_keep_their_text() {
    for l in [
        "test tests::a ... ok",
        "test tests::b ... FAILED",
        "test tests::c ... ignored",
        "test result: ok. 1 passed",
        "test result: FAILED. 0 passed",
        "anything else",
    ] {
        assert_eq!(colorize_test_line(l, false), l);
    }
}

#[test]
fn without_colors_backtrace_is_plain_text() {
    let mut p = BacktraceProcessor::new(false);
    p.process_line("stack backtrace:", false, false);
    p.process_line("   0: std::rt::lang_start", false, false);
    p.process_line("   1: app::main", false, false);
    p.process_line("             at ./src/main.rs:3:5", false, false);
    let got: Vec<String> = p.flush(false).into_iter().map(|o| o.text).collect();
    assert_eq!(got[0], "");
    assert_eq!(got[1], "━━━ Your Code ━━━━━━━━━━━━━━━━━━━━━━━━━━━━━━━━━━━━━");
    assert_eq!(got[3], "  most recent call");
    assert_eq!(got[4], "     ||");
    assert_eq!(got[11], "  #1 app::main");
    assert_eq!(got[12], "       at ./src/main.rs:3:5");
    assert_eq!(got[20], "  oldest call");
    assert_eq!(got[22], "  ··· 1 stdlib/dependency frame hidden");
    assert_eq!(got.len(), 25);
}

#[test]
fn readme_old_panic_line_without_colors() {
    let mut p = BacktraceProcessor::new(false);
    let got: Vec<String> = p
        .process_line(
            "thread 'tests::test_divide' panicked at 'division by zero!', src/main.rs:7:9",
            false,
            false,
        )
        .into_iter()
        .map(|o| o.text)
        .collect();
    assert_eq!(got, vec!["Test test_divide panicked at src/main.rs:7:9", "division by zero!"]);
}
