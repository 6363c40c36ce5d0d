use prettypanic::colorize_test_line;

#[test]
fn test_result_words_are_recolored() {
    assert_eq!(colorize_test_line("test tests::a ... ok", true), "test tests::a ... \x1b[32mok\x1b[0m");
    assert_eq!(
        colorize_test_line("test tests::b ... FAILED", true),
        "test tests::b ... \x1b[1;91mFAILED\x1b[0m"
    );
    assert_eq!(
        colorize_test_line("test tests::c ... ignored", true),
        "test tests::c ... \x1b[33mignored\x1b[0m"
    );
}

#[test]
fn test_summary_is_recolored() {
    assert_eq!(
        colorize_test_line("test result: ok. 3 passed; 0 failed", true),
        "test result: \x1b[32mok\x1b[0m. 3 passed; 0 failed"
    );
    assert_eq!(
        colorize_test_line("test result: FAILED. 1 passed; 2 failed", true),
        "test result: \x1b[1;91mFAILED\x1b[0m. 1 passed; 2 failed"
    );
}

#[test]
fn other_lines_are_unchanged() {
    assert_eq!(colorize_test_line("running 3 tests", true), "running 3 tests");
    assert_eq!(colorize_test_line("", true), "");
    assert_eq!(colorize_test_line("test x ... okay", true), "test x ... okay");
    assert_eq!(colorize_test_line(" ... ok", true), " ... \x1b[32mok\x1b[0m");
}
