use prettypanic::{
    is_indented_test_path, is_stdlib_fn, is_user_frame, parse_file_line, parse_frame_header, Frame,
};

fn frame(index: usize, name: &str, file: Option<&str>) -> Frame {
    Frame { index, name: name.to_string(), file: file.map(|f| f.to_string()) }
}

#[test]
fn frame_header_is_parsed() {
    assert_eq!(parse_frame_header("   2: tester::divide"), Some((2, "tester::divide".to_string())));
    assert_eq!(
        parse_frame_header("  14: core::ops::function::FnOnce::call_once  "),
        Some((14, "core::ops::function::FnOnce::call_once".to_string()))
    );
    assert_eq!(
        parse_frame_header("\t0: rust_begin_unwind"),
        Some((0, "rust_begin_unwind".to_string()))
    );
}

#[test]
fn frame_header_needs_indentation() {
    assert_eq!(parse_frame_header("2: tester::divide"), None);
}

#[test]
fn frame_header_needs_digits_and_a_name() {
    assert_eq!(parse_frame_header("   x2: tester::divide"), None);
    assert_eq!(parse_frame_header("   : tester::divide"), None);
    assert_eq!(parse_frame_header("   3:    "), None);
    assert_eq!(parse_frame_header("   3 tester::divide"), None);
    assert_eq!(parse_frame_header("   +3: tester::divide"), None);
}

#[test]
fn frame_header_index_must_fit() {
    assert_eq!(parse_frame_header("   99999999999999999999999: main"), None);
    assert_eq!(
        parse_frame_header("   18446744073709551615: main"),
        Some((18446744073709551615usize, "main".to_string()))
    );
}

#[test]
fn frame_header_splits_at_first_separator() {
    assert_eq!(parse_frame_header("   7: a: b"), Some((7, "a: b".to_string())));
}

#[test]
fn file_line_is_parsed() {
    assert_eq!(
        parse_file_line("             at ./src/main.rs:7:9"),
        Some("./src/main.rs:7:9".to_string())
    );
    assert_eq!(
        parse_file_line("at /rustc/abc/library/std/src/panicking.rs:608:5  "),
        Some("/rustc/abc/library/std/src/panicking.rs:608:5".to_string())
    );
}

#[test]
fn file_line_needs_a_location() {
    assert_eq!(parse_file_line("             at "), None);
    assert_eq!(parse_file_line("             at"), None);
    assert_eq!(parse_file_line("             atlas"), None);
    assert_eq!(parse_file_line("   2: tester::divide"), None);
}

#[test]
fn indented_test_paths() {
    assert!(is_indented_test_path("    tests::test_divide"));
    assert!(is_indented_test_path("    a::b_c::d9  "));
    assert!(!is_indented_test_path("    tests"));
    assert!(!is_indented_test_path("  tests::test_divide"));
    assert!(!is_indented_test_path("    tests::test divide"));
    assert!(!is_indented_test_path("    tests::test-divide"));
    assert!(!is_indented_test_path("        "));
    assert!(!is_indented_test_path(""));
}

#[test]
fn stdlib_function_names() {
    assert!(is_stdlib_fn("std::panicking::begin_panic"));
    assert!(is_stdlib_fn("core::panicking::panic_fmt"));
    assert!(is_stdlib_fn("alloc::boxed::Box"));
    assert!(is_stdlib_fn("test::run_test"));
    assert!(is_stdlib_fn("backtrace::capture"));
    assert!(is_stdlib_fn("panic_unwind::imp::panic"));
    assert!(is_stdlib_fn("rust_begin_unwind"));
    assert!(is_stdlib_fn("__rust_begin_short_backtrace"));
    assert!(is_stdlib_fn("_ZN4core3fmt5write17h"));
    assert!(is_stdlib_fn("<unknown>"));
    assert!(!is_stdlib_fn("rust_begin_unwind_x"));
    assert!(!is_stdlib_fn("tester::divide"));
    assert!(!is_stdlib_fn("mystd::thing"));
}

#[test]
fn user_frames_by_location() {
    assert!(is_user_frame(&frame(2, "tester::divide", Some("./src/main.rs:7:9"))));
    assert!(!is_user_frame(&frame(
        0,
        "tester::divide",
        Some("/rustc/90b35a6/library/std/src/panicking.rs:608:5")
    )));
    assert!(!is_user_frame(&frame(1, "x", Some("/home/u/.rustup/toolchains/stable/lib.rs:1:1"))));
    assert!(!is_user_frame(&frame(1, "x", Some("/home/u/.cargo/registry/src/serde/lib.rs:1:1"))));
    assert!(!is_user_frame(&frame(1, "x", Some("/home/u/.cargo/git/checkouts/x/lib.rs:1:1"))));
    assert!(!is_user_frame(&frame(1, "x", Some("C:\\rustc\\abc\\lib.rs:1:1"))));
    assert!(!is_user_frame(&frame(1, "x", Some("C:\\Users\\u\\.rustup\\toolchains\\x.rs"))));
    assert!(!is_user_frame(&frame(1, "x", Some("C:\\Users\\u\\.cargo\\registry\\x.rs"))));
    assert!(!is_user_frame(&frame(1, "x", Some("C:\\Users\\u\\.cargo\\git\\x.rs"))));
    // A location inside the user's tree wins over a standard-library name.
    assert!(is_user_frame(&frame(1, "std::rt::lang_start", Some("./src/main.rs:1:1"))));
}

#[test]
fn user_frames_by_name() {
    assert!(is_user_frame(&frame(2, "tester::divide", None)));
    assert!(!is_user_frame(&frame(1, "core::panicking::panic_fmt", None)));
    assert!(!is_user_frame(&frame(0, "rust_begin_unwind", None)));
}
