use prettypanic::cli::{parse_args, plan_cargo, Command};

fn strings(v: &[&str]) -> Vec<String> {
    v.iter().map(|s| s.to_string()).collect()
}

fn run_args(c: Command) -> Option<Vec<String>> {
    match c {
        Command::Run(a) => Some(a),
        _ => None,
    }
}

#[test]
fn cargo_subcommand_arguments() {
    let c = parse_args(&strings(&["cargo-prettypanic", "prettypanic", "test", "my_test"]));
    assert_eq!(run_args(c), Some(strings(&["test", "my_test"])));
}

#[test]
fn direct_invocation_arguments() {
    let c = parse_args(&strings(&["cargo-prettypanic", "run", "--release"]));
    assert_eq!(run_args(c), Some(strings(&["run", "--release"])));
}

#[test]
fn help_flags() {
    assert!(matches!(parse_args(&strings(&["x", "--help"])), Command::Help));
    assert!(matches!(parse_args(&strings(&["x", "prettypanic", "test", "-h"])), Command::Help));
}

#[test]
fn nothing_to_run() {
    assert!(matches!(parse_args(&strings(&["x"])), Command::Usage));
    assert!(matches!(parse_args(&strings(&["x", "prettypanic"])), Command::Usage));
}

#[test]
fn test_run_gets_harness_colors() {
    let p = plan_cargo(&strings(&["test"]));
    assert_eq!(p.args, strings(&["--color", "always", "test", "--", "--color", "always"]));
    assert!(!p.is_fuzz);
}

#[test]
fn test_run_with_dashes_and_toolchain() {
    let p = plan_cargo(&strings(&["+nightly", "test", "foo", "--", "--nocapture"]));
    assert_eq!(
        p.args,
        strings(&[
            "+nightly", "--color", "always", "test", "foo", "--", "--color", "always",
            "--nocapture"
        ])
    );
    assert!(!p.is_fuzz);
}

#[test]
fn flags_before_subcommand() {
    let p = plan_cargo(&strings(&["--release", "test"]));
    assert_eq!(
        p.args,
        strings(&["--color", "always", "--release", "test", "--", "--color", "always"])
    );
}

#[test]
fn fuzz_run_is_detected() {
    let p = plan_cargo(&strings(&["+nightly", "fuzz", "run", "fuzz_target_1"]));
    assert_eq!(p.args, strings(&["+nightly", "--color", "always", "fuzz", "run", "fuzz_target_1"]));
    assert!(p.is_fuzz);
}

#[test]
fn other_runs_are_passed_on() {
    let p = plan_cargo(&strings(&["run", "--", "arg"]));
    assert_eq!(p.args, strings(&["--color", "always", "run", "--", "arg"]));
    assert!(!p.is_fuzz);
}
