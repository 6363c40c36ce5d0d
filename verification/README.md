# prettypanic

`cargo prettypanic <subcommand> [cargo-args...]` runs a cargo command with
`RUST_BACKTRACE=1` and prints its output with panic backtraces reduced to the
frames of the user's own code, the test harness's colours re-applied, and
(for `cargo fuzz`) the fuzzer's noise removed.

- `src/` is the verified library. `processor` holds the line-by-line state
  machine (`step`, `flush_step`) and its events; `render` states every
  printed line as the pieces it is made of, exactly, given whether colours
  are on; `paint` wraps the `colored` crate and reads that decision once
  (`colors_enabled`);
  `frames` parses and classifies backtrace frames; `cli` reads the command
  line and builds the cargo command; `laws` proves what holds across lines.
- `app/main.rs` spawns cargo, reads its two output streams and prints what
  the library returns.
