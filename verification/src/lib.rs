//! Readable panic backtraces: the line-by-line processing of a cargo run's
//! output, which keeps only the frames of the user's own code, re-applies
//! the test harness's colours and, for `cargo fuzz`, drops the fuzzer's
//! noise.
//!
//! - `text`: trimming, prefixes and search over the characters of a line;
//! - `frames`: backtrace frames, their parsing and classification;
//! - `paint`: terminal colours through `colored`;
//! - `processor`: the line-by-line state machine and its events;
//! - `render`: the printed lines of each event;
//! - `cli`: the command line and the cargo command run under it;
//! - `laws`: what holds across lines and calls.

pub mod text;
pub mod frames;
pub mod paint;
pub mod processor;
pub mod render;
pub mod cli;
pub mod laws;

pub use frames::{
    is_indented_test_path, is_stdlib_fn, is_user_frame, parse_file_line, parse_frame_header, Frame,
};
pub use paint::colorize_test_line;
pub use processor::BacktraceProcessor;
