//! Backtrace frames: parsing the lines of a `RUST_BACKTRACE=1` backtrace and
//! telling the user's own frames from those of the standard library and of
//! dependencies.

use vstd::prelude::*;
use crate::text::{
    all_digits, chars_of, contains, find, has_part, has_prefix, is_exactly, lemma_find,
    lemma_trim_bounds,
    parse_digits, parse_digits_in, region_find, skip_white_in, slice_vec, starts_with, text_of,
    trim, trim_bounds, trim_start,
};

verus! {

/// One frame of a backtrace: its number, its function and, where the
/// backtrace gave one, its source location.
pub struct Frame {
    pub index: usize,
    pub name: String,
    pub file: Option<String>,
}

/// The value of a [`Frame`].
pub struct FrameView {
    pub index: usize,
    pub name: Seq<char>,
    pub file: Option<Seq<char>>,
}

pub open spec fn opt_text(o: Option<String>) -> Option<Seq<char>> {
    match o {
        Some(s) => Some(s@),
        None => None,
    }
}

impl View for Frame {
    type V = FrameView;

    open spec fn view(&self) -> FrameView {
        FrameView { index: self.index, name: self.name@, file: opt_text(self.file) }
    }
}

/// The frames of a vector, by value.
pub open spec fn frames_view(v: Seq<Frame>) -> Seq<FrameView> {
    v.map_values(|f: Frame| f@)
}

/// Frame header `"   N: function::name"`: some leading white space, a
/// nonempty run of ASCII digits that fits in a `usize`, `": "`, and a
/// name that is not blank once trimmed.
pub open spec fn frame_header(line: Seq<char>) -> Option<(usize, Seq<char>)> {
    let t = trim_start(line);
    if t.len() == line.len() {
        None
    } else {
        match find(t, ": "@) {
            None => None,
            Some(sep) => {
                let digits = t.take(sep);
                let name = trim(t.skip(sep + 2));
                if digits.len() == 0 || !all_digits(digits) || name.len() == 0 {
                    None
                } else {
                    match parse_digits(digits) {
                        Some(n) => Some((n, name)),
                        None => None,
                    }
                }
            },
        }
    }
}

/// Location line `"             at /path/to/file.rs:line:col"`: the trimmed
/// line starts with `"at "` and has more after it.
pub open spec fn file_line(line: Seq<char>) -> Option<Seq<char>> {
    let t = trim(line);
    if starts_with(t, "at "@) && t.len() > "at "@.len() {
        Some(t.skip("at "@.len() as int))
    } else {
        None
    }
}

/// Function names of the standard library, the test harness and the
/// unwinding machinery.
pub open spec fn stdlib_fn(name: Seq<char>) -> bool {
    ||| starts_with(name, "std::"@)
    ||| starts_with(name, "core::"@)
    ||| starts_with(name, "alloc::"@)
    ||| starts_with(name, "test::"@)
    ||| starts_with(name, "backtrace::"@)
    ||| starts_with(name, "panic_unwind::"@)
    ||| name == "rust_begin_unwind"@
    ||| starts_with(name, "__rust"@)
    ||| starts_with(name, "_ZN"@)
    ||| name == "<unknown>"@
}

/// Locations inside the toolchain or inside cargo's caches of dependencies.
pub open spec fn outside_user_code(file: Seq<char>) -> bool {
    ||| contains(file, "/rustc/"@)
    ||| contains(file, "/.rustup/toolchains/"@)
    ||| contains(file, "/.cargo/registry/"@)
    ||| contains(file, "/.cargo/git/"@)
    ||| contains(file, "\\rustc\\"@)
    ||| contains(file, "\\.rustup\\toolchains\\"@)
    ||| contains(file, "\\.cargo\\registry\\"@)
    ||| contains(file, "\\.cargo\\git\\"@)
}

/// A frame of the user's code: by its location where it has one, else by
/// its function name.
pub open spec fn user_frame(f: FrameView) -> bool {
    match f.file {
        Some(file) => !outside_user_code(file),
        None => !stdlib_fn(f.name),
    }
}

/// What `char::is_alphanumeric` returns for `c`.
pub uninterp spec fn alphanumeric(c: char) -> bool;

/// A line of the failures summary, `"    tests::test_foo"`: four spaces of
/// indentation, and a trimmed text that is not blank, holds `"::"` and is
/// made only of alphanumeric characters, `':'` and `'_'`.
pub open spec fn indented_test_path(line: Seq<char>) -> bool {
    let t = trim(line);
    &&& starts_with(line, "    "@)
    &&& t.len() > 0
    &&& contains(t, "::"@)
    &&& forall|i: int|
        0 <= i < t.len() ==> alphanumeric(#[trigger] t[i]) || t[i] == ':' || t[i] == '_'
}

/// Trusted: calls `char::is_alphanumeric`, whose result depends on `c`
/// alone; the contract names that result and claims nothing more of it.
#[verifier::external_body]
fn char_is_alphanumeric(c: char) -> (r: bool)
    ensures
        r == alphanumeric(c),
{
    c.is_alphanumeric()
}

/// Parses `"   N: function::name"` into `(N, "function::name")`.
#[verifier::loop_isolation(false)]
pub fn parse_frame_header(line: &str) -> (r: Option<(usize, String)>)
    ensures
        match r {
            Some((n, name)) => frame_header(line@) == Some((n, name@)),
            None => frame_header(line@) is None,
        },
{
    let v = chars_of(line);
    let a = skip_white_in(&v, 0);
    proof {
        lemma_trim_bounds(v@);
    }
    if a == 0 {
        assert(trim_start(v@) =~= v@);
        return None;
    }
    let t = slice_vec(&v, a, v.len());
    assert(t@ =~= trim_start(v@));
    let sep = match region_find(&t, 0, t.len(), ": ") {
        Some(k) => k,
        None => {
            assert(t@.subrange(0, t@.len() as int) =~= t@);
            return None;
        },
    };
    assert(t@.subrange(0, t@.len() as int) =~= t@);
    proof {
        lemma_find(t@, ": "@);
        reveal_strlit(": ");
    }
    let digits = slice_vec(&t, 0, sep);
    assert(digits@ =~= t@.take(sep as int));
    if digits.len() == 0 {
        return None;
    }
    let mut k: usize = 0;
    while k < digits.len()
        invariant
            k <= digits@.len(),
            forall|i: int| 0 <= i < k ==> '0' <= #[trigger] digits@[i] && digits@[i] <= '9',
        decreases digits@.len() - k,
    {
        let c = digits[k];
        if !('0' <= c && c <= '9') {
            return None;
        }
        k = k + 1;
    }
    let rest = slice_vec(&t, sep + 2, t.len());
    assert(rest@ =~= t@.skip(sep + 2));
    let (b1, b2) = trim_bounds(&rest);
    assert(all_digits(digits@));
    if b1 == b2 {
        assert(trim(t@.skip(sep + 2)).len() == 0);
        return None;
    }
    let name_chars = slice_vec(&rest, b1, b2);
    match parse_digits_in(&digits) {
        Some(n) => Some((n, text_of(&name_chars))),
        None => None,
    }
}

/// Parses `"             at /path/to/file.rs:line:col"` into
/// `"/path/to/file.rs:line:col"`.
pub fn parse_file_line(line: &str) -> (r: Option<String>)
    ensures
        opt_text(r) == file_line(line@),
{
    let v = chars_of(line);
    let (a, b) = trim_bounds(&v);
    let t = slice_vec(&v, a, b);
    if !has_prefix(&t, "at ") {
        return None;
    }
    proof {
        reveal_strlit("at ");
    }
    if t.len() <= 3 {
        return None;
    }
    let rest = slice_vec(&t, 3, t.len());
    assert(rest@ =~= t@.skip(3));
    Some(text_of(&rest))
}

/// Whether `line` is an entry of the failures summary, like
/// `"    tests::test_foo"`.
#[verifier::loop_isolation(false)]
pub fn is_indented_test_path(line: &str) -> (r: bool)
    ensures
        r == indented_test_path(line@),
{
    let v = chars_of(line);
    if !has_prefix(&v, "    ") {
        return false;
    }
    let (a, b) = trim_bounds(&v);
    if a == b {
        assert(trim(line@).len() == 0);
        return false;
    }
    let t = slice_vec(&v, a, b);
    if !has_part(&t, "::") {
        return false;
    }
    let mut k: usize = 0;
    while k < t.len()
        invariant
            k <= t@.len(),
            forall|i: int|
                0 <= i < k ==> alphanumeric(#[trigger] t@[i]) || t@[i] == ':' || t@[i] == '_',
        decreases t@.len() - k,
    {
        let c = t[k];
        if !(char_is_alphanumeric(c) || c == ':' || c == '_') {
            return false;
        }
        k = k + 1;
    }
    true
}

/// Whether `name` is a function of the standard library, the test
/// harness or the unwinding machinery.
pub fn is_stdlib_fn(name: &str) -> (r: bool)
    ensures
        r == stdlib_fn(name@),
{
    let v = chars_of(name);
    has_prefix(&v, "std::") || has_prefix(&v, "core::") || has_prefix(&v, "alloc::")
        || has_prefix(&v, "test::") || has_prefix(&v, "backtrace::") || has_prefix(
        &v,
        "panic_unwind::",
    ) || is_exactly(&v, "rust_begin_unwind") || has_prefix(&v, "__rust") || has_prefix(
        &v,
        "_ZN",
    ) || is_exactly(&v, "<unknown>")
}

/// Whether a frame belongs to the user's code.
pub fn is_user_frame(frame: &Frame) -> (r: bool)
    ensures
        r == user_frame(frame@),
{
    match &frame.file {
        Some(file) => {
            let v = chars_of(file.as_str());
            !(has_part(&v, "/rustc/") || has_part(&v, "/.rustup/toolchains/") || has_part(
                &v,
                "/.cargo/registry/",
            ) || has_part(&v, "/.cargo/git/") || has_part(&v, "\\rustc\\") || has_part(
                &v,
                "\\.rustup\\toolchains\\",
            ) || has_part(&v, "\\.cargo\\registry\\") || has_part(&v, "\\.cargo\\git\\"))
        },
        None => !is_stdlib_fn(frame.name.as_str()),
    }
}

} // verus!
