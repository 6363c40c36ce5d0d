//! What holds of the processor across lines and calls.

use vstd::prelude::*;
use crate::text::{
    contains, lemma_back_over_bounds, lemma_skip_white_bounds, lemma_trim_bounds, matches_at,
    skip_white, back_over, ends_with, starts_with, trim, white, trim_start, find_from,
    all_digits, digits_value, decimal, digit_char, lemma_find, find,
};
use crate::frames::{frame_header, indented_test_path, user_frame, FrameView};
use crate::paint::{
    piece_text, realize, reset, restyled, sgr, style_code, style_params, test_line_pieces, Piece,
    Style,
};
use crate::processor::{
    backtrace_events, consistent, flush_step, fuzz_phase, initial, last_segment,
    lemma_rfind_to, new_panic_format, panic_events, panic_text, quote_comma, rfind_to,
    step, thread_name, user_frames, EventView, ProcessorView, fuzz_noise,
};
use crate::render::{backtrace_lines, hidden_line};
use crate::cli::{cargo_command, color_always, dashes_from, split_toolchain, subcommand};

verus! {

/// No state is waiting on the line to come: not in a backtrace, no panic
/// message expected, no `"failures:"` held back, not in the summary list.
pub open spec fn idle(s: ProcessorView) -> bool {
    &&& !s.in_backtrace
    &&& !s.next_is_panic_msg
    &&& !s.pending_failures_line
    &&& !s.in_failures_summary
}

proof fn lemma_user_frames_filter(fs: Seq<FrameView>)
    ensures
        user_frames(fs) == fs.filter(|f: FrameView| user_frame(f)),
        user_frames(fs).len() + fs.filter(|f: FrameView| !user_frame(f)).len() == fs.len(),
    decreases fs.len(),
{
    reveal(Seq::filter);
    if fs.len() > 0 {
        lemma_user_frames_filter(fs.drop_last());
    }
}

/// A backtrace shows exactly the frames of the user's own code, in their
/// order, and counts every other frame as hidden.
pub proof fn law_backtrace_shows_only_user_code(fs: Seq<FrameView>)
    requires
        fs.len() > 0,
    ensures
        backtrace_events(fs) == seq![
            EventView::Backtrace {
                frames: fs.filter(|f: FrameView| user_frame(f)),
                hidden: fs.filter(|f: FrameView| !user_frame(f)).len(),
            },
        ],
{
    lemma_user_frames_filter(fs);
}

/// A processor starts consistent and stays so, line after line and
/// through a flush, and whether it is in fuzz mode never changes.
pub proof fn law_consistent(is_fuzz: bool, s: ProcessorView, line: Seq<char>, to_stderr: bool)
    requires
        consistent(s),
    ensures
        consistent(initial(is_fuzz)),
        initial(is_fuzz).is_fuzz == is_fuzz,
        consistent(step(s, line, to_stderr).0),
        step(s, line, to_stderr).0.is_fuzz == s.is_fuzz,
        consistent(flush_step(s).0),
        flush_step(s).0.is_fuzz == s.is_fuzz,
{
}

/// A panic line in the format before Rust 1.73,
/// `... panicked at 'MESSAGE', LOCATION`, is shown as the header with
/// `LOCATION`, followed by `MESSAGE` on a line of its own.
pub proof fn law_old_panic_format_is_split(line: Seq<char>, message: Seq<char>, location: Seq<
    char,
>)
    requires
        !new_panic_format(line),
        panic_text(line) == Some(seq!['\''] + message + quote_comma() + location),
        !contains(location, quote_comma()),
    ensures
        panic_events(line) == seq![
            EventView::PanicHeader {
                test_name: last_segment(thread_name(line)),
                location,
            },
            EventView::PanicMessage { text: message },
        ],
{
    let t = seq!['\''] + message + quote_comma() + location;
    let k: int = message.len() as int + 1;
    let j: int = t.len() - 3;
    assert(t.subrange(k, k + 3) =~= quote_comma());
    assert(matches_at(t, quote_comma(), k));
    lemma_rfind_to(t, quote_comma(), j);
    match rfind_to(t, quote_comma(), j) {
        Some(k2) => {
            if k2 > k {
                if k2 == k + 1 {
                    assert(t.subrange(k2, k2 + 3)[0] == t[k2]);
                } else if k2 == k + 2 {
                    assert(t.subrange(k2, k2 + 3)[0] == t[k2]);
                } else {
                    assert(t.subrange(k2, k2 + 3) =~= location.subrange(
                        k2 - k - 3,
                        k2 - k - 3 + 3,
                    ));
                    assert(matches_at(location, quote_comma(), k2 - k - 3));
                }
            }
            assert(k2 == k);
        },
        None => {},
    }
    assert(t.subrange(1, k) =~= message);
    assert(t.skip(k + 3) =~= location);
}

/// Flushing twice shows nothing the second time and changes nothing.
pub proof fn law_flush_is_idempotent(s: ProcessorView)
    ensures
        flush_step(flush_step(s).0) == (flush_step(s).0, Seq::<EventView>::empty()),
{
}

/// Once the cargo-fuzz `"Stack backtrace:"` has started, nothing more is
/// shown and the state no longer changes.
pub proof fn law_fuzz_stack_backtrace_is_silenced(
    s: ProcessorView,
    line: Seq<char>,
    to_stderr: bool,
)
    requires
        s.is_fuzz,
        s.in_fuzz_stack_backtrace,
    ensures
        step(s, line, to_stderr) == (s, Seq::<EventView>::empty()),
{
}

/// A line that is blank once trimmed holds only white space.
proof fn lemma_blank_is_white(b: Seq<char>)
    requires
        trim(b).len() == 0,
    ensures
        forall|i: int| 0 <= i < b.len() ==> white(#[trigger] b[i]),
{
    lemma_trim_bounds(b);
    let a = skip_white(b, 0);
    lemma_skip_white_bounds(b, 0);
    lemma_back_over_bounds(b, None, a, b.len() as int);
}

/// A text made only of white space starts with no text that begins with
/// something else.
proof fn lemma_white_no_prefix(b: Seq<char>, p: Seq<char>)
    requires
        forall|i: int| 0 <= i < b.len() ==> white(#[trigger] b[i]),
        p.len() > 0,
        !white(p[0]),
    ensures
        !starts_with(b, p),
{
    if starts_with(b, p) {
        assert(b.take(p.len() as int)[0] == p[0]);
    }
}

/// In fuzz mode, a run of blank lines is shown as one at most: the second of
/// two blank lines in a row is never shown.
pub proof fn law_fuzz_blank_lines_collapse(
    s: ProcessorView,
    b1: Seq<char>,
    b2: Seq<char>,
    e1: bool,
    e2: bool,
)
    requires
        s.is_fuzz,
        trim(b1).len() == 0,
        trim(b2).len() == 0,
    ensures
        step(step(s, b1, e1).0, b2, e2).1.len() == 0,
{
    reveal_strlit("Stack backtrace:");
    reveal_strlit("artifact_prefix=");
    reveal_strlit("==");
    reveal_strlit("NOTE: libFuzzer");
    reveal_strlit("Combine libFuzzer");
    reveal_strlit("SUMMARY: libFuzzer");
    reveal_strlit("MS: ");
    reveal_strlit("Base64: ");
    reveal_strlit("Base64:");
    reveal_strlit("Minimize test case with:");
    reveal_strlit("cargo fuzz tmin");
    lemma_blank_is_white(b1);
    lemma_blank_is_white(b2);
    lemma_white_no_prefix(b1, "artifact_prefix="@);
    lemma_white_no_prefix(b1, "=="@);
    lemma_white_no_prefix(b2, "artifact_prefix="@);
    lemma_white_no_prefix(b2, "=="@);
}

/// Where `p` occurs in `s` and starts and ends with non-white characters,
/// it occurs within `trim(s)`, which is therefore no shorter.
proof fn lemma_contains_survives_trim(s: Seq<char>, p: Seq<char>)
    requires
        contains(s, p),
        p.len() > 0,
        !white(p[0]),
        !white(p[p.len() - 1]),
    ensures
        p.len() <= trim(s).len(),
{
    let k = choose|k: int| matches_at(s, p, k);
    lemma_trim_bounds(s);
    let a = skip_white(s, 0);
    lemma_skip_white_bounds(s, 0);
    let b = back_over(s, None, a, s.len() as int);
    lemma_back_over_bounds(s, None, a, s.len() as int);
    assert(s[k] == p[0]);
    assert(s[k + p.len() - 1] == p[p.len() - 1]);
    if k < a {
        assert(white(s[k]));
    }
    if k + p.len() - 1 >= b {
        assert(white(s[k + p.len() - 1]));
    }
}

/// A line that is neither a panic line nor one of the markers the
/// processor watches for passes through unchanged (its test-harness
/// colours aside) when nothing is pending and the run is not a fuzz run.
pub proof fn law_plain_lines_pass_through(s: ProcessorView, line: Seq<char>, to_stderr: bool)
    requires
        !s.is_fuzz,
        idle(s),
        !contains(line, "panicked at"@),
        trim(line) != "failures:"@,
        trim(line) != "stack backtrace:"@,
    ensures
        step(s, line, to_stderr) == (s, seq![EventView::Line { text: line, to_stderr }]),
{
}

/// A panic line is shown as its header (with the quoted message after it
/// where the line carries one); in the format where it ends with a colon,
/// the next line is shown as the panic message.
pub proof fn law_panic_message_follows_header(
    s: ProcessorView,
    l1: Seq<char>,
    l2: Seq<char>,
    e1: bool,
    e2: bool,
)
    requires
        !s.is_fuzz,
        idle(s),
        contains(l1, "panicked at"@),
    ensures
        step(s, l1, e1) == (
            ProcessorView { next_is_panic_msg: new_panic_format(l1), ..s },
            panic_events(l1),
        ),
        new_panic_format(l1) && trim(l2) != "failures:"@ ==> step(step(s, l1, e1).0, l2, e2) == (
            s,
            seq![EventView::PanicMessage { text: l2 }],
        ),
{
    reveal_strlit("panicked at");
    reveal_strlit("failures:");
    lemma_contains_survives_trim(l1, "panicked at"@);
}

/// The `"failures:"` header of the summary list, and the list of failed
/// tests under it, are not shown.
pub proof fn law_failures_summary_is_dropped(
    s: ProcessorView,
    header: Seq<char>,
    first: Seq<char>,
    more: Seq<char>,
    e1: bool,
    e2: bool,
    e3: bool,
)
    requires
        !s.is_fuzz,
        idle(s),
        trim(header) == "failures:"@,
        indented_test_path(first),
        indented_test_path(more),
    ensures
        ({
            let s1 = step(s, header, e1);
            let s2 = step(s1.0, first, e2);
            let s3 = step(s2.0, more, e3);
            &&& s1.1.len() == 0
            &&& s2.1.len() == 0
            &&& s3.1.len() == 0
            &&& s3.0 == s2.0
        }),
{
}

/// A `"failures:"` line that does not head the summary list is shown
/// (as the line `"failures:"`) before the line after it.
pub proof fn law_failures_section_header_is_kept(
    s: ProcessorView,
    header: Seq<char>,
    next: Seq<char>,
    e1: bool,
    e2: bool,
)
    requires
        !s.is_fuzz,
        idle(s),
        trim(header) == "failures:"@,
        !indented_test_path(next),
        !contains(next, "panicked at"@),
        trim(next) != "failures:"@,
        trim(next) != "stack backtrace:"@,
    ensures
        step(step(s, header, e1).0, next, e2) == (
            s,
            seq![
                EventView::Line { text: "failures:"@, to_stderr: e2 },
                EventView::Line { text: next, to_stderr: e2 },
            ],
        ),
{
}

/// Inside a backtrace, frame headers are gathered and not shown.
pub proof fn law_frames_are_gathered(s: ProcessorView, line: Seq<char>, to_stderr: bool)
    requires
        !s.is_fuzz,
        consistent(s),
        s.in_backtrace,
        frame_header(line) is Some,
    ensures
        step(s, line, to_stderr).1.len() == 0,
        step(s, line, to_stderr).0.in_backtrace,
{
}

proof fn lemma_realize_three(ps: Seq<Piece>, colors: bool)
    requires
        ps.len() == 3,
    ensures
        realize(ps, colors) == piece_text(ps[0], colors) + piece_text(ps[1], colors) + piece_text(
            ps[2],
            colors,
        ),
{
    let p2 = ps.drop_last();
    let p1 = p2.drop_last();
    let p0 = p1.drop_last();
    assert(realize(p0, colors) == Seq::<char>::empty());
    assert(realize(p1, colors) == realize(p0, colors) + piece_text(p1.last(), colors));
    assert(realize(p2, colors) == realize(p1, colors) + piece_text(p2.last(), colors));
    assert(realize(ps, colors) == realize(p2, colors) + piece_text(ps.last(), colors));
    assert(realize(ps, colors) =~= piece_text(ps[0], colors) + piece_text(ps[1], colors)
        + piece_text(ps[2], colors));
}

/// With colours off, a test-harness line is shown exactly as it came.
pub proof fn law_recolored_line_keeps_its_text(line: Seq<char>)
    ensures
        realize(test_line_pieces(line), false) == line,
{
    let ps = test_line_pieces(line);
    reveal_strlit(" ... ok");
    reveal_strlit(" ... FAILED");
    reveal_strlit(" ... ignored");
    reveal_strlit(" ... ");
    reveal_strlit("ok");
    reveal_strlit("FAILED");
    reveal_strlit("ignored");
    reveal_strlit("test result: ok");
    reveal_strlit("test result: FAILED");
    reveal_strlit("test result: ");
    let n = line.len() as int;
    if ps.len() == 3 {
        lemma_realize_three(ps, false);
        if ends_with(line, " ... ok"@) {
            assert(line =~= line.take(n - 7) + line.skip(n - 7));
            assert(" ... "@ + "ok"@ =~= " ... ok"@);
        } else if ends_with(line, " ... FAILED"@) {
            assert(line =~= line.take(n - 11) + line.skip(n - 11));
            assert(" ... "@ + "FAILED"@ =~= " ... FAILED"@);
        } else if ends_with(line, " ... ignored"@) {
            assert(line =~= line.take(n - 12) + line.skip(n - 12));
            assert(" ... "@ + "ignored"@ =~= " ... ignored"@);
        } else if starts_with(line, "test result: ok"@) {
            assert(line =~= line.take(15) + line.skip(15));
            assert("test result: "@ + "ok"@ =~= "test result: ok"@);
        } else {
            assert(line =~= line.take(19) + line.skip(19));
            assert("test result: "@ + "FAILED"@ =~= "test result: FAILED"@);
        }
        assert(realize(ps, false) =~= line);
    } else {
        assert(ps == seq![Piece::Plain(line)]);
        assert(ps.drop_last() =~= Seq::<Piece>::empty());
        assert(realize(ps.drop_last(), false) == Seq::<char>::empty());
        assert(realize(ps, false) == realize(ps.drop_last(), false) + piece_text(ps.last(), false));
        assert(realize(ps, false) =~= line);
    }
}

/// Outside fuzz mode the fuzzing filter lets every line through and leaves
/// the state alone.
pub proof fn law_fuzz_filter_only_in_fuzz_mode(s: ProcessorView, line: Seq<char>)
    requires
        !s.is_fuzz,
    ensures
        fuzz_phase(s, line) == (s, false),
{
}

/// A `+toolchain` argument reaches cargo first (rustup reads it there),
/// followed by `--color always`.
pub proof fn law_toolchain_comes_first(args: Seq<Seq<char>>)
    requires
        args.len() > 0,
        starts_with(args[0], "+"@),
    ensures
        cargo_command(args)[0] == args[0],
        cargo_command(args).subrange(1, 3) == color_always(),
{
    let c = cargo_command(args);
    assert(c.subrange(1, 3) =~= color_always());
}

proof fn lemma_dashes_from(args: Seq<Seq<char>>, i: int)
    requires
        0 <= i,
    ensures
        match dashes_from(args, i) {
            Some(d) => i <= d < args.len() && args[d] == "--"@,
            None => true,
        },
    decreases args.len() - i,
{
    if i < args.len() && args[i] != "--"@ {
        lemma_dashes_from(args, i + 1);
    }
}

/// In a `cargo test` run, the test harness is given `--color always`: it
/// follows the first `--` of the command.
pub proof fn law_test_harness_gets_colors(args: Seq<Seq<char>>)
    requires
        subcommand(split_toolchain(args).1) == Some("test"@),
    ensures
        exists|i: int|
            0 <= i && i + 3 <= cargo_command(args).len() && #[trigger] cargo_command(args)[i]
                == "--"@ && cargo_command(args).subrange(i + 1, i + 3) == color_always(),
{
    let (tc, rest) = split_toolchain(args);
    let head = match tc {
        Some(t) => seq![t],
        None => Seq::<Seq<char>>::empty(),
    } + color_always();
    let c = cargo_command(args);
    lemma_dashes_from(rest, 0);
    match dashes_from(rest, 0) {
        Some(d) => {
            let i: int = head.len() + d;
            assert(c == head + (rest.take(d + 1) + color_always() + rest.skip(d + 1)));
            assert(c[i] == rest[d]);
            assert(c.subrange(i + 1, i + 3) =~= color_always());
        },
        None => {
            let i: int = (head.len() + rest.len()) as int;
            assert(c == head + (rest + seq!["--"@] + color_always()));
            assert(c[i] == "--"@);
            assert(c.subrange(i + 1, i + 3) =~= color_always());
        },
    }
}

/// `s` with its escape sequences `ESC [ ... m` removed; `in_seq` while
/// inside one.
pub open spec fn strip_escapes(s: Seq<char>, in_seq: bool) -> Seq<char>
    decreases s.len(),
{
    if s.len() == 0 {
        s
    } else if in_seq {
        strip_escapes(s.drop_first(), s[0] != 'm')
    } else if s.len() >= 2 && s[0] == '\u{1b}' && s[1] == '[' {
        strip_escapes(s.skip(2), true)
    } else {
        seq![s[0]] + strip_escapes(s.drop_first(), false)
    }
}

/// `s` holds no escape character.
pub open spec fn no_escape(s: Seq<char>) -> bool {
    forall|i: int| 0 <= i < s.len() ==> #[trigger] s[i] != '\u{1b}'
}

/// The text of a piece, painted or not.
pub open spec fn piece_body(p: Piece) -> Seq<char> {
    match p {
        Piece::Plain(t) => t,
        Piece::Paint(t, _) => t,
    }
}

proof fn lemma_strip_plain(a: Seq<char>, t: Seq<char>)
    requires
        no_escape(a),
    ensures
        strip_escapes(a + t, false) == a + strip_escapes(t, false),
    decreases a.len(),
{
    if a.len() == 0 {
        assert(a + t =~= t);
        assert(a + strip_escapes(t, false) =~= strip_escapes(t, false));
    } else {
        let s = a + t;
        assert(s[0] == a[0]);
        assert(s.drop_first() =~= a.drop_first() + t);
        lemma_strip_plain(a.drop_first(), t);
        assert(a =~= seq![a[0]] + a.drop_first());
    }
}

proof fn lemma_strip_body(params: Seq<char>, t: Seq<char>)
    requires
        forall|i: int| 0 <= i < params.len() ==> #[trigger] params[i] != 'm',
    ensures
        strip_escapes(params + seq!['m'] + t, true) == strip_escapes(t, false),
    decreases params.len(),
{
    let s = params + seq!['m'] + t;
    if params.len() == 0 {
        assert(s[0] == 'm');
        assert(s.drop_first() =~= t);
    } else {
        assert(s[0] == params[0]);
        assert(s.drop_first() =~= params.drop_first() + seq!['m'] + t);
        lemma_strip_body(params.drop_first(), t);
    }
}

proof fn lemma_strip_sgr(params: Seq<char>, t: Seq<char>)
    requires
        forall|i: int| 0 <= i < params.len() ==> #[trigger] params[i] != 'm',
    ensures
        strip_escapes(sgr(params) + t, false) == strip_escapes(t, false),
{
    let s = sgr(params) + t;
    assert(s[0] == '\u{1b}' && s[1] == '[');
    assert(s.skip(2) =~= params + seq!['m'] + t);
    lemma_strip_body(params, t);
}

proof fn lemma_restyled_plain(text: Seq<char>, code: Seq<char>)
    requires
        no_escape(text),
    ensures
        restyled(text, code) == text,
    decreases text.len(),
{
    if text.len() > 0 {
        if starts_with(text, reset()) {
            assert(text.take(4)[0] == text[0]);
        }
        lemma_restyled_plain(text.drop_first(), code);
        assert(text =~= seq![text[0]] + text.drop_first());
    }
}

proof fn lemma_style_params(st: Style)
    ensures
        forall|i: int| 0 <= i < style_params(st).len() ==> #[trigger] style_params(st)[i] != 'm',
{
}

proof fn lemma_strip_piece(p: Piece, t: Seq<char>)
    requires
        no_escape(piece_body(p)),
    ensures
        strip_escapes(piece_text(p, true) + t, false) == piece_body(p) + strip_escapes(t, false),
{
    match p {
        Piece::Plain(x) => {
            lemma_strip_plain(x, t);
        },
        Piece::Paint(x, st) => {
            lemma_restyled_plain(x, style_code(st));
            lemma_style_params(st);
            let rs = reset();
            assert(piece_text(p, true) + t =~= sgr(style_params(st)) + (x + (rs + t)));
            lemma_strip_sgr(style_params(st), x + (rs + t));
            lemma_strip_plain(x, rs + t);
            assert(rs =~= sgr(seq!['0']));
            lemma_strip_sgr(seq!['0'], t);
        },
    }
}

proof fn lemma_realize_front(ps: Seq<Piece>, colors: bool)
    requires
        ps.len() > 0,
    ensures
        realize(ps, colors) == piece_text(ps[0], colors) + realize(ps.drop_first(), colors),
    decreases ps.len(),
{
    if ps.len() == 1 {
        assert(ps.drop_last() =~= Seq::<Piece>::empty());
        assert(ps.drop_first() =~= Seq::<Piece>::empty());
        assert(realize(ps.drop_last(), colors) == Seq::<char>::empty());
        assert(realize(ps.drop_first(), colors) == Seq::<char>::empty());
        assert(ps.last() == ps[0]);
        assert(realize(ps, colors) == realize(ps.drop_last(), colors) + piece_text(
            ps.last(),
            colors,
        ));
        assert(realize(ps, colors) =~= piece_text(ps[0], colors));
    } else {
        lemma_realize_front(ps.drop_last(), colors);
        assert(ps.drop_last().drop_first() =~= ps.drop_first().drop_last());
        assert(ps.drop_first().last() == ps.last());
        assert(realize(ps, colors) =~= piece_text(ps[0], colors) + realize(ps.drop_first(), colors));
    }
}

/// With colours on, removing the escape sequences from a line of pieces
/// whose texts hold no escape character gives the line with colours off.
pub proof fn law_colors_only_add_escapes(ps: Seq<Piece>)
    requires
        forall|i: int| 0 <= i < ps.len() ==> no_escape(piece_body(#[trigger] ps[i])),
    ensures
        strip_escapes(realize(ps, true), false) == realize(ps, false),
    decreases ps.len(),
{
    if ps.len() > 0 {
        lemma_realize_front(ps, true);
        lemma_realize_front(ps, false);
        assert forall|i: int| 0 <= i < ps.drop_first().len() implies no_escape(
            piece_body(#[trigger] ps.drop_first()[i]),
        ) by {
            assert(ps.drop_first()[i] == ps[i + 1]);
        }
        law_colors_only_add_escapes(ps.drop_first());
        assert(no_escape(piece_body(ps[0])));
        lemma_strip_piece(ps[0], realize(ps.drop_first(), true));
    } else {
        assert(realize(ps, true) == Seq::<char>::empty());
    }
}

/// Re-applying colours never changes the visible text: with colours on,
/// removing the escape sequences from a recoloured test-harness line (one
/// that held no escape character) gives the line back.
pub proof fn law_recolored_line_strips_to_itself(line: Seq<char>)
    requires
        no_escape(line),
    ensures
        strip_escapes(realize(test_line_pieces(line), true), false) == line,
{
    let ps = test_line_pieces(line);
    reveal_strlit(" ... ok");
    reveal_strlit(" ... FAILED");
    reveal_strlit(" ... ignored");
    reveal_strlit(" ... ");
    reveal_strlit("ok");
    reveal_strlit("FAILED");
    reveal_strlit("ignored");
    reveal_strlit("test result: ok");
    reveal_strlit("test result: FAILED");
    reveal_strlit("test result: ");
    let n = line.len() as int;
    assert forall|i: int| 0 <= i < ps.len() implies no_escape(piece_body(#[trigger] ps[i])) by {
        let b = piece_body(ps[i]);
        assert forall|j: int| 0 <= j < b.len() implies #[trigger] b[j] != '\u{1b}' by {
            if ends_with(line, " ... ok"@) && i == 0 {
                assert(b[j] == line[j]);
            } else if ends_with(line, " ... FAILED"@) && i == 0 {
                assert(b[j] == line[j]);
            } else if ends_with(line, " ... ignored"@) && i == 0 {
                assert(b[j] == line[j]);
            } else if !ends_with(line, " ... ok"@) && !ends_with(line, " ... FAILED"@)
                && !ends_with(line, " ... ignored"@) && starts_with(line, "test result: ok"@)
                && i == 2 {
                assert(b[j] == line[j + 15]);
            } else if !ends_with(line, " ... ok"@) && !ends_with(line, " ... FAILED"@)
                && !ends_with(line, " ... ignored"@) && !starts_with(line, "test result: ok"@)
                && starts_with(line, "test result: FAILED"@) && i == 2 {
                assert(b[j] == line[j + 19]);
            } else if ps.len() == 1 {
                assert(b[j] == line[j]);
            }
        }
    }
    law_colors_only_add_escapes(ps);
    law_recolored_line_keeps_its_text(line);
}

/// A panic line in the format since Rust 1.73 (ending with a colon) is
/// shown as one header whose location is the whole text after
/// `" panicked at "`, quotes included; its message comes on the next line.
pub proof fn law_new_panic_format_is_not_split(line: Seq<char>)
    requires
        new_panic_format(line),
        panic_text(line) is Some,
    ensures
        panic_events(line) == seq![
            EventView::PanicHeader {
                test_name: last_segment(thread_name(line)),
                location: panic_text(line).unwrap(),
            },
        ],
{
}

/// An input to a processor: a line, from stdout or stderr, or the end of
/// the input.
pub enum Input {
    Line(Seq<char>, bool),
    Flush,
}

/// The state of a processor after the inputs, in order.
pub open spec fn run(is_fuzz: bool, inputs: Seq<Input>) -> ProcessorView
    decreases inputs.len(),
{
    if inputs.len() == 0 {
        initial(is_fuzz)
    } else {
        let s = run(is_fuzz, inputs.drop_last());
        match inputs.last() {
            Input::Line(line, to_stderr) => step(s, line, to_stderr).0,
            Input::Flush => flush_step(s).0,
        }
    }
}

/// Every state a processor reaches, by any lines and flushes, is
/// consistent and keeps the fuzz mode it was made with.
pub proof fn law_every_reachable_state_is_consistent(is_fuzz: bool, inputs: Seq<Input>)
    ensures
        consistent(run(is_fuzz, inputs)),
        run(is_fuzz, inputs).is_fuzz == is_fuzz,
    decreases inputs.len(),
{
    if inputs.len() > 0 {
        law_every_reachable_state_is_consistent(is_fuzz, inputs.drop_last());
        let s = run(is_fuzz, inputs.drop_last());
        match inputs.last() {
            Input::Line(line, to_stderr) => {
                law_consistent(is_fuzz, s, line, to_stderr);
            },
            Input::Flush => {
                law_consistent(is_fuzz, s, Seq::empty(), false);
            },
        }
    } else {
        law_consistent(is_fuzz, initial(is_fuzz), Seq::empty(), false);
    }
}

/// The pieces joined with `"::"` between them.
pub open spec fn joined(ps: Seq<Seq<char>>) -> Seq<char>
    decreases ps.len(),
{
    if ps.len() <= 1 {
        if ps.len() == 1 {
            ps[0]
        } else {
            Seq::empty()
        }
    } else {
        ps[0] + seq![':', ':'] + joined(ps.drop_first())
    }
}

proof fn lemma_no_sep_is_last(s: Seq<char>)
    requires
        !contains(s, seq![':', ':']),
    ensures
        last_segment(s) == s,
{
    if s.len() >= 2 && s[0] == ':' && s[1] == ':' {
        assert(matches_at(s, seq![':', ':'], 0)) by {
            assert(s.subrange(0, 2) =~= seq![':', ':']);
        }
    } else if s.len() > 0 && contains(s.drop_first(), seq![':', ':']) {
        let j = choose|j: int| matches_at(s.drop_first(), seq![':', ':'], j);
        assert(s.subrange(j + 1, j + 3) =~= s.drop_first().subrange(j, j + 2));
        assert(matches_at(s, seq![':', ':'], j + 1));
    }
}

proof fn lemma_skip_piece(p: Seq<char>, rest: Seq<char>)
    requires
        !contains(p, seq![':', ':']),
        p.len() == 0 || p.last() != ':',
    ensures
        last_segment(p + seq![':', ':'] + rest) == last_segment(rest),
    decreases p.len(),
{
    let s = p + seq![':', ':'] + rest;
    if p.len() == 0 {
        assert(s.skip(2) =~= rest);
    } else {
        if p.len() >= 2 && p[0] == ':' && p[1] == ':' {
            assert(p.subrange(0, 2) =~= seq![':', ':']);
            assert(matches_at(p, seq![':', ':'], 0));
        }
        assert(!(s.len() >= 2 && s[0] == ':' && s[1] == ':'));
        assert(s.drop_first() =~= p.drop_first() + seq![':', ':'] + rest);
        let m = p.len() - 1;
        assert(s.drop_first().subrange(m, m + 2) =~= seq![':', ':']);
        assert(matches_at(s.drop_first(), seq![':', ':'], m));
        assert forall|j: int| !matches_at(p.drop_first(), seq![':', ':'], j) by {
            if matches_at(p.drop_first(), seq![':', ':'], j) {
                assert(p.subrange(j + 1, j + 3) =~= p.drop_first().subrange(j, j + 2));
                assert(matches_at(p, seq![':', ':'], j + 1));
            }
        }
        if p.drop_first().len() > 0 {
            assert(p.drop_first().last() == p.last());
        }
        lemma_skip_piece(p.drop_first(), rest);
    }
}

/// The test name of a panic header is the last piece of the thread name
/// split at `"::"`: for a name `p0::p1::...::pk` whose pieces hold no
/// `"::"` (and, but for the last, do not end with `':'`, which would move
/// where `"::"` is found), it is `pk`.
pub proof fn law_test_name_is_last_path_piece(ps: Seq<Seq<char>>)
    requires
        ps.len() > 0,
        forall|i: int| 0 <= i < ps.len() ==> !contains(#[trigger] ps[i], seq![':', ':']),
        forall|i: int| 0 <= i < ps.len() - 1 ==> (#[trigger] ps[i]).len() == 0 || ps[i].last() != ':',
    ensures
        last_segment(joined(ps)) == ps.last(),
    decreases ps.len(),
{
    if ps.len() == 1 {
        lemma_no_sep_is_last(ps[0]);
    } else {
        let rest = ps.drop_first();
        assert forall|i: int| 0 <= i < rest.len() implies !contains(#[trigger] rest[i], seq![':', ':']) by {
            assert(rest[i] == ps[i + 1]);
        }
        assert forall|i: int| 0 <= i < rest.len() - 1 implies (#[trigger] rest[i]).len() == 0
            || rest[i].last() != ':' by {
            assert(rest[i] == ps[i + 1]);
        }
        assert(!contains(ps[0], seq![':', ':']));
        assert(ps[0].len() == 0 || ps[0].last() != ':');
        law_test_name_is_last_path_piece(rest);
        lemma_skip_piece(ps[0], joined(rest));
        assert(rest.last() == ps.last());
    }
}

/// The test name of a panic header never holds `"::"`.
pub proof fn law_test_name_has_no_path_separator(s: Seq<char>)
    ensures
        !contains(last_segment(s), seq![':', ':']),
    decreases s.len(),
{
    if s.len() >= 2 && s[0] == ':' && s[1] == ':' {
        law_test_name_has_no_path_separator(s.skip(2));
    } else if s.len() == 0 || !contains(s.drop_first(), seq![':', ':']) {
        if s.len() > 0 && contains(s, seq![':', ':']) {
            let j = choose|j: int| matches_at(s, seq![':', ':'], j);
            if j == 0 {
                assert(s.subrange(0, 2)[0] == s[0]);
                assert(s.subrange(0, 2)[1] == s[1]);
            } else {
                assert(s.drop_first().subrange(j - 1, j + 1) =~= s.subrange(j, j + 2));
                assert(matches_at(s.drop_first(), seq![':', ':'], j - 1));
            }
        }
    } else {
        law_test_name_has_no_path_separator(s.drop_first());
    }
}

proof fn lemma_skip_white_exact(s: Seq<char>, i: int, k: int)
    requires
        0 <= i <= k <= s.len(),
        forall|j: int| i <= j < k ==> white(#[trigger] s[j]),
        k == s.len() || !white(s[k]),
    ensures
        skip_white(s, i) == k,
    decreases k - i,
{
    if i < k {
        lemma_skip_white_exact(s, i + 1, k);
    }
}

proof fn lemma_find_first(s: Seq<char>, p: Seq<char>, i: int, m: int)
    requires
        0 <= i <= m,
        matches_at(s, p, m),
        forall|j: int| i <= j < m ==> !#[trigger] matches_at(s, p, j),
    ensures
        find_from(s, p, i) == Some(m),
    decreases m - i,
{
    if i < m {
        lemma_find_first(s, p, i + 1, m);
    }
}

/// Every line made of leading white space, a decimal number that fits a
/// `usize`, `": "` and a name that is not blank once trimmed is a frame
/// header with that number and the trimmed name, whatever characters the
/// name holds.
pub proof fn law_frame_header_parses(
    indent: Seq<char>,
    digits: Seq<char>,
    name: Seq<char>,
)
    requires
        indent.len() > 0,
        forall|i: int| 0 <= i < indent.len() ==> white(#[trigger] indent[i]),
        digits.len() > 0,
        all_digits(digits),
        digits_value(digits) <= usize::MAX,
        trim(name).len() > 0,
    ensures
        frame_header(indent + digits + seq![':', ' '] + name) == Some(
            (digits_value(digits) as usize, trim(name)),
        ),
{
    reveal_strlit(": ");
    assert(": "@ =~= seq![':', ' ']);
    let line = indent + digits + seq![':', ' '] + name;
    let d = indent.len() as int;
    assert(line[d] == digits[0]);
    lemma_skip_white_exact(line, 0, d);
    let t = trim_start(line);
    assert(t =~= digits + seq![':', ' '] + name);
    let m = digits.len() as int;
    assert(t.subrange(m, m + 2) =~= seq![':', ' ']);
    assert forall|j: int| 0 <= j < m implies !#[trigger] matches_at(t, ": "@, j) by {
        if matches_at(t, ": "@, j) {
            assert(t.subrange(j, j + 2)[0] == t[j]);
            assert(t[j] == digits[j]);
        }
    }
    lemma_find_first(t, ": "@, 0, m);
    assert(t.take(m) =~= digits);
    assert(t.skip(m + 2) =~= name);
}

/// The decimal notation of a number reads back as that number, is made
/// of digits, and has no leading zero.
pub proof fn law_decimal_reads_back(n: nat)
    ensures
        decimal(n).len() > 0,
        all_digits(decimal(n)),
        digits_value(decimal(n)) == n,
        n > 0 ==> decimal(n)[0] != '0',
    decreases n,
{
    assert(((n % 10 + 48) as u8) as int == n % 10 + 48);
    assert(digit_char(n % 10) as int == n % 10 + 48);
    let c = digit_char(n % 10);
    if n < 10 {
        let d = decimal(n);
        assert(d.drop_last() =~= Seq::<char>::empty());
        assert(d.last() == c);
        assert(digits_value(d.drop_last()) == 0);
        assert(n % 10 == n);
        assert(digits_value(d) == digits_value(d.drop_last()) * 10 + ((d.last() as int - 48) as nat));
    } else {
        law_decimal_reads_back(n / 10);
        let d = decimal(n);
        assert(d.drop_last() =~= decimal(n / 10));
        assert(d.last() == c);
        assert(d[0] == decimal(n / 10)[0]);
        assert(digits_value(d) == digits_value(d.drop_last()) * 10 + ((d.last() as int - 48) as nat));
        assert((n / 10) * 10 + n % 10 == n) by (nonlinear_arith);
    }
}

/// The hidden-frames line of a backtrace, colours off, is
/// `"  ··· N stdlib/dependency frame(s) hidden"` with `N` the decimal
/// number of hidden frames, and `frame` in the plural unless it is one.
pub proof fn law_hidden_count_line(fs: Seq<FrameView>, hidden: nat)
    requires
        hidden > 0,
    ensures
        ({
            let lines = backtrace_lines(fs, hidden);
            &&& lines.len() >= 3
            &&& realize(lines[lines.len() - 3], false) == "  "@ + "···"@ + " "@ + decimal(hidden)
                + " stdlib/dependency frame"@ + (if hidden == 1 {
                ""@
            } else {
                "s"@
            }) + " hidden"@
        }),
{
    let lines = backtrace_lines(fs, hidden);
    let ps = hidden_line(hidden);
    assert(lines[lines.len() - 3] == ps);
    let plural = if hidden == 1 {
        ""@
    } else {
        "s"@
    };
    lemma_realize_front(ps, false);
    lemma_realize_front(ps.drop_first(), false);
    lemma_realize_front(ps.drop_first().drop_first(), false);
    lemma_realize_front(ps.drop_first().drop_first().drop_first(), false);
    lemma_realize_front(ps.drop_first().drop_first().drop_first().drop_first(), false);
    lemma_realize_front(ps.drop_first().drop_first().drop_first().drop_first().drop_first(), false);
    lemma_realize_front(
        ps.drop_first().drop_first().drop_first().drop_first().drop_first().drop_first(),
        false,
    );
    let e = ps.drop_first().drop_first().drop_first().drop_first().drop_first().drop_first().drop_first();
    assert(e =~= Seq::<Piece>::empty());
    assert(realize(e, false) == Seq::<char>::empty());
    assert(realize(ps, false) =~= "  "@ + "···"@ + " "@ + decimal(hidden)
        + " stdlib/dependency frame"@ + plural + " hidden"@);
}

/// In a fuzz run only a line that reads exactly `"Stack backtrace:"` once
/// trimmed (cargo-fuzz's closing line, upper-case `S`) silences the rest of
/// the run; no other line ever starts or ends that silence.
pub proof fn law_only_fuzz_closing_line_silences(
    s: ProcessorView,
    line: Seq<char>,
    to_stderr: bool,
)
    ensures
        step(s, line, to_stderr).0.in_fuzz_stack_backtrace == (s.in_fuzz_stack_backtrace || (
        s.is_fuzz && trim(line) == "Stack backtrace:"@)),
{
}

/// In a fuzz run the Rust panic's own lower-case `"stack backtrace:"` line
/// starts a backtrace as in any other run: from a state where nothing is
/// pending and no report is being silenced, it shows nothing and opens the
/// backtrace.
pub proof fn law_fuzz_run_reads_rust_backtrace(s: ProcessorView, to_stderr: bool)
    requires
        s.is_fuzz,
        idle(s),
        !s.in_fuzz_stack_backtrace,
        !s.in_asan_backtrace,
    ensures
        step(s, "stack backtrace:"@, to_stderr) == (
            ProcessorView { in_backtrace: true, last_was_blank: false, ..s },
            Seq::<EventView>::empty(),
        ),
{
    let line = "stack backtrace:"@;
    reveal_strlit("stack backtrace:");
    reveal_strlit("Stack backtrace:");
    reveal_strlit("artifact_prefix=");
    reveal_strlit("NOTE: libFuzzer");
    reveal_strlit("Combine libFuzzer");
    reveal_strlit("SUMMARY: libFuzzer");
    reveal_strlit("MS: ");
    reveal_strlit("Base64: ");
    reveal_strlit("Base64:");
    reveal_strlit("Minimize test case with:");
    reveal_strlit("cargo fuzz tmin");
    reveal_strlit("==");
    reveal_strlit("failures:");
    reveal_strlit("panicked at");
    lemma_skip_white_exact(line, 0, 0);
    assert(trim_start(line) =~= line);
    lemma_back_over_bounds(line, None, 0, line.len() as int);
    assert(!white(line[line.len() - 1]));
    assert(back_over(line, None, 0, line.len() as int) == line.len());
    assert(trim(line) =~= line);
    assert(line[0] == 's');
    assert(trim(line) != "Stack backtrace:"@) by {
        assert("Stack backtrace:"@[0] == 'S');
    }
    assert(!starts_with(line, "artifact_prefix="@)) by {
        assert(line.take(16)[0] == 's');
    }
    assert(!fuzz_noise(line)) by {
        assert(line.take(15)[0] == 's');
        assert(line.take(4)[0] == 's');
        assert(line.take(8)[0] == 's');
    }
    assert(!starts_with(line, "=="@)) by {
        assert(line.take(2)[0] == 's');
    }
    assert(trim(line) != "failures:"@);
    assert(!contains(line, "panicked at"@)) by {
        assert forall|j: int| !matches_at(line, "panicked at"@, j) by {
            if matches_at(line, "panicked at"@, j) {
                assert(line.subrange(j, j + 11)[0] == line[j]);
                assert(line[j] == 'p');
            }
        }
    }
}

proof fn lemma_no_dashes(args: Seq<Seq<char>>, i: int)
    requires
        0 <= i,
        forall|j: int| 0 <= j < args.len() ==> #[trigger] args[j] != "--"@,
    ensures
        dashes_from(args, i) is None,
    decreases args.len() - i,
{
    if i < args.len() {
        lemma_no_dashes(args, i + 1);
    }
}

/// A `cargo test` run whose arguments hold no `--` hands cargo all of the
/// user's arguments, in their order, after the toolchain and
/// `--color always`, and only then `--`, `--color`, `always` for the test
/// harness: no argument of the user's reaches the harness.
pub proof fn law_test_arguments_stay_with_cargo(args: Seq<Seq<char>>)
    requires
        subcommand(split_toolchain(args).1) == Some("test"@),
        forall|j: int| 0 <= j < args.len() ==> #[trigger] args[j] != "--"@,
    ensures
        args.len() > 0 && starts_with(args[0], "+"@) ==> cargo_command(args) == seq![args[0]]
            + color_always() + args.drop_first() + seq!["--"@] + color_always(),
        !(args.len() > 0 && starts_with(args[0], "+"@)) ==> cargo_command(args) == color_always()
            + args + seq!["--"@] + color_always(),
{
    let rest = split_toolchain(args).1;
    assert forall|j: int| 0 <= j < rest.len() implies #[trigger] rest[j] != "--"@ by {
        if args.len() > 0 && starts_with(args[0], "+"@) {
            assert(rest[j] == args[j + 1]);
        }
    }
    lemma_no_dashes(rest, 0);
    if args.len() > 0 && starts_with(args[0], "+"@) {
        assert(cargo_command(args) =~= seq![args[0]] + color_always() + args.drop_first()
            + seq!["--"@] + color_always());
    } else {
        assert(cargo_command(args) =~= color_always() + args + seq!["--"@] + color_always());
    }
}

/// Every frame header is such a line: leading white space, the decimal
/// number it gives, `": "`, and text whose trimmed form is the name it
/// gives, which is not empty.
pub proof fn law_frame_header_is_indented_number_and_name(line: Seq<char>)
    requires
        frame_header(line) is Some,
    ensures
        ({
            let (n, name) = frame_header(line).unwrap();
            exists|a: int, d: int|
                #![trigger line.subrange(a, d)]
                0 < a < d && d + 2 <= line.len() && (forall|i: int|
                    0 <= i < a ==> white(#[trigger] line[i])) && all_digits(line.subrange(a, d))
                    && digits_value(line.subrange(a, d)) == n && line.subrange(d, d + 2)
                    == seq![':', ' '] && name == trim(line.skip(d + 2)) && name.len() > 0
        }),
{
    reveal_strlit(": ");
    assert(": "@ =~= seq![':', ' ']);
    let a = skip_white(line, 0);
    lemma_skip_white_bounds(line, 0);
    let t = trim_start(line);
    lemma_find(t, ": "@);
    let sep = find(t, ": "@).unwrap();
    let d = a + sep;
    assert(line.subrange(a, d) =~= t.take(sep));
    assert(line.subrange(d, d + 2) =~= t.subrange(sep, sep + 2));
    assert(line.skip(d + 2) =~= t.skip(sep + 2));
}

/// A line that does not start with white space is never a frame header.
pub proof fn law_frame_header_needs_indent(line: Seq<char>)
    requires
        line.len() == 0 || !white(line[0]),
    ensures
        frame_header(line) is None,
{
    lemma_skip_white_exact(line, 0, 0);
}

} // verus!
