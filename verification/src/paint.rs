//! Terminal colours. Text is painted through the `colored` crate. Whether
//! colours are on is read once, through [`colors_enabled`], from what
//! `colored` decides from the environment (`NO_COLOR`, `CLICOLOR`,
//! `CLICOLOR_FORCE`, whether stdout is a terminal); every function that
//! paints takes that decision as an argument, and paints exactly by it.

use vstd::prelude::*;
use colored::Colorize;
use crate::text::{chars_of, ends_with, region_ends_with, region_starts_with, starts_with};

verus! {

/// The colour and emphasis combinations this tool paints with.
#[derive(Clone, Copy, PartialEq, Eq, Structural)]
pub enum Style {
    Green,
    Yellow,
    BrightRed,
    BoldBrightRed,
    BrightWhite,
    BoldBrightWhite,
    BrightYellow,
    BrightBlue,
    BrightBlack,
    ItalicBrightBlack,
}

/// A select-graphic-rendition escape sequence `ESC [ params m`.
pub open spec fn sgr(params: Seq<char>) -> Seq<char> {
    seq!['\u{1b}', '['] + params + seq!['m']
}

/// The sequence that ends any styling.
pub open spec fn reset() -> Seq<char> {
    sgr(seq!['0'])
}

/// The escape sequence `colored` writes before text of the given style:
/// the emphasis code, if any, then `;` and the foreground colour code.
pub open spec fn style_code(s: Style) -> Seq<char> {
    sgr(style_params(s))
}

/// The parameters of a style's escape sequence.
pub open spec fn style_params(s: Style) -> Seq<char> {
    match s {
        Style::Green => seq!['3', '2'],
        Style::Yellow => seq!['3', '3'],
        Style::BrightRed => seq!['9', '1'],
        Style::BoldBrightRed => seq!['1', ';', '9', '1'],
        Style::BrightWhite => seq!['9', '7'],
        Style::BoldBrightWhite => seq!['1', ';', '9', '7'],
        Style::BrightYellow => seq!['9', '3'],
        Style::BrightBlue => seq!['9', '4'],
        Style::BrightBlack => seq!['9', '0'],
        Style::ItalicBrightBlack => seq!['3', ';', '9', '0'],
    }
}

/// `text` with `code` inserted after every reset sequence in it, so that
/// styling resumes after text that was itself painted.
pub open spec fn restyled(text: Seq<char>, code: Seq<char>) -> Seq<char>
    decreases text.len(),
{
    if text.len() == 0 {
        text
    } else if starts_with(text, reset()) {
        reset() + code + restyled(text.skip(4), code)
    } else {
        seq![text[0]] + restyled(text.drop_first(), code)
    }
}

/// Painted text, as written once colours are on.
pub open spec fn in_color(text: Seq<char>, s: Style) -> Seq<char> {
    style_code(s) + restyled(text, style_code(s)) + reset()
}

/// `text` painted in style `s`: plain where colours are off, wrapped in
/// the style's escape sequence where they are on.
pub open spec fn painting(text: Seq<char>, s: Style, colors: bool) -> Seq<char> {
    if colors {
        in_color(text, s)
    } else {
        text
    }
}

/// A part of an output line: fixed text, or text painted in a style.
pub enum Piece {
    Plain(Seq<char>),
    Paint(Seq<char>, Style),
}

/// The text of a piece, with colours off or on.
pub open spec fn piece_text(p: Piece, colored: bool) -> Seq<char> {
    match p {
        Piece::Plain(t) => t,
        Piece::Paint(t, s) => if colored {
            in_color(t, s)
        } else {
            t
        },
    }
}

/// The text of a line of pieces, with colours off or on.
pub open spec fn realize(ps: Seq<Piece>, colors: bool) -> Seq<char>
    decreases ps.len(),
{
    if ps.len() == 0 {
        Seq::empty()
    } else {
        realize(ps.drop_last(), colors) + piece_text(ps.last(), colors)
    }
}

/// Trusted: `colored::control::SHOULD_COLORIZE.should_colorize()`, the
/// decision `colored` takes from the environment (or from the last
/// `set_override`). Nothing is claimed of the result.
#[verifier::external_body]
fn should_colorize() -> bool {
    colored::control::SHOULD_COLORIZE.should_colorize()
}

/// Whether colours are on, as `colored` decides from the environment. To
/// be read once, before anything is painted.
pub fn colors_enabled() -> bool {
    should_colorize()
}

/// Trusted: sets `colored`'s colour switch to `colors`
/// (`colored::control::set_override`), then `format!("{}", text.green())`.
/// With the switch off, `colored`'s `Display` writes the text unchanged;
/// with it on, the style's escape sequence, the text with the style
/// re-applied after each reset sequence in it, and a reset. The contract
/// assumes no other thread sets the switch to another value while the call
/// runs.
#[verifier::external_body]
fn paint_green(text: &str, colors: bool) -> (r: String)
    ensures
        r@ == painting(text@, Style::Green, colors),
{
    colored::control::set_override(colors);
    format!("{}", text.green())
}

/// Trusted: as [`paint_green`], with `text.yellow()`.
#[verifier::external_body]
fn paint_yellow(text: &str, colors: bool) -> (r: String)
    ensures
        r@ == painting(text@, Style::Yellow, colors),
{
    colored::control::set_override(colors);
    format!("{}", text.yellow())
}

/// Trusted: as [`paint_green`], with `text.bright_red()`.
#[verifier::external_body]
fn paint_bright_red(text: &str, colors: bool) -> (r: String)
    ensures
        r@ == painting(text@, Style::BrightRed, colors),
{
    colored::control::set_override(colors);
    format!("{}", text.bright_red())
}

/// Trusted: as [`paint_green`], with `text.bright_red().bold()`.
#[verifier::external_body]
fn paint_bold_bright_red(text: &str, colors: bool) -> (r: String)
    ensures
        r@ == painting(text@, Style::BoldBrightRed, colors),
{
    colored::control::set_override(colors);
    format!("{}", text.bright_red().bold())
}

/// Trusted: as [`paint_green`], with `text.bright_white()`.
#[verifier::external_body]
fn paint_bright_white(text: &str, colors: bool) -> (r: String)
    ensures
        r@ == painting(text@, Style::BrightWhite, colors),
{
    colored::control::set_override(colors);
    format!("{}", text.bright_white())
}

/// Trusted: as [`paint_green`], with `text.bright_white().bold()`.
#[verifier::external_body]
fn paint_bold_bright_white(text: &str, colors: bool) -> (r: String)
    ensures
        r@ == painting(text@, Style::BoldBrightWhite, colors),
{
    colored::control::set_override(colors);
    format!("{}", text.bright_white().bold())
}

/// Trusted: as [`paint_green`], with `text.bright_yellow()`.
#[verifier::external_body]
fn paint_bright_yellow(text: &str, colors: bool) -> (r: String)
    ensures
        r@ == painting(text@, Style::BrightYellow, colors),
{
    colored::control::set_override(colors);
    format!("{}", text.bright_yellow())
}

/// Trusted: as [`paint_green`], with `text.bright_blue()`.
#[verifier::external_body]
fn paint_bright_blue(text: &str, colors: bool) -> (r: String)
    ensures
        r@ == painting(text@, Style::BrightBlue, colors),
{
    colored::control::set_override(colors);
    format!("{}", text.bright_blue())
}

/// Trusted: as [`paint_green`], with `text.bright_black()`.
#[verifier::external_body]
fn paint_bright_black(text: &str, colors: bool) -> (r: String)
    ensures
        r@ == painting(text@, Style::BrightBlack, colors),
{
    colored::control::set_override(colors);
    format!("{}", text.bright_black())
}

/// Trusted: as [`paint_green`], with `text.bright_black().italic()`.
#[verifier::external_body]
fn paint_italic_bright_black(text: &str, colors: bool) -> (r: String)
    ensures
        r@ == painting(text@, Style::ItalicBrightBlack, colors),
{
    colored::control::set_override(colors);
    format!("{}", text.bright_black().italic())
}

/// Paints `text` in style `s`, with colours on or off as `colors` says.
pub fn paint(text: &str, s: Style, colors: bool) -> (r: String)
    ensures
        r@ == painting(text@, s, colors),
{
    match s {
        Style::Green => paint_green(text, colors),
        Style::Yellow => paint_yellow(text, colors),
        Style::BrightRed => paint_bright_red(text, colors),
        Style::BoldBrightRed => paint_bold_bright_red(text, colors),
        Style::BrightWhite => paint_bright_white(text, colors),
        Style::BoldBrightWhite => paint_bold_bright_white(text, colors),
        Style::BrightYellow => paint_bright_yellow(text, colors),
        Style::BrightBlue => paint_bright_blue(text, colors),
        Style::BrightBlack => paint_bright_black(text, colors),
        Style::ItalicBrightBlack => paint_italic_bright_black(text, colors),
    }
}

/// An output line under construction, with the pieces it was made of.
pub struct LineBuilder {
    text: String,
    pieces: Ghost<Seq<Piece>>,
    colors: bool,
}

impl LineBuilder {
    pub closed spec fn pieces(&self) -> Seq<Piece> {
        self.pieces@
    }

    pub closed spec fn colors(&self) -> bool {
        self.colors
    }

    pub closed spec fn wf(&self) -> bool {
        self.text@ == realize(self.pieces@, self.colors)
    }

    pub fn new(colors: bool) -> (b: Self)
        ensures
            b.wf(),
            b.pieces() == Seq::<Piece>::empty(),
            b.colors() == colors,
    {
        LineBuilder { text: String::new(), pieces: Ghost(Seq::empty()), colors }
    }

    proof fn lemma_push(ps: Seq<Piece>, p: Piece, colors: bool)
        ensures
            realize(ps.push(p), colors) == realize(ps, colors) + piece_text(p, colors),
    {
        assert(ps.push(p).drop_last() =~= ps);
    }

    /// Appends fixed text.
    pub fn plain(&mut self, t: &str)
        requires
            old(self).wf(),
        ensures
            final(self).wf(),
            final(self).colors() == old(self).colors(),
            final(self).pieces() == old(self).pieces().push(Piece::Plain(t@)),
    {
        proof {
            Self::lemma_push(self.pieces@, Piece::Plain(t@), self.colors);
        }
        self.text.append(t);
        self.pieces = Ghost(self.pieces@.push(Piece::Plain(t@)));
    }

    /// Appends `t` painted in style `s`.
    pub fn painted(&mut self, t: &str, s: Style)
        requires
            old(self).wf(),
        ensures
            final(self).wf(),
            final(self).colors() == old(self).colors(),
            final(self).pieces() == old(self).pieces().push(Piece::Paint(t@, s)),
    {
        let r = paint(t, s, self.colors);
        proof {
            Self::lemma_push(self.pieces@, Piece::Paint(t@, s), self.colors);
        }
        self.text.append(r.as_str());
        self.pieces = Ghost(self.pieces@.push(Piece::Paint(t@, s)));
    }

    /// The finished line.
    pub fn finish(self) -> (r: String)
        requires
            self.wf(),
        ensures
            r@ == realize(self.pieces(), self.colors()),
    {
        self.text
    }
}

/// The pieces of a test harness line once colours are re-applied: the
/// result word of `"name ... ok"`, `"... FAILED"` and `"... ignored"`, and of
/// the `"test result: ok"` and `"test result: FAILED"` summary.
pub open spec fn test_line_pieces(line: Seq<char>) -> Seq<Piece> {
    if ends_with(line, " ... ok"@) {
        seq![
            Piece::Plain(line.take(line.len() - " ... ok"@.len())),
            Piece::Plain(" ... "@),
            Piece::Paint("ok"@, Style::Green),
        ]
    } else if ends_with(line, " ... FAILED"@) {
        seq![
            Piece::Plain(line.take(line.len() - " ... FAILED"@.len())),
            Piece::Plain(" ... "@),
            Piece::Paint("FAILED"@, Style::BoldBrightRed),
        ]
    } else if ends_with(line, " ... ignored"@) {
        seq![
            Piece::Plain(line.take(line.len() - " ... ignored"@.len())),
            Piece::Plain(" ... "@),
            Piece::Paint("ignored"@, Style::Yellow),
        ]
    } else if starts_with(line, "test result: ok"@) {
        seq![
            Piece::Plain("test result: "@),
            Piece::Paint("ok"@, Style::Green),
            Piece::Plain(line.skip("test result: ok"@.len() as int)),
        ]
    } else if starts_with(line, "test result: FAILED"@) {
        seq![
            Piece::Plain("test result: "@),
            Piece::Paint("FAILED"@, Style::BoldBrightRed),
            Piece::Plain(line.skip("test result: FAILED"@.len() as int)),
        ]
    } else {
        seq![Piece::Plain(line)]
    }
}

/// The text of the characters `lo..hi` of `v`, where `v` holds the
/// characters of `line`.
fn part_of(line: &str, v: &Vec<char>, lo: usize, hi: usize) -> (r: String)
    requires
        v@ == line@,
        lo <= hi <= v@.len(),
    ensures
        r@ == line@.subrange(lo as int, hi as int),
{
    crate::text::text_of(&crate::text::slice_vec(v, lo, hi))
}

/// Re-applies the colours that the test harness leaves out when its
/// output is a pipe; `colors` says whether colours are on.
pub fn colorize_test_line(line: &str, colors: bool) -> (r: String)
    ensures
        r@ == realize(test_line_pieces(line@), colors),
{
    let v = chars_of(line);
    let n = v.len();
    assert(v@.subrange(0, n as int) =~= v@);
    let mut b = LineBuilder::new(colors);
    if region_ends_with(&v, 0, n, " ... ok") {
        proof {
            reveal_strlit(" ... ok");
        }
        b.plain(part_of(line, &v, 0, n - 7).as_str());
        b.plain(" ... ");
        b.painted("ok", Style::Green);
    } else if region_ends_with(&v, 0, n, " ... FAILED") {
        proof {
            reveal_strlit(" ... FAILED");
        }
        b.plain(part_of(line, &v, 0, n - 11).as_str());
        b.plain(" ... ");
        b.painted("FAILED", Style::BoldBrightRed);
    } else if region_ends_with(&v, 0, n, " ... ignored") {
        proof {
            reveal_strlit(" ... ignored");
        }
        b.plain(part_of(line, &v, 0, n - 12).as_str());
        b.plain(" ... ");
        b.painted("ignored", Style::Yellow);
    } else if region_starts_with(&v, 0, n, "test result: ok") {
        proof {
            reveal_strlit("test result: ok");
        }
        b.plain("test result: ");
        b.painted("ok", Style::Green);
        b.plain(part_of(line, &v, 15, n).as_str());
    } else if region_starts_with(&v, 0, n, "test result: FAILED") {
        proof {
            reveal_strlit("test result: FAILED");
        }
        b.plain("test result: ");
        b.painted("FAILED", Style::BoldBrightRed);
        b.plain(part_of(line, &v, 19, n).as_str());
    } else {
        b.plain(line);
    }
    let ghost ps = b.pieces();
    assert(ps =~= test_line_pieces(line@));
    b.finish()
}

} // verus!
