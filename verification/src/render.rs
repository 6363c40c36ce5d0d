//! What is printed for the events of the processor: the lines passed on,
//! the panic header and message, and the framed backtrace of the user's
//! frames, each line stated as the pieces it is made of.

use vstd::prelude::*;
use crate::text::{decimal, decimal_chars, text_of};
use crate::frames::{frames_view, Frame, FrameView};
use crate::paint::{colorize_test_line, realize, test_line_pieces, LineBuilder, Piece, Style};
use crate::processor::{events_view, flush_step, step, BacktraceProcessor, Event, EventView};

verus! {

/// A line to print, and whether it goes to stderr.
pub struct Output {
    pub text: String,
    pub to_stderr: bool,
}

/// The value of an [`Output`].
pub struct OutputView {
    pub text: Seq<char>,
    pub to_stderr: bool,
}

impl View for Output {
    type V = OutputView;

    open spec fn view(&self) -> OutputView {
        OutputView { text: self.text@, to_stderr: self.to_stderr }
    }
}

pub open spec fn outputs_view(v: Seq<Output>) -> Seq<OutputView> {
    v.map_values(|o: Output| o@)
}

pub open spec fn strings_view(v: Seq<String>) -> Seq<Seq<char>> {
    v.map_values(|s: String| s@)
}

/// Each text is the line of pieces at the same place, with colours on or
/// off as `colors` says.
pub open spec fn lines_fit(texts: Seq<Seq<char>>, lines: Seq<Seq<Piece>>, colors: bool) -> bool {
    &&& texts.len() == lines.len()
    &&& forall|i: int| 0 <= i < texts.len() ==> #[trigger] texts[i] == realize(lines[i], colors)
}

/// The rule above a backtrace.
pub open spec fn rule_top() -> Seq<char> {
    "━━━ Your Code ━━━━━━━━━━━━━━━━━━━━━━━━━━━━━━━━━━━━━"@
}

/// The rule below a backtrace.
pub open spec fn rule_bottom() -> Seq<char> {
    "━━━━━━━━━━━━━━━━━━━━━━━━━━━━━━━━━━━━━━━━━━━━━━━━━━━"@
}

/// The arrow that points down from the most recent call.
pub open spec fn arrow_down() -> Seq<Seq<char>> {
    seq!["   ||"@, "   ||"@, "   ||"@, "\\______/"@, " \\    /"@, "  \\  /"@, "   \\/"@]
}

/// The arrow that points up to the oldest call.
pub open spec fn arrow_up() -> Seq<Seq<char>> {
    seq!["   /\\"@, "  /  \\"@, " /    \\"@, "/______\\"@, "   ||"@, "   ||"@, "   ||"@]
}

/// Indented lines of dim text.
pub open spec fn dim_lines(texts: Seq<Seq<char>>) -> Seq<Seq<Piece>> {
    texts.map_values(|t: Seq<char>| seq![Piece::Plain("  "@), Piece::Paint(t, Style::BrightBlack)])
}

/// An indented line of text in dim italics.
pub open spec fn note_line(t: Seq<char>) -> Seq<Piece> {
    seq![Piece::Plain("  "@), Piece::Paint(t, Style::ItalicBrightBlack)]
}

/// The lines of one frame: `#N name`, then `at file` where it has one.
pub open spec fn one_frame_lines(f: FrameView) -> Seq<Seq<Piece>> {
    seq![
        seq![
            Piece::Plain("  "@),
            Piece::Paint(seq!['#'] + decimal(f.index as nat), Style::BrightBlack),
            Piece::Plain(" "@),
            Piece::Paint(f.name, Style::BrightWhite),
        ],
    ] + match f.file {
        Some(file) => seq![
            seq![
                Piece::Plain("       "@),
                Piece::Paint("at"@, Style::BrightBlack),
                Piece::Plain(" "@),
                Piece::Paint(file, Style::BrightYellow),
            ],
        ],
        None => Seq::empty(),
    }
}

/// The lines of the frames, most recent first.
pub open spec fn frame_lines(fs: Seq<FrameView>) -> Seq<Seq<Piece>>
    decreases fs.len(),
{
    if fs.len() == 0 {
        Seq::empty()
    } else {
        frame_lines(fs.drop_last()) + one_frame_lines(fs.last())
    }
}

/// `··· N stdlib/dependency frame(s) hidden`.
pub open spec fn hidden_line(hidden: nat) -> Seq<Piece> {
    seq![
        Piece::Plain("  "@),
        Piece::Paint("···"@, Style::BrightBlack),
        Piece::Plain(" "@),
        Piece::Paint(decimal(hidden), Style::Yellow),
        Piece::Plain(" stdlib/dependency frame"@),
        Piece::Plain(
            if hidden == 1 {
                ""@
            } else {
                "s"@
            },
        ),
        Piece::Plain(" hidden"@),
    ]
}

/// The framed backtrace of the user's frames and the count of the hidden
/// ones.
pub open spec fn backtrace_lines(fs: Seq<FrameView>, hidden: nat) -> Seq<Seq<Piece>> {
    seq![Seq::empty(), seq![Piece::Paint(rule_top(), Style::BrightBlue)], Seq::empty()] + (if fs.len()
        == 0 {
        seq![
            seq![
                Piece::Plain("  "@),
                Piece::Paint("(no user-code frames found in backtrace)"@, Style::BrightBlack),
            ],
        ]
    } else {
        seq![note_line("most recent call"@)] + dim_lines(arrow_down()) + frame_lines(fs) + dim_lines(
            arrow_up(),
        ) + seq![note_line("oldest call"@)]
    }) + seq![Seq::empty()] + (if hidden > 0 {
        seq![hidden_line(hidden)]
    } else {
        Seq::empty()
    }) + seq![seq![Piece::Paint(rule_bottom(), Style::BrightBlue)], Seq::empty()]
}

/// `Test <name> panicked at <location>`.
pub open spec fn header_pieces(test_name: Seq<char>, location: Seq<char>) -> Seq<Piece> {
    seq![
        Piece::Paint("Test"@, Style::BoldBrightRed),
        Piece::Plain(" "@),
        Piece::Paint(test_name, Style::BoldBrightWhite),
        Piece::Plain(" "@),
        Piece::Paint("panicked at"@, Style::BrightRed),
        Piece::Plain(" "@),
        Piece::Paint(location, Style::BrightYellow),
    ]
}

/// The lines printed for an event.
pub open spec fn event_lines(e: EventView) -> Seq<Seq<Piece>> {
    match e {
        EventView::Line { text, to_stderr: _ } => seq![test_line_pieces(text)],
        EventView::PanicHeader { test_name, location } => seq![header_pieces(test_name, location)],
        EventView::PanicMessage { text } => seq![seq![Piece::Paint(text, Style::BoldBrightWhite)]],
        EventView::Backtrace { frames, hidden } => backtrace_lines(frames, hidden),
    }
}

/// Whether an event is printed to stderr: passed-on lines go where they
/// came from, all else to stdout.
pub open spec fn event_to_stderr(e: EventView) -> bool {
    match e {
        EventView::Line { text: _, to_stderr } => to_stderr,
        _ => false,
    }
}

/// The outputs of one event.
pub open spec fn event_shown(outs: Seq<OutputView>, e: EventView, colors: bool) -> bool {
    &&& lines_fit(outs.map_values(|o: OutputView| o.text), event_lines(e), colors)
    &&& forall|i: int| 0 <= i < outs.len() ==> (#[trigger] outs[i]).to_stderr == event_to_stderr(e)
}

/// The outputs of a sequence of events, in order.
pub open spec fn shown(outs: Seq<OutputView>, evs: Seq<EventView>, colors: bool) -> bool
    decreases evs.len(),
{
    if evs.len() == 0 {
        outs.len() == 0
    } else {
        let k = event_lines(evs.last()).len();
        &&& k <= outs.len()
        &&& shown(outs.take(outs.len() - k), evs.drop_last(), colors)
        &&& event_shown(outs.skip(outs.len() - k), evs.last(), colors)
    }
}

/// Lines under construction, with the pieces each was made of.
struct Lines {
    texts: Vec<String>,
    lines: Ghost<Seq<Seq<Piece>>>,
    colors: bool,
}

impl Lines {
    closed spec fn wf(&self) -> bool {
        lines_fit(strings_view(self.texts@), self.lines@, self.colors)
    }

    closed spec fn lines(&self) -> Seq<Seq<Piece>> {
        self.lines@
    }

    fn new(colors: bool) -> (r: Self)
        ensures
            r.wf(),
            r.lines() == Seq::<Seq<Piece>>::empty(),
            r.colors == colors,
    {
        let r = Lines { texts: Vec::new(), lines: Ghost(Seq::empty()), colors };
        assert(strings_view(r.texts@) =~= Seq::<Seq<char>>::empty());
        r
    }

    fn add(&mut self, b: LineBuilder)
        requires
            old(self).wf(),
            b.wf(),
            b.colors() == old(self).colors,
        ensures
            final(self).wf(),
            final(self).colors == old(self).colors,
            final(self).lines() == old(self).lines().push(b.pieces()),
    {
        let ghost ps = b.pieces();
        let t = b.finish();
        let ghost before = self.texts@;
        self.texts.push(t);
        self.lines = Ghost(self.lines@.push(ps));
        assert(strings_view(self.texts@) =~= strings_view(before).push(t@));
        assert forall|i: int| 0 <= i < strings_view(self.texts@).len() implies #[trigger] strings_view(
            self.texts@,
        )[i] == realize(self.lines@[i], self.colors) by {
            if i < before.len() {
                assert(strings_view(self.texts@)[i] == strings_view(before)[i]);
            }
        }
    }

    fn blank(&mut self)
        requires
            old(self).wf(),
        ensures
            final(self).wf(),
            final(self).colors == old(self).colors,
            final(self).lines() == old(self).lines().push(Seq::<Piece>::empty()),
    {
        let b = LineBuilder::new(self.colors);
        self.add(b);
    }

    /// An indented line of `t` painted in style `s`.
    fn styled(&mut self, t: &str, s: Style)
        requires
            old(self).wf(),
        ensures
            final(self).wf(),
            final(self).colors == old(self).colors,
            final(self).lines() == old(self).lines().push(
                seq![Piece::Plain("  "@), Piece::Paint(t@, s)],
            ),
    {
        let mut b = LineBuilder::new(self.colors);
        b.plain("  ");
        b.painted(t, s);
        assert(b.pieces() =~= seq![Piece::Plain("  "@), Piece::Paint(t@, s)]);
        self.add(b);
    }

    /// Dim lines, one for each text.
    fn dim_block(&mut self, texts: &Vec<&str>)
        requires
            old(self).wf(),
        ensures
            final(self).wf(),
            final(self).colors == old(self).colors,
            final(self).lines() == old(self).lines() + dim_lines(
                texts@.map_values(|t: &str| t@),
            ),
    {
        let ghost ts = texts@.map_values(|t: &str| t@);
        let mut i: usize = 0;
        while i < texts.len()
            invariant
                i <= texts@.len(),
                ts == texts@.map_values(|t: &str| t@),
                self.wf(),
                self.colors == old(self).colors,
                self.lines() == old(self).lines() + dim_lines(ts.take(i as int)),
            decreases texts@.len() - i,
        {
            self.styled(texts[i], Style::BrightBlack);
            assert(dim_lines(ts.take(i + 1)) =~= dim_lines(ts.take(i as int)).push(
                seq![Piece::Plain("  "@), Piece::Paint(ts[i as int], Style::BrightBlack)],
            ));
            i = i + 1;
        }
        assert(ts.take(texts@.len() as int) =~= ts);
    }

    fn finish(self) -> (r: Vec<String>)
        requires
            self.wf(),
        ensures
            lines_fit(strings_view(r@), self.lines(), self.colors),
    {
        self.texts
    }
}

/// The lines of one frame.
fn add_frame(out: &mut Lines, f: &Frame)
    requires
        old(out).wf(),
    ensures
        final(out).wf(),
        final(out).colors == old(out).colors,
        final(out).lines() == old(out).lines() + one_frame_lines(f@),
{
    let mut num = Vec::new();
    num.push('#');
    let mut digits = decimal_chars(f.index);
    num.append(&mut digits);
    let label = text_of(&num);
    assert(label@ =~= seq!['#'] + decimal(f.index as nat));
    let mut b = LineBuilder::new(out.colors);
    b.plain("  ");
    b.painted(label.as_str(), Style::BrightBlack);
    b.plain(" ");
    b.painted(f.name.as_str(), Style::BrightWhite);
    let ghost first = b.pieces();
    out.add(b);
    match &f.file {
        Some(file) => {
            let mut c = LineBuilder::new(out.colors);
            c.plain("       ");
            c.painted("at", Style::BrightBlack);
            c.plain(" ");
            c.painted(file.as_str(), Style::BrightYellow);
            let ghost second = c.pieces();
            out.add(c);
            assert(second =~= seq![
                Piece::Plain("       "@),
                Piece::Paint("at"@, Style::BrightBlack),
                Piece::Plain(" "@),
                Piece::Paint(file@, Style::BrightYellow),
            ]);
            assert(first =~= one_frame_lines(f@)[0]);
            assert(one_frame_lines(f@) =~= seq![first, second]);
            assert(out.lines() =~= old(out).lines() + seq![first, second]);
        },
        None => {
            assert(first =~= one_frame_lines(f@)[0]);
            assert(one_frame_lines(f@) =~= seq![first]);
            assert(out.lines() =~= old(out).lines() + seq![first]);
        },
    }
}

/// The framed backtrace of the user's frames, with the count of the
/// frames hidden, one string per printed line.
pub fn print_pretty_backtrace(user_frames: &Vec<Frame>, hidden: usize, colors: bool) -> (r: Vec<
    String,
>)
    ensures
        lines_fit(
            strings_view(r@),
            backtrace_lines(frames_view(user_frames@), hidden as nat),
            colors,
        ),
{
    let ghost fs = frames_view(user_frames@);
    let mut out = Lines::new(colors);
    out.blank();
    let mut b = LineBuilder::new(colors);
    b.painted("━━━ Your Code ━━━━━━━━━━━━━━━━━━━━━━━━━━━━━━━━━━━━━", Style::BrightBlue);
    out.add(b);
    out.blank();
    let ghost head = out.lines();
    if user_frames.len() == 0 {
        out.styled("(no user-code frames found in backtrace)", Style::BrightBlack);
    } else {
        out.styled("most recent call", Style::ItalicBrightBlack);
        let down = vec!["   ||", "   ||", "   ||", "\\______/", " \\    /", "  \\  /", "   \\/"];
        assert(down@.map_values(|t: &str| t@) =~= arrow_down());
        out.dim_block(&down);
        let ghost before_frames = out.lines();
        let mut i: usize = 0;
        while i < user_frames.len()
            invariant
                i <= user_frames@.len(),
                fs == frames_view(user_frames@),
                out.wf(),
                out.colors == colors,
                out.lines() == before_frames + frame_lines(fs.take(i as int)),
            decreases user_frames@.len() - i,
        {
            add_frame(&mut out, &user_frames[i]);
            assert(fs.take(i + 1).drop_last() =~= fs.take(i as int));
            assert(fs.take(i + 1).last() == user_frames@[i as int]@);
            assert(out.lines() =~= before_frames + frame_lines(fs.take(i + 1)));
            i = i + 1;
        }
        assert(fs.take(user_frames@.len() as int) =~= fs);
        let up = vec!["   /\\", "  /  \\", " /    \\", "/______\\", "   ||", "   ||", "   ||"];
        assert(up@.map_values(|t: &str| t@) =~= arrow_up());
        out.dim_block(&up);
        out.styled("oldest call", Style::ItalicBrightBlack);
    }
    let ghost middle = out.lines();
    out.blank();
    if hidden > 0 {
        let count = text_of(&decimal_chars(hidden));
        let mut h = LineBuilder::new(colors);
        h.plain("  ");
        h.painted("···", Style::BrightBlack);
        h.plain(" ");
        h.painted(count.as_str(), Style::Yellow);
        h.plain(" stdlib/dependency frame");
        h.plain(
            if hidden == 1 {
                ""
            } else {
                "s"
            },
        );
        h.plain(" hidden");
        assert(h.pieces() =~= hidden_line(hidden as nat));
        out.add(h);
    }
    let mut e = LineBuilder::new(colors);
    e.painted("━━━━━━━━━━━━━━━━━━━━━━━━━━━━━━━━━━━━━━━━━━━━━━━━━━━", Style::BrightBlue);
    out.add(e);
    out.blank();
    assert(out.lines() =~= backtrace_lines(fs, hidden as nat));
    out.finish()
}

/// Passes a line on to stdout or stderr, with the test harness's colours
/// re-applied.
pub fn emit(line: &str, is_stderr: bool, colors: bool) -> (r: Output)
    ensures
        r.text@ == realize(test_line_pieces(line@), colors),
        r.to_stderr == is_stderr,
{
    Output { text: colorize_test_line(line, colors), to_stderr: is_stderr }
}

/// One output for each string, all to the same stream.
fn outputs_of(texts: &Vec<String>, to_stderr: bool) -> (r: Vec<Output>)
    ensures
        outputs_view(r@).map_values(|o: OutputView| o.text) == strings_view(texts@),
        forall|i: int| 0 <= i < r@.len() ==> (#[trigger] r@[i]).to_stderr == to_stderr,
{
    let mut r: Vec<Output> = Vec::new();
    let mut i: usize = 0;
    while i < texts.len()
        invariant
            i <= texts@.len(),
            r@.len() == i,
            outputs_view(r@).map_values(|o: OutputView| o.text) == strings_view(texts@).take(
                i as int,
            ),
            forall|j: int| 0 <= j < r@.len() ==> (#[trigger] r@[j]).to_stderr == to_stderr,
        decreases texts@.len() - i,
    {
        let ghost before = r@;
        let o = Output { text: texts[i].clone(), to_stderr };
        let ghost ov = o@;
        assert(ov.text == strings_view(texts@)[i as int]);
        r.push(o);
        assert(outputs_view(r@) =~= outputs_view(before).push(ov));
        assert(outputs_view(r@).map_values(|o: OutputView| o.text) =~= outputs_view(before).map_values(
            |o: OutputView| o.text,
        ).push(ov.text));
        assert(strings_view(texts@).take(i + 1) =~= strings_view(texts@).take(i as int).push(
            ov.text,
        ));
        i = i + 1;
    }
    assert(strings_view(texts@).take(texts@.len() as int) =~= strings_view(texts@));
    r
}

/// The output lines of one event.
pub fn render_event(e: &Event, colors: bool) -> (r: Vec<Output>)
    ensures
        event_shown(outputs_view(r@), e@, colors),
{
    match e {
        Event::Line { text, to_stderr } => {
            let o = emit(text.as_str(), *to_stderr, colors);
            let mut r: Vec<Output> = Vec::new();
            r.push(o);
            assert(outputs_view(r@).map_values(|o: OutputView| o.text) =~= seq![o.text@]);
            r
        },
        Event::PanicHeader { test_name, location } => {
            let mut b = LineBuilder::new(colors);
            b.painted("Test", Style::BoldBrightRed);
            b.plain(" ");
            b.painted(test_name.as_str(), Style::BoldBrightWhite);
            b.plain(" ");
            b.painted("panicked at", Style::BrightRed);
            b.plain(" ");
            b.painted(location.as_str(), Style::BrightYellow);
            assert(b.pieces() =~= header_pieces(test_name@, location@));
            let t = b.finish();
            let mut r: Vec<Output> = Vec::new();
            r.push(Output { text: t, to_stderr: false });
            assert(outputs_view(r@).map_values(|o: OutputView| o.text) =~= seq![t@]);
            r
        },
        Event::PanicMessage { text } => {
            let mut b = LineBuilder::new(colors);
            b.painted(text.as_str(), Style::BoldBrightWhite);
            assert(b.pieces() =~= seq![Piece::Paint(text@, Style::BoldBrightWhite)]);
            let t = b.finish();
            let mut r: Vec<Output> = Vec::new();
            r.push(Output { text: t, to_stderr: false });
            assert(outputs_view(r@).map_values(|o: OutputView| o.text) =~= seq![t@]);
            r
        },
        Event::Backtrace { frames, hidden } => {
            let lines = print_pretty_backtrace(frames, *hidden, colors);
            outputs_of(&lines, false)
        },
    }
}

/// The output lines of the events, in order.
pub fn render(events: &Vec<Event>, colors: bool) -> (r: Vec<Output>)
    ensures
        shown(outputs_view(r@), events_view(events@), colors),
{
    let ghost evs = events_view(events@);
    let mut out: Vec<Output> = Vec::new();
    let mut i: usize = 0;
    assert(evs.take(0) =~= Seq::<EventView>::empty());
    assert(outputs_view(out@) =~= Seq::<OutputView>::empty());
    while i < events.len()
        invariant
            i <= events@.len(),
            evs == events_view(events@),
            shown(outputs_view(out@), evs.take(i as int), colors),
        decreases events@.len() - i,
    {
        let mut more = render_event(&events[i], colors);
        let ghost before = out@;
        let ghost added = more@;
        out.append(&mut more);
        proof {
            let o = outputs_view(out@);
            let k = event_lines(evs[i as int]).len();
            assert(o =~= outputs_view(before) + outputs_view(added));
            assert(evs.take(i + 1).drop_last() =~= evs.take(i as int));
            assert(evs.take(i + 1).last() == evs[i as int]);
            assert(outputs_view(added).map_values(|o: OutputView| o.text).len() == k);
            assert(o.take(o.len() - k) =~= outputs_view(before));
            assert(o.skip(o.len() - k) =~= outputs_view(added));
        }
        i = i + 1;
    }
    assert(evs.take(events@.len() as int) =~= evs);
    out
}

impl BacktraceProcessor {
    /// Processes one line of output; `is_stderr` when it came on stderr,
    /// `colors` when colours are on. Returns the lines to print for it.
    pub fn process_line(&mut self, line: &str, is_stderr: bool, colors: bool) -> (r: Vec<Output>)
        ensures
            final(self)@ == step(old(self)@, line@, is_stderr).0,
            shown(outputs_view(r@), step(old(self)@, line@, is_stderr).1, colors),
    {
        let events = self.next_events(line, is_stderr);
        render(&events, colors)
    }

    /// Call after the child process exits to flush any pending backtrace that
    /// wasn't followed by a "note:" line. Returns the lines to print.
    pub fn flush(&mut self, colors: bool) -> (r: Vec<Output>)
        ensures
            final(self)@ == flush_step(old(self)@).0,
            shown(outputs_view(r@), flush_step(old(self)@).1, colors),
    {
        let events = self.flush_events();
        render(&events, colors)
    }
}

} // verus!
