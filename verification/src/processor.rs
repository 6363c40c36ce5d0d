//! The line-by-line processor of a cargo run's output. Each line moves the
//! processor from one state to the next and yields the events to show:
//! lines passed on, the header and message of a panic, and backtraces cut
//! down to the user's own frames.

use vstd::prelude::*;
use crate::text::{
    chars_of, contains, ends_with, find, has_part, has_prefix, is_exactly, matches_at,
    lemma_find, region_find, slice_vec, starts_with, text_of, trim, trim_bounds, trim_end,
    trim_end_char, back_over_in,
};
use crate::frames::{
    file_line, frame_header, frames_view, indented_test_path, is_indented_test_path,
    is_user_frame, parse_file_line, parse_frame_header, user_frame, Frame, FrameView,
};

verus! {

/// The state of a [`BacktraceProcessor`].
pub struct ProcessorView {
    pub in_backtrace: bool,
    pub current_frame: Option<FrameView>,
    pub frames: Seq<FrameView>,
    pub next_is_panic_msg: bool,
    pub pending_failures_line: bool,
    pub in_failures_summary: bool,
    pub is_fuzz: bool,
    pub in_asan_backtrace: bool,
    pub in_fuzz_stack_backtrace: bool,
    pub last_was_blank: bool,
}

/// What a line of input gives to show.
pub enum EventView {
    /// A line passed on, to stdout or stderr, with the test harness's
    /// colours re-applied.
    Line { text: Seq<char>, to_stderr: bool },
    /// `Test <name> panicked at <location>`.
    PanicHeader { test_name: Seq<char>, location: Seq<char> },
    /// The panic message, on the line after the header.
    PanicMessage { text: Seq<char> },
    /// A backtrace: the user's frames, and how many others were hidden.
    Backtrace { frames: Seq<FrameView>, hidden: nat },
}

/// The events of one line, as values.
pub enum Event {
    Line { text: String, to_stderr: bool },
    PanicHeader { test_name: String, location: String },
    PanicMessage { text: String },
    Backtrace { frames: Vec<Frame>, hidden: usize },
}

impl View for Event {
    type V = EventView;

    open spec fn view(&self) -> EventView {
        match self {
            Event::Line { text, to_stderr } => EventView::Line { text: text@, to_stderr: *to_stderr },
            Event::PanicHeader { test_name, location } => EventView::PanicHeader {
                test_name: test_name@,
                location: location@,
            },
            Event::PanicMessage { text } => EventView::PanicMessage { text: text@ },
            Event::Backtrace { frames, hidden } => EventView::Backtrace {
                frames: frames_view(frames@),
                hidden: *hidden as nat,
            },
        }
    }
}

/// Events, by value.
pub open spec fn events_view(v: Seq<Event>) -> Seq<EventView> {
    v.map_values(|e: Event| e@)
}

/// The state a processor starts in.
pub open spec fn initial(is_fuzz: bool) -> ProcessorView {
    ProcessorView {
        in_backtrace: false,
        current_frame: None,
        frames: Seq::empty(),
        next_is_panic_msg: false,
        pending_failures_line: false,
        in_failures_summary: false,
        is_fuzz,
        in_asan_backtrace: false,
        in_fuzz_stack_backtrace: false,
        last_was_blank: false,
    }
}

/// What every state a processor reaches satisfies: frames are only held
/// inside a backtrace, and then with a frame being read; inside a backtrace
/// no panic message is expected and no failures summary is being read; a
/// held-back `"failures:"` and the summary list never go together; and the
/// fuzzing filter's state stays clear outside fuzz mode.
pub open spec fn consistent(s: ProcessorView) -> bool {
    &&& !s.in_backtrace ==> s.current_frame is None && s.frames.len() == 0
    &&& s.frames.len() > 0 ==> s.current_frame is Some
    &&& s.in_backtrace ==> !s.next_is_panic_msg && !s.pending_failures_line
        && !s.in_failures_summary
    &&& !(s.pending_failures_line && s.in_failures_summary)
    &&& !s.is_fuzz ==> !s.in_asan_backtrace && !s.in_fuzz_stack_backtrace && !s.last_was_blank
}

/// The frames gathered so far, the one being read included.
pub open spec fn gathered(s: ProcessorView) -> Seq<FrameView> {
    match s.current_frame {
        Some(f) => s.frames.push(f),
        None => s.frames,
    }
}

/// The user's frames among `fs`, in their order.
pub open spec fn user_frames(fs: Seq<FrameView>) -> Seq<FrameView>
    decreases fs.len(),
{
    if fs.len() == 0 {
        Seq::empty()
    } else if user_frame(fs.last()) {
        user_frames(fs.drop_last()).push(fs.last())
    } else {
        user_frames(fs.drop_last())
    }
}

/// The backtrace shown for the gathered frames `fs`: none where there are
/// none, else the user's frames and the count of the others.
pub open spec fn backtrace_events(fs: Seq<FrameView>) -> Seq<EventView> {
    if fs.len() == 0 {
        Seq::empty()
    } else {
        seq![
            EventView::Backtrace {
                frames: user_frames(fs),
                hidden: (fs.len() - user_frames(fs).len()) as nat,
            },
        ]
    }
}

/// The state once a backtrace has been shown.
pub open spec fn closed(s: ProcessorView) -> ProcessorView {
    ProcessorView { in_backtrace: false, current_frame: None, frames: Seq::empty(), ..s }
}

/// Noise that libFuzzer and cargo-fuzz print, as a trimmed line.
pub open spec fn fuzz_noise(t: Seq<char>) -> bool {
    ||| starts_with(t, "NOTE: libFuzzer"@)
    ||| starts_with(t, "Combine libFuzzer"@)
    ||| starts_with(t, "SUMMARY: libFuzzer"@)
    ||| starts_with(t, "MS: "@)
    ||| starts_with(t, "Base64: "@)
    ||| t == "Base64:"@
    ||| starts_with(t, "Minimize test case with:"@)
    ||| starts_with(t, "cargo fuzz tmin"@)
    ||| (t.len() > 0 && forall|i: int| 0 <= i < t.len() ==> #[trigger] t[i] == '─')
}

/// A line that continues an AddressSanitizer or libFuzzer report.
pub open spec fn asan_continuation(line: Seq<char>) -> bool {
    ||| starts_with(trim(line), "#"@)
    ||| starts_with(line, "=="@)
    ||| starts_with(line, "  "@)
    ||| starts_with(line, "\t"@)
}

/// The fuzzing filter: the state after it, and whether it swallows the
/// line. Outside fuzz mode it does nothing.
pub open spec fn fuzz_phase(s: ProcessorView, line: Seq<char>) -> (ProcessorView, bool) {
    let t = trim(line);
    if !s.is_fuzz {
        (s, false)
    } else if t == "Stack backtrace:"@ {
        (ProcessorView { in_fuzz_stack_backtrace: true, ..s }, true)
    } else if s.in_fuzz_stack_backtrace {
        (s, true)
    } else if starts_with(line, "artifact_prefix="@) {
        (s, true)
    } else if fuzz_noise(t) {
        (s, true)
    } else if t.len() == 0 && s.last_was_blank {
        (s, true)
    } else {
        let s1 = ProcessorView { last_was_blank: t.len() == 0, ..s };
        let s2 = if starts_with(line, "=="@) && contains(line, "ERROR:"@) {
            ProcessorView { in_asan_backtrace: true, ..s1 }
        } else {
            s1
        };
        if !s2.in_asan_backtrace {
            (s2, false)
        } else if t.len() == 0 {
            (ProcessorView { in_asan_backtrace: false, ..s2 }, true)
        } else if asan_continuation(line) {
            (s2, true)
        } else {
            (ProcessorView { in_asan_backtrace: false, ..s2 }, false)
        }
    }
}

/// The name between the first two `'` of a panic line, or `"?"`.
pub open spec fn thread_name(line: Seq<char>) -> Seq<char> {
    match find(line, seq!['\'']) {
        Some(a) => match find(line.skip(a + 1), seq!['\'']) {
            Some(b) => line.skip(a + 1).take(b),
            None => seq!['?'],
        },
        None => seq!['?'],
    }
}

/// The last piece of `s.split("::")`: the pieces are cut at the
/// occurrences of `"::"` found from left to right.
pub open spec fn last_segment(s: Seq<char>) -> Seq<char>
    decreases s.len(),
{
    if s.len() >= 2 && s[0] == ':' && s[1] == ':' {
        last_segment(s.skip(2))
    } else if s.len() == 0 || !contains(s.drop_first(), seq![':', ':']) {
        s
    } else {
        last_segment(s.drop_first())
    }
}

/// The text after `" panicked at "`, without trailing colons and
/// trimmed, where the line holds `" panicked at "`.
pub open spec fn panic_text(line: Seq<char>) -> Option<Seq<char>> {
    match find(line, " panicked at "@) {
        Some(p) => Some(trim(trim_end_char(line.skip(p + " panicked at "@.len()), ':'))),
        None => None,
    }
}

/// `"', "`, which ends the quoted message of a panic line before Rust 1.73.
pub open spec fn quote_comma() -> Seq<char> {
    seq!['\'', ',', ' ']
}

/// Last occurrence of `p` in `s` at or before position `j`.
pub open spec fn rfind_to(s: Seq<char>, p: Seq<char>, j: int) -> Option<int>
    decreases j + 1,
{
    if j < 0 {
        None
    } else if matches_at(s, p, j) {
        Some(j)
    } else {
        rfind_to(s, p, j - 1)
    }
}

/// `rfind_to` finds the last occurrence at or before `j`.
pub proof fn lemma_rfind_to(s: Seq<char>, p: Seq<char>, j: int)
    ensures
        match rfind_to(s, p, j) {
            Some(k) => 0 <= k <= j && matches_at(s, p, k) && forall|i: int|
                k < i <= j ==> !#[trigger] matches_at(s, p, i),
            None => forall|i: int| 0 <= i <= j ==> !#[trigger] matches_at(s, p, i),
        },
    decreases j + 1,
{
    if j >= 0 && !matches_at(s, p, j) {
        lemma_rfind_to(s, p, j - 1);
    }
}

/// A panic text in the format before Rust 1.73, `'MESSAGE', LOCATION`,
/// split into the message and the location; the location starts after the
/// last `"', "`.
pub open spec fn quoted_message(t: Seq<char>) -> Option<(Seq<char>, Seq<char>)> {
    if t.len() > 0 && t[0] == '\'' {
        match rfind_to(t, quote_comma(), t.len() - 3) {
            Some(k) => if k >= 1 {
                Some((t.subrange(1, k), t.skip(k + 3)))
            } else {
                None
            },
            None => None,
        }
    } else {
        None
    }
}

/// The quoted message and the location of a panic line in the format
/// before Rust 1.73 (one that does not end with a colon); nothing for a
/// line in the newer format, whose message comes on the next line.
pub open spec fn old_format_parts(line: Seq<char>) -> Option<(Seq<char>, Seq<char>)> {
    if new_panic_format(line) {
        None
    } else {
        match panic_text(line) {
            Some(t) => quoted_message(t),
            None => None,
        }
    }
}

/// The location of a panic line: after `" panicked at "`, without trailing
/// colons, trimmed, and, before Rust 1.73, without the quoted message
/// before it; or nothing.
pub open spec fn panic_location(line: Seq<char>) -> Seq<char> {
    match old_format_parts(line) {
        Some((_, location)) => location,
        None => match panic_text(line) {
            Some(t) => t,
            None => Seq::empty(),
        },
    }
}

/// The message that a panic line before Rust 1.73 carries in quotes.
pub open spec fn panic_message(line: Seq<char>) -> Option<Seq<char>> {
    match old_format_parts(line) {
        Some((message, _)) => Some(message),
        None => None,
    }
}

/// Panic lines since Rust 1.73 end with a colon, the message following on
/// the next line.
pub open spec fn new_panic_format(line: Seq<char>) -> bool {
    ends_with(trim_end(line), seq![':'])
}

/// The header shown for a panic line.
pub open spec fn panic_header(line: Seq<char>) -> EventView {
    EventView::PanicHeader {
        test_name: last_segment(thread_name(line)),
        location: panic_location(line),
    }
}

/// What a panic line shows: its header, then its message where the line
/// carries it.
pub open spec fn panic_events(line: Seq<char>) -> Seq<EventView> {
    seq![panic_header(line)] + match panic_message(line) {
        Some(text) => seq![EventView::PanicMessage { text }],
        None => Seq::empty(),
    }
}

/// A line inside a backtrace.
pub open spec fn backtrace_step(s: ProcessorView, line: Seq<char>, to_stderr: bool) -> (
    ProcessorView,
    Seq<EventView>,
) {
    match frame_header(line) {
        Some((index, name)) => (
            ProcessorView {
                frames: gathered(s),
                current_frame: Some(FrameView { index, name, file: None }),
                ..s
            },
            Seq::empty(),
        ),
        None => match file_line(line) {
            Some(file) => (
                ProcessorView {
                    current_frame: match s.current_frame {
                        Some(f) => Some(FrameView { file: Some(file), ..f }),
                        None => None,
                    },
                    ..s
                },
                Seq::empty(),
            ),
            None => (
                closed(s),
                backtrace_events(gathered(s)) + if starts_with(trim(line), "note:"@) {
                    Seq::empty()
                } else {
                    seq![EventView::Line { text: line, to_stderr }]
                },
            ),
        },
    }
}

/// A line once the fuzzing and failures-summary filters let it through.
pub open spec fn main_step(s: ProcessorView, line: Seq<char>, to_stderr: bool) -> (
    ProcessorView,
    Seq<EventView>,
) {
    if !s.in_backtrace && trim(line) == "failures:"@ {
        (ProcessorView { pending_failures_line: true, ..s }, Seq::empty())
    } else if s.next_is_panic_msg {
        (ProcessorView { next_is_panic_msg: false, ..s }, seq![EventView::PanicMessage { text: line }])
    } else if !s.in_backtrace {
        if contains(line, "panicked at"@) {
            (ProcessorView { next_is_panic_msg: new_panic_format(line), ..s }, panic_events(line))
        } else if trim(line) == "stack backtrace:"@ {
            (ProcessorView { in_backtrace: true, ..s }, Seq::empty())
        } else {
            (s, seq![EventView::Line { text: line, to_stderr }])
        }
    } else {
        backtrace_step(s, line, to_stderr)
    }
}

/// The failures summary: a `"failures:"` line is held back until the next
/// line shows whether it heads the list of failed tests (both are then
/// dropped, and the rest of the list after them) or a section of output
/// (it is then passed on).
pub open spec fn summary_step(s: ProcessorView, line: Seq<char>, to_stderr: bool) -> (
    ProcessorView,
    Seq<EventView>,
) {
    if s.in_failures_summary && indented_test_path(line) {
        (s, Seq::empty())
    } else {
        let s1 = ProcessorView { in_failures_summary: false, ..s };
        if s1.pending_failures_line {
            let s2 = ProcessorView { pending_failures_line: false, ..s1 };
            if indented_test_path(line) {
                (ProcessorView { in_failures_summary: true, ..s2 }, Seq::empty())
            } else {
                let (s3, events) = main_step(s2, line, to_stderr);
                (s3, seq![EventView::Line { text: "failures:"@, to_stderr }] + events)
            }
        } else {
            main_step(s1, line, to_stderr)
        }
    }
}

/// One line of input: the next state and the events to show.
pub open spec fn step(s: ProcessorView, line: Seq<char>, to_stderr: bool) -> (
    ProcessorView,
    Seq<EventView>,
) {
    let (s1, swallowed) = fuzz_phase(s, line);
    if swallowed {
        (s1, Seq::empty())
    } else {
        summary_step(s1, line, to_stderr)
    }
}

/// The end of input: a backtrace still being read is shown.
pub open spec fn flush_step(s: ProcessorView) -> (ProcessorView, Seq<EventView>) {
    if s.in_backtrace {
        (closed(s), backtrace_events(gathered(s)))
    } else {
        (s, Seq::empty())
    }
}

/// Turns a cargo run's output, line by line, into what is shown of it.
pub struct BacktraceProcessor {
    in_backtrace: bool,
    current_frame: Option<Frame>,
    frames: Vec<Frame>,
    /// New Rust panic format (>= 1.73) puts the message on the line *after*
    /// "thread '...' panicked at path:line:col:" — track when that's expected.
    next_is_panic_msg: bool,
    /// Buffers a "failures:" line so we can decide whether to suppress it.
    pending_failures_line: bool,
    /// True while we're inside the summary list (indented test paths).
    in_failures_summary: bool,
    /// True when running under `cargo fuzz` — suppress asan/libFuzzer output.
    is_fuzz: bool,
    /// True while we're inside an asan/libFuzzer backtrace block.
    in_asan_backtrace: bool,
    /// True while suppressing the cargo-fuzz "Stack backtrace:" at the end.
    in_fuzz_stack_backtrace: bool,
    /// Used in fuzz mode to collapse consecutive blank lines into one.
    last_was_blank: bool,
}

pub open spec fn opt_frame(o: Option<Frame>) -> Option<FrameView> {
    match o {
        Some(f) => Some(f@),
        None => None,
    }
}

impl View for BacktraceProcessor {
    type V = ProcessorView;

    closed spec fn view(&self) -> ProcessorView {
        ProcessorView {
            in_backtrace: self.in_backtrace,
            current_frame: opt_frame(self.current_frame),
            frames: frames_view(self.frames@),
            next_is_panic_msg: self.next_is_panic_msg,
            pending_failures_line: self.pending_failures_line,
            in_failures_summary: self.in_failures_summary,
            is_fuzz: self.is_fuzz,
            in_asan_backtrace: self.in_asan_backtrace,
            in_fuzz_stack_backtrace: self.in_fuzz_stack_backtrace,
            last_was_blank: self.last_was_blank,
        }
    }
}

impl BacktraceProcessor {
    /// A processor in its initial state; `is_fuzz` when the output is that
    /// of `cargo fuzz`.
    pub fn new(is_fuzz: bool) -> (r: Self)
        ensures
            r@ == initial(is_fuzz),
    {
        let r = BacktraceProcessor {
            in_backtrace: false,
            current_frame: None,
            frames: Vec::new(),
            next_is_panic_msg: false,
            pending_failures_line: false,
            in_failures_summary: false,
            is_fuzz,
            in_asan_backtrace: false,
            in_fuzz_stack_backtrace: false,
            last_was_blank: false,
        };
        assert(r@ == initial(is_fuzz)) by {
            assert(frames_view(r.frames@) =~= Seq::<FrameView>::empty());
        }
        r
    }

    /// Moves the frame being read into the gathered frames.
    fn gather_current(&mut self)
        ensures
            final(self)@ == (ProcessorView {
                frames: gathered(old(self)@),
                current_frame: None,
                ..old(self)@
            }),
    {
        match self.current_frame.take() {
            Some(f) => {
                self.frames.push(f);
                assert(frames_view(self.frames@) =~= frames_view(old(self).frames@).push(f@));
            },
            None => {},
        }
    }

    /// Hands out the gathered frames as a backtrace event: the user's frames,
    /// in order, and the number of the others; nothing where no frame was
    /// gathered.
    pub fn flush_backtrace(&mut self) -> (r: Vec<Event>)
        ensures
            final(self)@ == (ProcessorView { frames: Seq::empty(), ..old(self)@ }),
            events_view(r@) == backtrace_events(old(self)@.frames),
    {
        if self.frames.len() == 0 {
            assert(frames_view(self.frames@) =~= Seq::<FrameView>::empty());
            assert(events_view(Seq::<Event>::empty()) =~= Seq::<EventView>::empty());
            return Vec::new();
        }
        let mut frames: Vec<Frame> = Vec::new();
        std::mem::swap(&mut frames, &mut self.frames);
        let ghost fs = frames_view(frames@);
        let mut user: Vec<Frame> = Vec::new();
        let mut i: usize = 0;
        while i < frames.len()
            invariant
                i <= frames@.len(),
                fs == frames_view(frames@),
                user@.len() <= i,
                frames_view(user@) == user_frames(fs.take(i as int)),
            decreases frames@.len() - i,
        {
            assert(fs.take(i + 1).drop_last() =~= fs.take(i as int));
            assert(fs.take(i + 1).last() == frames@[i as int]@);
            if is_user_frame(&frames[i]) {
                let c = copy_frame(&frames[i]);
                let ghost before = user@;
                user.push(c);
                assert(frames_view(user@) =~= frames_view(before).push(c@));
            }
            i = i + 1;
        }
        assert(fs.take(frames@.len() as int) =~= fs);
        let hidden = frames.len() - user.len();
        let mut r: Vec<Event> = Vec::new();
        r.push(Event::Backtrace { frames: user, hidden });
        assert(frames_view(self.frames@) =~= Seq::<FrameView>::empty());
        assert(events_view(r@) =~= backtrace_events(fs));
        r
    }

    /// The fuzzing filter on a line whose characters are `v`: whether it
    /// swallows the line.
    fn fuzz_filter(&mut self, v: &Vec<char>) -> (swallowed: bool)
        ensures
            (final(self)@, swallowed) == fuzz_phase(old(self)@, v@),
    {
        if !self.is_fuzz {
            return false;
        }
        let (a, b) = trim_bounds(v);
        let t = slice_vec(v, a, b);
        if is_exactly(&t, "Stack backtrace:") {
            self.in_fuzz_stack_backtrace = true;
            return true;
        }
        if self.in_fuzz_stack_backtrace {
            return true;
        }
        if has_prefix(v, "artifact_prefix=") {
            return true;
        }
        if is_fuzz_noise(&t) {
            return true;
        }
        let blank = t.len() == 0;
        if blank && self.last_was_blank {
            return true;
        }
        self.last_was_blank = blank;
        if has_prefix(v, "==") && has_part(v, "ERROR:") {
            self.in_asan_backtrace = true;
        }
        if self.in_asan_backtrace {
            if blank {
                self.in_asan_backtrace = false;
                return true;
            }
            if has_prefix(&t, "#") || has_prefix(v, "==") || has_prefix(v, "  ") || has_prefix(
                v,
                "\t",
            ) {
                return true;
            }
            self.in_asan_backtrace = false;
        }
        false
    }

    /// Shows a panic line: its header, then the message where the line
    /// carries it in quotes (before Rust 1.73); and whether the message
    /// follows on the next line (the line ends with a colon).
    pub fn handle_panic_line(&mut self, line: &str) -> (r: Vec<Event>)
        ensures
            final(self)@ == (ProcessorView {
                next_is_panic_msg: old(self)@.next_is_panic_msg || new_panic_format(line@),
                ..old(self)@
            }),
            events_view(r@) == panic_events(line@),
    {
        let v = chars_of(line);
        let name = thread_name_of(&v);
        let short = last_segment_of(&name);
        let (location, message) = panic_parts_of(&v);
        if is_new_panic_format(&v) {
            self.next_is_panic_msg = true;
        }
        let mut r: Vec<Event> = Vec::new();
        r.push(Event::PanicHeader { test_name: text_of(&short), location: text_of(&location) });
        match message {
            Some(m) => {
                r.push(Event::PanicMessage { text: text_of(&m) });
            },
            None => {},
        }
        assert(events_view(r@) =~= panic_events(line@));
        r
    }

    /// A line inside a backtrace.
    #[verifier::loop_isolation(false)]
    fn backtrace_line(&mut self, line: &str, v: &Vec<char>, to_stderr: bool) -> (r: Vec<Event>)
        requires
            v@ == line@,
        ensures
            (final(self)@, events_view(r@)) == backtrace_step(old(self)@, line@, to_stderr),
    {
        match parse_frame_header(line) {
            Some((index, name)) => {
                self.gather_current();
                self.current_frame = Some(Frame { index, name, file: None });
                assert(events_view(Seq::<Event>::empty()) =~= Seq::<EventView>::empty());
                Vec::new()
            },
            None => match parse_file_line(line) {
                Some(file) => {
                    match self.current_frame.take() {
                        Some(f) => {
                            let Frame { index, name, file: _ } = f;
                            self.current_frame = Some(Frame { index, name, file: Some(file) });
                        },
                        None => {},
                    }
                    assert(events_view(Seq::<Event>::empty()) =~= Seq::<EventView>::empty());
                    Vec::new()
                },
                None => {
                    let ghost s0 = self@;
                    self.gather_current();
                    let mut r = self.flush_backtrace();
                    self.in_backtrace = false;
                    let (a, b) = trim_bounds(v);
                    let t = slice_vec(v, a, b);
                    let ghost before = r@;
                    if !has_prefix(&t, "note:") {
                        r.push(Event::Line { text: line.to_owned(), to_stderr });
                        assert(events_view(r@) =~= events_view(before) + seq![
                            EventView::Line { text: line@, to_stderr },
                        ]);
                    } else {
                        assert(events_view(r@) =~= events_view(before) + Seq::<EventView>::empty());
                    }
                    r
                },
            },
        }
    }

    /// A line outside a backtrace that is neither `"failures:"` nor a
    /// panic message.
    fn outside_line(&mut self, line: &str, v: &Vec<char>, t: &Vec<char>, to_stderr: bool) -> (r:
        Vec<Event>)
        requires
            v@ == line@,
            t@ == trim(line@),
            !old(self)@.in_backtrace,
            !old(self)@.next_is_panic_msg,
        ensures
            (final(self)@, events_view(r@)) == (if contains(line@, "panicked at"@) {
                (
                    ProcessorView { next_is_panic_msg: new_panic_format(line@), ..old(self)@ },
                    panic_events(line@),
                )
            } else if trim(line@) == "stack backtrace:"@ {
                (ProcessorView { in_backtrace: true, ..old(self)@ }, Seq::<EventView>::empty())
            } else {
                (old(self)@, seq![EventView::Line { text: line@, to_stderr }])
            }),
    {
        let mut r: Vec<Event> = Vec::new();
        if has_part(v, "panicked at") {
            return self.handle_panic_line(line);
        }
        if is_exactly(t, "stack backtrace:") {
            self.in_backtrace = true;
            assert(events_view(r@) =~= Seq::<EventView>::empty());
            return r;
        }
        r.push(Event::Line { text: line.to_owned(), to_stderr });
        assert(events_view(r@) =~= seq![EventView::Line { text: line@, to_stderr }]);
        r
    }

    /// A line once the fuzzing and failures-summary filters let it through.
    fn main_line(&mut self, line: &str, v: &Vec<char>, to_stderr: bool) -> (r: Vec<Event>)
        requires
            v@ == line@,
        ensures
            (final(self)@, events_view(r@)) == main_step(old(self)@, line@, to_stderr),
    {
        let (a, b) = trim_bounds(v);
        let t = slice_vec(v, a, b);
        let mut r: Vec<Event> = Vec::new();
        assert(events_view(r@) =~= Seq::<EventView>::empty());
        if !self.in_backtrace && is_exactly(&t, "failures:") {
            self.pending_failures_line = true;
            return r;
        }
        if self.next_is_panic_msg {
            self.next_is_panic_msg = false;
            r.push(Event::PanicMessage { text: line.to_owned() });
            assert(events_view(r@) =~= seq![EventView::PanicMessage { text: line@ }]);
            return r;
        }
        if !self.in_backtrace {
            return self.outside_line(line, v, &t, to_stderr);
        }
        self.backtrace_line(line, v, to_stderr)
    }

    /// The failures-summary filter, then the rest of the processing.
    fn summary_line(&mut self, line: &str, v: &Vec<char>, to_stderr: bool) -> (r: Vec<Event>)
        requires
            v@ == line@,
        ensures
            (final(self)@, events_view(r@)) == summary_step(old(self)@, line@, to_stderr),
    {
        if self.in_failures_summary && is_indented_test_path(line) {
            assert(events_view(Seq::<Event>::empty()) =~= Seq::<EventView>::empty());
            return Vec::new();
        }
        self.in_failures_summary = false;
        if self.pending_failures_line {
            self.pending_failures_line = false;
            if is_indented_test_path(line) {
                self.in_failures_summary = true;
                assert(events_view(Seq::<Event>::empty()) =~= Seq::<EventView>::empty());
                return Vec::new();
            }
            let mut r: Vec<Event> = Vec::new();
            r.push(Event::Line { text: "failures:".to_owned(), to_stderr });
            let mut rest = self.main_line(line, v, to_stderr);
            let ghost first = r@;
            let ghost tail = rest@;
            r.append(&mut rest);
            assert(events_view(r@) =~= events_view(first) + events_view(tail));
            return r;
        }
        self.main_line(line, v, to_stderr)
    }

    /// Processes one line of output; `to_stderr` when it came on stderr.
    /// Returns what is to be shown for it.
    pub fn next_events(&mut self, line: &str, to_stderr: bool) -> (r: Vec<Event>)
        ensures
            (final(self)@, events_view(r@)) == step(old(self)@, line@, to_stderr),
    {
        let v = chars_of(line);
        if self.fuzz_filter(&v) {
            assert(events_view(Seq::<Event>::empty()) =~= Seq::<EventView>::empty());
            return Vec::new();
        }
        self.summary_line(line, &v, to_stderr)
    }

    /// The end of input: shows a backtrace that no line after it ended.
    pub fn flush_events(&mut self) -> (r: Vec<Event>)
        ensures
            (final(self)@, events_view(r@)) == flush_step(old(self)@),
    {
        if self.in_backtrace {
            self.gather_current();
            let r = self.flush_backtrace();
            self.in_backtrace = false;
            r
        } else {
            assert(events_view(Seq::<Event>::empty()) =~= Seq::<EventView>::empty());
            Vec::new()
        }
    }
}

/// A copy of a frame.
fn copy_frame(f: &Frame) -> (r: Frame)
    ensures
        r@ == f@,
{
    let file = match &f.file {
        Some(x) => Some(x.clone()),
        None => None,
    };
    Frame { index: f.index, name: f.name.clone(), file }
}

/// Whether the trimmed line `t` is noise of libFuzzer or cargo-fuzz.
#[verifier::loop_isolation(false)]
fn is_fuzz_noise(t: &Vec<char>) -> (r: bool)
    ensures
        r == fuzz_noise(t@),
{
    if has_prefix(t, "NOTE: libFuzzer") || has_prefix(t, "Combine libFuzzer") || has_prefix(
        t,
        "SUMMARY: libFuzzer",
    ) || has_prefix(t, "MS: ") || has_prefix(t, "Base64: ") || is_exactly(t, "Base64:")
        || has_prefix(t, "Minimize test case with:") || has_prefix(t, "cargo fuzz tmin") {
        return true;
    }
    if t.len() == 0 {
        return false;
    }
    let mut k: usize = 0;
    while k < t.len()
        invariant
            k <= t@.len(),
            forall|i: int| 0 <= i < k ==> #[trigger] t@[i] == '─',
        decreases t@.len() - k,
    {
        if t[k] != '─' {
            return false;
        }
        k = k + 1;
    }
    true
}

/// The name between the first two `'` of the line `v`, or `"?"`.
fn thread_name_of(v: &Vec<char>) -> (r: Vec<char>)
    ensures
        r@ == thread_name(v@),
{
    let n = v.len();
    proof {
        reveal_strlit("\'");
    }
    assert("\'"@ =~= seq!['\'']);
    assert(v@.subrange(0, n as int) =~= v@);
    let mut q: Vec<char> = Vec::new();
    q.push('?');
    assert(q@ =~= seq!['?']);
    match region_find(v, 0, n, "\'") {
        Some(a) => {
            proof {
                lemma_find(v@, "\'"@);
            }
            assert(v@.subrange(a + 1, n as int) =~= v@.skip(a + 1));
            match region_find(v, a + 1, n, "\'") {
                Some(b) => {
                    proof {
                        lemma_find(v@.subrange(a + 1, n as int), "\'"@);
                    }
                    let r = slice_vec(v, a + 1, a + 1 + b);
                    assert(r@ =~= v@.skip(a + 1).take(b as int));
                    r
                },
                None => q,
            }
        },
        None => q,
    }
}

/// The last piece of `v` split at `"::"`.
fn last_segment_of(v: &Vec<char>) -> (r: Vec<char>)
    ensures
        r@ == last_segment(v@),
{
    let n = v.len();
    proof {
        reveal_strlit("::");
    }
    assert("::"@ =~= seq![':', ':']);
    let mut i: usize = 0;
    assert(v@.skip(0) =~= v@);
    loop
        invariant
            i <= n,
            n == v@.len(),
            "::"@ == seq![':', ':'],
            last_segment(v@) == last_segment(v@.skip(i as int)),
        decreases n - i,
    {
        let ghost s = v@.skip(i as int);
        if n - i >= 2 && v[i] == ':' && v[i + 1] == ':' {
            assert(s.len() >= 2 && s[0] == ':' && s[1] == ':');
            assert(s.skip(2) =~= v@.skip(i + 2));
            assert(last_segment(s) == last_segment(s.skip(2)));
            i = i + 2;
        } else if i == n {
            let r = slice_vec(v, i, n);
            assert(r@ =~= s);
            assert(s.len() == 0);
            return r;
        } else {
            assert(!(s.len() >= 2 && s[0] == ':' && s[1] == ':'));
            assert(s.drop_first() =~= v@.subrange(i + 1, n as int));
            let found = region_find(v, i + 1, n, "::");
            proof {
                lemma_find(s.drop_first(), seq![':', ':']);
            }
            if found.is_none() {
                assert(find(s.drop_first(), seq![':', ':']) is None);
                assert(!contains(s.drop_first(), seq![':', ':']));
                let r = slice_vec(v, i, n);
                assert(r@ =~= s);
                return r;
            }
            assert(contains(s.drop_first(), seq![':', ':']));
            assert(last_segment(s) == last_segment(s.drop_first()));
            assert(s.drop_first() =~= v@.skip(i + 1));
            i = i + 1;
        }
    }
}

/// The text after `" panicked at "` in the line `v`.
fn panic_text_of(v: &Vec<char>) -> (r: Option<Vec<char>>)
    ensures
        match r {
            Some(t) => panic_text(v@) == Some(t@),
            None => panic_text(v@) is None,
        },
{
    let n = v.len();
    assert(v@.subrange(0, n as int) =~= v@);
    proof {
        reveal_strlit(" panicked at ");
    }
    match region_find(v, 0, n, " panicked at ") {
        Some(p) => {
            proof {
                lemma_find(v@, " panicked at "@);
            }
            let start = p + 13;
            let e = back_over_in(v, Some(':'), start, n);
            proof {
                crate::text::lemma_back_over_skip(v@, Some(':'), start as int, n as int);
            }
            let cut = slice_vec(v, start, e);
            assert(cut@ =~= trim_end_char(v@.skip(start as int), ':'));
            let (a, b) = trim_bounds(&cut);
            Some(slice_vec(&cut, a, b))
        },
        None => None,
    }
}

/// The last `"', "` in `t`, at or before position `j`.
fn rfind_quote_comma(t: &Vec<char>, j: usize) -> (r: Option<usize>)
    requires
        j + 3 <= t@.len(),
    ensures
        match r {
            Some(k) => rfind_to(t@, quote_comma(), j as int) == Some(k as int),
            None => rfind_to(t@, quote_comma(), j as int) is None,
        },
{
    let n = t.len();
    let mut i = j;
    loop
        invariant
            i <= j,
            n == t@.len(),
            j + 3 <= t@.len(),
            rfind_to(t@, quote_comma(), j as int) == rfind_to(t@, quote_comma(), i as int),
        decreases i,
    {
        let m = t[i] == '\'' && t[i + 1] == ',' && t[i + 2] == ' ';
        assert(t@.subrange(i as int, i + 3) =~= seq![t@[i as int], t@[i + 1], t@[i + 2]]);
        assert(m == matches_at(t@, quote_comma(), i as int)) by {
            if matches_at(t@, quote_comma(), i as int) {
                assert(t@.subrange(i as int, i + 3)[0] == '\'');
                assert(t@.subrange(i as int, i + 3)[1] == ',');
                assert(t@.subrange(i as int, i + 3)[2] == ' ');
            }
        }
        if m {
            return Some(i);
        }
        if i == 0 {
            assert(rfind_to(t@, quote_comma(), -1) is None);
            return None;
        }
        i = i - 1;
    }
}

/// The location and the quoted message of the panic line `v`.
fn panic_parts_of(v: &Vec<char>) -> (r: (Vec<char>, Option<Vec<char>>))
    ensures
        r.0@ == panic_location(v@),
        match r.1 {
            Some(m) => panic_message(v@) == Some(m@),
            None => panic_message(v@) is None,
        },
{
    let t = match panic_text_of(v) {
        Some(t) => t,
        None => {
            return (Vec::new(), None);
        },
    };
    if is_new_panic_format(v) || t.len() < 3 || t[0] != '\'' {
        return (t, None);
    }
    match rfind_quote_comma(&t, t.len() - 3) {
        Some(k) => {
            proof {
                lemma_rfind_to(t@, quote_comma(), t@.len() - 3);
            }
            if k >= 1 {
                let message = slice_vec(&t, 1, k);
                let location = slice_vec(&t, k + 3, t.len());
                assert(location@ =~= t@.skip(k + 3));
                (location, Some(message))
            } else {
                (t, None)
            }
        },
        None => (t, None),
    }
}

/// Whether the line `v` ends, before trailing white space, with a colon.
fn is_new_panic_format(v: &Vec<char>) -> (r: bool)
    ensures
        r == new_panic_format(v@),
{
    let e = back_over_in(v, None, 0, v.len());
    let r = e > 0 && v[e - 1] == ':';
    proof {
        let te = trim_end(v@);
        assert(te == v@.take(e as int));
        if e > 0 {
            assert(te.skip(te.len() - 1) =~= seq![v@[e - 1]]);
            if te.skip(te.len() - 1) == seq![':'] {
                assert(te.skip(te.len() - 1)[0] == ':');
            }
        }
    }
    r
}

} // verus!
