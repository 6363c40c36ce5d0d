//! The command line: `cargo prettypanic <subcommand> [cargo-args...]`, and
//! the cargo command that runs under it.

use vstd::prelude::*;
use crate::text::{chars_of, has_prefix, is_exactly, starts_with};

verus! {

/// Texts of strings.
pub open spec fn texts(v: Seq<String>) -> Seq<Seq<char>> {
    v.map_values(|s: String| s@)
}

/// What the command line asks for.
pub enum Command {
    /// Print the help text and succeed.
    Help,
    /// Print the help text and fail: nothing to run.
    Usage,
    /// Run cargo with these arguments.
    Run(Vec<String>),
}

/// The value of a [`Command`].
pub enum CommandView {
    Help,
    Usage,
    Run(Seq<Seq<char>>),
}

impl View for Command {
    type V = CommandView;

    open spec fn view(&self) -> CommandView {
        match self {
            Command::Help => CommandView::Help,
            Command::Usage => CommandView::Usage,
            Command::Run(a) => CommandView::Run(texts(a@)),
        }
    }
}

/// The user's arguments: those after the program name and, when cargo
/// runs it as a subcommand, after the `prettypanic` that cargo passes.
pub open spec fn user_args(args: Seq<Seq<char>>) -> Seq<Seq<char>> {
    if args.len() > 1 && args[1] == "prettypanic"@ {
        args.skip(2)
    } else {
        args.skip(1)
    }
}

pub open spec fn is_help_flag(a: Seq<char>) -> bool {
    a == "--help"@ || a == "-h"@
}

/// The command a command line asks for.
pub open spec fn command_for(args: Seq<Seq<char>>) -> CommandView {
    let u = user_args(args);
    if exists|i: int| 0 <= i < u.len() && is_help_flag(#[trigger] u[i]) {
        CommandView::Help
    } else if u.len() == 0 {
        CommandView::Usage
    } else {
        CommandView::Run(u)
    }
}

/// The cargo subcommand: the first argument that is not a flag.
pub open spec fn subcommand(args: Seq<Seq<char>>) -> Option<Seq<char>>
    decreases args.len(),
{
    if args.len() == 0 {
        None
    } else if !starts_with(args[0], "-"@) {
        Some(args[0])
    } else {
        subcommand(args.drop_first())
    }
}

/// A leading `+toolchain` argument, which rustup must see first, and the
/// rest.
pub open spec fn split_toolchain(args: Seq<Seq<char>>) -> (Option<Seq<char>>, Seq<Seq<char>>) {
    if args.len() > 0 && starts_with(args[0], "+"@) {
        (Some(args[0]), args.drop_first())
    } else {
        (None, args)
    }
}

/// Position of the first `--`.
pub open spec fn dashes_from(args: Seq<Seq<char>>, i: int) -> Option<int>
    decreases args.len() - i,
{
    if i < 0 || i >= args.len() {
        None
    } else if args[i] == "--"@ {
        Some(i)
    } else {
        dashes_from(args, i + 1)
    }
}

pub open spec fn color_always() -> Seq<Seq<char>> {
    seq!["--color"@, "always"@]
}

/// The arguments cargo is run with: the toolchain first, colours forced
/// on, and for `cargo test` colours forced on in the test harness too
/// (after the user's `--`, or after one added).
pub open spec fn cargo_command(args: Seq<Seq<char>>) -> Seq<Seq<char>> {
    let (tc, rest) = split_toolchain(args);
    let head = match tc {
        Some(t) => seq![t],
        None => Seq::empty(),
    } + color_always();
    let tail = if subcommand(rest) == Some("test"@) {
        match dashes_from(rest, 0) {
            Some(d) => rest.take(d + 1) + color_always() + rest.skip(d + 1),
            None => rest + seq!["--"@] + color_always(),
        }
    } else {
        rest
    };
    head + tail
}

/// Whether the run is `cargo fuzz`.
pub open spec fn fuzz_run(args: Seq<Seq<char>>) -> bool {
    subcommand(split_toolchain(args).1) == Some("fuzz"@)
}

/// How cargo is run.
pub struct CargoPlan {
    pub args: Vec<String>,
    pub is_fuzz: bool,
}

fn text_is(s: &String, p: &str) -> (r: bool)
    ensures
        r == (s@ == p@),
{
    is_exactly(&chars_of(s.as_str()), p)
}

fn text_starts_with(s: &String, p: &str) -> (r: bool)
    ensures
        r == starts_with(s@, p@),
{
    has_prefix(&chars_of(s.as_str()), p)
}

fn lit(p: &str) -> (r: String)
    ensures
        r@ == p@,
{
    p.to_owned()
}

/// Reads the command line (the program name first).
pub fn parse_args(args: &Vec<String>) -> (r: Command)
    requires
        args@.len() >= 1,
    ensures
        r@ == command_for(texts(args@)),
{
    let ghost a = texts(args@);
    let start: usize = if args.len() > 1 && text_is(&args[1], "prettypanic") {
        2
    } else {
        1
    };
    assert(start as int <= args@.len());
    let ghost u = user_args(a);
    assert(u =~= texts(args@.skip(start as int)));
    let mut out: Vec<String> = Vec::new();
    let mut i: usize = start;
    while i < args.len()
        invariant
            start <= i <= args@.len(),
            a == texts(args@),
            u == a.skip(start as int),
            u == user_args(a),
            texts(out@) == u.take(i - start),
            forall|j: int| 0 <= j < i - start ==> !is_help_flag(#[trigger] u[j]),
        decreases args@.len() - i,
    {
        if text_is(&args[i], "--help") || text_is(&args[i], "-h") {
            assert(is_help_flag(u[i - start]));
            return Command::Help;
        }
        let ghost before = out@;
        let c = args[i].clone();
        assert(c@ == u[i - start]);
        out.push(c);
        assert(texts(out@) =~= texts(before).push(c@));
        assert(u.take(i + 1 - start) =~= u.take(i - start).push(u[i - start]));
        i = i + 1;
    }
    assert(u.take(u.len() as int) =~= u);
    if out.len() == 0 {
        Command::Usage
    } else {
        Command::Run(out)
    }
}

/// The first argument of `args` that is not a flag, from `i` on.
fn subcommand_from(args: &Vec<String>, i: usize) -> (r: Option<usize>)
    requires
        i <= args@.len(),
    ensures
        match r {
            Some(k) => i <= k < args@.len() && subcommand(texts(args@).skip(i as int)) == Some(
                texts(args@)[k as int],
            ),
            None => subcommand(texts(args@).skip(i as int)) is None,
        },
{
    let mut k = i;
    while k < args.len()
        invariant
            i <= k <= args@.len(),
            subcommand(texts(args@).skip(i as int)) == subcommand(texts(args@).skip(k as int)),
        decreases args@.len() - k,
    {
        assert(texts(args@).skip(k as int)[0] == texts(args@)[k as int]);
        if !text_starts_with(&args[k], "-") {
            return Some(k);
        }
        assert(texts(args@).skip(k as int).drop_first() =~= texts(args@).skip(k + 1));
        k = k + 1;
    }
    assert(texts(args@).skip(k as int) =~= Seq::<Seq<char>>::empty());
    None
}

/// Copies `args[lo..hi]` to the end of `out`.
fn copy_args(out: &mut Vec<String>, args: &Vec<String>, lo: usize, hi: usize)
    requires
        lo <= hi <= args@.len(),
    ensures
        texts(final(out)@) == texts(old(out)@) + texts(args@).subrange(lo as int, hi as int),
{
    let mut k = lo;
    while k < hi
        invariant
            lo <= k <= hi <= args@.len(),
            texts(out@) == texts(old(out)@) + texts(args@).subrange(lo as int, k as int),
        decreases hi - k,
    {
        let ghost before = out@;
        out.push(args[k].clone());
        assert(texts(out@) =~= texts(before).push(texts(args@)[k as int]));
        assert(texts(args@).subrange(lo as int, k + 1) =~= texts(args@).subrange(lo as int, k as int).push(
            texts(args@)[k as int],
        ));
        k = k + 1;
    }
}

/// Appends `--color always`.
fn push_color(out: &mut Vec<String>)
    ensures
        texts(final(out)@) == texts(old(out)@) + color_always(),
{
    let ghost before = out@;
    out.push(lit("--color"));
    out.push(lit("always"));
    assert(texts(out@) =~= texts(before) + color_always());
}

/// The first `--` among `args[start..]`.
fn find_dashes(args: &Vec<String>, start: usize) -> (r: Option<usize>)
    requires
        start <= args@.len(),
    ensures
        match r {
            Some(k) => start <= k < args@.len() && dashes_from(texts(args@).skip(start as int), 0)
                == Some(k - start),
            None => dashes_from(texts(args@).skip(start as int), 0) is None,
        },
{
    let ghost rest = texts(args@).skip(start as int);
    let mut k = start;
    while k < args.len()
        invariant
            start <= k <= args@.len(),
            rest == texts(args@).skip(start as int),
            dashes_from(rest, 0) == dashes_from(rest, k - start),
        decreases args@.len() - k,
    {
        assert(rest[k - start] == texts(args@)[k as int]);
        if text_is(&args[k], "--") {
            return Some(k);
        }
        k = k + 1;
    }
    None
}

/// The cargo command for the user's arguments, and whether it is a
/// `cargo fuzz` run.
pub fn plan_cargo(cargo_args: &Vec<String>) -> (r: CargoPlan)
    ensures
        texts(r.args@) == cargo_command(texts(cargo_args@)),
        r.is_fuzz == fuzz_run(texts(cargo_args@)),
{
    let ghost a = texts(cargo_args@);
    let n = cargo_args.len();
    let mut out: Vec<String> = Vec::new();
    let has_tc = n > 0 && text_starts_with(&cargo_args[0], "+");
    let start: usize = if has_tc {
        out.push(cargo_args[0].clone());
        1
    } else {
        0
    };
    let ghost rest = split_toolchain(a).1;
    assert(rest =~= a.skip(start as int));
    assert(texts(out@) =~= match split_toolchain(a).0 {
        Some(t) => seq![t],
        None => Seq::<Seq<char>>::empty(),
    });
    push_color(&mut out);
    let sub = subcommand_from(cargo_args, start);
    let (is_test, is_fuzz) = match sub {
        Some(k) => (text_is(&cargo_args[k], "test"), text_is(&cargo_args[k], "fuzz")),
        None => (false, false),
    };
    let ghost head = texts(out@);
    if is_test {
        match find_dashes(cargo_args, start) {
            Some(k) => {
                copy_args(&mut out, cargo_args, start, k + 1);
                push_color(&mut out);
                copy_args(&mut out, cargo_args, k + 1, n);
                assert(texts(out@) =~= head + (rest.take(k - start + 1) + color_always()
                    + rest.skip(k - start + 1)));
            },
            None => {
                copy_args(&mut out, cargo_args, start, n);
                let ghost mid = texts(out@);
                out.push(lit("--"));
                assert(texts(out@) =~= mid.push("--"@));
                push_color(&mut out);
                assert(texts(out@) =~= head + (rest + seq!["--"@] + color_always()));
            },
        }
    } else {
        copy_args(&mut out, cargo_args, start, n);
        assert(texts(out@) =~= head + rest);
    }
    CargoPlan { args: out, is_fuzz }
}

} // verus!
