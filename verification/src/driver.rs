//! The suite driver: how a benchmark is run, what its output means, and what is told about
//! a run of one or of all.

use crate::doc::{plain, Doc, Token};
use crate::json::{optional_model, Json, JsonModel};
use crate::pages::{brief, print_report, report_page, summarize_phases};
use crate::registry::{benches, registry, row, row_text, specs_model, BenchSpec, SpecModel};
use crate::report::{optional_text, BenchReport, BenchStatus, ReportModel};
use crate::runs::{group_runs, has_run, lemma_run_behind, lemma_run_in_front};
use crate::text::{
    chars_of, chomp, decimal, decimal_text, find, found_is_first, join, join_from, left_aligned, lines,
    lines_end_at_line_feeds, pad_right, position, split_lines, strip, text_of, texts, trim, trim_end, trim_start, CharClass,
};
use crate::wire::{has_plain_extras, report_of, report_tree, reports_round_trip};
use vstd::prelude::*;
use vstd::string::*;
use vstd::utf8::encode_utf8;

verus! {

/// The last `n` of the lines.
pub open spec fn tail_of(all: Seq<Seq<char>>, n: nat) -> Seq<Seq<char>> {
    if n >= all.len() {
        all
    } else {
        all.skip(all.len() - n)
    }
}

/// The last lines are the end of all of them, as many as asked for where there are so many.
pub proof fn the_last_lines_are_kept(front: Seq<Seq<char>>, end: Seq<Seq<char>>, n: nat)
    ensures
        end.len() == n ==> tail_of(front + end, n) == end,
        end.len() <= n ==> tail_of(end, n) == end,
{
    assert((front + end).skip(front.len() as int) =~= end);
    if front.len() == 0 {
        assert(front + end =~= end);
    }
}

/// The last `n` lines of a text.
pub fn last_lines(s: &str, n: usize) -> (r: String)
    ensures
        r@ == join(tail_of(lines(s@), n as nat), "\n"@),
{
    let all = split_lines(s);
    let start: usize = if n >= all.len() {
        0
    } else {
        all.len() - n
    };
    assert(texts(all@).skip(0) == texts(all@));
    join_from(&all, start, "\n")
}

/// The first line of a text, or the text itself where it has none.
pub open spec fn first_of(s: Seq<char>) -> Seq<char> {
    if lines(s).len() == 0 {
        s
    } else {
        lines(s)[0]
    }
}

/// The first line of a text.
pub fn first_line(s: &str) -> (r: &str)
    ensures
        r@ == first_of(s@),
{
    let cs = chars_of(s);
    let k = position(&cs, '\n', 0);
    assert(s@.skip(0) == s@);
    if k == cs.len() {
        return s;
    }
    let end: usize = if k > 0 && cs[k - 1] == '\r' {
        k - 1
    } else {
        k
    };
    assert(s@.subrange(0, end as int) == chomp(s@.take(k as int)));
    s.substring_char(0, end)
}

/// The first line ends where the first line feed stands, with or without a carriage return
/// in front of it, and a text without a line feed is its own first line.
pub proof fn the_first_line_comes_first(line: Seq<char>, rest: Seq<char>)
    requires
        !line.contains('\n'),
    ensures
        first_of(line) == line,
        !(line.len() > 0 && line.last() == '\r') ==> first_of(line + seq!['\n'] + rest) == line,
        first_of(line + seq!['\r', '\n'] + rest) == line,
{
    lines_end_at_line_feeds(line, rest);
    if line.len() == 0 {
        assert(line =~= Seq::<char>::empty());
    }
}

/// The result of attempting to run a single bench.
#[derive(Debug)]
pub enum Outcome {
    /// Bench ran and produced a report.
    Ran(BenchReport),
    /// Bench was skipped, for this reason.
    Skipped(String),
    /// Bench failed; the string is a human-readable reason.
    Failed(String),
}

/// What an [`Outcome`] says.
pub enum OutcomeModel {
    Ran(ReportModel),
    Skipped(Seq<char>),
    Failed(Seq<char>),
}

impl View for Outcome {
    type V = OutcomeModel;

    open spec fn view(&self) -> OutcomeModel {
        match *self {
            Outcome::Ran(report) => OutcomeModel::Ran(report@),
            Outcome::Skipped(reason) => OutcomeModel::Skipped(reason@),
            Outcome::Failed(reason) => OutcomeModel::Failed(reason@),
        }
    }
}

/// The program that builds and runs a bench, given the cargo that invoked the driver, if
/// one did.
pub open spec fn cargo_name(invoked_by: Option<Seq<char>>) -> Seq<char> {
    match invoked_by {
        Some(path) => path,
        None => "cargo"@,
    }
}

/// A bench is built by the cargo that invoked the driver, wherever that is; only where none
/// did, by the one on the search path.
pub proof fn benches_use_the_same_cargo(path: Seq<char>)
    ensures
        cargo_name(Some(path)) == path,
        cargo_name(None) == seq!['c', 'a', 'r', 'g', 'o'],
{
    reveal_strlit("cargo");
}

/// The program that builds and runs a bench: the cargo that invoked the driver, or the
/// one on the search path.
pub fn cargo_program(invoked_by: Option<String>) -> (r: String)
    ensures
        r@ == cargo_name(optional_text(invoked_by)),
{
    match invoked_by {
        Some(path) => path,
        None => "cargo".to_owned(),
    }
}

/// The arguments that build and run the bench of a package.
pub open spec fn cargo_command(
    package: Seq<char>,
    release: bool,
    passthrough: Seq<Seq<char>>,
) -> Seq<Seq<char>> {
    let head = seq!["run"@, "-q"@, "-p"@, package];
    let mode = if release {
        seq!["--release"@]
    } else {
        Seq::empty()
    };
    head + mode + seq!["--"@] + passthrough
}

/// The number of arguments up to the first `--`, if there is one.
pub open spec fn dashes_at(args: Seq<Seq<char>>) -> nat
    decreases args.len(),
{
    if args.len() == 0 || args[0] == "--"@ {
        0
    } else {
        dashes_at(args.skip(1)) + 1
    }
}

proof fn lemma_dashes_at(args: Seq<Seq<char>>, k: nat)
    requires
        k < args.len(),
        args[k as int] == "--"@,
        forall|i: int| 0 <= i < k ==> args[i] != "--"@,
    ensures
        dashes_at(args) == k,
    decreases k,
{
    if k > 0 {
        let rest = args.skip(1);
        assert(rest[k - 1] == args[k as int]);
        assert forall|i: int| 0 <= i < k - 1 implies rest[i] != "--"@ by {
            assert(rest[i] == args[i + 1]);
        }
        lemma_dashes_at(rest, (k - 1) as nat);
    }
}

/// Whatever the build mode, what stands behind the first `--` is exactly what is passed
/// through, in its order.
pub proof fn arguments_are_passed_through(
    package: Seq<char>,
    release: bool,
    passthrough: Seq<Seq<char>>,
)
    requires
        package != "--"@,
    ensures
        ({
            let args = cargo_command(package, release, passthrough);
            let k = dashes_at(args);
            &&& k < args.len() && args[k as int] == "--"@
            &&& args.skip(k as int + 1) == passthrough
        }),
{
    reveal_strlit("run");
    reveal_strlit("-q");
    reveal_strlit("-p");
    reveal_strlit("--release");
    reveal_strlit("--");
    assert("--"@.len() == 2 && "--"@[1] == '-');
    assert("run"@.len() == 3 && "--release"@.len() == 9);
    assert("-q"@[1] == 'q' && "-p"@[1] == 'p');
    let args = cargo_command(package, release, passthrough);
    let k: nat = if release {
        5
    } else {
        4
    };
    assert(args[0] == "run"@ && args[1] == "-q"@ && args[2] == "-p"@ && args[3] == package);
    assert(release ==> args[4] == "--release"@);
    lemma_dashes_at(args, k);
    assert(args.skip(k as int + 1) =~= passthrough);
}

/// The build mode changes only what stands in front of `--`: it adds the one argument
/// `--release` there. In front of that stand the same arguments either way, which run
/// quietly the package named behind `-p`; and nothing there depends on what is passed
/// through.
pub proof fn the_build_mode_is_one_argument(
    package: Seq<char>,
    release: bool,
    passthrough: Seq<Seq<char>>,
    others: Seq<Seq<char>>,
)
    ensures
        ({
            let debug = cargo_command(package, false, passthrough);
            let optimized = cargo_command(package, true, passthrough);
            let args = cargo_command(package, release, passthrough);
            let k: int = if release {
                5
            } else {
                4
            };
            &&& debug.take(4) == optimized.take(4)
            &&& debug.take(4) == seq!["run"@, "-q"@, "-p"@, package]
            &&& optimized[4] == "--release"@
            &&& debug.skip(4) == optimized.skip(5)
            &&& args.len() == k + 1 + passthrough.len()
            &&& args[k] == "--"@
            &&& args.skip(k + 1) == passthrough
            &&& args.take(k + 1) == cargo_command(package, release, others).take(k + 1)
        }),
{
    let debug = cargo_command(package, false, passthrough);
    let optimized = cargo_command(package, true, passthrough);
    assert(debug.take(4) =~= seq!["run"@, "-q"@, "-p"@, package]);
    assert(optimized.take(4) =~= seq!["run"@, "-q"@, "-p"@, package]);
    assert(debug.skip(4) =~= optimized.skip(5));
    assert(debug.skip(5) =~= passthrough);
    assert(optimized.skip(6) =~= passthrough);
    assert(debug.take(5) =~= cargo_command(package, false, others).take(5));
    assert(optimized.take(6) =~= cargo_command(package, true, others).take(6));
}

/// The arguments for cargo that build and run a bench, with the arguments that are passed
/// through to it.
pub fn cargo_args(spec: &BenchSpec, release: bool, passthrough: &Vec<String>) -> (r: Vec<String>)
    ensures
        texts(r@) == cargo_command(spec@.package, release, texts(passthrough@)),
{
    let mut r: Vec<String> = Vec::new();
    r.push("run".to_owned());
    r.push("-q".to_owned());
    r.push("-p".to_owned());
    r.push(spec.package.to_owned());
    if release {
        r.push("--release".to_owned());
    }
    r.push("--".to_owned());
    let ghost front = r@;
    let mut i: usize = 0;
    while i < passthrough.len()
        invariant
            i <= passthrough@.len(),
            r@.len() == front.len() + i,
            r@.take(front.len() as int) == front,
            forall|k: int| 0 <= k < i ==> #[trigger] r@[front.len() + k]@ == passthrough@[k]@,
        decreases passthrough.len() - i,
    {
        let ghost before = r@;
        r.push(passthrough[i].clone());
        assert(r@.take(front.len() as int) == before.take(front.len() as int));
        i += 1;
    }
    proof {
        let want = cargo_command(spec@.package, release, texts(passthrough@));
        assert(texts(front) =~= want.take(front.len() as int));
        assert forall|k: int| 0 <= k < r@.len() implies r@[k]@ == #[trigger] want[k] by {
            if k < front.len() {
                assert(r@.take(front.len() as int)[k] == front[k]);
                assert(texts(front)[k] == want.take(front.len() as int)[k]);
            } else {
                assert(r@[front.len() + (k - front.len())]@ == passthrough@[k - front.len()]@);
                assert(want[k] == texts(passthrough@)[k - front.len()]);
            }
        }
        assert(texts(r@) =~= want);
    }
    r
}

/// What became of the process of a bench.
#[derive(Debug)]
pub enum Child {
    /// It could not be started, for this reason.
    NotStarted(String),
    /// It ended.
    Ended {
        /// Whether it reported success.
        success: bool,
        /// Its exit status in words.
        status: String,
        stdout: String,
        stderr: String,
    },
}

/// How many bytes a text takes.
pub open spec fn byte_count(s: Seq<char>) -> nat {
    (encode_utf8(s).len() as usize) as nat
}

/// What the process of a bench amounts to, given the report that its output holds, if any.
pub open spec fn child_outcome(
    package: Seq<char>,
    child: Child,
    report: Option<ReportModel>,
) -> OutcomeModel {
    match child {
        Child::NotStarted(reason) => OutcomeModel::Failed(
            "could not spawn `cargo run -p "@ + package + "`: "@ + reason@,
        ),
        Child::Ended { success, status, stdout, stderr } => if !success {
            OutcomeModel::Failed(
                package + " exited with "@ + status@ + " — stderr tail:\n"@ + join(
                    tail_of(lines(stderr@), 8),
                    "\n"@,
                ),
            )
        } else {
            match report {
                Some(r) => OutcomeModel::Ran(r),
                None => OutcomeModel::Failed(
                    package + " produced no parseable BenchReport on stdout (got "@ + decimal(
                        byte_count(stdout@),
                    ) + " bytes)"@,
                ),
            }
        },
    }
}

/// A bench ran exactly if its process ended with success and its output holds a report; it
/// is never called skipped. What failed names its package, and why: the reason for which it
/// was not started, its exit status with the end of its messages, or how much it printed
/// without a report.
pub proof fn only_reports_count(package: Seq<char>, child: Child, report: Option<ReportModel>)
    ensures
        ({
            let o = child_outcome(package, child, report);
            &&& !(o is Skipped)
            &&& o is Ran <==> report is Some && child is Ended && child->success
            &&& o matches OutcomeModel::Ran(r) ==> report == Some(r)
            &&& child matches Child::NotStarted(reason) ==> {
                &&& o is Failed
                &&& has_run(o->Failed_0, "could not spawn `cargo run -p "@ + package)
                &&& has_run(o->Failed_0, package + "`: "@ + reason@)
            }
            &&& child matches Child::Ended { success, status, stdout, stderr } ==> {
                &&& !success ==> {
                    &&& o is Failed
                    &&& has_run(o->Failed_0, package + " exited with "@ + status@)
                    &&& has_run(
                        o->Failed_0,
                        status@ + " — stderr tail:\n"@ + join(
                            if lines(stderr@).len() <= 8 {
                                lines(stderr@)
                            } else {
                                lines(stderr@).subrange(
                                    lines(stderr@).len() - 8,
                                    lines(stderr@).len() as int,
                                )
                            },
                            "\n"@,
                        ),
                    )
                }
                &&& success && report is None ==> {
                    &&& o is Failed
                    &&& has_run(
                        o->Failed_0,
                        package + " produced no parseable BenchReport on stdout (got "@ + decimal(
                            byte_count(stdout@),
                        ) + " bytes)"@,
                    )
                }
            }
        }),
{
    broadcast use group_runs;

    if let Child::Ended { success, status, stdout, stderr } = child {
        let all = lines(stderr@);
        if all.len() > 8 {
            assert(all.subrange(all.len() - 8, all.len() as int) =~= tail_of(all, 8));
        }
    }
}

/// Judges the process of a bench, given the documents that the texts of [`report_texts`]
/// hold, each where it holds one.
pub fn run_one(
    spec: &BenchSpec,
    child: &Child,
    whole: Option<Json>,
    from_brace: Option<Json>,
) -> (r: Outcome)
    ensures
        r@ == child_outcome(
            spec@.package,
            *child,
            printed_report(optional_model(whole), optional_model(from_brace)),
        ),
{
    match child {
        Child::NotStarted(reason) => {
            let mut out = "could not spawn `cargo run -p ".to_owned();
            out.append(spec.package);
            out.append("`: ");
            out.append(reason);
            Outcome::Failed(out)
        },
        Child::Ended { success, status, stdout, stderr } => {
            let mut out = spec.package.to_owned();
            if !*success {
                out.append(" exited with ");
                out.append(status);
                out.append(" — stderr tail:\n");
                out.append(&last_lines(stderr, 8));
                return Outcome::Failed(out);
            }
            match parse_report(whole, from_brace) {
                Some(report) => Outcome::Ran(report),
                None => {
                    out.append(" produced no parseable BenchReport on stdout (got ");
                    out.append(&decimal_text(stdout.as_str().len() as u64));
                    out.append(" bytes)");
                    Outcome::Failed(out)
                },
            }
        },
    }
}

/// The texts in which a report is looked for, in this order.
#[derive(Debug)]
pub struct ReportTexts {
    /// The whole output, without blanks around it.
    pub whole: String,
    /// What starts at the first `{`, where there is one, up to the `}` that closes it.
    pub from_brace: Option<String>,
}

/// How far a text is inside a JSON object.
pub struct Scan {
    /// How many objects are open.
    pub depth: nat,
    /// Whether a string is open.
    pub quoted: bool,
    /// Whether the next character of that string is escaped.
    pub escaped: bool,
}

/// Outside of any object.
pub open spec fn outside() -> Scan {
    Scan { depth: 0, quoted: false, escaped: false }
}

/// How far a text is inside a JSON object behind one more character. Braces in strings do
/// not count.
pub open spec fn scan(st: Scan, c: char) -> Scan {
    if st.quoted {
        if st.escaped {
            Scan { escaped: false, ..st }
        } else if c == '\\' {
            Scan { escaped: true, ..st }
        } else if c == '"' {
            Scan { quoted: false, ..st }
        } else {
            st
        }
    } else if c == '"' {
        Scan { quoted: true, ..st }
    } else if c == '{' {
        Scan { depth: st.depth + 1, ..st }
    } else if c == '}' && st.depth > 0 {
        Scan { depth: (st.depth - 1) as nat, ..st }
    } else {
        st
    }
}

/// How many characters of `s` it takes until no object is open, if it comes to that.
pub open spec fn object_end(s: Seq<char>, st: Scan) -> Option<nat>
    decreases s.len(),
{
    if s.len() == 0 {
        None
    } else if scan(st, s[0]).depth == 0 {
        Some(1)
    } else {
        match object_end(s.skip(1), scan(st, s[0])) {
            Some(k) => Some(k + 1),
            None => None,
        }
    }
}

proof fn lemma_object_goes_on(part: Seq<char>, rest: Seq<char>, st: Scan)
    requires
        st.depth > 0,
        forall|i: int| 0 <= i < part.len() ==> scan(st, #[trigger] part[i]) == st,
    ensures
        object_end(part + rest, st) == (match object_end(rest, st) {
            Some(k) => Some((k + part.len()) as nat),
            None => None,
        }),
    decreases part.len(),
{
    if part.len() == 0 {
        assert(part + rest =~= rest);
    } else {
        assert((part + rest)[0] == part[0]);
        assert((part + rest).skip(1) =~= part.skip(1) + rest);
        assert forall|i: int| 0 <= i < part.skip(1).len() implies scan(
            st,
            #[trigger] part.skip(1)[i],
        ) == st by {
            assert(part.skip(1)[i] == part[i + 1]);
        }
        lemma_object_goes_on(part.skip(1), rest, st);
    }
}

/// An object ends at the brace that closes its last level, and not before: a string is
/// passed over whatever braces it holds, up to its closing quote, which an escaped quote is
/// not; and a pair of braces inside is passed over too.
pub proof fn objects_end_at_their_brace(
    part: Seq<char>,
    rest: Seq<char>,
    depth: nat,
    escaped: char,
)
    requires
        depth > 0,
        !part.contains('"'),
    ensures
        ({
            let open = Scan { depth, quoted: false, escaped: false };
            let inside = Scan { depth, quoted: true, escaped: false };
            let behind = object_end(rest, open);
            let later = object_end(rest, inside);
            let longer = |e: Option<nat>, n: nat| match e {
                Some(k) => Some((k + n) as nat),
                None => None::<nat>,
            };
            &&& object_end(seq!['}'] + rest, open) == if depth == 1 {
                Some(1nat)
            } else {
                longer(
                    object_end(rest, Scan { depth: (depth - 1) as nat, ..open }),
                    1,
                )
            }
            &&& object_end(seq!['{', '}'] + rest, open) == longer(behind, 2)
            &&& depth == 1 ==> object_end(seq!['{'] + rest, outside()) == longer(behind, 1)
            &&& object_end(seq!['"'] + rest, open) == longer(later, 1)
            &&& object_end(seq!['"'] + rest, inside) == longer(behind, 1)
            &&& object_end(seq!['\\', escaped] + rest, inside) == longer(later, 2)
            &&& !part.contains('\\') ==> object_end(part + rest, inside) == longer(
                later,
                part.len(),
            )
            &&& !part.contains('{') && !part.contains('}') ==> object_end(part + rest, open)
                == longer(behind, part.len())
        }),
{
    let open = Scan { depth, quoted: false, escaped: false };
    let inside = Scan { depth, quoted: true, escaped: false };
    assert((seq!['}'] + rest).skip(1) =~= rest);
    assert((seq!['"'] + rest).skip(1) =~= rest);
    assert((seq!['{', '}'] + rest).skip(1) =~= seq!['}'] + rest);
    assert((seq!['\\', escaped] + rest).skip(1) =~= seq![escaped] + rest);
    assert((seq![escaped] + rest).skip(1) =~= rest);
    assert((seq!['{'] + rest).skip(1) =~= rest);
    assert(depth == 1 ==> scan(outside(), '{') == open);
    let deeper = Scan { depth: depth + 1, ..open };
    assert(scan(open, '{') == deeper);
    assert(scan(deeper, '}') == open);
    let armed = Scan { escaped: true, ..inside };
    assert(scan(inside, '\\') == armed);
    assert(scan(armed, escaped) == inside);
    assert(object_end(seq!['}'] + rest, deeper) == match object_end(rest, open) {
        Some(k) => Some((k + 1) as nat),
        None => None,
    });
    assert(object_end(seq![escaped] + rest, armed) == match object_end(rest, inside) {
        Some(k) => Some((k + 1) as nat),
        None => None,
    });
    assert forall|i: int| 0 <= i < part.len() implies #[trigger] part[i] != '"' by {
        assert(part.contains(part[i]));
    }
    if !part.contains('\\') {
        assert forall|i: int| 0 <= i < part.len() implies scan(inside, #[trigger] part[i])
            == inside by {
            assert(part.contains(part[i]));
        }
        lemma_object_goes_on(part, rest, inside);
    }
    if !part.contains('{') && !part.contains('}') {
        assert forall|i: int| 0 <= i < part.len() implies scan(open, #[trigger] part[i])
            == open by {
            assert(part.contains(part[i]));
        }
        lemma_object_goes_on(part, rest, open);
    }
}

/// What starts at the first `{` of `s`, up to the `}` that closes it; all of it where none
/// does.
pub open spec fn from_brace(s: Seq<char>) -> Option<Seq<char>> {
    let k = find(s, '{');
    if k < s.len() {
        let t = s.skip(k as int);
        match object_end(t, outside()) {
            Some(n) => Some(t.take(n as int)),
            None => Some(t),
        }
    } else {
        None
    }
}

/// The index behind the object that starts at `from`, or the length of the text where the
/// object does not end.
fn behind_object(s: &[char], from: usize) -> (end: usize)
    requires
        from <= s@.len(),
    ensures
        from <= end <= s@.len(),
        match object_end(s@.skip(from as int), outside()) {
            Some(n) => end == from + n,
            None => end == s@.len(),
        },
{
    let mut depth: usize = 0;
    let mut quoted = false;
    let mut escaped = false;
    let mut i: usize = from;
    let ghost whole = object_end(s@.skip(from as int), outside());
    assert(whole == match whole {
        Some(k) => Some((i - from + k) as nat),
        None => None,
    });
    while i < s.len()
        invariant
            from <= i <= s@.len(),
            depth <= i - from,
            whole == object_end(s@.skip(from as int), outside()),
            whole == (match object_end(
                s@.skip(i as int),
                Scan { depth: depth as nat, quoted, escaped },
            ) {
                Some(k) => Some((i - from + k) as nat),
                None => None,
            }),
        decreases s.len() - i,
    {
        let c = s[i];
        let ghost st = Scan { depth: depth as nat, quoted, escaped };
        if quoted {
            if escaped {
                escaped = false;
            } else if c == '\\' {
                escaped = true;
            } else if c == '"' {
                quoted = false;
            }
        } else if c == '"' {
            quoted = true;
        } else if c == '{' {
            depth += 1;
        } else if c == '}' && depth > 0 {
            depth -= 1;
        }
        proof {
            assert(s@.skip(i as int)[0] == c);
            assert(s@.skip(i as int).skip(1) == s@.skip(i + 1));
            assert(scan(st, c) == (Scan { depth: depth as nat, quoted, escaped }));
        }
        i += 1;
        if depth == 0 {
            return i;
        }
    }
    i
}

/// Where to look for the report in a bench's output. The bench prints exactly one JSON
/// object, but stray lines in front of it or behind it do no harm.
pub fn report_texts(stdout: &str) -> (r: ReportTexts)
    ensures
        r.whole@ == trim(stdout@, CharClass::White),
        optional_text(r.from_brace) == from_brace(trim(stdout@, CharClass::White)),
{
    let whole = strip(stdout, CharClass::White);
    let cs = chars_of(&whole);
    assert(cs@.skip(0) == cs@);
    let k = position(&cs, '{', 0);
    if k < cs.len() {
        let end = behind_object(&cs, k);
        proof {
            let t = cs@.skip(k as int);
            assert(cs@.subrange(k as int, end as int) == t.take(end - k));
            assert(t.take(t.len() as int) == t);
        }
        ReportTexts { whole, from_brace: Some(text_of(&cs, k, end)) }
    } else {
        ReportTexts { whole, from_brace: None }
    }
}

proof fn lemma_trim_start_stops(noise: Seq<char>, doc: Seq<char>, class: CharClass)
    requires
        doc.len() > 0,
        !class.has(doc[0]),
    ensures
        trim_start(noise + doc, class) == trim_start(noise, class) + doc,
    decreases noise.len(),
{
    if noise.len() == 0 {
        assert(noise + doc == doc);
    } else {
        assert((noise + doc)[0] == noise[0]);
        assert((noise + doc).skip(1) == noise.skip(1) + doc);
        lemma_trim_start_stops(noise.skip(1), doc, class);
    }
}

proof fn lemma_find_behind(noise: Seq<char>, doc: Seq<char>, c: char)
    requires
        !noise.contains(c),
        doc.len() > 0,
        doc[0] == c,
    ensures
        find(noise + doc, c) == noise.len(),
    decreases noise.len(),
{
    if noise.len() == 0 {
        assert(noise + doc == doc);
    } else {
        assert(noise.contains(noise[0]));
        assert((noise + doc).skip(1) == noise.skip(1) + doc);
        assert forall|i: int| 0 <= i < noise.skip(1).len() implies noise.skip(1)[i] != c by {
            assert(noise.contains(noise[i + 1]));
        }
        lemma_find_behind(noise.skip(1), doc, c);
    }
}

proof fn lemma_trim_start_keeps_absence(s: Seq<char>, class: CharClass, c: char)
    requires
        !s.contains(c),
    ensures
        !trim_start(s, class).contains(c),
    decreases s.len(),
{
    if s.len() > 0 && class.has(s[0]) {
        assert forall|i: int| 0 <= i < s.skip(1).len() implies s.skip(1)[i] != c by {
            assert(s.contains(s[i + 1]));
        }
        lemma_trim_start_keeps_absence(s.skip(1), class, c);
    }
}

proof fn lemma_trim_end_stops(front: Seq<char>, rest: Seq<char>, class: CharClass)
    requires
        front.len() > 0,
        !class.has(front.last()),
    ensures
        trim_end(front + rest, class) == front + trim_end(rest, class),
    decreases rest.len(),
{
    let s = front + rest;
    if rest.len() == 0 {
        assert(s == front);
        assert(front + rest == front);
    } else {
        assert(s.last() == rest.last());
        assert(s.drop_last() == front + rest.drop_last());
        if class.has(rest.last()) {
            lemma_trim_end_stops(front, rest.drop_last(), class);
        }
    }
}

proof fn lemma_object_end(doc: Seq<char>, rest: Seq<char>, st: Scan)
    requires
        object_end(doc, st) is Some,
    ensures
        object_end(doc + rest, st) == object_end(doc, st),
    decreases doc.len(),
{
    assert((doc + rest)[0] == doc[0]);
    if scan(st, doc[0]).depth > 0 {
        assert((doc + rest).skip(1) == doc.skip(1) + rest);
        lemma_object_end(doc.skip(1), rest, scan(st, doc[0]));
    }
}

proof fn lemma_object_closes(doc: Seq<char>, st: Scan)
    requires
        st.depth > 0,
        object_end(doc, st) == Some(doc.len()),
    ensures
        doc.last() == '}',
    decreases doc.len(),
{
    if scan(st, doc[0]).depth > 0 {
        lemma_object_closes(doc.skip(1), scan(st, doc[0]));
    }
}

/// Whether a text starts with `{` and ends with the `}` that closes it.
pub open spec fn is_object_text(doc: Seq<char>) -> bool {
    doc.len() > 0 && doc[0] == '{' && object_end(doc, outside()) == Some(doc.len())
}

/// A JSON object is found in a bench's output whatever stands behind it, and whatever
/// stands in front of it as long as that holds no `{`.
pub proof fn stray_text_does_no_harm(noise: Seq<char>, doc: Seq<char>, rest: Seq<char>)
    requires
        !noise.contains('{'),
        is_object_text(doc),
    ensures
        from_brace(trim(noise + doc + rest, CharClass::White)) == Some(doc),
{
    let white = CharClass::White;
    let front = trim_start(noise, white);
    let end = trim_end(rest, white);
    assert(noise + doc + rest == noise + (doc + rest));
    lemma_trim_start_stops(noise, doc + rest, white);
    lemma_trim_start_keeps_absence(noise, white, '{');
    let inside = scan(outside(), doc[0]);
    assert(inside.depth == 1);
    lemma_object_closes(doc.skip(1), inside);
    assert(doc.last() == doc.skip(1).last());
    assert(front + (doc + rest) == (front + doc) + rest);
    assert((front + doc).last() == doc.last());
    lemma_trim_end_stops(front + doc, rest, white);
    assert((front + doc) + end == front + (doc + end));
    lemma_find_behind(front, doc + end, '{');
    assert((front + (doc + end)).skip(front.len() as int) == doc + end);
    lemma_object_end(doc, end, outside());
    assert((doc + end).take(doc.len() as int) == doc);
}

/// Where an output has no `{`, there is no second text; where it has one that is never
/// closed, the second text is all from the first one on.
pub proof fn unfinished_objects_are_kept(noise: Seq<char>, rest: Seq<char>)
    requires
        !noise.contains('{'),
    ensures
        from_brace(noise) is None,
        object_end(seq!['{'] + rest, outside()) is None ==> from_brace(noise + (seq!['{'] + rest))
            == Some(seq!['{'] + rest),
        object_end(seq!['{'] + rest, outside()) matches Some(n) ==> from_brace(
            noise + (seq!['{'] + rest),
        ) == Some((seq!['{'] + rest).take(n as int)),
{
    let doc = seq!['{'] + rest;
    found_is_first(noise, '{');
    if find(noise, '{') < noise.len() {
        assert(noise.contains(noise[find(noise, '{') as int]));
    }
    assert(doc[0] == '{');
    lemma_find_behind(noise, doc, '{');
    assert((noise + doc).skip(noise.len() as int) =~= doc);
}

/// The report that a bench printed, given the documents that the two texts of its output
/// hold: the whole output if that is one, or else the object at the first
/// `{`.
pub open spec fn printed_report(
    whole: Option<JsonModel>,
    from_brace: Option<JsonModel>,
) -> Option<ReportModel> {
    if whole is Some && report_of(whole->0) is Some {
        report_of(whole->0)
    } else {
        match from_brace {
            Some(j) => report_of(j),
            None => None,
        }
    }
}

/// The report of the whole output counts wherever there is one; only otherwise that of the
/// object at the first `{`, and without either there is none.
pub proof fn the_whole_output_comes_first(
    whole: Option<JsonModel>,
    j: JsonModel,
    inner: Option<JsonModel>,
)
    ensures
        report_of(j) is Some ==> printed_report(Some(j), inner) == report_of(j),
        whole is None || report_of(whole->0) is None ==> printed_report(whole, Some(j))
            == report_of(j),
        whole is None || report_of(whole->0) is None ==> printed_report(whole, None) is None,
{
}

/// Reads the report of a bench from the documents that the texts of [`report_texts`]
/// hold, each where it holds one.
pub fn parse_report(whole: Option<Json>, from_brace: Option<Json>) -> (r: Option<BenchReport>)
    ensures
        match r {
            Some(report) => printed_report(optional_model(whole), optional_model(from_brace))
                == Some(report@),
            None => printed_report(optional_model(whole), optional_model(from_brace)) is None,
        },
{
    if let Some(j) = &whole {
        if let Some(report) = BenchReport::from_document(j) {
            return Some(report);
        }
    }
    match &from_brace {
        Some(j) => BenchReport::from_document(j),
        None => None,
    }
}

/// The driver reads from a bench's output the report that the bench wrote, whether the
/// whole output is its document or only the object at the first `{` is.
pub proof fn written_reports_are_read(r: ReportModel, other: Option<JsonModel>)
    requires
        has_plain_extras(r),
    ensures
        printed_report(Some(report_tree(r)), other) == Some(r),
        printed_report(None, Some(report_tree(r))) == Some(r),
{
    reports_round_trip(r);
}

/// A bench and what became of it.
#[derive(Debug)]
pub struct Entry {
    pub spec: BenchSpec,
    pub outcome: Outcome,
}

/// What an [`Entry`] says.
pub struct EntryModel {
    pub spec: SpecModel,
    pub outcome: OutcomeModel,
}

impl View for Entry {
    type V = EntryModel;

    open spec fn view(&self) -> EntryModel {
        EntryModel { spec: self.spec@, outcome: self.outcome@ }
    }
}

/// What the entries say, in order.
pub open spec fn entries_model(v: Seq<Entry>) -> Seq<EntryModel> {
    Seq::new(v.len(), |i: int| v[i]@)
}

/// An outcome in a few words.
pub open spec fn outcome_brief(o: OutcomeModel) -> Seq<Token> {
    match o {
        OutcomeModel::Ran(report) => brief(report),
        OutcomeModel::Skipped(reason) => plain("skipped ("@) + plain(reason) + plain(")"@),
        OutcomeModel::Failed(reason) => plain("FAILED ("@) + plain(first_of(reason)) + plain(
            ")"@,
        ),
    }
}

/// The row of a bench in the summary.
pub open spec fn summary_row(e: EntryModel) -> Seq<Token> {
    plain("  "@) + plain(pad_right(e.spec.name, 13)) + plain(" "@) + plain(
        pad_right(e.spec.status.label_text(), 9),
    ) + plain(" "@) + outcome_brief(e.outcome) + plain("\n"@)
}

/// The rows of the benches in the summary.
pub open spec fn summary_rows(entries: Seq<EntryModel>) -> Seq<Token>
    decreases entries.len(),
{
    if entries.len() == 0 {
        Seq::empty()
    } else {
        summary_rows(entries.drop_last()) + summary_row(entries.last())
    }
}

/// The page of a bench that ran.
pub open spec fn detail(e: EntryModel) -> Seq<Token> {
    match e.outcome {
        OutcomeModel::Ran(report) => report_page(report),
        _ => Seq::empty(),
    }
}

/// The pages of the benches that ran.
pub open spec fn details(entries: Seq<EntryModel>) -> Seq<Token>
    decreases entries.len(),
{
    if entries.len() == 0 {
        Seq::empty()
    } else {
        details(entries.drop_last()) + detail(entries.last())
    }
}

/// What a run of all benches shows at its end.
pub open spec fn summary_page(entries: Seq<EntryModel>) -> Seq<Token> {
    plain("\n=== catalog-bench: combined summary ===\n\n"@) + plain(
        row("NAME"@, "STATUS"@, "RESULT"@),
    ) + plain(row("----"@, "------"@, "------"@)) + summary_rows(entries) + details(entries)
}

/// The rows of the benches stand one behind the other in the summary, in their order, and
/// so do the pages of those that ran.
pub proof fn summaries_keep_the_order(a: Seq<EntryModel>, b: Seq<EntryModel>)
    ensures
        summary_rows(a + b) == summary_rows(a) + summary_rows(b),
        details(a + b) == details(a) + details(b),
    decreases b.len(),
{
    if b.len() == 0 {
        assert(a + b =~= a);
        assert(summary_rows(a) + summary_rows(b) =~= summary_rows(a));
        assert(details(a) + details(b) =~= details(a));
    } else {
        assert((a + b).drop_last() =~= a + b.drop_last());
        summaries_keep_the_order(a, b.drop_last());
        assert(summary_rows(a + b) =~= summary_rows(a) + summary_rows(b));
        assert(details(a + b) =~= details(a) + details(b));
    }
}

/// The summary is a heading that names the columns, then the rows of the benches, then the
/// pages of those that ran. A row has the name and the status of its bench, each as wide as
/// its column, and what became of it, and nothing else; only a bench that ran has a page.
pub proof fn summaries_have_nothing_else(entries: Seq<EntryModel>, e: EntryModel)
    ensures
        ({
            let label = match e.spec.status {
                BenchStatus::Ready => "ready"@,
                BenchStatus::Scaffold => "scaffold"@,
            };
            let front = "\n=== catalog-bench: combined summary ===\n\n"@ + row(
                "NAME"@,
                "STATUS"@,
                "RESULT"@,
            ) + row("----"@, "------"@, "------"@);
            &&& summary_rows(seq![e]) == plain(
                "  "@ + pad_right(e.spec.name, 13) + " "@ + pad_right(label, 9) + " "@,
            ) + outcome_brief(e.outcome) + plain("\n"@)
            &&& details(seq![e]) == (match e.outcome {
                OutcomeModel::Ran(report) => report_page(report),
                _ => Seq::empty(),
            })
            &&& summary_page(entries) == plain(front) + summary_rows(entries) + details(entries)
        }),
{
    let label = e.spec.status.label_text();
    let one = seq![e];
    reveal_with_fuel(summary_rows, 2);
    reveal_with_fuel(details, 2);
    assert(one.drop_last().len() == 0 && one.last() == e);
    assert(summary_rows(one) =~= summary_row(e));
    assert(details(one) =~= detail(e));
    assert(plain("  "@ + pad_right(e.spec.name, 13) + " "@ + pad_right(label, 9) + " "@) =~= plain(
        "  "@,
    ) + plain(pad_right(e.spec.name, 13)) + plain(" "@) + plain(pad_right(label, 9)) + plain(
        " "@,
    ));
    let title = "\n=== catalog-bench: combined summary ===\n\n"@;
    let (names, dashes) = (row("NAME"@, "STATUS"@, "RESULT"@), row("----"@, "------"@, "------"@));
    assert(plain(title + names + dashes) =~= plain(title) + plain(names) + plain(dashes));
}

/// An outcome in a few words: those about the report of a bench that ran, why it was
/// skipped, or the first line of why it failed, and nothing else.
pub proof fn outcomes_are_told_briefly(report: ReportModel, reason: Seq<char>)
    ensures
        outcome_brief(OutcomeModel::Ran(report)) == brief(report),
        outcome_brief(OutcomeModel::Skipped(reason)) == plain("skipped ("@ + reason + ")"@),
        outcome_brief(OutcomeModel::Failed(reason)) == plain("FAILED ("@ + first_of(reason) + ")"@),
{
    assert(plain("skipped ("@ + reason + ")"@) =~= plain("skipped ("@) + plain(reason) + plain(
        ")"@,
    ));
    assert(plain("FAILED ("@ + first_of(reason) + ")"@) =~= plain("FAILED ("@) + plain(
        first_of(reason),
    ) + plain(")"@));
}

proof fn lemma_run_in_summary(entries: Seq<EntryModel>, i: int, stretch: Seq<Token>)
    requires
        0 <= i < entries.len(),
    ensures
        has_run(summary_row(entries[i]), stretch) ==> has_run(summary_page(entries), stretch),
        has_run(detail(entries[i]), stretch) ==> has_run(summary_page(entries), stretch),
{
    let front = entries.take(i);
    let end = entries.skip(i + 1);
    let mid = seq![entries[i]];
    assert(entries =~= front + mid + end);
    summaries_keep_the_order(front + mid, end);
    summaries_keep_the_order(front, mid);
    reveal_with_fuel(summary_rows, 2);
    reveal_with_fuel(details, 2);
    assert(mid.drop_last().len() == 0 && mid.last() == entries[i]);
    assert(summary_rows(mid) =~= summary_row(entries[i]));
    assert(details(mid) =~= detail(entries[i]));
    let head = plain("\n=== catalog-bench: combined summary ===\n\n"@) + plain(
        row("NAME"@, "STATUS"@, "RESULT"@),
    ) + plain(row("----"@, "------"@, "------"@));
    if has_run(summary_row(entries[i]), stretch) {
        lemma_run_behind(summary_rows(front), summary_rows(mid), stretch);
        lemma_run_in_front(summary_rows(front + mid), summary_rows(end), stretch);
        lemma_run_behind(head, summary_rows(entries), stretch);
        lemma_run_in_front(head + summary_rows(entries), details(entries), stretch);
    }
    if has_run(detail(entries[i]), stretch) {
        lemma_run_behind(details(front), details(mid), stretch);
        lemma_run_in_front(details(front + mid), details(end), stretch);
        lemma_run_behind(head + summary_rows(entries), details(entries), stretch);
    }
}

/// The summary shows every bench with its own name and status, and what became of it: the
/// words about its report, with its page further down; why it was skipped; or the first line
/// of why it failed.
pub proof fn summaries_show_every_bench(entries: Seq<EntryModel>, i: int)
    requires
        0 <= i < entries.len(),
    ensures
        ({
            let e = entries[i];
            let page = summary_page(entries);
            let label = match e.spec.status {
                BenchStatus::Ready => "ready"@,
                BenchStatus::Scaffold => "scaffold"@,
            };
            let status = plain(pad_right(label, 9)) + plain(" "@);
            &&& has_run(
                page,
                plain("  "@) + plain(pad_right(e.spec.name, 13)) + plain(" "@) + plain(
                    pad_right(label, 9),
                ),
            )
            &&& match e.outcome {
                OutcomeModel::Ran(report) => {
                    &&& has_run(page, status + brief(report) + plain("\n"@))
                    &&& has_run(page, report_page(report))
                },
                OutcomeModel::Skipped(reason) => has_run(
                    page,
                    status + (plain("skipped ("@) + plain(reason) + plain(")"@)) + plain("\n"@),
                ),
                OutcomeModel::Failed(reason) => has_run(
                    page,
                    status + (plain("FAILED ("@) + plain(first_of(reason)) + plain(")"@)) + plain(
                        "\n"@,
                    ),
                ),
            }
        }),
{
    broadcast use group_runs;

    let e = entries[i];
    let label = e.spec.status.label_text();
    let a = plain("  "@) + plain(pad_right(e.spec.name, 13)) + plain(" "@) + plain(
        pad_right(label, 9),
    );
    let b = plain(pad_right(label, 9)) + plain(" "@) + outcome_brief(e.outcome) + plain("\n"@);
    assert(has_run(summary_row(e), a));
    assert(has_run(summary_row(e), b));
    lemma_run_in_summary(entries, i, a);
    lemma_run_in_summary(entries, i, b);
    if let OutcomeModel::Ran(report) = e.outcome {
        assert(has_run(detail(e), report_page(report)));
        lemma_run_in_summary(entries, i, report_page(report));
    }
}

fn outcome_doc(o: &Outcome) -> (d: Doc)
    ensures
        d@ == outcome_brief(o@),
{
    match o {
        Outcome::Ran(report) => summarize_phases(report),
        Outcome::Skipped(reason) => {
            let mut d = Doc::of("skipped (");
            d.text(reason);
            d.text(")");
            d
        },
        Outcome::Failed(reason) => {
            let mut d = Doc::of("FAILED (");
            d.text(first_line(reason));
            d.text(")");
            d
        },
    }
}

/// The page that sums up a run of all benches.
pub fn print_summary(results: &Vec<Entry>) -> (d: Doc)
    ensures
        d@ == summary_page(entries_model(results@)),
{
    let mut rows = Doc::new();
    let mut pages = Doc::new();
    let mut i: usize = 0;
    let ghost entries = entries_model(results@);
    while i < results.len()
        invariant
            i <= results@.len(),
            entries == entries_model(results@),
            rows@ == summary_rows(entries.take(i as int)),
            pages@ == details(entries.take(i as int)),
        decreases results.len() - i,
    {
        let e = &results[i];
        let mut line = Doc::of("  ");
        line.text(&left_aligned(e.spec.name, 13));
        line.text(" ");
        line.text(&left_aligned(e.spec.status.label(), 9));
        line.text(" ");
        line.append(outcome_doc(&e.outcome));
        line.text("\n");
        assert(line@ == summary_row(entries[i as int]));
        rows.append(line);
        let mut page = Doc::new();
        if let Outcome::Ran(report) = &e.outcome {
            page = print_report(report);
        }
        assert(page@ == detail(entries[i as int]));
        pages.append(page);
        assert(entries.take(i + 1).drop_last() == entries.take(i as int));
        i += 1;
    }
    assert(entries.take(i as int) == entries);
    let mut d = Doc::of("\n=== catalog-bench: combined summary ===\n\n");
    d.text(&row_text("NAME", "STATUS", "RESULT"));
    d.text(&row_text("----", "------", "------"));
    d.append(rows);
    d.append(pages);
    d
}

/// What running one bench tells its user.
#[derive(Debug)]
pub struct Verdict {
    pub stdout: Doc,
    pub stderr: String,
    /// Whether the driver reports success.
    pub success: bool,
}

/// What a [`Verdict`] says.
pub struct VerdictModel {
    pub stdout: Seq<Token>,
    pub stderr: Seq<char>,
    pub success: bool,
}

impl View for Verdict {
    type V = VerdictModel;

    open spec fn view(&self) -> VerdictModel {
        VerdictModel { stdout: self.stdout@, stderr: self.stderr@, success: self.success }
    }
}

/// What running the bench of a name tells its user.
pub open spec fn verdict(name: Seq<char>, o: OutcomeModel) -> VerdictModel {
    match o {
        OutcomeModel::Ran(report) => VerdictModel {
            stdout: report_page(report),
            stderr: Seq::empty(),
            success: true,
        },
        OutcomeModel::Skipped(reason) => VerdictModel {
            stdout: plain("skipped "@) + plain(name) + plain(": "@) + plain(reason) + plain("\n"@),
            stderr: Seq::empty(),
            success: true,
        },
        OutcomeModel::Failed(reason) => VerdictModel {
            stdout: Seq::empty(),
            stderr: "error: bench '"@ + name + "' failed: "@ + reason + "\n"@,
            success: false,
        },
    }
}

/// A run of one bench fails exactly if the bench failed. Only then is there a message about
/// an error, and then there is nothing else: it names the bench and the reason. A bench that
/// ran shows its report, and one that was skipped its name and why.
pub proof fn only_failures_fail(name: Seq<char>, o: OutcomeModel)
    ensures
        ({
            let v = verdict(name, o);
            &&& v.success <==> !(o is Failed)
            &&& v.success ==> v.stderr.len() == 0
            &&& !v.success ==> v.stdout.len() == 0
            &&& o matches OutcomeModel::Ran(report) ==> v.stdout == report_page(report)
            &&& o matches OutcomeModel::Skipped(reason) ==> {
                &&& has_run(v.stdout, plain("skipped "@) + plain(name) + plain(": "@))
                &&& has_run(v.stdout, plain(": "@) + plain(reason) + plain("\n"@))
            }
            &&& o matches OutcomeModel::Failed(reason) ==> {
                &&& has_run(v.stderr, "error: bench '"@ + name + "' failed: "@)
                &&& has_run(v.stderr, "' failed: "@ + reason + "\n"@)
            }
        }),
{
    broadcast use group_runs;

}

/// Concludes a run of one bench: only a bench that failed fails the driver.
pub fn conclude(spec: &BenchSpec, outcome: &Outcome) -> (r: Verdict)
    ensures
        r@ == verdict(spec@.name, outcome@),
{
    match outcome {
        Outcome::Ran(report) => Verdict {
            stdout: print_report(report),
            stderr: String::new(),
            success: true,
        },
        Outcome::Skipped(reason) => {
            let mut d = Doc::of("skipped ");
            d.text(spec.name);
            d.text(": ");
            d.text(reason);
            d.text("\n");
            Verdict { stdout: d, stderr: String::new(), success: true }
        },
        Outcome::Failed(reason) => {
            let mut out = "error: bench '".to_owned();
            out.append(spec.name);
            out.append("' failed: ");
            out.append(reason);
            out.append("\n");
            Verdict { stdout: Doc::new(), stderr: out, success: false }
        },
    }
}

/// Whether a run of all benches passes over this one.
pub open spec fn passed_over(status: BenchStatus, include_scaffold: bool) -> bool {
    status == BenchStatus::Scaffold && !include_scaffold
}

/// A run of all benches passes over the scaffolds and over nothing else, and over none at
/// all where they are to be run too.
pub proof fn only_scaffolds_are_passed_over(include_scaffold: bool)
    ensures
        !passed_over(BenchStatus::Ready, include_scaffold),
        passed_over(BenchStatus::Scaffold, false),
        !passed_over(BenchStatus::Scaffold, true),
        has_run(skip_reason(), "scaffold (use --include-scaffold)"@),
{
    broadcast use group_runs;

}

/// Why a run of all benches passes over one.
pub open spec fn skip_reason() -> Seq<char> {
    "scaffold (use --include-scaffold)"@
}

/// How many of the entries were attempted.
pub open spec fn attempted(entries: Seq<EntryModel>) -> nat
    decreases entries.len(),
{
    if entries.len() == 0 {
        0
    } else {
        attempted(entries.drop_last()) + if entries.last().outcome is Skipped {
            0nat
        } else {
            1nat
        }
    }
}

/// How many of the entries failed.
pub open spec fn failed(entries: Seq<EntryModel>) -> nat
    decreases entries.len(),
{
    if entries.len() == 0 {
        0
    } else {
        failed(entries.drop_last()) + if entries.last().outcome is Failed {
            1nat
        } else {
            0nat
        }
    }
}

/// Whether a run of all benches succeeds. It is best-effort: a single bench failure does
/// not fail the whole run, only that of every attempted bench does.
pub open spec fn all_success(entries: Seq<EntryModel>) -> bool {
    !(attempted(entries) > 0 && failed(entries) == attempted(entries))
}

/// A run of all benches, one after the other.
///
/// [`RunAll::advance`] gives the next bench to run, and [`RunAll::record`] takes what
/// became of it.
#[derive(Debug)]
pub struct RunAll {
    include_scaffold: bool,
    specs: Vec<BenchSpec>,
    results: Vec<Entry>,
}

impl RunAll {
    /// The results are those of the first benches of the suite, in its order, and those
    /// that are to be passed over, and only those, were.
    pub closed spec fn wf(&self) -> bool {
        &&& specs_model(self.specs@) == registry()
        &&& results_fit(entries_model(self.results@), self.include_scaffold)
    }

    /// Whether scaffold benches are run too.
    pub closed spec fn includes_scaffold(&self) -> bool {
        self.include_scaffold
    }

    /// The benches that are done with.
    pub closed spec fn done(&self) -> Seq<EntryModel> {
        entries_model(self.results@)
    }

    /// A run that has not started.
    pub fn new(include_scaffold: bool) -> (r: RunAll)
        ensures
            r.wf(),
            r.includes_scaffold() == include_scaffold,
            r.done() == Seq::<EntryModel>::empty(),
    {
        let r = RunAll { include_scaffold, specs: benches(), results: Vec::new() };
        assert(entries_model(r.results@) =~= Seq::<EntryModel>::empty());
        r
    }

    /// Passes over benches that are not to be run, and gives the next one that is.
    pub fn advance(&mut self) -> (r: Option<BenchSpec>)
        requires
            old(self).wf(),
        ensures
            final(self).wf(),
            final(self).includes_scaffold() == old(self).includes_scaffold(),
            old(self).done().len() <= final(self).done().len() <= registry().len(),
            final(self).done().take(old(self).done().len() as int) == old(self).done(),
            forall|i: int|
                old(self).done().len() <= i < final(self).done().len() ==> passed_over(
                    (#[trigger] registry()[i]).status,
                    old(self).includes_scaffold(),
                ),
            match r {
                Some(b) => {
                    let i = final(self).done().len() as int;
                    &&& i < registry().len()
                    &&& b@ == registry()[i]
                    &&& !passed_over(registry()[i].status, old(self).includes_scaffold())
                },
                None => final(self).done().len() == registry().len(),
            },
    {
        let ghost before = self.done();
        assert(before.take(before.len() as int) == before);
        while self.results.len() < self.specs.len()
            invariant
                self.wf(),
                self.include_scaffold == old(self).include_scaffold,
                before == old(self).done(),
                before.len() <= self.done().len() <= registry().len(),
                self.done().take(before.len() as int) == before,
                forall|i: int|
                    before.len() <= i < self.done().len() ==> passed_over(
                        (#[trigger] registry()[i]).status,
                        self.include_scaffold,
                    ),
            decreases self.specs.len() - self.results.len(),
        {
            let i: usize = self.results.len();
            let spec = self.specs[i];
            assert(specs_model(self.specs@)[i as int] == spec@);
            if spec.status != BenchStatus::Scaffold || self.include_scaffold {
                return Some(spec);
            }
            let ghost so_far = self.done();
            self.results.push(
                Entry {
                    spec,
                    outcome: Outcome::Skipped("scaffold (use --include-scaffold)".to_owned()),
                },
            );
            assert(self.done() =~= so_far.push(self.results@[i as int]@));
            assert(self.done().take(before.len() as int) =~= so_far.take(before.len() as int));
        }
        None
    }

    /// Records what became of the bench that [`RunAll::advance`] gave.
    pub fn record(&mut self, outcome: Outcome)
        requires
            old(self).wf(),
            old(self).done().len() < registry().len(),
            !passed_over(
                registry()[old(self).done().len() as int].status,
                old(self).includes_scaffold(),
            ),
            !(outcome is Skipped),
        ensures
            final(self).wf(),
            final(self).includes_scaffold() == old(self).includes_scaffold(),
            final(self).done() == old(self).done().push(
                EntryModel {
                    spec: registry()[old(self).done().len() as int],
                    outcome: outcome@,
                },
            ),
    {
        let ghost before = self.done();
        let i: usize = self.results.len();
        assert(specs_model(self.specs@)[i as int] == self.specs@[i as int]@);
        self.results.push(Entry { spec: self.specs[i], outcome });
        assert(self.done() =~= before.push(self.results@[i as int]@));
    }

    /// What became of the benches so far, in the order of the suite.
    pub fn results(&self) -> (r: &Vec<Entry>)
        ensures
            entries_model(r@) == self.done(),
    {
        &self.results
    }

    /// Whether the run succeeds.
    pub fn succeeded(&self) -> (r: bool)
        ensures
            r == all_success(self.done()),
    {
        let mut tried: usize = 0;
        let mut bad: usize = 0;
        let mut i: usize = 0;
        let ghost entries = self.done();
        while i < self.results.len()
            invariant
                i <= self.results@.len(),
                entries == entries_model(self.results@),
                tried <= i,
                bad <= i,
                tried == attempted(entries.take(i as int)),
                bad == failed(entries.take(i as int)),
            decreases self.results.len() - i,
        {
            assert(entries.take(i + 1).drop_last() == entries.take(i as int));
            assert(entries.take(i + 1).last() == self.results@[i as int]@);
            match &self.results[i].outcome {
                Outcome::Skipped(_) => {},
                Outcome::Failed(_) => {
                    tried += 1;
                    bad += 1;
                },
                Outcome::Ran(_) => {
                    tried += 1;
                },
            }
            i += 1;
        }
        assert(entries.take(i as int) == entries);
        !(tried > 0 && bad == tried)
    }
}

/// Whether the entries are those of a run of all benches, as far as it has come: one for
/// each bench of the suite, in its order, and passed over exactly where it should be.
pub open spec fn results_fit(entries: Seq<EntryModel>, include_scaffold: bool) -> bool {
    &&& entries.len() <= registry().len()
    &&& forall|i: int|
        0 <= i < entries.len() ==> {
            &&& (#[trigger] entries[i]).spec == registry()[i]
            &&& entries[i].outcome is Skipped <==> passed_over(
                registry()[i].status,
                include_scaffold,
            )
            &&& entries[i].outcome is Skipped ==> entries[i].outcome->Skipped_0 == skip_reason()
        }
}

impl RunAll {
    /// What a run has recorded always fits the suite: nothing is left out, run twice or
    /// run although it should be passed over.
    pub proof fn run_fits_the_suite(&self)
        requires
            self.wf(),
        ensures
            results_fit(self.done(), self.includes_scaffold()),
            self.done().len() <= registry().len(),
            forall|i: int|
                0 <= i < self.done().len() ==> {
                    let e = #[trigger] self.done()[i];
                    let left_out = registry()[i].status == BenchStatus::Scaffold
                        && !self.includes_scaffold();
                    &&& e.spec == registry()[i]
                    &&& e.outcome is Skipped <==> left_out
                    &&& left_out ==> e.outcome == OutcomeModel::Skipped(
                        "scaffold (use --include-scaffold)"@,
                    )
                },
    {
    }
}

/// The line that announces a bench in a run of all.
pub open spec fn announced(b: SpecModel) -> Seq<char> {
    "==> running "@ + b.name + " ("@ + b.status.label_text() + ")\n"@
}

/// The line that announces a bench names it, and says whether it is a scaffold.
pub proof fn announcements_name_the_bench(b: SpecModel)
    ensures
        has_run(announced(b), "==> running "@ + b.name + " ("@),
        b.status == BenchStatus::Ready ==> has_run(announced(b), " ("@ + "ready"@ + ")\n"@),
        b.status == BenchStatus::Scaffold ==> has_run(announced(b), " ("@ + "scaffold"@ + ")\n"@),
{
    broadcast use group_runs;

}

/// The line that announces a bench in a run of all.
pub fn announcement(spec: &BenchSpec) -> (r: String)
    ensures
        r@ == announced(spec@),
{
    let mut out = "==> running ".to_owned();
    out.append(spec.name);
    out.append(" (");
    out.append(spec.status.label());
    out.append(")\n");
    out
}

proof fn lemma_counts(entries: Seq<EntryModel>)
    ensures
        failed(entries) <= attempted(entries),
        attempted(entries) == 0 <==> forall|i: int|
            0 <= i < entries.len() ==> (#[trigger] entries[i]).outcome is Skipped,
        failed(entries) == attempted(entries) <==> forall|i: int|
            0 <= i < entries.len() ==> !((#[trigger] entries[i]).outcome is Ran),
    decreases entries.len(),
{
    if entries.len() > 0 {
        let front = entries.drop_last();
        let last = entries.len() - 1;
        lemma_counts(front);
        assert(entries == front.push(entries[last]));
        assert(forall|i: int| 0 <= i < front.len() ==> #[trigger] front[i] == entries[i]);
        if attempted(entries) == 0 {
            assert forall|i: int| 0 <= i < entries.len() implies (
            #[trigger] entries[i]).outcome is Skipped by {
                if i < last {
                    assert(front[i].outcome is Skipped);
                }
            }
        }
        if failed(entries) == attempted(entries) {
            assert forall|i: int| 0 <= i < entries.len() implies !((
            #[trigger] entries[i]).outcome is Ran) by {
                if i < last {
                    assert(!(front[i].outcome is Ran));
                }
            }
        }
        assert(entries[last].outcome is Skipped || entries[last].outcome is Ran
            || entries[last].outcome is Failed);
    }
}

/// A run of all benches fails exactly if some bench was attempted and every attempted one
/// failed.
pub proof fn run_fails_only_if_all_fail(entries: Seq<EntryModel>)
    ensures
        !all_success(entries) <==> {
            &&& exists|i: int|
                0 <= i < entries.len() && !((#[trigger] entries[i]).outcome is Skipped)
            &&& forall|i: int|
                0 <= i < entries.len() && !((#[trigger] entries[i]).outcome is Skipped)
                    ==> entries[i].outcome is Failed
        },
{
    lemma_counts(entries);
    if !all_success(entries) {
        assert forall|i: int|
            0 <= i < entries.len() && !((
            #[trigger] entries[i]).outcome is Skipped) implies entries[i].outcome is Failed by {
            assert(!(entries[i].outcome is Ran));
        }
    }
}

} // verus!
