//! The PR scorecard artifact: its shape, the walking-skeleton producer, and
//! the command-line decisions of the `aggregate` and `emit-schema` tools.
use vstd::prelude::*;
use vstd::string::StringExecFns;

verus! {

/// Pull-request number.
#[derive(Debug, Clone, Copy, PartialEq, Eq)]
pub struct PrNumber(pub u64);

impl From<u64> for PrNumber {
    fn from(n: u64) -> (r: Self) {
        PrNumber(n)
    }
}

impl vstd::std_specs::convert::FromSpecImpl<u64> for PrNumber {
    open spec fn obeys_from_spec() -> bool {
        true
    }

    open spec fn from_spec(v: u64) -> Self {
        PrNumber(v)
    }
}

/// Metadata of the pull request a scorecard describes.
#[derive(Debug, Clone, PartialEq, Eq)]
pub struct PrMeta {
    pub pr_number: PrNumber,
    pub head_sha: String,
    pub base_sha: String,
    pub is_fork: bool,
}

/// Traffic-light status of a row or of the whole scorecard.
#[derive(Debug, Clone, Copy, PartialEq, Eq, Structural)]
pub enum Status {
    Green,
    Yellow,
    Red,
}

/// Fields every scorecard row carries.
#[derive(Debug, Clone, PartialEq, Eq)]
pub struct RowCommon {
    pub id: String,
    pub label: String,
    pub anchor: String,
}

/// One scorecard row.
#[derive(Debug, Clone, PartialEq, Eq)]
pub enum Row {
    /// Change in test coverage.
    CoverageDelta { common: RowCommon, status: Status, delta_text: String },
}

impl Row {
    /// A green coverage-delta row.
    pub fn coverage_delta_green(common: RowCommon, delta_text: String) -> (r: Row)
        ensures
            r == (Row::CoverageDelta { common, status: Status::Green, delta_text }),
    {
        Row::CoverageDelta { common, status: Status::Green, delta_text }
    }
}

/// The scorecard artifact.
#[derive(Debug, Clone, PartialEq, Eq)]
pub struct Scorecard {
    pub schema_version: u32,
    pub pr: PrMeta,
    pub overall_status: Status,
    pub rows: Vec<Row>,
    pub top_failures: Vec<String>,
    pub all_check_runs_url: String,
}

/// Delta text of the walking-skeleton coverage row.
pub const STUB_DELTA_TEXT: &'static str = "stub — V1 walking skeleton";

/// The checks page of a commit of the repository.
pub open spec fn check_runs_url(head_sha: Seq<char>) -> Seq<char> {
    "https://github.com/breezy-bays-labs/mokumo/commit/"@ + head_sha + "/checks"@
}

/// The walking-skeleton scorecard for a pull request: one green coverage
/// row carrying the stub delta text, overall green, schema version 0, no
/// top failures, and the head commit's checks page as the check-runs URL.
pub fn build_stub_scorecard(pr: PrMeta) -> (sc: Scorecard)
    ensures
        sc.schema_version == 0,
        sc.pr == pr,
        sc.overall_status == Status::Green,
        sc.rows.len() == 1,
        sc.rows@[0] matches Row::CoverageDelta { common, status, delta_text } && status
            == Status::Green && delta_text@ == STUB_DELTA_TEXT@ && common.id@ == "coverage"@
            && common.label@ == "Coverage"@ && common.anchor@ == "coverage"@,
        sc.top_failures.len() == 0,
        sc.all_check_runs_url@ == check_runs_url(pr.head_sha@),
{
    let row = Row::coverage_delta_green(
        RowCommon {
            id: String::from_str("coverage"),
            label: String::from_str("Coverage"),
            anchor: String::from_str("coverage"),
        },
        String::from_str(STUB_DELTA_TEXT),
    );
    let mut url = String::from_str("https://github.com/breezy-bays-labs/mokumo/commit/");
    url.append(pr.head_sha.as_str());
    url.append("/checks");
    let mut rows: Vec<Row> = Vec::new();
    rows.push(row);
    Scorecard {
        schema_version: 0,
        pr,
        overall_status: Status::Green,
        rows,
        top_failures: Vec::new(),
        all_check_runs_url: url,
    }
}

/// How the `aggregate` tool's run went.
pub enum AggregateOutcome {
    /// The arguments did not parse; `usage_error` is false for `--help` and
    /// `--version`, which are successful invocations.
    BadArguments { usage_error: bool },
    /// `--pr-meta` could not be read or parsed.
    BadPrMeta,
    /// The scorecard could not be validated or written.
    WriteFailed,
    /// The scorecard was written.
    Written,
}

/// Exit code of the `aggregate` tool: 0 on success (and for `--help`), 1
/// for a validation or write failure, 2 for bad arguments or an unreadable
/// `--pr-meta`.
pub fn aggregate_exit_code(outcome: AggregateOutcome) -> (code: u8)
    ensures
        code == (match outcome {
            AggregateOutcome::BadArguments { usage_error } => if usage_error {
                2u8
            } else {
                0u8
            },
            AggregateOutcome::BadPrMeta => 2u8,
            AggregateOutcome::WriteFailed => 1u8,
            AggregateOutcome::Written => 0u8,
        }),
{
    match outcome {
        AggregateOutcome::BadArguments { usage_error } => if usage_error {
            2
        } else {
            0
        },
        AggregateOutcome::BadPrMeta => 2,
        AggregateOutcome::WriteFailed => 1,
        AggregateOutcome::Written => 0,
    }
}

/// Outcome of parsing the `emit-schema` arguments: a path to write the
/// schema to, or a help request.
#[derive(Debug, PartialEq, Eq)]
pub enum ParsedArgs {
    Run(String),
    Help,
}

/// What parsing an argument list gives, before any text is built.
pub enum ArgsVerdict {
    Run(Seq<char>),
    Help,
    MissingOutValue,
    Unknown(Seq<char>),
    MissingOut,
}

/// Left-to-right reading of the `emit-schema` arguments, `out` being the
/// last `--out` path seen: `--out` takes the next argument as the path (a
/// later one wins), `--help` or `-h` ends the reading with a help request,
/// and anything else is an unknown argument; at the end a path is required.
pub open spec fn args_verdict(args: Seq<Seq<char>>, out: Option<Seq<char>>) -> ArgsVerdict
    decreases args.len(),
{
    if args.len() == 0 {
        match out {
            Some(p) => ArgsVerdict::Run(p),
            None => ArgsVerdict::MissingOut,
        }
    } else if args[0] == "--out"@ {
        if args.len() < 2 {
            ArgsVerdict::MissingOutValue
        } else {
            args_verdict(args.skip(2), Some(args[1]))
        }
    } else if args[0] == "--help"@ || args[0] == "-h"@ {
        ArgsVerdict::Help
    } else {
        ArgsVerdict::Unknown(args[0])
    }
}

/// The views of a list of strings.
pub open spec fn views(args: Seq<String>) -> Seq<Seq<char>> {
    args.map_values(|a: String| a@)
}

fn str_eq(a: &str, b: &str) -> (r: bool)
    ensures
        r == (a@ == b@),
{
    let va = crate::text::chars_of(a);
    let vb = crate::text::chars_of(b);
    assert(va@.subrange(0, va@.len() as int) =~= va@);
    crate::text::range_eq(&va, 0, va.len(), &vb)
}

/// Parse `--out <path>` / `--help` / `-h`. Errors carry the message the
/// tool prints: `--out requires a path`, `unknown argument: <arg>`, or
/// `--out is required`.
pub fn parse_args(args: Vec<String>) -> (r: Result<ParsedArgs, String>)
    ensures
        match args_verdict(views(args@), None) {
            ArgsVerdict::Run(p) => r matches Ok(ParsedArgs::Run(q)) && q@ == p,
            ArgsVerdict::Help => r matches Ok(ParsedArgs::Help),
            ArgsVerdict::MissingOutValue => r matches Err(m) && m@ == "--out requires a path"@,
            ArgsVerdict::Unknown(a) => r matches Err(m) && m@ == "unknown argument: "@ + a,
            ArgsVerdict::MissingOut => r matches Err(m) && m@ == "--out is required"@,
        },
{
    let ghost all = views(args@);
    assert(all.skip(0) =~= all);
    let mut out: Option<String> = None;
    let mut i: usize = 0;
    while i < args.len()
        invariant
            all == views(args@),
            i <= args.len(),
            args_verdict(all, None) == args_verdict(all.skip(i as int), match out {
                Some(s) => Some(s@),
                None => None,
            }),
        decreases args.len() - i,
    {
        let ghost rest = all.skip(i as int);
        assert(rest[0] == args@[i as int]@);
        let a = args[i].as_str();
        if str_eq(a, "--out") {
            if i + 1 >= args.len() {
                return Err(String::from_str("--out requires a path"));
            }
            assert(rest[1] == args@[i + 1]@);
            assert(rest.skip(2) =~= all.skip(i + 2));
            out = Some(args[i + 1].clone());
            i += 2;
        } else if str_eq(a, "--help") || str_eq(a, "-h") {
            return Ok(ParsedArgs::Help);
        } else {
            let mut m = String::from_str("unknown argument: ");
            m.append(a);
            return Err(m);
        }
    }
    assert(all.skip(i as int) =~= Seq::<Seq<char>>::empty());
    match out {
        Some(p) => Ok(ParsedArgs::Run(p)),
        None => Err(String::from_str("--out is required")),
    }
}

/// Exit code of `emit-schema`: 2 for bad arguments, 0 for help, and for a
/// run 1 when writing the schema failed, else 0.
pub fn emit_schema_exit_code(parsed: &Result<ParsedArgs, String>, write_failed: bool) -> (code: u8)
    ensures
        code == (match parsed {
            Err(_) => 2u8,
            Ok(ParsedArgs::Help) => 0u8,
            Ok(ParsedArgs::Run(_)) => if write_failed {
                1u8
            } else {
                0u8
            },
        }),
{
    match parsed {
        Err(_) => 2,
        Ok(ParsedArgs::Help) => 0,
        Ok(ParsedArgs::Run(_)) => if write_failed {
            1
        } else {
            0
        },
    }
}

/// Message for a `--pr-meta` file that cannot be read.
pub fn pr_meta_read_error(path: &str, err: &str) -> (r: String)
    ensures
        r@ == "aggregate: cannot read --pr-meta "@ + path@ + ": "@ + err@,
{
    let mut s = String::from_str("aggregate: cannot read --pr-meta ");
    s.append(path);
    s.append(": ");
    s.append(err);
    s
}

/// Message for a `--pr-meta` file that is not PR metadata.
pub fn pr_meta_parse_error(path: &str, err: &str) -> (r: String)
    ensures
        r@ == "aggregate: --pr-meta "@ + path@ + " is not a valid PrMeta JSON: "@ + err@,
{
    let mut s = String::from_str("aggregate: --pr-meta ");
    s.append(path);
    s.append(" is not a valid PrMeta JSON: ");
    s.append(err);
    s
}

/// One schema violation as the report lists it: `  at <path>: <message>`.
pub open spec fn violation_text(v: (String, String)) -> Seq<char> {
    "  at "@ + v.0@ + ": "@ + v.1@
}

/// Violations joined by newlines.
pub open spec fn violations_text(vs: Seq<(String, String)>) -> Seq<char>
    decreases vs.len(),
{
    if vs.len() == 0 {
        Seq::empty()
    } else if vs.len() == 1 {
        violation_text(vs[0])
    } else {
        violations_text(vs.drop_last()) + seq!['\n'] + violation_text(vs.last())
    }
}

/// The report of a scorecard that fails schema validation, from its
/// violations as (instance path, message) pairs.
pub fn schema_failure_message(violations: &Vec<(String, String)>) -> (r: String)
    ensures
        r@ == "aggregate: scorecard output failed schema validation:\n"@ + violations_text(
            violations@,
        ),
{
    let mut s = String::from_str("aggregate: scorecard output failed schema validation:\n");
    let ghost head = s@;
    let mut i: usize = 0;
    while i < violations.len()
        invariant
            i <= violations.len(),
            s@ == head + violations_text(violations@.take(i as int)),
        decreases violations.len() - i,
    {
        let ghost before = s@;
        if i > 0 {
            s.push('\n');
        }
        s.append("  at ");
        s.append(violations[i].0.as_str());
        s.append(": ");
        s.append(violations[i].1.as_str());
        proof {
            let t = violations@.take(i + 1);
            assert(t.drop_last() =~= violations@.take(i as int));
            assert(t.last() == violations@[i as int]);
            if i == 0 {
                assert(violations_text(violations@.take(0)) =~= Seq::<char>::empty());
                assert(s@ =~= head + violations_text(t));
            } else {
                assert(s@ =~= head + violations_text(t));
            }
        }
        i += 1;
    }
    assert(violations@.take(violations.len() as int) =~= violations@);
    s
}

/// Usage line of `emit-schema`.
pub const EMIT_SCHEMA_USAGE: &'static str = "usage: emit-schema --out <path>";

/// What `emit-schema` prints to stderr when its arguments do not parse.
pub fn emit_schema_args_error(msg: &str) -> (r: String)
    ensures
        r@ == "emit-schema: "@ + msg@,
{
    let mut s = String::from_str("emit-schema: ");
    s.append(msg);
    s
}

/// What `emit-schema` prints when the schema cannot be written.
pub fn emit_schema_write_error(path: &str, err: &str) -> (r: String)
    ensures
        r@ == "emit-schema: failed to write "@ + path@ + ": "@ + err@,
{
    let mut s = String::from_str("emit-schema: failed to write ");
    s.append(path);
    s.append(": ");
    s.append(err);
    s
}

} // verus!
