use kikan::scorecard::{
    aggregate_exit_code, build_stub_scorecard, emit_schema_args_error, emit_schema_exit_code,
    emit_schema_write_error, parse_args, pr_meta_parse_error, pr_meta_read_error,
    schema_failure_message, AggregateOutcome, ParsedArgs, PrMeta, PrNumber, Row, Status,
    EMIT_SCHEMA_USAGE, STUB_DELTA_TEXT,
};

fn pr_meta() -> PrMeta {
    PrMeta {
        pr_number: 763.into(),
        head_sha: "abc123".into(),
        base_sha: "def456".into(),
        is_fork: false,
    }
}

fn argv(args: &[&str]) -> Vec<String> {
    args.iter().map(|a| a.to_string()).collect()
}

#[test]
fn build_stub_scorecard_returns_one_green_row() {
    let sc = build_stub_scorecard(pr_meta());
    assert_eq!(sc.rows.len(), 1);
    let Row::CoverageDelta {
        status, delta_text, ..
    } = &sc.rows[0];
    assert_eq!(*status, Status::Green);
    assert_eq!(delta_text, STUB_DELTA_TEXT);
}

#[test]
fn build_stub_scorecard_overall_status_is_green() {
    let sc = build_stub_scorecard(pr_meta());
    assert_eq!(sc.overall_status, Status::Green);
}

#[test]
fn build_stub_scorecard_url_uses_https_and_head_sha() {
    let sc = build_stub_scorecard(pr_meta());
    assert!(sc.all_check_runs_url.starts_with("https://"));
    assert!(sc.all_check_runs_url.contains("abc123"));
}

#[test]
fn build_stub_scorecard_exact_fields() {
    let sc = build_stub_scorecard(pr_meta());
    assert_eq!(sc.schema_version, 0);
    assert_eq!(sc.pr, pr_meta());
    assert_eq!(sc.pr.pr_number, PrNumber(763));
    assert!(sc.top_failures.is_empty());
    assert_eq!(
        sc.all_check_runs_url,
        "https://github.com/breezy-bays-labs/mokumo/commit/abc123/checks"
    );
    let Row::CoverageDelta { common, .. } = &sc.rows[0];
    assert_eq!(common.id, "coverage");
    assert_eq!(common.label, "Coverage");
    assert_eq!(common.anchor, "coverage");
}

#[test]
fn parse_args_returns_run_for_valid_out() {
    let parsed = parse_args(argv(&["--out", "/tmp/schema.json"])).unwrap();
    assert_eq!(parsed, ParsedArgs::Run("/tmp/schema.json".to_string()));
}

#[test]
fn parse_args_returns_help_for_long_flag() {
    let parsed = parse_args(argv(&["--help"])).unwrap();
    assert_eq!(parsed, ParsedArgs::Help);
}

#[test]
fn parse_args_returns_help_for_short_flag() {
    let parsed = parse_args(argv(&["-h"])).unwrap();
    assert_eq!(parsed, ParsedArgs::Help);
}

#[test]
fn parse_args_rejects_missing_out_value() {
    let err = parse_args(argv(&["--out"])).unwrap_err();
    assert!(err.contains("--out requires a path"), "got: {err}");
}

#[test]
fn parse_args_rejects_unknown_arg() {
    let err = parse_args(argv(&["--bogus"])).unwrap_err();
    assert!(err.contains("unknown argument"), "got: {err}");
    assert!(err.contains("--bogus"), "got: {err}");
}

#[test]
fn parse_args_requires_out() {
    let err = parse_args(Vec::new()).unwrap_err();
    assert!(err.contains("--out is required"), "got: {err}");
}

#[test]
fn parse_args_last_out_wins() {
    let parsed = parse_args(argv(&["--out", "a.json", "--out", "b.json"])).unwrap();
    assert_eq!(parsed, ParsedArgs::Run("b.json".to_string()));
}

#[test]
fn parse_args_help_after_out_is_help() {
    let parsed = parse_args(argv(&["--out", "a.json", "-h", "--bogus"])).unwrap();
    assert_eq!(parsed, ParsedArgs::Help);
}

#[test]
fn parse_args_unknown_message_is_exact() {
    assert_eq!(
        parse_args(argv(&["x"])),
        Err("unknown argument: x".to_string())
    );
}

#[test]
fn main_entry_help_returns_success() {
    assert_eq!(emit_schema_exit_code(&parse_args(argv(&["--help"])), false), 0);
}

#[test]
fn main_entry_bad_args_returns_two() {
    assert_eq!(emit_schema_exit_code(&parse_args(argv(&["--bogus"])), false), 2);
}

#[test]
fn emit_schema_exit_code_for_runs() {
    let run = parse_args(argv(&["--out", "s.json"]));
    assert_eq!(emit_schema_exit_code(&run, false), 0);
    assert_eq!(emit_schema_exit_code(&run, true), 1);
}

#[test]
fn aggregate_exit_codes() {
    assert_eq!(aggregate_exit_code(AggregateOutcome::Written), 0);
    assert_eq!(aggregate_exit_code(AggregateOutcome::WriteFailed), 1);
    assert_eq!(aggregate_exit_code(AggregateOutcome::BadPrMeta), 2);
    assert_eq!(aggregate_exit_code(AggregateOutcome::BadArguments { usage_error: true }), 2);
    assert_eq!(aggregate_exit_code(AggregateOutcome::BadArguments { usage_error: false }), 0);
}

#[test]
fn pr_meta_error_messages_name_the_flag() {
    let err = pr_meta_read_error("/tmp/scorecard-aggregate-does-not-exist.json", "No such file");
    assert!(err.contains("--pr-meta"), "got: {err}");
    assert_eq!(
        err,
        "aggregate: cannot read --pr-meta /tmp/scorecard-aggregate-does-not-exist.json: No such file"
    );
    let err = pr_meta_parse_error("bad.json", "key must be a string");
    assert_eq!(err, "aggregate: --pr-meta bad.json is not a valid PrMeta JSON: key must be a string");
}

#[test]
fn schema_failure_message_lists_violations() {
    let v = vec![
        ("/overall_status".to_string(), "\"Magenta\" is not one of the allowed values".to_string()),
        ("/rows/0".to_string(), "missing field".to_string()),
    ];
    assert_eq!(
        schema_failure_message(&v),
        "aggregate: scorecard output failed schema validation:\n  at /overall_status: \"Magenta\" is not one of the allowed values\n  at /rows/0: missing field"
    );
    assert_eq!(
        schema_failure_message(&Vec::new()),
        "aggregate: scorecard output failed schema validation:\n"
    );
}

#[test]
fn emit_schema_messages() {
    assert_eq!(EMIT_SCHEMA_USAGE, "usage: emit-schema --out <path>");
    assert_eq!(emit_schema_args_error("--out is required"), "emit-schema: --out is required");
    assert_eq!(
        emit_schema_write_error("/etc/hosts/schema.json", "Not a directory"),
        "emit-schema: failed to write /etc/hosts/schema.json: Not a directory"
    );
}
