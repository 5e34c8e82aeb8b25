use medio::media::RenamePlan;
use medio::report::{
    log_line, ExecutionCommandReport, ExecutionReport, ExecutionSummary, CLI_SCHEMA_VERSION, COMMAND_DEDUP,
    COMMAND_ORGANIZE, COMMAND_RENAME, KIND_EXECUTION_REPORT,
};

#[test]
fn summary_line_counts() {
    let mut r = ExecutionReport::new("organize");
    r.executed = 3;
    r.errors = 1;
    assert_eq!(
        r.summary_line(),
        "Organize executed: 3 actions, 0 blocked, 0 guarded, 0 skipped, 1 errors, 0 assets"
    );
}

#[test]
fn summary_from_rename_plans() {
    let plan = |conflicts: Vec<String>| RenamePlan {
        old_path: "/a".into(),
        new_path: "/b".into(),
        subtitle_plans: vec![],
        directory_plans: vec![],
        rationale: vec![],
        conflicts,
    };
    let plans = vec![plan(vec![]), plan(vec!["clash".into()]), plan(vec![])];
    let s = ExecutionSummary::from_rename_plans(&plans);
    assert_eq!(s.entry_count, 3);
    assert_eq!(s.blocked_entries, 1);
    assert_eq!(s.ready_entries, 2);
    assert_eq!(s.guarded_entries, 0);
}

#[test]
fn log_line_format() {
    assert_eq!(log_line("2024-01-01 00:00:00", "[renamed] a"), "[2024-01-01 00:00:00] [renamed] a\n");
}

#[test]
fn execution_report_serializes_stable_commands() {
    let entries = vec!["/library/b.mkv".to_string()];
    let mut report = ExecutionReport::new("rename");
    report.executed = 1;
    report.details.push("[dry-run] RENAME /a -> /b".into());
    for command in [COMMAND_RENAME, COMMAND_DEDUP, COMMAND_ORGANIZE] {
        let value = ExecutionCommandReport::new(
            command,
            ExecutionSummary { entry_count: 1, ready_entries: 1, blocked_entries: 0, guarded_entries: 0 },
            &entries,
            &report,
            true,
            false,
        );
        assert_eq!(value.schema_version, CLI_SCHEMA_VERSION);
        assert_eq!(value.kind, KIND_EXECUTION_REPORT);
        assert_eq!(value.command, command);
        assert_eq!(value.summary.entry_count, 1);
        assert!(value.dry_run);
        assert!(!value.aborted);
        assert_eq!(value.entries.len(), 1);
        assert_eq!(value.report.executed, 1);
    }
}

#[test]
fn rename_diagnostic_reports_plan_and_risks() {
    let plan = RenamePlan {
        old_path: "/m/a.mkv".into(),
        new_path: "/m/A (2010).mkv".into(),
        subtitle_plans: vec![],
        directory_plans: vec![],
        rationale: vec![],
        conflicts: vec!["target exists".into()],
    };
    let d = medio::report::AnalysisDiagnostic::rename(
        Some(&plan),
        "{{ title }}",
        1,
        0,
        Some(medio::types::MetadataOrigin::Scraped),
        true,
    );
    assert_eq!(d.stage, "rename");
    assert_eq!(d.decision, "rename plan is blocked by conflicts");
    assert_eq!(
        d.evidence,
        vec![
            "target=/m/A (2010).mkv".to_string(),
            "template={{ title }}".to_string(),
            "subtitle_count=1".to_string(),
            "directory_count=0".to_string(),
            "title_origin=scraped".to_string(),
        ]
    );
    assert_eq!(d.risks, vec!["target exists".to_string(), "rename title confidence is low".to_string()]);
    let none = medio::report::AnalysisDiagnostic::rename(None, "", 0, 0, None, false);
    assert_eq!(none.decision, "no rename needed");
}
