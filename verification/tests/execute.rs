use medio::dedup::{DuplicateDecisionProfile, DuplicateGroup};
use medio::execute::{
    cleanup_candidates, record_cleanup, dedup_dry_run, organize_run_report, rename_run_report,
    rename_skipped, operation_goes_on, DryRunGroup,
    action_label, dedup_guarded, organize_dry_run, organize_steps, record_blocked, record_guarded,
    record_organize_step, record_removal, removal_step, rename_dry_run, rename_line, rename_steps,
    OrganizeStep, RemovalStep, StepOutcome,
};
use medio::media::{DirectoryRenamePlan, RenamePlan, SubtitleRenamePlan};
use medio::organize::OrganizePlan;
use medio::report::{AnalysisDiagnostic, AnalysisSummary, ExecutionReport, ExecutionSummary};
use medio::types::{AssetGateStatus, DupAction, DuplicateKind, KeepStrategy, OrganizeAction};

fn organize_plan(source: &str, target: &str, nfo: bool, urls: &[&str], conflicts: &[&str]) -> OrganizePlan {
    OrganizePlan {
        source: source.into(),
        target: target.into(),
        action: OrganizeAction::Move,
        nfo_content: if nfo { Some("<movie/>".into()) } else { None },
        image_urls: urls.iter().map(|u| u.to_string()).collect(),
        nfo_gate: AssetGateStatus::Accepted,
        image_gate: AssetGateStatus::MissingAssetUrls,
        rationale: vec![],
        conflicts: conflicts.iter().map(|c| c.to_string()).collect(),
    }
}

#[test]
fn organize_steps_in_order() {
    let plan = organize_plan("/in/a.mkv", "/lib/A/a.mkv", true, &["http://x/p.png", "http://x/f.jpg"], &[]);
    let steps = organize_steps(&plan);
    assert_eq!(steps.len(), 5);
    assert!(matches!(&steps[0], OrganizeStep::MakeDir(d) if d == "/lib/A"));
    assert!(matches!(&steps[1], OrganizeStep::Transfer(OrganizeAction::Move, s, t) if s == "/in/a.mkv" && t == "/lib/A/a.mkv"));
    assert!(matches!(&steps[2], OrganizeStep::WriteNfo(p, c) if p == "/lib/A/a.nfo" && c == "<movie/>"));
    assert!(matches!(&steps[3], OrganizeStep::Download(u, p) if u == "http://x/p.png" && p == "/lib/A/poster.png"));
    assert!(matches!(&steps[4], OrganizeStep::Download(u, p) if u == "http://x/f.jpg" && p == "/lib/A/fanart.jpg"));
}

#[test]
fn organize_dry_run_lists_every_operation() {
    let plans = vec![
        organize_plan("/in/a.mkv", "/lib/A/a.mkv", true, &["http://x/p.jpg"], &[]),
        organize_plan("/in/b.mkv", "/lib/B/b.mkv", false, &[], &["target path collides"]),
    ];
    let r = organize_dry_run(&plans);
    assert_eq!(r.operation, "organize");
    assert_eq!((r.executed, r.blocked, r.asset_generated, r.errors), (1, 1, 2, 0));
    assert_eq!(
        r.details,
        vec![
            "[dry-run] mkdir -p /lib/A".to_string(),
            "[dry-run] move /in/a.mkv \u{2192} /lib/A/a.mkv".to_string(),
            "[dry-run] write nfo /lib/A/a.nfo".to_string(),
            "[dry-run] download image from http://x/p.jpg".to_string(),
            "[conflict] /in/b.mkv".to_string(),
            "  - target path collides".to_string(),
        ]
    );
    assert_eq!(r.summary_line(), "Organize executed: 1 actions, 1 blocked, 0 guarded, 0 skipped, 0 errors, 2 assets");
}

#[test]
fn organize_outcomes_are_recorded() {
    let mut r = ExecutionReport::new("organize");
    let mkdir = OrganizeStep::MakeDir("/lib/A".into());
    assert!(record_organize_step(&mut r, &mkdir, &StepOutcome::Done));
    assert!(r.details.is_empty());
    assert!(!record_organize_step(&mut r, &mkdir, &StepOutcome::Failed("denied".into())));
    let transfer = OrganizeStep::Transfer(OrganizeAction::HardLink, "/a".into(), "/b".into());
    assert!(record_organize_step(&mut r, &transfer, &StepOutcome::Done));
    assert!(record_organize_step(&mut r, &transfer, &StepOutcome::Failed("busy".into())));
    let image = OrganizeStep::Download("http://x".into(), "/lib/A/poster.jpg".into());
    assert!(record_organize_step(&mut r, &image, &StepOutcome::NotRun));
    assert!(record_organize_step(&mut r, &image, &StepOutcome::Done));
    let nfo = OrganizeStep::WriteNfo("/lib/A/a.nfo".into(), "x".into());
    assert!(record_organize_step(&mut r, &nfo, &StepOutcome::Failed("full".into())));
    assert_eq!((r.executed, r.errors, r.asset_generated), (1, 3, 1));
    assert_eq!(
        r.details,
        vec![
            "[error] mkdir /lib/A: denied".to_string(),
            "[hardlink] /a \u{2192} /b".to_string(),
            "[error] /a \u{2192} /b: busy".to_string(),
            "[image] /lib/A/poster.jpg".to_string(),
            "[error] write nfo /lib/A/a.nfo: full".to_string(),
        ]
    );
    assert_eq!(action_label(OrganizeAction::SymLink), "symlink");
    record_blocked(&mut r, "/in/c.mkv", &vec!["x".into(), "y".into()]);
    assert_eq!(r.blocked, 1);
    assert_eq!(r.details[5..], ["[conflict] /in/c.mkv".to_string(), "  - x".to_string(), "  - y".to_string()]);
}

fn rename_plans() -> Vec<RenamePlan> {
    vec![
        RenamePlan {
            old_path: "/tv/a.mkv".into(),
            new_path: "/tv/A - S01E01.mkv".into(),
            subtitle_plans: vec![SubtitleRenamePlan { old_path: "/tv/a.srt".into(), new_path: "/tv/A - S01E01.srt".into() }],
            directory_plans: vec![],
            rationale: vec![],
            conflicts: vec![],
        },
        RenamePlan {
            old_path: "/tv/Show.S01".into(),
            new_path: "/tv/Show.S01".into(),
            subtitle_plans: vec![],
            directory_plans: vec![DirectoryRenamePlan { old_path: "/tv/Show.S01".into(), new_path: "/tv/Season 01".into() }],
            rationale: vec![],
            conflicts: vec![],
        },
    ]
}

#[test]
fn rename_steps_skip_unchanged_files() {
    let steps = rename_steps(&rename_plans());
    let got: Vec<(&str, &str, bool)> =
        steps.iter().map(|s| (s.old_path.as_str(), s.new_path.as_str(), s.directory)).collect();
    assert_eq!(
        got,
        vec![
            ("/tv/a.mkv", "/tv/A - S01E01.mkv", false),
            ("/tv/a.srt", "/tv/A - S01E01.srt", false),
            ("/tv/Show.S01", "/tv/Season 01", true),
        ]
    );
    assert_eq!(
        rename_dry_run(&rename_plans()),
        vec![
            "[dry-run] /tv/a.mkv \u{2192} /tv/A - S01E01.mkv".to_string(),
            "[dry-run] /tv/a.srt \u{2192} /tv/A - S01E01.srt".to_string(),
            "[dry-run] /tv/Show.S01 \u{2192} /tv/Season 01".to_string(),
        ]
    );
    assert_eq!(rename_line(&steps[0], &StepOutcome::Done).unwrap(), "[renamed] /tv/a.mkv \u{2192} /tv/A - S01E01.mkv");
    assert_eq!(
        rename_line(&steps[2], &StepOutcome::Failed("exists".into())).unwrap(),
        "[error] /tv/Show.S01 \u{2192} /tv/Season 01: exists"
    );
    assert!(rename_line(&steps[2], &StepOutcome::NotRun).is_none());
}

#[test]
fn dedup_removals_follow_the_action() {
    assert!(dedup_guarded(DupAction::Trash, &vec!["weak".into()]));
    assert!(!dedup_guarded(DupAction::Report, &vec!["weak".into()]));
    assert!(!dedup_guarded(DupAction::Move, &vec![]));
    assert!(matches!(removal_step(DupAction::Trash, true, "", "/m/a.mkv"), RemovalStep::DryRun));
    assert!(matches!(removal_step(DupAction::Move, false, "", "/m/a.mkv"), RemovalStep::NoMoveTarget));
    assert!(matches!(removal_step(DupAction::Move, false, "/dups", "/m/a.mkv"), RemovalStep::Move(d) if d == "/dups/a.mkv"));

    let mut r = ExecutionReport::new("dedup");
    record_guarded(&mut r, "hash:7", &vec!["weak".into()]);
    record_removal(&mut r, "/m/a.mkv", "7.5", &RemovalStep::DryRun, &StepOutcome::DryRun);
    record_removal(&mut r, "/m/a.mkv", "7.5", &RemovalStep::Trash, &StepOutcome::Failed("gone".into()));
    record_removal(&mut r, "/m/a.mkv", "7.5", &RemovalStep::Move("/dups/a.mkv".into()), &StepOutcome::Done);
    record_removal(&mut r, "/m/a.mkv", "7.5", &RemovalStep::NoMoveTarget, &StepOutcome::NotRun);
    assert_eq!((r.guarded, r.executed, r.errors, r.skipped), (1, 2, 1, 1));
    assert_eq!(
        r.details,
        vec![
            "[guard] hash:7".to_string(),
            "  - weak".to_string(),
            "[dry-run] REMOVE /m/a.mkv (score: 7.5)".to_string(),
            "[error] failed to trash /m/a.mkv: gone".to_string(),
            "[move] /m/a.mkv \u{2192} /dups/a.mkv".to_string(),
            "[skip] no move_target configured for /m/a.mkv".to_string(),
        ]
    );
}

fn group(id: &str, kind: DuplicateKind, guardrails: &[&str]) -> DuplicateGroup {
    DuplicateGroup {
        content_id: id.into(),
        kind,
        keep_strategy: "Largest".into(),
        summary: String::new(),
        decision: DuplicateDecisionProfile::new(Some(0), 2, guardrails.len(), KeepStrategy::Largest),
        guardrails: guardrails.iter().map(|g| g.to_string()).collect(),
    }
}

#[test]
fn analysis_summary_and_diagnostics() {
    let plans = vec![
        organize_plan("/in/a.mkv", "/lib/A/a.mkv", true, &["http://x/p.jpg"], &[]),
        organize_plan("/in/b.mkv", "/lib/B/b.mkv", false, &[], &["clash"]),
    ];
    let s = AnalysisSummary::new(4, &[0, 2], None, &plans);
    assert_eq!((s.stage_count, s.duplicate_groups, s.guarded_duplicate_groups), (4, 2, 1));
    assert!(!s.rename_planned && !s.rename_blocked);
    assert_eq!((s.organize_plans, s.organize_blocked, s.organize_nfo_ready, s.organize_image_ready), (2, 1, 1, 1));
    let e = ExecutionSummary::from_organize_plans(&plans);
    assert_eq!((e.entry_count, e.blocked_entries, e.ready_entries), (2, 1, 1));

    let d = AnalysisDiagnostic::organize(&plans);
    assert_eq!(d.stage, "organize");
    assert_eq!(d.decision, "2 organize plan(s), 1 blocked");
    assert_eq!(d.evidence[0], "Move:target=/lib/A/a.mkv:nfo=Accepted:image=MissingAssetUrls");
    assert_eq!(d.risks, vec!["clash".to_string()]);
    assert_eq!(AnalysisDiagnostic::organize(&vec![]).decision, "no organize action planned");

    let groups = vec![group("hash:1", DuplicateKind::Exact, &[]), group("fallback:X", DuplicateKind::Version, &["weak"])];
    let d = AnalysisDiagnostic::dedup(&groups, "/m/a.mkv");
    assert_eq!(d.decision, "2 duplicate group(s) relevant; 1 guarded");
    assert_eq!(d.evidence, vec!["hash:1:Exact:drops=1".to_string(), "fallback:X:Version:drops=1".to_string()]);
    assert_eq!(d.risks, vec!["weak".to_string()]);
    let none = AnalysisDiagnostic::dedup(&vec![], "/m/a.mkv");
    assert_eq!(none.evidence, vec!["path=/m/a.mkv".to_string()]);
}

#[test]
fn decision_profile_counts_dropped_copies() {
    let d = DuplicateDecisionProfile::new(Some(3), 3, 0, KeepStrategy::Manual);
    assert_eq!((d.keep_index, d.drop_count, d.guarded, d.manual_review), (Some(3), 2, false, true));
    let d = DuplicateDecisionProfile::new(None, 3, 1, KeepStrategy::Newest);
    assert_eq!((d.drop_count, d.guarded, d.manual_review), (3, true, false));
}

#[test]
fn cleanup_tries_deeper_directories_first() {
    let sources: Vec<String> = vec![
        "/lib/a/b/x.mkv".into(),
        "/lib/a/y.mkv".into(),
        "/lib/a/b/z.mkv".into(),
        "/lib/a.b/w.mkv".into(),
        "v.mkv".into(),
    ];
    let dirs = cleanup_candidates(&sources);
    assert_eq!(dirs, vec!["/lib/a.b".to_string(), "/lib/a/b".to_string(), "/lib/a".to_string(), "".to_string()]);
    let mut r = medio::report::ExecutionReport::new("organize");
    record_cleanup(&mut r, "/lib/a/b");
    assert_eq!(r.executed, 1);
    assert_eq!(r.details, vec!["[cleanup] removed empty dir /lib/a/b".to_string()]);
}

#[test]
fn dedup_dry_run_holds_back_guarded_groups() {
    let groups = vec![
        DryRunGroup {
            content_id: "version:same".into(),
            guardrails: vec!["quality delta between kept and removed versions is too small".into()],
            dropped: vec![("/tmp/b.mkv".into(), "0.0".into())],
        },
        DryRunGroup { content_id: "hash:7".into(), guardrails: vec![], dropped: vec![("/tmp/c.mkv".into(), "1.5".into())] },
    ];
    let r = dedup_dry_run(DupAction::Trash, &groups);
    assert_eq!(r.guarded, 1);
    assert_eq!(r.executed, 1);
    assert_eq!(r.errors, 0);
    assert_eq!(
        r.details,
        vec![
            "[guard] version:same".to_string(),
            "  - quality delta between kept and removed versions is too small".to_string(),
            "[dry-run] REMOVE /tmp/c.mkv (score: 1.5)".to_string(),
        ]
    );
    let r = dedup_dry_run(DupAction::Report, &groups);
    assert_eq!(r.guarded, 0);
    assert_eq!(r.executed, 2);
    assert!(r.details.iter().all(|l| l.starts_with("[dry-run] REMOVE")));
}

#[test]
fn rename_run_goes_on_after_a_failure() {
    assert!(rename_skipped(true, false, false));
    assert!(rename_skipped(true, true, true));
    assert!(!rename_skipped(true, true, false));
    assert!(!rename_skipped(false, false, true));
    let plans = vec![RenamePlan {
        old_path: "/m/a.mkv".into(),
        new_path: "/m/A.mkv".into(),
        subtitle_plans: vec![SubtitleRenamePlan { old_path: "/m/a.srt".into(), new_path: "/m/A.srt".into() }],
        directory_plans: vec![DirectoryRenamePlan { old_path: "/m".into(), new_path: "/M".into() }],
        rationale: vec![],
        conflicts: vec![],
    }];
    let steps = rename_steps(&plans);
    let outcomes = vec![StepOutcome::Failed("denied".into()), StepOutcome::Done, StepOutcome::NotRun];
    let r = rename_run_report(&steps, &outcomes);
    assert_eq!(r.executed, 1);
    assert_eq!(r.errors, 1);
    assert_eq!(
        r.details,
        vec!["[error] /m/a.mkv \u{2192} /m/A.mkv: denied".to_string(), "[renamed] /m/a.srt \u{2192} /m/A.srt".to_string()]
    );
}

#[test]
fn organize_run_skips_blocked_plans_and_stops_a_plan_without_its_directory() {
    let plans = vec![
        organize_plan("/in/a.mkv", "/lib/A/a.mkv", false, &[], &["target taken"]),
        organize_plan("/in/b.mkv", "/lib/B/b.mkv", true, &[], &[]),
        organize_plan("/in/c.mkv", "/lib/C/c.mkv", false, &[], &[]),
    ];
    let steps = organize_steps(&plans[1]);
    assert!(!operation_goes_on(&steps[0], &StepOutcome::Failed("no space".into())));
    assert!(operation_goes_on(&steps[1], &StepOutcome::Failed("busy".into())));
    let outcomes = vec![
        vec![],
        vec![StepOutcome::Failed("no space".into()), StepOutcome::Done, StepOutcome::Done],
        vec![StepOutcome::Done, StepOutcome::Done],
    ];
    let r = organize_run_report(&plans, &outcomes);
    assert_eq!(r.blocked, 1);
    assert_eq!(r.executed, 1);
    assert_eq!(r.errors, 1);
    assert_eq!(r.asset_generated, 0);
    assert_eq!(
        r.details,
        vec![
            "[conflict] /in/a.mkv".to_string(),
            "  - target taken".to_string(),
            "[error] mkdir /lib/B: no space".to_string(),
            "[move] /in/c.mkv \u{2192} /lib/C/c.mkv".to_string(),
        ]
    );
}
