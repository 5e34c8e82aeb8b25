use medio::media::{MediaItem, ParsedInfo};
use medio::report::ExecutionReport;
use medio::tui::{
    confirm_lines, filtered_group_indices, filtered_item_indices, filtered_path_pairs,
    last_report_lines, AppState, Key,
    PlanCounts, UiCommand, plan_counts,
};
use medio::types::{Mode, PendingAction, Tab, ViewMode};

fn counts() -> PlanCounts {
    PlanCounts {
        rename_total: 0,
        rename_blocked: 0,
        dedup_groups: 0,
        dedup_removals: 0,
        dedup_guarded: 0,
        organize_total: 0,
        organize_blocked: 0,
        organize_nfo: 0,
        organize_images: 0,
    }
}

#[test]
fn test_request_rename_execute_enters_confirm_mode() {
    let mut app = AppState::new();
    app.request_rename_execute(1, 0);
    assert_eq!(app.mode, Mode::Confirm);
    assert_eq!(app.pending_action, Some(PendingAction::Rename));
}

#[test]
fn test_confirm_rename_execute_clears_pending_action() {
    let mut app = AppState::new();
    app.request_rename_execute(1, 0);
    let action = app.take_pending_action();
    assert_eq!(action, Some(PendingAction::Rename));
    let report = ExecutionReport::new("rename");
    app.finish_execution(report.summary_line());
    assert_eq!(app.mode, Mode::Normal);
    assert_eq!(app.pending_action, None);
    assert!(app.status_msg.contains("Rename executed"));
}

#[test]
fn test_request_dedup_execute_enters_confirm_mode() {
    let mut app = AppState::new();
    app.request_dedup_execute(1, 1, 0);
    assert_eq!(app.mode, Mode::Confirm);
    assert_eq!(app.pending_action, Some(PendingAction::Dedup));
    assert!(app.status_msg.contains("guarded_groups=0"));
}

#[test]
fn test_confirm_dedup_execute_clears_pending_action() {
    let mut app = AppState::new();
    app.request_dedup_execute(1, 1, 0);
    let action = app.take_pending_action();
    assert_eq!(action, Some(PendingAction::Dedup));
    let report = ExecutionReport::new("dedup");
    app.finish_execution(report.summary_line());
    assert_eq!(app.mode, Mode::Normal);
    assert_eq!(app.pending_action, None);
    assert!(app.status_msg.contains("Dedup executed"));
}

#[test]
fn test_request_organize_execute_enters_confirm_mode() {
    let mut app = AppState::new();
    app.request_organize_execute(1, 0, 0, 0);
    assert_eq!(app.mode, Mode::Confirm);
    assert_eq!(app.pending_action, Some(PendingAction::Organize));
    assert!(app.status_msg.contains("nfo=0"));
}

#[test]
fn test_confirm_lines_include_guarded_dedup_summary() {
    let mut c = counts();
    c.dedup_groups = 1;
    c.dedup_removals = 1;
    c.dedup_guarded = 1;
    let mut app = AppState::new();
    app.request_dedup_execute(c.dedup_groups, c.dedup_removals, c.dedup_guarded);
    let lines = confirm_lines(app.pending_action, &c);
    assert!(lines.iter().any(|line| line.contains("Guarded groups: 1")));
}

#[test]
fn test_confirm_lines_include_organize_asset_summary() {
    let mut c = counts();
    c.organize_total = 1;
    c.organize_nfo = 1;
    c.organize_images = 1;
    let mut app = AppState::new();
    app.request_organize_execute(1, 0, 1, 1);
    let lines = confirm_lines(app.pending_action, &c);
    assert!(lines.iter().any(|line| line.contains("Trusted assets: nfo=1 image=1")));
}

#[test]
fn test_last_report_lines_expose_recent_execution_summary() {
    let report = ExecutionReport {
        operation: "rename".into(),
        executed: 2,
        blocked: 1,
        guarded: 0,
        skipped: 0,
        errors: 0,
        asset_generated: 0,
        details: vec!["[renamed] /tmp/a -> /tmp/b".into()],
    };
    let lines = last_report_lines(&Some(report));
    assert!(lines.iter().any(|line| line.contains("Last Run: Rename executed: 2 actions")));
    assert!(lines.iter().any(|line| line.contains("[renamed] /tmp/a -> /tmp/b")));
}

#[test]
fn test_cancel_pending_action_resets_mode() {
    let mut app = AppState::new();
    app.request_rename_execute(1, 0);
    app.cancel_pending_action();
    assert_eq!(app.mode, Mode::Normal);
    assert_eq!(app.pending_action, None);
    assert_eq!(app.status_msg, "Cancelled");
}

#[test]
fn navigation_keys() {
    let mut app = AppState::new();
    let c = counts();
    assert_eq!(app.handle_normal(Key::Down, 3, &c), UiCommand::Nothing);
    assert_eq!(app.selected, 1);
    app.handle_normal(Key::End, 3, &c);
    assert_eq!(app.selected, 2);
    app.handle_normal(Key::Char('j'), 3, &c);
    assert_eq!(app.selected, 2);
    app.handle_normal(Key::PageUp, 3, &c);
    assert_eq!(app.selected, 0);
    app.handle_normal(Key::Tab, 3, &c);
    assert_eq!(app.tab, Tab::Dedup);
    app.handle_normal(Key::BackTab, 3, &c);
    assert_eq!(app.tab, Tab::Scan);
    app.handle_normal(Key::Char('v'), 3, &c);
    assert_eq!(app.view_mode, ViewMode::Tree);
    assert_eq!(app.status_msg, "View: Tree");
    app.handle_normal(Key::Char('3'), 3, &c);
    assert_eq!(app.tab, Tab::Rename);
    assert_eq!(app.handle_normal(Key::Char('s'), 3, &c), UiCommand::Scan);
    assert_eq!(app.handle_normal(Key::Enter, 3, &c), UiCommand::DescribeSelection);
    app.handle_normal(Key::Char('x'), 3, &c);
    assert_eq!(app.status_msg, "No rename plans to execute");
    app.handle_normal(Key::Char('q'), 3, &c);
    assert!(app.should_quit);
}

#[test]
fn search_and_confirm_keys() {
    let mut app = AppState::new();
    let c = counts();
    app.handle_normal(Key::Char('/'), 0, &c);
    assert_eq!(app.mode, Mode::Search);
    app.handle_search(Key::Char('a'), 0);
    app.handle_search(Key::Char('b'), 0);
    app.handle_search(Key::Backspace, 0);
    assert_eq!(app.search_query, "a");
    app.handle_search(Key::Enter, 4);
    assert_eq!(app.mode, Mode::Normal);
    assert_eq!(app.status_msg, "Found 4 results");
    app.request_organize_execute(2, 1, 0, 0);
    assert_eq!(app.handle_confirm(Key::Char('y')), UiCommand::Execute(PendingAction::Organize));
    assert_eq!(app.pending_action, None);
    assert_eq!(app.handle_confirm(Key::Enter), UiCommand::Nothing);
    assert_eq!(app.status_msg, "Nothing to confirm");
}

fn item(path: &str, title: &str) -> MediaItem {
    MediaItem {
        id: 0,
        path: path.into(),
        file_size: 1,
        media_type: medio::types::MediaType::Movie,
        extension: "mkv".into(),
        parsed: Some(ParsedInfo {
            raw_title: title.into(),
            year: None,
            season: None,
            episode: None,
            resolution: None,
            codec: None,
            source: None,
            release_group: None,
            media_suffix: None,
            parse_source: medio::types::ParseSource::Regex,
            evidence: vec![],
        }),
        scraped: None,
        content_evidence: None,
        hash: None,
    }
}

#[test]
fn search_filters_by_name_and_title() {
    let items = vec![item("/m/Alpha.mkv", "x"), item("/m/b.mkv", "BETA movie"), item("/m/c.mkv", "z")];
    assert_eq!(filtered_item_indices(&items, ""), vec![0, 1, 2]);
    assert_eq!(filtered_item_indices(&items, "alp"), vec![0]);
    assert_eq!(filtered_item_indices(&items, "Beta"), vec![1]);
    let pairs = vec![("/a/x.mkv".to_string(), "/b/Y.mkv".to_string())];
    assert_eq!(filtered_path_pairs(&pairs, "y.m"), vec![0]);
    assert!(filtered_path_pairs(&pairs, "zz").is_empty());
}

#[test]
fn group_search_matches_content_id_and_member_names() {
    let groups = vec![
        ("hash:42".to_string(), vec!["/m/Alien.1979.mkv".to_string(), "/m/copy/Alien.mkv".to_string()]),
        ("tmdb:movie:9:2010".to_string(), vec!["/m/Inception.mkv".to_string()]),
        ("fallback:Heat|1995|S00E00:feature".to_string(), vec!["/m/HEAT.avi".to_string()]),
    ];
    assert_eq!(filtered_group_indices(&groups, ""), vec![0, 1, 2]);
    assert_eq!(filtered_group_indices(&groups, "TMDB"), vec![1]);
    assert_eq!(filtered_group_indices(&groups, "alien"), vec![0]);
    assert_eq!(filtered_group_indices(&groups, "heat"), vec![2]);
    assert_eq!(filtered_group_indices(&groups, "copy"), Vec::<usize>::new());
}

#[test]
fn x_on_scan_tab_changes_nothing() {
    let mut app = AppState::new();
    let mut c = counts();
    c.rename_total = 3;
    c.dedup_groups = 1;
    c.dedup_removals = 1;
    c.organize_total = 2;
    let cmd = app.handle_normal(Key::Char('x'), 5, &c);
    assert_eq!(cmd, UiCommand::Nothing);
    assert_eq!(app.mode, Mode::Normal);
    assert_eq!(app.pending_action, None);
    assert_eq!(app.tab, Tab::Scan);
    assert_eq!(app.status_msg, AppState::new().status_msg);
}

#[test]
fn x_with_nothing_to_run_only_says_so() {
    let mut app = AppState::new();
    app.handle_normal(Key::Char('3'), 0, &counts());
    app.handle_normal(Key::Char('x'), 0, &counts());
    assert_eq!(app.mode, Mode::Normal);
    assert_eq!(app.pending_action, None);
    assert_eq!(app.status_msg, "No rename plans to execute");
    app.handle_normal(Key::Char('2'), 0, &counts());
    app.handle_normal(Key::Char('x'), 0, &counts());
    assert_eq!(app.status_msg, "No duplicate groups to execute");
}

#[test]
fn plan_counts_tally_the_plans() {
    let rename = medio::media::RenamePlan {
        old_path: "/a.mkv".into(),
        new_path: "/b.mkv".into(),
        subtitle_plans: vec![],
        directory_plans: vec![],
        rationale: vec![],
        conflicts: vec!["taken".into()],
    };
    let groups = vec![
        medio::execute::DryRunGroup {
            content_id: "hash:1".into(),
            guardrails: vec!["g".into()],
            dropped: vec![("/x".into(), "1.0".into()), ("/y".into(), "2.0".into())],
        },
        medio::execute::DryRunGroup { content_id: "hash:2".into(), guardrails: vec![], dropped: vec![("/z".into(), "3.0".into())] },
    ];
    let c = plan_counts(&vec![rename], &groups, &vec![]);
    assert_eq!(c.rename_total, 1);
    assert_eq!(c.rename_blocked, 1);
    assert_eq!(c.dedup_groups, 2);
    assert_eq!(c.dedup_removals, 3);
    assert_eq!(c.dedup_guarded, 1);
    assert_eq!(c.organize_total, 0);
}
