use medio::context::{starts_with_episode_marker, ContextInfer};
use medio::media::{MediaItem, ParsedInfo};
use medio::types::{MediaType, ParseSource};

fn make_parsed(title: &str) -> ParsedInfo {
    ParsedInfo {
        raw_title: title.into(),
        year: None,
        season: None,
        episode: None,
        resolution: None,
        codec: None,
        source: None,
        release_group: None,
        media_suffix: None,
        parse_source: ParseSource::Regex,
        evidence: vec![],
    }
}

fn dirs(list: &[&str]) -> Vec<String> {
    list.iter().map(|s| s.to_string()).collect()
}

#[test]
fn test_infer_season_from_dir() {
    let parsed = make_parsed("Episode 1");
    let result = ContextInfer::infer(&parsed, &dirs(&["/media/Show/Season 1"]));
    assert_eq!(result.season, Some(1));
}

#[test]
fn test_infer_season_s01() {
    let parsed = make_parsed("Episode 1");
    let result = ContextInfer::infer(&parsed, &dirs(&["/media/Show/S01"]));
    assert_eq!(result.season, Some(1));
}

#[test]
fn test_infer_year_from_dir() {
    let parsed = make_parsed("Movie");
    let result = ContextInfer::infer(&parsed, &dirs(&["/media/Movies/Movie (2023)"]));
    assert_eq!(result.year, Some(2023));
}

#[test]
fn test_no_infer_when_already_set() {
    let mut parsed = make_parsed("Show");
    parsed.season = Some(2);
    let result = ContextInfer::infer(&parsed, &dirs(&["/media/Show/Season 1"]));
    assert_eq!(result.season, Some(2));
}

#[test]
fn test_infer_title_from_dir() {
    let parsed = make_parsed("");
    let result = ContextInfer::infer(&parsed, &dirs(&["/media/Breaking Bad"]));
    assert_eq!(result.raw_title, "Breaking Bad");
}

#[test]
fn test_infer_title_for_episode_only_name() {
    let parsed = make_parsed("S07E02");
    let result = ContextInfer::infer(&parsed, &dirs(&["/media/9号秘事/S07", "/media/9号秘事"]));
    assert_eq!(result.raw_title, "9号秘事");
}

#[test]
fn test_infer_title_for_numeric_filename() {
    let parsed = make_parsed("01");
    let result = ContextInfer::infer(&parsed, &dirs(&["/media/财阀家的小儿子"]));
    assert_eq!(result.raw_title, "财阀家的小儿子");
}

#[test]
fn test_extract_episode_from_episode_only_title() {
    let parsed = make_parsed("01");
    let result = ContextInfer::infer(&parsed, &dirs(&["/media/财阀家的小儿子"]));
    assert_eq!(result.episode, Some(1));
}

#[test]
fn test_extract_season_and_episode_from_title() {
    let parsed = make_parsed("S07E02");
    let result = ContextInfer::infer(&parsed, &dirs(&["/media/9号秘事/S07", "/media/9号秘事"]));
    assert_eq!(result.season, Some(7));
    assert_eq!(result.episode, Some(2));
}

#[test]
fn test_infer_title_when_episode_marker_has_suffix_noise() {
    let parsed = make_parsed("S05E09. 中英字幕");
    let result = ContextInfer::infer(&parsed, &dirs(&["/media/黄石 1-5季/S05", "/media/黄石 1-5季"]));
    assert_eq!(result.raw_title, "黄石");
    assert_eq!(result.season, Some(5));
    assert_eq!(result.episode, Some(9));
}

#[test]
fn test_infer_title_from_noisy_filename_uses_cleaned_parent_dir() {
    let parsed = make_parsed("2025. .HQ. . .HDR. (2025) - . . .");
    let result = ContextInfer::infer(&parsed, &dirs(&["/media/刺z杀z小z说家2 (2025) 4K 高码 HDR"]));
    assert_eq!(result.raw_title, "刺杀小说家2");
    assert_eq!(result.year, Some(2025));
}

#[test]
fn test_infer_title_strips_season_pack_suffix_from_parent_dir() {
    let parsed = make_parsed("S09E02");
    let result = ContextInfer::infer(
        &parsed,
        &dirs(&["/media/9号秘事 1-9季(1)/S09", "/media/9号秘事 1-9季(1)"]),
    );
    assert_eq!(result.raw_title, "9号秘事");
}

#[test]
fn starts_with_episode_marker_cases() {
    assert!(starts_with_episode_marker("s01e02 rest"));
    assert!(starts_with_episode_marker("  S1E2"));
    assert!(!starts_with_episode_marker("S01"));
    assert!(!starts_with_episode_marker("SE01"));
    assert!(!starts_with_episode_marker("Show S01E02"));
}

#[test]
fn collect_parent_dirs_nearest_first() {
    assert_eq!(
        ContextInfer::collect_parent_dirs("/a/b/c/file.mkv", 2),
        vec!["/a/b/c".to_string(), "/a/b".to_string()]
    );
}

#[test]
fn enrich_item_marks_show_when_episode_found() {
    let mut item = MediaItem {
        id: 1,
        path: "/media/Some Show/Season 2/03.mkv".into(),
        file_size: 10,
        media_type: MediaType::Movie,
        extension: "mkv".into(),
        parsed: Some(make_parsed("03")),
        scraped: None,
        content_evidence: None,
        hash: None,
    };
    ContextInfer::enrich_item(&mut item);
    assert_eq!(item.media_type, MediaType::TvShow);
    let p = item.parsed.unwrap();
    assert_eq!(p.episode, Some(3));
    assert_eq!(p.season, Some(2));
    assert_eq!(p.raw_title, "Some Show");
    assert_eq!(p.parse_source, ParseSource::Context);
}
