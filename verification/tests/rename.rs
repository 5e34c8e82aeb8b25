use medio::config::RenameConfig;
use medio::media::{MediaItem, ParsedInfo, ScrapeResult};
use medio::paths::file_name;
use medio::rename::{
    is_advanced_template, render_advanced_template, render_legacy_template, rename_dir_plan_if_needed, sanitize_name,
    template_mentions_ext, template_vars, FsEntry, Renamer,
};
use medio::types::{MediaType, ParseSource, ScrapeSource};

fn make_config() -> RenameConfig {
    RenameConfig::default()
}

fn make_movie_item(title: &str, year: Option<u16>) -> MediaItem {
    MediaItem {
        id: 0,
        path: format!("/tmp/{title}.mp4"),
        file_size: 1024,
        media_type: MediaType::Movie,
        extension: "mp4".into(),
        parsed: Some(ParsedInfo {
            raw_title: title.into(),
            year,
            season: None,
            episode: None,
            resolution: Some("1080P".into()),
            codec: Some("H.264".into()),
            source: None,
            release_group: None,
            media_suffix: Some("1080P.H.264".into()),
            parse_source: ParseSource::Regex,
            evidence: vec![],
        }),
        scraped: None,
        content_evidence: None,
        hash: None,
    }
}

fn make_tv_item(title: &str, season: u32, episode: u32) -> MediaItem {
    MediaItem {
        id: 0,
        path: format!("/tmp/{title}.S{season:02}E{episode:02}.mp4"),
        file_size: 1024,
        media_type: MediaType::TvShow,
        extension: "mp4".into(),
        parsed: Some(ParsedInfo {
            raw_title: title.into(),
            year: None,
            season: Some(season),
            episode: Some(episode),
            resolution: None,
            codec: None,
            source: None,
            release_group: None,
            media_suffix: None,
            parse_source: ParseSource::Regex,
            evidence: vec![],
        }),
        scraped: None,
        content_evidence: None,
        hash: None,
    }
}

fn empty_scrape(title: &str) -> ScrapeResult {
    ScrapeResult {
        source: ScrapeSource::Tmdb,
        title: title.into(),
        title_original: None,
        year: None,
        overview: None,
        season_number: None,
        episode_number: None,
        episode_name: None,
        poster_url: None,
        fanart_url: None,
        artist: None,
        album: None,
        track_number: None,
        author: None,
        cover_url: None,
        tmdb_id: Some(1),
        musicbrainz_id: None,
        openlibrary_id: None,
        evidence: vec![],
    }
}

fn with_scraped_title(mut item: MediaItem, scraped_title: &str, year: Option<u16>) -> MediaItem {
    let mut s = empty_scrape(scraped_title);
    s.year = year;
    item.scraped = Some(s);
    item
}

fn with_scraped_episode(mut item: MediaItem, title: &str, season: u32, episode: u32) -> MediaItem {
    let mut s = empty_scrape(title);
    s.season_number = Some(season);
    s.episode_number = Some(episode);
    s.episode_name = Some("Pilot".into());
    item.scraped = Some(s);
    item
}

fn new_name(path: &str) -> String {
    file_name(path).unwrap()
}

#[test]
fn test_movie_template_render() {
    let renamer = Renamer::new(make_config());
    let item = make_movie_item("Inception", Some(2010));
    let plans = renamer.plan(&vec![item], &vec![]);
    assert!(!plans.is_empty());
    let name = new_name(&plans[0].new_path);
    assert!(name.contains("Inception"));
    assert!(name.ends_with(".mp4"));
}

#[test]
fn test_tv_template_render() {
    let renamer = Renamer::new(make_config());
    let item = make_tv_item("Breaking Bad", 1, 2);
    let plans = renamer.plan(&vec![item], &vec![]);
    assert!(!plans.is_empty());
    let name = new_name(&plans[0].new_path);
    assert!(name.contains("Breaking Bad"));
    assert!(name.contains("S01"));
    assert!(name.contains("E02"));
}

#[test]
fn test_tv_template_render_episode_only() {
    let renamer = Renamer::new(make_config());
    let mut item = make_tv_item("财阀家的小儿子", 1, 3);
    if let Some(parsed) = &mut item.parsed {
        parsed.season = None;
    }
    let item = with_scraped_episode(item, "财阀家的小儿子", 0, 3);
    let plans = renamer.plan(&vec![item], &vec![]);
    assert!(!plans.is_empty());
    let name = new_name(&plans[0].new_path);
    assert!(name.contains("E03"));
    assert!(!name.contains("SE03"));
}

#[test]
fn test_legacy_template_variables_match_media_renamer_ai_style() {
    let mut config = make_config();
    config.movie_template = "{title} ({year}) - {media_suffix}".into();
    let renamer = Renamer::new(config);
    let item = with_scraped_title(make_movie_item("Inception", Some(2010)), "盗梦空间", Some(2010));
    let plans = renamer.plan(&vec![item], &vec![]);
    assert_eq!(new_name(&plans[0].new_path), "盗梦空间 (2010) - 1080P.H.264.mp4");
}

#[test]
fn test_advanced_template_supports_conditionals_and_ext() {
    let mut config = make_config();
    config.tv_template = "{{ title }} - S{{ season }}E{{ episode }}{% if ep_name %} - {{ ep_name }}{% endif %}{{ ext }}".into();
    config.preserve_media_suffix = false;
    let renamer = Renamer::new(config);
    let item = with_scraped_episode(make_tv_item("Breaking Bad", 1, 2), "绝命毒师", 1, 2);
    let plans = renamer.plan(&vec![item], &vec![]);
    assert_eq!(new_name(&plans[0].new_path), "绝命毒师 - S01E02 - Pilot.mp4");
}

#[test]
fn test_empty_year_cleanup() {
    let renamer = Renamer::new(make_config());
    let item = make_movie_item("Test", None);
    let plans = renamer.plan(&vec![item], &vec![]);
    if !plans.is_empty() {
        let name = new_name(&plans[0].new_path);
        assert!(!name.contains("()"));
    }
}

#[test]
fn test_preserve_extension() {
    let renamer = Renamer::new(make_config());
    let item = make_movie_item("Movie", Some(2024));
    let plans = renamer.plan(&vec![item], &vec![]);
    assert!(!plans.is_empty());
    assert!(new_name(&plans[0].new_path).ends_with(".mp4"));
}

#[test]
fn test_scraped_title_overrides_parsed_title() {
    let renamer = Renamer::new(make_config());
    let item = with_scraped_title(make_movie_item("tt1234567", None), "Inception", Some(2010));
    let plans = renamer.plan(&vec![item], &vec![]);
    assert!(!plans.is_empty());
    let name = new_name(&plans[0].new_path);
    assert!(name.contains("Inception"));
    assert!(!name.contains("tt1234567"));
}

#[test]
fn test_preserve_media_suffix_appends_when_template_omits_it() {
    let mut config = make_config();
    config.movie_template = "{{title}}".into();
    let renamer = Renamer::new(config);
    let item = make_movie_item("Inception", Some(2010));
    let plans = renamer.plan(&vec![item], &vec![]);
    assert!(!plans.is_empty());
    assert!(new_name(&plans[0].new_path).contains("Inception - 1080P.H.264.mp4"));
}

#[test]
fn test_preserve_media_suffix_does_not_duplicate_when_template_includes_it() {
    let mut config = make_config();
    config.movie_template = "{{title}} - {{media_suffix}}".into();
    let renamer = Renamer::new(config);
    let item = make_movie_item("Inception", Some(2010));
    let plans = renamer.plan(&vec![item], &vec![]);
    assert!(!plans.is_empty());
    assert_eq!(new_name(&plans[0].new_path).matches("1080P.H.264").count(), 1);
}

#[test]
fn test_rename_subtitles_false_skips_subtitle_plans() {
    let dir = "/tmp/rename-subs";
    let listing = vec![
        FsEntry { path: format!("{dir}/Show.S01E01.mkv"), is_dir: false, is_file: true },
        FsEntry { path: format!("{dir}/Show.S01E01.srt"), is_dir: false, is_file: true },
    ];
    let mut item = make_tv_item("Show", 1, 1);
    item.path = format!("{dir}/Show.S01E01.mkv");

    let mut config = make_config();
    config.rename_subtitles = false;
    let renamer = Renamer::new(config);
    let plans = renamer.plan(&vec![item], &listing);
    assert!(!plans.is_empty());
    assert!(plans[0].subtitle_plans.is_empty());
}

#[test]
fn test_season_offset_applies_to_scraped_season() {
    let mut config = make_config();
    config.season_offset = -1;
    let renamer = Renamer::new(config);
    let item = with_scraped_episode(make_tv_item("Show", 2, 1), "Show", 2, 1);
    let plans = renamer.plan(&vec![item], &vec![]);
    assert!(!plans.is_empty());
    assert!(new_name(&plans[0].new_path).contains("S01E01"));
}

#[test]
fn test_tv_directory_plans_include_season_and_show_root() {
    let renamer = Renamer::new(make_config());
    let mut item = with_scraped_episode(make_tv_item("Noise", 1, 2), "9号秘事", 1, 2);
    item.path = "/tmp/9号秘事 1-9季(1)/S01/Noise.S01E02.mp4".into();

    let plans = renamer.plan(&vec![item], &vec![]);
    assert_eq!(plans.len(), 1);
    let dir_plans = &plans[0].directory_plans;
    assert_eq!(dir_plans.len(), 2);
    assert_eq!(dir_plans[0].new_path, "/tmp/9号秘事 1-9季(1)/Season 01");
    assert_eq!(dir_plans[1].new_path, "/tmp/9号秘事");
}

#[test]
fn test_movie_directory_plan_uses_title_and_year() {
    let renamer = Renamer::new(make_config());
    let mut item = with_scraped_title(make_movie_item("noise", Some(2025)), "刺杀小说家2", Some(2025));
    item.path = "/tmp/刺z杀z小z说家2 (2025) 4K 高码 HDR/noise.mkv".into();

    let plans = renamer.plan(&vec![item], &vec![]);
    assert_eq!(plans.len(), 1);
    assert_eq!(plans[0].directory_plans.len(), 1);
    assert_eq!(plans[0].directory_plans[0].new_path, "/tmp/刺杀小说家2 (2025)");
}

#[test]
fn test_directory_only_rename_still_generates_plan() {
    let renamer = Renamer::new(make_config());
    let mut item = with_scraped_episode(make_tv_item("9号秘事", 1, 2), "9号秘事", 1, 2);
    item.path = "/tmp/9号秘事/S01/9号秘事 - S01E02 - Pilot.mp4".into();

    let plans = renamer.plan(&vec![item], &vec![]);
    assert_eq!(plans.len(), 1);
    assert_eq!(plans[0].old_path, plans[0].new_path);
    assert_eq!(plans[0].directory_plans.len(), 1);
    assert_eq!(plans[0].directory_plans[0].new_path, "/tmp/9号秘事/Season 01");
}

#[test]
fn test_movie_directory_plan_skips_tv_extras_folder() {
    let root = "/tmp/extras-root";
    let show_dir = format!("{root}/9号秘事");
    let extras_dir = format!("{show_dir}/万圣节特别篇");
    let listing = vec![
        FsEntry { path: format!("{show_dir}/Season 01"), is_dir: true, is_file: false },
        FsEntry { path: extras_dir.clone(), is_dir: true, is_file: false },
    ];

    let renamer = Renamer::new(make_config());
    let mut item = with_scraped_title(make_movie_item("noise", None), "九号秘事特辑", None);
    item.path = format!("{extras_dir}/noise.mp4");

    let plans = renamer.plan(&vec![item], &listing);
    assert_eq!(plans.len(), 1);
    assert!(plans[0].directory_plans.is_empty());
}

#[test]
fn subtitles_follow_the_video() {
    let dir = "/tmp/subs";
    let listing = vec![
        FsEntry { path: format!("{dir}/Show.S01E01.mkv"), is_dir: false, is_file: true },
        FsEntry { path: format!("{dir}/Show.S01E01.zh.SRT"), is_dir: false, is_file: true },
        FsEntry { path: format!("{dir}/Show.S01E01-forced.ass"), is_dir: false, is_file: true },
        FsEntry { path: format!("{dir}/Other.srt"), is_dir: false, is_file: true },
        FsEntry { path: format!("{dir}/Show.S01E01.nfo"), is_dir: false, is_file: true },
    ];
    let mut item = make_tv_item("Show", 1, 1);
    item.path = format!("{dir}/Show.S01E01.mkv");
    let mut config = make_config();
    config.tv_template = "{title} S{season}E{episode}".into();
    let renamer = Renamer::new(config);
    let plans = renamer.plan(&vec![item], &listing);
    assert_eq!(plans.len(), 1);
    assert_eq!(plans[0].new_path, format!("{dir}/Show S01E01.mkv"));
    let subs: Vec<(String, String)> = plans[0]
        .subtitle_plans
        .iter()
        .map(|p| (p.old_path.clone(), p.new_path.clone()))
        .collect();
    assert_eq!(
        subs,
        vec![
            (format!("{dir}/Show.S01E01.zh.SRT"), format!("{dir}/Show S01E01.zh.SRT")),
            (format!("{dir}/Show.S01E01-forced.ass"), format!("{dir}/Show S01E01-forced.ass")),
        ]
    );
}

#[test]
fn unchanged_name_gives_no_file_plan() {
    let mut config = make_config();
    config.movie_template = "{title}".into();
    config.preserve_media_suffix = false;
    let renamer = Renamer::new(config);
    let item = make_movie_item("Same", None);
    let plans = renamer.plan(&vec![item], &vec![]);
    // only the folder plan remains, as a plan of its own
    assert_eq!(plans.len(), 1);
    assert_eq!(plans[0].old_path, "/tmp");
    assert_eq!(plans[0].new_path, "/tmp");
    assert_eq!(plans[0].directory_plans[0].new_path, "/Same");
}

#[test]
fn legacy_render_substitutes_in_order() {
    let item = with_scraped_episode(make_tv_item("Show", 3, 4), "Show", 3, 4);
    let vars = template_vars(&item, 0);
    assert_eq!(vars.s.as_deref(), Some("03"));
    assert_eq!(vars.ext, ".mp4");
    assert_eq!(vars.provider, "tmdb");
    assert_eq!(vars.media_id, "1");
    assert!(vars.is_tv);
    let out = render_legacy_template("{title}.S{s:02d}E{e:02d}.{ep_name}{ext}", &vars, false);
    assert_eq!(out, "Show.S03E04.Pilot.mp4");
}

#[test]
fn template_kind_checks() {
    assert!(template_mentions_ext("{title}{ext}"));
    assert!(template_mentions_ext("{{ ext }}"));
    assert!(!template_mentions_ext("{title}"));
    assert!(is_advanced_template("{{title}}"));
    assert!(is_advanced_template("{% if x %}{% endif %}"));
    assert!(!is_advanced_template("{title}"));
}

#[test]
fn sanitize_name_replaces_and_collapses() {
    assert_eq!(sanitize_name("  a:b   c?  "), "a_b c_");
}

#[test]
fn dir_plan_skips_same_name() {
    assert!(rename_dir_plan_if_needed("/tmp/Show", "Show").is_none());
    assert!(rename_dir_plan_if_needed("/tmp/x", "  ").is_none());
    let p = rename_dir_plan_if_needed("/tmp/x", "Good: Name").unwrap();
    assert_eq!(p.old_path, "/tmp/x");
    assert_eq!(p.new_path, "/tmp/Good_ Name");
}

#[test]
fn already_named_file_gets_no_plan() {
    let mut config = make_config();
    config.movie_template = "{title} ({year})".into();
    config.preserve_media_suffix = false;
    let renamer = Renamer::new(config);
    let mut item = make_movie_item("Inception", Some(2010));
    item.path = "/movies/Inception (2010)/Inception (2010).mp4".into();
    let plans = renamer.plan(&vec![item], &Vec::new());
    assert!(plans.is_empty());

    let mut elsewhere = make_movie_item("Inception", Some(2010));
    elsewhere.path = "/movies/Inception (2010)/inception.mp4".into();
    let moved = renamer.plan(&vec![elsewhere], &Vec::new());
    assert_eq!(moved.len(), 1);
    assert_eq!(moved[0].new_path, "/movies/Inception (2010)/Inception (2010).mp4");
}

#[test]
fn engine_render_keeps_plain_text_and_fills_tags() {
    let item = with_scraped_episode(make_tv_item("Show", 3, 4), "Show", 3, 4);
    let vars = template_vars(&item, 0);
    assert_eq!(
        render_advanced_template("Plain {title} name", &vars, false).as_deref(),
        Some("Plain {title} name")
    );
    assert_eq!(
        render_advanced_template("{{ title }} S{{ s }}E{{ e }}{{ ext }}", &vars, false).as_deref(),
        Some("Show S03E04.mp4")
    );
    assert_eq!(render_advanced_template("{{ title", &vars, false), None);
}

#[test]
fn rendered_names_hold_no_illegal_path_characters() {
    let renamer = Renamer::new(make_config());
    let item = with_scraped_title(make_movie_item("x", None), "Movie: A/B", None);
    let plans = renamer.plan(&vec![item], &vec![]);
    assert!(!plans.is_empty());
    let name = new_name(&plans[0].new_path);
    assert!(name.starts_with("Movie_ A_B"), "{name}");
    assert!(!name.contains(|c| "/\\:*?\"<>|".contains(c)));
    let mut config = make_config();
    config.movie_template = "{title}: {year}?{ext}".into();
    config.preserve_media_suffix = false;
    let renamer = Renamer::new(config);
    let item = make_movie_item("Film", Some(2001));
    let rendered = renamer.render_template("{title}: {year}?{ext}", &item);
    assert_eq!(rendered.as_deref(), Some("Film_ 2001_.mp4"));
}

#[test]
fn engine_is_only_handed_safe_templates() {
    let item = with_scraped_episode(make_tv_item("Show", 3, 4), "Show", 3, 4);
    let vars = template_vars(&item, 0);
    assert_eq!(render_advanced_template("{{ 9223372036854775807 | date }}", &vars, false), None);
    assert_eq!(render_advanced_template("{{ now() }}", &vars, false), None);
    assert_eq!(render_advanced_template("{% filter upper %}{{ title }}{% endfilter %}", &vars, false), None);
    assert_eq!(
        render_advanced_template(
            "{{ title }} - S{{ season }}E{{ episode }}{% if ep_name %} - {{ ep_name }}{% endif %}{{ ext }}",
            &vars,
            false
        )
        .as_deref(),
        Some("Show - S03E04 - Pilot.mp4")
    );
    assert!(medio::rename::is_engine_safe("{{ title }} (2010) {{- ext -}}"));
    assert!(!medio::rename::is_engine_safe("{{ year + 1 }}"));
}

#[test]
fn finish_tail_cleans_and_rejects_empty_names() {
    let v: Vec<char> = "A: B?.mkv".chars().collect();
    assert_eq!(medio::rename::finish_tail(&v).as_deref(), Some("A_ B_.mkv"));
    assert_eq!(medio::rename::finish_tail(&[]), None);
}
