use medio::config::OrganizeConfig;
use medio::media::{MediaItem, ParsedInfo};
use medio::organize::{
    preflight_conflicts, sanitize_filename, target_collides, target_count, Organizer,
    PreferredMetadata,
};
use medio::organize::{gate_line, gated_nfo, gated_urls, image_gate_status, nfo_gate_status};
use medio::types::{
    AssetGateStatus, ConfirmationState, LinkMode, MediaType, OrganizeAction, OrganizeMode, ParseSource,
    ScrapeSource,
};

fn make_org_config() -> OrganizeConfig {
    let mut c = OrganizeConfig::default();
    c.root = "/library".into();
    c
}

fn parsed(title: &str, season: Option<u32>) -> ParsedInfo {
    ParsedInfo {
        raw_title: title.into(),
        year: None,
        season,
        episode: season.map(|_| 1),
        resolution: None,
        codec: None,
        source: None,
        release_group: None,
        media_suffix: None,
        parse_source: ParseSource::Regex,
        evidence: vec![],
    }
}

fn make_movie_item(title: &str) -> MediaItem {
    MediaItem {
        id: 0,
        path: format!("/tmp/source/{title}.mp4"),
        file_size: 1024,
        media_type: MediaType::Movie,
        extension: "mp4".into(),
        parsed: Some(parsed(title, None)),
        scraped: None,
        content_evidence: None,
        hash: None,
    }
}

fn make_tv_item(title: &str, season: u32) -> MediaItem {
    MediaItem {
        id: 0,
        path: format!("/tmp/source/{title}.S{season:02}E01.mp4"),
        file_size: 1024,
        media_type: MediaType::TvShow,
        extension: "mp4".into(),
        parsed: Some(parsed(title, Some(season))),
        scraped: None,
        content_evidence: None,
        hash: None,
    }
}

fn preferred(item: &MediaItem) -> PreferredMetadata {
    let p = item.parsed.as_ref().unwrap();
    PreferredMetadata { title: Some(p.raw_title.clone()), season: p.season }
}

fn plan(item: &MediaItem, mode: OrganizeMode, link: LinkMode) -> Option<(String, OrganizeAction)> {
    let organizer = Organizer::new(make_org_config());
    let root = organizer.library_root();
    organizer.plan_target(item, &root, mode, link, &preferred(item))
}

#[test]
fn test_archive_mode_movie() {
    let item = make_movie_item("Inception");
    let (target, _) = plan(&item, OrganizeMode::Archive, LinkMode::NoLink).unwrap();
    assert!(target.contains("Movies"));
    assert!(target.contains("Inception"));
}

#[test]
fn test_archive_mode_tv_with_season() {
    let item = make_tv_item("Breaking Bad", 2);
    let (target, _) = plan(&item, OrganizeMode::Archive, LinkMode::NoLink).unwrap();
    assert!(target.contains("TV Shows"));
    assert!(target.contains("Season 02"));
}

#[test]
fn test_rename_mode_same_dir() {
    let item = make_movie_item("Test");
    // Rename mode keeps the same parent directory, so there is nothing to move
    assert!(plan(&item, OrganizeMode::Rename, LinkMode::NoLink).is_none());
}

#[test]
fn test_symlink_mode() {
    let item = make_movie_item("Test");
    let (_, action) = plan(&item, OrganizeMode::Archive, LinkMode::Sym).unwrap();
    assert_eq!(action, OrganizeAction::SymLink);
}

#[test]
fn test_hardlink_mode() {
    let item = make_movie_item("Test");
    let (_, action) = plan(&item, OrganizeMode::Archive, LinkMode::Hard).unwrap();
    assert_eq!(action, OrganizeAction::HardLink);
}

#[test]
fn test_sanitize_filename() {
    assert_eq!(sanitize_filename("Movie: A/B"), "Movie_ A_B");
    assert_eq!(sanitize_filename("Clean Title"), "Clean Title");
    assert_eq!(sanitize_filename("What?<>*"), "What____");
}

#[test]
fn archive_targets_exactly() {
    let item = make_tv_item("Show: X", 3);
    let (target, action) = plan(&item, OrganizeMode::Archive, LinkMode::NoLink).unwrap();
    assert_eq!(target, "/library/TV Shows/Show_ X/Season 03/Show: X.S03E01.mp4");
    assert_eq!(action, OrganizeAction::Copy);
    let organizer = Organizer::new(make_org_config());
    let untitled = PreferredMetadata { title: None, season: None };
    let movie = make_movie_item("Film");
    assert_eq!(
        organizer.target_dir(&movie, "/library", OrganizeMode::Archive, &untitled),
        Some("/library/Movies/Unknown".to_string())
    );
    assert_eq!(organizer.target_dir(&movie, "/library", OrganizeMode::Local, &untitled), None);
}

#[test]
fn local_mode_stays_beside_the_file() {
    let item = make_movie_item("Film");
    let (target, _) = plan(&item, OrganizeMode::Local, LinkMode::NoLink).unwrap();
    assert_eq!(target, "/tmp/source/Film/Film.mp4");
}

#[test]
fn default_root_is_current_dir() {
    let organizer = Organizer::new(OrganizeConfig::default());
    assert_eq!(organizer.library_root(), ".");
}

#[test]
fn collisions_counted_by_target() {
    let targets = vec!["/a".to_string(), "/b".to_string(), "/a".to_string()];
    assert_eq!(target_count(&targets, "/a"), 2);
    assert!(target_collides(&targets, 0));
    assert!(!target_collides(&targets, 1));
    assert!(target_collides(&targets, 2));
}

#[test]
fn test_preflight_detects_existing_target_conflict() {
    let item = make_movie_item("Inception");
    let (target, _) = plan(&item, OrganizeMode::Archive, LinkMode::NoLink).unwrap();
    assert_eq!(target, "/library/Movies/Inception/Inception.mp4");
    let targets = vec![target.clone()];
    let existing = vec![target.clone()];
    let conflicts = preflight_conflicts(&targets, 0, &item.path, false, &vec![], &existing);
    assert!(conflicts.iter().any(|msg| msg.contains("already exists")));
}

#[test]
fn preflight_reports_each_kind_of_conflict_in_order() {
    let targets = vec![
        "/library/Movies/A/A.mkv".to_string(),
        "/library/Movies/A/A.mkv".to_string(),
    ];
    let urls = vec!["http://x/p.png".to_string(), "http://x/f.jpg".to_string()];
    let existing = vec![
        "/library/Movies/A/A.mkv".to_string(),
        "/library/Movies/A/A.nfo".to_string(),
        "/library/Movies/A/fanart.jpg".to_string(),
    ];
    let conflicts = preflight_conflicts(&targets, 0, "/src/A.mkv", true, &urls, &existing);
    assert_eq!(
        conflicts,
        vec![
            "target path collides with another organize plan: /library/Movies/A/A.mkv".to_string(),
            "target path already exists on disk: /library/Movies/A/A.mkv".to_string(),
            "nfo target already exists on disk: /library/Movies/A/A.nfo".to_string(),
            "image target already exists on disk: /library/Movies/A/fanart.jpg".to_string(),
        ]
    );
    // A plan whose target is its own source, with no NFO, only collides.
    let alone = vec!["/library/Movies/A/A.mkv".to_string()];
    let none = preflight_conflicts(&alone, 0, "/library/Movies/A/A.mkv", false, &vec![], &existing);
    assert!(none.is_empty());
}

#[test]
fn nfo_gate_statuses() {
    let c = Some(ConfirmationState::Confirmed);
    assert_eq!(nfo_gate_status(false, Some(ScrapeSource::Tmdb), c, true), AssetGateStatus::DisabledByConfig);
    assert_eq!(nfo_gate_status(true, None, c, true), AssetGateStatus::MissingMetadata);
    assert_eq!(nfo_gate_status(true, Some(ScrapeSource::Guess), c, true), AssetGateStatus::UntrustedSource);
    assert_eq!(
        nfo_gate_status(true, Some(ScrapeSource::Tmdb), Some(ConfirmationState::AmbiguousCandidates), true),
        AssetGateStatus::IdentityUnconfirmed
    );
    assert_eq!(nfo_gate_status(true, Some(ScrapeSource::Tmdb), c, false), AssetGateStatus::LowAuthority);
    assert_eq!(nfo_gate_status(true, Some(ScrapeSource::Tmdb), c, true), AssetGateStatus::Accepted);
    assert_eq!(
        nfo_gate_status(true, Some(ScrapeSource::AiAssist), Some(ConfirmationState::HighConfidenceCandidate), true),
        AssetGateStatus::IdentityUnconfirmed
    );
    assert_eq!(
        nfo_gate_status(true, Some(ScrapeSource::Tmdb), Some(ConfirmationState::HighConfidenceCandidate), true),
        AssetGateStatus::Accepted
    );
}

#[test]
fn image_gate_statuses() {
    let c = Some(ConfirmationState::Confirmed);
    assert_eq!(image_gate_status(true, Some(ScrapeSource::AiAssist), c, true, 2), AssetGateStatus::UntrustedSource);
    assert_eq!(image_gate_status(true, Some(ScrapeSource::Tmdb), c, true, 0), AssetGateStatus::MissingAssetUrls);
    assert_eq!(image_gate_status(true, Some(ScrapeSource::Tmdb), c, true, 1), AssetGateStatus::Accepted);
    assert_eq!(image_gate_status(false, None, None, false, 0), AssetGateStatus::DisabledByConfig);
}

#[test]
fn sanitizing_twice_changes_nothing() {
    for raw in ["  Movie: A/B  ", "a*b?c", "plain", "  "] {
        let once = sanitize_filename(raw);
        assert_eq!(sanitize_filename(&once), once);
    }
    assert_eq!(sanitize_filename("  Movie: A/B  "), "Movie_ A_B");
}

fn nfo_src(title: &str, poster: Option<String>) -> medio::nfo::NfoSource {
    medio::nfo::NfoSource {
        media_type: MediaType::Movie,
        title: title.into(),
        title_original: None,
        year: None,
        overview: None,
        rating_text: None,
        season_number: None,
        episode_number: None,
        episode_name: None,
        poster_url: poster,
        fanart_url: None,
        artist: None,
        album: None,
        tmdb_id: None,
        musicbrainz_id: None,
        openlibrary_id: None,
        duration_secs: None,
        evidence_runtime_secs: None,
    }
}

#[test]
fn test_nfo_generation_blocked_for_low_confidence_guess() {
    // A guess scraped with confidence 0.45 under an identity without
    // evidence: the score is under the NFO threshold.
    let status = nfo_gate_status(true, Some(ScrapeSource::Guess), Some(ConfirmationState::InsufficientEvidence), false);
    assert_eq!(status, AssetGateStatus::UntrustedSource);
    let src = nfo_src("Noise", None);
    assert!(gated_nfo(status, Some(&src)).is_none());
    let line = gate_line(true, status, Some(ScrapeSource::Guess), None, 0, "0.45", "0.00");
    assert!(line.contains("Guess metadata is not trusted"));
}

#[test]
fn test_images_blocked_for_ai_metadata() {
    let urls = vec!["https://example.com/poster.jpg".to_string()];
    let status = image_gate_status(true, Some(ScrapeSource::AiAssist), None, false, urls.len());
    assert_eq!(status, AssetGateStatus::UntrustedSource);
    assert!(gated_urls(status, urls).is_empty());
    let line = gate_line(false, status, Some(ScrapeSource::AiAssist), None, 0, "0.70", "0.00");
    assert!(line.contains("AiAssist metadata is not trusted"));
}

#[test]
fn test_nfo_generation_blocked_for_ambiguous_identity() {
    let status = nfo_gate_status(true, Some(ScrapeSource::Tmdb), Some(ConfirmationState::AmbiguousCandidates), true);
    assert_eq!(status, AssetGateStatus::IdentityUnconfirmed);
    let src = nfo_src("Inception", None);
    assert!(gated_nfo(status, Some(&src)).is_none());
    let line = gate_line(true, status, Some(ScrapeSource::Tmdb), Some("ambiguous"), 0, "0.90", "0.80");
    assert!(line.contains("identity confirmation is not strong enough"));
    assert_eq!(line, "nfo gate: identity confirmation is not strong enough (ambiguous identity)");
}

#[test]
fn accepted_gates_keep_their_assets() {
    let src = nfo_src("Inception", None);
    let nfo = gated_nfo(AssetGateStatus::Accepted, Some(&src)).unwrap();
    assert!(nfo.contains("<title>Inception</title>"));
    let urls = vec!["u1".to_string(), "u2".to_string()];
    assert_eq!(gated_urls(AssetGateStatus::Accepted, urls.clone()), urls);
    assert_eq!(
        gate_line(false, AssetGateStatus::Accepted, None, None, 2, "", ""),
        "image gate: accepted 2 trusted asset urls"
    );
    assert_eq!(
        gate_line(true, AssetGateStatus::LowAuthority, None, Some("confirmed"), 0, "0.50", "0.80"),
        "nfo gate: scraped authority 0.50 below threshold 0.80 (confirmed identity)"
    );
}
