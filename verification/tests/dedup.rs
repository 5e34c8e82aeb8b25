use medio::config::DedupConfig;
use medio::dedup::{
    leading_guardrails, exact_group_id, keep_flags, strategy_keep,
    group_summary, identity_confirmation_label, identity_is_trusted, version_group_key,
    version_key_groups, PreferredIdentity, episode_provenance_tag, exact_hash_groups, has_episode_cluster_siblings, is_commentary_track_title,
    is_extras_like_path, is_forced_track_title, is_preferred_subtitle_language, is_sample_like_path,
    largest_index, looks_like_season_pack_episode_path, newest_index, stem_contains_episode_marker,
    stem_is_episode_number, Deduplicator, DuplicateDecisionProfile,
};
use medio::hashing::FileHasher;
use medio::media::{HashInfo, MediaItem, ScrapeResult};
use medio::rename::FsEntry;
use medio::types::{ConfirmationState, DuplicateKind, KeepStrategy, MediaType, ScrapeSource};

#[test]
fn track_heuristics() {
    assert!(is_preferred_subtitle_language(" ENG "));
    assert!(is_preferred_subtitle_language("zh"));
    assert!(!is_preferred_subtitle_language("fra"));
    assert!(is_forced_track_title("English (Forced)"));
    assert!(!is_forced_track_title("Forced Full"));
    assert!(is_commentary_track_title("Director's Commentary"));
    assert!(!is_commentary_track_title("English"));
}

#[test]
fn path_heuristics() {
    assert!(looks_like_season_pack_episode_path("/tv/show/season 1/e01.mkv"));
    assert!(looks_like_season_pack_episode_path("/tv/show/s02/e01.mkv"));
    assert!(!looks_like_season_pack_episode_path("/movies/film.mkv"));
    assert!(stem_contains_episode_marker("show.s01e02"));
    assert!(stem_contains_episode_marker("Show EP05"));
    assert!(!stem_contains_episode_marker("Show 05"));
    assert!(stem_is_episode_number(" 07 "));
    assert!(!stem_is_episode_number("1234"));
    assert!(!stem_is_episode_number("٣"));
    assert!(is_extras_like_path("/show/extras/clip.mkv"));
    assert!(is_extras_like_path("/show/万圣节特别篇/a.mkv"));
    assert!(is_sample_like_path("/film/sample/a.mkv"));
    assert!(is_sample_like_path("/film/film-sample.mkv"));
    assert!(!is_sample_like_path("/film/film.mkv"));
}

#[test]
fn test_numeric_episode_cluster_is_detected_as_season_cluster() {
    let dir = "/tmp/cluster/Show";
    let listing = vec![
        FsEntry { path: format!("{dir}/01.mkv"), is_dir: false, is_file: true },
        FsEntry { path: format!("{dir}/02.mkv"), is_dir: false, is_file: true },
        FsEntry { path: format!("{dir}/03.mkv"), is_dir: false, is_file: true },
    ];
    let path = format!("{dir}/01.mkv");
    assert!(has_episode_cluster_siblings(&path, &listing));
    assert_eq!(episode_provenance_tag(MediaType::TvShow, &path, &listing), "season_cluster");
    assert_eq!(episode_provenance_tag(MediaType::Movie, &path, &listing), "feature");
    assert_eq!(episode_provenance_tag(MediaType::TvShow, "/tv/Show/Season 1/a.mkv", &vec![]), "season");
    assert_eq!(episode_provenance_tag(MediaType::TvShow, "/tv/Show/Extras/a.mkv", &vec![]), "extras");
    assert_eq!(episode_provenance_tag(MediaType::TvShow, "/tv/a.mkv", &vec![]), "loose");
}

#[test]
fn exact_groups_by_full_hash() {
    let hashes = vec![Some(7), None, Some(3), Some(7), Some(3), Some(9), Some(7)];
    let groups = exact_hash_groups(&hashes);
    assert_eq!(groups, vec![(7, vec![0, 3, 6]), (3, vec![2, 4])]);
}

#[test]
fn test_keep_strategy_newest_prefers_newer_file() {
    // modification times as read from disk: the second copy is newer
    let times = vec![Some(1_000u128), Some(2_000u128)];
    assert_eq!(newest_index(&times), Some(1));
    assert_eq!(newest_index(&vec![None, Some(5u128), Some(5u128)]), Some(2));
    assert_eq!(newest_index(&vec![None, None]), None);
}

#[test]
fn largest_keeps_last_of_equal_sizes() {
    assert_eq!(largest_index(&vec![10, 30, 30, 5]), Some(2));
    assert_eq!(largest_index(&vec![]), None);
}

#[test]
fn deduplicator_keeps_config_and_default_profile() {
    let d = Deduplicator::new(DedupConfig::default());
    assert_eq!(d.config.keep_strategy, KeepStrategy::HighestQuality);
    let p = DuplicateDecisionProfile::default();
    assert_eq!(p.keep_index, None);
    assert_eq!(p.drop_count, 0);
}

#[test]
fn size_groups_and_hash_needs() {
    let sizes = vec![100, 200, 100, 100, 300, 200];
    let groups = FileHasher::group_by_size(&sizes);
    assert_eq!(groups, vec![vec![0, 2, 3], vec![1, 5]]);
    let known_prefix = vec![Some(1), None, None, Some(1), None, None];
    assert_eq!(FileHasher::unresolved(&groups, &known_prefix), vec![2, 1, 5]);
    let prefix = vec![Some(1), Some(4), Some(2), Some(1), None, Some(4)];
    let full = vec![None, Some(8), None, Some(9), None, Some(8)];
    assert_eq!(FileHasher::need_full_groups(&groups, &prefix, &full), vec![vec![0, 3]]);
    let merged = FileHasher::merge_hash(100, Some(HashInfo { size_hash: 100, prefix_hash: Some(1), full_hash: None }), Some(5), Some(6));
    assert_eq!(merged, Some(HashInfo { size_hash: 100, prefix_hash: Some(1), full_hash: Some(6) }));
    assert_eq!(FileHasher::merge_hash(1, None, None, None), None);
    assert_eq!(FileHasher::cache_key("/a.mkv", 10, 20), "/a.mkv:10:20");
}

#[test]
fn digest_is_xxh64() {
    // reference values of xxh64 with seed 0
    assert_eq!(FileHasher::digest(b""), 0xEF46DB3751D8E999);
    assert_eq!(FileHasher::digest(b"a"), 0xD24EC4F1A98C6E5B);
    assert_ne!(FileHasher::digest(b"abc"), FileHasher::digest(b"abd"));
}

fn dedup_item(path: &str, full_hash: u64, media_type: MediaType) -> MediaItem {
    MediaItem {
        id: 0,
        path: path.into(),
        file_size: 1024,
        media_type,
        extension: "mkv".into(),
        parsed: None,
        scraped: None,
        content_evidence: None,
        hash: Some(HashInfo { size_hash: full_hash, prefix_hash: Some(full_hash), full_hash: Some(full_hash) }),
    }
}

fn with_tmdb_episode(mut item: MediaItem, title: &str, tmdb_id: u64, season: u32, episode: u32) -> MediaItem {
    item.media_type = MediaType::TvShow;
    let mut result = ScrapeResult::empty(ScrapeSource::Tmdb, title);
    result.evidence.push("tmdb episode fixture".into());
    result.tmdb_id = Some(tmdb_id);
    result.season_number = Some(season);
    result.episode_number = Some(episode);
    item.scraped = Some(result);
    item
}

fn confirmed(title: &str, year: u16, season: u32, episode: u32) -> PreferredIdentity {
    PreferredIdentity {
        state: Some(ConfirmationState::Confirmed),
        title: Some(title.into()),
        year: Some(year),
        season: Some(season),
        episode: Some(episode),
    }
}

/// The groups deduplication forms: exact groups by full hash, then
/// version groups by key.
fn analyze(items: &[MediaItem], ids: &[PreferredIdentity]) -> (Vec<(u64, Vec<usize>)>, Vec<(String, Vec<usize>)>) {
    let hashes: Vec<Option<u64>> = items.iter().map(|i| i.hash.and_then(|h| h.full_hash)).collect();
    let keys: Vec<Option<String>> =
        items.iter().zip(ids.iter()).map(|(i, id)| version_group_key(i, &vec![], id)).collect();
    (exact_hash_groups(&hashes), version_key_groups(&keys, &hashes))
}

#[test]
fn test_version_group_uses_confirmed_tmdb_episode_identity_key() {
    let a = with_tmdb_episode(dedup_item("/tmp/a.mkv", 41, MediaType::Movie), "Slow Horses", 197239, 1, 4);
    let b = with_tmdb_episode(dedup_item("/tmp/b.mkv", 42, MediaType::Movie), "Slow Horses", 197239, 1, 4);
    let ids = [confirmed("Slow Horses", 2022, 1, 4), confirmed("Slow Horses", 2022, 1, 4)];
    let (exact, version) = analyze(&[a, b], &ids);
    assert_eq!(exact.len() + version.len(), 1);
    assert_eq!(version[0].0, "tmdb:tv:197239:S01E04:loose");
}

#[test]
fn test_extras_episode_does_not_group_with_mainline_episode() {
    let a = with_tmdb_episode(
        dedup_item("/library/Show/Season 01/Show.S01E03.mkv", 41, MediaType::TvShow),
        "Shogun",
        126308,
        1,
        3,
    );
    let b = with_tmdb_episode(
        dedup_item("/library/Show/Specials/Show.S01E03.Special.mkv", 42, MediaType::TvShow),
        "Shogun",
        126308,
        1,
        3,
    );
    let ids = [confirmed("Shogun", 2024, 1, 3), confirmed("Shogun", 2024, 1, 3)];
    let (exact, version) = analyze(&[a, b], &ids);
    assert!(exact.is_empty() && version.is_empty());
}

#[test]
fn test_season_path_episode_groups_as_season_provenance() {
    let a = with_tmdb_episode(dedup_item("/library/Show/Season 01/01.mkv", 41, MediaType::TvShow), "The Bear", 209867, 1, 3);
    let b = with_tmdb_episode(dedup_item("/library/Show/S01/Episode03.mkv", 42, MediaType::TvShow), "The Bear", 209867, 1, 3);
    let ids = [confirmed("The Bear", 2022, 1, 3), confirmed("The Bear", 2022, 1, 3)];
    let (exact, version) = analyze(&[a, b], &ids);
    assert_eq!(exact.len() + version.len(), 1);
    assert_eq!(version[0].0, "tmdb:tv:209867:S01E03:season");
}

#[test]
fn version_key_falls_back_to_title_without_trusted_identity() {
    let mut item = dedup_item("/tmp/a.mkv", 1, MediaType::Movie);
    let mut guess = ScrapeResult::empty(ScrapeSource::Guess, "Noise Cut");
    guess.tmdb_id = Some(5);
    item.scraped = Some(guess);
    let id = PreferredIdentity {
        state: Some(ConfirmationState::AmbiguousCandidates),
        title: Some("Inception".into()),
        year: Some(2010),
        season: None,
        episode: None,
    };
    assert_eq!(version_group_key(&item, &vec![], &id).unwrap(), "fallback:Inception|2010|S00E00:feature");
    let untitled = PreferredIdentity { title: None, ..id.clone() };
    assert!(version_group_key(&item, &vec![], &untitled).is_none());
    let trusted = PreferredIdentity { state: Some(ConfirmationState::HighConfidenceCandidate), ..id };
    assert_eq!(version_group_key(&item, &vec![], &trusted).unwrap(), "tmdb:movie:5:2010");
}

#[test]
fn version_key_uses_music_and_book_ids() {
    let mut item = dedup_item("/tmp/a.flac", 1, MediaType::Music);
    let mut r = ScrapeResult::empty(ScrapeSource::MusicBrainz, "Song");
    r.musicbrainz_id = Some("mb-1".into());
    r.openlibrary_id = Some("OL1".into());
    item.scraped = Some(r.clone());
    let id = confirmed("Song", 2001, 0, 0);
    assert_eq!(version_group_key(&item, &vec![], &id).unwrap(), "musicbrainz:mb-1");
    r.musicbrainz_id = None;
    item.scraped = Some(r);
    assert_eq!(version_group_key(&item, &vec![], &id).unwrap(), "openlibrary:OL1");
}

#[test]
fn version_groups_skip_identical_copies() {
    let keys = vec![Some("k".to_string()), None, Some("k".to_string()), Some("j".to_string())];
    let same = vec![Some(7), Some(8), Some(7), Some(9)];
    assert!(version_key_groups(&keys, &same).is_empty());
    let differ = vec![Some(7), Some(8), Some(6), Some(9)];
    assert_eq!(version_key_groups(&keys, &differ), vec![("k".to_string(), vec![0, 2])]);
    let unknown = vec![None, Some(8), None, Some(9)];
    assert_eq!(version_key_groups(&keys, &unknown), vec![("k".to_string(), vec![0, 2])]);
}

#[test]
fn identity_labels_and_trust() {
    assert_eq!(identity_confirmation_label(Some(ConfirmationState::Confirmed)), Some("confirmed"));
    assert_eq!(identity_confirmation_label(Some(ConfirmationState::HighConfidenceCandidate)), Some("high-confidence"));
    assert_eq!(identity_confirmation_label(Some(ConfirmationState::AmbiguousCandidates)), Some("ambiguous"));
    assert_eq!(identity_confirmation_label(Some(ConfirmationState::InsufficientEvidence)), Some("insufficient"));
    assert_eq!(identity_confirmation_label(None), None);
    assert!(identity_is_trusted(Some(ConfirmationState::HighConfidenceCandidate)));
    assert!(!identity_is_trusted(Some(ConfirmationState::AmbiguousCandidates)));
    assert!(!identity_is_trusted(None));
}

#[test]
fn group_summary_names_the_kept_file() {
    assert_eq!(
        group_summary(DuplicateKind::Exact, KeepStrategy::Largest, Some("/m/a.mkv")),
        "Exact duplicate group, strategy Largest, keep a.mkv"
    );
    assert_eq!(
        group_summary(DuplicateKind::Version, KeepStrategy::Manual, None),
        "Version duplicate group, strategy Manual, keep manual review"
    );
}

#[test]
fn guardrails_that_need_no_score() {
    let (g, scored) = leading_guardrails(false, KeepStrategy::Largest, DuplicateKind::Version, &vec![]);
    assert_eq!(g, vec!["no automatic keep winner selected".to_string()]);
    assert!(!scored);
    let (g, scored) = leading_guardrails(true, KeepStrategy::Manual, DuplicateKind::Exact, &vec![]);
    assert_eq!(g, vec!["manual keep strategy requires human review before destructive dedup".to_string()]);
    assert!(!scored);
    let keys = vec![Some("fallback:movie:x".to_string()), Some("fallback:movie:x".to_string())];
    let (g, scored) = leading_guardrails(true, KeepStrategy::Largest, DuplicateKind::Version, &keys);
    assert_eq!(
        g,
        vec!["version grouping relies on fallback title identity; review before destructive dedup".to_string()]
    );
    assert!(scored);
    let keys = vec![Some("tmdb:1".to_string()), Some("fallback:movie:x".to_string())];
    let (g, _) = leading_guardrails(true, KeepStrategy::Largest, DuplicateKind::Version, &keys);
    assert!(g.is_empty());
}

#[test]
fn group_assembly_flags_one_keep() {
    assert_eq!(exact_group_id(41), "hash:41");
    assert_eq!(keep_flags(3, Some(1)), vec![false, true, false]);
    assert_eq!(keep_flags(2, None), vec![false, false]);
    assert_eq!(strategy_keep(KeepStrategy::Manual, Some(0), Some(1), Some(2)), None);
    assert_eq!(strategy_keep(KeepStrategy::Largest, Some(0), Some(1), Some(2)), Some(2));
    assert_eq!(strategy_keep(KeepStrategy::HighestQuality, Some(0), None, Some(2)), Some(0));
    assert_eq!(strategy_keep(KeepStrategy::Newest, None, Some(1), Some(2)), Some(1));
}
