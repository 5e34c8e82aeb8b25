use medio::scraper::{
    build_image_path, collect_urls, compact_identity_query, content_probe_detail,
    context_parent_labels, contextual_title_queries, encode, episode_enrichment, extract_json,
    fallback_step, is_context_junk, music_query_variants, normalize_title_query,
    normalized_identity_tokens, path_context_title_hints, preferred_episode_hint,
    preferred_season_hint, push_unique_variant, scrape_cache_key, strip_title_noise,
    title_query_variants, tmdb_dedupe_key, FallbackStep, chain_step, source_trace_label, ChainAction, guess_step, candidate_from_result,
    corroboration_score, guess_from_parsed, identity_evidence_refs, is_confirmable_match,
    resolve_identity_state, title_evidence_matches_candidate, CandidateIdentity,
};
use medio::media::{ParsedInfo, ScrapeResult};
use medio::subtitle::{ContainerEvidence, ContentEvidence, SubtitleEvidence};
use medio::types::{ConfirmationState, MediaType, ParseSource, ScrapeSource, SubtitleEvidenceSource};

#[test]
fn test_title_query_variants_normalize_noise() {
    let variants = title_query_variants("Inception.2010.1080p.BluRay.x264");
    assert!(variants.iter().any(|v| v == "Inception 2010 1080p BluRay x264"));
    assert!(variants.iter().any(|v| v == "Inception 2010"));
    assert!(variants.iter().any(|v| v == "Inception"));
}

#[test]
fn test_title_query_variants_strip_tv_identity_noise() {
    let variants = title_query_variants("Breaking.Bad.S01E02.1080p.WEB-DL");
    assert!(variants.iter().any(|v| v == "Breaking Bad S01E02"));
    assert!(variants.iter().any(|v| v == "Breaking Bad"));
}

#[test]
fn urlencoding_handles_utf8_titles() {
    assert_eq!(
        encode("财阀家的小儿子"),
        "%E8%B4%A2%E9%98%80%E5%AE%B6%E7%9A%84%E5%B0%8F%E5%84%BF%E5%AD%90"
    );
}

#[test]
fn test_scrape_cache_key_distinguishes_tv_episodes() {
    let a = scrape_cache_key("Love.Death.and.Robots", Some(2025), Some(4), Some(1), MediaType::TvShow);
    let b = scrape_cache_key("Love.Death.and.Robots", Some(2025), Some(4), Some(2), MediaType::TvShow);
    assert_ne!(a, b);
    assert_eq!(a, "TvShow:Love.Death.and.Robots:2025:4:1");
}

#[test]
fn test_contextual_title_queries_include_parent_show_name() {
    let queries = contextual_title_queries("/media/Breaking Bad/Season 01/01.mkv", "01", &vec![]);
    assert!(queries.iter().any(|q| q == "Breaking Bad"));
}

#[test]
fn music_variants_split_artist_and_title() {
    assert_eq!(
        music_query_variants("Queen - Bohemian Rhapsody"),
        vec![("Queen".to_string(), "Bohemian Rhapsody".to_string())]
    );
    assert_eq!(
        music_query_variants("Adele Someone Like You"),
        vec![("Adele".to_string(), "Someone Like You".to_string())]
    );
    assert_eq!(music_query_variants("Single"), vec![("Single".to_string(), "Single".to_string())]);
}

#[test]
fn json_is_found_in_fences_and_braces() {
    assert_eq!(extract_json("x ```json\n {\"a\":1} \n``` y"), "{\"a\":1}");
    assert_eq!(extract_json("say {\"a\": {\"b\": 2}} ok"), "{\"a\": {\"b\": 2}}");
    assert_eq!(extract_json("} nothing {"), "");
    assert_eq!(extract_json("plain"), "");
}

#[test]
fn fallback_steps_by_media_type() {
    assert_eq!(fallback_step(" TMDB ", MediaType::Movie, true, false), FallbackStep::Tmdb);
    assert_eq!(fallback_step("tmdb", MediaType::Music, true, false), FallbackStep::Skip);
    assert_eq!(fallback_step("tmdb", MediaType::Movie, false, false), FallbackStep::Skip);
    assert_eq!(fallback_step("ol", MediaType::Novel, true, false), FallbackStep::OpenLibrary);
    assert_eq!(fallback_step("musicbrainz", MediaType::Music, true, false), FallbackStep::MusicBrainz);
    assert_eq!(fallback_step("ai", MediaType::Movie, true, false), FallbackStep::AiUnavailable);
    assert_eq!(fallback_step("ai", MediaType::Movie, true, true), FallbackStep::Ai);
    assert_eq!(fallback_step("local", MediaType::Unknown, false, false), FallbackStep::Local);
    assert_eq!(fallback_step("guess", MediaType::Unknown, false, false), FallbackStep::Guess);
    assert_eq!(fallback_step("other", MediaType::Movie, true, true), FallbackStep::Skip);
}

#[test]
fn hints_prefer_parsed_values() {
    assert_eq!(preferred_season_hint(Some(2), &vec![5]), Some(2));
    assert_eq!(preferred_season_hint(None, &vec![5, 6]), Some(5));
    assert_eq!(preferred_episode_hint(None, &vec![]), None);
    assert_eq!(episode_enrichment(MediaType::TvShow, Some(1), Some(2), Some(9)), Some((9, 1, 2)));
    assert_eq!(episode_enrichment(MediaType::Movie, Some(1), Some(2), Some(9)), None);
}

#[test]
fn detail_and_keys() {
    assert_eq!(content_probe_detail(1, 2, 3, 4), "content_probe: titles=1 subtitles=2 seasons=3 episodes=4");
    assert_eq!(tmdb_dedupe_key(Some(7), "X", None), "tmdb:7");
    assert_eq!(tmdb_dedupe_key(None, "X", None), "title:X:0");
    assert_eq!(tmdb_dedupe_key(None, "X", Some(1999)), "title:X:1999");
}

#[test]
fn query_helpers() {
    assert_eq!(normalize_title_query("A.B_C  D"), "A B C D");
    assert!(!strip_title_noise("Inception.2010.1080p.BluRay").contains("1080p"));
    assert!(compact_identity_query("Breaking.Bad.S01E02").contains("Breaking"));
    assert!(is_context_junk("Season 01") || is_context_junk("season 01"));
    let mut v: Vec<String> = vec!["Abc".into()];
    push_unique_variant(&mut v, " abc ".into());
    push_unique_variant(&mut v, "  ".into());
    push_unique_variant(&mut v, "Def".into());
    assert_eq!(v, vec!["Abc".to_string(), "Def".to_string()]);
    assert!(!normalized_identity_tokens("Hello, World!").is_empty());
    assert!(path_context_title_hints("/media/Breaking Bad/Season 01/01.mkv").iter().any(|h| h == "Breaking Bad"));
    assert!(context_parent_labels("/media/Show/x.mkv").iter().any(|h| h == "Show"));
}

#[test]
fn artwork_urls_and_paths() {
    let urls = collect_urls(Some("https://e/p.jpg"), None, Some("https://e/c.png"));
    assert_eq!(urls, vec!["https://e/p.jpg".to_string(), "https://e/c.png".to_string()]);
    assert!(build_image_path("/lib/Movie", 0, "https://e/p.jpg").starts_with("/lib/Movie/"));
}

fn no_evidence() -> ContentEvidence {
    ContentEvidence {
        container: ContainerEvidence {
            format_name: None,
            title: None,
            comment: None,
            chapters: vec![],
            stream_languages: vec![],
            track_titles: vec![],
        },
        subtitles: vec![],
        visual: vec![],
        audio: vec![],
        title_candidates: vec![],
        season_hypotheses: vec![],
        episode_hypotheses: vec![],
        runtime_secs: None,
        risk_flags: vec![],
    }
}

fn subtitle(locator: &str, source: SubtitleEvidenceSource, line: &str, title: &str) -> SubtitleEvidence {
    SubtitleEvidence {
        source,
        locator: locator.into(),
        language: None,
        track_title: None,
        sample_lines: vec![line.into()],
        title_candidates: vec![title.into()],
        season: None,
        episode: None,
    }
}

fn candidate(title: &str, year: u16, season: Option<u32>, episode: Option<u32>, episode_title: Option<&str>) -> CandidateIdentity {
    CandidateIdentity {
        source: ScrapeSource::Tmdb,
        title: title.into(),
        year: Some(year),
        season,
        episode,
        episode_title: episode_title.map(|t| t.into()),
    }
}

/// The scores a caller weighs: whether the best score is high enough to
/// confirm, and whether the two best are too close to tell apart.
fn judge(scores: &[f32]) -> (bool, bool) {
    let high = scores.first().map(|s| *s >= 1.05).unwrap_or(false);
    let ambiguous = scores.len() > 1 && (scores[0] - scores[1]).abs() < 0.18;
    (high, ambiguous)
}

#[test]
fn test_resolve_identity_confirms_tv_with_multi_evidence_alignment() {
    let best = candidate("Breaking Bad", 2008, Some(1), Some(3), Some("...And the Bag's in the River"));
    let mut content = no_evidence();
    content.container.title = Some("Breaking Bad".into());
    let mut sub = subtitle("embedded:stream:2", SubtitleEvidenceSource::EmbeddedTrack, "Previously on Breaking Bad", "Breaking Bad");
    sub.language = Some("eng".into());
    sub.season = Some(1);
    sub.episode = Some(3);
    content.subtitles.push(sub);
    content.title_candidates = vec!["Breaking Bad".into()];
    content.season_hypotheses = vec![1];
    content.episode_hypotheses = vec![3];
    let (high, ambiguous) = judge(&[1.72]);
    let mut risks = Vec::new();
    let state = resolve_identity_state(MediaType::TvShow, &best, high, ambiguous, &content, &mut risks);
    assert_eq!(state, ConfirmationState::Confirmed);
}

#[test]
fn test_resolve_identity_marks_ambiguous_close_candidates() {
    let best = candidate("Dark", 2017, None, None, None);
    let mut content = no_evidence();
    content.title_candidates = vec!["Dark".into()];
    content.subtitles.push(subtitle("/tmp/dark.srt", SubtitleEvidenceSource::ExternalText, "Previously on Dark", "Dark"));
    let (high, ambiguous) = judge(&[1.31, 1.21]);
    let mut risks = Vec::new();
    let state = resolve_identity_state(MediaType::Movie, &best, high, ambiguous, &content, &mut risks);
    assert_eq!(state, ConfirmationState::AmbiguousCandidates);
    assert!(!risks.is_empty());
}

#[test]
fn test_resolve_identity_requires_strong_content_sources() {
    let best = candidate("Arrival", 2016, None, None, None);
    let (high, ambiguous) = judge(&[1.6]);
    let mut risks = Vec::new();
    let state = resolve_identity_state(MediaType::Movie, &best, high, ambiguous, &no_evidence(), &mut risks);
    assert_eq!(state, ConfirmationState::InsufficientEvidence);
    assert!(risks.is_empty());
}

#[test]
fn resolve_identity_high_confidence_without_corroboration() {
    let best = candidate("Arrival", 2016, None, None, None);
    let mut content = no_evidence();
    content.subtitles.push(subtitle("/tmp/a.srt", SubtitleEvidenceSource::ExternalText, "hello", "Other"));
    content.container.chapters.push("Chapter 1".into());
    let mut risks = vec!["earlier".to_string()];
    let state = resolve_identity_state(MediaType::Movie, &best, true, false, &content, &mut risks);
    assert_eq!(state, ConfirmationState::HighConfidenceCandidate);
    assert_eq!(risks, vec!["earlier".to_string()]);
    let mut risks = vec![];
    resolve_identity_state(MediaType::Movie, &best, true, true, &content, &mut risks);
    assert_eq!(risks, vec!["top candidates are too close to uniquely confirm identity".to_string()]);
}

#[test]
fn title_evidence_and_corroboration() {
    let best = candidate("The Bear", 2022, Some(1), Some(3), Some("Review"));
    assert!(title_evidence_matches_candidate(&best, &vec!["the.bear".into()]));
    assert!(title_evidence_matches_candidate(&best, &vec!["REVIEW".into()]));
    assert!(title_evidence_matches_candidate(&best, &vec!["Bear".into()]));
    assert!(!title_evidence_matches_candidate(&best, &vec!["Dark".into(), "".into()]));
    let mut content = no_evidence();
    assert_eq!(corroboration_score(&best, &content), 0);
    content.season_hypotheses = vec![2, 1];
    assert_eq!(corroboration_score(&best, &content), 1);
    content.episode_hypotheses = vec![3];
    content.title_candidates = vec!["The Bear".into()];
    assert_eq!(corroboration_score(&best, &content), 3);
    assert!(is_confirmable_match(MediaType::TvShow, &best, true, &content));
    assert!(!is_confirmable_match(MediaType::TvShow, &best, false, &content));
    assert!(!is_confirmable_match(MediaType::Music, &best, true, &content));
}

#[test]
fn identity_evidence_refs_lists_counts_runtime_and_three_titles() {
    let best = candidate("Dark", 2017, None, None, None);
    let mut content = no_evidence();
    content.title_candidates = vec!["Dark".into(), "B".into(), "C".into(), "D".into()];
    content.subtitles.push(subtitle("/tmp/d.srt", SubtitleEvidenceSource::ExternalText, "x", "Dark"));
    let refs = identity_evidence_refs(&best, &content, Some(3600));
    assert_eq!(
        refs,
        vec![
            "strong_content_sources=1".to_string(),
            "corroboration_score=1".to_string(),
            "runtime_secs=3600".to_string(),
            "title_candidate=Dark".to_string(),
            "title_candidate=B".to_string(),
            "title_candidate=C".to_string(),
        ]
    );
    assert_eq!(identity_evidence_refs(&best, &no_evidence(), None), vec![
        "strong_content_sources=0".to_string(),
        "corroboration_score=0".to_string(),
    ]);
}

#[test]
fn test_guess_from_parsed() {
    let parsed = ParsedInfo {
        raw_title: "Inception".into(),
        year: Some(2010),
        season: None,
        episode: None,
        resolution: None,
        codec: None,
        source: None,
        release_group: None,
        media_suffix: None,
        parse_source: ParseSource::Regex,
        evidence: vec!["matched movie title + year pattern".into()],
    };
    let guessed = guess_from_parsed(&parsed).unwrap();
    assert_eq!(guessed.source, ScrapeSource::Guess);
    assert_eq!(guessed.title, "Inception");
    assert_eq!(guessed.year, Some(2010));
    let blank = ParsedInfo { raw_title: "  ".into(), ..parsed };
    assert!(guess_from_parsed(&blank).is_none());
}

#[test]
fn candidate_from_result_copies_identity() {
    let mut r = ScrapeResult::empty(ScrapeSource::Tmdb, "Dark");
    r.year = Some(2017);
    r.episode_name = Some("Secrets".into());
    let c = candidate_from_result(&r);
    assert_eq!(c.title, "Dark");
    assert_eq!(c.year, Some(2017));
    assert_eq!(c.episode_title.as_deref(), Some("Secrets"));
}

#[test]
fn chain_runs_entries_in_order_and_stops_at_a_result() {
    let chain: Vec<String> = vec!["local".into(), "tmdb".into(), "ai".into(), "guess".into()];
    let details: Vec<String> = vec!["probe".into()];
    let first = chain_step(&chain, 0, MediaType::Movie, true, false, None, &details);
    assert!(matches!(first, ChainAction::Run { pos: 0, step: FallbackStep::Local }));
    let third = chain_step(&chain, 2, MediaType::Movie, true, false, None, &details);
    assert!(matches!(third, ChainAction::Run { pos: 2, step: FallbackStep::AiUnavailable }));
    match chain_step(&chain, 2, MediaType::Movie, true, false, Some(ScrapeSource::Tmdb), &details) {
        ChainAction::Found { source, details, evidence } => {
            assert_eq!(source, ScrapeSource::Tmdb);
            assert_eq!(details, vec!["probe".to_string(), "selected source: Tmdb".to_string()]);
            assert_eq!(evidence, vec!["probe".to_string(), "selected source Tmdb".to_string()]);
        }
        _ => panic!("a result finishes the chain"),
    }
}

#[test]
fn chain_without_result_ends_with_insufficient_evidence() {
    let chain: Vec<String> = vec!["guess".into()];
    let details: Vec<String> = vec!["guess: no parsed title".into()];
    match chain_step(&chain, 1, MediaType::Movie, false, false, None, &details) {
        ChainAction::Exhausted { details, state, evidence_refs } => {
            assert_eq!(details.last().map(String::as_str), Some("selected source: none"));
            assert_eq!(details.len(), 2);
            assert_eq!(state, ConfirmationState::InsufficientEvidence);
            assert_eq!(evidence_refs, vec!["no scrape source produced a candidate".to_string()]);
        }
        _ => panic!("past the last entry the chain is exhausted"),
    }
    assert_eq!(source_trace_label(ScrapeSource::LocalNfo), "LocalNfo");
}

#[test]
fn test_guess_fallback_chain_returns_guess() {
    let parsed = ParsedInfo {
        raw_title: "Arrival".into(),
        year: Some(2016),
        season: None,
        episode: None,
        resolution: None,
        codec: None,
        source: None,
        release_group: None,
        media_suffix: None,
        parse_source: ParseSource::Regex,
        evidence: vec!["matched movie title + year pattern".into()],
    };
    let chain: Vec<String> = vec!["guess".into()];
    let mut details: Vec<String> = vec![content_probe_detail(0, 0, 0, 0)];
    let step = chain_step(&chain, 0, MediaType::Movie, true, true, None, &details);
    assert!(matches!(step, ChainAction::Run { pos: 0, step: FallbackStep::Guess }));
    let (result, line) = guess_step(Some(&parsed));
    details.push(line);
    let result = result.unwrap();
    assert_eq!(result.source, ScrapeSource::Guess);
    assert_eq!(result.title, "Arrival");
    match chain_step(&chain, 1, MediaType::Movie, true, true, Some(result.source), &details) {
        ChainAction::Found { source, details, .. } => {
            assert_eq!(source, ScrapeSource::Guess);
            assert!(details.iter().any(|l| l.contains("guess")));
        }
        _ => panic!("the guess finishes the chain"),
    }
    let (none, line) = guess_step(None);
    assert!(none.is_none());
    assert_eq!(line, "guess: no parsed title");
}
