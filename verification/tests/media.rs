use medio::config::ScanConfig;
use medio::media::{
    detect_media_type, is_scan_index_stale, map_mkv_audio_codec, map_mkv_codec, resolution_label,
    truncate, Scanner, SuffixExtractor,
};
use medio::types::MediaType;

#[test]
fn detect_media_type_by_extension() {
    assert_eq!(detect_media_type("MKV"), MediaType::Movie);
    assert_eq!(detect_media_type("flac"), MediaType::Music);
    assert_eq!(detect_media_type("epub"), MediaType::Novel);
    assert_eq!(detect_media_type("strm"), MediaType::Strm);
    assert_eq!(detect_media_type("exe"), MediaType::Unknown);
    assert_eq!(detect_media_type(""), MediaType::Unknown);
}

#[test]
fn resolution_labels_by_height() {
    assert_eq!(resolution_label(None, Some(2160)), "4K");
    assert_eq!(resolution_label(Some(1920), Some(1080)), "1080p");
    assert_eq!(resolution_label(None, Some(720)), "720p");
    assert_eq!(resolution_label(None, Some(576)), "480p");
    assert_eq!(resolution_label(None, Some(360)), "360p");
    assert_eq!(resolution_label(Some(640), None), "unknown");
}

#[test]
fn suffix_extractor_reads_release_tags() {
    assert_eq!(
        SuffixExtractor::extract("Movie.2023.2160p.WEB-DL.H.265.AAC-ColorTV"),
        Some("2160p.WEB-DL.H.265.AAC.ColorTV".into())
    );
    assert_eq!(
        SuffixExtractor::extract("Movie.2023.2160p.WEB-DL.H.265.AAC-ColorTV.mkv"),
        Some("2160p.WEB-DL.H.265.AAC.ColorTV".into())
    );
    assert_eq!(
        SuffixExtractor::extract("Show.HEVC.720p.mkv"),
        Some("720p.H.265".into())
    );
    assert_eq!(SuffixExtractor::extract("plain name"), None);
}

#[test]
fn truncate_keeps_short_text_and_marks_cut() {
    assert_eq!(truncate("hello", 5), "hello");
    assert_eq!(truncate("hello world", 6), "hello…");
    assert_eq!(truncate("财阀家的小儿子", 3), "财阀…");
    assert_eq!(truncate("", 0), "");
}

#[test]
fn scanner_filters_small_and_unknown_files() {
    let mut config = ScanConfig::default();
    config.min_file_size = 100;
    let scanner = Scanner::new(config);
    assert_eq!(scanner.accept_file("/m/a.mkv", 50), None);
    assert_eq!(
        scanner.accept_file("/m/a.MKV", 500),
        Some((MediaType::Movie, "MKV".to_string()))
    );
    assert_eq!(scanner.accept_file("/m/a.txt", 500), Some((MediaType::Novel, "txt".to_string())));
    assert_eq!(scanner.accept_file("/m/readme", 500), None);
    assert!(!scanner.should_descend(".git"));
    assert!(scanner.should_descend("Movies"));
}

#[test]
fn mkv_codec_names() {
    assert_eq!(map_mkv_codec("V_MPEGH/ISO/HEVC"), "H.265");
    assert_eq!(map_mkv_codec("V_THEORA"), "V_THEORA");
    assert_eq!(map_mkv_audio_codec("A_OPUS"), "Opus");
    assert_eq!(map_mkv_audio_codec("A_MP3"), "A_MP3");
}

#[test]
fn scan_index_staleness() {
    assert!(is_scan_index_stale(Some(10), 5));
    assert!(!is_scan_index_stale(Some(5), 5));
    assert!(!is_scan_index_stale(None, 5));
}

#[test]
fn with_extension_replaces_or_adds() {
    assert_eq!(medio::paths::with_extension("/a/b.mp4", "nfo"), "/a/b.nfo");
    assert_eq!(medio::paths::with_extension("/a/b.tar.gz", "nfo"), "/a/b.tar.nfo");
    assert_eq!(medio::paths::with_extension("/a/.hidden", "nfo"), "/a/.hidden.nfo");
    assert_eq!(medio::paths::with_extension("b", "nfo"), "b.nfo");
    assert_eq!(medio::paths::with_extension("/a/b.mp4", ""), "/a/b");
    assert_eq!(medio::paths::with_extension("/", "nfo"), "/");
}

#[test]
fn empty_scrape_result_has_only_title() {
    let r = medio::media::ScrapeResult::empty(medio::types::ScrapeSource::Tmdb, "Dark");
    assert_eq!(r.title, "Dark");
    assert_eq!(r.source, medio::types::ScrapeSource::Tmdb);
    assert!(r.year.is_none() && r.tmdb_id.is_none() && r.evidence.is_empty());
}
