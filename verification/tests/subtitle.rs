use medio::subtitle::{
    detect_episode_marker, extract_ass_lines, is_text_subtitle_codec, parse_subtitle_content,
    strong_evidence_count, subtitle_stream_priority, ContainerEvidence, ContentEvidence,
    FfprobeContentTags, FfprobeStreamDisposition, FfprobeSubtitleStream, SubtitleTextFormat,
    VisualEvidence,
};
use medio::types::SubtitleEvidenceSource;

#[test]
fn detects_episode_marker_in_subtitles() {
    let marker = detect_episode_marker("Season 1 Episode 3").unwrap();
    assert_eq!(marker.1, Some(3));
}

#[test]
fn parses_ass_dialogue_lines() {
    let content = "Dialogue: 0,0:00:01.00,0:00:03.00,Default,,0,0,0,,Previously on Breaking Bad";
    let lines = extract_ass_lines(content);
    assert_eq!(lines[0], "Previously on Breaking Bad");
}

#[test]
fn extracts_show_title_candidates_from_subtitle_lines() {
    let evidence = parse_subtitle_content(
        "1\n00:00:01,000 --> 00:00:03,000\nPreviously on Breaking Bad\n",
        SubtitleTextFormat::Plain,
        SubtitleEvidenceSource::EmbeddedTrack,
        "embedded:stream:3".into(),
        Some("eng".into()),
        Some("English".into()),
    )
    .unwrap();
    assert_eq!(evidence.title_candidates, vec!["Breaking Bad"]);
    assert_eq!(evidence.source, SubtitleEvidenceSource::EmbeddedTrack);
    assert_eq!(evidence.language.as_deref(), Some("eng"));
}

#[test]
fn prioritizes_recap_lines_over_plain_dialogue() {
    let mut content = String::new();
    for _ in 0..20 {
        content.push_str("Hello there\n");
    }
    content.push_str("Previously on Severance\n");

    let evidence = parse_subtitle_content(
        &content,
        SubtitleTextFormat::Plain,
        SubtitleEvidenceSource::ExternalText,
        "/tmp/demo.srt".into(),
        Some("eng".into()),
        None,
    )
    .unwrap();

    assert!(evidence.sample_lines.iter().any(|line| line == "Previously on Severance"));
    assert!(evidence.title_candidates.iter().any(|title| title == "Severance"));
}

#[test]
fn recognizes_text_subtitle_codecs() {
    assert!(is_text_subtitle_codec(Some("subrip")));
    assert!(is_text_subtitle_codec(Some("mov_text")));
    assert!(!is_text_subtitle_codec(Some("hdmv_pgs_subtitle")));
}

#[test]
fn extracts_chinese_recap_title_candidates() {
    let evidence = parse_subtitle_content(
        "某某神剧 前情提要\n第12集 某某神剧\n",
        SubtitleTextFormat::Plain,
        SubtitleEvidenceSource::ExternalText,
        "/tmp/demo.srt".into(),
        Some("chi".into()),
        None,
    )
    .unwrap();
    assert!(evidence.title_candidates.iter().any(|title| title == "某某神剧"));
    assert_eq!(evidence.episode, Some(12));
}

#[test]
fn splits_bilingual_title_aliases() {
    let evidence = parse_subtitle_content(
        "请继续观看 狂飙 / The Knockout\n",
        SubtitleTextFormat::Plain,
        SubtitleEvidenceSource::ExternalText,
        "/tmp/demo.srt".into(),
        Some("chi".into()),
        None,
    )
    .unwrap();

    assert!(evidence.title_candidates.iter().any(|title| title == "狂飙"));
    assert!(evidence.title_candidates.iter().any(|title| title == "The Knockout"));
}

#[test]
fn prioritizes_default_full_dialog_subtitle_streams() {
    let high = FfprobeSubtitleStream {
        index: Some(2),
        codec_type: Some("subtitle".into()),
        codec_name: Some("subrip".into()),
        tags: Some(FfprobeContentTags {
            title: Some("English Full".into()),
            comment: None,
            language: Some("eng".into()),
        }),
        disposition: Some(FfprobeStreamDisposition { default: Some(1), forced: Some(0) }),
    };
    let low = FfprobeSubtitleStream {
        index: Some(3),
        codec_type: Some("subtitle".into()),
        codec_name: Some("subrip".into()),
        tags: Some(FfprobeContentTags {
            title: Some("English Forced".into()),
            comment: None,
            language: Some("eng".into()),
        }),
        disposition: Some(FfprobeStreamDisposition { default: Some(0), forced: Some(1) }),
    };

    assert!(subtitle_stream_priority(&high) > subtitle_stream_priority(&low));
}

fn empty_evidence() -> ContentEvidence {
    ContentEvidence {
        container: ContainerEvidence {
            format_name: None,
            title: None,
            comment: None,
            chapters: vec![],
            stream_languages: vec![],
            track_titles: vec![],
        },
        subtitles: vec![],
        visual: vec![],
        audio: vec![],
        title_candidates: vec![],
        season_hypotheses: vec![],
        episode_hypotheses: vec![],
        runtime_secs: None,
        risk_flags: vec![],
    }
}

#[test]
fn strong_evidence_counts_kinds() {
    let mut c = empty_evidence();
    assert_eq!(strong_evidence_count(&c), 0);
    c.container.chapters.push("Chapter 1".into());
    c.visual.push(VisualEvidence { source: "ocr".into(), text_hits: vec![] });
    assert_eq!(strong_evidence_count(&c), 1);
    c.visual.push(VisualEvidence { source: "ocr".into(), text_hits: vec!["Title".into()] });
    assert_eq!(strong_evidence_count(&c), 2);
}

fn entry(path: &str) -> medio::rename::FsEntry {
    medio::rename::FsEntry { path: path.into(), is_dir: false, is_file: true }
}

#[test]
fn external_subtitles_prefer_files_named_after_the_video() {
    let listing = vec![
        entry("/tv/show/ep01.mkv"),
        entry("/tv/show/ep01.en.srt"),
        entry("/tv/show/ep01-forced.ASS"),
        entry("/tv/show/other.srt"),
        entry("/tv/show/notes.txt"),
    ];
    let found = medio::subtitle::find_external_subtitles("/tv/show/ep01.mkv", &listing);
    assert_eq!(found, vec!["/tv/show/ep01.en.srt".to_string(), "/tv/show/ep01-forced.ASS".to_string()]);
}

#[test]
fn external_subtitles_fall_back_to_a_single_other_subtitle() {
    let listing = vec![entry("/tv/show/ep01.mkv"), entry("/tv/show/release.vtt")];
    let found = medio::subtitle::find_external_subtitles("/tv/show/ep01.mkv", &listing);
    assert_eq!(found, vec!["/tv/show/release.vtt".to_string()]);

    let two = vec![entry("/tv/show/a.srt"), entry("/tv/show/b.srt")];
    assert!(medio::subtitle::find_external_subtitles("/tv/show/ep01.mkv", &two).is_empty());
}

#[test]
fn external_subtitles_ignore_other_directories() {
    let listing = vec![entry("/tv/other/ep01.srt")];
    assert!(medio::subtitle::find_external_subtitles("/tv/show/ep01.mkv", &listing).is_empty());
}

#[test]
fn subtitle_format_follows_extension() {
    assert_eq!(medio::subtitle::subtitle_format_of("/a/b.ASS"), SubtitleTextFormat::Ass);
    assert_eq!(medio::subtitle::subtitle_format_of("/a/b.ssa"), SubtitleTextFormat::Ass);
    assert_eq!(medio::subtitle::subtitle_format_of("/a/b.srt"), SubtitleTextFormat::Plain);
    assert_eq!(medio::subtitle::subtitle_format_of("/a/b"), SubtitleTextFormat::Plain);
}

#[test]
fn content_probe_without_container_flags_the_failure() {
    let ev = medio::subtitle::ContentProbe::assemble(None, Vec::new(), Some(1200));
    assert_eq!(ev.risk_flags, vec!["container probe unavailable or failed".to_string()]);
    assert_eq!(ev.runtime_secs, Some(1200));
    assert!(ev.title_candidates.is_empty());
    assert_eq!(ev.visual.len(), 1);
    assert_eq!(ev.visual[0].source, "unimplemented");
    assert_eq!(ev.audio[0].source, "unimplemented");
}

#[test]
fn content_probe_collects_container_and_subtitle_hints() {
    let container = ContainerEvidence {
        format_name: Some("matroska".into()),
        title: Some("Breaking Bad".into()),
        comment: None,
        chapters: vec!["S01E03".into()],
        stream_languages: Vec::new(),
        track_titles: Vec::new(),
    };
    let sub = medio::subtitle::SubtitleEvidence {
        source: SubtitleEvidenceSource::ExternalText,
        locator: "/tv/ep.srt".into(),
        language: None,
        track_title: None,
        sample_lines: Vec::new(),
        title_candidates: vec!["Breaking Bad".into()],
        season: Some(1),
        episode: Some(4),
    };
    let ev = medio::subtitle::ContentProbe::assemble(Some(container), vec![sub], None);
    assert!(ev.risk_flags.is_empty());
    assert_eq!(ev.title_candidates[0], "Breaking Bad");
    assert_eq!(ev.season_hypotheses, vec![1]);
    assert_eq!(ev.episode_hypotheses, vec![3, 4]);
    assert_eq!(ev.subtitles.len(), 1);
}
