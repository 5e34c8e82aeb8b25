use medio::identify::{Identifier, KeywordFilter};
use medio::types::MediaType;

fn make_identifier() -> Identifier {
    Identifier::new(KeywordFilter::new(vec![]))
}

#[test]
fn test_builtin_keywords_present() {
    let kws = KeywordFilter::builtin_keywords();
    assert!(!kws.is_empty());
    assert!(kws.iter().any(|k| k == "ColorTV"));
}

#[test]
fn test_filter_builtin() {
    let kf = KeywordFilter::new(vec![]);
    let result = kf.filter("Movie.2024.1080p.ColorTV");
    assert!(!result.contains("ColorTV"));
}

#[test]
fn test_filter_custom() {
    let kf = KeywordFilter::new(vec!["MyGroup".into()]);
    let result = kf.filter("Show.S01E01.MyGroup");
    assert!(!result.contains("MyGroup"));
}

#[test]
fn test_filter_cjk() {
    let kf = KeywordFilter::new(vec![]);
    let result = kf.filter("电影.字幕侠.2024");
    assert!(!result.contains("字幕侠"));
}

#[test]
fn test_filter_preserves_content() {
    let kf = KeywordFilter::new(vec![]);
    let result = kf.filter("Breaking.Bad.S01E02");
    assert!(result.contains("Breaking"));
    assert!(result.contains("Bad"));
}

#[test]
fn filter_ignores_case_and_collapses_spaces() {
    let kf = KeywordFilter::new(vec!["group".into()]);
    assert_eq!(kf.filter("  Title   GROUP  x "), "Title x");
}

#[test]
fn filter_takes_keywords_literally() {
    // a keyword made of regex meta characters is matched as text
    let kf = KeywordFilter::new(vec!["a.c".into()]);
    assert_eq!(kf.filter("abc a.c"), "abc");
}

#[test]
fn keyword_filter_keeps_custom_before_builtin() {
    let kf = KeywordFilter::new(vec!["Mine".into()]);
    assert_eq!(kf.keywords[0], "Mine");
    assert_eq!(kf.keywords.len(), 1 + KeywordFilter::builtin_keywords().len());
}

#[test]
fn test_tv_s01e02() {
    let id = make_identifier();
    let p = id.parse("Breaking.Bad.S01E02.1080p.WEB-DL.x264-CtrlHD.mp4", MediaType::TvShow);
    assert_eq!(p.raw_title, "Breaking.Bad");
    assert_eq!(p.season, Some(1));
    assert_eq!(p.episode, Some(2));
    assert_eq!(p.resolution, Some("1080P".into()));
    assert_eq!(p.codec, Some("X264".into()));
}

#[test]
fn test_tv_1x02() {
    let id = make_identifier();
    let p = id.parse("The.Office.1x02.Pilot.HDTV.mp4", MediaType::TvShow);
    assert_eq!(p.raw_title, "The.Office");
    assert_eq!(p.season, Some(1));
    assert_eq!(p.episode, Some(2));
}

#[test]
fn test_movie_year() {
    let id = make_identifier();
    let p = id.parse("Inception.2010.1080p.BluRay.x264-SPARKS.mkv", MediaType::Movie);
    assert_eq!(p.raw_title, "Inception");
    assert_eq!(p.year, Some(2010));
    assert_eq!(p.resolution, Some("1080P".into()));
}

#[test]
fn test_movie_year_out_of_range() {
    let id = make_identifier();
    let p = id.parse("Something.1800.mp4", MediaType::Movie);
    assert_ne!(p.year, Some(1800));
}

#[test]
fn test_fallback_simple() {
    let id = make_identifier();
    let p = id.parse("random_file.mp4", MediaType::Movie);
    assert!(!p.raw_title.is_empty());
}

#[test]
fn test_resolution_extraction() {
    let id = make_identifier();
    let p = id.parse("Test.2160p.UHD.mkv", MediaType::Movie);
    assert_eq!(p.resolution, Some("2160P".into()));
}

#[test]
fn test_codec_hevc() {
    let id = make_identifier();
    let p = id.parse("Test.HEVC.1080p.mkv", MediaType::Movie);
    assert_eq!(p.codec, Some("H.265".into()));
}

#[test]
fn test_release_group() {
    let id = make_identifier();
    let p = id.parse("Movie.2020.1080p.WEB-DL.x264-YTS.mp4", MediaType::Movie);
    assert_eq!(p.release_group, Some("YTS".into()));
}

#[test]
fn test_keyword_filter() {
    let id = Identifier::new(KeywordFilter::new(vec!["ColorTV".into()]));
    let p = id.parse("Show.S01E01.1080p.WEB-DL.ColorTV.mp4", MediaType::TvShow);
    assert_eq!(p.raw_title, "Show");
}

#[test]
fn movie_suffix_starts_after_year() {
    let id = make_identifier();
    let p = id.parse("Movie.2020.1080p.WEB-DL.x264-YTS.mp4", MediaType::Movie);
    assert_eq!(p.media_suffix, Some("1080P.WEB-DL.X264.YTS".into()));
    assert_eq!(p.source, Some("WEB-DL".into()));
}

#[test]
fn movie_without_tags_after_year_has_no_suffix() {
    let id = make_identifier();
    let p = id.parse("Plain.Title.2001.mkv", MediaType::Movie);
    assert_eq!(p.raw_title, "Plain.Title");
    assert_eq!(p.media_suffix, None);
}

#[test]
fn fallback_strips_tags_from_title() {
    let id = make_identifier();
    let p = id.parse("Some Film 1080p x265-GRP.mkv", MediaType::Movie);
    assert_eq!(p.raw_title, "Some Film");
    assert_eq!(p.codec, Some("X265".into()));
    assert_eq!(p.release_group, Some("GRP".into()));
    assert_eq!(p.season, None);
}
