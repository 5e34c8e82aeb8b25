use medio::nfo::{escape_xml, extract_attr, extract_first_tag, extract_tag_blocks, generate, parse_nfo, NfoSource};
use medio::scraper::{find_nfo, nfo_candidates};
use medio::types::MediaType;

#[test]
fn test_extract_tag() {
    assert_eq!(extract_first_tag("<title>Inception</title>", "title"), Some("Inception".into()));
    assert_eq!(extract_first_tag("<year>2010</year>", "year"), Some("2010".into()));
    assert_eq!(extract_first_tag("<empty></empty>", "empty"), None);
    assert_eq!(extract_first_tag("no tag here", "title"), None);
    assert_eq!(
        extract_first_tag("<uniqueid type=\"tmdb\">24428</uniqueid>", "uniqueid"),
        Some("24428".into())
    );
}

#[test]
fn test_read_nfo_movie() {
    let content = "<?xml version=\"1.0\"?>\n<movie>\n  <title>Inception</title>\n  <year>2010</year>\n  <rating>8.8</rating>\n</movie>\n";
    let result = parse_nfo(content).unwrap();
    assert_eq!(result.title, "Inception");
    assert_eq!(result.year, Some(2010));
    assert_eq!(result.rating_text.as_deref(), Some("8.8"));
}

#[test]
fn test_read_nfo_tv() {
    let content = "<episodedetails>\n  <title>Pilot</title>\n  <showtitle>Lost</showtitle>\n  <season>1</season>\n  <episode>1</episode>\n  <uniqueid type=\"tmdb\" default=\"true\">4607</uniqueid>\n</episodedetails>\n";
    let result = parse_nfo(content).unwrap();
    assert_eq!(result.title, "Lost");
    assert_eq!(result.season_number, Some(1));
    assert_eq!(result.episode_number, Some(1));
    assert_eq!(result.episode_name.as_deref(), Some("Pilot"));
    assert_eq!(result.tmdb_id, Some(4607));
}

#[test]
fn test_read_nfo_empty_title() {
    assert!(parse_nfo("<movie><year>2020</year></movie>\n").is_none());
}

#[test]
fn test_find_nfo() {
    let media_path = "/tmp/nfo-a/movie.mp4";
    let existing = vec!["/tmp/nfo-a/movie.mp4".to_string(), "/tmp/nfo-a/movie.nfo".to_string()];
    assert_eq!(find_nfo(media_path, &existing), Some("/tmp/nfo-a/movie.nfo".to_string()));
}

#[test]
fn test_find_nfo_tvshow() {
    let media_path = "/tmp/nfo-b/s01e01.mp4";
    let existing = vec!["/tmp/nfo-b/tvshow.nfo".to_string()];
    assert_eq!(find_nfo(media_path, &existing), Some("/tmp/nfo-b/tvshow.nfo".to_string()));
}

#[test]
fn test_find_nfo_tvshow_in_ancestor_show_dir() {
    let media_path = "/tmp/nfo-c/Show/Season 01/01.mkv";
    let existing = vec!["/tmp/nfo-c/Show/tvshow.nfo".to_string()];
    assert_eq!(find_nfo(media_path, &existing), Some("/tmp/nfo-c/Show/tvshow.nfo".to_string()));
}

#[test]
fn test_read_nfo_nested_fanart_thumb() {
    let content = "<tvshow>\n  <title>Dark</title>\n  <fanart><thumb>https://example.com/fanart.jpg</thumb></fanart>\n</tvshow>\n";
    let result = parse_nfo(content).unwrap();
    assert_eq!(result.fanart_url.as_deref(), Some("https://example.com/fanart.jpg"));
}

#[test]
fn nfo_candidates_in_lookup_order() {
    assert_eq!(
        nfo_candidates("/a/b/c/ep.mkv"),
        vec![
            "/a/b/c/ep.nfo".to_string(),
            "/a/b/c/tvshow.nfo".to_string(),
            "/a/b/tvshow.nfo".to_string(),
            "/a/tvshow.nfo".to_string(),
        ]
    );
    assert_eq!(find_nfo("/a/b/c/ep.mkv", &vec![]), None);
}

#[test]
fn unique_ids_by_type() {
    let content = "<movie><title>X</title><uniqueid type=\"imdb\">tt1</uniqueid><uniqueid type=\"MusicBrainz\">mb-1</uniqueid><uniqueid type=\"tmdb\">77</uniqueid></movie>";
    let m = parse_nfo(content).unwrap();
    // an unknown id type is tried as a TMDB id; `tt1` is no number, so the
    // later `tmdb` id still counts
    assert_eq!(m.tmdb_id, Some(77));
    assert_eq!(m.musicbrainz_id.as_deref(), Some("mb-1"));
    let blocks = extract_tag_blocks(content, "uniqueid");
    assert_eq!(blocks.len(), 3);
    assert_eq!(extract_attr(&blocks[0].open_tag, "type"), Some("imdb".into()));
}

fn source(media_type: MediaType, title: &str) -> NfoSource {
    NfoSource {
        media_type,
        title: title.into(),
        title_original: None,
        year: None,
        overview: None,
        rating_text: None,
        season_number: None,
        episode_number: None,
        episode_name: None,
        poster_url: None,
        fanart_url: None,
        artist: None,
        album: None,
        tmdb_id: None,
        musicbrainz_id: None,
        openlibrary_id: None,
        duration_secs: Some(5_400),
        evidence_runtime_secs: Some(5_400),
    }
}

#[test]
fn writes_movie_nfo_with_canonical_ids() {
    let mut s = source(MediaType::Movie, "Dune & Part <One>");
    s.title_original = Some("Dune".into());
    s.year = Some(2021);
    s.overview = Some("Spice & prophecy".into());
    s.rating_text = Some("8.3".into());
    s.poster_url = Some("https://example.com/poster.jpg".into());
    s.fanart_url = Some("https://example.com/fanart.jpg".into());
    s.tmdb_id = Some(438631);
    let nfo = generate(&s).unwrap();
    assert!(nfo.contains("<movie>"));
    assert!(nfo.contains("<title>Dune &amp; Part &lt;One&gt;</title>"));
    assert!(nfo.contains("<originaltitle>Dune</originaltitle>"));
    assert!(nfo.contains("<premiered>2021-01-01</premiered>"));
    assert!(nfo.contains("<runtime>90</runtime>"));
    assert!(nfo.contains("<uniqueid type=\"tmdb\" default=\"true\">438631</uniqueid>"));
}

#[test]
fn writes_episode_nfo_with_showtitle() {
    let mut s = source(MediaType::TvShow, "Severance");
    s.title_original = Some("Severance".into());
    s.season_number = Some(2);
    s.episode_number = Some(3);
    s.episode_name = Some("Who Is Alive?".into());
    s.tmdb_id = Some(95396);
    let nfo = generate(&s).unwrap();
    assert!(nfo.contains("<episodedetails>"));
    assert!(nfo.contains("<title>Who Is Alive?</title>"));
    assert!(nfo.contains("<showtitle>Severance</showtitle>"));
    assert!(nfo.contains("<season>2</season>"));
    assert!(nfo.contains("<episode>3</episode>"));
}

#[test]
fn escape_xml_entities() {
    assert_eq!(escape_xml("a<b>&\"c'"), "a&lt;b&gt;&amp;&quot;c&apos;");
}

#[test]
fn written_nfo_reads_back() {
    let mut s = source(MediaType::Movie, "Heat & Dust");
    s.year = Some(1995);
    s.tmdb_id = Some(949);
    let nfo = generate(&s).unwrap();
    let m = parse_nfo(&nfo).unwrap();
    assert_eq!(m.title, "Heat &amp; Dust");
    assert_eq!(m.year, Some(1995));
    assert_eq!(m.tmdb_id, Some(949));
}
