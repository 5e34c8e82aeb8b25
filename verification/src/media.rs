//! Media items and what is read from a file's name and extension:
//! the media type, the resolution label, the release suffix, the scanner's
//! file filter and display truncation.
use crate::config::ScanConfig;
use crate::paths::extension_spec;
use crate::regex_calls::{capture_rx, rx_capture};
use crate::subtitle::ContentEvidence;
use crate::text::{
    append_chars, chars_of, decimal, decimal_of, join, join_chars, lowercase_result, owned,
    str_eq, str_to_lowercase, str_to_uppercase, string_of, uppercase_result, views,
};
use crate::types::{MediaType, ParseSource, ScrapeSource};
use vstd::prelude::*;

verus! {

// ---------------------------------------------------------------------------
// Items
// ---------------------------------------------------------------------------

/// What the identifier read from a file name.
#[derive(Debug, Clone)]
pub struct ParsedInfo {
    pub raw_title: String,
    pub year: Option<u16>,
    pub season: Option<u32>,
    pub episode: Option<u32>,
    pub resolution: Option<String>,
    pub codec: Option<String>,
    pub source: Option<String>,
    pub release_group: Option<String>,
    pub media_suffix: Option<String>,
    pub parse_source: ParseSource,
    pub evidence: Vec<String>,
}

/// Option of a string, taken by its view.
pub open spec fn sv(o: Option<String>) -> Option<Seq<char>> {
    match o {
        Some(x) => Some(x@),
        None => None,
    }
}

/// The mathematical value of a `ParsedInfo`.
pub struct ParsedModel {
    pub raw_title: Seq<char>,
    pub year: Option<u16>,
    pub season: Option<u32>,
    pub episode: Option<u32>,
    pub resolution: Option<Seq<char>>,
    pub codec: Option<Seq<char>>,
    pub source: Option<Seq<char>>,
    pub release_group: Option<Seq<char>>,
    pub media_suffix: Option<Seq<char>>,
    pub parse_source: ParseSource,
    pub evidence: Seq<Seq<char>>,
}

impl View for ParsedInfo {
    type V = ParsedModel;

    open spec fn view(&self) -> ParsedModel {
        ParsedModel {
            raw_title: self.raw_title@,
            year: self.year,
            season: self.season,
            episode: self.episode,
            resolution: sv(self.resolution),
            codec: sv(self.codec),
            source: sv(self.source),
            release_group: sv(self.release_group),
            media_suffix: sv(self.media_suffix),
            parse_source: self.parse_source,
            evidence: views(self.evidence@),
        }
    }
}

fn copy_opt(o: &Option<String>) -> (r: Option<String>)
    ensures
        sv(r) == sv(*o),
{
    match o {
        Some(x) => Some(owned(x.as_str())),
        None => None,
    }
}

pub(crate) fn copy_strings(v: &Vec<String>) -> (r: Vec<String>)
    ensures
        views(r@) == views(v@),
{
    let mut r: Vec<String> = Vec::new();
    let mut i: usize = 0;
    while i < v.len()
        invariant
            i <= v.len(),
            views(r@) == views(v@).take(i as int),
        decreases v.len() - i,
    {
        let ghost before = views(r@);
        r.push(owned(v[i].as_str()));
        assert(views(r@) =~= before.push(v@[i as int]@));
        assert(views(v@).take(i + 1) =~= views(v@).take(i as int).push(v@[i as int]@));
        i = i + 1;
    }
    assert(views(v@).take(v.len() as int) =~= views(v@));
    r
}

/// A copy of a parse result.
pub fn copy_parsed(p: &ParsedInfo) -> (r: ParsedInfo)
    ensures
        r@ == p@,
{
    ParsedInfo {
        raw_title: owned(p.raw_title.as_str()),
        year: p.year,
        season: p.season,
        episode: p.episode,
        resolution: copy_opt(&p.resolution),
        codec: copy_opt(&p.codec),
        source: copy_opt(&p.source),
        release_group: copy_opt(&p.release_group),
        media_suffix: copy_opt(&p.media_suffix),
        parse_source: p.parse_source,
        evidence: copy_strings(&p.evidence),
    }
}

/// Metadata found by a provider (scores are kept by the caller).
#[derive(Debug, Clone)]
pub struct ScrapeResult {
    pub source: ScrapeSource,
    pub title: String,
    pub title_original: Option<String>,
    pub year: Option<u16>,
    pub overview: Option<String>,
    pub season_number: Option<u32>,
    pub episode_number: Option<u32>,
    pub episode_name: Option<String>,
    pub poster_url: Option<String>,
    pub fanart_url: Option<String>,
    pub artist: Option<String>,
    pub album: Option<String>,
    pub track_number: Option<u32>,
    pub author: Option<String>,
    pub cover_url: Option<String>,
    pub tmdb_id: Option<u64>,
    pub musicbrainz_id: Option<String>,
    pub openlibrary_id: Option<String>,
    pub evidence: Vec<String>,
}

impl ScrapeResult {
    /// A result from `source` with only a title.
    pub fn empty(source: ScrapeSource, title: &str) -> (r: Self)
        ensures
            r.source == source,
            r.title@ == title@,
            r.title_original is None && r.year is None && r.overview is None,
            r.season_number is None && r.episode_number is None && r.episode_name is None,
            r.poster_url is None && r.fanart_url is None && r.artist is None && r.album is None,
            r.track_number is None && r.author is None && r.cover_url is None,
            r.tmdb_id is None && r.musicbrainz_id is None && r.openlibrary_id is None,
            r.evidence@.len() == 0,
    {
        ScrapeResult {
            source,
            title: crate::text::owned(title),
            title_original: None,
            year: None,
            overview: None,
            season_number: None,
            episode_number: None,
            episode_name: None,
            poster_url: None,
            fanart_url: None,
            artist: None,
            album: None,
            track_number: None,
            author: None,
            cover_url: None,
            tmdb_id: None,
            musicbrainz_id: None,
            openlibrary_id: None,
            evidence: Vec::new(),
        }
    }
}

/// Content hashes of a file.
#[derive(Debug, Clone, Copy, PartialEq, Eq, Structural)]
pub struct HashInfo {
    pub size_hash: u64,
    pub prefix_hash: Option<u64>,
    pub full_hash: Option<u64>,
}

/// A media file found by a scan, with what was learnt about it.
#[derive(Debug, Clone)]
pub struct MediaItem {
    pub id: u64,
    pub path: String,
    pub file_size: u64,
    pub media_type: MediaType,
    pub extension: String,
    pub parsed: Option<ParsedInfo>,
    pub scraped: Option<ScrapeResult>,
    pub content_evidence: Option<ContentEvidence>,
    pub hash: Option<HashInfo>,
}

/// Renaming of a subtitle that follows its video.
#[derive(Debug, Clone)]
pub struct SubtitleRenamePlan {
    pub old_path: String,
    pub new_path: String,
}

/// Renaming of a directory.
#[derive(Debug, Clone)]
pub struct DirectoryRenamePlan {
    pub old_path: String,
    pub new_path: String,
}

/// Renaming of one file, with its subtitles and directories.
#[derive(Debug, Clone)]
pub struct RenamePlan {
    pub old_path: String,
    pub new_path: String,
    pub subtitle_plans: Vec<SubtitleRenamePlan>,
    pub directory_plans: Vec<DirectoryRenamePlan>,
    pub rationale: Vec<String>,
    pub conflicts: Vec<String>,
}

// ---------------------------------------------------------------------------
// Media type from the extension
// ---------------------------------------------------------------------------

pub open spec fn in_strs(x: Seq<char>, list: Seq<Seq<char>>) -> bool {
    exists|i: int| 0 <= i < list.len() && list[i] == x
}

pub open spec fn video_exts() -> Seq<Seq<char>> {
    seq![
        "mkv"@,
        "mp4"@,
        "avi"@,
        "wmv"@,
        "ts"@,
        "mts"@,
        "m2ts"@,
        "flv"@,
        "webm"@,
        "mov"@,
    ]
}

pub open spec fn audio_exts() -> Seq<Seq<char>> {
    seq!["mp3"@, "flac"@, "wav"@, "ogg"@, "m4a"@, "ape"@, "wma"@, "aac"@, "opus"@]
}

pub open spec fn book_exts() -> Seq<Seq<char>> {
    seq!["epub"@, "pdf"@, "txt"@, "mobi"@, "azw3"@, "djvu"@]
}

/// The media type of an extension already in lower case.
pub open spec fn media_type_of_lower(e: Seq<char>) -> MediaType {
    if in_strs(e, video_exts()) {
        MediaType::Movie
    } else if in_strs(e, audio_exts()) {
        MediaType::Music
    } else if in_strs(e, book_exts()) {
        MediaType::Novel
    } else if e == "strm"@ {
        MediaType::Strm
    } else {
        MediaType::Unknown
    }
}

pub(crate) fn in_list_str(x: &str, list: &[&str]) -> (r: bool)
    ensures
        r == in_strs(x@, crate::text::str_views(list@)),
{
    let mut i: usize = 0;
    while i < list.len()
        invariant
            i <= list.len(),
            forall|j: int| 0 <= j < i ==> list@[j]@ != x@,
        decreases list.len() - i,
    {
        if str_eq(list[i], x) {
            assert(crate::text::str_views(list@)[i as int] == x@);
            return true;
        }
        i = i + 1;
    }
    assert forall|j: int| 0 <= j < list.len() implies crate::text::str_views(list@)[j] != x@ by {
        assert(list@[j]@ != x@);
    }
    false
}

/// `detect_media_type`: the type of a file from its extension, compared in
/// lower case (videos are `Movie` until identification refines them).
pub fn detect_media_type(ext: &str) -> (t: MediaType)
    ensures
        t == media_type_of_lower(lowercase_result(ext@)),
{
    let lower = str_to_lowercase(ext);
    let e = lower.as_str();
    let video: [&str; 10] = ["mkv", "mp4", "avi", "wmv", "ts", "mts", "m2ts", "flv", "webm", "mov"];
    let audio: [&str; 9] = ["mp3", "flac", "wav", "ogg", "m4a", "ape", "wma", "aac", "opus"];
    let books: [&str; 6] = ["epub", "pdf", "txt", "mobi", "azw3", "djvu"];
    assert(crate::text::str_views(video@) =~= video_exts());
    assert(crate::text::str_views(audio@) =~= audio_exts());
    assert(crate::text::str_views(books@) =~= book_exts());
    if in_list_str(e, video.as_slice()) {
        MediaType::Movie
    } else if in_list_str(e, audio.as_slice()) {
        MediaType::Music
    } else if in_list_str(e, books.as_slice()) {
        MediaType::Novel
    } else if str_eq(e, "strm") {
        MediaType::Strm
    } else {
        MediaType::Unknown
    }
}

// ---------------------------------------------------------------------------
// Resolution label
// ---------------------------------------------------------------------------

/// The label for a frame height.
pub open spec fn resolution_label_spec(height: Option<u32>) -> Seq<char> {
    match height {
        Some(h) => if h >= 2160 {
            "4K"@
        } else if h >= 1080 {
            "1080p"@
        } else if h >= 720 {
            "720p"@
        } else if h >= 480 {
            "480p"@
        } else {
            decimal(h as nat).push('p')
        },
        None => "unknown"@,
    }
}

/// `resolution_label`: the width is not consulted.
pub fn resolution_label(width: Option<u32>, height: Option<u32>) -> (r: String)
    ensures
        r@ == resolution_label_spec(height),
{
    match height {
        Some(h) => if h >= 2160 {
            owned("4K")
        } else if h >= 1080 {
            owned("1080p")
        } else if h >= 720 {
            owned("720p")
        } else if h >= 480 {
            owned("480p")
        } else {
            let mut v = decimal_of(h as u64);
            v.push('p');
            string_of(v.as_slice())
        },
        None => owned("unknown"),
    }
}

// ---------------------------------------------------------------------------
// Scanner filter
// ---------------------------------------------------------------------------

/// Walks a directory tree for media files.
pub struct Scanner {
    pub config: ScanConfig,
}

/// What a scan keeps of a regular file: its type and extension.
pub open spec fn accept_file_spec(min_size: u64, path: Seq<char>, size: u64) -> Option<
    (MediaType, Seq<char>),
> {
    if size < min_size {
        None
    } else {
        let ext = match extension_spec(path) {
            Some(e) => e,
            None => seq![],
        };
        let t = media_type_of_lower(lowercase_result(ext));
        if t == MediaType::Unknown {
            None
        } else {
            Some((t, ext))
        }
    }
}

impl Scanner {
    /// A scanner with the given settings.
    pub fn new(config: ScanConfig) -> (s: Self)
        ensures
            s.config == config,
    {
        Scanner { config }
    }

    /// Whether the walk enters a directory of this name: not when the name
    /// is one of the excluded directories.
    pub fn should_descend(&self, name: &str) -> (r: bool)
        ensures
            r == !in_strs(name@, views(self.config.exclude_dirs@)),
    {
        let list = &self.config.exclude_dirs;
        let mut i: usize = 0;
        while i < list.len()
            invariant
                list@ == self.config.exclude_dirs@,
                i <= list.len(),
                forall|j: int| 0 <= j < i ==> list@[j]@ != name@,
            decreases list.len() - i,
        {
            if str_eq(list[i].as_str(), name) {
                assert(views(list@)[i as int] == name@);
                return false;
            }
            i = i + 1;
        }
        assert forall|j: int| 0 <= j < list.len() implies views(list@)[j] != name@ by {
            assert(list@[j]@ != name@);
        }
        true
    }

    /// The scan's decision for a regular file of `size` bytes: files under
    /// the size floor and files of no media type are skipped; otherwise the
    /// type and the extension (empty when there is none).
    pub fn accept_file(&self, path: &str, size: u64) -> (r: Option<(MediaType, String)>)
        ensures
            match r {
                Some((t, e)) => accept_file_spec(self.config.min_file_size, path@, size) == Some(
                    (t, e@),
                ),
                None => accept_file_spec(self.config.min_file_size, path@, size) is None,
            },
    {
        if size < self.config.min_file_size {
            return None;
        }
        let ext = match crate::paths::extension(path) {
            Some(e) => e,
            None => String::new(),
        };
        let t = detect_media_type(ext.as_str());
        if t == MediaType::Unknown {
            None
        } else {
            Some((t, ext))
        }
    }
}

// ---------------------------------------------------------------------------
// Release suffix
// ---------------------------------------------------------------------------

pub const RE_RESOLUTION: &'static str = r"(?i)\b(1080[pi]|2160[pi]|720[pi]|4[UK])\b";

pub const RE_SOURCE: &'static str = r"(?i)\b(WEB-?DL|BluRay|Remux|HDTV|CAM|WEBRip|BDRip|BRRip)\b";

pub const RE_CODEC: &'static str = r"(?i)\b(H\.?26[45]|HEVC|AV1|x26[45]|x264)\b";

pub const RE_AUDIO: &'static str = r"(?i)\b(AAC|FLAC|DTS|Atmos|DD5\.?1)\b";

/// The release group: a trailing `-XXX`, before the extension if there is one.
pub const RE_TRAILING_GROUP: &'static str = r"(?i)-([A-Za-z0-9]+)(?:\.\w+)?$";

/// `[x]` for `Some(x)`, nothing for `None`.
pub open spec fn opt_part(o: Option<Seq<char>>) -> Seq<Seq<char>> {
    match o {
        Some(x) => seq![x],
        None => seq![],
    }
}

pub open spec fn upper_opt(o: Option<Seq<char>>) -> Option<Seq<char>> {
    match o {
        Some(x) => Some(uppercase_result(x)),
        None => None,
    }
}

/// A codec tag in upper case, `HEVC` written `H.265`.
pub open spec fn normalize_codec(u: Seq<char>) -> Seq<char> {
    if u == "HEVC"@ {
        "H.265"@
    } else {
        u
    }
}

pub open spec fn codec_opt(o: Option<Seq<char>>) -> Option<Seq<char>> {
    match o {
        Some(x) => Some(normalize_codec(uppercase_result(x))),
        None => None,
    }
}

/// The tags of `SuffixExtractor::extract`, in order: resolution and source
/// as written, codec (upper case, `HEVC` as `H.265`), audio, release group.
pub open spec fn suffix_parts(f: Seq<char>) -> Seq<Seq<char>> {
    opt_part(rx_capture(RE_RESOLUTION@, f, 1)) + opt_part(
        rx_capture(RE_SOURCE@, f, 1),
    ) + opt_part(codec_opt(rx_capture(RE_CODEC@, f, 1))) + opt_part(rx_capture(RE_AUDIO@, f, 1))
        + opt_part(rx_capture(RE_TRAILING_GROUP@, f, 1))
}

pub open spec fn joined_parts(parts: Seq<Seq<char>>) -> Option<Seq<char>> {
    if parts.len() == 0 {
        None
    } else {
        Some(join(parts, "."@))
    }
}

pub(crate) fn push_opt(parts: &mut Vec<Vec<char>>, o: Option<Vec<char>>)
    ensures
        crate::text::seqs(final(parts)@) == crate::text::seqs(old(parts)@) + opt_part(
            match o {
                Some(v) => Some(v@),
                None => None,
            },
        ),
{
    match o {
        Some(v) => {
            let ghost before = crate::text::seqs(parts@);
            let ghost vv = v@;
            parts.push(v);
            assert(crate::text::seqs(parts@) =~= before + seq![vv]);
        },
        None => {
            assert(crate::text::seqs(parts@) =~= crate::text::seqs(parts@) + Seq::<
                Seq<char>,
            >::empty());
        },
    }
}

pub(crate) fn upper_capture(pattern: &str, text: &[char]) -> (r: Option<Vec<char>>)
    ensures
        match r {
            Some(v) => upper_opt(rx_capture(pattern@, text@, 1)) == Some(v@),
            None => upper_opt(rx_capture(pattern@, text@, 1)) is None,
        },
{
    match capture_rx(pattern, text, 1) {
        Some(m) => {
            let s = string_of(m.as_slice());
            let u = str_to_uppercase(s.as_str());
            Some(chars_of(u.as_str()))
        },
        None => None,
    }
}

pub(crate) fn codec_capture(pattern: &str, text: &[char]) -> (r: Option<Vec<char>>)
    ensures
        match r {
            Some(v) => codec_opt(rx_capture(pattern@, text@, 1)) == Some(v@),
            None => codec_opt(rx_capture(pattern@, text@, 1)) is None,
        },
{
    match capture_rx(pattern, text, 1) {
        Some(m) => {
            let s = string_of(m.as_slice());
            let u = str_to_uppercase(s.as_str());
            if str_eq(u.as_str(), "HEVC") {
                Some(chars_of("H.265"))
            } else {
                Some(chars_of(u.as_str()))
            }
        },
        None => None,
    }
}

pub(crate) fn plain_capture(pattern: &str, text: &[char]) -> (r: Option<Vec<char>>)
    ensures
        match r {
            Some(v) => rx_capture(pattern@, text@, 1) == Some(v@),
            None => rx_capture(pattern@, text@, 1) is None,
        },
{
    capture_rx(pattern, text, 1)
}

pub(crate) fn join_dotted(parts: &Vec<Vec<char>>) -> (r: Option<String>)
    ensures
        r.deep_view() == joined_parts(crate::text::seqs(parts@)),
{
    if parts.len() == 0 {
        None
    } else {
        let sep = chars_of(".");
        let j = join_chars(parts, sep.as_slice());
        Some(string_of(j.as_slice()))
    }
}

/// Reads the release tags of a file name.
pub struct SuffixExtractor;

impl SuffixExtractor {
    /// The release tags found in `filename`, joined with `.`; `None` when
    /// there is none: `Movie.2023.2160p.WEB-DL.H.265.AAC-ColorTV` gives
    /// `2160p.WEB-DL.H.265.AAC.ColorTV`.
    pub fn extract(filename: &str) -> (r: Option<String>)
        ensures
            r.deep_view() == joined_parts(suffix_parts(filename@)),
    {
        let f = chars_of(filename);
        let mut parts: Vec<Vec<char>> = Vec::new();
        assert(crate::text::seqs(parts@) =~= Seq::<Seq<char>>::empty());
        push_opt(&mut parts, plain_capture(RE_RESOLUTION, f.as_slice()));
        push_opt(&mut parts, plain_capture(RE_SOURCE, f.as_slice()));
        push_opt(&mut parts, codec_capture(RE_CODEC, f.as_slice()));
        push_opt(&mut parts, plain_capture(RE_AUDIO, f.as_slice()));
        push_opt(&mut parts, plain_capture(RE_TRAILING_GROUP, f.as_slice()));
        assert(crate::text::seqs(parts@) =~= suffix_parts(filename@));
        join_dotted(&parts)
    }
}

// ---------------------------------------------------------------------------
// Display truncation
// ---------------------------------------------------------------------------

/// `truncate`: at most `max` characters; a longer text keeps its first
/// `max - 1` characters and ends with `…`.
pub open spec fn truncate_spec(s: Seq<char>, max: nat) -> Seq<char> {
    if s.len() <= max {
        s
    } else {
        s.take(max - 1).push('…')
    }
}

/// At most `max` characters of `s`, ending in an ellipsis when cut.
pub fn truncate(s: &str, max: usize) -> (r: String)
    requires
        s@.len() <= max || max > 0,
    ensures
        r@ == truncate_spec(s@, max as nat),
        r@.len() <= max,
{
    let v = chars_of(s);
    if v.len() <= max {
        owned(s)
    } else {
        let mut out: Vec<char> = Vec::new();
        let mut i: usize = 0;
        while i < max - 1
            invariant
                max > 0,
                max - 1 < v.len(),
                i <= max - 1,
                out@ == v@.take(i as int),
            decreases max - 1 - i,
        {
            out.push(v[i]);
            i = i + 1;
            assert(out@ == v@.take(i as int));
        }
        out.push('…');
        string_of(out.as_slice())
    }
}


// ---------------------------------------------------------------------------
// Matroska codec names
// ---------------------------------------------------------------------------

pub open spec fn mkv_codec_spec(c: Seq<char>) -> Seq<char> {
    if c == "V_MPEG4/ISO/AVC"@ {
        "H.264"@
    } else if c == "V_MPEGH/ISO/HEVC"@ {
        "H.265"@
    } else if c == "V_AV1"@ {
        "AV1"@
    } else if c == "V_VP9"@ {
        "VP9"@
    } else if c == "V_MPEG4/ISO/ASP"@ {
        "MPEG-4"@
    } else {
        c
    }
}

/// The common name of a Matroska video codec id (unknown ids unchanged).
pub fn map_mkv_codec(codec: &str) -> (r: String)
    ensures
        r@ == mkv_codec_spec(codec@),
{
    if str_eq(codec, "V_MPEG4/ISO/AVC") {
        owned("H.264")
    } else if str_eq(codec, "V_MPEGH/ISO/HEVC") {
        owned("H.265")
    } else if str_eq(codec, "V_AV1") {
        owned("AV1")
    } else if str_eq(codec, "V_VP9") {
        owned("VP9")
    } else if str_eq(codec, "V_MPEG4/ISO/ASP") {
        owned("MPEG-4")
    } else {
        owned(codec)
    }
}

pub open spec fn mkv_audio_codec_spec(c: Seq<char>) -> Seq<char> {
    if c == "A_AAC"@ {
        "AAC"@
    } else if c == "A_FLAC"@ {
        "FLAC"@
    } else if c == "A_DTS"@ {
        "DTS"@
    } else if c == "A_AC3"@ {
        "AC3"@
    } else if c == "A_OPUS"@ {
        "Opus"@
    } else if c == "A_VORBIS"@ {
        "Vorbis"@
    } else {
        c
    }
}

/// The common name of a Matroska audio codec id (unknown ids unchanged).
pub fn map_mkv_audio_codec(codec: &str) -> (r: String)
    ensures
        r@ == mkv_audio_codec_spec(codec@),
{
    if str_eq(codec, "A_AAC") {
        owned("AAC")
    } else if str_eq(codec, "A_FLAC") {
        owned("FLAC")
    } else if str_eq(codec, "A_DTS") {
        owned("DTS")
    } else if str_eq(codec, "A_AC3") {
        owned("AC3")
    } else if str_eq(codec, "A_OPUS") {
        owned("Opus")
    } else if str_eq(codec, "A_VORBIS") {
        owned("Vorbis")
    } else {
        owned(codec)
    }
}

// ---------------------------------------------------------------------------
// Scan index freshness
// ---------------------------------------------------------------------------

/// `is_scan_index_stale`: the root changed after the index was stored;
/// an unknown modification time never makes it stale.
pub fn is_scan_index_stale(root_mtime: Option<u64>, updated_at: u64) -> (r: bool)
    ensures
        r == (root_mtime matches Some(t) && t > updated_at),
{
    match root_mtime {
        Some(t) => t > updated_at,
        None => false,
    }
}

} // verus!
