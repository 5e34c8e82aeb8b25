//! Content evidence from subtitles: reading dialogue lines, choosing the
//! informative ones, and extracting show titles and episode numbers.
use crate::regex_calls::{
    capture_rx, is_match_rx, replace_all_rx, rx_capture, rx_is_match, rx_replace_all,
};
use crate::text::{
    all_ascii, alphabetic, append_chars, byte_len, byte_len_of, char_is_alphabetic, chars_eq,
    chars_of, collapse_ws, collapse_whitespace, contains, contains_str, has_char,
    is_ascii_chars, lines, lower, parse_uint, parse_uint_spec, replace_all, replace_str,
    split_lines, split_words, starts_with, starts_with_str, string_of, to_lower, to_vec, trim,
    trim_chars, trim_matches, trim_matches_chars, views, words, decimal, decimal_of,
    ends_with,
};
use crate::types::SubtitleEvidenceSource;
use vstd::prelude::*;

verus! {

// ---------------------------------------------------------------------------
// Evidence records
// ---------------------------------------------------------------------------

/// What the container's own metadata says.
#[derive(Debug, Clone)]
pub struct ContainerEvidence {
    pub format_name: Option<String>,
    pub title: Option<String>,
    pub comment: Option<String>,
    pub chapters: Vec<String>,
    pub stream_languages: Vec<String>,
    pub track_titles: Vec<String>,
}

/// What one subtitle source says.
#[derive(Debug, Clone)]
pub struct SubtitleEvidence {
    pub source: SubtitleEvidenceSource,
    pub locator: String,
    pub language: Option<String>,
    pub track_title: Option<String>,
    pub sample_lines: Vec<String>,
    pub title_candidates: Vec<String>,
    pub season: Option<u32>,
    pub episode: Option<u32>,
}

/// Text read off frames.
#[derive(Debug, Clone)]
pub struct VisualEvidence {
    pub source: String,
    pub text_hits: Vec<String>,
}

/// Text heard in the audio.
#[derive(Debug, Clone)]
pub struct AudioEvidence {
    pub source: String,
    pub transcript_hits: Vec<String>,
}

/// Everything the content probe gathered about one file.
#[derive(Debug, Clone)]
pub struct ContentEvidence {
    pub container: ContainerEvidence,
    pub subtitles: Vec<SubtitleEvidence>,
    pub visual: Vec<VisualEvidence>,
    pub audio: Vec<AudioEvidence>,
    pub title_candidates: Vec<String>,
    pub season_hypotheses: Vec<u32>,
    pub episode_hypotheses: Vec<u32>,
    pub runtime_secs: Option<u64>,
    pub risk_flags: Vec<String>,
}

/// How a subtitle file is laid out.
#[derive(Debug, Clone, Copy, PartialEq, Eq, Structural)]
pub enum SubtitleTextFormat {
    Plain,
    Ass,
}

/// Tags of a stream as `ffprobe` reports them.
#[derive(Debug, Clone)]
pub struct FfprobeContentTags {
    pub title: Option<String>,
    pub comment: Option<String>,
    pub language: Option<String>,
}

/// Disposition flags of a stream as `ffprobe` reports them.
#[derive(Debug, Clone)]
pub struct FfprobeStreamDisposition {
    pub default: Option<u32>,
    pub forced: Option<u32>,
}

/// One stream of an `ffprobe` listing.
#[derive(Debug, Clone)]
pub struct FfprobeSubtitleStream {
    pub index: Option<u32>,
    pub codec_type: Option<String>,
    pub codec_name: Option<String>,
    pub tags: Option<FfprobeContentTags>,
    pub disposition: Option<FfprobeStreamDisposition>,
}

// ---------------------------------------------------------------------------
// Small predicates
// ---------------------------------------------------------------------------

/// CJK ideographs, kana and Hangul syllables.
pub open spec fn is_cjk_spec(ch: char) -> bool {
    let v = ch as u32;
    (0x4E00 <= v && v <= 0x9FFF) || (0x3400 <= v && v <= 0x4DBF) || (0x3040 <= v && v <= 0x30FF)
        || (0xAC00 <= v && v <= 0xD7AF)
}

/// Whether a character is a CJK ideograph, kana or Hangul syllable.
pub fn is_cjk(ch: char) -> (r: bool)
    ensures
        r == is_cjk_spec(ch),
{
    let v = ch as u32;
    (0x4E00 <= v && v <= 0x9FFF) || (0x3400 <= v && v <= 0x4DBF) || (0x3040 <= v && v <= 0x30FF)
        || (0xAC00 <= v && v <= 0xD7AF)
}

pub open spec fn any_cjk(s: Seq<char>) -> bool {
    exists|i: int| 0 <= i < s.len() && is_cjk_spec(#[trigger] s[i])
}

fn has_cjk(s: &[char]) -> (r: bool)
    ensures
        r == any_cjk(s@),
{
    let mut i: usize = 0;
    while i < s.len()
        invariant
            i <= s.len(),
            forall|j: int| 0 <= j < i ==> !is_cjk_spec(#[trigger] s@[j]),
        decreases s.len() - i,
    {
        if is_cjk(s[i]) {
            return true;
        }
        i = i + 1;
    }
    false
}

/// Whether a list of names holds `x`.
fn is_one_of(x: &[char], names: &[&str]) -> (r: bool)
    ensures
        r == crate::text::str_views(names@).contains(x@),
{
    let mut i: usize = 0;
    while i < names.len()
        invariant
            i <= names.len(),
            forall|k: int| 0 <= k < i ==> names@[k]@ != x@,
        decreases names.len() - i,
    {
        let n = chars_of(names[i]);
        if chars_eq(n.as_slice(), x) {
            assert(crate::text::str_views(names@)[i as int] == x@);
            return true;
        }
        i = i + 1;
    }
    assert forall|k: int| 0 <= k < names@.len() implies crate::text::str_views(names@)[k] != x@ by {
    }
    false
}

pub open spec fn text_codecs() -> Seq<Seq<char>> {
    seq!["subrip"@, "srt"@, "ass"@, "ssa"@, "webvtt"@, "mov_text"@, "text"@]
}

/// Codecs whose subtitles are text (not bitmaps).
pub open spec fn is_text_codec_spec(codec: Option<Seq<char>>) -> bool {
    text_codecs().contains(
        match codec {
            Some(c) => c,
            None => seq![],
        },
    )
}

/// Whether a subtitle codec carries text.
pub fn is_text_subtitle_codec(codec_name: Option<&str>) -> (r: bool)
    ensures
        r == is_text_codec_spec(
            match codec_name {
                Some(c) => Some(c@),
                None => None,
            },
        ),
{
    let c = match codec_name {
        Some(c) => chars_of(c),
        None => Vec::new(),
    };
    let names: [&str; 7] = ["subrip", "srt", "ass", "ssa", "webvtt", "mov_text", "text"];
    assert(crate::text::str_views(names@) =~= text_codecs());
    is_one_of(c.as_slice(), &names)
}

pub open spec fn preferred_languages() -> Seq<Seq<char>> {
    seq!["eng"@, "en"@, "chi"@, "zho"@, "zh"@, "chs"@, "cht"@, "jpn"@, "ja"@, "kor"@, "ko"@]
}

pub open spec fn score_language_spec(language: Seq<char>) -> u8 {
    let l = lower(trim(language));
    if preferred_languages().contains(l) {
        3
    } else if l.len() == 0 || l == "und"@ {
        1
    } else {
        2
    }
}

/// Rank of a subtitle language: major languages first, unknown last.
pub fn score_subtitle_language(language: &str) -> (r: u8)
    ensures
        r == score_language_spec(language@),
{
    let t = crate::text::trim_str(language);
    let l = to_lower(t.as_slice());
    let names: [&str; 11] = ["eng", "en", "chi", "zho", "zh", "chs", "cht", "jpn", "ja", "kor", "ko"];
    assert(crate::text::str_views(names@) =~= preferred_languages());
    if is_one_of(l.as_slice(), &names) {
        3
    } else {
        let und = chars_of("und");
        if l.len() == 0 || chars_eq(l.as_slice(), und.as_slice()) {
            1
        } else {
            2
        }
    }
}

pub open spec fn score_track_title_spec(track_title: Seq<char>) -> u8 {
    let l = lower(trim(track_title));
    if l.len() == 0 {
        0
    } else {
        let base: u8 = if contains(l, "full"@) || contains(l, "dialog"@) || contains(
            l,
            "english"@,
        ) {
            2
        } else {
            1
        };
        if contains(l, "forced"@) || contains(l, "sdh"@) || contains(l, "commentary"@) {
            (base - 1) as u8
        } else {
            base
        }
    }
}

/// Rank of a subtitle track title: full dialogue up, forced or commentary
/// tracks down.
pub fn score_subtitle_track_title(track_title: &str) -> (r: u8)
    ensures
        r == score_track_title_spec(track_title@),
{
    let t = crate::text::trim_str(track_title);
    let l = to_lower(t.as_slice());
    if l.len() == 0 {
        return 0;
    }
    let mut score: u8 = 1;
    if contains_str(l.as_slice(), "full") || contains_str(l.as_slice(), "dialog") || contains_str(
        l.as_slice(),
        "english",
    ) {
        score = score + 1;
    }
    if contains_str(l.as_slice(), "forced") || contains_str(l.as_slice(), "sdh") || contains_str(
        l.as_slice(),
        "commentary",
    ) {
        score = score - 1;
    }
    score
}

/// Priority of an embedded subtitle stream: language, track title,
/// default flag, not forced; compared as a tuple.
pub open spec fn stream_priority_spec(s: FfprobeSubtitleStream) -> (u8, u8, u8, u8) {
    let language_score = match s.tags {
        Some(t) => match t.language {
            Some(l) => score_language_spec(l@),
            None => 0,
        },
        None => 0,
    };
    let title_score = match s.tags {
        Some(t) => match t.title {
            Some(l) => score_track_title_spec(l@),
            None => 0,
        },
        None => 0,
    };
    let default_score: u8 = match s.disposition {
        Some(d) => match d.default {
            Some(v) => v as u8,
            None => 0,
        },
        None => 0,
    };
    let forced: u8 = match s.disposition {
        Some(d) => match d.forced {
            Some(v) => v as u8,
            None => 0,
        },
        None => 0,
    };
    (language_score, title_score, default_score, if forced >= 1 {
        0
    } else {
        1
    })
}

/// The rank of an embedded subtitle stream: default, language, title and forced flags.
pub fn subtitle_stream_priority(stream: &FfprobeSubtitleStream) -> (r: (u8, u8, u8, u8))
    ensures
        r == stream_priority_spec(*stream),
{
    let language_score = match &stream.tags {
        Some(t) => match &t.language {
            Some(l) => score_subtitle_language(l.as_str()),
            None => 0,
        },
        None => 0,
    };
    let title_score = match &stream.tags {
        Some(t) => match &t.title {
            Some(l) => score_subtitle_track_title(l.as_str()),
            None => 0,
        },
        None => 0,
    };
    let default_score: u8 = match &stream.disposition {
        Some(d) => match d.default {
            Some(v) => v as u8,
            None => 0,
        },
        None => 0,
    };
    let forced: u8 = match &stream.disposition {
        Some(d) => match d.forced {
            Some(v) => v as u8,
            None => 0,
        },
        None => 0,
    };
    (language_score, title_score, default_score, 1u8.saturating_sub(forced))
}

pub open spec fn bilingual_languages() -> Seq<Seq<char>> {
    seq!["chi"@, "zho"@, "zh"@, "chs"@, "cht"@, "jpn"@, "ja"@, "kor"@, "ko"@]
}

pub open spec fn bilingual_spec(language: Option<Seq<char>>) -> bool {
    bilingual_languages().contains(
        lower(
            match language {
                Some(l) => l,
                None => seq![],
            },
        ),
    )
}

/// Languages whose subtitles often pair a native title with a translation.
pub fn language_suggests_bilingual(language: Option<&str>) -> (r: bool)
    ensures
        r == bilingual_spec(
            match language {
                Some(l) => Some(l@),
                None => None,
            },
        ),
{
    let l = match language {
        Some(l) => chars_of(l),
        None => Vec::new(),
    };
    let low = to_lower(l.as_slice());
    let names: [&str; 9] = ["chi", "zho", "zh", "chs", "cht", "jpn", "ja", "kor", "ko"];
    assert(crate::text::str_views(names@) =~= bilingual_languages());
    is_one_of(low.as_slice(), &names)
}

pub open spec fn scripts_differ_spec(left: Seq<char>, right: Seq<char>) -> bool {
    all_ascii(left) != all_ascii(right) || any_cjk(left) != any_cjk(right)
}

/// Whether two titles are written in different scripts.
pub fn title_scripts_differ(left: &str, right: &str) -> (r: bool)
    ensures
        r == scripts_differ_spec(left@, right@),
{
    let l = chars_of(left);
    let rr = chars_of(right);
    if is_ascii_chars(l.as_slice()) != is_ascii_chars(rr.as_slice()) {
        return true;
    }
    has_cjk(l.as_slice()) != has_cjk(rr.as_slice())
}

/// Blank lines, lines of one byte, and lines in square brackets.
pub open spec fn is_noise_spec(line: Seq<char>) -> bool {
    let t = trim(line);
    t.len() == 0 || byte_len(t) < 2 || (t.len() > 0 && t[0] == '[' && t.last() == ']')
}

/// Whether a subtitle line carries no dialogue.
pub fn is_subtitle_noise(line: &[char]) -> (r: bool)
    ensures
        r == is_noise_spec(line@),
{
    let t = trim_chars(line);
    t.len() == 0 || byte_len_of(t.as_slice()) < 2 || (t[0] == '[' && t[t.len() - 1] == ']')
}

// ---------------------------------------------------------------------------
// Cleaning lines and titles
// ---------------------------------------------------------------------------

/// `clean_subtitle_line`: timestamps and sequence numbers become empty;
/// otherwise `\N` becomes a space and markup and `&nbsp;` are removed.
pub open spec fn clean_line_spec(input: Seq<char>) -> Seq<char> {
    let line = replace_all(trim(input), "\\N"@, " "@);
    if rx_is_match("^\\d{2}:\\d{2}:\\d{2}"@, line) || rx_is_match("^\\d+$"@, line) {
        seq![]
    } else {
        trim(replace_all(rx_replace_all("\\{[^}]+\\}|<[^>]+>"@, line, ""@), "&nbsp;"@, " "@))
    }
}

/// A subtitle line without markup, trimmed.
pub fn clean_subtitle_line(input: &[char]) -> (r: Vec<char>)
    ensures
        r@ == clean_line_spec(input@),
{
    proof {
        reveal_strlit("\\N");
        reveal_strlit("&nbsp;");
    }
    let t = trim_chars(input);
    let line = replace_str(t.as_slice(), "\\N", " ");
    if is_match_rx("^\\d{2}:\\d{2}:\\d{2}", line.as_slice()) || is_match_rx(
        "^\\d+$",
        line.as_slice(),
    ) {
        return Vec::new();
    }
    let a = replace_all_rx("\\{[^}]+\\}|<[^>]+>", line.as_slice(), "");
    let b = replace_str(a.as_slice(), "&nbsp;", " ");
    trim_chars(b.as_slice())
}

/// Characters stripped from both ends of a title candidate.
pub open spec fn title_edge_chars() -> Seq<char> {
    seq!['-', ':', '|', '"', '\'']
}

/// `normalize_title_candidate`: trimmed, stray separators and quotes
/// removed at the ends, dots and underscores as spaces, single spaces.
pub open spec fn normalize_candidate_spec(raw: Seq<char>) -> Seq<char> {
    trim(
        rx_replace_all(
            "\\s+"@,
            rx_replace_all("[._]+"@, trim_matches(trim(raw), title_edge_chars()), " "@),
            " "@,
        ),
    )
}

/// A title candidate trimmed of quotes, brackets and punctuation.
pub fn normalize_title_candidate(raw: &[char]) -> (r: Vec<char>)
    ensures
        r@ == normalize_candidate_spec(raw@),
{
    let t = trim_chars(raw);
    let edges: Vec<char> = vec!['-', ':', '|', '"', '\''];
    assert(edges@ =~= title_edge_chars());
    let m = trim_matches_chars(t.as_slice(), edges.as_slice());
    let a = replace_all_rx("[._]+", m.as_slice(), " ");
    let b = replace_all_rx("\\s+", a.as_slice(), " ");
    trim_chars(b.as_slice())
}

/// `canonical_title_alias_key`: the normalized title in lower case with
/// punctuation and brackets as spaces, single-spaced.
pub open spec fn alias_key_spec(raw: Seq<char>) -> Seq<char> {
    collapse_ws(
        rx_replace_all(
            "[·:：\\-_'\"“”‘’《》()\\[\\]]"@,
            lower(normalize_candidate_spec(raw)),
            " "@,
        ),
    )
}

/// The key under which spellings of one title are merged.
pub fn canonical_title_alias_key(raw: &[char]) -> (r: Vec<char>)
    ensures
        r@ == alias_key_spec(raw@),
{
    let n = normalize_title_candidate(raw);
    let l = to_lower(n.as_slice());
    let a = replace_all_rx("[·:：\\-_'\"“”‘’《》()\\[\\]]", l.as_slice(), " ");
    collapse_whitespace(a.as_slice())
}

// ---------------------------------------------------------------------------
// Episode markers
// ---------------------------------------------------------------------------

pub open spec fn u32_max_nat() -> nat {
    4294967295
}

pub open spec fn parse_group(p: Seq<char>, raw: Seq<char>, g: nat) -> Option<nat> {
    match rx_capture(p, raw, g) {
        Some(x) => parse_uint_spec(x, u32_max_nat()),
        None => None,
    }
}

/// `detect_episode_marker`: `SxxEyy`, else `Episode`/`EP`/`E` + number,
/// else `第N集`; season and episode numbers where they parse.
pub open spec fn episode_marker_spec(raw: Seq<char>) -> Option<(Option<nat>, Option<nat>)> {
    let se = "(?i)S(\\d{1,2})E(\\d{1,3})"@;
    let ep = "(?i)(?:Episode|EP|E)\\s*(\\d{1,3})"@;
    let cn = "第\\s*(\\d{1,3})\\s*集"@;
    if rx_capture(se, raw, 0) is Some {
        Some((parse_group(se, raw, 1), parse_group(se, raw, 2)))
    } else if rx_capture(ep, raw, 0) is Some {
        Some((None, parse_group(ep, raw, 1)))
    } else if rx_capture(cn, raw, 0) is Some {
        Some((None, parse_group(cn, raw, 1)))
    } else {
        None
    }
}

fn parse_group_exec(p: &str, raw: &[char], g: usize) -> (r: Option<u32>)
    ensures
        match r {
            Some(v) => parse_group(p@, raw@, g as nat) == Some(v as nat),
            None => parse_group(p@, raw@, g as nat) is None,
        },
{
    match capture_rx(p, raw, g) {
        Some(x) => match parse_uint(x.as_slice(), 4294967295) {
            Some(v) => Some(v as u32),
            None => None,
        },
        None => None,
    }
}

pub open spec fn opt32(o: Option<u32>) -> Option<nat> {
    match o {
        Some(v) => Some(v as nat),
        None => None,
    }
}

/// The season and episode a text marks, if any (see `episode_marker_spec`).
pub fn detect_episode_marker_chars(raw: &[char]) -> (r: Option<(Option<u32>, Option<u32>)>)
    ensures
        match r {
            Some((s, e)) => episode_marker_spec(raw@) == Some((opt32(s), opt32(e))),
            None => episode_marker_spec(raw@) is None,
        },
{
    let se = "(?i)S(\\d{1,2})E(\\d{1,3})";
    let ep = "(?i)(?:Episode|EP|E)\\s*(\\d{1,3})";
    let cn = "第\\s*(\\d{1,3})\\s*集";
    if capture_rx(se, raw, 0).is_some() {
        return Some((parse_group_exec(se, raw, 1), parse_group_exec(se, raw, 2)));
    }
    if capture_rx(ep, raw, 0).is_some() {
        return Some((None, parse_group_exec(ep, raw, 1)));
    }
    if capture_rx(cn, raw, 0).is_some() {
        return Some((None, parse_group_exec(cn, raw, 1)));
    }
    None
}

/// `push_unique_u32`: appended unless already present.
pub open spec fn push_unique_u32_spec(vs: Seq<u32>, c: u32) -> Seq<u32> {
    if vs.contains(c) {
        vs
    } else {
        vs.push(c)
    }
}

/// Adds a number unless it is there already.
pub fn push_unique_u32(values: &mut Vec<u32>, candidate: u32)
    ensures
        final(values)@ == push_unique_u32_spec(old(values)@, candidate),
{
    let mut i: usize = 0;
    while i < values.len()
        invariant
            i <= values.len(),
            forall|k: int| 0 <= k < i ==> values@[k] != candidate,
        decreases values.len() - i,
    {
        if values[i] == candidate {
            assert(values@.contains(candidate));
            return;
        }
        i = i + 1;
    }
    values.push(candidate);
}

/// `capture_episode_hints`: the season and episode of a marker in `raw`,
/// each recorded once.
pub fn capture_episode_hints(raw: &[char], seasons: &mut Vec<u32>, episodes: &mut Vec<u32>)
    ensures
        match episode_marker_spec(raw@) {
            Some((s, e)) => {
                &&& final(seasons)@ == match s {
                    Some(v) => push_unique_u32_spec(old(seasons)@, v as u32),
                    None => old(seasons)@,
                }
                &&& final(episodes)@ == match e {
                    Some(v) => push_unique_u32_spec(old(episodes)@, v as u32),
                    None => old(episodes)@,
                }
            },
            None => final(seasons)@ == old(seasons)@ && final(episodes)@ == old(episodes)@,
        },
{
    match detect_episode_marker_chars(raw) {
        Some((season, episode)) => {
            match season {
                Some(s) => push_unique_u32(seasons, s),
                None => {},
            }
            match episode {
                Some(e) => push_unique_u32(episodes, e),
                None => {},
            }
        },
        None => {},
    }
}

/// `push_unique`: the trimmed candidate appended unless blank or present.
pub open spec fn push_unique_spec(vs: Seq<Seq<char>>, c: Seq<char>) -> Seq<Seq<char>> {
    let t = trim(c);
    if t.len() == 0 || vs.contains(t) {
        vs
    } else {
        vs.push(t)
    }
}

/// Adds a non-empty text unless it is there already.
pub fn push_unique(values: &mut Vec<String>, candidate: &[char])
    ensures
        views(final(values)@) == push_unique_spec(views(old(values)@), candidate@),
{
    let t = trim_chars(candidate);
    if t.len() == 0 {
        return;
    }
    let ghost vs = views(values@);
    let mut i: usize = 0;
    while i < values.len()
        invariant
            i <= values.len(),
            vs == views(values@),
            t@ == trim(candidate@),
            t@.len() > 0,
            forall|k: int| 0 <= k < i ==> vs[k] != t@,
        decreases values.len() - i,
    {
        let e = chars_of(values[i].as_str());
        if chars_eq(e.as_slice(), t.as_slice()) {
            assert(vs[i as int] == t@);
            assert(vs.contains(t@));
            return;
        }
        i = i + 1;
    }
    values.push(string_of(t.as_slice()));
    assert(views(values@) =~= vs.push(t@));
}

// ---------------------------------------------------------------------------
// Dialogue lines
// ---------------------------------------------------------------------------

/// At most 64 cleaned, non-noise lines, in order.
pub open spec fn collect_clean(ls: Seq<Seq<char>>, acc: Seq<Seq<char>>) -> Seq<Seq<char>>
    decreases ls.len(),
{
    if ls.len() == 0 || acc.len() >= 64 {
        acc
    } else {
        let l = clean_line_spec(ls[0]);
        if l.len() == 0 || is_noise_spec(l) {
            collect_clean(ls.drop_first(), acc)
        } else {
            collect_clean(ls.drop_first(), acc.push(l))
        }
    }
}

/// `extract_text_lines`: the dialogue lines of a plain (SRT/VTT) subtitle.
pub open spec fn text_lines_spec(content: Seq<char>) -> Seq<Seq<char>> {
    collect_clean(lines(content), seq![])
}

/// The dialogue lines of an SRT or WebVTT text.
pub fn extract_text_lines_chars(content: &[char]) -> (r: Vec<Vec<char>>)
    ensures
        r@.map_values(|v: Vec<char>| v@) == text_lines_spec(content@),
{
    let ls = split_lines(content);
    let ghost lv = ls@.map_values(|v: Vec<char>| v@);
    let mut out: Vec<Vec<char>> = Vec::new();
    let mut i: usize = 0;
    assert(lv.skip(0) =~= lv);
    assert(out@.map_values(|v: Vec<char>| v@) =~= Seq::<Seq<char>>::empty());
    while i < ls.len()
        invariant
            i <= ls.len(),
            lv == ls@.map_values(|v: Vec<char>| v@),
            lv == lines(content@),
            out@.len() < 64,
            collect_clean(lv.skip(i as int), out@.map_values(|v: Vec<char>| v@))
                == text_lines_spec(content@),
        decreases ls.len() - i,
    {
        let ghost acc = out@.map_values(|v: Vec<char>| v@);
        assert(lv.skip(i as int)[0] == ls@[i as int]@);
        assert(lv.skip(i as int).drop_first() =~= lv.skip(i + 1));
        let line = clean_subtitle_line(ls[i].as_slice());
        if line.len() == 0 || is_subtitle_noise(line.as_slice()) {
        } else {
            let ghost l = line@;
            out.push(line);
            assert(out@.map_values(|v: Vec<char>| v@) =~= acc.push(l));
            if out.len() >= 64 {
                assert(collect_clean(lv.skip(i + 1), acc.push(l)) == acc.push(l));
                return out;
            }
        }
        i = i + 1;
    }
    out
}

/// Text after the `n`-th comma (`splitn(n + 1, ',').nth(n)`), empty when
/// there are fewer commas.
pub open spec fn after_commas(s: Seq<char>, n: nat) -> Seq<char>
    decreases n,
{
    if n == 0 {
        s
    } else {
        match crate::text::find_spec(s, seq![','], 0) {
            Some(i) => after_commas(s.skip(i + 1), (n - 1) as nat),
            None => seq![],
        }
    }
}

fn after_commas_exec(s: &[char], n: usize) -> (r: Vec<char>)
    ensures
        r@ == after_commas(s@, n as nat),
    decreases n,
{
    if n == 0 {
        return to_vec(s);
    }
    let comma: Vec<char> = vec![','];
    assert(comma@ =~= seq![',']);
    match crate::text::find_from(s, comma.as_slice(), 0) {
        Some(i) => {
            assert(crate::text::occurs_at(s@, comma@, i as int));
            assert(i + comma@.len() <= s@.len());
            assert(i < s.len());
            let rest = s.split_at(i + 1).1;
            assert(rest@ =~= s@.skip(i + 1));
            after_commas_exec(rest, n - 1)
        },
        None => Vec::new(),
    }
}

/// The text of an ASS `Dialogue:` line (after its ninth comma).
pub open spec fn ass_payload(raw: Seq<char>) -> Option<Seq<char>> {
    let t = trim(raw);
    if starts_with(t, "Dialogue:"@) {
        Some(after_commas(t, 9))
    } else {
        None
    }
}

pub open spec fn collect_ass(ls: Seq<Seq<char>>, acc: Seq<Seq<char>>) -> Seq<Seq<char>>
    decreases ls.len(),
{
    if ls.len() == 0 || acc.len() >= 64 {
        acc
    } else {
        match ass_payload(ls[0]) {
            Some(p) => {
                let l = clean_line_spec(p);
                if l.len() == 0 || is_noise_spec(l) {
                    collect_ass(ls.drop_first(), acc)
                } else {
                    collect_ass(ls.drop_first(), acc.push(l))
                }
            },
            None => collect_ass(ls.drop_first(), acc),
        }
    }
}

/// `extract_ass_lines`: the dialogue text of an ASS/SSA subtitle.
pub open spec fn ass_lines_spec(content: Seq<char>) -> Seq<Seq<char>> {
    collect_ass(lines(content), seq![])
}

/// The dialogue lines of an ASS or SSA script.
pub fn extract_ass_lines_chars(content: &[char]) -> (r: Vec<Vec<char>>)
    ensures
        r@.map_values(|v: Vec<char>| v@) == ass_lines_spec(content@),
{
    let ls = split_lines(content);
    let ghost lv = ls@.map_values(|v: Vec<char>| v@);
    let mut out: Vec<Vec<char>> = Vec::new();
    let mut i: usize = 0;
    assert(lv.skip(0) =~= lv);
    assert(out@.map_values(|v: Vec<char>| v@) =~= Seq::<Seq<char>>::empty());
    while i < ls.len()
        invariant
            i <= ls.len(),
            lv == ls@.map_values(|v: Vec<char>| v@),
            lv == lines(content@),
            out@.len() < 64,
            collect_ass(lv.skip(i as int), out@.map_values(|v: Vec<char>| v@))
                == ass_lines_spec(content@),
        decreases ls.len() - i,
    {
        let ghost acc = out@.map_values(|v: Vec<char>| v@);
        assert(lv.skip(i as int)[0] == ls@[i as int]@);
        assert(lv.skip(i as int).drop_first() =~= lv.skip(i + 1));
        let raw = trim_chars(ls[i].as_slice());
        if starts_with_str(raw.as_slice(), "Dialogue:") {
            let payload = after_commas_exec(raw.as_slice(), 9);
            let line = clean_subtitle_line(payload.as_slice());
            if line.len() == 0 || is_subtitle_noise(line.as_slice()) {
            } else {
                let ghost l = line@;
                out.push(line);
                assert(out@.map_values(|v: Vec<char>| v@) =~= acc.push(l));
                if out.len() >= 64 {
                    assert(collect_ass(lv.skip(i + 1), acc.push(l)) == acc.push(l));
                    return out;
                }
            }
        }
        i = i + 1;
    }
    out
}

/// `subtitle_line_priority`: (signal, length score, UTF-8 length). Recaps
/// rank highest, then "you are watching" prompts, then episode markers;
/// lines of 4 to 48 characters score higher; among equals, fewer bytes
/// come first.
pub open spec fn line_priority_spec(line: Seq<char>) -> (u8, u8, nat) {
    let l = lower(line);
    let signal: u8 = if contains(l, "previously on"@) || contains(l, "last time on"@) || contains(
        line,
        "前情提要"@,
    ) || contains(line, "上集回顾"@) {
        4
    } else if contains(l, "you are watching"@) || contains(l, "you're watching"@) || contains(
        l,
        "from the series"@,
    ) {
        3
    } else if episode_marker_spec(line) is Some {
        2
    } else {
        1
    };
    let length_score: u8 = if 4 <= line.len() && line.len() <= 48 {
        2
    } else {
        1
    };
    (signal, length_score, byte_len(line))
}

/// The rank of a subtitle line as a title source.
pub fn subtitle_line_priority(line: &[char]) -> (r: (u8, u8, u128))
    ensures
        r.0 == line_priority_spec(line@).0,
        r.1 == line_priority_spec(line@).1,
        r.2 as nat == line_priority_spec(line@).2,
{
    let l = to_lower(line);
    let signal: u8 = if contains_str(l.as_slice(), "previously on") || contains_str(
        l.as_slice(),
        "last time on",
    ) || contains_str(line, "前情提要") || contains_str(line, "上集回顾") {
        4
    } else if contains_str(l.as_slice(), "you are watching") || contains_str(
        l.as_slice(),
        "you're watching",
    ) || contains_str(l.as_slice(), "from the series") {
        3
    } else if detect_episode_marker_chars(line).is_some() {
        2
    } else {
        1
    };
    let length_score: u8 = if 4 <= line.len() && line.len() <= 48 {
        2
    } else {
        1
    };
    (signal, length_score, byte_len_of(line))
}

/// Line `i` of `raw` is shown before line `j`: higher signal, then higher
/// length score, then fewer bytes, then earlier.
pub open spec fn shown_before(raw: Seq<Seq<char>>, i: int, j: int) -> bool {
    let a = line_priority_spec(raw[i]);
    let b = line_priority_spec(raw[j]);
    a.0 > b.0 || (a.0 == b.0 && (a.1 > b.1 || (a.1 == b.1 && (a.2 < b.2 || (a.2 == b.2 && i
        < j)))))
}

/// Inserts index `x` before the first index it is shown before.
pub open spec fn insert_ordered(raw: Seq<Seq<char>>, x: int, s: Seq<int>) -> Seq<int>
    decreases s.len(),
{
    if s.len() == 0 {
        seq![x]
    } else if shown_before(raw, x, s[0]) {
        seq![x] + s
    } else {
        seq![s[0]] + insert_ordered(raw, x, s.drop_first())
    }
}

/// Indices `0..n` of `raw` in display order.
pub open spec fn display_order(raw: Seq<Seq<char>>, n: nat) -> Seq<int>
    decreases n,
{
    if n == 0 {
        seq![]
    } else {
        insert_ordered(raw, n - 1, display_order(raw, (n - 1) as nat))
    }
}

/// Inserting at the first later-ranked position keeps the order.
pub proof fn lemma_insert_ordered_at(raw: Seq<Seq<char>>, x: int, s: Seq<int>, j: int)
    requires
        0 <= j <= s.len(),
        forall|k: int| 0 <= k < j ==> !shown_before(raw, x, #[trigger] s[k]),
        j < s.len() ==> shown_before(raw, x, s[j]),
    ensures
        insert_ordered(raw, x, s) == s.take(j) + seq![x] + s.skip(j),
    decreases s.len(),
{
    if s.len() == 0 {
        assert(s.take(j) + seq![x] + s.skip(j) =~= seq![x]);
    } else if j == 0 {
        assert(s.take(0) + seq![x] + s.skip(0) =~= seq![x] + s);
    } else {
        assert forall|k: int| 0 <= k < j - 1 implies !shown_before(
            raw,
            x,
            #[trigger] s.drop_first()[k],
        ) by {
            assert(s.drop_first()[k] == s[k + 1]);
        }
        if j < s.len() {
            assert(s.drop_first()[j - 1] == s[j]);
        }
        lemma_insert_ordered_at(raw, x, s.drop_first(), j - 1);
        assert(seq![s[0]] + (s.drop_first().take(j - 1) + seq![x] + s.drop_first().skip(j - 1))
            =~= s.take(j) + seq![x] + s.skip(j));
    }
}

/// Key under which repeated lines are recognised.
pub open spec fn line_key(line: Seq<char>) -> Seq<char> {
    lower(normalize_candidate_spec(line))
}

/// Walks lines in display order keeping the first of each key, at most 12.
pub open spec fn select_lines(
    raw: Seq<Seq<char>>,
    order: Seq<int>,
    seen: Seq<Seq<char>>,
    acc: Seq<Seq<char>>,
) -> Seq<Seq<char>>
    decreases order.len(),
{
    if order.len() == 0 {
        acc
    } else {
        let line = raw[order[0]];
        let key = line_key(line);
        if key.len() == 0 || seen.contains(key) {
            select_lines(raw, order.drop_first(), seen, acc)
        } else if acc.len() + 1 >= 12 {
            acc.push(line)
        } else {
            select_lines(raw, order.drop_first(), seen.push(key), acc.push(line))
        }
    }
}

pub open spec fn raw_lines(content: Seq<char>, format: SubtitleTextFormat) -> Seq<Seq<char>> {
    match format {
        SubtitleTextFormat::Ass => ass_lines_spec(content),
        SubtitleTextFormat::Plain => text_lines_spec(content),
    }
}

/// `prioritized_subtitle_lines`: up to 12 distinct dialogue lines, most
/// informative first.
pub open spec fn prioritized_spec(content: Seq<char>, format: SubtitleTextFormat) -> Seq<
    Seq<char>,
> {
    let raw = raw_lines(content, format);
    select_lines(raw, display_order(raw, raw.len()), seq![], seq![])
}

pub open spec fn as_ints(v: Seq<usize>) -> Seq<int> {
    v.map_values(|i: usize| i as int)
}

fn insert_position(
    keys: &Vec<(u8, u8, u128)>,
    order: &Vec<usize>,
    n: usize,
    Ghost(rv): Ghost<Seq<Seq<char>>>,
) -> (j: usize)
    requires
        n < keys@.len(),
        keys@.len() == rv.len(),
        forall|k: int|
            0 <= k < rv.len() ==> {
                let p = line_priority_spec(rv[k]);
                &&& (#[trigger] keys@[k]).0 == p.0
                &&& keys@[k].1 == p.1
                &&& keys@[k].2 as nat == p.2
            },
        forall|k: int| 0 <= k < order@.len() ==> (#[trigger] order@[k]) < n,
    ensures
        j <= order@.len(),
        forall|k: int|
            0 <= k < j ==> !shown_before(rv, n as int, #[trigger] as_ints(order@)[k]),
        j < order@.len() ==> shown_before(
            rv,
            n as int,
            as_ints(order@)[j as int],
        ),
{
    let ghost ov = as_ints(order@);
    let kx = keys[n];
    let mut j: usize = 0;
    while j < order.len()
        invariant
            j <= order.len(),
            n < keys@.len(),
            keys@.len() == rv.len(),
            kx == keys@[n as int],
            forall|k: int|
                0 <= k < rv.len() ==> {
                    let p = line_priority_spec(rv[k]);
                    &&& (#[trigger] keys@[k]).0 == p.0
                    &&& keys@[k].1 == p.1
                    &&& keys@[k].2 as nat == p.2
                },
            forall|k: int| 0 <= k < order@.len() ==> (#[trigger] order@[k]) < n,
            ov == as_ints(order@),
            forall|k: int| 0 <= k < j ==> !shown_before(rv, n as int, #[trigger] ov[k]),
        decreases order.len() - j,
    {
        let oj = order[j];
        let ky = keys[oj];
        let before = kx.0 > ky.0 || (kx.0 == ky.0 && (kx.1 > ky.1 || (kx.1 == ky.1 && (kx.2
            < ky.2 || (kx.2 == ky.2 && n < oj)))));
        assert(ov[j as int] == oj as int);
        assert(before == shown_before(rv, n as int, ov[j as int]));
        if before {
            return j;
        }
        j = j + 1;
    }
    j
}

fn display_order_exec(raw: &Vec<Vec<char>>) -> (r: Vec<usize>)
    ensures
        r@.len() == raw@.len(),
        forall|k: int| 0 <= k < r@.len() ==> (#[trigger] r@[k]) < raw@.len(),
        as_ints(r@) == display_order(
            raw@.map_values(|v: Vec<char>| v@),
            raw@.len(),
        ),
{
    let ghost rv = raw@.map_values(|v: Vec<char>| v@);
    let mut keys: Vec<(u8, u8, u128)> = Vec::new();
    let mut i: usize = 0;
    while i < raw.len()
        invariant
            i <= raw.len(),
            rv == raw@.map_values(|v: Vec<char>| v@),
            keys@.len() == i,
            forall|k: int|
                0 <= k < i ==> {
                    let p = line_priority_spec(rv[k]);
                    &&& (#[trigger] keys@[k]).0 == p.0
                    &&& keys@[k].1 == p.1
                    &&& keys@[k].2 as nat == p.2
                },
        decreases raw.len() - i,
    {
        keys.push(subtitle_line_priority(raw[i].as_slice()));
        i = i + 1;
    }
    let mut order: Vec<usize> = Vec::new();
    let mut n: usize = 0;
    assert(as_ints(order@) =~= display_order(rv, 0));
    while n < raw.len()
        invariant
            n <= raw.len(),
            rv == raw@.map_values(|v: Vec<char>| v@),
            keys@.len() == raw.len(),
            forall|k: int|
                0 <= k < raw.len() ==> {
                    let p = line_priority_spec(rv[k]);
                    &&& (#[trigger] keys@[k]).0 == p.0
                    &&& keys@[k].1 == p.1
                    &&& keys@[k].2 as nat == p.2
                },
            order@.len() == n,
            forall|k: int| 0 <= k < order@.len() ==> (#[trigger] order@[k]) < n,
            as_ints(order@) == display_order(rv, n as nat),
        decreases raw.len() - n,
    {
        let ghost ov = as_ints(order@);
        let kx = keys[n];
        let j = insert_position(&keys, &order, n, Ghost(rv));
        proof {
            lemma_insert_ordered_at(rv, n as int, ov, j as int);
        }
        order.insert(j, n);
        assert(as_ints(order@) =~= ov.take(j as int) + seq![n as int]
            + ov.skip(j as int));
        n = n + 1;
    }
    order
}

fn contains_key(seen: &Vec<Vec<char>>, key: &[char]) -> (r: bool)
    ensures
        r == seen@.map_values(|v: Vec<char>| v@).contains(key@),
{
    let ghost sv = seen@.map_values(|v: Vec<char>| v@);
    let mut i: usize = 0;
    while i < seen.len()
        invariant
            i <= seen.len(),
            sv == seen@.map_values(|v: Vec<char>| v@),
            forall|k: int| 0 <= k < i ==> sv[k] != key@,
        decreases seen.len() - i,
    {
        if chars_eq(seen[i].as_slice(), key) {
            assert(sv[i as int] == key@);
            return true;
        }
        i = i + 1;
    }
    false
}

/// The dialogue lines of a subtitle text, best title sources first.
pub fn prioritized_subtitle_lines(content: &[char], format: SubtitleTextFormat) -> (r: Vec<
    Vec<char>,
>)
    ensures
        r@.map_values(|v: Vec<char>| v@) == prioritized_spec(content@, format),
{
    let raw = match format {
        SubtitleTextFormat::Ass => extract_ass_lines_chars(content),
        SubtitleTextFormat::Plain => extract_text_lines_chars(content),
    };
    let ghost rv = raw@.map_values(|v: Vec<char>| v@);
    let order = display_order_exec(&raw);
    let ghost ov = as_ints(order@);
    let mut selected: Vec<Vec<char>> = Vec::new();
    let mut seen: Vec<Vec<char>> = Vec::new();
    let mut i: usize = 0;
    assert(ov.skip(0) =~= ov);
    assert(selected@.map_values(|v: Vec<char>| v@) =~= Seq::<Seq<char>>::empty());
    assert(seen@.map_values(|v: Vec<char>| v@) =~= Seq::<Seq<char>>::empty());
    while i < order.len()
        invariant
            i <= order.len(),
            rv == raw@.map_values(|v: Vec<char>| v@),
            rv == raw_lines(content@, format),
            ov == as_ints(order@),
            ov == display_order(rv, rv.len()),
            forall|k: int| 0 <= k < order@.len() ==> (#[trigger] order@[k]) < raw@.len(),
            selected@.len() < 12,
            select_lines(
                rv,
                ov.skip(i as int),
                seen@.map_values(|v: Vec<char>| v@),
                selected@.map_values(|v: Vec<char>| v@),
            ) == prioritized_spec(content@, format),
        decreases order.len() - i,
    {
        let ghost acc = selected@.map_values(|v: Vec<char>| v@);
        let ghost sn = seen@.map_values(|v: Vec<char>| v@);
        assert(ov.skip(i as int)[0] == order@[i as int] as int);
        assert(ov.skip(i as int).drop_first() =~= ov.skip(i + 1));
        let idx = order[i];
        assert(rv[idx as int] == raw@[idx as int]@);
        let n = normalize_title_candidate(raw[idx].as_slice());
        let key = to_lower(n.as_slice());
        if key.len() == 0 || contains_key(&seen, key.as_slice()) {
        } else {
            let line = to_vec(raw[idx].as_slice());
            let ghost l = line@;
            let ghost k = key@;
            selected.push(line);
            assert(selected@.map_values(|v: Vec<char>| v@) =~= acc.push(l));
            if selected.len() >= 12 {
                return selected;
            }
            seen.push(key);
            assert(seen@.map_values(|v: Vec<char>| v@) =~= sn.push(k));
        }
        i = i + 1;
    }
    selected
}

// ---------------------------------------------------------------------------
// Title candidates
// ---------------------------------------------------------------------------

pub open spec fn prompt_prefixes() -> Seq<Seq<char>> {
    seq![
        "请继续观看 "@,
        "继续观看 "@,
        "正在播放 "@,
        "请收看 "@,
        "you are watching "@,
        "you're watching "@,
        "watching "@,
        "from the series "@,
    ]
}

/// The candidate after the first viewing prompt it starts with (ASCII case
/// ignored), trimmed.
pub open spec fn strip_prompt_from(t: Seq<char>, prefixes: Seq<Seq<char>>) -> Seq<char>
    decreases prefixes.len(),
{
    if prefixes.len() == 0 {
        t
    } else if starts_with(lower(t), prefixes[0]) {
        trim(t.skip(prefixes[0].len() as int))
    } else {
        strip_prompt_from(t, prefixes.drop_first())
    }
}

/// `strip_title_prompt_prefix`.
pub open spec fn strip_prompt_spec(c: Seq<char>) -> Seq<char> {
    strip_prompt_from(trim(c), prompt_prefixes())
}

/// A title candidate without a leading prompt such as "Previously on".
pub fn strip_title_prompt_prefix(candidate: &[char]) -> (r: Vec<char>)
    ensures
        r@ == strip_prompt_spec(candidate@),
{
    let prefixes: [&str; 8] = [
        "请继续观看 ",
        "继续观看 ",
        "正在播放 ",
        "请收看 ",
        "you are watching ",
        "you're watching ",
        "watching ",
        "from the series ",
    ];
    assert(crate::text::str_views(prefixes@) =~= prompt_prefixes());
    let t = trim_chars(candidate);
    let l = to_lower(t.as_slice());
    let mut i: usize = 0;
    assert(prompt_prefixes().skip(0) =~= prompt_prefixes());
    while i < 8
        invariant
            i <= 8,
            crate::text::str_views(prefixes@) == prompt_prefixes(),
            t@ == trim(candidate@),
            l@ == lower(t@),
            strip_prompt_from(t@, prompt_prefixes().skip(i as int)) == strip_prompt_spec(
                candidate@,
            ),
        decreases 8 - i,
    {
        let p = chars_of(prefixes[i]);
        assert(prompt_prefixes().skip(i as int)[0] == p@);
        assert(prompt_prefixes().skip(i as int).drop_first() =~= prompt_prefixes().skip(i + 1));
        if crate::text::occurs_at_exec(l.as_slice(), p.as_slice(), 0) {
            let rest = t.as_slice().split_at(p.len()).1;
            assert(rest@ =~= t@.skip(p@.len() as int));
            return trim_chars(rest);
        }
        i = i + 1;
    }
    t
}

pub open spec fn any_letter(c: Seq<char>) -> bool {
    exists|i: int| 0 <= i < c.len() && (alphabetic(#[trigger] c[i]) || is_cjk_spec(c[i]))
}

/// `looks_like_title_candidate`: 2 to 64 characters, not an episode or
/// season label or subtitle boilerplate, with at least one letter.
pub open spec fn looks_like_title_spec(c: Seq<char>) -> bool {
    let l = lower(c);
    &&& 2 <= c.len() && c.len() <= 64
    &&& !starts_with(l, "episode "@)
    &&& !starts_with(l, "season "@)
    &&& !contains(l, "subtitle"@)
    &&& !contains(l, "dialogue"@)
    &&& !contains(l, "commentary"@)
    &&& any_letter(c)
}

/// Whether a text can be a title (see `looks_like_title_spec`).
pub fn looks_like_title_candidate(candidate: &[char]) -> (r: bool)
    ensures
        r == looks_like_title_spec(candidate@),
{
    if !(2 <= candidate.len() && candidate.len() <= 64) {
        return false;
    }
    let l = to_lower(candidate);
    if starts_with_str(l.as_slice(), "episode ") || starts_with_str(l.as_slice(), "season ")
        || contains_str(l.as_slice(), "subtitle") || contains_str(l.as_slice(), "dialogue")
        || contains_str(l.as_slice(), "commentary") {
        return false;
    }
    assert(l@ == lower(candidate@));
    let mut i: usize = 0;
    while i < candidate.len()
        invariant
            i <= candidate.len(),
            2 <= candidate.len() <= 64,
            l@ == lower(candidate@),
            !starts_with(l@, "episode "@),
            !starts_with(l@, "season "@),
            !contains(l@, "subtitle"@),
            !contains(l@, "dialogue"@),
            !contains(l@, "commentary"@),
            forall|j: int|
                0 <= j < i ==> !(alphabetic(#[trigger] candidate@[j]) || is_cjk_spec(
                    candidate@[j],
                )),
        decreases candidate.len() - i,
    {
        if char_is_alphabetic(candidate[i]) || is_cjk(candidate[i]) {
            return true;
        }
        i = i + 1;
    }
    false
}

pub open spec fn multilingual_separators() -> Seq<Seq<char>> {
    seq![" / "@, " | "@, " - "@, " – "@, " — "@, "·"@, "："@, ":"@]
}

/// Both halves of `line` around the first `sep`, when they read as titles
/// in different scripts (or the language is usually bilingual).
pub open spec fn split_pair(line: Seq<char>, sep: Seq<char>, bilingual: bool) -> Seq<Seq<char>> {
    match crate::text::find_spec(line, sep, 0) {
        Some(i) => {
            let left = strip_prompt_spec(normalize_candidate_spec(line.take(i)));
            let right = strip_prompt_spec(normalize_candidate_spec(line.skip(i + sep.len())));
            if looks_like_title_spec(left) && looks_like_title_spec(right) && (scripts_differ_spec(
                left,
                right,
            ) || bilingual) {
                seq![left, right]
            } else {
                seq![]
            }
        },
        None => seq![],
    }
}

pub open spec fn split_all(line: Seq<char>, seps: Seq<Seq<char>>, bilingual: bool) -> Seq<
    Seq<char>,
>
    decreases seps.len(),
{
    if seps.len() == 0 {
        seq![]
    } else {
        split_pair(line, seps[0], bilingual) + split_all(line, seps.drop_first(), bilingual)
    }
}

/// `split_multilingual_title_candidates`.
pub open spec fn split_multilingual_spec(line: Seq<char>, language: Option<Seq<char>>) -> Seq<
    Seq<char>,
> {
    split_all(line, multilingual_separators(), bilingual_spec(language))
}

fn push_all(out: &mut Vec<Vec<char>>, more: Vec<Vec<char>>)
    ensures
        final(out)@.map_values(|v: Vec<char>| v@) == old(out)@.map_values(|v: Vec<char>| v@)
            + more@.map_values(|v: Vec<char>| v@),
{
    let ghost mv = more@.map_values(|v: Vec<char>| v@);
    let ghost start = out@.map_values(|v: Vec<char>| v@);
    let mut i: usize = 0;
    while i < more.len()
        invariant
            i <= more.len(),
            mv == more@.map_values(|v: Vec<char>| v@),
            out@.map_values(|v: Vec<char>| v@) == start + mv.take(i as int),
        decreases more.len() - i,
    {
        let ghost before = out@.map_values(|v: Vec<char>| v@);
        let x = to_vec(more[i].as_slice());
        let ghost xv = x@;
        out.push(x);
        assert(out@.map_values(|v: Vec<char>| v@) =~= before.push(xv));
        i = i + 1;
        assert(start + mv.take(i as int) =~= (start + mv.take(i - 1)).push(xv));
    }
    assert(mv.take(more.len() as int) =~= mv);
}

fn split_pair_exec(line: &[char], sep: &str, bilingual: bool) -> (r: Vec<Vec<char>>)
    ensures
        r@.map_values(|v: Vec<char>| v@) == split_pair(line@, sep@, bilingual),
{
    let sv = chars_of(sep);
    match crate::text::find_from(line, sv.as_slice(), 0) {
        Some(i) => {
            proof {
                crate::text::lemma_find_spec(line@, sv@, 0);
            }
            let (l, rest) = line.split_at(i);
            let r = rest.split_at(sv.len()).1;
            assert(l@ =~= line@.take(i as int));
            assert(r@ =~= line@.skip(i + sv@.len()));
            let left = strip_title_prompt_prefix(normalize_title_candidate(l).as_slice());
            let right = strip_title_prompt_prefix(normalize_title_candidate(r).as_slice());
            let ls = string_of(left.as_slice());
            let rs = string_of(right.as_slice());
            if looks_like_title_candidate(left.as_slice()) && looks_like_title_candidate(
                right.as_slice(),
            ) && (title_scripts_differ(ls.as_str(), rs.as_str()) || bilingual) {
                let mut out: Vec<Vec<char>> = Vec::new();
                let ghost lv = left@;
                let ghost rv = right@;
                out.push(left);
                out.push(right);
                assert(out@.map_values(|v: Vec<char>| v@) =~= seq![lv, rv]);
                out
            } else {
                let out: Vec<Vec<char>> = Vec::new();
                assert(out@.map_values(|v: Vec<char>| v@) =~= Seq::<Seq<char>>::empty());
                out
            }
        },
        None => {
            let out: Vec<Vec<char>> = Vec::new();
            assert(out@.map_values(|v: Vec<char>| v@) =~= Seq::<Seq<char>>::empty());
            out
        },
    }
}

/// The candidates of a line that mixes two languages, split.
pub fn split_multilingual_title_candidates(line: &[char], language: Option<&str>) -> (r: Vec<
    Vec<char>,
>)
    ensures
        r@.map_values(|v: Vec<char>| v@) == split_multilingual_spec(
            line@,
            match language {
                Some(l) => Some(l@),
                None => None,
            },
        ),
{
    let bilingual = language_suggests_bilingual(language);
    let seps: [&str; 8] = [" / ", " | ", " - ", " – ", " — ", "·", "：", ":"];
    assert(crate::text::str_views(seps@) =~= multilingual_separators());
    let ghost all = multilingual_separators();
    let mut out: Vec<Vec<char>> = Vec::new();
    let mut i: usize = 0;
    assert(all.skip(0) =~= all);
    assert(out@.map_values(|v: Vec<char>| v@) + split_all(line@, all, bilingual) =~= split_all(
        line@,
        all,
        bilingual,
    ));
    while i < 8
        invariant
            i <= 8,
            crate::text::str_views(seps@) == all,
            all == multilingual_separators(),
            out@.map_values(|v: Vec<char>| v@) + split_all(line@, all.skip(i as int), bilingual)
                == split_all(line@, all, bilingual),
        decreases 8 - i,
    {
        let ghost before = out@.map_values(|v: Vec<char>| v@);
        assert(all.skip(i as int)[0] == seps@[i as int]@);
        assert(all.skip(i as int).drop_first() =~= all.skip(i + 1));
        let more = split_pair_exec(line, seps[i], bilingual);
        let ghost mv = more@.map_values(|v: Vec<char>| v@);
        push_all(&mut out, more);
        assert(before + (mv + split_all(line@, all.skip(i + 1), bilingual)) =~= (before + mv)
            + split_all(line@, all.skip(i + 1), bilingual));
        i = i + 1;
    }
    assert(all.skip(8) =~= Seq::<Seq<char>>::empty());
    assert(out@.map_values(|v: Vec<char>| v@) + Seq::<Seq<char>>::empty() =~= out@.map_values(
        |v: Vec<char>| v@,
    ));
    out
}

/// Title-announcing patterns in English dialogue (group 1 is the title).
pub open spec fn en_title_patterns() -> Seq<Seq<char>> {
    seq![
        r#"(?i)^previously on\s+(.+)$"#@,
        r#"(?i)^last time on\s+(.+)$"#@,
        r#"(?i)^you(?:'re| are) watching\s+(.+)$"#@,
        r#"(?i)^watching\s+(.+)$"#@,
        r#"(?i)^from the series\s+(.+)$"#@,
        r#"(?i)^(.+?)\s*-\s*S\d{1,2}E\d{1,3}\b"#@,
        r#"(?i)^(.+?)\s+season\s+\d{1,2}\s+episode\s+\d{1,3}\b"#@,
        r#"(?i)^(.+?)\s+ep(?:isode)?\s+\d{1,3}\b"#@,
        r#"^[\"'“《](.+?)[\"'”》]\s*(?:第\s*\d+\s*集|episode\s*\d+|ep\s*\d+|s\d{1,2}e\d{1,3})"#@,
        r#"^(.+?)\s*[·:：]\s*(?:第\s*\d+\s*集|episode\s*\d+|ep\s*\d+|s\d{1,2}e\d{1,3})"#@,
    ]
}

/// Recap patterns in Chinese dialogue (group 1 is the title).
pub open spec fn cn_title_patterns() -> Seq<Seq<char>> {
    seq![
        r#"^(.+?)\s*前情提要$"#@,
        r#"^(.+?)\s*上[一二三四五六七八九0-9]*集回顾$"#@,
        r#"^(.+?)\s*第\s*\d+\s*集$"#@,
        r#"^第\s*\d+\s*集\s*(.+)$"#@,
    ]
}

/// Trimmed, non-empty group-1 captures of the patterns, in order.
pub open spec fn capture_candidates(line: Seq<char>, pats: Seq<Seq<char>>) -> Seq<Seq<char>>
    decreases pats.len(),
{
    if pats.len() == 0 {
        seq![]
    } else {
        (match rx_capture(pats[0], line, 1) {
            Some(m) => if trim(m).len() > 0 {
                seq![trim(m)]
            } else {
                seq![]
            },
            None => seq![],
        }) + capture_candidates(line, pats.drop_first())
    }
}

fn capture_candidates_exec(line: &[char], pats: &[&str]) -> (r: Vec<Vec<char>>)
    ensures
        r@.map_values(|v: Vec<char>| v@) == capture_candidates(
            line@,
            crate::text::str_views(pats@),
        ),
{
    let ghost all = crate::text::str_views(pats@);
    let mut out: Vec<Vec<char>> = Vec::new();
    let mut i: usize = 0;
    assert(all.skip(0) =~= all);
    assert(out@.map_values(|v: Vec<char>| v@) + capture_candidates(line@, all) =~= capture_candidates(
        line@,
        all,
    ));
    while i < pats.len()
        invariant
            i <= pats.len(),
            all == crate::text::str_views(pats@),
            out@.map_values(|v: Vec<char>| v@) + capture_candidates(line@, all.skip(i as int))
                == capture_candidates(line@, all),
        decreases pats.len() - i,
    {
        let ghost before = out@.map_values(|v: Vec<char>| v@);
        assert(all.skip(i as int)[0] == pats@[i as int]@);
        assert(all.skip(i as int).drop_first() =~= all.skip(i + 1));
        let ghost piece = match rx_capture(all[i as int], line@, 1) {
            Some(m) => if trim(m).len() > 0 {
                seq![trim(m)]
            } else {
                seq![]
            },
            None => seq![],
        };
        match capture_rx(pats[i], line, 1) {
            Some(m) => {
                let t = trim_chars(m.as_slice());
                if t.len() > 0 {
                    let ghost tv = t@;
                    out.push(t);
                    assert(out@.map_values(|v: Vec<char>| v@) =~= before.push(tv));
                }
            },
            None => {},
        }
        assert(out@.map_values(|v: Vec<char>| v@) =~= before + piece);
        assert(before + (piece + capture_candidates(line@, all.skip(i + 1))) =~= (before + piece)
            + capture_candidates(line@, all.skip(i + 1)));
        i = i + 1;
    }
    assert(all.skip(pats.len() as int) =~= Seq::<Seq<char>>::empty());
    assert(out@.map_values(|v: Vec<char>| v@) + Seq::<Seq<char>>::empty() =~= out@.map_values(
        |v: Vec<char>| v@,
    ));
    out
}

pub open spec fn is_segment_break(c: char) -> bool {
    c == '-' || c == '|' || c == ':'
}

/// Index of the first `-`, `|` or `:` (or the length).
pub open spec fn first_break(s: Seq<char>, i: int) -> int
    decreases s.len() - i,
{
    if i >= s.len() {
        s.len() as int
    } else if is_segment_break(s[i]) {
        i
    } else {
        first_break(s, i + 1)
    }
}

/// The text before an episode marker that may name the show.
pub open spec fn prefix_candidate(line: Seq<char>) -> Seq<Seq<char>> {
    match episode_marker_spec(line) {
        Some((_, hint)) => {
            let p = trim(line.take(first_break(line, 0)));
            if byte_len(p) > 3 && byte_len(p) <= 48 && !contains(lower(p), "episode"@) && match hint {
                Some(e) => !contains(p, decimal(e)),
                None => true,
            } {
                seq![p]
            } else {
                seq![]
            }
        },
        None => seq![],
    }
}

fn prefix_candidate_exec(line: &[char]) -> (r: Vec<Vec<char>>)
    ensures
        r@.map_values(|v: Vec<char>| v@) == prefix_candidate(line@),
{
    let empty: Vec<Vec<char>> = Vec::new();
    assert(empty@.map_values(|v: Vec<char>| v@) =~= Seq::<Seq<char>>::empty());
    match detect_episode_marker_chars(line) {
        Some((_, hint)) => {
            let mut k: usize = 0;
            while k < line.len() && !(line[k] == '-' || line[k] == '|' || line[k] == ':')
                invariant
                    k <= line.len(),
                    first_break(line@, 0) == first_break(line@, k as int),
                decreases line.len() - k,
            {
                k = k + 1;
            }
            let seg = line.split_at(k).0;
            assert(seg@ =~= line@.take(first_break(line@, 0)));
            let p = trim_chars(seg);
            let n = byte_len_of(p.as_slice());
            let l = to_lower(p.as_slice());
            let ok_hint = match hint {
                Some(e) => {
                    let d = decimal_of(e as u64);
                    !crate::text::contains_chars(p.as_slice(), d.as_slice())
                },
                None => true,
            };
            if n > 3 && n <= 48 && !contains_str(l.as_slice(), "episode") && ok_hint {
                let mut out: Vec<Vec<char>> = Vec::new();
                let ghost pv = p@;
                out.push(p);
                assert(out@.map_values(|v: Vec<char>| v@) =~= seq![pv]);
                out
            } else {
                empty
            }
        },
        None => empty,
    }
}

/// `extract_title_candidates_from_subtitle_line`.
pub open spec fn line_candidates_spec(line: Seq<char>, language: Option<Seq<char>>) -> Seq<
    Seq<char>,
> {
    capture_candidates(line, en_title_patterns()) + prefix_candidate(line) + capture_candidates(
        line,
        cn_title_patterns(),
    ) + split_multilingual_spec(line, language)
}

/// The title candidates of one subtitle line.
pub fn extract_title_candidates_from_subtitle_line(line: &[char], language: Option<&str>) -> (r:
    Vec<Vec<char>>)
    ensures
        r@.map_values(|v: Vec<char>| v@) == line_candidates_spec(
            line@,
            match language {
                Some(l) => Some(l@),
                None => None,
            },
        ),
{
    let en: [&str; 10] = [
        r#"(?i)^previously on\s+(.+)$"#,
        r#"(?i)^last time on\s+(.+)$"#,
        r#"(?i)^you(?:'re| are) watching\s+(.+)$"#,
        r#"(?i)^watching\s+(.+)$"#,
        r#"(?i)^from the series\s+(.+)$"#,
        r#"(?i)^(.+?)\s*-\s*S\d{1,2}E\d{1,3}\b"#,
        r#"(?i)^(.+?)\s+season\s+\d{1,2}\s+episode\s+\d{1,3}\b"#,
        r#"(?i)^(.+?)\s+ep(?:isode)?\s+\d{1,3}\b"#,
        r#"^[\"'“《](.+?)[\"'”》]\s*(?:第\s*\d+\s*集|episode\s*\d+|ep\s*\d+|s\d{1,2}e\d{1,3})"#,
        r#"^(.+?)\s*[·:：]\s*(?:第\s*\d+\s*集|episode\s*\d+|ep\s*\d+|s\d{1,2}e\d{1,3})"#,
    ];
    let cn: [&str; 4] = [
        r#"^(.+?)\s*前情提要$"#,
        r#"^(.+?)\s*上[一二三四五六七八九0-9]*集回顾$"#,
        r#"^(.+?)\s*第\s*\d+\s*集$"#,
        r#"^第\s*\d+\s*集\s*(.+)$"#,
    ];
    assert(crate::text::str_views(en@) =~= en_title_patterns());
    assert(crate::text::str_views(cn@) =~= cn_title_patterns());
    let mut out = capture_candidates_exec(line, &en);
    push_all(&mut out, prefix_candidate_exec(line));
    push_all(&mut out, capture_candidates_exec(line, &cn));
    push_all(&mut out, split_multilingual_title_candidates(line, language));
    out
}

/// `maybe_push_short_title_candidate`: a normalized candidate of at most
/// ten words and 64 bytes, recorded once.
pub open spec fn maybe_push_spec(cands: Seq<Seq<char>>, raw: Seq<char>) -> Seq<Seq<char>> {
    let c = normalize_candidate_spec(raw);
    if c.len() == 0 {
        cands
    } else if words(c).len() <= 10 && byte_len(c) <= 64 {
        push_unique_spec(cands, c)
    } else {
        cands
    }
}

/// Adds a short text as a title candidate where it looks like one.
pub fn maybe_push_short_title_candidate(candidates: &mut Vec<String>, raw: &[char])
    ensures
        views(final(candidates)@) == maybe_push_spec(views(old(candidates)@), raw@),
{
    let c = normalize_title_candidate(raw);
    if c.len() == 0 {
        return;
    }
    let ws = split_words(c.as_slice());
    if ws.len() <= 10 && byte_len_of(c.as_slice()) <= 64 {
        push_unique(candidates, c.as_slice());
    }
}

pub open spec fn push_cands(tc: Seq<Seq<char>>, cs: Seq<Seq<char>>) -> Seq<Seq<char>>
    decreases cs.len(),
{
    if cs.len() == 0 {
        tc
    } else {
        push_cands(maybe_push_spec(tc, cs[0]), cs.drop_first())
    }
}

/// `normalize_title_aliases`: normalized candidates that look like titles,
/// one per alias key, in order.
pub open spec fn aliases_from(
    cands: Seq<Seq<char>>,
    seen: Seq<Seq<char>>,
    acc: Seq<Seq<char>>,
) -> Seq<Seq<char>>
    decreases cands.len(),
{
    if cands.len() == 0 {
        acc
    } else {
        let c = normalize_candidate_spec(cands[0]);
        if c.len() == 0 || !looks_like_title_spec(c) {
            aliases_from(cands.drop_first(), seen, acc)
        } else if seen.contains(alias_key_spec(c)) {
            aliases_from(cands.drop_first(), seen, acc)
        } else {
            aliases_from(cands.drop_first(), seen.push(alias_key_spec(c)), acc.push(c))
        }
    }
}

/// The candidates with spellings of one title merged, first spelling kept.
pub fn normalize_title_aliases(candidates: &Vec<String>) -> (r: Vec<String>)
    ensures
        views(r@) == aliases_from(views(candidates@), seq![], seq![]),
{
    let ghost cv = views(candidates@);
    let mut out: Vec<String> = Vec::new();
    let mut seen: Vec<Vec<char>> = Vec::new();
    let mut i: usize = 0;
    assert(cv.skip(0) =~= cv);
    assert(views(out@) =~= Seq::<Seq<char>>::empty());
    assert(seen@.map_values(|v: Vec<char>| v@) =~= Seq::<Seq<char>>::empty());
    while i < candidates.len()
        invariant
            i <= candidates.len(),
            cv == views(candidates@),
            aliases_from(cv.skip(i as int), seen@.map_values(|v: Vec<char>| v@), views(out@))
                == aliases_from(cv, seq![], seq![]),
        decreases candidates.len() - i,
    {
        let ghost acc = views(out@);
        let ghost sn = seen@.map_values(|v: Vec<char>| v@);
        assert(cv.skip(i as int)[0] == candidates@[i as int]@);
        assert(cv.skip(i as int).drop_first() =~= cv.skip(i + 1));
        let raw = chars_of(candidates[i].as_str());
        let c = normalize_title_candidate(raw.as_slice());
        if c.len() == 0 || !looks_like_title_candidate(c.as_slice()) {
        } else {
            let key = canonical_title_alias_key(c.as_slice());
            if contains_key(&seen, key.as_slice()) {
            } else {
                let ghost kv = key@;
                let ghost cvv = c@;
                seen.push(key);
                out.push(string_of(c.as_slice()));
                assert(seen@.map_values(|v: Vec<char>| v@) =~= sn.push(kv));
                assert(views(out@) =~= acc.push(cvv));
            }
        }
        i = i + 1;
    }
    assert(cv.skip(i as int) =~= Seq::<Seq<char>>::empty());
    out
}

pub open spec fn or_nat(a: Option<nat>, b: Option<nat>) -> Option<nat> {
    match a {
        Some(x) => Some(x),
        None => b,
    }
}

/// Candidates, season and episode gathered so far.
pub type Gathered = (Seq<Seq<char>>, Option<nat>, Option<nat>);

/// One line's candidates recorded; its season and episode kept unless
/// already known.
pub open spec fn absorb_line(st: Gathered, line: Seq<char>, lang: Option<Seq<char>>) -> Gathered {
    let tc = push_cands(st.0, line_candidates_spec(line, lang));
    match episode_marker_spec(line) {
        Some((s, e)) => (tc, or_nat(st.1, s), or_nat(st.2, e)),
        None => (tc, st.1, st.2),
    }
}

pub open spec fn absorb_all(st: Gathered, ls: Seq<Seq<char>>, lang: Option<Seq<char>>) -> Gathered
    decreases ls.len(),
{
    if ls.len() == 0 {
        st
    } else {
        absorb_all(absorb_line(st, ls[0], lang), ls.drop_first(), lang)
    }
}

/// What the track title and the chosen lines yield, track title first.
pub open spec fn gathered_spec(
    track_title: Option<Seq<char>>,
    samples: Seq<Seq<char>>,
    lang: Option<Seq<char>>,
) -> Gathered {
    let init: Gathered = (seq![], None, None);
    let st = match track_title {
        Some(t) => absorb_line(init, t, lang),
        None => init,
    };
    absorb_all(st, samples, lang)
}

fn absorb_line_exec(
    tc: &mut Vec<String>,
    season: &mut Option<u32>,
    episode: &mut Option<u32>,
    line: &[char],
    lang: Option<&str>,
)
    ensures
        (views(final(tc)@), opt32(*final(season)), opt32(*final(episode))) == absorb_line(
            (views(old(tc)@), opt32(*old(season)), opt32(*old(episode))),
            line@,
            match lang {
                Some(l) => Some(l@),
                None => None,
            },
        ),
{
    let cands = extract_title_candidates_from_subtitle_line(line, lang);
    let ghost cs = cands@.map_values(|v: Vec<char>| v@);
    let ghost start = views(tc@);
    let mut i: usize = 0;
    assert(cs.skip(0) =~= cs);
    while i < cands.len()
        invariant
            i <= cands.len(),
            cs == cands@.map_values(|v: Vec<char>| v@),
            push_cands(views(tc@), cs.skip(i as int)) == push_cands(start, cs),
        decreases cands.len() - i,
    {
        assert(cs.skip(i as int)[0] == cands@[i as int]@);
        assert(cs.skip(i as int).drop_first() =~= cs.skip(i + 1));
        maybe_push_short_title_candidate(tc, cands[i].as_slice());
        i = i + 1;
    }
    assert(cs.skip(i as int) =~= Seq::<Seq<char>>::empty());
    match detect_episode_marker_chars(line) {
        Some((s, e)) => {
            if season.is_none() {
                *season = s;
            }
            if episode.is_none() {
                *episode = e;
            }
        },
        None => {},
    }
}

/// `parse_subtitle_content`: evidence from one subtitle text, or `None`
/// when it has no usable dialogue.
pub fn parse_subtitle_content(
    content: &str,
    format: SubtitleTextFormat,
    source: SubtitleEvidenceSource,
    locator: String,
    language: Option<String>,
    track_title: Option<String>,
) -> (r: Option<SubtitleEvidence>)
    ensures
        match r {
            Some(ev) => {
                let samples = prioritized_spec(content@, format);
                let g = gathered_spec(track_title.deep_view(), samples, language.deep_view());
                &&& samples.len() > 0
                &&& views(ev.sample_lines@) == samples
                &&& views(ev.title_candidates@) == aliases_from(g.0, seq![], seq![])
                &&& opt32(ev.season) == g.1
                &&& opt32(ev.episode) == g.2
                &&& ev.source == source
                &&& ev.locator@ == locator@
                &&& ev.language.deep_view() == language.deep_view()
                &&& ev.track_title.deep_view() == track_title.deep_view()
            },
            None => prioritized_spec(content@, format).len() == 0,
        },
{
    let c = chars_of(content);
    let sample = prioritized_subtitle_lines(c.as_slice(), format);
    let ghost sv = sample@.map_values(|v: Vec<char>| v@);
    if sample.len() == 0 {
        return None;
    }
    let lang: Option<&str> = match &language {
        Some(l) => Some(l.as_str()),
        None => None,
    };
    assert(match lang {
        Some(l) => Some(l@),
        None => None,
    } == language.deep_view());
    let mut tc: Vec<String> = Vec::new();
    let mut season: Option<u32> = None;
    let mut episode: Option<u32> = None;
    assert(views(tc@) =~= Seq::<Seq<char>>::empty());
    match &track_title {
        Some(t) => {
            let tv = chars_of(t.as_str());
            absorb_line_exec(&mut tc, &mut season, &mut episode, tv.as_slice(), lang);
        },
        None => {},
    }
    let ghost st0 = (views(tc@), opt32(season), opt32(episode));
    let mut i: usize = 0;
    assert(sv.skip(0) =~= sv);
    while i < sample.len()
        invariant
            i <= sample.len(),
            sv == sample@.map_values(|v: Vec<char>| v@),
            absorb_all((views(tc@), opt32(season), opt32(episode)), sv.skip(i as int), match lang {
                Some(l) => Some(l@),
                None => None,
            }) == absorb_all(st0, sv, match lang {
                Some(l) => Some(l@),
                None => None,
            }),
        decreases sample.len() - i,
    {
        assert(sv.skip(i as int)[0] == sample@[i as int]@);
        assert(sv.skip(i as int).drop_first() =~= sv.skip(i + 1));
        absorb_line_exec(&mut tc, &mut season, &mut episode, sample[i].as_slice(), lang);
        i = i + 1;
    }
    assert(sv.skip(i as int) =~= Seq::<Seq<char>>::empty());
    let aliases = normalize_title_aliases(&tc);
    let mut sample_lines: Vec<String> = Vec::new();
    let mut k: usize = 0;
    while k < sample.len()
        invariant
            k <= sample.len(),
            sv == sample@.map_values(|v: Vec<char>| v@),
            views(sample_lines@) == sv.take(k as int),
        decreases sample.len() - k,
    {
        let ghost before = views(sample_lines@);
        let line = string_of(sample[k].as_slice());
        assert(line@ == sv[k as int]);
        sample_lines.push(line);
        assert(views(sample_lines@) =~= before.push(sv[k as int]));
        k = k + 1;
        assert(sv.take(k as int) =~= sv.take(k - 1).push(sv[k - 1]));
    }
    assert(sv.take(sample.len() as int) =~= sv);
    Some(
        SubtitleEvidence {
            source,
            locator,
            language,
            track_title,
            sample_lines,
            title_candidates: aliases,
            season,
            episode,
        },
    )
}

fn strings_of_lines(v: &Vec<Vec<char>>) -> (r: Vec<String>)
    ensures
        views(r@) == v@.map_values(|x: Vec<char>| x@),
{
    let mut out: Vec<String> = Vec::new();
    let mut k: usize = 0;
    while k < v.len()
        invariant
            k <= v.len(),
            views(out@) == v@.map_values(|x: Vec<char>| x@).take(k as int),
        decreases v.len() - k,
    {
        let ghost before = views(out@);
        let line = string_of(v[k].as_slice());
        out.push(line);
        assert(views(out@) =~= before.push(v@[k as int]@));
        k = k + 1;
        assert(v@.map_values(|x: Vec<char>| x@).take(k as int) =~= v@.map_values(
            |x: Vec<char>| x@,
        ).take(k - 1).push(v@[k - 1]@));
    }
    assert(v@.map_values(|x: Vec<char>| x@).take(v.len() as int) =~= v@.map_values(
        |x: Vec<char>| x@,
    ));
    out
}

/// Dialogue lines of a plain subtitle text (at most 64).
pub fn extract_text_lines(content: &str) -> (r: Vec<String>)
    ensures
        views(r@) == text_lines_spec(content@),
{
    let c = chars_of(content);
    strings_of_lines(&extract_text_lines_chars(c.as_slice()))
}

/// Dialogue text of the `Dialogue:` lines of an ASS/SSA subtitle (at most 64).
pub fn extract_ass_lines(content: &str) -> (r: Vec<String>)
    ensures
        views(r@) == ass_lines_spec(content@),
{
    let c = chars_of(content);
    strings_of_lines(&extract_ass_lines_chars(c.as_slice()))
}

/// Season and episode named in a line (`SxxEyy`, `Episode N`, `第N集`).
pub fn detect_episode_marker(raw: &str) -> (r: Option<(Option<u32>, Option<u32>)>)
    ensures
        match r {
            Some((s, e)) => episode_marker_spec(raw@) == Some((opt32(s), opt32(e))),
            None => episode_marker_spec(raw@) is None,
        },
{
    let c = chars_of(raw);
    detect_episode_marker_chars(c.as_slice())
}


// ---------------------------------------------------------------------------
// Evidence strength
// ---------------------------------------------------------------------------

pub open spec fn one_if(b: bool) -> nat {
    if b {
        1
    } else {
        0
    }
}

/// How many kinds of strong evidence a probe found: container metadata
/// (title, chapters or track titles), subtitles, on-screen text, speech.
pub open spec fn strong_evidence_spec(c: ContentEvidence) -> nat {
    one_if(c.container.title is Some || c.container.chapters@.len() > 0
        || c.container.track_titles@.len() > 0) + one_if(c.subtitles@.len() > 0) + one_if(
        exists|i: int| 0 <= i < c.visual@.len() && #[trigger] c.visual@[i].text_hits@.len() > 0,
    ) + one_if(
        exists|i: int| 0 <= i < c.audio@.len() && #[trigger] c.audio@[i].transcript_hits@.len() > 0,
    )
}

fn any_visual_hits(v: &Vec<VisualEvidence>) -> (r: bool)
    ensures
        r == exists|i: int| 0 <= i < v@.len() && #[trigger] v@[i].text_hits@.len() > 0,
{
    let mut i: usize = 0;
    while i < v.len()
        invariant
            i <= v.len(),
            forall|j: int| 0 <= j < i ==> #[trigger] v@[j].text_hits@.len() == 0,
        decreases v.len() - i,
    {
        if v[i].text_hits.len() > 0 {
            return true;
        }
        i = i + 1;
    }
    false
}

fn any_audio_hits(v: &Vec<AudioEvidence>) -> (r: bool)
    ensures
        r == exists|i: int| 0 <= i < v@.len() && #[trigger] v@[i].transcript_hits@.len() > 0,
{
    let mut i: usize = 0;
    while i < v.len()
        invariant
            i <= v.len(),
            forall|j: int| 0 <= j < i ==> #[trigger] v@[j].transcript_hits@.len() == 0,
        decreases v.len() - i,
    {
        if v[i].transcript_hits.len() > 0 {
            return true;
        }
        i = i + 1;
    }
    false
}

/// `strong_evidence_count` (see `strong_evidence_spec`).
pub fn strong_evidence_count(content_evidence: &ContentEvidence) -> (n: usize)
    ensures
        n == strong_evidence_spec(*content_evidence),
        n <= 4,
{
    let mut count: usize = 0;
    if content_evidence.container.title.is_some() || content_evidence.container.chapters.len() > 0
        || content_evidence.container.track_titles.len() > 0 {
        count = count + 1;
    }
    if content_evidence.subtitles.len() > 0 {
        count = count + 1;
    }
    if content_evidence.visual.len() > 0 && any_visual_hits(&content_evidence.visual) {
        count = count + 1;
    }
    if content_evidence.audio.len() > 0 && any_audio_hits(&content_evidence.audio) {
        count = count + 1;
    }
    count
}


// ---------------------------------------------------------------------------
// Assembling the evidence of one file
// ---------------------------------------------------------------------------

/// Gathers the evidence about a file's content.
pub struct ContentProbe;

pub type Hints = (Seq<Seq<char>>, Seq<u32>, Seq<u32>);

/// The season and episode of a marker in `raw`, each recorded once.
pub open spec fn marker_step(seasons: Seq<u32>, episodes: Seq<u32>, raw: Seq<char>) -> (Seq<u32>, Seq<u32>) {
    match episode_marker_spec(raw) {
        Some((s, e)) => (
            match s {
                Some(v) => push_unique_u32_spec(seasons, v as u32),
                None => seasons,
            },
            match e {
                Some(v) => push_unique_u32_spec(episodes, v as u32),
                None => episodes,
            },
        ),
        None => (seasons, episodes),
    }
}

/// Each chapter title as a short title candidate and as an episode marker.
pub open spec fn chapter_fold(h: Hints, chapters: Seq<Seq<char>>) -> Hints
    decreases chapters.len(),
{
    if chapters.len() == 0 {
        h
    } else {
        let a = chapter_fold(h, chapters.drop_last());
        let m = marker_step(a.1, a.2, chapters.last());
        (maybe_push_spec(a.0, chapters.last()), m.0, m.1)
    }
}

/// What the container's metadata adds: its title, its comment as a short
/// candidate, then each chapter.
pub open spec fn container_hints(c: ContainerEvidence) -> Hints {
    let t0: Seq<Seq<char>> = match c.title {
        Some(x) => push_unique_spec(seq![], normalize_candidate_spec(x@)),
        None => seq![],
    };
    let t1 = match c.comment {
        Some(x) => maybe_push_spec(t0, x@),
        None => t0,
    };
    chapter_fold((t1, seq![], seq![]), views(c.chapters@))
}

/// Each title candidate of a subtitle, normalized, recorded once.
pub open spec fn candidates_fold(t: Seq<Seq<char>>, cands: Seq<Seq<char>>) -> Seq<Seq<char>>
    decreases cands.len(),
{
    if cands.len() == 0 {
        t
    } else {
        push_unique_spec(candidates_fold(t, cands.drop_last()), normalize_candidate_spec(cands.last()))
    }
}

pub open spec fn opt_push_u32(v: Seq<u32>, o: Option<u32>) -> Seq<u32> {
    match o {
        Some(x) => push_unique_u32_spec(v, x),
        None => v,
    }
}

/// What the subtitles add: their title candidates, seasons and episodes.
pub open spec fn subtitles_fold(h: Hints, subs: Seq<SubtitleEvidence>) -> Hints
    decreases subs.len(),
{
    if subs.len() == 0 {
        h
    } else {
        let a = subtitles_fold(h, subs.drop_last());
        let s = subs.last();
        (
            candidates_fold(a.0, views(s.title_candidates@)),
            opt_push_u32(a.1, s.season),
            opt_push_u32(a.2, s.episode),
        )
    }
}

/// Everything gathered about a file: the container's metadata (when it
/// could be read) and the subtitles' hints.
pub open spec fn content_hints(container: Option<ContainerEvidence>, subs: Seq<SubtitleEvidence>) -> Hints {
    match container {
        Some(c) => subtitles_fold(container_hints(c), subs),
        None => subtitles_fold((seq![], seq![], seq![]), subs),
    }
}

pub open spec fn container_failure_flag() -> Seq<char> {
    "container probe unavailable or failed"@
}

fn chapter_hints(titles: &mut Vec<String>, seasons: &mut Vec<u32>, episodes: &mut Vec<u32>, chapters: &Vec<String>)
    ensures
        ({
            let h = chapter_fold((views(old(titles)@), old(seasons)@, old(episodes)@), views(chapters@));
            views(final(titles)@) == h.0 && final(seasons)@ == h.1 && final(episodes)@ == h.2
        }),
{
    let ghost h0: Hints = (views(titles@), seasons@, episodes@);
    let ghost cv = views(chapters@);
    let mut i: usize = 0;
    while i < chapters.len()
        invariant
            i <= chapters.len(),
            cv == views(chapters@),
            ({
                let h = chapter_fold(h0, cv.take(i as int));
                views(titles@) == h.0 && seasons@ == h.1 && episodes@ == h.2
            }),
        decreases chapters.len() - i,
    {
        let c = chars_of(chapters[i].as_str());
        assert(cv.take(i + 1).drop_last() =~= cv.take(i as int));
        assert(cv.take(i + 1).last() == c@);
        maybe_push_short_title_candidate(titles, c.as_slice());
        capture_episode_hints(c.as_slice(), seasons, episodes);
        i = i + 1;
    }
    assert(cv.take(chapters.len() as int) =~= cv);
}

fn subtitle_hints(titles: &mut Vec<String>, seasons: &mut Vec<u32>, episodes: &mut Vec<u32>, subs: &Vec<SubtitleEvidence>)
    ensures
        ({
            let h = subtitles_fold((views(old(titles)@), old(seasons)@, old(episodes)@), subs@);
            views(final(titles)@) == h.0 && final(seasons)@ == h.1 && final(episodes)@ == h.2
        }),
{
    let ghost h0: Hints = (views(titles@), seasons@, episodes@);
    let mut i: usize = 0;
    while i < subs.len()
        invariant
            i <= subs.len(),
            ({
                let h = subtitles_fold(h0, subs@.take(i as int));
                views(titles@) == h.0 && seasons@ == h.1 && episodes@ == h.2
            }),
        decreases subs.len() - i,
    {
        let s = &subs[i];
        assert(subs@.take(i + 1).drop_last() =~= subs@.take(i as int));
        let ghost t0 = views(titles@);
        let ghost cv = views(s.title_candidates@);
        let mut k: usize = 0;
        while k < s.title_candidates.len()
            invariant
                k <= s.title_candidates.len(),
                cv == views(s.title_candidates@),
                views(titles@) == candidates_fold(t0, cv.take(k as int)),
            decreases s.title_candidates.len() - k,
        {
            let c = chars_of(s.title_candidates[k].as_str());
            let n = normalize_title_candidate(c.as_slice());
            assert(cv.take(k + 1).drop_last() =~= cv.take(k as int));
            push_unique(titles, n.as_slice());
            k = k + 1;
        }
        assert(cv.take(s.title_candidates.len() as int) =~= cv);
        match s.season {
            Some(v) => push_unique_u32(seasons, v),
            None => {},
        }
        match s.episode {
            Some(v) => push_unique_u32(episodes, v),
            None => {},
        }
        i = i + 1;
    }
    assert(subs@.take(subs.len() as int) =~= subs@);
}

impl ContentProbe {
    /// The evidence about a file from what was read of it: the container's
    /// metadata (`None` when it could not be read, which is flagged as a
    /// risk), the subtitles found, and the runtime the quality probe
    /// measured. Frames and audio are not examined, and say so.
    pub fn assemble(
        container: Option<ContainerEvidence>,
        subtitles: Vec<SubtitleEvidence>,
        runtime_secs: Option<u64>,
    ) -> (r: ContentEvidence)
        ensures
            ({
                let h = content_hints(container, subtitles@);
                &&& views(r.title_candidates@) == h.0
                &&& r.season_hypotheses@ == h.1
                &&& r.episode_hypotheses@ == h.2
            }),
            r.subtitles@ == subtitles@,
            r.runtime_secs == runtime_secs,
            views(r.risk_flags@) == if container is Some {
                seq![]
            } else {
                seq![container_failure_flag()]
            },
            r.visual@.len() == 1 && r.visual@[0].source@ == "unimplemented"@
                && r.visual@[0].text_hits@.len() == 0,
            r.audio@.len() == 1 && r.audio@[0].source@ == "unimplemented"@
                && r.audio@[0].transcript_hits@.len() == 0,
    {
        let mut titles: Vec<String> = Vec::new();
        let mut seasons: Vec<u32> = Vec::new();
        let mut episodes: Vec<u32> = Vec::new();
        let mut risk_flags: Vec<String> = Vec::new();
        assert(views(titles@) =~= Seq::<Seq<char>>::empty());
        let c = match container {
            Some(c) => {
                match &c.title {
                    Some(t) => {
                        let n = normalize_title_candidate(chars_of(t.as_str()).as_slice());
                        push_unique(&mut titles, n.as_slice());
                    },
                    None => {},
                }
                match &c.comment {
                    Some(m) => {
                        maybe_push_short_title_candidate(&mut titles, chars_of(m.as_str()).as_slice());
                    },
                    None => {},
                }
                chapter_hints(&mut titles, &mut seasons, &mut episodes, &c.chapters);
                c
            },
            None => {
                risk_flags.push(crate::text::owned("container probe unavailable or failed"));
                assert(views(risk_flags@) =~= seq![container_failure_flag()]);
                ContainerEvidence {
                    format_name: None,
                    title: None,
                    comment: None,
                    chapters: Vec::new(),
                    stream_languages: Vec::new(),
                    track_titles: Vec::new(),
                }
            },
        };
        assert(views(risk_flags@) =~= if container is Some {
            Seq::<Seq<char>>::empty()
        } else {
            seq![container_failure_flag()]
        });
        subtitle_hints(&mut titles, &mut seasons, &mut episodes, &subtitles);
        let visual = vec![VisualEvidence { source: crate::text::owned("unimplemented"), text_hits: Vec::new() }];
        let audio = vec![AudioEvidence { source: crate::text::owned("unimplemented"), transcript_hits: Vec::new() }];
        ContentEvidence {
            container: c,
            subtitles,
            visual,
            audio,
            title_candidates: titles,
            season_hypotheses: seasons,
            episode_hypotheses: episodes,
            runtime_secs,
            risk_flags,
        }
    }
}


// ---------------------------------------------------------------------------
// Subtitle files beside a video
// ---------------------------------------------------------------------------

pub open spec fn probe_subtitle_exts() -> Seq<Seq<char>> {
    seq!["srt"@, "ass"@, "ssa"@, "vtt"@]
}

/// A text subtitle file in `dir` (by its extension, in any ASCII case).
pub open spec fn is_dir_subtitle(dir: Seq<char>, entry: Seq<char>) -> bool {
    &&& crate::paths::parent_spec(entry) == Some(dir)
    &&& crate::media::in_strs(
        lower(crate::rename::or_empty(crate::paths::extension_spec(entry))),
        probe_subtitle_exts(),
    )
}

/// A subtitle named after the video: its stem is the video's, or starts
/// with it followed by `.` or `-`.
pub open spec fn named_after(stem: Seq<char>, entry: Seq<char>) -> bool {
    let s = crate::rename::or_empty(crate::paths::file_stem_spec(entry));
    s == stem || starts_with(s, stem + "."@) || starts_with(s, stem + "-"@)
}

/// The subtitle files of `dir` in the listing that are (or are not, for
/// `named == false`) named after the video.
pub open spec fn dir_subtitles(
    dir: Seq<char>,
    stem: Seq<char>,
    listing: Seq<crate::rename::FsEntry>,
    named: bool,
) -> Seq<Seq<char>>
    decreases listing.len(),
{
    if listing.len() == 0 {
        seq![]
    } else {
        let rest = dir_subtitles(dir, stem, listing.drop_last(), named);
        let e = listing.last().path@;
        if is_dir_subtitle(dir, e) && named_after(stem, e) == named {
            rest.push(e)
        } else {
            rest
        }
    }
}

/// The subtitle files that go with a video: those named after it; when
/// there are none, the directory's only other subtitle file; otherwise
/// none.
pub open spec fn external_subtitles_spec(media: Seq<char>, listing: Seq<crate::rename::FsEntry>) -> Seq<
    Seq<char>,
> {
    match crate::paths::parent_spec(media) {
        Some(dir) => match crate::paths::file_stem_spec(media) {
            Some(stem) => {
                let m = dir_subtitles(dir, stem, listing, true);
                let f = dir_subtitles(dir, stem, listing, false);
                if m.len() > 0 {
                    m
                } else if f.len() == 1 {
                    f
                } else {
                    seq![]
                }
            },
            None => seq![],
        },
        None => seq![],
    }
}

fn is_dir_subtitle_exec(dir: &str, entry: &str) -> (r: bool)
    ensures
        r == is_dir_subtitle(dir@, entry@),
{
    let p = crate::paths::parent(entry);
    let in_dir = match &p {
        Some(d) => crate::text::str_eq(d.as_str(), dir),
        None => false,
    };
    if !in_dir {
        return false;
    }
    let e: Vec<char> = match crate::paths::extension(entry) {
        Some(x) => chars_of(x.as_str()),
        None => Vec::new(),
    };
    let l = string_of(to_lower(e.as_slice()).as_slice());
    let exts: [&str; 4] = ["srt", "ass", "ssa", "vtt"];
    assert(crate::text::str_views(exts@) =~= probe_subtitle_exts());
    crate::media::in_list_str(l.as_str(), exts.as_slice())
}

fn named_after_exec(stem: &str, entry: &str) -> (r: bool)
    ensures
        r == named_after(stem@, entry@),
{
    let s: Vec<char> = match crate::paths::file_stem(entry) {
        Some(x) => chars_of(x.as_str()),
        None => Vec::new(),
    };
    let st = chars_of(stem);
    let mut dot = chars_of(stem);
    dot.push('.');
    let mut dash = chars_of(stem);
    dash.push('-');
    proof {
        reveal_strlit(".");
        reveal_strlit("-");
    }
    assert(dot@ == stem@ + "."@);
    assert(dash@ == stem@ + "-"@);
    chars_eq(s.as_slice(), st.as_slice()) || crate::text::starts_with_chars(s.as_slice(), dot.as_slice())
        || crate::text::starts_with_chars(s.as_slice(), dash.as_slice())
}

/// The subtitle files that go with a video, given the listing of its
/// directory (see `external_subtitles_spec`).
pub fn find_external_subtitles(media_path: &str, listing: &Vec<crate::rename::FsEntry>) -> (r: Vec<String>)
    ensures
        views(r@) == external_subtitles_spec(media_path@, listing@),
{
    let dir = match crate::paths::parent(media_path) {
        Some(d) => d,
        None => return Vec::new(),
    };
    let stem = match crate::paths::file_stem(media_path) {
        Some(s) => s,
        None => return Vec::new(),
    };
    let mut m: Vec<String> = Vec::new();
    let mut f: Vec<String> = Vec::new();
    let mut i: usize = 0;
    while i < listing.len()
        invariant
            i <= listing.len(),
            views(m@) == dir_subtitles(dir@, stem@, listing@.take(i as int), true),
            views(f@) == dir_subtitles(dir@, stem@, listing@.take(i as int), false),
        decreases listing.len() - i,
    {
        let e = listing[i].path.as_str();
        assert(listing@.take(i + 1).drop_last() =~= listing@.take(i as int));
        assert(listing@.take(i + 1).last() == listing@[i as int]);
        if is_dir_subtitle_exec(dir.as_str(), e) {
            let ghost bm = views(m@);
            let ghost bf = views(f@);
            if named_after_exec(stem.as_str(), e) {
                m.push(crate::text::owned(e));
                assert(views(m@) =~= bm.push(e@));
            } else {
                f.push(crate::text::owned(e));
                assert(views(f@) =~= bf.push(e@));
            }
        }
        i = i + 1;
    }
    assert(listing@.take(listing.len() as int) =~= listing@);
    if m.len() > 0 {
        m
    } else if f.len() == 1 {
        f
    } else {
        Vec::new()
    }
}

/// How a subtitle file is laid out, by its extension: ASS/SSA, or plain.
pub fn subtitle_format_of(path: &str) -> (r: SubtitleTextFormat)
    ensures
        r == if ({
            let e = lower(crate::rename::or_empty(crate::paths::extension_spec(path@)));
            e == "ass"@ || e == "ssa"@
        }) {
            SubtitleTextFormat::Ass
        } else {
            SubtitleTextFormat::Plain
        },
{
    let e: Vec<char> = match crate::paths::extension(path) {
        Some(x) => chars_of(x.as_str()),
        None => Vec::new(),
    };
    let l = string_of(to_lower(e.as_slice()).as_slice());
    if crate::text::str_eq(l.as_str(), "ass") || crate::text::str_eq(l.as_str(), "ssa") {
        SubtitleTextFormat::Ass
    } else {
        SubtitleTextFormat::Plain
    }
}

} // verus!
