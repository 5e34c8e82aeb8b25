//! Reading title, season, episode, year and release tags from a file name.
//!
//! Each regular expression is run by the `regex` crate; what it matches is
//! named in `regex_calls`, and everything the identifier does with the
//! matches is stated here.
use crate::media::{
    codec_capture, codec_opt, join_dotted, joined_parts, opt_part, plain_capture, push_opt,
    upper_capture, upper_opt, ParsedInfo, ParsedModel, RE_AUDIO, RE_CODEC, RE_RESOLUTION,
    RE_SOURCE,
};
use crate::paths::file_stem_spec;
use crate::regex_calls::{
    capture_rx, capture_span_rx, regex_escape, regex_escaped, replace_all_rx, rx_capture,
    rx_replace_all, rx_span,
};
use crate::text::{
    append_chars, append_str, byte_len, byte_len_of, bytes_from, chars_of, parse_uint,
    parse_uint_spec, seqs, skip_bytes, strings_of, strip_end, strip_end_chars, string_of, trim,
    trim_chars, views,
};
use crate::types::{MediaType, ParseSource};
use vstd::prelude::*;

verus! {

pub const RE_SPACES: &'static str = r"\s+";

pub const RE_YEAR_SEPARATED: &'static str = r"(?i)[.\s_-](\d{4})[.\s_-]";

pub const RE_GROUP_AT_END: &'static str = r"(?i)-([A-Za-z0-9]+)$";

pub const RE_DASH_TAG_AT_END: &'static str = r"(?i)-[A-Za-z0-9]+$";

pub const RE_TV_SXE: &'static str = r"(?i)(.+?)[.\s_-]+S(\d{1,2})\s*E(\d{1,3})";

pub const RE_TV_NXN: &'static str = r"(?i)(.+?)[.\s_-]+(\d{1,2})x(\d{1,3})";

pub const RE_MOVIE_YEAR: &'static str = r"(?i)(.+?)[.\s_-]+(\d{4})";

// ---------------------------------------------------------------------------
// Keyword filter
// ---------------------------------------------------------------------------

/// Removes noise words (release groups, site tags) from file names.
pub struct KeywordFilter {
    pub keywords: Vec<String>,
}

pub open spec fn builtin_keywords_spec() -> Seq<Seq<char>> {
    seq![
        "ColorTV"@,
        "WEBDL"@,
        "HDS"@,
        "FRDS"@,
        "BeAst"@,
        "HDCTV"@,
        "OurTV"@,
        "AoE"@,
        "字幕侠"@,
        "片源网"@,
        "人人影视"@,
        "射手网"@,
    ]
}

/// The pattern that removes one keyword: the keyword taken literally,
/// matched without regard to case.
pub open spec fn keyword_pattern(kw: Seq<char>) -> Seq<char> {
    "(?i)"@ + regex_escaped(kw)
}

/// Each keyword in turn replaced by a space wherever it occurs.
pub open spec fn strip_keywords(kws: Seq<Seq<char>>, s: Seq<char>) -> Seq<char>
    decreases kws.len(),
{
    if kws.len() == 0 {
        s
    } else {
        rx_replace_all(keyword_pattern(kws.last()), strip_keywords(kws.drop_last(), s), " "@)
    }
}

/// `KeywordFilter::filter`: keywords removed, runs of white space made one
/// space, and the ends trimmed.
pub open spec fn filter_spec(kws: Seq<Seq<char>>, s: Seq<char>) -> Seq<char> {
    trim(rx_replace_all(RE_SPACES@, strip_keywords(kws, s), " "@))
}

impl KeywordFilter {
    /// A filter for the given keywords followed by the built-in ones.
    pub fn new(keywords: Vec<String>) -> (f: Self)
        ensures
            views(f.keywords@) == views(keywords@) + builtin_keywords_spec(),
    {
        let mut all = keywords;
        let mut builtin = Self::builtin_keywords();
        let ghost a = views(all@);
        let ghost b = views(builtin@);
        all.append(&mut builtin);
        assert(views(all@) =~= a + b);
        KeywordFilter { keywords: all }
    }

    /// Release groups and site tags removed by every filter.
    pub fn builtin_keywords() -> (v: Vec<String>)
        ensures
            views(v@) == builtin_keywords_spec(),
    {
        let lits: [&str; 12] = [
            "ColorTV",
            "WEBDL",
            "HDS",
            "FRDS",
            "BeAst",
            "HDCTV",
            "OurTV",
            "AoE",
            "字幕侠",
            "片源网",
            "人人影视",
            "射手网",
        ];
        let v = strings_of(lits.as_slice());
        assert(crate::text::str_views(lits@) =~= builtin_keywords_spec());
        v
    }

    /// The file name with every keyword removed (see `filter_spec`).
    pub fn filter(&self, filename: &str) -> (r: String)
        ensures
            r@ == filter_spec(views(self.keywords@), filename@),
    {
        let mut result = chars_of(filename);
        let mut i: usize = 0;
        while i < self.keywords.len()
            invariant
                i <= self.keywords.len(),
                result@ == strip_keywords(views(self.keywords@).take(i as int), filename@),
            decreases self.keywords.len() - i,
        {
            let escaped = regex_escape(self.keywords[i].as_str());
            let mut pat = chars_of("(?i)");
            append_str(&mut pat, escaped.as_str());
            let pattern = string_of(pat.as_slice());
            result = replace_all_rx(pattern.as_str(), result.as_slice(), " ");
            proof {
                let t = views(self.keywords@).take(i + 1);
                assert(t.drop_last() =~= views(self.keywords@).take(i as int));
                assert(t.last() == self.keywords@[i as int]@);
                reveal_strlit("(?i)");
            }
            i = i + 1;
        }
        assert(views(self.keywords@).take(self.keywords.len() as int) =~= views(self.keywords@));
        let collapsed = replace_all_rx(RE_SPACES, result.as_slice(), " ");
        let t = trim_chars(collapsed.as_slice());
        string_of(t.as_slice())
    }
}

// ---------------------------------------------------------------------------
// Pieces of a file name
// ---------------------------------------------------------------------------

/// `str::parse` of a captured number, `None` when nothing was captured.
pub open spec fn parse_num(o: Option<Seq<char>>, max: nat) -> Option<nat> {
    match o {
        Some(m) => parse_uint_spec(m, max),
        None => None,
    }
}

/// A year written between separators.
pub open spec fn year_of(s: Seq<char>) -> Option<u16> {
    match parse_num(rx_capture(RE_YEAR_SEPARATED@, s, 1), 65535) {
        Some(v) => Some(v as u16),
        None => None,
    }
}

/// The tags that make up a media suffix, in order.
pub open spec fn media_parts(s: Seq<char>) -> Seq<Seq<char>> {
    opt_part(upper_opt(rx_capture(RE_RESOLUTION@, s, 1))) + opt_part(rx_capture(RE_SOURCE@, s, 1))
        + opt_part(codec_opt(rx_capture(RE_CODEC@, s, 1))) + opt_part(rx_capture(RE_AUDIO@, s, 1))
        + opt_part(rx_capture(RE_GROUP_AT_END@, s, 1))
}

/// `extract_media_suffix`: nothing when the text from byte `start` on is
/// empty or blank; otherwise the tags of the whole name joined with `.`.
pub open spec fn media_suffix_spec(s: Seq<char>, start: nat) -> Option<Seq<char>> {
    if start >= byte_len(s) {
        None
    } else if trim(bytes_from(s, start as int)).len() == 0 {
        None
    } else {
        joined_parts(media_parts(s))
    }
}

/// `clean_title`: trimmed, trailing `.`, `-`, `_` and spaces removed, white
/// space runs made one space.
pub open spec fn clean_title_spec(t: Seq<char>) -> Seq<char> {
    rx_replace_all(RE_SPACES@, strip_end(trim(t), ".-_ "@), " "@)
}

/// A parse result of the regular-expression kind with the tags of `s`.
pub open spec fn tags_model(
    s: Seq<char>,
    title: Seq<char>,
    year: Option<u16>,
    season: Option<u32>,
    episode: Option<u32>,
    suffix: Option<Seq<char>>,
) -> ParsedModel {
    ParsedModel {
        raw_title: title,
        year: year,
        season: season,
        episode: episode,
        resolution: upper_opt(rx_capture(RE_RESOLUTION@, s, 1)),
        codec: codec_opt(rx_capture(RE_CODEC@, s, 1)),
        source: rx_capture(RE_SOURCE@, s, 1),
        release_group: rx_capture(RE_GROUP_AT_END@, s, 1),
        media_suffix: suffix,
        parse_source: ParseSource::Regex,
        evidence: seq![],
    }
}

pub open spec fn matched(re: Seq<char>, s: Seq<char>) -> bool {
    rx_capture(re, s, 0) is Some
}

/// An episode pattern's reading of `c`: title (group 1), season (group 2,
/// where the suffix starts) and episode (group 3).
pub open spec fn tv_from(re: Seq<char>, c: Seq<char>) -> Option<ParsedModel> {
    match (
        rx_capture(re, c, 1),
        rx_span(re, c, 2),
        parse_num(rx_capture(re, c, 2), 0xffff_ffff),
        parse_num(rx_capture(re, c, 3), 0xffff_ffff),
    ) {
        (Some(t), Some(sp), Some(se), Some(ep)) => Some(
            tags_model(
                c,
                clean_title_spec(t),
                year_of(c),
                Some(se as u32),
                Some(ep as u32),
                media_suffix_spec(c, sp.0),
            ),
        ),
        _ => None,
    }
}

/// What `try_tv_pattern` finds: `S01E02` first, then `1x02`.
pub open spec fn try_tv_spec(c: Seq<char>) -> Option<ParsedModel> {
    if matched(RE_TV_SXE@, c) {
        tv_from(RE_TV_SXE@, c)
    } else if matched(RE_TV_NXN@, c) {
        tv_from(RE_TV_NXN@, c)
    } else {
        None
    }
}

/// What `try_movie_pattern` finds: a title followed by a year in
/// 1900..=2030; the suffix starts after the year.
pub open spec fn try_movie_spec(c: Seq<char>) -> Option<ParsedModel> {
    if matched(RE_MOVIE_YEAR@, c) {
        match (
            rx_capture(RE_MOVIE_YEAR@, c, 1),
            parse_num(rx_capture(RE_MOVIE_YEAR@, c, 2), 65535),
            rx_span(RE_MOVIE_YEAR@, c, 2),
        ) {
            (Some(t), Some(y), Some(sp)) => if y < 1900 || y > 2030 {
                None
            } else {
                Some(
                    tags_model(
                        c,
                        clean_title_spec(t),
                        Some(y as u16),
                        None,
                        None,
                        media_suffix_spec(c, sp.1),
                    ),
                )
            },
            _ => None,
        }
    } else {
        None
    }
}

/// The known tags each replaced by a space.
pub open spec fn strip_tags(t: Seq<char>) -> Seq<char> {
    let t1 = rx_replace_all(RE_RESOLUTION@, t, " "@);
    let t2 = rx_replace_all(RE_CODEC@, t1, " "@);
    let t3 = rx_replace_all(RE_SOURCE@, t2, " "@);
    let t4 = rx_replace_all(RE_AUDIO@, t3, " "@);
    rx_replace_all(RE_DASH_TAG_AT_END@, t4, " "@)
}

/// What `fallback_parse` gives: the name without its tags is the title.
pub open spec fn fallback_spec(c: Seq<char>) -> ParsedModel {
    tags_model(
        c,
        trim(rx_replace_all(RE_SPACES@, strip_tags(c), " "@)),
        year_of(c),
        None,
        None,
        media_suffix_spec(c, 0),
    )
}

/// The stem of a file name (the name itself when it has none).
pub open spec fn stem_or_name(f: Seq<char>) -> Seq<char> {
    match file_stem_spec(f) {
        Some(s) => s,
        None => f,
    }
}

/// `Identifier::parse`: the keyword-filtered stem read by the episode
/// patterns, else the movie pattern, else the fallback.
pub open spec fn parse_spec(kws: Seq<Seq<char>>, filename: Seq<char>) -> ParsedModel {
    let c = filter_spec(kws, stem_or_name(filename));
    match try_tv_spec(c) {
        Some(p) => p,
        None => match try_movie_spec(c) {
            Some(p) => p,
            None => fallback_spec(c),
        },
    }
}

/// Episode patterns are tried before the movie pattern: when an `SxxEyy`
/// (or `NxNN`) reading of the filtered stem succeeds, it is the result,
/// with its season and episode, whether or not the name also holds a
/// year. For `SxxEyy`, the season and episode are the numbers the pattern
/// captured, and the year is the one the name carries.
pub proof fn lemma_episode_patterns_first(kws: Seq<Seq<char>>, filename: Seq<char>)
    ensures
        try_tv_spec(filter_spec(kws, stem_or_name(filename))) matches Some(t) ==> (parse_spec(
            kws,
            filename,
        ) == t && t.season is Some && t.episode is Some),
        ({
            let c = filter_spec(kws, stem_or_name(filename));
            matched(RE_TV_SXE@, c) ==> (rx_capture(RE_TV_SXE@, c, 1) is Some ==> (rx_span(
                RE_TV_SXE@,
                c,
                2,
            ) is Some ==> (parse_num(rx_capture(RE_TV_SXE@, c, 2), 0xffff_ffff) matches Some(se)
                ==> (parse_num(rx_capture(RE_TV_SXE@, c, 3), 0xffff_ffff) matches Some(ep) ==> {
                let r = parse_spec(kws, filename);
                &&& r.season == Some(se as u32)
                &&& r.episode == Some(ep as u32)
                &&& r.year == year_of(c)
            }))))
        }),
{
}

fn num_capture(re: &str, c: &[char], group: usize, max: u64) -> (r: Option<u64>)
    ensures
        match r {
            Some(v) => parse_num(rx_capture(re@, c@, group as nat), max as nat) == Some(v as nat),
            None => parse_num(rx_capture(re@, c@, group as nat), max as nat) is None,
        },
{
    match capture_rx(re, c, group) {
        Some(m) => parse_uint(m.as_slice(), max),
        None => None,
    }
}

fn year_exec(c: &[char]) -> (r: Option<u16>)
    ensures
        r == year_of(c@),
{
    match num_capture(RE_YEAR_SEPARATED, c, 1, 65535) {
        Some(v) => Some(v as u16),
        None => None,
    }
}

fn to_string_opt(o: Option<Vec<char>>) -> (r: Option<String>)
    ensures
        crate::media::sv(r) == match o {
            Some(v) => Some(v@),
            None => None::<Seq<char>>,
        },
{
    match o {
        Some(v) => Some(string_of(v.as_slice())),
        None => None,
    }
}

fn extract_media_suffix(c: &[char], start: usize) -> (r: Option<String>)
    ensures
        crate::media::sv(r) == media_suffix_spec(c@, start as nat),
{
    let bl = byte_len_of(c);
    if start as u128 >= bl {
        return None;
    }
    let rest = skip_bytes(c, start);
    let t = trim_chars(rest.as_slice());
    if t.len() == 0 {
        return None;
    }
    let mut parts: Vec<Vec<char>> = Vec::new();
    assert(seqs(parts@) =~= Seq::<Seq<char>>::empty());
    push_opt(&mut parts, upper_capture(RE_RESOLUTION, c));
    push_opt(&mut parts, plain_capture(RE_SOURCE, c));
    push_opt(&mut parts, codec_capture(RE_CODEC, c));
    push_opt(&mut parts, plain_capture(RE_AUDIO, c));
    push_opt(&mut parts, plain_capture(RE_GROUP_AT_END, c));
    assert(seqs(parts@) =~= media_parts(c@));
    let j = join_dotted(&parts);
    j
}

fn clean_title(t: &[char]) -> (r: Vec<char>)
    ensures
        r@ == clean_title_spec(t@),
{
    let a = trim_chars(t);
    let set: [char; 4] = ['.', '-', '_', ' '];
    proof {
        reveal_strlit(".-_ ");
    }
    assert(set@ =~= ".-_ "@);
    let b = strip_end_chars(a.as_slice(), set.as_slice());
    replace_all_rx(RE_SPACES, b.as_slice(), " ")
}

fn tags_info(
    c: &[char],
    title: Vec<char>,
    year: Option<u16>,
    season: Option<u32>,
    episode: Option<u32>,
    suffix: Option<String>,
) -> (r: ParsedInfo)
    ensures
        r@ == tags_model(c@, title@, year, season, episode, crate::media::sv(suffix)),
{
    let resolution = to_string_opt(upper_capture(RE_RESOLUTION, c));
    let codec = to_string_opt(codec_capture(RE_CODEC, c));
    let source = to_string_opt(plain_capture(RE_SOURCE, c));
    let group = to_string_opt(plain_capture(RE_GROUP_AT_END, c));
    let r = ParsedInfo {
        raw_title: string_of(title.as_slice()),
        year,
        season,
        episode,
        resolution,
        codec,
        source,
        release_group: group,
        media_suffix: suffix,
        parse_source: ParseSource::Regex,
        evidence: Vec::new(),
    };
    assert(views(r.evidence@) =~= Seq::<Seq<char>>::empty());
    r
}

fn is_matched(re: &str, c: &[char]) -> (r: bool)
    ensures
        r == matched(re@, c@),
{
    capture_rx(re, c, 0).is_some()
}

fn try_tv_pattern(re: &str, c: &[char]) -> (r: Option<ParsedInfo>)
    ensures
        match r {
            Some(p) => tv_from(re@, c@) == Some(p@),
            None => tv_from(re@, c@) is None,
        },
{
    let t = match capture_rx(re, c, 1) {
        Some(t) => t,
        None => return None,
    };
    let sp = match capture_span_rx(re, c, 2) {
        Some(sp) => sp,
        None => return None,
    };
    let se = match num_capture(re, c, 2, 0xffff_ffff) {
        Some(v) => v,
        None => return None,
    };
    let ep = match num_capture(re, c, 3, 0xffff_ffff) {
        Some(v) => v,
        None => return None,
    };
    let title = clean_title(t.as_slice());
    let year = year_exec(c);
    let suffix = extract_media_suffix(c, sp.0);
    Some(tags_info(c, title, year, Some(se as u32), Some(ep as u32), suffix))
}

fn try_movie_pattern(c: &[char]) -> (r: Option<ParsedInfo>)
    ensures
        match r {
            Some(p) => try_movie_spec(c@) == Some(p@),
            None => try_movie_spec(c@) is None,
        },
{
    if !is_matched(RE_MOVIE_YEAR, c) {
        return None;
    }
    let t = match capture_rx(RE_MOVIE_YEAR, c, 1) {
        Some(t) => t,
        None => return None,
    };
    let y = match num_capture(RE_MOVIE_YEAR, c, 2, 65535) {
        Some(v) => v,
        None => return None,
    };
    let sp = match capture_span_rx(RE_MOVIE_YEAR, c, 2) {
        Some(sp) => sp,
        None => return None,
    };
    if y < 1900 || y > 2030 {
        return None;
    }
    let title = clean_title(t.as_slice());
    let suffix = extract_media_suffix(c, sp.1);
    Some(tags_info(c, title, Some(y as u16), None, None, suffix))
}

fn fallback_parse(c: &[char]) -> (r: ParsedInfo)
    ensures
        r@ == fallback_spec(c@),
{
    let t1 = replace_all_rx(RE_RESOLUTION, c, " ");
    let t2 = replace_all_rx(RE_CODEC, t1.as_slice(), " ");
    let t3 = replace_all_rx(RE_SOURCE, t2.as_slice(), " ");
    let t4 = replace_all_rx(RE_AUDIO, t3.as_slice(), " ");
    let t5 = replace_all_rx(RE_DASH_TAG_AT_END, t4.as_slice(), " ");
    let collapsed = replace_all_rx(RE_SPACES, t5.as_slice(), " ");
    let title = trim_chars(collapsed.as_slice());
    let year = year_exec(c);
    let suffix = extract_media_suffix(c, 0);
    tags_info(c, title, year, None, None, suffix)
}

/// Reads media file names.
pub struct Identifier {
    pub keyword_filter: KeywordFilter,
}

impl Identifier {
    /// An identifier that cleans file names with the given filter.
    pub fn new(keyword_filter: KeywordFilter) -> (i: Self)
        ensures
            i.keyword_filter == keyword_filter,
    {
        Identifier { keyword_filter }
    }

    /// What the name says (see `parse_spec`); the media type is not
    /// consulted.
    pub fn parse(&self, filename: &str, media_type: MediaType) -> (p: ParsedInfo)
        ensures
            p@ == parse_spec(views(self.keyword_filter.keywords@), filename@),
    {
        let stem = match crate::paths::file_stem(filename) {
            Some(s) => s,
            None => crate::text::owned(filename),
        };
        let cleaned = self.keyword_filter.filter(stem.as_str());
        let c = chars_of(cleaned.as_str());
        if is_matched(RE_TV_SXE, c.as_slice()) {
            if let Some(p) = try_tv_pattern(RE_TV_SXE, c.as_slice()) {
                return p;
            }
        } else if is_matched(RE_TV_NXN, c.as_slice()) {
            if let Some(p) = try_tv_pattern(RE_TV_NXN, c.as_slice()) {
                return p;
            }
        }
        if let Some(p) = try_movie_pattern(c.as_slice()) {
            return p;
        }
        fallback_parse(c.as_slice())
    }
}

} // verus!
