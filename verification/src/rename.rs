//! Rename planning: file names rendered from templates, subtitles that
//! follow their video, and season, show and movie directories named after
//! their content.
use crate::config::RenameConfig;
use crate::identify::RE_SPACES;
use crate::media::{
    sv, DirectoryRenamePlan, MediaItem, ParsedInfo, RenamePlan, ScrapeResult, SubtitleRenamePlan,
};
use crate::paths::{extension_spec, file_name_spec, file_stem_spec, join_spec, parent_spec};
use crate::regex_calls::{
    is_match_rx, replace_all_rx, replace_first_rx, rx_is_match, rx_replace_all, rx_replace_first,
};
use crate::text::{
    lowercase_result,
    append_chars, append_str, chars_eq, chars_of, contains, contains_str, decimal, decimal_of,
    map_bad_chars, owned, pad2, pad2_of, replace_all, replace_char_set, replace_chars, str_eq,
    string_of, to_vec, trim, trim_chars, views,
};
use crate::types::{MediaType, ParseSource, ScrapeSource};
use vstd::prelude::*;

verus! {

// ---------------------------------------------------------------------------
// Names and templates
// ---------------------------------------------------------------------------

/// Characters that cannot stand in a file name.
pub open spec fn name_bad_chars() -> Seq<char> {
    seq!['/', '\\', ':', '*', '?', '"', '<', '>', '|']
}

/// `sanitize_name`: forbidden characters become `_`, the ends are trimmed
/// and runs of white space become one space.
pub open spec fn sanitize_name_spec(s: Seq<char>) -> Seq<char> {
    rx_replace_all(RE_SPACES@, trim(map_bad_chars(s, name_bad_chars(), '_')), " "@)
}

/// A file name with the characters that paths cannot hold replaced.
pub fn sanitize_name(s: &str) -> (r: String)
    ensures
        r@ == sanitize_name_spec(s@),
{
    let v = chars_of(s);
    let bad: [char; 9] = ['/', '\\', ':', '*', '?', '"', '<', '>', '|'];
    assert(bad@ =~= name_bad_chars());
    let cleaned = replace_char_set(v.as_slice(), bad.as_slice(), '_');
    let t = trim_chars(cleaned.as_slice());
    let r = replace_all_rx(RE_SPACES, t.as_slice(), " ");
    string_of(r.as_slice())
}

pub open spec fn mentions_ext_spec(t: Seq<char>) -> bool {
    contains(t, "{ext}"@) || contains(t, "{{ext"@) || contains(t, "{{ ext"@)
}

/// Whether a template writes the extension itself.
pub fn template_mentions_ext(template: &str) -> (r: bool)
    ensures
        r == mentions_ext_spec(template@),
{
    let t = chars_of(template);
    contains_str(t.as_slice(), "{ext}") || contains_str(t.as_slice(), "{{ext") || contains_str(
        t.as_slice(),
        "{{ ext",
    )
}

pub open spec fn is_advanced_spec(t: Seq<char>) -> bool {
    contains(t, "{{"@) || contains(t, "{%"@) || contains(t, "{#"@)
}

/// Whether a template is in the template-engine syntax (`{{`, `{%`, `{#`)
/// rather than plain `{name}` placeholders.
pub fn is_advanced_template(template: &str) -> (r: bool)
    ensures
        r == is_advanced_spec(template@),
{
    let t = chars_of(template);
    contains_str(t.as_slice(), "{{") || contains_str(t.as_slice(), "{%") || contains_str(
        t.as_slice(),
        "{#",
    )
}

pub const RE_SEASONISH: &'static str = r"(?i)^(?:S\d{1,2}|Season\s+\d{1,2})$";

/// Whether a directory name reads as a season folder (`S01`, `Season 2`).
pub fn is_seasonish_dir_name(name: &str) -> (r: bool)
    ensures
        r == rx_is_match(RE_SEASONISH@, trim(name@)),
{
    let v = chars_of(name);
    let t = trim_chars(v.as_slice());
    is_match_rx(RE_SEASONISH, t.as_slice())
}

// ---------------------------------------------------------------------------
// Template variables
// ---------------------------------------------------------------------------

/// The values a template can use. Those marked optional are absent when
/// neither the parsed nor the scraped data provide them.
pub struct TemplateVars {
    pub title: Option<String>,
    pub year: Option<String>,
    pub season: Option<String>,
    pub s: Option<String>,
    pub episode: Option<String>,
    pub e: Option<String>,
    pub resolution: Option<String>,
    pub codec: Option<String>,
    pub source: Option<String>,
    pub release_group: Option<String>,
    pub media_suffix: Option<String>,
    pub scraped_title: Option<String>,
    pub parse_source: String,
    pub episode_name: String,
    pub ep_name: String,
    pub artist: String,
    pub album: String,
    pub author: String,
    pub source_provider: String,
    pub provider: String,
    pub media_id: String,
    pub tmdbid: String,
    pub bgmid: String,
    pub ext: String,
    pub is_tv: bool,
}

/// The template variables as sequences.
pub struct VarsModel {
    pub title: Option<Seq<char>>,
    pub year: Option<Seq<char>>,
    pub season: Option<Seq<char>>,
    pub s: Option<Seq<char>>,
    pub episode: Option<Seq<char>>,
    pub e: Option<Seq<char>>,
    pub resolution: Option<Seq<char>>,
    pub codec: Option<Seq<char>>,
    pub source: Option<Seq<char>>,
    pub release_group: Option<Seq<char>>,
    pub media_suffix: Option<Seq<char>>,
    pub scraped_title: Option<Seq<char>>,
    pub parse_source: Seq<char>,
    pub episode_name: Seq<char>,
    pub ep_name: Seq<char>,
    pub artist: Seq<char>,
    pub album: Seq<char>,
    pub author: Seq<char>,
    pub source_provider: Seq<char>,
    pub provider: Seq<char>,
    pub media_id: Seq<char>,
    pub tmdbid: Seq<char>,
    pub bgmid: Seq<char>,
    pub ext: Seq<char>,
    pub is_tv: bool,
}

impl View for TemplateVars {
    type V = VarsModel;

    open spec fn view(&self) -> VarsModel {
        VarsModel {
            title: sv(self.title),
            year: sv(self.year),
            season: sv(self.season),
            s: sv(self.s),
            episode: sv(self.episode),
            e: sv(self.e),
            resolution: sv(self.resolution),
            codec: sv(self.codec),
            source: sv(self.source),
            release_group: sv(self.release_group),
            media_suffix: sv(self.media_suffix),
            scraped_title: sv(self.scraped_title),
            parse_source: self.parse_source@,
            episode_name: self.episode_name@,
            ep_name: self.ep_name@,
            artist: self.artist@,
            album: self.album@,
            author: self.author@,
            source_provider: self.source_provider@,
            provider: self.provider@,
            media_id: self.media_id@,
            tmdbid: self.tmdbid@,
            bgmid: self.bgmid@,
            ext: self.ext@,
            is_tv: self.is_tv,
        }
    }
}

pub open spec fn or_empty(o: Option<Seq<char>>) -> Seq<char> {
    match o {
        Some(x) => x,
        None => seq![],
    }
}

/// `s as i32` for a season number.
pub open spec fn wrap_i32(s: u32) -> int {
    if s <= 0x7fff_ffff {
        s as int
    } else {
        s as int - 0x1_0000_0000
    }
}

/// Whether `s as i32 + offset` stays within `i32`.
pub open spec fn season_fits(s: u32, offset: i32) -> bool {
    i32::MIN <= wrap_i32(s) + offset <= i32::MAX
}

/// The season after the configured offset, never below zero.
pub open spec fn season_adjusted(s: u32, offset: i32) -> nat {
    let v = wrap_i32(s) + offset;
    if v < 0 {
        0
    } else {
        v as nat
    }
}

pub open spec fn season_text(s: u32, offset: i32) -> Seq<char> {
    pad2(season_adjusted(s, offset))
}

/// The offset can be applied to every season number the item carries.
pub open spec fn offsets_fit(item: MediaItem, offset: i32) -> bool {
    &&& (item.parsed matches Some(p) ==> (p.season matches Some(x) ==> season_fits(x, offset)))
    &&& (item.scraped matches Some(sc) ==> (sc.season_number matches Some(x) ==> season_fits(
        x,
        offset,
    )))
}

pub open spec fn parse_source_name(p: ParseSource) -> Seq<char> {
    match p {
        ParseSource::Regex => "regex"@,
        ParseSource::AiAssist => "aiassist"@,
        ParseSource::Context => "context"@,
    }
}

pub open spec fn provider_name(s: ScrapeSource) -> Seq<char> {
    match s {
        ScrapeSource::Tmdb => "tmdb"@,
        ScrapeSource::MusicBrainz => "musicbrainz"@,
        ScrapeSource::OpenLibrary => "openlibrary"@,
        ScrapeSource::AiAssist => "ai"@,
        ScrapeSource::LocalNfo => "localnfo"@,
        ScrapeSource::Guess => "guess"@,
    }
}

pub open spec fn dec_or_empty(o: Option<nat>) -> Seq<char> {
    match o {
        Some(v) => decimal(v),
        None => seq![],
    }
}

pub open spec fn opt_u16(o: Option<u16>) -> Option<nat> {
    match o {
        Some(v) => Some(v as nat),
        None => None,
    }
}

pub open spec fn opt_u64(o: Option<u64>) -> Option<nat> {
    match o {
        Some(v) => Some(v as nat),
        None => None,
    }
}

pub open spec fn parsed_year(p: ParsedInfo) -> Seq<char> {
    dec_or_empty(opt_u16(p.year))
}

pub open spec fn parsed_season(p: ParsedInfo, offset: i32) -> Seq<char> {
    match p.season {
        Some(x) => season_text(x, offset),
        None => seq![],
    }
}

pub open spec fn parsed_episode(p: ParsedInfo) -> Seq<char> {
    match p.episode {
        Some(x) => pad2(x as nat),
        None => seq![],
    }
}

pub open spec fn parsed_opt(item: MediaItem, f: spec_fn(ParsedInfo) -> Seq<char>) -> Option<
    Seq<char>,
> {
    match item.parsed {
        Some(p) => Some(f(p)),
        None => None,
    }
}

/// The scraped value, else what the parsed data gave (or nothing at all).
pub open spec fn override_with(
    item: MediaItem,
    scraped_value: spec_fn(ScrapeResult) -> Option<Seq<char>>,
    parsed_value: Option<Seq<char>>,
) -> Option<Seq<char>> {
    match item.scraped {
        Some(sc) => match scraped_value(sc) {
            Some(v) => Some(v),
            None => Some(or_empty(parsed_value)),
        },
        None => parsed_value,
    }
}

pub open spec fn scraped_text(item: MediaItem, f: spec_fn(ScrapeResult) -> Option<Seq<char>>) -> Seq<
    char,
> {
    match item.scraped {
        Some(sc) => or_empty(f(sc)),
        None => seq![],
    }
}

pub open spec fn media_id_of(sc: ScrapeResult) -> Seq<char> {
    match sc.tmdb_id {
        Some(id) => decimal(id as nat),
        None => match sv(sc.musicbrainz_id) {
            Some(x) => x,
            None => or_empty(sv(sc.openlibrary_id)),
        },
    }
}

pub open spec fn ext_text(path: Seq<char>) -> Seq<char> {
    match extension_spec(path) {
        Some(e) => seq!['.'] + e,
        None => seq![],
    }
}

/// The template variables of an item: parsed values first, scraped values
/// over them, then the defaults, the extension and whether it is a show.
pub open spec fn template_vars_spec(item: MediaItem, offset: i32) -> VarsModel {
    let season = override_with(
        item,
        |sc: ScrapeResult|
            match sc.season_number {
                Some(x) => Some(season_text(x, offset)),
                None => None,
            },
        parsed_opt(item, |p: ParsedInfo| parsed_season(p, offset)),
    );
    let episode = override_with(
        item,
        |sc: ScrapeResult|
            match sc.episode_number {
                Some(x) => Some(pad2(x as nat)),
                None => None,
            },
        parsed_opt(item, |p: ParsedInfo| parsed_episode(p)),
    );
    VarsModel {
        title: match item.scraped {
            Some(sc) => Some(sc.title@),
            None => parsed_opt(item, |p: ParsedInfo| p.raw_title@),
        },
        year: override_with(
            item,
            |sc: ScrapeResult|
                match sc.year {
                    Some(y) => Some(decimal(y as nat)),
                    None => None,
                },
            parsed_opt(item, |p: ParsedInfo| parsed_year(p)),
        ),
        season: season,
        s: season,
        episode: episode,
        e: episode,
        resolution: parsed_opt(item, |p: ParsedInfo| or_empty(sv(p.resolution))),
        codec: parsed_opt(item, |p: ParsedInfo| or_empty(sv(p.codec))),
        source: parsed_opt(item, |p: ParsedInfo| or_empty(sv(p.source))),
        release_group: parsed_opt(item, |p: ParsedInfo| or_empty(sv(p.release_group))),
        media_suffix: parsed_opt(item, |p: ParsedInfo| or_empty(sv(p.media_suffix))),
        scraped_title: match item.scraped {
            Some(sc) => Some(sc.title@),
            None => None,
        },
        parse_source: match item.parsed {
            Some(p) => parse_source_name(p.parse_source),
            None => seq![],
        },
        episode_name: scraped_text(item, |sc: ScrapeResult| sv(sc.episode_name)),
        ep_name: scraped_text(item, |sc: ScrapeResult| sv(sc.episode_name)),
        artist: scraped_text(item, |sc: ScrapeResult| sv(sc.artist)),
        album: scraped_text(item, |sc: ScrapeResult| sv(sc.album)),
        author: scraped_text(item, |sc: ScrapeResult| sv(sc.author)),
        source_provider: scraped_text(item, |sc: ScrapeResult| Some(provider_name(sc.source))),
        provider: scraped_text(item, |sc: ScrapeResult| Some(provider_name(sc.source))),
        media_id: scraped_text(item, |sc: ScrapeResult| Some(media_id_of(sc))),
        tmdbid: scraped_text(item, |sc: ScrapeResult| Some(dec_or_empty(opt_u64(sc.tmdb_id)))),
        bgmid: seq![],
        ext: ext_text(item.path@),
        is_tv: item.media_type == MediaType::TvShow,
    }
}

fn opt_string(o: &Option<String>) -> (r: Option<String>)
    ensures
        sv(r) == sv(*o),
{
    match o {
        Some(s) => Some(owned(s.as_str())),
        None => None,
    }
}

fn text_or_empty(o: &Option<String>) -> (r: String)
    ensures
        r@ == or_empty(sv(*o)),
{
    match o {
        Some(s) => owned(s.as_str()),
        None => String::new(),
    }
}

fn dec_u64(v: u64) -> (r: String)
    ensures
        r@ == decimal(v as nat),
{
    let d = decimal_of(v);
    string_of(d.as_slice())
}

fn season_exec(s: u32, offset: i32) -> (r: String)
    requires
        season_fits(s, offset),
    ensures
        r@ == season_text(s, offset),
{
    let w: i64 = if s <= 0x7fff_ffff {
        s as i64
    } else {
        s as i64 - 0x1_0000_0000
    };
    let v: i64 = w + offset as i64;
    let adjusted: u64 = if v < 0 {
        0
    } else {
        v as u64
    };
    let p = pad2_of(adjusted);
    string_of(p.as_slice())
}

fn pad2_u32(x: u32) -> (r: String)
    ensures
        r@ == pad2(x as nat),
{
    let p = pad2_of(x as u64);
    string_of(p.as_slice())
}

fn parse_source_text(p: ParseSource) -> (r: String)
    ensures
        r@ == parse_source_name(p),
{
    match p {
        ParseSource::Regex => owned("regex"),
        ParseSource::AiAssist => owned("aiassist"),
        ParseSource::Context => owned("context"),
    }
}

fn provider_text(s: ScrapeSource) -> (r: String)
    ensures
        r@ == provider_name(s),
{
    match s {
        ScrapeSource::Tmdb => owned("tmdb"),
        ScrapeSource::MusicBrainz => owned("musicbrainz"),
        ScrapeSource::OpenLibrary => owned("openlibrary"),
        ScrapeSource::AiAssist => owned("ai"),
        ScrapeSource::LocalNfo => owned("localnfo"),
        ScrapeSource::Guess => owned("guess"),
    }
}

/// Scraped information overrides the parsed values: with a scraped year,
/// the `year` variable is that year in decimal; without one, the parsed
/// year; the title is the scraped title; a scraped episode number is the
/// `episode` variable, padded to two digits.
pub proof fn lemma_scraped_values_win(item: MediaItem, offset: i32)
    ensures
        item.scraped matches Some(sc) ==> (sc.year matches Some(y) ==> template_vars_spec(
            item,
            offset,
        ).year == Some(decimal(y as nat))),
        item.scraped matches Some(sc) ==> (sc.year is None ==> (item.parsed matches Some(p) ==> (
        p.year matches Some(y) ==> template_vars_spec(item, offset).year == Some(
            decimal(y as nat),
        )))),
        item.scraped is None ==> (item.parsed matches Some(p) ==> (p.year matches Some(y)
            ==> template_vars_spec(item, offset).year == Some(decimal(y as nat)))),
        item.scraped matches Some(sc) ==> template_vars_spec(item, offset).title == Some(
            sc.title@,
        ),
        item.scraped matches Some(sc) ==> (sc.episode_number matches Some(e) ==> template_vars_spec(
            item,
            offset,
        ).episode == Some(pad2(e as nat))),
{
    let v = template_vars_spec(item, offset);
    if let Some(sc) = item.scraped {
        if let Some(y) = sc.year {
            assert(v.year == Some(decimal(y as nat)));
        }
        if let Some(e) = sc.episode_number {
            assert(v.episode == Some(pad2(e as nat)));
        }
    }
}


/// The variables a template is rendered with (`render_template`'s context).
pub fn template_vars(item: &MediaItem, season_offset: i32) -> (v: TemplateVars)
    requires
        offsets_fit(*item, season_offset),
    ensures
        v@ == template_vars_spec(*item, season_offset),
{
    let mut title: Option<String> = None;
    let mut year: Option<String> = None;
    let mut season: Option<String> = None;
    let mut episode: Option<String> = None;
    let mut resolution: Option<String> = None;
    let mut codec: Option<String> = None;
    let mut source: Option<String> = None;
    let mut release_group: Option<String> = None;
    let mut media_suffix: Option<String> = None;
    let mut parse_source = String::new();
    match &item.parsed {
        Some(p) => {
            title = Some(owned(p.raw_title.as_str()));
            year = Some(
                match p.year {
                    Some(y) => dec_u64(y as u64),
                    None => String::new(),
                },
            );
            season = Some(
                match p.season {
                    Some(x) => season_exec(x, season_offset),
                    None => String::new(),
                },
            );
            episode = Some(
                match p.episode {
                    Some(x) => pad2_u32(x),
                    None => String::new(),
                },
            );
            resolution = Some(text_or_empty(&p.resolution));
            codec = Some(text_or_empty(&p.codec));
            source = Some(text_or_empty(&p.source));
            release_group = Some(text_or_empty(&p.release_group));
            media_suffix = Some(text_or_empty(&p.media_suffix));
            parse_source = parse_source_text(p.parse_source);
        },
        None => {},
    }
    let mut scraped_title: Option<String> = None;
    let mut episode_name = String::new();
    let mut artist = String::new();
    let mut album = String::new();
    let mut author = String::new();
    let mut provider = String::new();
    let mut media_id = String::new();
    let mut tmdbid = String::new();
    match &item.scraped {
        Some(sc) => {
            title = Some(owned(sc.title.as_str()));
            match sc.year {
                Some(y) => {
                    year = Some(dec_u64(y as u64));
                },
                None => {
                    year = Some(text_or_empty(&year));
                },
            }
            match sc.season_number {
                Some(x) => {
                    season = Some(season_exec(x, season_offset));
                },
                None => {
                    season = Some(text_or_empty(&season));
                },
            }
            match sc.episode_number {
                Some(x) => {
                    episode = Some(pad2_u32(x));
                },
                None => {
                    episode = Some(text_or_empty(&episode));
                },
            }
            scraped_title = Some(owned(sc.title.as_str()));
            episode_name = text_or_empty(&sc.episode_name);
            artist = text_or_empty(&sc.artist);
            album = text_or_empty(&sc.album);
            author = text_or_empty(&sc.author);
            provider = provider_text(sc.source);
            media_id = match sc.tmdb_id {
                Some(id) => dec_u64(id),
                None => match &sc.musicbrainz_id {
                    Some(x) => owned(x.as_str()),
                    None => text_or_empty(&sc.openlibrary_id),
                },
            };
            tmdbid = match sc.tmdb_id {
                Some(id) => dec_u64(id),
                None => String::new(),
            };
        },
        None => {},
    }
    let ext = match crate::paths::extension(item.path.as_str()) {
        Some(e) => {
            let mut v: Vec<char> = vec!['.'];
            append_str(&mut v, e.as_str());
            string_of(v.as_slice())
        },
        None => String::new(),
    };
    let s = opt_string(&season);
    let e = opt_string(&episode);
    let ep_name = owned(episode_name.as_str());
    let source_provider = owned(provider.as_str());
    let v = TemplateVars {
        title,
        year,
        season,
        s,
        episode,
        e,
        resolution,
        codec,
        source,
        release_group,
        media_suffix,
        scraped_title,
        parse_source,
        episode_name,
        ep_name,
        artist,
        album,
        author,
        source_provider,
        provider,
        media_id,
        tmdbid,
        bgmid: String::new(),
        ext,
        is_tv: item.media_type == MediaType::TvShow,
    };
    proof {
        let m = template_vars_spec(*item, season_offset);
        assert(v@.title == m.title);
        assert(v@.year == m.year);
        assert(v@.season == m.season);
        assert(v@.s == m.s);
        assert(v@.episode == m.episode);
        assert(v@.e == m.e);
        assert(v@.resolution == m.resolution);
        assert(v@.codec == m.codec);
        assert(v@.source == m.source);
        assert(v@.release_group == m.release_group);
        assert(v@.media_suffix == m.media_suffix);
        assert(v@.scraped_title == m.scraped_title);
        assert(v@.parse_source == m.parse_source);
        assert(v@.episode_name == m.episode_name);
        assert(v@.ep_name == m.ep_name);
        assert(v@.artist == m.artist);
        assert(v@.album == m.album);
        assert(v@.author == m.author);
        assert(v@.source_provider == m.source_provider);
        assert(v@.provider == m.provider);
        assert(v@.media_id == m.media_id);
        assert(v@.tmdbid == m.tmdbid);
        assert(v@.bgmid == m.bgmid);
        assert(v@.ext == m.ext);
        assert(v@.is_tv == m.is_tv);
    }
    v
}

// ---------------------------------------------------------------------------
// Rendering
// ---------------------------------------------------------------------------

/// `{name}`.
pub open spec fn braced(name: Seq<char>) -> Seq<char> {
    seq!['{'] + name + seq!['}']
}

/// The legacy template before substitution: ` - {media_suffix}` is added
/// when the suffix is to be kept, is not empty and the template lacks it.
pub open spec fn legacy_start(t: Seq<char>, suffix: Seq<char>, preserve: bool) -> Seq<char> {
    if preserve && suffix.len() > 0 && !contains(t, braced("media_suffix"@)) {
        t + " - {media_suffix}"@
    } else {
        t
    }
}

/// `render_legacy_template`: each `{placeholder}` replaced in turn, in
/// the order below, by its value (empty when absent).
pub open spec fn legacy_spec(t: Seq<char>, m: VarsModel, preserve: bool) -> Seq<char> {
    let r = legacy_start(t, or_empty(m.media_suffix), preserve);
    let r = replace_all(r, braced("title"@), or_empty(m.title));
    let r = replace_all(r, braced("year"@), or_empty(m.year));
    let r = replace_all(r, braced("season"@), or_empty(m.season));
    let r = replace_all(r, braced("episode"@), or_empty(m.episode));
    let r = replace_all(r, braced("s:02d"@), or_empty(m.s));
    let r = replace_all(r, braced("s"@), or_empty(m.s));
    let r = replace_all(r, braced("e:02d"@), or_empty(m.e));
    let r = replace_all(r, braced("e"@), or_empty(m.e));
    let r = replace_all(r, braced("ep_name"@), m.ep_name);
    let r = replace_all(r, braced("episode_name"@), m.episode_name);
    let r = replace_all(r, braced("artist"@), m.artist);
    let r = replace_all(r, braced("album"@), m.album);
    let r = replace_all(r, braced("author"@), m.author);
    let r = replace_all(r, braced("media_suffix"@), or_empty(m.media_suffix));
    let r = replace_all(r, braced("ext"@), m.ext);
    let r = replace_all(r, braced("parse_source"@), m.parse_source);
    let r = replace_all(r, braced("source_provider"@), m.source_provider);
    let r = replace_all(r, braced("provider"@), m.provider);
    let r = replace_all(r, braced("media_id"@), m.media_id);
    let r = replace_all(r, braced("tmdbid"@), m.tmdbid);
    replace_all(r, braced("bgmid"@), m.bgmid)
}

fn braced_exec(name: &str) -> (r: Vec<char>)
    ensures
        r@ == braced(name@),
        r.len() > 0,
{
    let mut v: Vec<char> = vec!['{'];
    append_str(&mut v, name);
    v.push('}');
    assert(v@ =~= braced(name@));
    v
}

fn subst(r: Vec<char>, name: &str, value: &[char]) -> (o: Vec<char>)
    ensures
        o@ == replace_all(r@, braced(name@), value@),
{
    let pat = braced_exec(name);
    replace_chars(r.as_slice(), pat.as_slice(), value)
}

fn subst_opt(r: Vec<char>, name: &str, value: &Option<String>) -> (o: Vec<char>)
    ensures
        o@ == replace_all(r@, braced(name@), or_empty(sv(*value))),
{
    let v = text_or_empty(value);
    let vc = chars_of(v.as_str());
    subst(r, name, vc.as_slice())
}

fn subst_str(r: Vec<char>, name: &str, value: &String) -> (o: Vec<char>)
    ensures
        o@ == replace_all(r@, braced(name@), value@),
{
    let vc = chars_of(value.as_str());
    subst(r, name, vc.as_slice())
}

/// Renders a template in the plain `{name}` syntax.
pub fn render_legacy_template(
    template: &str,
    vars: &TemplateVars,
    preserve_media_suffix: bool,
) -> (r: String)
    ensures
        r@ == legacy_spec(template@, vars@, preserve_media_suffix),
{
    let mut rendered = chars_of(template);
    let suffix = text_or_empty(&vars.media_suffix);
    let ms = braced_exec("media_suffix");
    if preserve_media_suffix && !suffix.as_str().is_empty() && !crate::text::contains_chars(
        rendered.as_slice(),
        ms.as_slice(),
    ) {
        append_str(&mut rendered, " - {media_suffix}");
    }
    let r = subst_opt(rendered, "title", &vars.title);
    let r = subst_opt(r, "year", &vars.year);
    let r = subst_opt(r, "season", &vars.season);
    let r = subst_opt(r, "episode", &vars.episode);
    let r = subst_opt(r, "s:02d", &vars.s);
    let r = subst_opt(r, "s", &vars.s);
    let r = subst_opt(r, "e:02d", &vars.e);
    let r = subst_opt(r, "e", &vars.e);
    let r = subst_str(r, "ep_name", &vars.ep_name);
    let r = subst_str(r, "episode_name", &vars.episode_name);
    let r = subst_str(r, "artist", &vars.artist);
    let r = subst_str(r, "album", &vars.album);
    let r = subst_str(r, "author", &vars.author);
    let r = subst_opt(r, "media_suffix", &vars.media_suffix);
    let r = subst_str(r, "ext", &vars.ext);
    let r = subst_str(r, "parse_source", &vars.parse_source);
    let r = subst_str(r, "source_provider", &vars.source_provider);
    let r = subst_str(r, "provider", &vars.provider);
    let r = subst_str(r, "media_id", &vars.media_id);
    let r = subst_str(r, "tmdbid", &vars.tmdbid);
    let r = subst_str(r, "bgmid", &vars.bgmid);
    string_of(r.as_slice())
}

pub const RE_EMPTY_PAREN: &'static str = r"\(\s*\)";

pub const RE_EMPTY_BRACKET: &'static str = r"\[\s*\]";

pub const RE_MULTI_SPACE: &'static str = r"  +";

pub const RE_DASH_NORMALIZE: &'static str = r"\s+-\s+";

pub const RE_DASH_TRAIL: &'static str = r"\s+-\s*$";

pub const RE_DASH_LEAD: &'static str = r"^\s*-\s+";

pub const RE_EMPTY_SEASON_EP: &'static str = r"(^|[^A-Za-z0-9])S(E\d{2}\b)";

pub const RE_TRAIL_JUNK: &'static str = r"[\s.]+$";

pub const RE_LEAD_JUNK: &'static str = r"^[\s.]+";

/// One round of separator clean-up.
pub open spec fn dash_round(r: Seq<char>) -> Seq<char> {
    let r = rx_replace_all(RE_DASH_NORMALIZE@, r, " - "@);
    let r = rx_replace_all(RE_DASH_TRAIL@, r, ""@);
    let r = rx_replace_all(RE_DASH_LEAD@, r, ""@);
    rx_replace_all(RE_MULTI_SPACE@, r, " "@)
}

/// The clean-up after rendering: empty `()` and `[]` removed, spaces
/// collapsed, dangling ` - ` separators removed (three rounds), a bare `S`
/// before `Exx` dropped, `..` made `.`, leading and trailing dots and
/// white space removed, and the characters a file name cannot hold made
/// `_`. An empty result is no name.
pub open spec fn finish_spec(r0: Seq<char>) -> Option<Seq<char>> {
    let r = rx_replace_all(RE_EMPTY_PAREN@, r0, ""@);
    let r = rx_replace_all(RE_EMPTY_BRACKET@, r, ""@);
    let r = rx_replace_all(RE_MULTI_SPACE@, r, " "@);
    let r = dash_round(dash_round(dash_round(r)));
    let r = rx_replace_all(RE_EMPTY_SEASON_EP@, r, "$1$2"@);
    let r = trim(replace_all(r, ".."@, "."@));
    let r = rx_replace_all(RE_TRAIL_JUNK@, r, ""@);
    finish_tail_spec(rx_replace_all(RE_LEAD_JUNK@, r, ""@))
}

/// The last step of the clean-up: the characters a file name cannot hold
/// made `_`; an empty name is no name.
pub open spec fn finish_tail_spec(r: Seq<char>) -> Option<Seq<char>> {
    let r = map_bad_chars(r, name_bad_chars(), '_');
    if r.len() == 0 {
        None
    } else {
        Some(r)
    }
}

/// The last step of the clean-up (see `finish_tail_spec`), applied to the
/// text the regular-expression steps left.
pub fn finish_tail(r: &[char]) -> (o: Option<String>)
    ensures
        sv(o) == finish_tail_spec(r@),
{
    let bad: [char; 9] = ['/', '\\', ':', '*', '?', '"', '<', '>', '|'];
    assert(bad@ =~= name_bad_chars());
    let m = replace_char_set(r, bad.as_slice(), '_');
    if m.len() == 0 {
        None
    } else {
        Some(string_of(m.as_slice()))
    }
}

/// A finished name holds none of the characters a file name cannot hold.
pub proof fn lemma_finished_name_clean(r0: Seq<char>)
    ensures
        finish_spec(r0) matches Some(n) ==> forall|c: char|
            #[trigger] name_bad_chars().contains(c) ==> !n.contains(c),
{
    if let Some(n) = finish_spec(r0) {
        assert forall|c: char| #[trigger] name_bad_chars().contains(c) implies !n.contains(c) by {
            if n.contains(c) {
                let k = choose|k: int| 0 <= k < n.len() && n[k] == c;
                assert(n[k] == c);
            }
        }
    }
}

fn dash_round_exec(r: Vec<char>) -> (o: Vec<char>)
    ensures
        o@ == dash_round(r@),
{
    let r = replace_all_rx(RE_DASH_NORMALIZE, r.as_slice(), " - ");
    let r = replace_all_rx(RE_DASH_TRAIL, r.as_slice(), "");
    let r = replace_all_rx(RE_DASH_LEAD, r.as_slice(), "");
    replace_all_rx(RE_MULTI_SPACE, r.as_slice(), " ")
}

/// The clean-up applied to every rendered name (see `finish_spec`).
pub fn finish_rendered(rendered: &str) -> (r: Option<String>)
    ensures
        sv(r) == finish_spec(rendered@),
{
    let r = chars_of(rendered);
    let r = replace_all_rx(RE_EMPTY_PAREN, r.as_slice(), "");
    let r = replace_all_rx(RE_EMPTY_BRACKET, r.as_slice(), "");
    let r = replace_all_rx(RE_MULTI_SPACE, r.as_slice(), " ");
    let r = dash_round_exec(r);
    let r = dash_round_exec(r);
    let r = dash_round_exec(r);
    let r = replace_all_rx(RE_EMPTY_SEASON_EP, r.as_slice(), "$1$2");
    let dots: Vec<char> = vec!['.', '.'];
    let dot: Vec<char> = vec!['.'];
    proof {
        reveal_strlit("..");
        reveal_strlit(".");
    }
    assert(dots@ =~= ".."@);
    assert(dot@ =~= "."@);
    let r = replace_chars(r.as_slice(), dots.as_slice(), dot.as_slice());
    let r = trim_chars(r.as_slice());
    let r = replace_all_rx(RE_TRAIL_JUNK, r.as_slice(), "");
    let r = replace_all_rx(RE_LEAD_JUNK, r.as_slice(), "");
    finish_tail(r.as_slice())
}

pub const RE_EXT_TAG: &'static str = r"\{\{\s*ext\s*\}\}";

/// The engine template actually rendered: when the suffix is to be kept,
/// is not empty and the template does not mention `media_suffix`, it is
/// put before `{{ ext }}` where the template has one, else at the end.
pub open spec fn advanced_input_spec(t: Seq<char>, suffix: Seq<char>, preserve: bool) -> Seq<
    char,
> {
    if preserve && suffix.len() > 0 && !contains(t, "media_suffix"@) {
        if rx_is_match(RE_EXT_TAG@, t) {
            rx_replace_first(RE_EXT_TAG@, t, " - {{ media_suffix }}{{ ext }}"@)
        } else {
            t + " - {{ media_suffix }}"@
        }
    } else {
        t
    }
}

/// The template handed to the template engine, with the media suffix appended where it is kept and missing.
pub fn advanced_template_input(template: &str, media_suffix: &str, preserve_media_suffix: bool) -> (r:
    String)
    ensures
        r@ == advanced_input_spec(template@, media_suffix@, preserve_media_suffix),
{
    let t = chars_of(template);
    if preserve_media_suffix && !media_suffix.is_empty() && !contains_str(
        t.as_slice(),
        "media_suffix",
    ) {
        if is_match_rx(RE_EXT_TAG, t.as_slice()) {
            let r = replace_first_rx(RE_EXT_TAG, t.as_slice(), " - {{ media_suffix }}{{ ext }}");
            string_of(r.as_slice())
        } else {
            let mut v = t;
            append_str(&mut v, " - {{ media_suffix }}");
            string_of(v.as_slice())
        }
    } else {
        owned(template)
    }
}

/// The variables as (name, value) pairs, in a fixed order, the absent ones
/// left out; `is_tv` goes to the engine as a boolean of its own.
pub open spec fn opt_pair(k: Seq<char>, v: Option<Seq<char>>) -> Seq<(Seq<char>, Seq<char>)> {
    match v {
        Some(x) => seq![(k, x)],
        None => seq![],
    }
}

pub open spec fn var_pairs_spec(m: VarsModel) -> Seq<(Seq<char>, Seq<char>)> {
    opt_pair("title"@, m.title) + opt_pair("year"@, m.year) + opt_pair("season"@, m.season)
        + opt_pair("s"@, m.s) + opt_pair("episode"@, m.episode) + opt_pair("e"@, m.e) + opt_pair(
        "resolution"@,
        m.resolution,
    ) + opt_pair("codec"@, m.codec) + opt_pair("source"@, m.source) + opt_pair(
        "release_group"@,
        m.release_group,
    ) + opt_pair("media_suffix"@, m.media_suffix) + opt_pair("scraped_title"@, m.scraped_title)
        + seq![
        ("parse_source"@, m.parse_source),
        ("episode_name"@, m.episode_name),
        ("ep_name"@, m.ep_name),
        ("artist"@, m.artist),
        ("album"@, m.album),
        ("author"@, m.author),
        ("source_provider"@, m.source_provider),
        ("provider"@, m.provider),
        ("media_id"@, m.media_id),
        ("tmdbid"@, m.tmdbid),
        ("bgmid"@, m.bgmid),
        ("ext"@, m.ext),
    ]
}

pub open spec fn pair_views(v: Seq<(String, String)>) -> Seq<(Seq<char>, Seq<char>)> {
    v.map_values(|p: (String, String)| (p.0@, p.1@))
}

fn push_pair(v: &mut Vec<(String, String)>, k: &str, val: &String)
    ensures
        pair_views(final(v)@) == pair_views(old(v)@) + seq![(k@, val@)],
{
    let ghost before = pair_views(v@);
    v.push((owned(k), owned(val.as_str())));
    assert(pair_views(v@) =~= before + seq![(k@, val@)]);
}

fn push_opt_pair(v: &mut Vec<(String, String)>, k: &str, val: &Option<String>)
    ensures
        pair_views(final(v)@) == pair_views(old(v)@) + opt_pair(k@, sv(*val)),
{
    match val {
        Some(x) => push_pair(v, k, x),
        None => {
            assert(pair_views(v@) =~= pair_views(v@) + Seq::<(Seq<char>, Seq<char>)>::empty());
        },
    }
}

/// The (name, value) pairs handed to the template engine.
pub fn var_pairs(vars: &TemplateVars) -> (r: Vec<(String, String)>)
    ensures
        pair_views(r@) == var_pairs_spec(vars@),
{
    let mut v: Vec<(String, String)> = Vec::new();
    assert(pair_views(v@) =~= Seq::<(Seq<char>, Seq<char>)>::empty());
    push_opt_pair(&mut v, "title", &vars.title);
    push_opt_pair(&mut v, "year", &vars.year);
    push_opt_pair(&mut v, "season", &vars.season);
    push_opt_pair(&mut v, "s", &vars.s);
    push_opt_pair(&mut v, "episode", &vars.episode);
    push_opt_pair(&mut v, "e", &vars.e);
    push_opt_pair(&mut v, "resolution", &vars.resolution);
    push_opt_pair(&mut v, "codec", &vars.codec);
    push_opt_pair(&mut v, "source", &vars.source);
    push_opt_pair(&mut v, "release_group", &vars.release_group);
    push_opt_pair(&mut v, "media_suffix", &vars.media_suffix);
    push_opt_pair(&mut v, "scraped_title", &vars.scraped_title);
    push_pair(&mut v, "parse_source", &vars.parse_source);
    push_pair(&mut v, "episode_name", &vars.episode_name);
    push_pair(&mut v, "ep_name", &vars.ep_name);
    push_pair(&mut v, "artist", &vars.artist);
    push_pair(&mut v, "album", &vars.album);
    push_pair(&mut v, "author", &vars.author);
    push_pair(&mut v, "source_provider", &vars.source_provider);
    push_pair(&mut v, "provider", &vars.provider);
    push_pair(&mut v, "media_id", &vars.media_id);
    push_pair(&mut v, "tmdbid", &vars.tmdbid);
    push_pair(&mut v, "bgmid", &vars.bgmid);
    push_pair(&mut v, "ext", &vars.ext);
    assert(pair_views(v@) =~= var_pairs_spec(vars@));
    v
}

/// Characters an engine tag may hold in the subset of the template syntax
/// this library hands the engine: names, white space, `.` for field access,
/// the comparison signs and `-` (white-space control). No digits, quotes,
/// brackets, parentheses, `|`, `~` or arithmetic signs other than `-`.
pub open spec fn tag_char_ok(c: char) -> bool {
    ||| ('a' <= c && c <= 'z')
    ||| ('A' <= c && c <= 'Z')
    ||| c == '_' || c == ' ' || c == '\t' || c == '\n' || c == '\r'
    ||| c == '.' || c == '=' || c == '!' || c == '<' || c == '>' || c == '-'
}

/// The character that, followed by `}`, closes a tag of kind `state`
/// (`1` for `{{`, `2` for `{%`, `3` for `{#`).
pub open spec fn closer_char(state: int) -> char {
    if state == 1 {
        '}'
    } else if state == 2 {
        '%'
    } else {
        '#'
    }
}

/// Scanning `t` from `i`, outside any tag (`state == 0`) or inside a tag of
/// kind `state`: every character inside a tag is a `tag_char_ok`.
pub open spec fn tags_safe_from(t: Seq<char>, i: int, state: int) -> bool
    decreases t.len() - i,
{
    if i < 0 || i >= t.len() {
        true
    } else if state == 0 {
        if i + 1 < t.len() && t[i] == '{' && (t[i + 1] == '{' || t[i + 1] == '%' || t[i + 1]
            == '#') {
            tags_safe_from(
                t,
                i + 2,
                if t[i + 1] == '{' {
                    1
                } else if t[i + 1] == '%' {
                    2
                } else {
                    3
                },
            )
        } else {
            tags_safe_from(t, i + 1, 0)
        }
    } else if i + 1 < t.len() && t[i] == closer_char(state) && t[i + 1] == '}' {
        tags_safe_from(t, i + 2, 0)
    } else {
        tag_char_ok(t[i]) && tags_safe_from(t, i + 1, state)
    }
}

/// The templates this library hands the template engine: at most 4096
/// characters, no `filter` section, and tags made of `tag_char_ok`
/// characters alone. In that subset there are no literals, filters,
/// function calls, arrays or divisions, so the engine's panicking paths
/// (the `date` filter on an out-of-range timestamp, non-finite float
/// results, `containing` on an array without argument) cannot be reached,
/// and no function that reads the clock, a random source or the
/// environment can be called.
pub open spec fn engine_safe(t: Seq<char>) -> bool {
    &&& t.len() <= 4096
    &&& !contains(t, "filter"@)
    &&& tags_safe_from(t, 0, 0)
}

/// Whether a template lies in the subset handed to the engine.
pub fn is_engine_safe(t: &str) -> (r: bool)
    ensures
        r == engine_safe(t@),
{
    let v = chars_of(t);
    if v.len() > 4096 || contains_str(v.as_slice(), "filter") {
        return false;
    }
    let mut i: usize = 0;
    let mut state: u8 = 0;
    while i < v.len()
        invariant
            i <= v.len() + 1,
            state <= 3,
            v@ == t@,
            v.len() <= 4096,
            !contains(v@, "filter"@),
            tags_safe_from(v@, 0, 0) == tags_safe_from(v@, i as int, state as int),
        decreases v.len() + 1 - i,
    {
        if state == 0 {
            if i + 1 < v.len() && v[i] == '{' && (v[i + 1] == '{' || v[i + 1] == '%' || v[i + 1] == '#') {
                state = if v[i + 1] == '{' {
                    1
                } else if v[i + 1] == '%' {
                    2
                } else {
                    3
                };
                i = i + 2;
            } else {
                i = i + 1;
            }
        } else {
            let cc = if state == 1 {
                '}'
            } else if state == 2 {
                '%'
            } else {
                '#'
            };
            if i + 1 < v.len() && v[i] == cc && v[i + 1] == '}' {
                state = 0;
                i = i + 2;
            } else {
                let c = v[i];
                let ok = ('a' <= c && c <= 'z') || ('A' <= c && c <= 'Z') || c == '_' || c == ' '
                    || c == '\t' || c == '\n' || c == '\r' || c == '.' || c == '=' || c == '!'
                    || c == '<' || c == '>' || c == '-';
                if !ok {
                    assert(cc == closer_char(state as int));
                    assert(!tag_char_ok(v@[i as int]));
                    assert(!tags_safe_from(v@, i as int, state as int));
                    return false;
                }
                i = i + 1;
            }
        }
    }
    true
}

/// What `Tera::one_off` (autoescaping off) renders from a template over a
/// context of string variables and the boolean `is_tv`; `None` where it
/// reports an error.
pub uninterp spec fn tera_render_result(
    template: Seq<char>,
    vars: Seq<(Seq<char>, Seq<char>)>,
    is_tv: bool,
) -> Option<Seq<char>>;

/// `Tera::one_off` with autoescaping off, over a context holding each
/// (name, value) pair as a string and `is_tv` as a boolean; `None` where
/// the engine reports an error. It is only handed templates of the
/// `engine_safe` subset, which reach none of the engine's panics. Claimed:
/// a template with none of the engine's openers `{{`, `{%`, `{#` parses as
/// one text node, which renders as itself; and since such a template can
/// call no function (`now`, `get_random` and `get_env` are the only
/// built-ins that read the clock, a random source or the environment), the
/// result is `tera_render_result` of the template, the pairs and `is_tv`.
#[verifier::external_body]
fn tera_one_off(template: &str, vars: &Vec<(String, String)>, is_tv: bool) -> (r: Option<String>)
    requires
        engine_safe(template@),
    ensures
        !is_advanced_spec(template@) ==> sv(r) == Some(template@),
        sv(r) == tera_render_result(template@, pair_views(vars@), is_tv),
{
    let mut context = tera::Context::new();
    for (key, value) in vars.iter() {
        context.insert(key.as_str(), value);
    }
    context.insert("is_tv", &is_tv);
    tera::Tera::one_off(template, &context, false).ok()
}

/// Renders a template in the engine syntax; `None` where the engine fails.
/// The engine gets the template with the media suffix put in where it is
/// kept (`advanced_input_spec`), and only when that lies in the
/// `engine_safe` subset (else `None`); text without tags comes back as it is.
pub fn render_advanced_template(
    template: &str,
    vars: &TemplateVars,
    preserve_media_suffix: bool,
) -> (r: Option<String>)
    ensures
        ({
            let working = advanced_input_spec(
                template@,
                or_empty(sv(vars.media_suffix)),
                preserve_media_suffix,
            );
            &&& !engine_safe(working) ==> r is None
            &&& engine_safe(working) && !is_advanced_spec(working) ==> sv(r) == Some(working)
            &&& engine_safe(working) ==> sv(r) == tera_render_result(
                working,
                var_pairs_spec(vars@),
                vars.is_tv,
            )
        }),
{
    let suffix = text_or_empty(&vars.media_suffix);
    let working = advanced_template_input(template, suffix.as_str(), preserve_media_suffix);
    if !is_engine_safe(working.as_str()) {
        return None;
    }
    let pairs = var_pairs(vars);
    tera_one_off(working.as_str(), &pairs, vars.is_tv)
}

/// Plans renames from the configured templates.
pub struct Renamer {
    pub config: RenameConfig,
}

pub open spec fn template_for_spec(config: RenameConfig, t: MediaType) -> Seq<char> {
    match t {
        MediaType::Movie => config.movie_template@,
        MediaType::TvShow => config.tv_template@,
        MediaType::Music => config.music_template@,
        MediaType::Novel => config.novel_template@,
        MediaType::Strm => config.tv_template@,
        MediaType::Unknown => config.movie_template@,
    }
}

/// What a render gives: for a plain template, the finished substitution;
/// for an engine template, the finished engine output
/// (`tera_render_result` of the template handed over and the variable
/// pairs), or nothing when the engine failed or the template lies outside
/// the `engine_safe` subset.
pub open spec fn render_ok(
    template: Seq<char>,
    m: VarsModel,
    preserve: bool,
    r: Option<Seq<char>>,
) -> bool {
    if is_advanced_spec(template) {
        let working = advanced_input_spec(template, or_empty(m.media_suffix), preserve);
        if !engine_safe(working) {
            r is None
        } else {
            r == match tera_render_result(working, var_pairs_spec(m), m.is_tv) {
                Some(out) => finish_spec(out),
                None => None,
            }
        }
    } else {
        r == finish_spec(legacy_spec(template, m, preserve))
    }
}

/// A rendered name never holds a character that a file name cannot hold,
/// whatever the template and the engine gave.
pub proof fn lemma_rendered_name_clean(
    template: Seq<char>,
    m: VarsModel,
    preserve: bool,
    r: Option<Seq<char>>,
)
    requires
        render_ok(template, m, preserve, r),
    ensures
        r matches Some(n) ==> forall|c: char|
            #[trigger] name_bad_chars().contains(c) ==> !n.contains(c),
{
    if r is Some {
        if is_advanced_spec(template) {
            let working = advanced_input_spec(template, or_empty(m.media_suffix), preserve);
            let out = tera_render_result(working, var_pairs_spec(m), m.is_tv)->Some_0;
            lemma_finished_name_clean(out);
        } else {
            lemma_finished_name_clean(legacy_spec(template, m, preserve));
        }
    }
}

impl Renamer {
    /// A renamer with the given settings.
    pub fn new(config: RenameConfig) -> (r: Self)
        ensures
            r.config == config,
    {
        Renamer { config }
    }

    /// The template for the item's media type (shows and `.strm` files use
    /// the TV template, unknown files the movie one).
    pub fn template_for(&self, item: &MediaItem) -> (r: String)
        ensures
            r@ == template_for_spec(self.config, item.media_type),
    {
        match item.media_type {
            MediaType::Movie => owned(self.config.movie_template.as_str()),
            MediaType::TvShow => owned(self.config.tv_template.as_str()),
            MediaType::Music => owned(self.config.music_template.as_str()),
            MediaType::Novel => owned(self.config.novel_template.as_str()),
            MediaType::Strm => owned(self.config.tv_template.as_str()),
            MediaType::Unknown => owned(self.config.movie_template.as_str()),
        }
    }

    /// The new name of an item: the template rendered with the item's
    /// variables, then cleaned up (see `render_ok`).
    pub fn render_template(&self, template: &str, item: &MediaItem) -> (r: Option<String>)
        requires
            offsets_fit(*item, self.config.season_offset),
        ensures
            render_ok(
                template@,
                template_vars_spec(*item, self.config.season_offset),
                self.config.preserve_media_suffix,
                sv(r),
            ),
    {
        let vars = template_vars(item, self.config.season_offset);
        if is_advanced_template(template) {
            match render_advanced_template(template, &vars, self.config.preserve_media_suffix) {
                Some(out) => {
                    let r = finish_rendered(out.as_str());
                    assert(sv(r) == finish_spec(out@));
                    r
                },
                None => None,
            }
        } else {
            let out = render_legacy_template(
                template,
                &vars,
                self.config.preserve_media_suffix,
            );
            finish_rendered(out.as_str())
        }
    }
}

// ---------------------------------------------------------------------------
// Directory plans
// ---------------------------------------------------------------------------

/// One entry of a directory listing taken by the caller.
#[derive(Debug, Clone)]
pub struct FsEntry {
    pub path: String,
    pub is_dir: bool,
    pub is_file: bool,
}

pub type PathPair = (Seq<char>, Seq<char>);

pub open spec fn dplan_view(p: DirectoryRenamePlan) -> PathPair {
    (p.old_path@, p.new_path@)
}

pub open spec fn dplans_view(v: Seq<DirectoryRenamePlan>) -> Seq<PathPair> {
    v.map_values(|p: DirectoryRenamePlan| dplan_view(p))
}

/// `rename_dir_plan_if_needed`: rename `old` to the sanitized `desired`
/// name beside it, unless that name is empty or already the current one.
pub open spec fn dir_plan_spec(old: Seq<char>, desired: Seq<char>) -> Option<PathPair> {
    let d = sanitize_name_spec(desired);
    if d.len() == 0 {
        None
    } else {
        match file_name_spec(old) {
            None => None,
            Some(cur) => if cur == d {
                None
            } else {
                match parent_spec(old) {
                    None => None,
                    Some(par) => {
                        let new = join_spec(par, d);
                        if new == old {
                            None
                        } else {
                            Some((old, new))
                        }
                    },
                }
            },
        }
    }
}

/// The renaming of a directory to the desired name, unless it already has it.
pub fn rename_dir_plan_if_needed(old_path: &str, desired_name: &str) -> (r: Option<
    DirectoryRenamePlan,
>)
    ensures
        match r {
            Some(p) => dir_plan_spec(old_path@, desired_name@) == Some(dplan_view(p)),
            None => dir_plan_spec(old_path@, desired_name@) is None,
        },
{
    let desired = sanitize_name(desired_name);
    if desired.as_str().is_empty() {
        return None;
    }
    let current = match crate::paths::file_name(old_path) {
        Some(c) => c,
        None => return None,
    };
    if str_eq(current.as_str(), desired.as_str()) {
        return None;
    }
    let par = match crate::paths::parent(old_path) {
        Some(p) => p,
        None => return None,
    };
    let new_path = crate::paths::join(par.as_str(), desired.as_str());
    if str_eq(new_path.as_str(), old_path) {
        return None;
    }
    Some(DirectoryRenamePlan { old_path: owned(old_path), new_path })
}

/// The name a directory should take for an item: scraped title, else
/// parsed title, sanitized; nothing when that is empty.
pub open spec fn title_for_spec(item: MediaItem) -> Option<Seq<char>> {
    let t = match item.scraped {
        Some(sc) => Some(sc.title@),
        None => match item.parsed {
            Some(p) => Some(p.raw_title@),
            None => None,
        },
    };
    match t {
        Some(x) => {
            let s = sanitize_name_spec(x);
            if s.len() == 0 {
                None
            } else {
                Some(s)
            }
        },
        None => None,
    }
}

fn title_for(item: &MediaItem) -> (r: Option<String>)
    ensures
        sv(r) == title_for_spec(*item),
{
    let t = match &item.scraped {
        Some(sc) => sanitize_name(sc.title.as_str()),
        None => match &item.parsed {
            Some(p) => sanitize_name(p.raw_title.as_str()),
            None => return None,
        },
    };
    if t.as_str().is_empty() {
        None
    } else {
        Some(t)
    }
}

/// The season folder of an episode named `Season NN`.
pub open spec fn tv_season_plan_spec(item: MediaItem) -> Option<PathPair> {
    match item.parsed {
        Some(p) => match p.season {
            Some(season) => match parent_spec(item.path@) {
                Some(old) => dir_plan_spec(old, "Season "@ + pad2(season as nat)),
                None => None,
            },
            None => None,
        },
        None => None,
    }
}

/// The show folder (above the season folder) named after the title.
pub open spec fn tv_show_plan_spec(item: MediaItem) -> Option<PathPair> {
    match item.parsed {
        Some(p) => match parent_spec(item.path@) {
            Some(season_dir) => match parent_spec(season_dir) {
                Some(show_dir) => match title_for_spec(item) {
                    Some(t) => dir_plan_spec(show_dir, t),
                    None => None,
                },
                None => None,
            },
            None => None,
        },
        None => None,
    }
}

/// Whether the listing shows a season folder beside `dir`: then `dir` is a
/// show's extras folder, not a movie folder.
pub open spec fn is_tv_extras_spec(dir: Seq<char>, listing: Seq<FsEntry>) -> bool {
    match parent_spec(dir) {
        None => false,
        Some(par) => exists|i: int|
            0 <= i < listing.len() && #[trigger] listing[i].is_dir && parent_spec(listing[i].path@)
                == Some(par) && rx_is_match(
                RE_SEASONISH@,
                trim(or_empty(file_name_spec(listing[i].path@))),
            ),
    }
}

fn is_tv_extras_directory(dir: &str, listing: &Vec<FsEntry>) -> (r: bool)
    ensures
        r == is_tv_extras_spec(dir@, listing@),
{
    let par = match crate::paths::parent(dir) {
        Some(p) => p,
        None => return false,
    };
    let mut i: usize = 0;
    while i < listing.len()
        invariant
            i <= listing.len(),
            parent_spec(dir@) == Some(par@),
            forall|j: int|
                0 <= j < i ==> !(#[trigger] listing@[j].is_dir && parent_spec(listing@[j].path@)
                    == Some(par@) && rx_is_match(
                    RE_SEASONISH@,
                    trim(or_empty(file_name_spec(listing@[j].path@))),
                )),
        decreases listing.len() - i,
    {
        let e = &listing[i];
        if e.is_dir {
            match crate::paths::parent(e.path.as_str()) {
                Some(p) => {
                    if str_eq(p.as_str(), par.as_str()) {
                        let name = match crate::paths::file_name(e.path.as_str()) {
                            Some(n) => n,
                            None => String::new(),
                        };
                        if is_seasonish_dir_name(name.as_str()) {
                            assert(listing@[i as int].is_dir);
                            return true;
                        }
                    }
                },
                None => {},
            }
        }
        i = i + 1;
    }
    false
}

/// A movie's folder named `Title (Year)` (or `Title`), unless it is a
/// show's extras folder.
pub open spec fn movie_plan_spec(item: MediaItem, listing: Seq<FsEntry>) -> Option<PathPair> {
    match parent_spec(item.path@) {
        None => None,
        Some(old) => if is_tv_extras_spec(old, listing) {
            None
        } else {
            match title_for_spec(item) {
                None => None,
                Some(t) => {
                    let year = match item.scraped {
                        Some(sc) => match sc.year {
                            Some(y) => Some(y),
                            None => match item.parsed {
                                Some(p) => p.year,
                                None => None,
                            },
                        },
                        None => match item.parsed {
                            Some(p) => p.year,
                            None => None,
                        },
                    };
                    let desired = match year {
                        Some(y) => t + " ("@ + decimal(y as nat) + ")"@,
                        None => t,
                    };
                    dir_plan_spec(old, desired)
                },
            }
        },
    }
}

pub open spec fn opt_dplan(o: Option<DirectoryRenamePlan>) -> Option<PathPair> {
    match o {
        Some(p) => Some(dplan_view(p)),
        None => None,
    }
}

pub open spec fn opt_pp(o: Option<PathPair>) -> Seq<PathPair> {
    match o {
        Some(x) => seq![x],
        None => seq![],
    }
}

/// The directory plans one item asks for.
pub open spec fn item_dir_plans(item: MediaItem, listing: Seq<FsEntry>) -> Seq<PathPair> {
    match item.media_type {
        MediaType::TvShow | MediaType::Strm => opt_pp(tv_season_plan_spec(item)) + opt_pp(
            tv_show_plan_spec(item),
        ),
        MediaType::Movie => opt_pp(movie_plan_spec(item, listing)),
        _ => seq![],
    }
}

pub open spec fn olds(ps: Seq<PathPair>) -> Seq<Seq<char>> {
    ps.map_values(|p: PathPair| p.0)
}

/// A plan joins the list unless a plan for the same directory is there.
pub open spec fn add_plan(d: Seq<PathPair>, p: PathPair) -> Seq<PathPair> {
    if olds(d).contains(p.0) {
        d
    } else {
        d.push(p)
    }
}

pub open spec fn add_plans(d: Seq<PathPair>, ps: Seq<PathPair>) -> Seq<PathPair>
    decreases ps.len(),
{
    if ps.len() == 0 {
        d
    } else {
        add_plan(add_plans(d, ps.drop_last()), ps.last())
    }
}

/// `Renamer::build_directory_plans`: every item's plans in order, the
/// first plan for a directory kept.
pub open spec fn build_dir_plans_spec(items: Seq<MediaItem>, listing: Seq<FsEntry>) -> Seq<
    PathPair,
>
    decreases items.len(),
{
    if items.len() == 0 {
        seq![]
    } else {
        add_plans(build_dir_plans_spec(items.drop_last(), listing), item_dir_plans(items.last(), listing))
    }
}

/// Adds `plan` unless a plan for its directory is already listed; `seen`
/// holds the directories planned so far.
pub fn push_directory_plan(
    plans: &mut Vec<DirectoryRenamePlan>,
    seen: &mut Vec<String>,
    plan: DirectoryRenamePlan,
)
    requires
        views(old(seen)@) == olds(dplans_view(old(plans)@)),
    ensures
        dplans_view(final(plans)@) == add_plan(dplans_view(old(plans)@), dplan_view(plan)),
        views(final(seen)@) == olds(dplans_view(final(plans)@)),
{
    let ghost d = dplans_view(plans@);
    let mut i: usize = 0;
    while i < seen.len()
        invariant
            i <= seen.len(),
            views(seen@) == olds(d),
            d == dplans_view(plans@),
            forall|j: int| 0 <= j < i ==> seen@[j]@ != plan.old_path@,
        decreases seen.len() - i,
    {
        if str_eq(seen[i].as_str(), plan.old_path.as_str()) {
            assert(views(seen@)[i as int] == plan.old_path@);
            assert(olds(d)[i as int] == plan.old_path@);
            assert(olds(d).contains(plan.old_path@));
            return ;
        }
        i = i + 1;
    }
    assert(!olds(d).contains(plan.old_path@)) by {
        if olds(d).contains(plan.old_path@) {
            let j = choose|j: int| 0 <= j < olds(d).len() && olds(d)[j] == plan.old_path@;
            assert(views(seen@)[j] == seen@[j]@);
        }
    }
    seen.push(owned(plan.old_path.as_str()));
    let ghost pv = dplan_view(plan);
    plans.push(plan);
    assert(dplans_view(plans@) =~= d.push(pv));
    assert(olds(dplans_view(plans@)) =~= olds(d).push(pv.0));
    assert(views(seen@) =~= olds(d).push(pv.0));
}

fn tv_season_directory_plan(item: &MediaItem) -> (r: Option<DirectoryRenamePlan>)
    ensures
        match r {
            Some(p) => tv_season_plan_spec(*item) == Some(dplan_view(p)),
            None => tv_season_plan_spec(*item) is None,
        },
{
    let parsed = match &item.parsed {
        Some(p) => p,
        None => return None,
    };
    let season = match parsed.season {
        Some(s) => s,
        None => return None,
    };
    let old = match crate::paths::parent(item.path.as_str()) {
        Some(o) => o,
        None => return None,
    };
    let mut name = chars_of("Season ");
    let p = pad2_of(season as u64);
    append_chars(&mut name, p.as_slice());
    let desired = string_of(name.as_slice());
    rename_dir_plan_if_needed(old.as_str(), desired.as_str())
}

fn tv_show_directory_plan(item: &MediaItem) -> (r: Option<DirectoryRenamePlan>)
    ensures
        match r {
            Some(p) => tv_show_plan_spec(*item) == Some(dplan_view(p)),
            None => tv_show_plan_spec(*item) is None,
        },
{
    if item.parsed.is_none() {
        return None;
    }
    let season_dir = match crate::paths::parent(item.path.as_str()) {
        Some(o) => o,
        None => return None,
    };
    let show_dir = match crate::paths::parent(season_dir.as_str()) {
        Some(o) => o,
        None => return None,
    };
    let title = match title_for(item) {
        Some(t) => t,
        None => return None,
    };
    rename_dir_plan_if_needed(show_dir.as_str(), title.as_str())
}

fn movie_directory_plan(item: &MediaItem, listing: &Vec<FsEntry>) -> (r: Option<
    DirectoryRenamePlan,
>)
    ensures
        match r {
            Some(p) => movie_plan_spec(*item, listing@) == Some(dplan_view(p)),
            None => movie_plan_spec(*item, listing@) is None,
        },
{
    let old = match crate::paths::parent(item.path.as_str()) {
        Some(o) => o,
        None => return None,
    };
    if is_tv_extras_directory(old.as_str(), listing) {
        return None;
    }
    let title = match title_for(item) {
        Some(t) => t,
        None => return None,
    };
    let parsed_year = match &item.parsed {
        Some(p) => p.year,
        None => None,
    };
    let year = match &item.scraped {
        Some(sc) => match sc.year {
            Some(y) => Some(y),
            None => parsed_year,
        },
        None => parsed_year,
    };
    let desired = match year {
        Some(y) => {
            let mut v = chars_of(title.as_str());
            append_str(&mut v, " (");
            let d = decimal_of(y as u64);
            append_chars(&mut v, d.as_slice());
            append_str(&mut v, ")");
            string_of(v.as_slice())
        },
        None => title,
    };
    rename_dir_plan_if_needed(old.as_str(), desired.as_str())
}

proof fn lemma_add_plans_concat(d: Seq<PathPair>, a: Seq<PathPair>, b: Seq<PathPair>)
    ensures
        add_plans(d, a + b) == add_plans(add_plans(d, a), b),
    decreases b.len(),
{
    if b.len() == 0 {
        assert(a + b =~= a);
    } else {
        assert((a + b).drop_last() =~= a + b.drop_last());
        assert((a + b).last() == b.last());
        lemma_add_plans_concat(d, a, b.drop_last());
    }
}

fn push_opt_plan(
    plans: &mut Vec<DirectoryRenamePlan>,
    seen: &mut Vec<String>,
    plan: Option<DirectoryRenamePlan>,
)
    requires
        views(old(seen)@) == olds(dplans_view(old(plans)@)),
    ensures
        dplans_view(final(plans)@) == add_plans(
            dplans_view(old(plans)@),
            opt_pp(opt_dplan(plan)),
        ),
        views(final(seen)@) == olds(dplans_view(final(plans)@)),
{
    match plan {
        Some(p) => {
            let ghost pv = dplan_view(p);
            let ghost d = dplans_view(plans@);
            push_directory_plan(plans, seen, p);
            assert(seq![pv].drop_last() =~= Seq::<PathPair>::empty());
            assert(add_plans(d, seq![pv]) == add_plan(add_plans(d, Seq::<PathPair>::empty()), pv));
        },
        None => {},
    }
}

impl Renamer {
    /// `Renamer::build_directory_plans` (see `build_dir_plans_spec`).
    pub fn build_directory_plans(&self, items: &Vec<MediaItem>, listing: &Vec<FsEntry>) -> (r: Vec<
        DirectoryRenamePlan,
    >)
        ensures
            dplans_view(r@) == build_dir_plans_spec(items@, listing@),
    {
        let mut plans: Vec<DirectoryRenamePlan> = Vec::new();
        let mut seen: Vec<String> = Vec::new();
        let mut i: usize = 0;
        assert(dplans_view(plans@) =~= Seq::<PathPair>::empty());
        assert(views(seen@) =~= Seq::<Seq<char>>::empty());
        assert(olds(Seq::<PathPair>::empty()) =~= Seq::<Seq<char>>::empty());
        while i < items.len()
            invariant
                i <= items.len(),
                views(seen@) == olds(dplans_view(plans@)),
                dplans_view(plans@) == build_dir_plans_spec(items@.take(i as int), listing@),
            decreases items.len() - i,
        {
            let item = &items[i];
            let ghost before = dplans_view(plans@);
            proof {
                let t = items@.take(i + 1);
                assert(t.drop_last() =~= items@.take(i as int));
                assert(t.last() == items@[i as int]);
            }
            match item.media_type {
                MediaType::TvShow | MediaType::Strm => {
                    let a = tv_season_directory_plan(item);
                    let ghost av = opt_pp(opt_dplan(a));
                    push_opt_plan(&mut plans, &mut seen, a);
                    let b = tv_show_directory_plan(item);
                    let ghost bv = opt_pp(opt_dplan(b));
                    push_opt_plan(&mut plans, &mut seen, b);
                    proof {
                        lemma_add_plans_concat(before, av, bv);
                    }
                },
                MediaType::Movie => {
                    let a = movie_directory_plan(item, listing);
                    push_opt_plan(&mut plans, &mut seen, a);
                },
                _ => {
                    assert(item_dir_plans(*item, listing@) =~= Seq::<PathPair>::empty());
                },
            }
            i = i + 1;
        }
        assert(items@.take(items.len() as int) =~= items@);
        plans
    }
}

// ---------------------------------------------------------------------------
// Subtitle plans
// ---------------------------------------------------------------------------

pub open spec fn splan_view(p: SubtitleRenamePlan) -> PathPair {
    (p.old_path@, p.new_path@)
}

pub open spec fn splans_view(v: Seq<SubtitleRenamePlan>) -> Seq<PathPair> {
    v.map_values(|p: SubtitleRenamePlan| splan_view(p))
}

pub open spec fn subtitle_exts() -> Seq<Seq<char>> {
    seq!["srt"@, "ass"@, "ssa"@, "sub"@, "idx"@, "vtt"@]
}

pub open spec fn dot_ext(ext: Option<Seq<char>>) -> Seq<char> {
    match ext {
        Some(e) => seq!['.'] + e,
        None => seq![],
    }
}

/// A subtitle beside the video follows it: a file in `dir` with a subtitle
/// extension (in any case) whose stem is the video's stem, or starts with
/// it followed by `.` or `-`, is renamed to the new name with the same
/// remainder and extension.
pub open spec fn sub_plan_for(
    dir: Seq<char>,
    stem: Seq<char>,
    new_name: Seq<char>,
    entry: Seq<char>,
) -> Option<PathPair> {
    if parent_spec(entry) != Some(dir) {
        None
    } else {
        let ext = extension_spec(entry);
        let ext_l = match ext {
            Some(e) => lowercase_result(e),
            None => seq![],
        };
        if !crate::media::in_strs(ext_l, subtitle_exts()) {
            None
        } else {
            let sub_stem = or_empty(file_stem_spec(entry));
            if sub_stem == stem || crate::text::starts_with(sub_stem, stem + "."@)
                || crate::text::starts_with(sub_stem, stem + "-"@) {
                Some((entry, join_spec(dir, new_name + sub_stem.skip(stem.len() as int) + dot_ext(ext))))
            } else {
                None
            }
        }
    }
}

pub open spec fn sub_plans_spec(
    dir: Seq<char>,
    stem: Seq<char>,
    new_name: Seq<char>,
    listing: Seq<FsEntry>,
) -> Seq<PathPair>
    decreases listing.len(),
{
    if listing.len() == 0 {
        seq![]
    } else {
        sub_plans_spec(dir, stem, new_name, listing.drop_last()) + opt_pp(
            sub_plan_for(dir, stem, new_name, listing.last().path@),
        )
    }
}

/// `Renamer::find_subtitle_plans` over a listing of the video's directory.
pub open spec fn find_subtitle_plans_spec(
    media: Seq<char>,
    new_name: Seq<char>,
    listing: Seq<FsEntry>,
) -> Seq<PathPair> {
    match parent_spec(media) {
        Some(dir) => match file_stem_spec(media) {
            Some(stem) => sub_plans_spec(dir, stem, new_name, listing),
            None => seq![],
        },
        None => seq![],
    }
}

fn sub_plan_exec(dir: &str, stem: &str, new_name: &str, entry: &str) -> (r: Option<
    SubtitleRenamePlan,
>)
    ensures
        match r {
            Some(p) => sub_plan_for(dir@, stem@, new_name@, entry@) == Some(splan_view(p)),
            None => sub_plan_for(dir@, stem@, new_name@, entry@) is None,
        },
{
    match crate::paths::parent(entry) {
        Some(p) => {
            if !str_eq(p.as_str(), dir) {
                return None;
            }
        },
        None => return None,
    }
    let ext = crate::paths::extension(entry);
    let ext_l = match &ext {
        Some(e) => crate::text::str_to_lowercase(e.as_str()),
        None => String::new(),
    };
    let exts: [&str; 6] = ["srt", "ass", "ssa", "sub", "idx", "vtt"];
    assert(crate::text::str_views(exts@) =~= subtitle_exts());
    if !crate::media::in_list_str(ext_l.as_str(), exts.as_slice()) {
        return None;
    }
    let sub_stem = match crate::paths::file_stem(entry) {
        Some(s) => chars_of(s.as_str()),
        None => Vec::new(),
    };
    let stem_v = chars_of(stem);
    let mut with_dot = chars_of(stem);
    with_dot.push('.');
    let mut with_dash = chars_of(stem);
    with_dash.push('-');
    proof {
        reveal_strlit(".");
        reveal_strlit("-");
        assert(with_dot@ =~= stem@ + "."@);
        assert(with_dash@ =~= stem@ + "-"@);
    }
    let same = chars_eq(sub_stem.as_slice(), stem_v.as_slice());
    let dot = crate::text::starts_with_chars(sub_stem.as_slice(), with_dot.as_slice());
    let dash = crate::text::starts_with_chars(sub_stem.as_slice(), with_dash.as_slice());
    if same || dot || dash {
        assert(stem_v.len() <= sub_stem.len());
        let rest = sub_stem.split_at(stem_v.len()).1;
        assert(rest@ =~= sub_stem@.skip(stem@.len() as int));
        let mut name = chars_of(new_name);
        append_chars(&mut name, rest);
        match &ext {
            Some(e) => {
                name.push('.');
                append_str(&mut name, e.as_str());
            },
            None => {},
        }
        assert(name@ =~= new_name@ + sub_stem@.skip(stem@.len() as int) + dot_ext(sv(ext)));
        let n = string_of(name.as_slice());
        let new_path = crate::paths::join(dir, n.as_str());
        Some(SubtitleRenamePlan { old_path: owned(entry), new_path })
    } else {
        None
    }
}

impl Renamer {
    /// The subtitles that follow a video renamed to `new_name`, from a
    /// listing of its directory (see `find_subtitle_plans_spec`).
    pub fn find_subtitle_plans(
        &self,
        media_path: &str,
        new_name: &str,
        listing: &Vec<FsEntry>,
    ) -> (r: Vec<SubtitleRenamePlan>)
        ensures
            splans_view(r@) == find_subtitle_plans_spec(media_path@, new_name@, listing@),
    {
        let dir = match crate::paths::parent(media_path) {
            Some(d) => d,
            None => return Vec::new(),
        };
        let stem = match crate::paths::file_stem(media_path) {
            Some(s) => s,
            None => return Vec::new(),
        };
        let mut plans: Vec<SubtitleRenamePlan> = Vec::new();
        let mut i: usize = 0;
        assert(splans_view(plans@) =~= Seq::<PathPair>::empty());
        while i < listing.len()
            invariant
                i <= listing.len(),
                splans_view(plans@) == sub_plans_spec(
                    dir@,
                    stem@,
                    new_name@,
                    listing@.take(i as int),
                ),
            decreases listing.len() - i,
        {
            let ghost before = splans_view(plans@);
            proof {
                let t = listing@.take(i + 1);
                assert(t.drop_last() =~= listing@.take(i as int));
                assert(t.last() == listing@[i as int]);
            }
            match sub_plan_exec(dir.as_str(), stem.as_str(), new_name, listing[i].path.as_str()) {
                Some(p) => {
                    let ghost pv = splan_view(p);
                    plans.push(p);
                    assert(splans_view(plans@) =~= before + seq![pv]);
                },
                None => {
                    assert(before + Seq::<PathPair>::empty() =~= before);
                },
            }
            i = i + 1;
        }
        assert(listing@.take(listing.len() as int) =~= listing@);
        plans
    }
}

// ---------------------------------------------------------------------------
// Rename plans
// ---------------------------------------------------------------------------

/// A rename plan as sequences.
pub struct PlanModel {
    pub old: Seq<char>,
    pub new: Seq<char>,
    pub subs: Seq<PathPair>,
    pub dirs: Seq<PathPair>,
    pub rationale: Seq<Seq<char>>,
    pub conflicts: Seq<Seq<char>>,
}

impl View for RenamePlan {
    type V = PlanModel;

    open spec fn view(&self) -> PlanModel {
        PlanModel {
            old: self.old_path@,
            new: self.new_path@,
            subs: splans_view(self.subtitle_plans@),
            dirs: dplans_view(self.directory_plans@),
            rationale: views(self.rationale@),
            conflicts: views(self.conflicts@),
        }
    }
}

/// The plan for one item once its template has been rendered: the new path
/// is the rendered name (plus the extension unless the template writes it)
/// beside the old one; no plan when rendering gave nothing or the path
/// does not change.
pub open spec fn plan_one_from(
    config: RenameConfig,
    item: MediaItem,
    listing: Seq<FsEntry>,
    rendered: Option<Seq<char>>,
) -> Option<PlanModel> {
    match rendered {
        None => None,
        Some(name) => match parent_spec(item.path@) {
            None => None,
            Some(par) => {
                let t = template_for_spec(config, item.media_type);
                let file = if mentions_ext_spec(t) {
                    name
                } else {
                    name + ext_text(item.path@)
                };
                let new = join_spec(par, file);
                if new == item.path@ {
                    None
                } else {
                    let sub_name = if mentions_ext_spec(t) {
                        match file_stem_spec(name) {
                            Some(st) => st,
                            None => name,
                        }
                    } else {
                        name
                    };
                    let subs = if config.rename_subtitles {
                        find_subtitle_plans_spec(item.path@, sub_name, listing)
                    } else {
                        seq![]
                    };
                    Some(
                        PlanModel {
                            old: item.path@,
                            new: new,
                            subs: subs,
                            dirs: seq![],
                            rationale: seq![],
                            conflicts: seq![],
                        },
                    )
                }
            },
        },
    }
}

impl Renamer {
    /// The rename plan of one item whose template rendered to `rendered`
    /// (see `plan_one_from`).
    pub fn plan_one_with(&self, item: &MediaItem, rendered: Option<String>, listing: &Vec<FsEntry>) -> (r:
        Option<RenamePlan>)
        ensures
            match r {
                Some(p) => plan_one_from(self.config, *item, listing@, sv(rendered)) == Some(p@),
                None => plan_one_from(self.config, *item, listing@, sv(rendered)) is None,
            },
    {
        let name = match rendered {
            Some(n) => n,
            None => return None,
        };
        let par = match crate::paths::parent(item.path.as_str()) {
            Some(p) => p,
            None => return None,
        };
        let template = self.template_for(item);
        let uses_ext = template_mentions_ext(template.as_str());
        let file = if uses_ext {
            owned(name.as_str())
        } else {
            let mut v = chars_of(name.as_str());
            match crate::paths::extension(item.path.as_str()) {
                Some(e) => {
                    v.push('.');
                    append_str(&mut v, e.as_str());
                },
                None => {},
            }
            assert(v@ =~= name@ + ext_text(item.path@));
            string_of(v.as_slice())
        };
        let new_path = crate::paths::join(par.as_str(), file.as_str());
        if str_eq(new_path.as_str(), item.path.as_str()) {
            return None;
        }
        let subtitle_plans = if self.config.rename_subtitles {
            let sub_name = if uses_ext {
                match crate::paths::file_stem(name.as_str()) {
                    Some(st) => st,
                    None => owned(name.as_str()),
                }
            } else {
                owned(name.as_str())
            };
            self.find_subtitle_plans(item.path.as_str(), sub_name.as_str(), listing)
        } else {
            let v: Vec<SubtitleRenamePlan> = Vec::new();
            assert(splans_view(v@) =~= Seq::<PathPair>::empty());
            v
        };
        let r = RenamePlan {
            old_path: owned(item.path.as_str()),
            new_path,
            subtitle_plans,
            directory_plans: Vec::new(),
            rationale: Vec::new(),
            conflicts: Vec::new(),
        };
        assert(dplans_view(r.directory_plans@) =~= Seq::<PathPair>::empty());
        assert(views(r.rationale@) =~= Seq::<Seq<char>>::empty());
        assert(views(r.conflicts@) =~= Seq::<Seq<char>>::empty());
        Some(r)
    }
}

pub open spec fn opt_plan(o: Option<PlanModel>) -> Seq<PlanModel> {
    match o {
        Some(x) => seq![x],
        None => seq![],
    }
}

/// The file plans, item by item (`renders[i]` is what item `i`'s template
/// rendered to).
pub open spec fn base_plans(
    config: RenameConfig,
    items: Seq<MediaItem>,
    listing: Seq<FsEntry>,
    renders: Seq<Option<Seq<char>>>,
) -> Seq<PlanModel>
    decreases items.len(),
{
    if items.len() == 0 {
        seq![]
    } else {
        base_plans(config, items.drop_last(), listing, renders) + opt_plan(
            plan_one_from(config, items.last(), listing, renders[items.len() - 1]),
        )
    }
}

/// The first directory plan for `a`.
pub open spec fn find_plan(dps: Seq<PathPair>, a: Seq<char>) -> Option<PathPair>
    decreases dps.len(),
{
    if dps.len() == 0 {
        None
    } else if dps[0].0 == a {
        Some(dps[0])
    } else {
        find_plan(dps.drop_first(), a)
    }
}

pub open spec fn attach_fold(ancs: Seq<Seq<char>>, dps: Seq<PathPair>, acc: Seq<PathPair>) -> Seq<
    PathPair,
>
    decreases ancs.len(),
{
    if ancs.len() == 0 {
        acc
    } else {
        let acc2 = match find_plan(dps, ancs[0]) {
            Some(dp) => add_plan(acc, dp),
            None => acc,
        };
        attach_fold(ancs.drop_first(), dps, acc2)
    }
}

/// The directory plans of a file's ancestors, nearest first.
pub open spec fn attached_dirs(old: Seq<char>, dps: Seq<PathPair>) -> Seq<PathPair> {
    attach_fold(crate::paths::all_ancestors(old), dps, seq![])
}

pub open spec fn with_dirs(p: PlanModel, dirs: Seq<PathPair>) -> PlanModel {
    PlanModel { dirs: dirs, ..p }
}

pub open spec fn attach_all(ps: Seq<PlanModel>, dps: Seq<PathPair>) -> Seq<PlanModel>
    decreases ps.len(),
{
    if ps.len() == 0 {
        seq![]
    } else {
        attach_all(ps.drop_last(), dps).push(with_dirs(ps.last(), attached_dirs(ps.last().old, dps)))
    }
}

/// The directories already carried by some plan.
pub open spec fn all_olds(ps: Seq<PlanModel>) -> Seq<Seq<char>>
    decreases ps.len(),
{
    if ps.len() == 0 {
        seq![]
    } else {
        all_olds(ps.drop_last()) + olds(ps.last().dirs)
    }
}

/// A plan that renames only a directory.
pub open spec fn standalone(dp: PathPair) -> PlanModel {
    PlanModel {
        old: dp.0,
        new: dp.0,
        subs: seq![],
        dirs: seq![dp],
        rationale: seq![],
        conflicts: seq![],
    }
}

pub open spec fn unassigned(dps: Seq<PathPair>, assigned: Seq<Seq<char>>) -> Seq<PlanModel>
    decreases dps.len(),
{
    if dps.len() == 0 {
        seq![]
    } else {
        unassigned(dps.drop_last(), assigned) + if assigned.contains(dps.last().0) {
            Seq::<PlanModel>::empty()
        } else {
            seq![standalone(dps.last())]
        }
    }
}

/// `Renamer::plan`: the file plans, each carrying the plans of its
/// ancestor directories, then a plan of its own for every directory plan
/// no file carries.
pub open spec fn plan_spec(
    config: RenameConfig,
    items: Seq<MediaItem>,
    listing: Seq<FsEntry>,
    renders: Seq<Option<Seq<char>>>,
) -> Seq<PlanModel> {
    let dps = build_dir_plans_spec(items, listing);
    let att = attach_all(base_plans(config, items, listing, renders), dps);
    att + unassigned(dps, all_olds(att))
}

/// Each `renders[i]` is a possible rendering of item `i`'s template.
pub open spec fn renders_ok(
    config: RenameConfig,
    items: Seq<MediaItem>,
    renders: Seq<Option<Seq<char>>>,
) -> bool {
    &&& renders.len() == items.len()
    &&& forall|i: int|
        0 <= i < items.len() ==> render_ok(
            template_for_spec(config, #[trigger] items[i].media_type),
            template_vars_spec(items[i], config.season_offset),
            config.preserve_media_suffix,
            renders[i],
        )
}

proof fn lemma_base_plans_move(
    config: RenameConfig,
    items: Seq<MediaItem>,
    listing: Seq<FsEntry>,
    renders: Seq<Option<Seq<char>>>,
)
    ensures
        forall|k: int|
            0 <= k < base_plans(config, items, listing, renders).len() ==> (#[trigger] base_plans(
                config,
                items,
                listing,
                renders,
            )[k]).old != base_plans(config, items, listing, renders)[k].new,
    decreases items.len(),
{
    if items.len() > 0 {
        lemma_base_plans_move(config, items.drop_last(), listing, renders);
        let b = base_plans(config, items.drop_last(), listing, renders);
        let o = opt_plan(plan_one_from(config, items.last(), listing, renders[items.len() - 1]));
        assert forall|k: int| 0 <= k < (b + o).len() implies (#[trigger] (b + o)[k]).old != (b
            + o)[k].new by {
            if k >= b.len() {
                assert((b + o)[k] == o[k - b.len()]);
            } else {
                assert((b + o)[k] == b[k]);
            }
        }
    }
}

proof fn lemma_attach_keeps_paths(ps: Seq<PlanModel>, dps: Seq<PathPair>)
    ensures
        attach_all(ps, dps).len() == ps.len(),
        forall|k: int|
            0 <= k < ps.len() ==> (#[trigger] attach_all(ps, dps)[k]).old == ps[k].old
                && attach_all(ps, dps)[k].new == ps[k].new,
    decreases ps.len(),
{
    if ps.len() > 0 {
        lemma_attach_keeps_paths(ps.drop_last(), dps);
        let a = attach_all(ps.drop_last(), dps);
        assert forall|k: int| 0 <= k < ps.len() implies (#[trigger] attach_all(ps, dps)[k]).old
            == ps[k].old && attach_all(ps, dps)[k].new == ps[k].new by {
            if k < ps.len() - 1 {
                assert(attach_all(ps, dps)[k] == a[k]);
                assert(ps.drop_last()[k] == ps[k]);
            }
        }
    }
}

proof fn lemma_standalone_plans_carry_dirs(dps: Seq<PathPair>, assigned: Seq<Seq<char>>)
    ensures
        forall|k: int|
            0 <= k < unassigned(dps, assigned).len() ==> (#[trigger] unassigned(dps, assigned)[k]).dirs.len()
                > 0,
    decreases dps.len(),
{
    if dps.len() > 0 {
        lemma_standalone_plans_carry_dirs(dps.drop_last(), assigned);
        let u = unassigned(dps.drop_last(), assigned);
        let t = if assigned.contains(dps.last().0) {
            Seq::<PlanModel>::empty()
        } else {
            seq![standalone(dps.last())]
        };
        assert forall|k: int| 0 <= k < (u + t).len() implies (#[trigger] (u + t)[k]).dirs.len()
            > 0 by {
            if k >= u.len() {
                assert((u + t)[k] == t[k - u.len()]);
            } else {
                assert((u + t)[k] == u[k]);
            }
        }
    }
}

/// A name that holds none of the characters a file name cannot hold.
pub open spec fn clean_name(n: Seq<char>) -> bool {
    forall|c: char| #[trigger] name_bad_chars().contains(c) ==> !n.contains(c)
}

/// A plan that renames its file inside its own directory, to a clean
/// rendered name, followed by the old extension where the template does
/// not write one.
pub open spec fn renamed_in_place(p: PlanModel) -> bool {
    exists|n: Seq<char>|
        #[trigger] clean_name(n) && (parent_spec(p.old) matches Some(par) && (p.new == join_spec(
            par,
            n,
        ) || p.new == join_spec(par, n + ext_text(p.old))))
}

proof fn lemma_base_plans_in_place(
    config: RenameConfig,
    items: Seq<MediaItem>,
    listing: Seq<FsEntry>,
    renders: Seq<Option<Seq<char>>>,
)
    requires
        renders.len() >= items.len(),
        forall|i: int|
            0 <= i < items.len() ==> render_ok(
                template_for_spec(config, #[trigger] items[i].media_type),
                template_vars_spec(items[i], config.season_offset),
                config.preserve_media_suffix,
                renders[i],
            ),
    ensures
        forall|k: int|
            0 <= k < base_plans(config, items, listing, renders).len() ==> renamed_in_place(
                #[trigger] base_plans(config, items, listing, renders)[k],
            ),
    decreases items.len(),
{
    if items.len() > 0 {
        let init = items.drop_last();
        assert forall|i: int| 0 <= i < init.len() implies render_ok(
            template_for_spec(config, #[trigger] init[i].media_type),
            template_vars_spec(init[i], config.season_offset),
            config.preserve_media_suffix,
            renders[i],
        ) by {
            assert(init[i] == items[i]);
        }
        lemma_base_plans_in_place(config, init, listing, renders);
        let b = base_plans(config, init, listing, renders);
        let last = items.last();
        let r = renders[items.len() - 1];
        let o = opt_plan(plan_one_from(config, last, listing, r));
        if let Some(pl) = plan_one_from(config, last, listing, r) {
            let name = r->Some_0;
            assert(render_ok(
                template_for_spec(config, items[items.len() - 1].media_type),
                template_vars_spec(items[items.len() - 1], config.season_offset),
                config.preserve_media_suffix,
                r,
            ));
            lemma_rendered_name_clean(
                template_for_spec(config, last.media_type),
                template_vars_spec(last, config.season_offset),
                config.preserve_media_suffix,
                r,
            );
            assert(clean_name(name));
            assert(renamed_in_place(pl));
        }
        assert forall|k: int| 0 <= k < (b + o).len() implies renamed_in_place(#[trigger] (b + o)[k]) by {
            if k < b.len() {
                assert((b + o)[k] == b[k]);
            } else {
                assert((b + o)[k] == o[k - b.len()]);
            }
        }
    }
}

/// Every plan that moves a file renames it inside its own directory: to a
/// rendered name free of the characters a file name cannot hold (the old
/// extension added where the template writes none).
pub proof fn lemma_plans_rename_in_place(
    config: RenameConfig,
    items: Seq<MediaItem>,
    listing: Seq<FsEntry>,
    renders: Seq<Option<Seq<char>>>,
)
    requires
        renders_ok(config, items, renders),
    ensures
        forall|k: int|
            0 <= k < plan_spec(config, items, listing, renders).len() && (#[trigger] plan_spec(
                config,
                items,
                listing,
                renders,
            )[k]).old != plan_spec(config, items, listing, renders)[k].new ==> renamed_in_place(
                plan_spec(config, items, listing, renders)[k],
            ),
{
    let b = base_plans(config, items, listing, renders);
    let dps = build_dir_plans_spec(items, listing);
    let att = attach_all(b, dps);
    let un = unassigned(dps, all_olds(att));
    lemma_base_plans_in_place(config, items, listing, renders);
    lemma_attach_keeps_paths(b, dps);
    lemma_unassigned_stay(dps, all_olds(att));
    assert forall|k: int| 0 <= k < (att + un).len() && (#[trigger] (att + un)[k]).old != (att
        + un)[k].new implies renamed_in_place((att + un)[k]) by {
        if k < att.len() {
            assert((att + un)[k] == att[k]);
            assert(renamed_in_place(b[k]));
            assert(att[k].old == b[k].old && att[k].new == b[k].new);
            let n = choose|n: Seq<char>|
                #[trigger] clean_name(n) && (parent_spec(b[k].old) matches Some(par) && (b[k].new
                    == join_spec(par, n) || b[k].new == join_spec(par, n + ext_text(b[k].old))));
            assert(clean_name(n));
        } else {
            assert((att + un)[k] == un[k - att.len()]);
        }
    }
}

proof fn lemma_unassigned_stay(dps: Seq<PathPair>, assigned: Seq<Seq<char>>)
    ensures
        forall|k: int|
            0 <= k < unassigned(dps, assigned).len() ==> (#[trigger] unassigned(dps, assigned)[k]).old
                == unassigned(dps, assigned)[k].new,
    decreases dps.len(),
{
    if dps.len() > 0 {
        lemma_unassigned_stay(dps.drop_last(), assigned);
        let u = unassigned(dps.drop_last(), assigned);
        let t = if assigned.contains(dps.last().0) {
            Seq::<PlanModel>::empty()
        } else {
            seq![standalone(dps.last())]
        };
        assert forall|k: int| 0 <= k < (u + t).len() implies (#[trigger] (u + t)[k]).old == (u
            + t)[k].new by {
            if k < u.len() {
                assert((u + t)[k] == u[k]);
            } else {
                assert((u + t)[k] == t[k - u.len()]);
            }
        }
    }
}

/// No rename plan is idle: a plan either moves its file to a new path, or
/// leaves its path as it is and carries a directory renaming.
pub proof fn lemma_plans_change_something(
    config: RenameConfig,
    items: Seq<MediaItem>,
    listing: Seq<FsEntry>,
    renders: Seq<Option<Seq<char>>>,
)
    ensures
        forall|k: int|
            0 <= k < plan_spec(config, items, listing, renders).len() ==> (#[trigger] plan_spec(
                config,
                items,
                listing,
                renders,
            )[k]).old != plan_spec(config, items, listing, renders)[k].new || plan_spec(
                config,
                items,
                listing,
                renders,
            )[k].dirs.len() > 0,
{
    let b = base_plans(config, items, listing, renders);
    let dps = build_dir_plans_spec(items, listing);
    let att = attach_all(b, dps);
    let un = unassigned(dps, all_olds(att));
    lemma_base_plans_move(config, items, listing, renders);
    lemma_attach_keeps_paths(b, dps);
    lemma_standalone_plans_carry_dirs(dps, all_olds(att));
    assert forall|k: int| 0 <= k < (att + un).len() implies (#[trigger] (att + un)[k]).old != (att
        + un)[k].new || (att + un)[k].dirs.len() > 0 by {
        if k < att.len() {
            assert((att + un)[k] == att[k]);
            assert(b[k].old != b[k].new);
        } else {
            assert((att + un)[k] == un[k - att.len()]);
        }
    }
}

pub open spec fn plans_view(v: Seq<RenamePlan>) -> Seq<PlanModel> {
    v.map_values(|p: RenamePlan| p@)
}

fn find_dir_plan(dps: &Vec<DirectoryRenamePlan>, a: &str) -> (r: Option<usize>)
    ensures
        match r {
            Some(k) => k < dps.len() && find_plan(dplans_view(dps@), a@) == Some(
                dplan_view(dps@[k as int]),
            ),
            None => find_plan(dplans_view(dps@), a@) is None,
        },
{
    let ghost d = dplans_view(dps@);
    let mut j: usize = 0;
    assert(d.skip(0) =~= d);
    while j < dps.len()
        invariant
            j <= dps.len(),
            d == dplans_view(dps@),
            find_plan(d, a@) == find_plan(d.skip(j as int), a@),
        decreases dps.len() - j,
    {
        assert(d.skip(j as int)[0] == dplan_view(dps@[j as int]));
        if str_eq(dps[j].old_path.as_str(), a) {
            return Some(j);
        }
        assert(d.skip(j as int).drop_first() =~= d.skip(j + 1));
        j = j + 1;
    }
    None
}

fn copy_dplan(p: &DirectoryRenamePlan) -> (r: DirectoryRenamePlan)
    ensures
        dplan_view(r) == dplan_view(*p),
{
    DirectoryRenamePlan { old_path: owned(p.old_path.as_str()), new_path: owned(p.new_path.as_str()) }
}

fn attach_dirs(old: &str, dps: &Vec<DirectoryRenamePlan>) -> (r: Vec<DirectoryRenamePlan>)
    ensures
        dplans_view(r@) == attached_dirs(old@, dplans_view(dps@)),
{
    let chain = crate::paths::parent_chain(old);
    let ghost ancs = views(chain@);
    let ghost d = dplans_view(dps@);
    let mut acc: Vec<DirectoryRenamePlan> = Vec::new();
    let mut seen: Vec<String> = Vec::new();
    assert(dplans_view(acc@) =~= Seq::<PathPair>::empty());
    assert(views(seen@) =~= olds(dplans_view(acc@)));
    assert(ancs.skip(0) =~= ancs);
    let mut i: usize = 0;
    while i < chain.len()
        invariant
            i <= chain.len(),
            ancs == views(chain@),
            ancs == crate::paths::all_ancestors(old@),
            d == dplans_view(dps@),
            views(seen@) == olds(dplans_view(acc@)),
            attached_dirs(old@, d) == attach_fold(ancs.skip(i as int), d, dplans_view(acc@)),
        decreases chain.len() - i,
    {
        assert(ancs.skip(i as int)[0] == chain@[i as int]@);
        assert(ancs.skip(i as int).drop_first() =~= ancs.skip(i + 1));
        match find_dir_plan(dps, chain[i].as_str()) {
            Some(k) => {
                let dp = copy_dplan(&dps[k]);
                push_directory_plan(&mut acc, &mut seen, dp);
            },
            None => {},
        }
        i = i + 1;
    }
    assert(ancs.skip(chain.len() as int) =~= Seq::<Seq<char>>::empty());
    acc
}

pub(crate) fn contains_string(v: &Vec<String>, x: &str) -> (r: bool)
    ensures
        r == views(v@).contains(x@),
{
    let mut i: usize = 0;
    while i < v.len()
        invariant
            i <= v.len(),
            forall|j: int| 0 <= j < i ==> v@[j]@ != x@,
        decreases v.len() - i,
    {
        if str_eq(v[i].as_str(), x) {
            assert(views(v@)[i as int] == x@);
            return true;
        }
        i = i + 1;
    }
    assert(!views(v@).contains(x@)) by {
        if views(v@).contains(x@) {
            let j = choose|j: int| 0 <= j < views(v@).len() && views(v@)[j] == x@;
            assert(v@[j]@ == x@);
        }
    }
    false
}

impl Renamer {
    /// Rename plans for all items (see `plan_spec`); `listing` lists the
    /// directories the items live in. Every item's season numbers must
    /// take the configured offset without leaving `i32`.
    pub fn plan(&self, items: &Vec<MediaItem>, listing: &Vec<FsEntry>) -> (r: Vec<RenamePlan>)
        requires
            forall|i: int| 0 <= i < items.len() ==> offsets_fit(#[trigger] items@[i], self.config.season_offset),
        ensures
            exists|renders: Seq<Option<Seq<char>>>|
                renders_ok(self.config, items@, renders) && plans_view(r@) == plan_spec(
                    self.config,
                    items@,
                    listing@,
                    renders,
                ),
    {
        let dps = self.build_directory_plans(items, listing);
        let ghost d = dplans_view(dps@);
        let mut plans: Vec<RenamePlan> = Vec::new();
        let mut assigned: Vec<String> = Vec::new();
        let ghost mut renders: Seq<Option<Seq<char>>> = seq![];
        let mut i: usize = 0;
        assert(plans_view(plans@) =~= Seq::<PlanModel>::empty());
        assert(views(assigned@) =~= Seq::<Seq<char>>::empty());
        while i < items.len()
            invariant
                i <= items.len(),
                d == dplans_view(dps@),
                d == build_dir_plans_spec(items@, listing@),
                forall|j: int| 0 <= j < items.len() ==> offsets_fit(#[trigger] items@[j], self.config.season_offset),
                renders.len() == i,
                forall|j: int|
                    0 <= j < i ==> render_ok(
                        template_for_spec(self.config, #[trigger] items@[j].media_type),
                        template_vars_spec(items@[j], self.config.season_offset),
                        self.config.preserve_media_suffix,
                        renders[j],
                    ),
                plans_view(plans@) == attach_all(
                    base_plans(self.config, items@.take(i as int), listing@, renders),
                    d,
                ),
                views(assigned@) == all_olds(plans_view(plans@)),
            decreases items.len() - i,
        {
            let item = &items[i];
            let template = self.template_for(item);
            let rendered = self.render_template(template.as_str(), item);
            let ghost rv = sv(rendered);
            let ghost before = plans_view(plans@);
            let ghost old_renders = renders;
            proof {
                renders = renders.push(rv);
                let t = items@.take(i + 1);
                assert(t.drop_last() =~= items@.take(i as int));
                assert(t.last() == items@[i as int]);
                assert(renders.take(old_renders.len() as int) =~= old_renders);
                assert forall|n: Seq<MediaItem>| n.len() <= i implies base_plans(
                    self.config,
                    n,
                    listing@,
                    renders,
                ) == base_plans(self.config, n, listing@, old_renders) by {
                    lemma_base_plans_renders(self.config, n, listing@, renders, old_renders);
                }
            }
            match self.plan_one_with(item, rendered, listing) {
                Some(p) => {
                    let attached = attach_dirs(p.old_path.as_str(), &dps);
                    let RenamePlan {
                        old_path,
                        new_path,
                        subtitle_plans,
                        directory_plans,
                        rationale,
                        conflicts,
                    } = p;
                    let ghost attv = dplans_view(attached@);
                    let mut k: usize = 0;
                    let ghost a0 = views(assigned@);
                    while k < attached.len()
                        invariant
                            k <= attached.len(),
                            attv == dplans_view(attached@),
                            views(assigned@) == a0 + olds(attv.take(k as int)),
                        decreases attached.len() - k,
                    {
                        let ghost prev = views(assigned@);
                        assigned.push(owned(attached[k].old_path.as_str()));
                        assert(views(assigned@) =~= prev.push(attached@[k as int].old_path@));
                        assert(attv.take(k + 1) =~= attv.take(k as int).push(dplan_view(attached@[k as int])));
                        assert(olds(attv.take(k + 1)) =~= olds(attv.take(k as int)).push(attached@[k as int].old_path@));
                        assert(views(assigned@) =~= a0 + olds(attv.take(k + 1)));
                        k = k + 1;
                    }
                    assert(attv.take(attached.len() as int) =~= attv);
                    let np = RenamePlan {
                        old_path,
                        new_path,
                        subtitle_plans,
                        directory_plans: attached,
                        rationale,
                        conflicts,
                    };
                    let ghost npv = np@;
                    plans.push(np);
                    proof {
                        let pm = plan_one_from(self.config, items@[i as int], listing@, rv);
                        let b = base_plans(self.config, items@.take(i as int), listing@, old_renders);
                        assert(base_plans(self.config, items@.take(i + 1), listing@, renders) == b + seq![pm->0]);
                        assert((b + seq![pm->0]).drop_last() =~= b);
                        assert(plans_view(plans@) =~= before.push(npv));
                        assert(npv == with_dirs(pm->0, attached_dirs(pm->0.old, d)));
                        assert(plans_view(plans@).drop_last() =~= before);
                    }
                },
                None => {
                    proof {
                        let b = base_plans(self.config, items@.take(i as int), listing@, old_renders);
                        assert(base_plans(self.config, items@.take(i + 1), listing@, renders) =~= b);
                    }
                },
            }
            i = i + 1;
        }
        assert(items@.take(items.len() as int) =~= items@);
        let ghost att = plans_view(plans@);
        let mut j: usize = 0;
        assert(att + unassigned(d.take(0), all_olds(att)) =~= att);
        while j < dps.len()
            invariant
                j <= dps.len(),
                d == dplans_view(dps@),
                views(assigned@) == all_olds(att),
                plans_view(plans@) == att + unassigned(d.take(j as int), all_olds(att)),
            decreases dps.len() - j,
        {
            let ghost before = plans_view(plans@);
            proof {
                let t = d.take(j + 1);
                assert(t.drop_last() =~= d.take(j as int));
                assert(t.last() == dplan_view(dps@[j as int]));
            }
            if !contains_string(&assigned, dps[j].old_path.as_str()) {
                let dp = copy_dplan(&dps[j]);
                let np = RenamePlan {
                    old_path: owned(dps[j].old_path.as_str()),
                    new_path: owned(dps[j].old_path.as_str()),
                    subtitle_plans: Vec::new(),
                    directory_plans: vec![dp],
                    rationale: Vec::new(),
                    conflicts: Vec::new(),
                };
                let ghost npv = np@;
                assert(splans_view(np.subtitle_plans@) =~= Seq::<PathPair>::empty());
                assert(dplans_view(np.directory_plans@) =~= seq![dplan_view(dps@[j as int])]);
                assert(views(np.rationale@) =~= Seq::<Seq<char>>::empty());
                assert(views(np.conflicts@) =~= Seq::<Seq<char>>::empty());
                plans.push(np);
                assert(plans_view(plans@) =~= before.push(npv));
            } else {
                assert(before + Seq::<PlanModel>::empty() =~= before);
            }
            j = j + 1;
        }
        assert(d.take(dps.len() as int) =~= d);
        assert(renders_ok(self.config, items@, renders));
        assert(plans_view(plans@) == plan_spec(self.config, items@, listing@, renders));
        plans
    }
}

proof fn lemma_base_plans_renders(
    config: RenameConfig,
    items: Seq<MediaItem>,
    listing: Seq<FsEntry>,
    r1: Seq<Option<Seq<char>>>,
    r2: Seq<Option<Seq<char>>>,
)
    requires
        items.len() <= r2.len(),
        r2.len() <= r1.len(),
        r1.take(r2.len() as int) == r2,
    ensures
        base_plans(config, items, listing, r1) == base_plans(config, items, listing, r2),
    decreases items.len(),
{
    if items.len() > 0 {
        lemma_base_plans_renders(config, items.drop_last(), listing, r1, r2);
        assert(r1[items.len() - 1] == r1.take(r2.len() as int)[items.len() - 1]);
    }
}

} // verus!
