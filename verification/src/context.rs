//! Filling in what a file name lacks from the names of its directories:
//! season, year and title.
use crate::identify::{matched, parse_num, RE_SPACES};
use crate::media::{copy_parsed, sv, MediaItem, ParsedInfo, ParsedModel};
use crate::paths::file_name_spec;
use crate::regex_calls::{
    capture_rx, is_match_rx, replace_all_rx, replace_first_rx, rx_capture, rx_is_match,
    rx_replace_all, rx_replace_first,
};
use crate::rename::or_empty;
use crate::text::{
    all_ascii, append_chars, chars_of, find_from, find_spec, is_ascii_chars, parse_uint,
    starts_with, starts_with_str, string_of, to_upper, trim, trim_chars, upper, views,
};
use crate::types::{MediaType, ParseSource};
use vstd::prelude::*;

verus! {

// ---------------------------------------------------------------------------
// Episode markers in titles
// ---------------------------------------------------------------------------

/// Number of ASCII digits at `from`, at most `max`.
pub open spec fn digit_run(s: Seq<char>, from: int, max: nat) -> nat
    decreases max,
{
    if max == 0 || from < 0 || from >= s.len() || !('0' <= s[from] && s[from] <= '9') {
        0
    } else {
        1 + digit_run(s, from + 1, (max - 1) as nat)
    }
}

/// `starts_with_episode_marker` on an upper-cased, trimmed title: `S`, one
/// or two digits, `E`, one to three digits.
pub open spec fn marker_spec(u: Seq<char>) -> bool {
    let sd = digit_run(u, 1, 2);
    &&& u.len() >= 4
    &&& u[0] == 'S'
    &&& sd > 0
    &&& 1 + sd < u.len()
    &&& u[1 + sd as int] == 'E'
    &&& digit_run(u, 2 + sd as int, 3) > 0
}

fn digit_run_exec(s: &[char], from: usize, max: usize) -> (n: usize)
    requires
        from <= s.len(),
    ensures
        n == digit_run(s@, from as int, max as nat),
        from + n <= s.len(),
        n <= max,
{
    let mut i: usize = from;
    let mut n: usize = 0;
    while i < s.len() && n < max && '0' <= s[i] && s[i] <= '9'
        invariant
            from <= i <= s.len(),
            n == i - from,
            n <= max,
            digit_run(s@, from as int, max as nat) == n + digit_run(s@, i as int, (max - n) as nat),
        decreases s.len() - i,
    {
        i = i + 1;
        n = n + 1;
    }
    n
}

/// Whether a title starts with an `SxxEyy` marker (case ignored).
pub fn starts_with_episode_marker(title: &str) -> (r: bool)
    ensures
        r == marker_spec(upper(trim(title@))),
{
    let t = chars_of(title);
    let tr = trim_chars(t.as_slice());
    let u = to_upper(tr.as_slice());
    if u.len() < 4 || u[0] != 'S' {
        return false;
    }
    let sd = digit_run_exec(u.as_slice(), 1, 2);
    if sd == 0 || 1 + sd >= u.len() || u[1 + sd] != 'E' {
        return false;
    }
    let ed = digit_run_exec(u.as_slice(), 2 + sd, 3);
    ed > 0
}

// ---------------------------------------------------------------------------
// Noise and directory names
// ---------------------------------------------------------------------------

pub const RE_ONLY_TAGS: &'static str = r"(?ix)
            ^
            [\d\s\.\-_\(\)]*
            (?:
                hq|hdr|dv|dovi|web-?dl|bluray|remux|x26[45]|h\.?26[45]|aac|dts|atmos
                |2160p|1080p|720p
            )+
            [\d\s\.\-_\(\)]*
            $
        ";

pub open spec fn is_ascii_alnum(c: char) -> bool {
    ('0' <= c && c <= '9') || ('a' <= c && c <= 'z') || ('A' <= c && c <= 'Z')
}

pub open spec fn count_alnum(s: Seq<char>) -> nat
    decreases s.len(),
{
    if s.len() == 0 {
        0
    } else {
        count_alnum(s.drop_last()) + if is_ascii_alnum(s.last()) {
            1nat
        } else {
            0nat
        }
    }
}

/// `looks_like_noisy_title`: a trimmed title that starts with `202`, is
/// only release tags, or is ASCII with at most three letters and digits.
pub open spec fn noisy_spec(title: Seq<char>) -> bool {
    let t = trim(title);
    starts_with(t, "202"@) || rx_is_match(RE_ONLY_TAGS@, t) || (all_ascii(t) && count_alnum(t) <= 3)
}

fn count_alnum_exec(s: &[char]) -> (n: usize)
    ensures
        n == count_alnum(s@),
{
    let mut n: usize = 0;
    let mut i: usize = 0;
    while i < s.len()
        invariant
            i <= s.len(),
            n == count_alnum(s@.take(i as int)),
            n <= i,
        decreases s.len() - i,
    {
        let c = s[i];
        proof {
            let t = s@.take(i + 1);
            assert(t.drop_last() =~= s@.take(i as int));
            assert(t.last() == c);
        }
        if ('0' <= c && c <= '9') || ('a' <= c && c <= 'z') || ('A' <= c && c <= 'Z') {
            n = n + 1;
        }
        i = i + 1;
    }
    assert(s@.take(s.len() as int) =~= s@);
    n
}

/// Whether a parsed title is only release noise (see `noisy_spec`).
pub fn looks_like_noisy_title(title: &str) -> (r: bool)
    ensures
        r == noisy_spec(title@),
{
    let v = chars_of(title);
    let t = trim_chars(v.as_slice());
    if starts_with_str(t.as_slice(), "202") {
        return true;
    }
    if is_match_rx(RE_ONLY_TAGS, t.as_slice()) {
        return true;
    }
    is_ascii_chars(t.as_slice()) && count_alnum_exec(t.as_slice()) <= 3
}

pub const RE_JUNK_DIR: &'static str = r"(?ix)
            ^
            (?:
                season\s*\d{1,2} |
                s\d{1,2} |
                e\d{1,3} |
                ep?\d{1,3} |
                complete |
                \d{4} |
                \d{1,3}
            )
            $
        ";

/// `looks_like_real_title_dir`: not hidden and not a season, episode,
/// year or number folder.
pub open spec fn real_title_dir_spec(name: Seq<char>) -> bool {
    !(name.len() > 0 && name[0] == '.') && !rx_is_match(RE_JUNK_DIR@, trim(name))
}

/// Whether a directory name can stand for a title (see `real_title_dir_spec`).
pub fn looks_like_real_title_dir(name: &str) -> (r: bool)
    ensures
        r == real_title_dir_spec(name@),
{
    let v = chars_of(name);
    if v.len() > 0 && v[0] == '.' {
        return false;
    }
    let t = trim_chars(v.as_slice());
    !is_match_rx(RE_JUNK_DIR, t.as_slice())
}

/// `str::replacen(pat, rep, 1)`.
pub open spec fn replace_first_spec(s: Seq<char>, pat: Seq<char>, rep: Seq<char>) -> Seq<char> {
    if pat.len() == 0 {
        rep + s
    } else {
        match find_spec(s, pat, 0) {
            Some(i) => s.take(i) + rep + s.skip(i + pat.len()),
            None => s,
        }
    }
}

fn replace_first_chars(s: &[char], pat: &[char], rep: &[char]) -> (r: Vec<char>)
    ensures
        r@ == replace_first_spec(s@, pat@, rep@),
{
    if pat.len() == 0 {
        let mut r = crate::text::to_vec(rep);
        append_chars(&mut r, s);
        return r;
    }
    match find_from(s, pat, 0) {
        Some(i) => {
            let head = s.split_at(i).0;
            let mut r = crate::text::to_vec(head);
            append_chars(&mut r, rep);
            assert(i + pat.len() <= s.len());
            let tail = s.split_at(i + pat.len()).1;
            append_chars(&mut r, tail);
            assert(head@ =~= s@.take(i as int));
            assert(tail@ =~= s@.skip(i + pat.len()));
            r
        },
        None => crate::text::to_vec(s),
    }
}

pub const RE_CJK_FILLER: &'static str = r"(?P<a>\p{Han})[A-Za-z](?P<b>\p{Han})";

pub const RE_TRAILING_TAGS: &'static str = r"(?ix)
            [\s._-]*
            (?:[\(\[]?\d{4}[\)\]]?)?
            (?:[\s._-]+(?:4k|2160p|1080p|720p|hdr|dv|dovi|高码|低码|web-?dl|bluray|remux|h265|x265|x264|aac|dts|atmos))+
            \s*$
        ";

pub const RE_YEAR_SUFFIX: &'static str = r"\s*[\(\[](\d{4})[\)\]]\s*$";

pub const RE_SEASON_PACK_SUFFIX: &'static str = r"(?i)\s+\d+(?:-\d+)?季(?:全集)?(?:\(\d+\))?\s*$";

pub const RE_PUNCT: &'static str = r"[._]+";

/// A letter between two Han characters removed, again and again (a pass
/// that shortens nothing ends the loop; a match always shortens).
pub open spec fn cjk_fill(s: Seq<char>) -> Seq<char>
    decreases s.len(),
{
    match (
        rx_capture(RE_CJK_FILLER@, s, 0),
        rx_capture(RE_CJK_FILLER@, s, 1),
        rx_capture(RE_CJK_FILLER@, s, 2),
    ) {
        (Some(w), Some(a), Some(b)) => {
            let next = replace_first_spec(s, w, a + b);
            if next.len() < s.len() {
                cjk_fill(next)
            } else {
                s
            }
        },
        _ => s,
    }
}

/// `normalize_title_dir`: a directory name made into a title: Han filler
/// letters, trailing release tags, a trailing year and a season-pack
/// suffix removed, `.` and `_` made spaces, white space collapsed. Nothing
/// for junk folder names, empty results and noise.
pub open spec fn normalize_title_dir_spec(name: Seq<char>) -> Option<Seq<char>> {
    if !real_title_dir_spec(name) {
        None
    } else {
        let c0 = cjk_fill(trim(name));
        let c1 = rx_replace_first(RE_TRAILING_TAGS@, c0, ""@);
        let c2 = rx_replace_first(RE_YEAR_SUFFIX@, c1, ""@);
        let c3 = rx_replace_first(RE_SEASON_PACK_SUFFIX@, c2, ""@);
        let c4 = rx_replace_all(RE_PUNCT@, c3, " "@);
        let c5 = trim(rx_replace_all(RE_SPACES@, c4, " "@));
        if c5.len() == 0 || noisy_spec(c5) {
            None
        } else {
            Some(c5)
        }
    }
}

fn cjk_fill_exec(s: Vec<char>) -> (r: Vec<char>)
    ensures
        r@ == cjk_fill(s@),
{
    let mut cur = s;
    loop
        invariant
            cjk_fill(s@) == cjk_fill(cur@),
        decreases cur@.len(),
    {
        let w = capture_rx(RE_CJK_FILLER, cur.as_slice(), 0);
        let a = capture_rx(RE_CJK_FILLER, cur.as_slice(), 1);
        let b = capture_rx(RE_CJK_FILLER, cur.as_slice(), 2);
        match (w, a, b) {
            (Some(w), Some(a), Some(b)) => {
                let mut ab = a;
                append_chars(&mut ab, b.as_slice());
                let next = replace_first_chars(cur.as_slice(), w.as_slice(), ab.as_slice());
                if next.len() < cur.len() {
                    cur = next;
                } else {
                    return cur;
                }
            },
            _ => {
                return cur;
            },
        }
    }
}

/// The title a directory name stands for, cleaned (see `normalize_title_dir_spec`).
pub fn normalize_title_dir(name: &str) -> (r: Option<String>)
    ensures
        sv(r) == normalize_title_dir_spec(name@),
{
    if !looks_like_real_title_dir(name) {
        return None;
    }
    let v = chars_of(name);
    let t = trim_chars(v.as_slice());
    let c0 = cjk_fill_exec(t);
    let c1 = replace_first_rx(RE_TRAILING_TAGS, c0.as_slice(), "");
    let c2 = replace_first_rx(RE_YEAR_SUFFIX, c1.as_slice(), "");
    let c3 = replace_first_rx(RE_SEASON_PACK_SUFFIX, c2.as_slice(), "");
    let c4 = replace_all_rx(RE_PUNCT, c3.as_slice(), " ");
    let c5a = replace_all_rx(RE_SPACES, c4.as_slice(), " ");
    let c5 = trim_chars(c5a.as_slice());
    let out = string_of(c5.as_slice());
    if c5.len() == 0 || looks_like_noisy_title(out.as_str()) {
        None
    } else {
        Some(out)
    }
}

// ---------------------------------------------------------------------------
// Placeholder titles
// ---------------------------------------------------------------------------

pub const RE_PLACEHOLDER_EXACT: &'static str = r"(?ix)
            ^
            (?:
                s\d{1,2}(?:e\d{1,3})? |
                e\d{1,3} |
                ep?\d{1,3} |
                \d{1,3}
            )
            (?:\s*\(\d+\))?
            $
        ";

pub const RE_PLACEHOLDER_PREFIX: &'static str = r"(?ix)
            ^
            (?:
                s\d{1,2}e\d{1,3} |
                e\d{1,3} |
                ep?\d{1,3}
            )
            (?:
                [\s._-]+.*
            )?
            $
        ";

pub const RE_EP_MARKER_WITH_SUFFIX: &'static str = r"(?i)^s\d{1,2}e\d{1,3}(?:[.\s_-].*)?$";

/// `should_infer_title_from_parent`: the title is empty, a placeholder
/// (`S01E02`, `E05`, `03`, ...), starts with an episode marker, or is
/// noise.
pub open spec fn should_infer_spec(title: Seq<char>) -> bool {
    let t = trim(title);
    t.len() == 0 || rx_is_match(RE_PLACEHOLDER_EXACT@, t) || rx_is_match(RE_PLACEHOLDER_PREFIX@, t)
        || rx_is_match(RE_EP_MARKER_WITH_SUFFIX@, t) || marker_spec(upper(trim(t))) || noisy_spec(
        t,
    )
}

/// Whether a parsed title is weak enough to be taken from the parent directories.
pub fn should_infer_title_from_parent(title: &str) -> (r: bool)
    ensures
        r == should_infer_spec(title@),
{
    let v = chars_of(title);
    let t = trim_chars(v.as_slice());
    if t.len() == 0 {
        return true;
    }
    let ts = string_of(t.as_slice());
    is_match_rx(RE_PLACEHOLDER_EXACT, t.as_slice()) || is_match_rx(
        RE_PLACEHOLDER_PREFIX,
        t.as_slice(),
    ) || is_match_rx(RE_EP_MARKER_WITH_SUFFIX, t.as_slice()) || starts_with_episode_marker(
        ts.as_str(),
    ) || looks_like_noisy_title(ts.as_str())
}

pub const RE_TITLE_SEASON_EPISODE: &'static str = r"(?i)^S(?P<season>\d{1,2})E(?P<episode>\d{1,3})(?:[\s._-].*|\s*\(\d+\))?$";

pub const RE_TITLE_EPISODE_ONLY: &'static str = r"(?i)^(?:E|EP)?(?P<episode>\d{1,3})(?:[\s._-].*|\s*\(\d+\))?$";

pub open spec fn u32_of(o: Option<Seq<char>>) -> Option<u32> {
    match parse_num(o, 0xffff_ffff) {
        Some(v) => Some(v as u32),
        None => None,
    }
}

/// `fill_episode_markers_from_title`: a title such as `S07E02` or `01`
/// gives the episode (and a season not yet known), when the episode is not
/// known.
pub open spec fn fill_markers_spec(p: ParsedModel) -> ParsedModel {
    let t = trim(p.raw_title);
    if p.episode is Some {
        p
    } else if matched(RE_TITLE_SEASON_EPISODE@, t) {
        ParsedModel {
            season: match p.season {
                Some(s) => Some(s),
                None => u32_of(rx_capture(RE_TITLE_SEASON_EPISODE@, t, 1)),
            },
            episode: u32_of(rx_capture(RE_TITLE_SEASON_EPISODE@, t, 2)),
            ..p
        }
    } else if matched(RE_TITLE_EPISODE_ONLY@, t) {
        ParsedModel { episode: u32_of(rx_capture(RE_TITLE_EPISODE_ONLY@, t, 1)), ..p }
    } else {
        p
    }
}

fn u32_capture(re: &str, t: &[char], group: usize) -> (r: Option<u32>)
    ensures
        r == u32_of(rx_capture(re@, t@, group as nat)),
{
    match capture_rx(re, t, group) {
        Some(m) => match parse_uint(m.as_slice(), 0xffff_ffff) {
            Some(v) => Some(v as u32),
            None => None,
        },
        None => None,
    }
}

fn is_matched(re: &str, t: &[char]) -> (r: bool)
    ensures
        r == matched(re@, t@),
{
    capture_rx(re, t, 0).is_some()
}

fn fill_episode_markers_from_title(parsed: &mut ParsedInfo)
    ensures
        final(parsed)@ == fill_markers_spec(old(parsed)@),
{
    if parsed.episode.is_some() {
        return ;
    }
    let v = chars_of(parsed.raw_title.as_str());
    let t = trim_chars(v.as_slice());
    if is_matched(RE_TITLE_SEASON_EPISODE, t.as_slice()) {
        if parsed.season.is_none() {
            parsed.season = u32_capture(RE_TITLE_SEASON_EPISODE, t.as_slice(), 1);
        }
        parsed.episode = u32_capture(RE_TITLE_SEASON_EPISODE, t.as_slice(), 2);
    } else if is_matched(RE_TITLE_EPISODE_ONLY, t.as_slice()) {
        parsed.episode = u32_capture(RE_TITLE_EPISODE_ONLY, t.as_slice(), 1);
    }
}

// ---------------------------------------------------------------------------
// Inference from directories
// ---------------------------------------------------------------------------

pub const RE_SEASON_DIR: &'static str = r"(?i)Season\s*(\d{1,2})|S(\d{1,2})\s*$";

pub const RE_YEAR_DIR: &'static str = r"[\[(\s](\d{4})[\])\s]";

pub open spec fn dir_name(d: Seq<char>) -> Seq<char> {
    or_empty(file_name_spec(d))
}

/// The season a directory name gives (`Season 1`, `S01`).
pub open spec fn season_in(name: Seq<char>) -> Option<u32> {
    if matched(RE_SEASON_DIR@, name) {
        let g = if rx_capture(RE_SEASON_DIR@, name, 1) is Some {
            rx_capture(RE_SEASON_DIR@, name, 1)
        } else {
            rx_capture(RE_SEASON_DIR@, name, 2)
        };
        u32_of(g)
    } else {
        None
    }
}

/// The year in 1900..=2030 a directory name gives (`(2023)`, `[2023]`).
pub open spec fn year_in(name: Seq<char>) -> Option<u16> {
    if matched(RE_YEAR_DIR@, name) {
        match parse_num(rx_capture(RE_YEAR_DIR@, name, 1), 65535) {
            Some(y) => if 1900 <= y && y <= 2030 {
                Some(y as u16)
            } else {
                None
            },
            None => None,
        }
    } else {
        None
    }
}

pub open spec fn first_season(dirs: Seq<Seq<char>>) -> Option<u32>
    decreases dirs.len(),
{
    if dirs.len() == 0 {
        None
    } else {
        match season_in(dir_name(dirs[0])) {
            Some(s) => Some(s),
            None => first_season(dirs.drop_first()),
        }
    }
}

pub open spec fn first_year(dirs: Seq<Seq<char>>) -> Option<u16>
    decreases dirs.len(),
{
    if dirs.len() == 0 {
        None
    } else {
        match year_in(dir_name(dirs[0])) {
            Some(y) => Some(y),
            None => first_year(dirs.drop_first()),
        }
    }
}

pub open spec fn first_title(dirs: Seq<Seq<char>>) -> Option<Seq<char>>
    decreases dirs.len(),
{
    if dirs.len() == 0 {
        None
    } else {
        match normalize_title_dir_spec(dir_name(dirs[0])) {
            Some(t) => Some(t),
            None => first_title(dirs.drop_first()),
        }
    }
}

pub open spec fn first_k(dirs: Seq<Seq<char>>, k: int) -> Seq<Seq<char>> {
    if dirs.len() <= k {
        dirs
    } else {
        dirs.take(k)
    }
}

/// A source that is no longer the regular expressions becomes `Context`.
pub open spec fn context_source(p: ParseSource) -> ParseSource {
    if p == ParseSource::Regex {
        ParseSource::Regex
    } else {
        ParseSource::Context
    }
}

/// `ContextInfer::infer`: episode markers read from the title, the title
/// cleaned like a folder name, a missing season and year taken from the
/// nearest three directories, and a placeholder title replaced by the
/// first of the nearest two directories that names something.
pub open spec fn infer_spec(p: ParsedModel, dirs: Seq<Seq<char>>) -> ParsedModel {
    let r1 = fill_markers_spec(p);
    let r2 = match normalize_title_dir_spec(r1.raw_title) {
        Some(c) => ParsedModel { raw_title: c, ..r1 },
        None => r1,
    };
    let r3 = if r2.season is None {
        match first_season(first_k(dirs, 3)) {
            Some(s) => ParsedModel {
                season: Some(s),
                parse_source: context_source(r2.parse_source),
                ..r2
            },
            None => r2,
        }
    } else {
        r2
    };
    let r4 = if r3.year is None {
        match first_year(first_k(dirs, 3)) {
            Some(y) => ParsedModel { year: Some(y), parse_source: context_source(r3.parse_source), ..r3 },
            None => r3,
        }
    } else {
        r3
    };
    if should_infer_spec(r4.raw_title) {
        match first_title(first_k(dirs, 2)) {
            Some(t) => ParsedModel { raw_title: t, parse_source: ParseSource::Context, ..r4 },
            None => r4,
        }
    } else {
        r4
    }
}

proof fn lemma_first_year_at(ds: Seq<Seq<char>>, i: int)
    requires
        0 <= i < ds.len(),
        year_in(dir_name(ds[i])) is Some,
        forall|j: int| 0 <= j < i ==> year_in(dir_name(#[trigger] ds[j])) is None,
    ensures
        first_year(ds) == year_in(dir_name(ds[i])),
    decreases i,
{
    if i > 0 {
        let t = ds.drop_first();
        assert forall|j: int| 0 <= j < i - 1 implies year_in(dir_name(#[trigger] t[j])) is None by {
            assert(t[j] == ds[j + 1]);
        }
        assert(year_in(dir_name(ds[0])) is None);
        lemma_first_year_at(t, i - 1);
    }
}

proof fn lemma_first_year_none(ds: Seq<Seq<char>>)
    requires
        forall|j: int| 0 <= j < ds.len() ==> year_in(dir_name(#[trigger] ds[j])) is None,
    ensures
        first_year(ds) is None,
    decreases ds.len(),
{
    if ds.len() > 0 {
        let t = ds.drop_first();
        assert forall|j: int| 0 <= j < t.len() implies year_in(dir_name(#[trigger] t[j])) is None by {
            assert(t[j] == ds[j + 1]);
        }
        assert(year_in(dir_name(ds[0])) is None);
        lemma_first_year_none(t);
    }
}

proof fn lemma_first_season_at(ds: Seq<Seq<char>>, i: int)
    requires
        0 <= i < ds.len(),
        season_in(dir_name(ds[i])) is Some,
        forall|j: int| 0 <= j < i ==> season_in(dir_name(#[trigger] ds[j])) is None,
    ensures
        first_season(ds) == season_in(dir_name(ds[i])),
    decreases i,
{
    if i > 0 {
        let t = ds.drop_first();
        assert forall|j: int| 0 <= j < i - 1 implies season_in(dir_name(#[trigger] t[j])) is None by {
            assert(t[j] == ds[j + 1]);
        }
        assert(season_in(dir_name(ds[0])) is None);
        lemma_first_season_at(t, i - 1);
    }
}

/// A missing season is taken from the three nearest directories (`Season
/// 1`, `S01`, ...): the season the nearest of them that names one gives,
/// when the title carries no season marker of its own; a season the name
/// already gave is kept.
pub proof fn lemma_season_from_nearest_dirs(p: ParsedModel, dirs: Seq<Seq<char>>)
    ensures
        p.season is Some ==> infer_spec(p, dirs).season == p.season,
        p.season is None && (p.episode is Some || !matched(
            RE_TITLE_SEASON_EPISODE@,
            trim(p.raw_title),
        )) ==> forall|i: int|
            0 <= i < 3 && i < dirs.len() && season_in(dir_name(#[trigger] dirs[i])) is Some && (
            forall|j: int| 0 <= j < i ==> season_in(dir_name(dirs[j])) is None) ==> infer_spec(
                p,
                dirs,
            ).season == season_in(dir_name(dirs[i])),
{
    let k = first_k(dirs, 3);
    assert forall|j: int| 0 <= j < k.len() implies #[trigger] k[j] == dirs[j] by {}
    if p.season is None && (p.episode is Some || !matched(RE_TITLE_SEASON_EPISODE@, trim(p.raw_title))) {
        assert(fill_markers_spec(p).season is None);
        assert forall|i: int|
            0 <= i < 3 && i < dirs.len() && season_in(dir_name(#[trigger] dirs[i])) is Some && (
            forall|j: int| 0 <= j < i ==> season_in(dir_name(dirs[j])) is None) implies infer_spec(
                p,
                dirs,
            ).season == season_in(dir_name(dirs[i])) by {
            assert forall|j: int| 0 <= j < i implies season_in(dir_name(#[trigger] k[j])) is None by {
                assert(k[j] == dirs[j]);
            }
            assert(k[i] == dirs[i]);
            lemma_first_season_at(k, i);
        }
    }
}

/// A missing year is taken from the three nearest directories: the year
/// (1900 to 2030) named by the nearest of them that names one; a year the
/// name already gave is kept; with no such directory it stays missing.
pub proof fn lemma_year_from_nearest_dirs(p: ParsedModel, dirs: Seq<Seq<char>>)
    ensures
        p.year is Some ==> infer_spec(p, dirs).year == p.year,
        p.year is None ==> forall|i: int|
            0 <= i < 3 && i < dirs.len() && year_in(dir_name(#[trigger] dirs[i])) is Some && (
            forall|j: int| 0 <= j < i ==> year_in(dir_name(dirs[j])) is None) ==> infer_spec(
                p,
                dirs,
            ).year == year_in(dir_name(dirs[i])),
        p.year is None && (forall|j: int|
            0 <= j < 3 && j < dirs.len() ==> year_in(dir_name(#[trigger] dirs[j])) is None)
            ==> infer_spec(p, dirs).year is None,
{
    let k = first_k(dirs, 3);
    assert(fill_markers_spec(p).year == p.year);
    assert forall|j: int| 0 <= j < k.len() implies #[trigger] k[j] == dirs[j] by {}
    if p.year is None {
        assert forall|i: int|
            0 <= i < 3 && i < dirs.len() && year_in(dir_name(#[trigger] dirs[i])) is Some && (
            forall|j: int| 0 <= j < i ==> year_in(dir_name(dirs[j])) is None) implies infer_spec(
                p,
                dirs,
            ).year == year_in(dir_name(dirs[i])) by {
            assert forall|j: int| 0 <= j < i implies year_in(dir_name(#[trigger] k[j])) is None by {
                assert(k[j] == dirs[j]);
            }
            assert(k[i] == dirs[i]);
            lemma_first_year_at(k, i);
        }
        if forall|j: int| 0 <= j < 3 && j < dirs.len() ==> year_in(dir_name(#[trigger] dirs[j])) is None {
            assert forall|j: int| 0 <= j < k.len() implies year_in(dir_name(#[trigger] k[j])) is None by {
                assert(k[j] == dirs[j]);
            }
            lemma_first_year_none(k);
        }
    }
}

fn dir_name_exec(d: &str) -> (r: String)
    ensures
        r@ == dir_name(d@),
{
    match crate::paths::file_name(d) {
        Some(n) => n,
        None => String::new(),
    }
}

fn season_in_exec(name: &str) -> (r: Option<u32>)
    ensures
        r == season_in(name@),
{
    let v = chars_of(name);
    if !is_matched(RE_SEASON_DIR, v.as_slice()) {
        return None;
    }
    let g = match capture_rx(RE_SEASON_DIR, v.as_slice(), 1) {
        Some(m) => Some(m),
        None => capture_rx(RE_SEASON_DIR, v.as_slice(), 2),
    };
    match g {
        Some(m) => match parse_uint(m.as_slice(), 0xffff_ffff) {
            Some(x) => Some(x as u32),
            None => None,
        },
        None => None,
    }
}

fn year_in_exec(name: &str) -> (r: Option<u16>)
    ensures
        r == year_in(name@),
{
    let v = chars_of(name);
    if !is_matched(RE_YEAR_DIR, v.as_slice()) {
        return None;
    }
    match capture_rx(RE_YEAR_DIR, v.as_slice(), 1) {
        Some(m) => match parse_uint(m.as_slice(), 65535) {
            Some(y) => if 1900 <= y && y <= 2030 {
                Some(y as u16)
            } else {
                None
            },
            None => None,
        },
        None => None,
    }
}

fn first_season_exec(dirs: &Vec<String>, n: usize) -> (r: Option<u32>)
    requires
        n <= dirs.len(),
    ensures
        r == first_season(views(dirs@).take(n as int)),
{
    let ghost t = views(dirs@).take(n as int);
    let mut i: usize = 0;
    assert(t.skip(0) =~= t);
    while i < n
        invariant
            i <= n,
            n <= dirs.len(),
            t == views(dirs@).take(n as int),
            first_season(t) == first_season(t.skip(i as int)),
        decreases n - i,
    {
        let name = dir_name_exec(dirs[i].as_str());
        assert(t.skip(i as int)[0] == dirs@[i as int]@);
        assert(t.skip(i as int).drop_first() =~= t.skip(i + 1));
        match season_in_exec(name.as_str()) {
            Some(s) => {
                return Some(s);
            },
            None => {},
        }
        i = i + 1;
    }
    assert(t.skip(n as int) =~= Seq::<Seq<char>>::empty());
    None
}

fn first_year_exec(dirs: &Vec<String>, n: usize) -> (r: Option<u16>)
    requires
        n <= dirs.len(),
    ensures
        r == first_year(views(dirs@).take(n as int)),
{
    let ghost t = views(dirs@).take(n as int);
    let mut i: usize = 0;
    assert(t.skip(0) =~= t);
    while i < n
        invariant
            i <= n,
            n <= dirs.len(),
            t == views(dirs@).take(n as int),
            first_year(t) == first_year(t.skip(i as int)),
        decreases n - i,
    {
        let name = dir_name_exec(dirs[i].as_str());
        assert(t.skip(i as int)[0] == dirs@[i as int]@);
        assert(t.skip(i as int).drop_first() =~= t.skip(i + 1));
        match year_in_exec(name.as_str()) {
            Some(y) => {
                return Some(y);
            },
            None => {},
        }
        i = i + 1;
    }
    assert(t.skip(n as int) =~= Seq::<Seq<char>>::empty());
    None
}

fn first_title_exec(dirs: &Vec<String>, n: usize) -> (r: Option<String>)
    requires
        n <= dirs.len(),
    ensures
        sv(r) == first_title(views(dirs@).take(n as int)),
{
    let ghost t = views(dirs@).take(n as int);
    let mut i: usize = 0;
    assert(t.skip(0) =~= t);
    while i < n
        invariant
            i <= n,
            n <= dirs.len(),
            t == views(dirs@).take(n as int),
            first_title(t) == first_title(t.skip(i as int)),
        decreases n - i,
    {
        let name = dir_name_exec(dirs[i].as_str());
        assert(t.skip(i as int)[0] == dirs@[i as int]@);
        assert(t.skip(i as int).drop_first() =~= t.skip(i + 1));
        match normalize_title_dir(name.as_str()) {
            Some(x) => {
                return Some(x);
            },
            None => {},
        }
        i = i + 1;
    }
    assert(t.skip(n as int) =~= Seq::<Seq<char>>::empty());
    None
}

/// Collects parent directories and fills in what they tell.
pub struct ContextInfer;

impl ContextInfer {
    /// At most `max` parent directories of a path, nearest first.
    pub fn collect_parent_dirs(path: &str, max: usize) -> (r: Vec<String>)
        ensures
            views(r@) == crate::paths::ancestors(path@, max as nat),
    {
        crate::paths::collect_parent_dirs(path, max)
    }

    /// The parse result completed from the parent directories (see
    /// `infer_spec`).
    pub fn infer(parsed: &ParsedInfo, parent_dirs: &Vec<String>) -> (r: ParsedInfo)
        ensures
            r@ == infer_spec(parsed@, views(parent_dirs@)),
    {
        let ghost dirs = views(parent_dirs@);
        let mut result = copy_parsed(parsed);
        fill_episode_markers_from_title(&mut result);
        match normalize_title_dir(result.raw_title.as_str()) {
            Some(c) => {
                result.raw_title = c;
            },
            None => {},
        }
        let n3 = if parent_dirs.len() < 3 {
            parent_dirs.len()
        } else {
            3
        };
        assert(first_k(dirs, 3) =~= dirs.take(n3 as int));
        if result.season.is_none() {
            match first_season_exec(parent_dirs, n3) {
                Some(s) => {
                    result.season = Some(s);
                    if result.parse_source != ParseSource::Regex {
                        result.parse_source = ParseSource::Context;
                    }
                },
                None => {},
            }
        }
        if result.year.is_none() {
            match first_year_exec(parent_dirs, n3) {
                Some(y) => {
                    result.year = Some(y);
                    if result.parse_source != ParseSource::Regex {
                        result.parse_source = ParseSource::Context;
                    }
                },
                None => {},
            }
        }
        if should_infer_title_from_parent(result.raw_title.as_str()) {
            let n2 = if parent_dirs.len() < 2 {
                parent_dirs.len()
            } else {
                2
            };
            assert(first_k(dirs, 2) =~= dirs.take(n2 as int));
            match first_title_exec(parent_dirs, n2) {
                Some(t) => {
                    result.raw_title = t;
                    result.parse_source = ParseSource::Context;
                },
                None => {},
            }
        }
        result
    }

    /// Completes an item's parse result from its three nearest directories;
    /// an item that turns out to have a season or episode is a show.
    pub fn enrich_item(item: &mut MediaItem)
        ensures
            match old(item).parsed {
                Some(p) => {
                    let inferred = infer_spec(p@, crate::paths::ancestors(old(item).path@, 3));
                    &&& final(item).parsed matches Some(q) && q@ == inferred
                    &&& final(item).media_type == (if inferred.season is Some
                        || inferred.episode is Some {
                        MediaType::TvShow
                    } else {
                        old(item).media_type
                    })
                },
                None => final(item).parsed is None && final(item).media_type == old(
                    item,
                ).media_type,
            },
            final(item).path@ == old(item).path@,
    {
        let inferred = match &item.parsed {
            Some(p) => {
                let dirs = Self::collect_parent_dirs(item.path.as_str(), 3);
                Self::infer(p, &dirs)
            },
            None => return ,
        };
        if inferred.season.is_some() || inferred.episode.is_some() {
            item.media_type = MediaType::TvShow;
        }
        item.parsed = Some(inferred);
    }
}

} // verus!
