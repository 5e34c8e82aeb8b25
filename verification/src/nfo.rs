//! NFO metadata files (Kodi / Jellyfin / Emby XML): writing and reading.
use crate::text::{
    append_chars, append_str, chars_of, decimal, decimal_of, find_from, find_spec, has_char,
    occurs_at, string_of, to_lower, to_vec, trim, trim_chars, views, lower, lemma_find_spec,
    parse_uint, parse_uint_spec, contains, contains_str,
};
use crate::types::MediaType;
use vstd::prelude::*;
use vstd::seq_lib::lemma_concat_associative;

verus! {

// ---------------------------------------------------------------------------
// XML escaping
// ---------------------------------------------------------------------------

/// The XML text for one character: the five predefined entities.
pub open spec fn xml_entity(c: char) -> Seq<char> {
    if c == '&' {
        seq!['&', 'a', 'm', 'p', ';']
    } else if c == '<' {
        seq!['&', 'l', 't', ';']
    } else if c == '>' {
        seq!['&', 'g', 't', ';']
    } else if c == '"' {
        seq!['&', 'q', 'u', 'o', 't', ';']
    } else if c == '\'' {
        seq!['&', 'a', 'p', 'o', 's', ';']
    } else {
        seq![c]
    }
}

/// `escape_xml`: each character replaced by its XML text.
pub open spec fn escape_xml_spec(s: Seq<char>) -> Seq<char>
    decreases s.len(),
{
    if s.len() == 0 {
        seq![]
    } else {
        escape_xml_spec(s.drop_last()) + xml_entity(s.last())
    }
}

/// The XML escape of some characters.
pub fn escape_xml_chars(s: &[char]) -> (r: Vec<char>)
    ensures
        r@ == escape_xml_spec(s@),
{
    let mut r: Vec<char> = Vec::new();
    let mut i: usize = 0;
    while i < s.len()
        invariant
            i <= s.len(),
            r@ == escape_xml_spec(s@.take(i as int)),
        decreases s.len() - i,
    {
        let c = s[i];
        if c == '&' {
            r.push('&');
            r.push('a');
            r.push('m');
            r.push('p');
            r.push(';');
        } else if c == '<' {
            r.push('&');
            r.push('l');
            r.push('t');
            r.push(';');
        } else if c == '>' {
            r.push('&');
            r.push('g');
            r.push('t');
            r.push(';');
        } else if c == '"' {
            r.push('&');
            r.push('q');
            r.push('u');
            r.push('o');
            r.push('t');
            r.push(';');
        } else if c == '\'' {
            r.push('&');
            r.push('a');
            r.push('p');
            r.push('o');
            r.push('s');
            r.push(';');
        } else {
            r.push(c);
        }
        assert(s@.take(i + 1).drop_last() =~= s@.take(i as int));
        i = i + 1;
        assert(r@ =~= escape_xml_spec(s@.take(i as int)));
    }
    assert(s@.take(s.len() as int) =~= s@);
    r
}

/// Escapes `&`, `<`, `>`, `"` and `'` for XML text.
pub fn escape_xml(value: &str) -> (r: String)
    ensures
        r@ == escape_xml_spec(value@),
{
    let v = chars_of(value);
    let r = escape_xml_chars(v.as_slice());
    string_of(r.as_slice())
}

/// Escaped text holds none of the characters that XML markup reserves.
pub proof fn lemma_escape_xml_has_no_markup(s: Seq<char>)
    ensures
        !escape_xml_spec(s).contains('<'),
        !escape_xml_spec(s).contains('>'),
        !escape_xml_spec(s).contains('"'),
        !escape_xml_spec(s).contains('\''),
    decreases s.len(),
{
    if s.len() > 0 {
        lemma_escape_xml_has_no_markup(s.drop_last());
        let a = escape_xml_spec(s.drop_last());
        let b = xml_entity(s.last());
        assert forall|c: char| c == '<' || c == '>' || c == '"' || c == '\'' implies !(a
            + b).contains(c) by {
            if (a + b).contains(c) {
                let k = choose|k: int| 0 <= k < (a + b).len() && (a + b)[k] == c;
                if k < a.len() {
                    assert(a[k] == c);
                } else {
                    assert(b[k - a.len()] == c);
                }
            }
        }
    }
}

// ---------------------------------------------------------------------------
// Writing
// ---------------------------------------------------------------------------

/// Everything an NFO document is written from: the scraped metadata of one
/// item, its media type and the two runtimes the prober and the content
/// probe measured. `rating_text` is the rating already formatted with one
/// decimal.
pub struct NfoSource {
    pub media_type: MediaType,
    pub title: String,
    pub title_original: Option<String>,
    pub year: Option<u16>,
    pub overview: Option<String>,
    pub rating_text: Option<String>,
    pub season_number: Option<u32>,
    pub episode_number: Option<u32>,
    pub episode_name: Option<String>,
    pub poster_url: Option<String>,
    pub fanart_url: Option<String>,
    pub artist: Option<String>,
    pub album: Option<String>,
    pub tmdb_id: Option<u64>,
    pub musicbrainz_id: Option<String>,
    pub openlibrary_id: Option<String>,
    pub duration_secs: Option<u64>,
    pub evidence_runtime_secs: Option<u64>,
}

/// `  <tag>value</tag>`
pub open spec fn element_line(tag: Seq<char>, value: Seq<char>) -> Seq<char> {
    "  <"@ + tag + ">"@ + value + "</"@ + tag + ">"@
}

/// Lines `push_text` adds: one element when the trimmed value is not empty.
#[verifier::opaque]
pub open spec fn text_lines(tag: Seq<char>, value: Option<Seq<char>>) -> Seq<Seq<char>> {
    match value {
        Some(v) => if trim(v).len() > 0 {
            seq![element_line(tag, escape_xml_spec(trim(v)))]
        } else {
            seq![]
        },
        None => seq![],
    }
}

/// Lines `push_numeric` adds: one element whenever a value is present.
#[verifier::opaque]
pub open spec fn numeric_lines(tag: Seq<char>, value: Option<Seq<char>>) -> Seq<Seq<char>> {
    match value {
        Some(v) => seq![element_line(tag, escape_xml_spec(trim(v)))],
        None => seq![],
    }
}

/// Lines `push_year_fields` adds.
#[verifier::opaque]
pub open spec fn year_lines(year: Option<u16>) -> Seq<Seq<char>> {
    match year {
        Some(y) => seq![
            "  <year>"@ + decimal(y as nat) + "</year>"@,
            "  <premiered>"@ + decimal(y as nat) + "-01-01</premiered>"@,
        ],
        None => seq![],
    }
}

/// Lines `push_fanart` adds.
#[verifier::opaque]
pub open spec fn fanart_lines(url: Option<Seq<char>>) -> Seq<Seq<char>> {
    match url {
        Some(u) => if trim(u).len() > 0 {
            seq![
                "  <fanart>"@,
                "    <thumb>"@ + escape_xml_spec(trim(u)) + "</thumb>"@,
                "  </fanart>"@,
            ]
        } else {
            seq![]
        },
        None => seq![],
    }
}

/// The runtime in seconds an NFO reports: the prober's, else the content
/// probe's.
pub open spec fn runtime_secs(duration: Option<u64>, evidence: Option<u64>) -> Option<u64> {
    match duration {
        Some(d) => Some(d),
        None => evidence,
    }
}

/// Lines `push_runtime` adds: whole minutes, at least one.
#[verifier::opaque]
pub open spec fn runtime_lines(duration: Option<u64>, evidence: Option<u64>) -> Seq<Seq<char>> {
    match runtime_secs(duration, evidence) {
        Some(s) => {
            let mins = if s / 60 >= 1 {
                s / 60
            } else {
                1
            };
            seq!["  <runtime>"@ + decimal(mins as nat) + "</runtime>"@]
        },
        None => seq![],
    }
}

/// Lines `push_unique_ids` adds.
#[verifier::opaque]
pub open spec fn unique_id_lines(
    tmdb: Option<u64>,
    musicbrainz: Option<Seq<char>>,
    openlibrary: Option<Seq<char>>,
) -> Seq<Seq<char>> {
    (match tmdb {
        Some(id) => seq![
            "  <uniqueid type=\"tmdb\" default=\"true\">"@ + decimal(id as nat) + "</uniqueid>"@,
        ],
        None => seq![],
    }) + (match musicbrainz {
        Some(id) => seq![
            "  <uniqueid type=\"musicbrainz\">"@ + escape_xml_spec(id) + "</uniqueid>"@,
        ],
        None => seq![],
    }) + (match openlibrary {
        Some(id) => seq![
            "  <uniqueid type=\"openlibrary\">"@ + escape_xml_spec(id) + "</uniqueid>"@,
        ],
        None => seq![],
    })
}

pub open spec fn xml_header() -> Seq<char> {
    "<?xml version=\"1.0\" encoding=\"UTF-8\" standalone=\"yes\"?>"@
}

pub open spec fn ids_of(s: NfoSource) -> Seq<Seq<char>> {
    unique_id_lines(s.tmdb_id, s.musicbrainz_id.deep_view(), s.openlibrary_id.deep_view())
}

/// Lines of the `<movie>` document.
pub open spec fn movie_lines(s: NfoSource) -> Seq<Seq<char>> {
    seq!["<movie>"@] + text_lines("title"@, Some(s.title@)) + text_lines(
        "originaltitle"@,
        s.title_original.deep_view(),
    ) + year_lines(s.year) + numeric_lines("rating"@, s.rating_text.deep_view()) + text_lines(
        "plot"@,
        s.overview.deep_view(),
    ) + runtime_lines(s.duration_secs, s.evidence_runtime_secs) + text_lines(
        "thumb"@,
        s.poster_url.deep_view(),
    ) + fanart_lines(s.fanart_url.deep_view()) + ids_of(s) + seq!["</movie>"@]
}

/// Lines of the `<episodedetails>` document.
pub open spec fn episode_lines(s: NfoSource) -> Seq<Seq<char>> {
    seq!["<episodedetails>"@] + text_lines(
        "title"@,
        match s.episode_name.deep_view() {
            Some(n) => Some(n),
            None => Some(s.title@),
        },
    ) + text_lines("showtitle"@, Some(s.title@)) + text_lines(
        "originaltitle"@,
        s.title_original.deep_view(),
    ) + numeric_lines(
        "season"@,
        match s.season_number {
            Some(n) => Some(decimal(n as nat)),
            None => None,
        },
    ) + numeric_lines(
        "episode"@,
        match s.episode_number {
            Some(n) => Some(decimal(n as nat)),
            None => None,
        },
    ) + year_lines(s.year) + text_lines("plot"@, s.overview.deep_view()) + numeric_lines(
        "rating"@,
        s.rating_text.deep_view(),
    ) + runtime_lines(s.duration_secs, s.evidence_runtime_secs) + text_lines(
        "thumb"@,
        s.poster_url.deep_view(),
    ) + ids_of(s) + seq!["</episodedetails>"@]
}

/// Lines of the `<tvshow>` document.
pub open spec fn tvshow_lines(s: NfoSource) -> Seq<Seq<char>> {
    seq!["<tvshow>"@] + text_lines("title"@, Some(s.title@)) + text_lines(
        "originaltitle"@,
        s.title_original.deep_view(),
    ) + year_lines(s.year) + text_lines("plot"@, s.overview.deep_view()) + numeric_lines(
        "rating"@,
        s.rating_text.deep_view(),
    ) + runtime_lines(s.duration_secs, s.evidence_runtime_secs) + text_lines(
        "thumb"@,
        s.poster_url.deep_view(),
    ) + fanart_lines(s.fanart_url.deep_view()) + ids_of(s) + seq!["</tvshow>"@]
}

/// Lines of the `<music>` document.
pub open spec fn music_lines(s: NfoSource) -> Seq<Seq<char>> {
    seq!["<music>"@] + text_lines("title"@, Some(s.title@)) + text_lines(
        "artist"@,
        s.artist.deep_view(),
    ) + text_lines("album"@, s.album.deep_view()) + ids_of(s) + seq!["</music>"@]
}

/// Lines of the whole document, or `None` for media types without one.
pub open spec fn nfo_lines(s: NfoSource) -> Option<Seq<Seq<char>>> {
    match s.media_type {
        MediaType::Movie => Some(seq![xml_header()] + movie_lines(s)),
        MediaType::TvShow => if s.episode_number is Some {
            Some(seq![xml_header()] + episode_lines(s))
        } else {
            Some(seq![xml_header()] + tvshow_lines(s))
        },
        MediaType::Music => Some(seq![xml_header()] + music_lines(s)),
        _ => None,
    }
}

fn push_line(lines: &mut Vec<String>, line: Vec<char>)
    ensures
        views(final(lines)@) == views(old(lines)@).push(line@),
{
    let s = string_of(line.as_slice());
    lines.push(s);
    assert(views(lines@) =~= views(old(lines)@).push(line@));
}

fn element(tag: &str, value: &[char]) -> (r: Vec<char>)
    ensures
        r@ == element_line(tag@, value@),
{
    let mut r: Vec<char> = Vec::new();
    append_str(&mut r, "  <");
    append_str(&mut r, tag);
    append_str(&mut r, ">");
    append_chars(&mut r, value);
    append_str(&mut r, "</");
    append_str(&mut r, tag);
    append_str(&mut r, ">");
    r
}

/// Adds `  <tag>value</tag>` when the trimmed value is not empty.
pub fn push_text(lines: &mut Vec<String>, tag: &str, value: Option<&str>)
    ensures
        views(final(lines)@) == views(old(lines)@) + text_lines(
            tag@,
            match value {
                Some(v) => Some(v@),
                None => None,
            },
        ),
{
    reveal(text_lines);
    match value {
        Some(v) => {
            let t = crate::text::trim_str(v);
            if t.len() > 0 {
                let e = escape_xml_chars(t.as_slice());
                push_line(lines, element(tag, e.as_slice()));
            }
        },
        None => {},
    }
    assert(views(lines@) =~= views(old(lines)@) + text_lines(
        tag@,
        match value {
            Some(v) => Some(v@),
            None => None,
        },
    ));
}

/// Adds `  <tag>value</tag>` whenever a value is present.
pub fn push_numeric(lines: &mut Vec<String>, tag: &str, value: Option<String>)
    ensures
        views(final(lines)@) == views(old(lines)@) + numeric_lines(tag@, value.deep_view()),
{
    reveal(numeric_lines);
    match value {
        Some(v) => {
            let t = crate::text::trim_str(v.as_str());
            let e = escape_xml_chars(t.as_slice());
            push_line(lines, element(tag, e.as_slice()));
        },
        None => {},
    }
    assert(views(lines@) =~= views(old(lines)@) + numeric_lines(tag@, value.deep_view()));
}

/// Adds `<year>` and `<premiered>` (1 January of that year).
pub fn push_year_fields(lines: &mut Vec<String>, year: Option<u16>)
    ensures
        views(final(lines)@) == views(old(lines)@) + year_lines(year),
{
    reveal(year_lines);
    match year {
        Some(y) => {
            let d = decimal_of(y as u64);
            let mut a: Vec<char> = Vec::new();
            append_str(&mut a, "  <year>");
            append_chars(&mut a, d.as_slice());
            append_str(&mut a, "</year>");
            push_line(lines, a);
            let mut b: Vec<char> = Vec::new();
            append_str(&mut b, "  <premiered>");
            append_chars(&mut b, d.as_slice());
            append_str(&mut b, "-01-01</premiered>");
            push_line(lines, b);
        },
        None => {},
    }
    assert(views(lines@) =~= views(old(lines)@) + year_lines(year));
}

/// Adds a `<fanart>` block with one `<thumb>` when the URL is not blank.
pub fn push_fanart(lines: &mut Vec<String>, fanart_url: Option<&str>)
    ensures
        views(final(lines)@) == views(old(lines)@) + fanart_lines(
            match fanart_url {
                Some(v) => Some(v@),
                None => None,
            },
        ),
{
    reveal(fanart_lines);
    match fanart_url {
        Some(u) => {
            let t = crate::text::trim_str(u);
            if t.len() > 0 {
                let e = escape_xml_chars(t.as_slice());
                push_line(lines, chars_of("  <fanart>"));
                let mut m: Vec<char> = Vec::new();
                append_str(&mut m, "    <thumb>");
                append_chars(&mut m, e.as_slice());
                append_str(&mut m, "</thumb>");
                push_line(lines, m);
                push_line(lines, chars_of("  </fanart>"));
            }
        },
        None => {},
    }
    assert(views(lines@) =~= views(old(lines)@) + fanart_lines(
        match fanart_url {
            Some(v) => Some(v@),
            None => None,
        },
    ));
}

/// Adds `<runtime>` in minutes (at least one).
pub fn push_runtime(lines: &mut Vec<String>, duration: Option<u64>, evidence: Option<u64>)
    ensures
        views(final(lines)@) == views(old(lines)@) + runtime_lines(duration, evidence),
{
    reveal(runtime_lines);
    let secs = match duration {
        Some(d) => Some(d),
        None => evidence,
    };
    match secs {
        Some(s) => {
            let mins = if s / 60 >= 1 {
                s / 60
            } else {
                1
            };
            let mut a: Vec<char> = Vec::new();
            append_str(&mut a, "  <runtime>");
            append_chars(&mut a, decimal_of(mins).as_slice());
            append_str(&mut a, "</runtime>");
            push_line(lines, a);
        },
        None => {},
    }
    assert(views(lines@) =~= views(old(lines)@) + runtime_lines(duration, evidence));
}

/// Adds one `<uniqueid>` per known provider id.
pub fn push_unique_ids(
    lines: &mut Vec<String>,
    tmdb: Option<u64>,
    musicbrainz: Option<&str>,
    openlibrary: Option<&str>,
)
    ensures
        views(final(lines)@) == views(old(lines)@) + unique_id_lines(
            tmdb,
            match musicbrainz {
                Some(v) => Some(v@),
                None => None,
            },
            match openlibrary {
                Some(v) => Some(v@),
                None => None,
            },
        ),
{
    reveal(unique_id_lines);
    let ghost l0 = views(lines@);
    match tmdb {
        Some(id) => {
            let mut a: Vec<char> = Vec::new();
            append_str(&mut a, "  <uniqueid type=\"tmdb\" default=\"true\">");
            append_chars(&mut a, decimal_of(id).as_slice());
            append_str(&mut a, "</uniqueid>");
            push_line(lines, a);
        },
        None => {},
    }
    let ghost l1 = views(lines@);
    match musicbrainz {
        Some(id) => {
            let mut a: Vec<char> = Vec::new();
            append_str(&mut a, "  <uniqueid type=\"musicbrainz\">");
            let idv = chars_of(id);
            append_chars(&mut a, escape_xml_chars(idv.as_slice()).as_slice());
            append_str(&mut a, "</uniqueid>");
            push_line(lines, a);
        },
        None => {},
    }
    let ghost l2 = views(lines@);
    match openlibrary {
        Some(id) => {
            let mut a: Vec<char> = Vec::new();
            append_str(&mut a, "  <uniqueid type=\"openlibrary\">");
            let idv = chars_of(id);
            append_chars(&mut a, escape_xml_chars(idv.as_slice()).as_slice());
            append_str(&mut a, "</uniqueid>");
            push_line(lines, a);
        },
        None => {},
    }
    assert(views(lines@) =~= views(old(lines)@) + unique_id_lines(
        tmdb,
        match musicbrainz {
            Some(v) => Some(v@),
            None => None,
        },
        match openlibrary {
            Some(v) => Some(v@),
            None => None,
        },
    ));
}

fn opt_str(o: &Option<String>) -> (r: Option<&str>)
    ensures
        match r {
            Some(v) => Some(v@),
            None => None,
        } == o.deep_view(),
{
    match o {
        Some(s) => Some(s.as_str()),
        None => None,
    }
}

fn opt_num(o: Option<u32>) -> (r: Option<String>)
    ensures
        r.deep_view() == match o {
            Some(n) => Some(decimal(n as nat)),
            None => None,
        },
{
    match o {
        Some(n) => Some(string_of(decimal_of(n as u64).as_slice())),
        None => None,
    }
}

fn clone_opt(o: &Option<String>) -> (r: Option<String>)
    ensures
        r.deep_view() == o.deep_view(),
{
    match o {
        Some(s) => Some(crate::text::owned(s.as_str())),
        None => None,
    }
}

/// `join("\n")` of the lines.
pub fn join_lines(lines: &Vec<String>) -> (r: String)
    ensures
        r@ == crate::text::join(views(lines@), seq!['\n']),
{
    let mut r: Vec<char> = Vec::new();
    let mut i: usize = 0;
    while i < lines.len()
        invariant
            i <= lines.len(),
            r@ == crate::text::join(views(lines@).take(i as int), seq!['\n']),
        decreases lines.len() - i,
    {
        if i > 0 {
            r.push('\n');
        }
        let l = chars_of(lines[i].as_str());
        append_chars(&mut r, l.as_slice());
        proof {
            let t = views(lines@).take(i + 1);
            assert(t.drop_last() =~= views(lines@).take(i as int));
            if i == 0 {
                assert(r@ =~= crate::text::join(t, seq!['\n']));
            } else {
                assert(r@ =~= crate::text::join(t, seq!['\n']));
            }
        }
        i = i + 1;
    }
    assert(views(lines@).take(lines.len() as int) =~= views(lines@));
    string_of(r.as_slice())
}

fn push_movie(lines: &mut Vec<String>, src: &NfoSource)
    ensures
        views(final(lines)@) == views(old(lines)@) + movie_lines(*src),
{
    let ghost l0 = views(lines@);
    push_line(lines, chars_of("<movie>"));
    let ghost mut p: Seq<Seq<char>> = seq!["<movie>"@];
    assert(views(lines@) =~= l0 + p);
    push_text(lines, "title", Some(src.title.as_str()));
    proof {
        lemma_concat_associative(l0, p, text_lines("title"@, Some(src.title@)));
        p = p + text_lines("title"@, Some(src.title@));
    }
    push_text(lines, "originaltitle", opt_str(&src.title_original));
    proof {
        lemma_concat_associative(l0, p, text_lines("originaltitle"@, src.title_original.deep_view()));
        p = p + text_lines("originaltitle"@, src.title_original.deep_view());
    }
    push_year_fields(lines, src.year);
    proof {
        lemma_concat_associative(l0, p, year_lines(src.year));
        p = p + year_lines(src.year);
    }
    push_numeric(lines, "rating", clone_opt(&src.rating_text));
    proof {
        lemma_concat_associative(l0, p, numeric_lines("rating"@, src.rating_text.deep_view()));
        p = p + numeric_lines("rating"@, src.rating_text.deep_view());
    }
    push_text(lines, "plot", opt_str(&src.overview));
    proof {
        lemma_concat_associative(l0, p, text_lines("plot"@, src.overview.deep_view()));
        p = p + text_lines("plot"@, src.overview.deep_view());
    }
    push_runtime(lines, src.duration_secs, src.evidence_runtime_secs);
    proof {
        lemma_concat_associative(l0, p, runtime_lines(src.duration_secs, src.evidence_runtime_secs));
        p = p + runtime_lines(src.duration_secs, src.evidence_runtime_secs);
    }
    push_text(lines, "thumb", opt_str(&src.poster_url));
    proof {
        lemma_concat_associative(l0, p, text_lines("thumb"@, src.poster_url.deep_view()));
        p = p + text_lines("thumb"@, src.poster_url.deep_view());
    }
    push_fanart(lines, opt_str(&src.fanart_url));
    proof {
        lemma_concat_associative(l0, p, fanart_lines(src.fanart_url.deep_view()));
        p = p + fanart_lines(src.fanart_url.deep_view());
    }
    push_unique_ids(
        lines,
        src.tmdb_id,
        opt_str(&src.musicbrainz_id),
        opt_str(&src.openlibrary_id),
    );
    proof {
        lemma_concat_associative(l0, p, ids_of(*src));
        p = p + ids_of(*src);
    }
    push_line(lines, chars_of("</movie>"));
    proof {
        lemma_concat_associative(l0, p, seq!["</movie>"@]);
        p = p + seq!["</movie>"@];
        assert(p == movie_lines(*src));
    }
}

fn push_episode(lines: &mut Vec<String>, src: &NfoSource)
    ensures
        views(final(lines)@) == views(old(lines)@) + episode_lines(*src),
{
    let ghost l0 = views(lines@);
    push_line(lines, chars_of("<episodedetails>"));
    let ghost mut p: Seq<Seq<char>> = seq!["<episodedetails>"@];
    assert(views(lines@) =~= l0 + p);
    push_text(lines, "title", Some(match &src.episode_name {
        Some(n) => n.as_str(),
        None => src.title.as_str(),
    }));
    proof {
        lemma_concat_associative(l0, p, text_lines("title"@, match src.episode_name.deep_view() {
            Some(n) => Some(n),
            None => Some(src.title@),
        }));
        p = p + text_lines("title"@, match src.episode_name.deep_view() {
            Some(n) => Some(n),
            None => Some(src.title@),
        });
    }
    push_text(lines, "showtitle", Some(src.title.as_str()));
    proof {
        lemma_concat_associative(l0, p, text_lines("showtitle"@, Some(src.title@)));
        p = p + text_lines("showtitle"@, Some(src.title@));
    }
    push_text(lines, "originaltitle", opt_str(&src.title_original));
    proof {
        lemma_concat_associative(l0, p, text_lines("originaltitle"@, src.title_original.deep_view()));
        p = p + text_lines("originaltitle"@, src.title_original.deep_view());
    }
    push_numeric(lines, "season", opt_num(src.season_number));
    proof {
        lemma_concat_associative(l0, p, numeric_lines("season"@, match src.season_number {
            Some(n) => Some(decimal(n as nat)),
            None => None,
        }));
        p = p + numeric_lines("season"@, match src.season_number {
            Some(n) => Some(decimal(n as nat)),
            None => None,
        });
    }
    push_numeric(lines, "episode", opt_num(src.episode_number));
    proof {
        lemma_concat_associative(l0, p, numeric_lines("episode"@, match src.episode_number {
            Some(n) => Some(decimal(n as nat)),
            None => None,
        }));
        p = p + numeric_lines("episode"@, match src.episode_number {
            Some(n) => Some(decimal(n as nat)),
            None => None,
        });
    }
    push_year_fields(lines, src.year);
    proof {
        lemma_concat_associative(l0, p, year_lines(src.year));
        p = p + year_lines(src.year);
    }
    push_text(lines, "plot", opt_str(&src.overview));
    proof {
        lemma_concat_associative(l0, p, text_lines("plot"@, src.overview.deep_view()));
        p = p + text_lines("plot"@, src.overview.deep_view());
    }
    push_numeric(lines, "rating", clone_opt(&src.rating_text));
    proof {
        lemma_concat_associative(l0, p, numeric_lines("rating"@, src.rating_text.deep_view()));
        p = p + numeric_lines("rating"@, src.rating_text.deep_view());
    }
    push_runtime(lines, src.duration_secs, src.evidence_runtime_secs);
    proof {
        lemma_concat_associative(l0, p, runtime_lines(src.duration_secs, src.evidence_runtime_secs));
        p = p + runtime_lines(src.duration_secs, src.evidence_runtime_secs);
    }
    push_text(lines, "thumb", opt_str(&src.poster_url));
    proof {
        lemma_concat_associative(l0, p, text_lines("thumb"@, src.poster_url.deep_view()));
        p = p + text_lines("thumb"@, src.poster_url.deep_view());
    }
    push_unique_ids(
        lines,
        src.tmdb_id,
        opt_str(&src.musicbrainz_id),
        opt_str(&src.openlibrary_id),
    );
    proof {
        lemma_concat_associative(l0, p, ids_of(*src));
        p = p + ids_of(*src);
    }
    push_line(lines, chars_of("</episodedetails>"));
    proof {
        lemma_concat_associative(l0, p, seq!["</episodedetails>"@]);
        p = p + seq!["</episodedetails>"@];
        assert(p == episode_lines(*src));
    }
}

fn push_tvshow(lines: &mut Vec<String>, src: &NfoSource)
    ensures
        views(final(lines)@) == views(old(lines)@) + tvshow_lines(*src),
{
    let ghost l0 = views(lines@);
    push_line(lines, chars_of("<tvshow>"));
    let ghost mut p: Seq<Seq<char>> = seq!["<tvshow>"@];
    assert(views(lines@) =~= l0 + p);
    push_text(lines, "title", Some(src.title.as_str()));
    proof {
        lemma_concat_associative(l0, p, text_lines("title"@, Some(src.title@)));
        p = p + text_lines("title"@, Some(src.title@));
    }
    push_text(lines, "originaltitle", opt_str(&src.title_original));
    proof {
        lemma_concat_associative(l0, p, text_lines("originaltitle"@, src.title_original.deep_view()));
        p = p + text_lines("originaltitle"@, src.title_original.deep_view());
    }
    push_year_fields(lines, src.year);
    proof {
        lemma_concat_associative(l0, p, year_lines(src.year));
        p = p + year_lines(src.year);
    }
    push_text(lines, "plot", opt_str(&src.overview));
    proof {
        lemma_concat_associative(l0, p, text_lines("plot"@, src.overview.deep_view()));
        p = p + text_lines("plot"@, src.overview.deep_view());
    }
    push_numeric(lines, "rating", clone_opt(&src.rating_text));
    proof {
        lemma_concat_associative(l0, p, numeric_lines("rating"@, src.rating_text.deep_view()));
        p = p + numeric_lines("rating"@, src.rating_text.deep_view());
    }
    push_runtime(lines, src.duration_secs, src.evidence_runtime_secs);
    proof {
        lemma_concat_associative(l0, p, runtime_lines(src.duration_secs, src.evidence_runtime_secs));
        p = p + runtime_lines(src.duration_secs, src.evidence_runtime_secs);
    }
    push_text(lines, "thumb", opt_str(&src.poster_url));
    proof {
        lemma_concat_associative(l0, p, text_lines("thumb"@, src.poster_url.deep_view()));
        p = p + text_lines("thumb"@, src.poster_url.deep_view());
    }
    push_fanart(lines, opt_str(&src.fanart_url));
    proof {
        lemma_concat_associative(l0, p, fanart_lines(src.fanart_url.deep_view()));
        p = p + fanart_lines(src.fanart_url.deep_view());
    }
    push_unique_ids(
        lines,
        src.tmdb_id,
        opt_str(&src.musicbrainz_id),
        opt_str(&src.openlibrary_id),
    );
    proof {
        lemma_concat_associative(l0, p, ids_of(*src));
        p = p + ids_of(*src);
    }
    push_line(lines, chars_of("</tvshow>"));
    proof {
        lemma_concat_associative(l0, p, seq!["</tvshow>"@]);
        p = p + seq!["</tvshow>"@];
        assert(p == tvshow_lines(*src));
    }
}

fn push_music(lines: &mut Vec<String>, src: &NfoSource)
    ensures
        views(final(lines)@) == views(old(lines)@) + music_lines(*src),
{
    let ghost l0 = views(lines@);
    push_line(lines, chars_of("<music>"));
    push_text(lines, "title", Some(src.title.as_str()));
    push_text(lines, "artist", opt_str(&src.artist));
    push_text(lines, "album", opt_str(&src.album));
    push_unique_ids(
        lines,
        src.tmdb_id,
        opt_str(&src.musicbrainz_id),
        opt_str(&src.openlibrary_id),
    );
    push_line(lines, chars_of("</music>"));
    assert(views(lines@) =~= l0 + music_lines(*src));
}

/// The NFO document for an item, or `None` for media types that have none.
pub fn generate(src: &NfoSource) -> (r: Option<String>)
    ensures
        match nfo_lines(*src) {
            Some(ls) => r.deep_view() == Some(crate::text::join(ls, seq!['\n'])),
            None => r is None,
        },
{
    let mut lines: Vec<String> = Vec::new();
    push_line(&mut lines, chars_of("<?xml version=\"1.0\" encoding=\"UTF-8\" standalone=\"yes\"?>"));
    assert(views(lines@) =~= seq![xml_header()]);
    match src.media_type {
        MediaType::Movie => {
            push_movie(&mut lines, src);
        },
        MediaType::TvShow => {
            if src.episode_number.is_some() {
                push_episode(&mut lines, src);
            } else {
                push_tvshow(&mut lines, src);
            }
        },
        MediaType::Music => {
            push_music(&mut lines, src);
        },
        _ => {
            return None;
        },
    }
    Some(join_lines(&lines))
}

// ---------------------------------------------------------------------------
// Reading
// ---------------------------------------------------------------------------

/// `<tag`
pub open spec fn open_prefix(tag: Seq<char>) -> Seq<char> {
    seq!['<'] + tag
}

/// `</tag>`
pub open spec fn close_tag(tag: Seq<char>) -> Seq<char> {
    seq!['<', '/'] + tag + seq!['>']
}

/// Characters that may follow `<tag` in an opening tag of that element.
pub open spec fn ends_tag_name(c: char) -> bool {
    c == '>' || c == ' ' || c == '\t' || c == '\n' || c == '\r'
}

/// The elements named `tag` found scanning `c` from `cursor`: each is the
/// opening tag (from `<` to its `>`) and the text up to the first `</tag>`.
pub open spec fn tag_blocks_from(c: Seq<char>, tag: Seq<char>, cursor: int) -> Seq<
    (Seq<char>, Seq<char>),
>
    decreases c.len() + 1 - cursor,
{
    if cursor < 0 || cursor > c.len() {
        seq![]
    } else {
        match find_spec(c, open_prefix(tag), cursor) {
            None => seq![],
            Some(os) => {
                proof {
                    lemma_find_spec(c, open_prefix(tag), cursor);
                }
                let te = os + tag.len() + 1;
                if !(te < c.len() && ends_tag_name(c[te])) {
                    tag_blocks_from(c, tag, te)
                } else {
                    match find_spec(c, seq!['>'], os) {
                        None => seq![],
                        Some(oe) => {
                            proof {
                                lemma_find_spec(c, seq!['>'], os);
                            }
                            match find_spec(c, close_tag(tag), oe + 1) {
                                None => seq![],
                                Some(ve) => {
                                    proof {
                                        lemma_find_spec(c, close_tag(tag), oe + 1);
                                    }
                                    seq![(c.subrange(os, oe + 1), c.subrange(oe + 1, ve))]
                                        + tag_blocks_from(c, tag, ve + tag.len() + 3)
                                },
                            }
                        },
                    }
                }
            },
        }
    }
}

pub open spec fn tag_blocks(c: Seq<char>, tag: Seq<char>) -> Seq<(Seq<char>, Seq<char>)> {
    tag_blocks_from(c, tag, 0)
}

/// One element found in NFO text.
pub struct TagBlock {
    pub open_tag: String,
    pub value: String,
}

pub open spec fn block_views(v: Seq<TagBlock>) -> Seq<(Seq<char>, Seq<char>)> {
    v.map_values(|b: TagBlock| (b.open_tag@, b.value@))
}

fn sub_string(c: &[char], a: usize, b: usize) -> (r: String)
    requires
        a <= b <= c.len(),
    ensures
        r@ == c@.subrange(a as int, b as int),
{
    let mut out: Vec<char> = Vec::new();
    let mut i: usize = a;
    while i < b
        invariant
            a <= i <= b <= c.len(),
            out@ == c@.subrange(a as int, i as int),
        decreases b - i,
    {
        out.push(c[i]);
        i = i + 1;
        assert(out@ =~= c@.subrange(a as int, i as int));
    }
    string_of(out.as_slice())
}

/// The elements named `tag` in `content`, in document order.
pub fn extract_tag_blocks(content: &str, tag: &str) -> (r: Vec<TagBlock>)
    ensures
        block_views(r@) == tag_blocks(content@, tag@),
{
    let c = chars_of(content);
    let t = chars_of(tag);
    let mut open: Vec<char> = vec!['<'];
    append_chars(&mut open, t.as_slice());
    assert(open@ =~= open_prefix(tag@));
    let mut close: Vec<char> = vec!['<', '/'];
    append_chars(&mut close, t.as_slice());
    close.push('>');
    assert(close@ =~= close_tag(tag@));
    let gt: Vec<char> = vec!['>'];
    assert(gt@ =~= seq!['>']);
    let mut blocks: Vec<TagBlock> = Vec::new();
    let mut cursor: usize = 0;
    while cursor <= c.len()
        invariant
            c@ == content@,
            t@ == tag@,
            open@ == open_prefix(tag@),
            close@ == close_tag(tag@),
            gt@ == seq!['>'],
            block_views(blocks@) + tag_blocks_from(c@, tag@, cursor as int) == tag_blocks(
                content@,
                tag@,
            ),
        decreases c.len() + 1 - cursor,
    {
        let ghost bv = block_views(blocks@);
        match find_from(c.as_slice(), open.as_slice(), cursor) {
            None => {
                assert(bv + Seq::<(Seq<char>, Seq<char>)>::empty() =~= bv);
                return blocks;
            },
            Some(os) => {
                proof {
                    lemma_find_spec(c@, open@, cursor as int);
                }
                let te = os + t.len() + 1;
                let ok = te < c.len() && {
                    let ch = c[te];
                    ch == '>' || ch == ' ' || ch == '\t' || ch == '\n' || ch == '\r'
                };
                if !ok {
                    cursor = te;
                } else {
                    match find_from(c.as_slice(), gt.as_slice(), os) {
                        None => {
                            assert(bv + Seq::<(Seq<char>, Seq<char>)>::empty() =~= bv);
                            return blocks;
                        },
                        Some(oe) => {
                            proof {
                                lemma_find_spec(c@, gt@, os as int);
                            }
                            match find_from(c.as_slice(), close.as_slice(), oe + 1) {
                                None => {
                                    assert(bv + Seq::<(Seq<char>, Seq<char>)>::empty() =~= bv);
                                    return blocks;
                                },
                                Some(ve) => {
                                    proof {
                                        lemma_find_spec(c@, close@, oe + 1);
                                    }
                                    let b = TagBlock {
                                        open_tag: sub_string(c.as_slice(), os, oe + 1),
                                        value: sub_string(c.as_slice(), oe + 1, ve),
                                    };
                                    let ghost pair = (b.open_tag@, b.value@);
                                    blocks.push(b);
                                    proof {
                                        assert(block_views(blocks@) =~= bv.push(pair));
                                        assert(bv + (seq![pair] + tag_blocks_from(
                                            c@,
                                            tag@,
                                            ve + tag@.len() + 3,
                                        )) =~= bv.push(pair) + tag_blocks_from(
                                            c@,
                                            tag@,
                                            ve + tag@.len() + 3,
                                        ));
                                    }
                                    cursor = ve + t.len() + 3;
                                },
                            }
                        },
                    }
                }
            },
        }
    }
    assert(block_views(blocks@) + Seq::<(Seq<char>, Seq<char>)>::empty() =~= block_views(
        blocks@,
    ));
    blocks
}

/// The trimmed text of the first block whose trimmed text is not empty.
pub open spec fn first_nonblank(blocks: Seq<(Seq<char>, Seq<char>)>) -> Option<Seq<char>>
    decreases blocks.len(),
{
    if blocks.len() == 0 {
        None
    } else if trim(blocks[0].1).len() > 0 {
        Some(trim(blocks[0].1))
    } else {
        first_nonblank(blocks.drop_first())
    }
}

/// Text of the first non-empty element `tag` (`extract_first_tag`).
pub open spec fn first_tag(c: Seq<char>, tag: Seq<char>) -> Option<Seq<char>> {
    first_nonblank(tag_blocks(c, tag))
}

/// The trimmed text of the first `tag` element whose text is not blank.
pub fn extract_first_tag(content: &str, tag: &str) -> (r: Option<String>)
    ensures
        r.deep_view() == first_tag(content@, tag@),
{
    let blocks = extract_tag_blocks(content, tag);
    let ghost bs = block_views(blocks@);
    assert(bs.skip(0) =~= bs);
    let mut i: usize = 0;
    while i < blocks.len()
        invariant
            i <= blocks.len(),
            bs == block_views(blocks@),
            bs == tag_blocks(content@, tag@),
            first_nonblank(bs) == first_nonblank(bs.skip(i as int)),
        decreases blocks.len() - i,
    {
        let v = crate::text::trim_str(blocks[i].value.as_str());
        assert(bs.skip(i as int)[0] == bs[i as int]);
        assert(bs[i as int].1 == blocks@[i as int].value@);
        if v.len() > 0 {
            return Some(string_of(v.as_slice()));
        }
        assert(bs.skip(i as int).drop_first() =~= bs.skip(i + 1));
        i = i + 1;
    }
    None
}

/// The value of attribute `attr` in an opening tag (`extract_attr`).
pub open spec fn attr_spec(o: Seq<char>, attr: Seq<char>) -> Option<Seq<char>> {
    let needle = attr + seq!['=', '"'];
    match find_spec(o, needle, 0) {
        None => None,
        Some(i) => {
            let rest = o.skip(i + needle.len());
            match find_spec(rest, seq!['"'], 0) {
                None => None,
                Some(e) => Some(rest.take(e)),
            }
        },
    }
}

/// The double-quoted value of `attr` in an opening tag.
pub fn extract_attr(open_tag: &str, attr: &str) -> (r: Option<String>)
    ensures
        r.deep_view() == attr_spec(open_tag@, attr@),
{
    let o = chars_of(open_tag);
    let mut needle = chars_of(attr);
    needle.push('=');
    needle.push('"');
    assert(needle@ =~= attr@ + seq!['=', '"']);
    match find_from(o.as_slice(), needle.as_slice(), 0) {
        None => None,
        Some(i) => {
            proof {
                lemma_find_spec(o@, needle@, 0);
            }
            assert(i + needle@.len() <= o@.len());
            assert(i + needle.len() <= o.len());
            let start = i + needle.len();
            let rest = o.as_slice().split_at(start).1;
            assert(rest@ =~= o@.skip(start as int));
            let q: Vec<char> = vec!['"'];
            assert(q@ =~= seq!['"']);
            match find_from(rest, q.as_slice(), 0) {
                None => None,
                Some(e) => {
                    proof {
                        lemma_find_spec(rest@, q@, 0);
                    }
                    let v = rest.split_at(e).0;
                    assert(v@ =~= rest@.take(e as int));
                    Some(string_of(v))
                },
            }
        },
    }
}

/// Metadata read from an NFO document. `rating_text` is the raw text of
/// `<rating>`; turning it into a number is left to the caller.
pub struct NfoMetadata {
    pub title: String,
    pub title_original: Option<String>,
    pub year: Option<u16>,
    pub overview: Option<String>,
    pub rating_text: Option<String>,
    pub season_number: Option<u32>,
    pub episode_number: Option<u32>,
    pub episode_name: Option<String>,
    pub poster_url: Option<String>,
    pub fanart_url: Option<String>,
    pub artist: Option<String>,
    pub album: Option<String>,
    pub author: Option<String>,
    pub tmdb_id: Option<u64>,
    pub musicbrainz_id: Option<String>,
    pub openlibrary_id: Option<String>,
}

pub open spec fn is_episode_doc(c: Seq<char>) -> bool {
    contains(c, "<episodedetails"@)
}

/// The title a document gives: for an episode its show title (or its own
/// title), else `<title>`; empty when there is none.
pub open spec fn nfo_title(c: Seq<char>) -> Seq<char> {
    let title = first_tag(c, "title"@);
    if is_episode_doc(c) {
        match first_tag(c, "showtitle"@) {
            Some(x) => x,
            None => match title {
                Some(t) => t,
                None => seq![],
            },
        }
    } else {
        match title {
            Some(t) => t,
            None => seq![],
        }
    }
}

/// The episode name of an episode document: `<episodename>`, else `<title>`.
pub open spec fn nfo_episode_name(c: Seq<char>) -> Option<Seq<char>> {
    if is_episode_doc(c) {
        match first_tag(c, "episodename"@) {
            Some(x) => Some(x),
            None => first_tag(c, "title"@),
        }
    } else {
        None
    }
}

pub open spec fn parse_opt(v: Option<Seq<char>>, max: nat) -> Option<nat> {
    match v {
        Some(x) => parse_uint_spec(x, max),
        None => None,
    }
}

/// `<fanart>`'s nested `<thumb>`, else its whole text.
pub open spec fn nfo_fanart(c: Seq<char>) -> Option<Seq<char>> {
    match first_tag(c, "fanart"@) {
        Some(v) => match first_tag(v, "thumb"@) {
            Some(t) => Some(t),
            None => Some(v),
        },
        None => None,
    }
}

pub open spec fn u64_max_nat() -> nat {
    18446744073709551615
}

/// Provider ids collected so far: TMDB, MusicBrainz, OpenLibrary.
pub type IdState = (Option<nat>, Option<Seq<char>>, Option<Seq<char>>);

/// One `<uniqueid>` element applied to the ids collected so far.
pub open spec fn uid_step(st: IdState, block: (Seq<char>, Seq<char>)) -> IdState {
    let id_type = lower(
        match attr_spec(block.0, "type"@) {
            Some(x) => x,
            None => seq![],
        },
    );
    let value = trim(block.1);
    if value.len() == 0 {
        st
    } else if id_type == "tmdb"@ && st.0 is None {
        (parse_uint_spec(value, u64_max_nat()), st.1, st.2)
    } else if id_type == "musicbrainz"@ && st.1 is None {
        (st.0, Some(value), st.2)
    } else if id_type == "openlibrary"@ && st.2 is None {
        (st.0, st.1, Some(value))
    } else if st.0 is None {
        (parse_uint_spec(value, u64_max_nat()), st.1, st.2)
    } else {
        st
    }
}

pub open spec fn uid_fold(blocks: Seq<(Seq<char>, Seq<char>)>, st: IdState) -> IdState
    decreases blocks.len(),
{
    if blocks.len() == 0 {
        st
    } else {
        uid_fold(blocks.drop_first(), uid_step(st, blocks[0]))
    }
}

pub open spec fn nfo_ids(c: Seq<char>) -> IdState {
    uid_fold(tag_blocks(c, "uniqueid"@), (None, None, None))
}

pub open spec fn opt_nat(o: Option<u64>) -> Option<nat> {
    match o {
        Some(v) => Some(v as nat),
        None => None,
    }
}

pub open spec fn opt_nat16(o: Option<u16>) -> Option<nat> {
    match o {
        Some(v) => Some(v as nat),
        None => None,
    }
}

pub open spec fn opt_nat32(o: Option<u32>) -> Option<nat> {
    match o {
        Some(v) => Some(v as nat),
        None => None,
    }
}

/// What `parse_nfo` reads from the document `c` into `m`.
pub open spec fn nfo_read(c: Seq<char>, m: NfoMetadata) -> bool {
    &&& m.title@ == nfo_title(c)
    &&& m.episode_name.deep_view() == nfo_episode_name(c)
    &&& m.title_original.deep_view() == first_tag(c, "originaltitle"@)
    &&& opt_nat16(m.year) == parse_opt(first_tag(c, "year"@), 65535)
    &&& m.overview.deep_view() == first_tag(c, "plot"@)
    &&& m.rating_text.deep_view() == first_tag(c, "rating"@)
    &&& opt_nat32(m.season_number) == parse_opt(first_tag(c, "season"@), 4294967295)
    &&& opt_nat32(m.episode_number) == parse_opt(first_tag(c, "episode"@), 4294967295)
    &&& m.poster_url.deep_view() == first_tag(c, "thumb"@)
    &&& m.fanart_url.deep_view() == nfo_fanart(c)
    &&& m.artist.deep_view() == first_tag(c, "artist"@)
    &&& m.album.deep_view() == first_tag(c, "album"@)
    &&& m.author.deep_view() == first_tag(c, "author"@)
    &&& opt_nat(m.tmdb_id) == nfo_ids(c).0
    &&& m.musicbrainz_id.deep_view() == nfo_ids(c).1
    &&& m.openlibrary_id.deep_view() == nfo_ids(c).2
}

fn parse_opt_exec(v: &Option<String>, max: u64) -> (r: Option<u64>)
    ensures
        opt_nat(r) == parse_opt(v.deep_view(), max as nat),
{
    match v {
        Some(x) => {
            let cs = chars_of(x.as_str());
            parse_uint(cs.as_slice(), max)
        },
        None => None,
    }
}

fn clone_string_opt(o: &Option<String>) -> (r: Option<String>)
    ensures
        r.deep_view() == o.deep_view(),
{
    match o {
        Some(s) => Some(crate::text::owned(s.as_str())),
        None => None,
    }
}

/// Provider ids from the `<uniqueid>` elements of a document.
fn read_unique_ids(content: &str) -> (r: (Option<u64>, Option<String>, Option<String>))
    ensures
        opt_nat(r.0) == nfo_ids(content@).0,
        r.1.deep_view() == nfo_ids(content@).1,
        r.2.deep_view() == nfo_ids(content@).2,
{
    let blocks = extract_tag_blocks(content, "uniqueid");
    let ghost bs = block_views(blocks@);
    let mut tmdb: Option<u64> = None;
    let mut mb: Option<String> = None;
    let mut ol: Option<String> = None;
    let tmdb_name = chars_of("tmdb");
    let mb_name = chars_of("musicbrainz");
    let ol_name = chars_of("openlibrary");
    let mut i: usize = 0;
    assert(bs.skip(0) =~= bs);
    while i < blocks.len()
        invariant
            i <= blocks.len(),
            bs == block_views(blocks@),
            bs == tag_blocks(content@, "uniqueid"@),
            tmdb_name@ == "tmdb"@,
            mb_name@ == "musicbrainz"@,
            ol_name@ == "openlibrary"@,
            uid_fold(bs.skip(i as int), (opt_nat(tmdb), mb.deep_view(), ol.deep_view()))
                == nfo_ids(content@),
        decreases blocks.len() - i,
    {
        let ghost st = (opt_nat(tmdb), mb.deep_view(), ol.deep_view());
        assert(bs.skip(i as int)[0] == bs[i as int]);
        assert(bs.skip(i as int).drop_first() =~= bs.skip(i + 1));
        assert(bs[i as int] == (blocks@[i as int].open_tag@, blocks@[i as int].value@));
        let attr = extract_attr(blocks[i].open_tag.as_str(), "type");
        let attr_chars = match &attr {
            Some(a) => chars_of(a.as_str()),
            None => Vec::new(),
        };
        let id_type = to_lower(attr_chars.as_slice());
        let value = crate::text::trim_str(blocks[i].value.as_str());
        if value.len() == 0 {
        } else if crate::text::chars_eq(id_type.as_slice(), tmdb_name.as_slice()) && tmdb.is_none() {
            tmdb = parse_uint(value.as_slice(), 18446744073709551615);
        } else if crate::text::chars_eq(id_type.as_slice(), mb_name.as_slice()) && mb.is_none() {
            mb = Some(string_of(value.as_slice()));
        } else if crate::text::chars_eq(id_type.as_slice(), ol_name.as_slice()) && ol.is_none() {
            ol = Some(string_of(value.as_slice()));
        } else if tmdb.is_none() {
            tmdb = parse_uint(value.as_slice(), 18446744073709551615);
        }
        assert((opt_nat(tmdb), mb.deep_view(), ol.deep_view()) == uid_step(st, bs[i as int]));
        i = i + 1;
    }
    (tmdb, mb, ol)
}

/// Metadata of a local NFO document; `None` when it names no title.
pub fn parse_nfo(content: &str) -> (r: Option<NfoMetadata>)
    ensures
        match r {
            Some(m) => nfo_title(content@).len() > 0 && nfo_read(content@, m),
            None => nfo_title(content@).len() == 0,
        },
{
    let is_episode = contains_str(chars_of(content).as_slice(), "<episodedetails");
    let title = extract_first_tag(content, "title");
    let show_title = extract_first_tag(content, "showtitle");
    let mut out_title = String::new();
    let mut episode_name: Option<String> = None;
    if is_episode {
        match &show_title {
            Some(x) => {
                out_title = crate::text::owned(x.as_str());
            },
            None => match &title {
                Some(t) => {
                    out_title = crate::text::owned(t.as_str());
                },
                None => {},
            },
        }
        episode_name = match extract_first_tag(content, "episodename") {
            Some(x) => Some(x),
            None => clone_string_opt(&title),
        };
    } else {
        match &title {
            Some(t) => {
                out_title = crate::text::owned(t.as_str());
            },
            None => {},
        }
    }
    assert(out_title@ == nfo_title(content@));
    if out_title.as_str().is_empty() {
        return None;
    }
    let year = match parse_opt_exec(&extract_first_tag(content, "year"), 65535) {
        Some(y) => Some(y as u16),
        None => None,
    };
    let season = match parse_opt_exec(&extract_first_tag(content, "season"), 4294967295) {
        Some(y) => Some(y as u32),
        None => None,
    };
    let episode = match parse_opt_exec(&extract_first_tag(content, "episode"), 4294967295) {
        Some(y) => Some(y as u32),
        None => None,
    };
    let fanart = match extract_first_tag(content, "fanart") {
        Some(v) => match extract_first_tag(v.as_str(), "thumb") {
            Some(t) => Some(t),
            None => Some(v),
        },
        None => None,
    };
    let ids = read_unique_ids(content);
    let m = NfoMetadata {
        title: out_title,
        title_original: extract_first_tag(content, "originaltitle"),
        year,
        overview: extract_first_tag(content, "plot"),
        rating_text: extract_first_tag(content, "rating"),
        season_number: season,
        episode_number: episode,
        episode_name,
        poster_url: extract_first_tag(content, "thumb"),
        fanart_url: fanart,
        artist: extract_first_tag(content, "artist"),
        album: extract_first_tag(content, "album"),
        author: extract_first_tag(content, "author"),
        tmdb_id: ids.0,
        musicbrainz_id: ids.1,
        openlibrary_id: ids.2,
    };
    Some(m)
}

} // verus!
