//! Search queries for metadata providers, cache keys, URL encoding and
//! artwork file names.
use crate::paths::{ancestors, collect_parent_dirs, file_name, file_name_spec, join_spec};
use crate::text::{
    append_chars, append_str, chars_eq, chars_of, collapse_ws, decimal, decimal_of, join,
    join_chars, lower, map_bad_chars, parse_uint, parse_uint_spec, replace_all, replace_chars,
    replace_char_set, split_words, string_of, to_lower, trim, trim_chars, views, words,
    all_digits, is_digit, owned,
};
use crate::types::{media_type_name, media_type_name_spec, ConfirmationState, MediaType, ScrapeSource};
use vstd::prelude::*;
use vstd::string::StringSliceAdditionalSpecFns;

verus! {

// ---------------------------------------------------------------------------
// Title queries
// ---------------------------------------------------------------------------

/// `title.replace(['.', '_'], " ").replace("  ", " ").trim()`
pub open spec fn normalize_query_spec(t: Seq<char>) -> Seq<char> {
    trim(replace_all(map_bad_chars(t, seq!['.', '_'], ' '), seq![' ', ' '], seq![' ']))
}

/// A title query with separators turned into spaces and whitespace collapsed.
pub fn normalize_query_chars(t: &[char]) -> (r: Vec<char>)
    ensures
        r@ == normalize_query_spec(t@),
{
    let bad: Vec<char> = vec!['.', '_'];
    assert(bad@ =~= seq!['.', '_']);
    let a = replace_char_set(t, bad.as_slice(), ' ');
    let two: Vec<char> = vec![' ', ' '];
    let one: Vec<char> = vec![' '];
    assert(two@ =~= seq![' ', ' ']);
    assert(one@ =~= seq![' ']);
    let b = replace_chars(a.as_slice(), two.as_slice(), one.as_slice());
    trim_chars(b.as_slice())
}

/// Dots and underscores become spaces, double spaces single ones, and the
/// result is trimmed.
pub fn normalize_title_query(title: &str) -> (r: String)
    ensures
        r@ == normalize_query_spec(title@),
{
    let t = chars_of(title);
    string_of(normalize_query_chars(t.as_slice()).as_slice())
}

/// Release tags that say nothing about the title.
pub open spec fn noise_tokens() -> Seq<Seq<char>> {
    seq![
        "1080p"@,
        "720p"@,
        "2160p"@,
        "4k"@,
        "webrip"@,
        "web-dl"@,
        "bluray"@,
        "brrip"@,
        "x264"@,
        "x265"@,
        "h264"@,
        "h265"@,
        "hevc"@,
        "aac"@,
        "dts"@,
        "hdr"@,
        "dv"@,
    ]
}

pub open spec fn is_noise_token(tok: Seq<char>) -> bool {
    noise_tokens().contains(lower(tok))
}

/// `strip_title_noise`: the normalized title without release tags.
pub open spec fn strip_noise_spec(t: Seq<char>) -> Seq<char> {
    join(words(normalize_query_spec(t)).filter(|w: Seq<char>| !is_noise_token(w)), seq![' '])
}

fn noise_list() -> (r: Vec<Vec<char>>)
    ensures
        r@.map_values(|v: Vec<char>| v@) == noise_tokens(),
{
    let lits: [&str; 17] = [
        "1080p",
        "720p",
        "2160p",
        "4k",
        "webrip",
        "web-dl",
        "bluray",
        "brrip",
        "x264",
        "x265",
        "h264",
        "h265",
        "hevc",
        "aac",
        "dts",
        "hdr",
        "dv",
    ];
    let mut r: Vec<Vec<char>> = Vec::new();
    let mut i: usize = 0;
    while i < 17
        invariant
            i <= 17,
            r@.len() == i,
            forall|k: int| 0 <= k < i ==> (#[trigger] r@[k])@ == lits@[k]@,
        decreases 17 - i,
    {
        r.push(chars_of(lits[i]));
        i = i + 1;
    }
    assert(r@.map_values(|v: Vec<char>| v@) =~= noise_tokens());
    r
}

/// Whether `x` is one of the listed words.
pub fn in_list(list: &Vec<Vec<char>>, x: &[char]) -> (r: bool)
    ensures
        r == list@.map_values(|v: Vec<char>| v@).contains(x@),
{
    let ghost vs = list@.map_values(|v: Vec<char>| v@);
    let mut i: usize = 0;
    while i < list.len()
        invariant
            i <= list.len(),
            vs == list@.map_values(|v: Vec<char>| v@),
            forall|k: int| 0 <= k < i ==> vs[k] != x@,
        decreases list.len() - i,
    {
        if chars_eq(list[i].as_slice(), x) {
            assert(vs[i as int] == x@);
            return true;
        }
        i = i + 1;
    }
    false
}

/// Keeps the words for which `keep[i]` holds, joined by single spaces.
fn join_kept(ws: &Vec<Vec<char>>, keep: &Vec<bool>) -> (r: Vec<char>)
    requires
        keep@.len() == ws@.len(),
    ensures
        r@ == join(
            kept_words(ws@.map_values(|v: Vec<char>| v@), keep@),
            seq![' '],
        ),
{
    let mut out: Vec<Vec<char>> = Vec::new();
    let ghost wv = ws@.map_values(|v: Vec<char>| v@);
    let mut i: usize = 0;
    while i < ws.len()
        invariant
            i <= ws.len(),
            keep@.len() == ws@.len(),
            wv == ws@.map_values(|v: Vec<char>| v@),
            out@.map_values(|v: Vec<char>| v@) == kept_words(wv.take(i as int), keep@.take(
                i as int,
            )),
        decreases ws.len() - i,
    {
        proof {
            assert(wv.take(i + 1).drop_last() =~= wv.take(i as int));
            assert(keep@.take(i + 1).drop_last() =~= keep@.take(i as int));
        }
        if keep[i] {
            let w = crate::text::to_vec(ws[i].as_slice());
            out.push(w);
        }
        i = i + 1;
        assert(out@.map_values(|v: Vec<char>| v@) =~= kept_words(
            wv.take(i as int),
            keep@.take(i as int),
        ));
    }
    assert(wv.take(ws.len() as int) =~= wv);
    assert(keep@.take(ws.len() as int) =~= keep@);
    let sep: Vec<char> = vec![' '];
    assert(sep@ =~= seq![' ']);
    join_chars(&out, sep.as_slice())
}

/// The words whose flag is set.
pub open spec fn kept_words(ws: Seq<Seq<char>>, keep: Seq<bool>) -> Seq<Seq<char>>
    decreases ws.len(),
{
    if ws.len() == 0 || keep.len() == 0 {
        seq![]
    } else {
        kept_words(ws.drop_last(), keep.drop_last()) + if keep.last() {
            seq![ws.last()]
        } else {
            seq![]
        }
    }
}

/// Keeping the words marked by a predicate filters them by it.
pub proof fn lemma_kept_is_filter(ws: Seq<Seq<char>>, keep: Seq<bool>, p: spec_fn(Seq<char>) -> bool)
    requires
        keep.len() == ws.len(),
        forall|i: int| 0 <= i < ws.len() ==> keep[i] == p(ws[i]),
    ensures
        kept_words(ws, keep) == ws.filter(p),
    decreases ws.len(),
{
    reveal(Seq::filter);
    if ws.len() > 0 {
        lemma_kept_is_filter(ws.drop_last(), keep.drop_last(), p);
        assert(keep.last() == p(ws.last()));
    }
}

/// `strip_title_noise`.
pub fn strip_noise_chars(t: &[char]) -> (r: Vec<char>)
    ensures
        r@ == strip_noise_spec(t@),
{
    let n = normalize_query_chars(t);
    let ws = split_words(n.as_slice());
    let noise = noise_list();
    let mut keep: Vec<bool> = Vec::new();
    let ghost wv = ws@.map_values(|v: Vec<char>| v@);
    assert(wv =~= words(n@));
    let mut i: usize = 0;
    while i < ws.len()
        invariant
            i <= ws.len(),
            keep@.len() == i,
            wv == ws@.map_values(|v: Vec<char>| v@),
            noise@.map_values(|v: Vec<char>| v@) == noise_tokens(),
            forall|k: int| 0 <= k < i ==> keep@[k] == !is_noise_token(#[trigger] wv[k]),
        decreases ws.len() - i,
    {
        let low = to_lower(ws[i].as_slice());
        let is_noise = in_list(&noise, low.as_slice());
        keep.push(!is_noise);
        i = i + 1;
    }
    proof {
        lemma_kept_is_filter(wv, keep@, |w: Seq<char>| !is_noise_token(w));
    }
    join_kept(&ws, &keep)
}

/// The normalized title without resolution, codec and source tags.
pub fn strip_title_noise(title: &str) -> (r: String)
    ensures
        r@ == strip_noise_spec(title@),
{
    let t = chars_of(title);
    string_of(strip_noise_chars(t.as_slice()).as_slice())
}

/// A four-character token that reads as a year between 1900 and 2099.
pub open spec fn is_year_token(tok: Seq<char>) -> bool {
    tok.len() == 4 && match parse_uint_spec(tok, 65535) {
        Some(y) => 1900 <= y && y <= 2099,
        None => false,
    }
}

/// A token of the form `sNNeNN` (any case).
pub open spec fn is_tv_marker(tok: Seq<char>) -> bool {
    let l = lower(tok);
    l.len() == 6 && l[0] == 's' && l[3] == 'e' && is_digit(l[1]) && is_digit(l[2]) && is_digit(
        l[4],
    ) && is_digit(l[5])
}

/// `compact_identity_query`: the stripped title without years and episode
/// markers.
pub open spec fn compact_identity_spec(t: Seq<char>) -> Seq<char> {
    join(
        words(strip_noise_spec(t)).filter(|w: Seq<char>| !is_year_token(w) && !is_tv_marker(w)),
        seq![' '],
    )
}

fn year_token(tok: &[char]) -> (r: bool)
    ensures
        r == is_year_token(tok@),
{
    if tok.len() != 4 {
        return false;
    }
    match parse_uint(tok, 65535) {
        Some(y) => 1900 <= y && y <= 2099,
        None => false,
    }
}

fn tv_marker(tok: &[char]) -> (r: bool)
    ensures
        r == is_tv_marker(tok@),
{
    let l = to_lower(tok);
    l.len() == 6 && l[0] == 's' && l[3] == 'e' && ('0' <= l[1] && l[1] <= '9') && ('0' <= l[2]
        && l[2] <= '9') && ('0' <= l[4] && l[4] <= '9') && ('0' <= l[5] && l[5] <= '9')
}

/// A title without year and episode markers.
pub fn compact_identity_chars(t: &[char]) -> (r: Vec<char>)
    ensures
        r@ == compact_identity_spec(t@),
{
    let s = strip_noise_chars(t);
    let ws = split_words(s.as_slice());
    let mut keep: Vec<bool> = Vec::new();
    let ghost wv = ws@.map_values(|v: Vec<char>| v@);
    assert(wv =~= words(s@));
    let mut i: usize = 0;
    while i < ws.len()
        invariant
            i <= ws.len(),
            keep@.len() == i,
            wv == ws@.map_values(|v: Vec<char>| v@),
            forall|k: int|
                0 <= k < i ==> keep@[k] == (!is_year_token(#[trigger] wv[k]) && !is_tv_marker(
                    wv[k],
                )),
        decreases ws.len() - i,
    {
        let y = year_token(ws[i].as_slice());
        let m = tv_marker(ws[i].as_slice());
        keep.push(!y && !m);
        i = i + 1;
    }
    proof {
        lemma_kept_is_filter(
            wv,
            keep@,
            |w: Seq<char>| !is_year_token(w) && !is_tv_marker(w),
        );
    }
    join_kept(&ws, &keep)
}

/// The title without release tags, years and `SxxEyy` markers.
pub fn compact_identity_query(title: &str) -> (r: String)
    ensures
        r@ == compact_identity_spec(title@),
{
    let t = chars_of(title);
    string_of(compact_identity_chars(t.as_slice()).as_slice())
}

/// Two texts equal up to ASCII case (`str::eq_ignore_ascii_case`).
pub open spec fn eq_ignore_case(a: Seq<char>, b: Seq<char>) -> bool {
    lower(a) == lower(b)
}

/// Equality of two texts, ASCII case ignored.
pub fn eq_ignore_ascii_case(a: &[char], b: &[char]) -> (r: bool)
    ensures
        r == eq_ignore_case(a@, b@),
{
    let la = to_lower(a);
    let lb = to_lower(b);
    chars_eq(la.as_slice(), lb.as_slice())
}

/// `push_unique_variant`: the trimmed candidate appended unless it is empty
/// or already present up to ASCII case.
pub open spec fn push_variant_spec(vs: Seq<Seq<char>>, c: Seq<char>) -> Seq<Seq<char>> {
    let t = trim(c);
    if t.len() == 0 || exists|k: int| 0 <= k < vs.len() && eq_ignore_case(#[trigger] vs[k], t) {
        vs
    } else {
        vs.push(t)
    }
}

/// No two entries are equal ignoring ASCII case.
pub open spec fn no_case_duplicates(vs: Seq<Seq<char>>) -> bool {
    forall|i: int, j: int|
        0 <= i < vs.len() && 0 <= j < vs.len() && i != j ==> !eq_ignore_case(
            #[trigger] vs[i],
            #[trigger] vs[j],
        )
}

/// Pushing a variant never brings in a duplicate that differs only in
/// case, nor an empty or untrimmed entry.
pub proof fn lemma_push_variant_keeps_unique(vs: Seq<Seq<char>>, c: Seq<char>)
    requires
        no_case_duplicates(vs),
    ensures
        no_case_duplicates(push_variant_spec(vs, c)),
        push_variant_spec(vs, c).len() > vs.len() ==> push_variant_spec(vs, c).last() == trim(c)
            && trim(c).len() > 0,
{
    let t = trim(c);
    if !(t.len() == 0 || exists|k: int| 0 <= k < vs.len() && eq_ignore_case(#[trigger] vs[k], t)) {
        let r = vs.push(t);
        assert forall|i: int, j: int|
            0 <= i < r.len() && 0 <= j < r.len() && i != j implies !eq_ignore_case(
            #[trigger] r[i],
            #[trigger] r[j],
        ) by {
            if i == vs.len() {
                assert(!eq_ignore_case(vs[j], t));
            } else if j == vs.len() {
                assert(!eq_ignore_case(vs[i], t));
            } else {
                assert(r[i] == vs[i] && r[j] == vs[j]);
            }
        }
    }
}

/// Adds a non-empty query variant unless it is there already, case ignored.
pub fn push_unique_variant(variants: &mut Vec<String>, candidate: String)
    ensures
        views(final(variants)@) == push_variant_spec(views(old(variants)@), candidate@),
{
    let cv = chars_of(candidate.as_str());
    let t = trim_chars(cv.as_slice());
    if t.len() == 0 {
        return;
    }
    let ghost vs = views(variants@);
    let mut i: usize = 0;
    while i < variants.len()
        invariant
            i <= variants.len(),
            vs == views(variants@),
            t@ == trim(candidate@),
            forall|k: int| 0 <= k < i ==> !eq_ignore_case(#[trigger] vs[k], t@),
        decreases variants.len() - i,
    {
        let e = chars_of(variants[i].as_str());
        if eq_ignore_ascii_case(e.as_slice(), t.as_slice()) {
            assert(eq_ignore_case(vs[i as int], t@));
            return;
        }
        i = i + 1;
    }
    variants.push(string_of(t.as_slice()));
    assert(views(variants@) =~= vs.push(t@));
}

/// Search variants of a title: as given, normalized, without release
/// tags, and without years and episode markers, each also normalized;
/// duplicates (up to ASCII case) and blanks dropped.
pub open spec fn title_variants_spec(title: Seq<char>) -> Seq<Seq<char>> {
    let raw = trim(title);
    if raw.len() == 0 {
        seq![]
    } else {
        let v1 = push_variant_spec(push_variant_spec(seq![], raw), normalize_query_spec(raw));
        let stripped = strip_noise_spec(raw);
        let v2 = if stripped.len() > 0 {
            push_variant_spec(push_variant_spec(v1, stripped), normalize_query_spec(stripped))
        } else {
            v1
        };
        let identity = compact_identity_spec(raw);
        if identity.len() > 0 {
            push_variant_spec(push_variant_spec(v2, identity), normalize_query_spec(identity))
        } else {
            v2
        }
    }
}

/// `title_query_variants`.
pub fn title_query_variants(title: &str) -> (r: Vec<String>)
    ensures
        views(r@) == title_variants_spec(title@),
{
    let mut variants: Vec<String> = Vec::new();
    let raw = crate::text::trim_str(title);
    if raw.len() == 0 {
        assert(views(variants@) =~= Seq::<Seq<char>>::empty());
        return variants;
    }
    assert(views(variants@) =~= Seq::<Seq<char>>::empty());
    push_unique_variant(&mut variants, string_of(raw.as_slice()));
    push_unique_variant(&mut variants, string_of(normalize_query_chars(raw.as_slice()).as_slice()));
    let stripped = strip_noise_chars(raw.as_slice());
    if stripped.len() > 0 {
        push_unique_variant(&mut variants, string_of(stripped.as_slice()));
        push_unique_variant(
            &mut variants,
            string_of(normalize_query_chars(stripped.as_slice()).as_slice()),
        );
    }
    let identity = compact_identity_chars(raw.as_slice());
    if identity.len() > 0 {
        push_unique_variant(&mut variants, string_of(identity.as_slice()));
        push_unique_variant(
            &mut variants,
            string_of(normalize_query_chars(identity.as_slice()).as_slice()),
        );
    }
    variants
}

/// `normalized_identity_tokens`: the lower-cased, normalized title without
/// release tags (used to compare titles).
pub fn normalized_identity_tokens(raw: &str) -> (r: String)
    ensures
        r@ == lower(normalize_query_spec(strip_noise_spec(raw@))),
{
    let t = chars_of(raw);
    let s = strip_noise_chars(t.as_slice());
    let n = normalize_query_chars(s.as_slice());
    string_of(to_lower(n.as_slice()).as_slice())
}

/// `is_context_junk`: season folders such as `Season 1` or `S02`.
pub open spec fn is_context_junk_spec(label: Seq<char>) -> bool {
    let l = lower(trim(label));
    l.len() == 0 || seq![
        "season 01"@,
        "season 1"@,
        "season 02"@,
        "season 2"@,
        "s01"@,
        "s02"@,
        "s1"@,
        "s2"@,
    ].contains(l) || (l.len() <= 6 && l[0] == 's' && all_digits(l.drop_first()))
}

/// Whether a directory label says nothing about the title (see `is_context_junk_spec`).
pub fn is_context_junk(label: &str) -> (r: bool)
    ensures
        r == is_context_junk_spec(label@),
{
    let t = crate::text::trim_str(label);
    let l = to_lower(t.as_slice());
    if l.len() == 0 {
        return true;
    }
    let lits: [&str; 8] = ["season 01", "season 1", "season 02", "season 2", "s01", "s02", "s1", "s2"];
    let ghost set = seq![
        "season 01"@,
        "season 1"@,
        "season 02"@,
        "season 2"@,
        "s01"@,
        "s02"@,
        "s1"@,
        "s2"@,
    ];
    assert(crate::text::str_views(lits@) =~= set);
    let mut i: usize = 0;
    while i < 8
        invariant
            i <= 8,
            crate::text::str_views(lits@) == set,
            set == seq![
                "season 01"@,
                "season 1"@,
                "season 02"@,
                "season 2"@,
                "s01"@,
                "s02"@,
                "s1"@,
                "s2"@,
            ],
            l@ == lower(trim(label@)),
            l@.len() > 0,
            forall|k: int| 0 <= k < i ==> set[k] != l@,
        decreases 8 - i,
    {
        let e = chars_of(lits[i]);
        if chars_eq(e.as_slice(), l.as_slice()) {
            assert(set[i as int] == l@);
            return true;
        }
        i = i + 1;
    }
    if l.len() <= 6 && l[0] == 's' {
        let rest = l.as_slice().split_at(1).1;
        assert(rest@ =~= l@.drop_first());
        crate::text::is_all_digits(rest)
    } else {
        false
    }
}

/// Names of up to four parent folders of `path`, normalized, skipping
/// season folders, without repeats (`path_context_title_hints`).
pub open spec fn hints_from(dirs: Seq<Seq<char>>, acc: Seq<Seq<char>>) -> Seq<Seq<char>>
    decreases dirs.len(),
{
    if dirs.len() == 0 {
        acc
    } else {
        let next = match file_name_spec(dirs[0]) {
            Some(name) => {
                let label = normalize_query_spec(name);
                if label.len() == 0 || is_context_junk_spec(label) {
                    acc
                } else {
                    push_variant_spec(acc, label)
                }
            },
            None => acc,
        };
        hints_from(dirs.drop_first(), next)
    }
}

/// The titles the nearest directories of a path suggest.
pub fn path_context_title_hints(path: &str) -> (r: Vec<String>)
    ensures
        views(r@) == hints_from(ancestors(path@, 4), seq![]),
{
    let parents = collect_parent_dirs(path, 4);
    let ghost pv = views(parents@);
    let mut hints: Vec<String> = Vec::new();
    let mut i: usize = 0;
    assert(pv.skip(0) =~= pv);
    assert(views(hints@) =~= Seq::<Seq<char>>::empty());
    while i < parents.len()
        invariant
            i <= parents.len(),
            pv == views(parents@),
            pv == ancestors(path@, 4),
            hints_from(pv.skip(i as int), views(hints@)) == hints_from(pv, seq![]),
        decreases parents.len() - i,
    {
        assert(pv.skip(i as int)[0] == parents@[i as int]@);
        assert(pv.skip(i as int).drop_first() =~= pv.skip(i + 1));
        match file_name(parents[i].as_str()) {
            Some(name) => {
                let label = normalize_title_query(name.as_str());
                if !(label.as_str().is_empty() || is_context_junk(label.as_str())) {
                    push_unique_variant(&mut hints, label);
                }
            },
            None => {},
        }
        i = i + 1;
    }
    hints
}

/// Normalized names of up to four parent folders, blanks dropped
/// (`context_parent_labels`).
pub open spec fn labels_from(dirs: Seq<Seq<char>>) -> Seq<Seq<char>>
    decreases dirs.len(),
{
    if dirs.len() == 0 {
        seq![]
    } else {
        (match file_name_spec(dirs[0]) {
            Some(name) => if normalize_query_spec(name).len() > 0 {
                seq![normalize_query_spec(name)]
            } else {
                seq![]
            },
            None => seq![],
        }) + labels_from(dirs.drop_first())
    }
}

/// The labels of the nearest directories of a path, for the AI prompt.
pub fn context_parent_labels(path: &str) -> (r: Vec<String>)
    ensures
        views(r@) == labels_from(ancestors(path@, 4)),
{
    let parents = collect_parent_dirs(path, 4);
    let ghost pv = views(parents@);
    let mut out: Vec<String> = Vec::new();
    let mut i: usize = 0;
    assert(pv.skip(0) =~= pv);
    assert(views(out@) + labels_from(pv) =~= labels_from(pv));
    while i < parents.len()
        invariant
            i <= parents.len(),
            pv == views(parents@),
            pv == ancestors(path@, 4),
            views(out@) + labels_from(pv.skip(i as int)) == labels_from(pv),
        decreases parents.len() - i,
    {
        let ghost before = views(out@);
        assert(pv.skip(i as int)[0] == parents@[i as int]@);
        assert(pv.skip(i as int).drop_first() =~= pv.skip(i + 1));
        match file_name(parents[i].as_str()) {
            Some(name) => {
                let label = normalize_title_query(name.as_str());
                if !label.as_str().is_empty() {
                    out.push(label);
                }
            },
            None => {},
        }
        assert(views(out@) + labels_from(pv.skip(i + 1)) =~= labels_from(pv));
        i = i + 1;
    }
    assert(pv.skip(i as int) =~= Seq::<Seq<char>>::empty());
    assert(views(out@) + Seq::<Seq<char>>::empty() =~= views(out@));
    out
}

// ---------------------------------------------------------------------------
// Cache key
// ---------------------------------------------------------------------------

pub open spec fn opt_decimal(o: Option<nat>) -> Seq<char> {
    match o {
        Some(n) => decimal(n),
        None => seq![],
    }
}

/// `MediaType:title:year:season:episode` (missing values left empty).
pub open spec fn scrape_cache_key_spec(
    raw_title: Seq<char>,
    year: Option<u16>,
    season: Option<u32>,
    episode: Option<u32>,
    media_type: MediaType,
) -> Seq<char> {
    media_type_name_spec(media_type) + seq![':'] + trim(raw_title) + seq![':'] + opt_decimal(
        match year {
            Some(y) => Some(y as nat),
            None => None,
        },
    ) + seq![':'] + opt_decimal(
        match season {
            Some(y) => Some(y as nat),
            None => None,
        },
    ) + seq![':'] + opt_decimal(
        match episode {
            Some(y) => Some(y as nat),
            None => None,
        },
    )
}

pub open spec fn opt_nat32(o: Option<u32>) -> Option<nat> {
    match o {
        Some(x) => Some(x as nat),
        None => None,
    }
}

/// An optional number written in decimal is digits only, and tells the
/// number back.
proof fn lemma_opt_decimal(a: Option<nat>, b: Option<nat>)
    ensures
        all_digits(opt_decimal(a)),
        opt_decimal(a) == opt_decimal(b) ==> a == b,
{
    match a {
        Some(x) => crate::text::lemma_decimal_digits(x),
        None => {},
    }
    match b {
        Some(y) => crate::text::lemma_decimal_digits(y),
        None => {},
    }
}

/// Two parses of one title that differ in season or episode get different
/// scrape cache keys, so the metadata cached for one episode is never
/// served for another.
pub proof fn lemma_cache_key_separates_episodes(
    raw_title: Seq<char>,
    year: Option<u16>,
    s1: Option<u32>,
    e1: Option<u32>,
    s2: Option<u32>,
    e2: Option<u32>,
    media_type: MediaType,
)
    requires
        s1 != s2 || e1 != e2,
    ensures
        scrape_cache_key_spec(raw_title, year, s1, e1, media_type) != scrape_cache_key_spec(
            raw_title,
            year,
            s2,
            e2,
            media_type,
        ),
{
    let p = media_type_name_spec(media_type) + seq![':'] + trim(raw_title) + seq![':'] + opt_decimal(
        match year {
            Some(y) => Some(y as nat),
            None => None,
        },
    ) + seq![':'];
    let a = opt_decimal(opt_nat32(s1));
    let b = opt_decimal(opt_nat32(e1));
    let c = opt_decimal(opt_nat32(s2));
    let d = opt_decimal(opt_nat32(e2));
    let k1 = p + a + seq![':'] + b;
    let k2 = p + c + seq![':'] + d;
    assert(scrape_cache_key_spec(raw_title, year, s1, e1, media_type) == k1);
    assert(scrape_cache_key_spec(raw_title, year, s2, e2, media_type) == k2);
    lemma_opt_decimal(opt_nat32(s1), opt_nat32(s2));
    lemma_opt_decimal(opt_nat32(s2), opt_nat32(s1));
    lemma_opt_decimal(opt_nat32(e1), opt_nat32(e2));
    if k1 == k2 {
        let n: int = p.len() as int;
        if a.len() < c.len() {
            assert(k1[n + a.len()] == ':');
            assert(k2[n + a.len()] == c[a.len() as int]);
            assert(is_digit(c[a.len() as int]));
            assert(false);
        } else if c.len() < a.len() {
            assert(k2[n + c.len()] == ':');
            assert(k1[n + c.len()] == a[c.len() as int]);
            assert(is_digit(a[c.len() as int]));
            assert(false);
        }
        assert(a =~= k1.subrange(n, n + a.len() as int));
        assert(c =~= k2.subrange(n, n + c.len() as int));
        assert(b =~= k1.skip(n + a.len() as int + 1));
        assert(d =~= k2.skip(n + c.len() as int + 1));
        assert(opt_nat32(s1) == opt_nat32(s2));
        assert(opt_nat32(e1) == opt_nat32(e2));
        assert(s1 == s2);
        assert(e1 == e2);
    }
}

fn push_opt_decimal(out: &mut Vec<char>, v: Option<u64>)
    ensures
        final(out)@ == old(out)@ + opt_decimal(
            match v {
                Some(n) => Some(n as nat),
                None => None,
            },
        ),
{
    match v {
        Some(n) => {
            let d = decimal_of(n);
            append_chars(out, d.as_slice());
        },
        None => {
            assert(out@ =~= old(out)@ + Seq::<char>::empty());
        },
    }
}

/// Key under which scrape results are cached for a parsed file name.
pub fn scrape_cache_key(
    raw_title: &str,
    year: Option<u16>,
    season: Option<u32>,
    episode: Option<u32>,
    media_type: MediaType,
) -> (r: String)
    ensures
        r@ == scrape_cache_key_spec(raw_title@, year, season, episode, media_type),
{
    let mut out = chars_of(media_type_name(media_type));
    out.push(':');
    let t = crate::text::trim_str(raw_title);
    append_chars(&mut out, t.as_slice());
    out.push(':');
    push_opt_decimal(
        &mut out,
        match year {
            Some(y) => Some(y as u64),
            None => None,
        },
    );
    out.push(':');
    push_opt_decimal(
        &mut out,
        match season {
            Some(y) => Some(y as u64),
            None => None,
        },
    );
    out.push(':');
    push_opt_decimal(
        &mut out,
        match episode {
            Some(y) => Some(y as u64),
            None => None,
        },
    );
    string_of(out.as_slice())
}

// ---------------------------------------------------------------------------
// URL encoding
// ---------------------------------------------------------------------------

pub open spec fn is_unreserved(b: u8) -> bool {
    (65 <= b && b <= 90) || (97 <= b && b <= 122) || (48 <= b && b <= 57) || b == 45 || b == 95
        || b == 46 || b == 126
}

pub open spec fn hex_digit(n: u8) -> char {
    if n < 10 {
        ((n + 48) as u8) as char
    } else {
        ((n + 55) as u8) as char
    }
}

/// Percent-encoding of one byte: unreserved bytes stay, others become `%XX`.
pub open spec fn encode_byte(b: u8) -> Seq<char> {
    if is_unreserved(b) {
        seq![b as char]
    } else {
        seq!['%', hex_digit(b / 16), hex_digit(b % 16)]
    }
}

pub open spec fn encode_bytes(bs: Seq<u8>) -> Seq<char>
    decreases bs.len(),
{
    if bs.len() == 0 {
        seq![]
    } else {
        encode_bytes(bs.drop_last()) + encode_byte(bs.last())
    }
}

fn hex_char(n: u8) -> (r: char)
    requires
        n < 16,
    ensures
        r == hex_digit(n),
{
    if n < 10 {
        (n + 48) as char
    } else {
        (n + 55) as char
    }
}

/// Percent-encodes the UTF-8 bytes of `s` (RFC 3986 unreserved characters
/// are kept).
pub fn encode(s: &str) -> (r: String)
    ensures
        r@ == encode_bytes(s.spec_bytes()),
{
    let bytes = s.as_bytes();
    let mut out: Vec<char> = Vec::new();
    let mut i: usize = 0;
    while i < bytes.len()
        invariant
            i <= bytes.len(),
            bytes@ == s.spec_bytes(),
            out@ == encode_bytes(bytes@.take(i as int)),
        decreases bytes.len() - i,
    {
        let b = bytes[i];
        assert(bytes@.take(i + 1).drop_last() =~= bytes@.take(i as int));
        if (65 <= b && b <= 90) || (97 <= b && b <= 122) || (48 <= b && b <= 57) || b == 45 || b
            == 95 || b == 46 || b == 126 {
            out.push(b as char);
        } else {
            out.push('%');
            out.push(hex_char(b / 16));
            out.push(hex_char(b % 16));
        }
        i = i + 1;
        assert(out@ =~= encode_bytes(bytes@.take(i as int)));
    }
    assert(bytes@.take(bytes.len() as int) =~= bytes@);
    string_of(out.as_slice())
}

// ---------------------------------------------------------------------------
// Artwork
// ---------------------------------------------------------------------------

/// Artwork URLs of scraped metadata: poster, fanart, cover, those present.
pub fn collect_urls(poster_url: Option<&str>, fanart_url: Option<&str>, cover_url: Option<&str>) -> (r:
    Vec<String>)
    ensures
        views(r@) == (match poster_url {
            Some(u) => seq![u@],
            None => seq![],
        }) + (match fanart_url {
            Some(u) => seq![u@],
            None => seq![],
        }) + (match cover_url {
            Some(u) => seq![u@],
            None => seq![],
        }),
{
    let mut urls: Vec<String> = Vec::new();
    match poster_url {
        Some(u) => urls.push(crate::text::owned(u)),
        None => {},
    }
    match fanart_url {
        Some(u) => urls.push(crate::text::owned(u)),
        None => {},
    }
    match cover_url {
        Some(u) => urls.push(crate::text::owned(u)),
        None => {},
    }
    assert(views(urls@) =~= (match poster_url {
        Some(u) => seq![u@],
        None => seq![],
    }) + (match fanart_url {
        Some(u) => seq![u@],
        None => seq![],
    }) + (match cover_url {
        Some(u) => seq![u@],
        None => seq![],
    }));
    urls
}

/// File name of the `index`-th artwork: `poster`, `fanart`, then `image`,
/// with `png` when the URL mentions `.png` and `jpg` otherwise.
pub open spec fn image_name(index: nat, url: Seq<char>) -> Seq<char> {
    (if index == 0 {
        "poster"@
    } else if index == 1 {
        "fanart"@
    } else {
        "image"@
    }) + "."@ + (if crate::text::contains(url, ".png"@) {
        "png"@
    } else {
        "jpg"@
    })
}

/// Where the `index`-th artwork from `url` is saved in `target_dir`.
pub fn build_image_path(target_dir: &str, index: usize, url: &str) -> (r: String)
    ensures
        r@ == join_spec(target_dir@, image_name(index as nat, url@)),
{
    let mut name: Vec<char> = Vec::new();
    if index == 0 {
        append_str(&mut name, "poster");
    } else if index == 1 {
        append_str(&mut name, "fanart");
    } else {
        append_str(&mut name, "image");
    }
    append_str(&mut name, ".");
    let u = chars_of(url);
    if crate::text::contains_str(u.as_slice(), ".png") {
        append_str(&mut name, "png");
    } else {
        append_str(&mut name, "jpg");
    }
    let d = chars_of(target_dir);
    let r = crate::paths::join_chars(d.as_slice(), name.as_slice());
    string_of(r.as_slice())
}


// ---------------------------------------------------------------------------
// Music queries
// ---------------------------------------------------------------------------

/// `str::split_once(sep)` with both halves trimmed, when neither is empty.
pub open spec fn split_pair(n: Seq<char>, sep: Seq<char>) -> Option<(Seq<char>, Seq<char>)> {
    match crate::text::find_spec(n, sep, 0) {
        Some(i) => {
            let a = trim(n.take(i));
            let t = trim(n.skip(i + sep.len()));
            if a.len() > 0 && t.len() > 0 {
                Some((a, t))
            } else {
                None
            }
        },
        None => None,
    }
}

pub open spec fn opt_split(o: Option<(Seq<char>, Seq<char>)>) -> Seq<(Seq<char>, Seq<char>)> {
    match o {
        Some(x) => seq![x],
        None => seq![],
    }
}

/// `music_query_variants`: (artist, title) guesses from a title: each of
/// `artist - title` with a hyphen, en dash or em dash; else the first word
/// and the rest; else the whole title twice.
pub open spec fn music_variants_spec(raw: Seq<char>) -> Seq<(Seq<char>, Seq<char>)> {
    let n = normalize_query_spec(raw);
    let v = opt_split(split_pair(n, " - "@)) + opt_split(split_pair(n, " – "@)) + opt_split(
        split_pair(n, " — "@),
    );
    if v.len() > 0 {
        v
    } else {
        let w = crate::text::words(n);
        if w.len() >= 2 {
            seq![(w[0], crate::text::join(w.skip(1), seq![' ']))]
        } else {
            seq![(n, n)]
        }
    }
}

fn split_pair_exec(n: &[char], sep: &str) -> (r: Option<(String, String)>)
    ensures
        match r {
            Some((a, t)) => split_pair(n@, sep@) == Some((a@, t@)),
            None => split_pair(n@, sep@) is None,
        },
{
    let sv = chars_of(sep);
    match crate::text::find_from(n, sv.as_slice(), 0) {
        Some(i) => {
            assert(i + sv.len() <= n.len());
            let head = n.split_at(i).0;
            let tail = n.split_at(i + sv.len()).1;
            assert(head@ =~= n@.take(i as int));
            assert(tail@ =~= n@.skip(i + sv.len()));
            let a = trim_chars(head);
            let t = trim_chars(tail);
            if a.len() > 0 && t.len() > 0 {
                Some((string_of(a.as_slice()), string_of(t.as_slice())))
            } else {
                None
            }
        },
        None => None,
    }
}

pub open spec fn music_pairs_view(v: Seq<(String, String)>) -> Seq<(Seq<char>, Seq<char>)> {
    v.map_values(|p: (String, String)| (p.0@, p.1@))
}

fn push_split(v: &mut Vec<(String, String)>, o: Option<(String, String)>)
    ensures
        music_pairs_view(final(v)@) == music_pairs_view(old(v)@) + opt_split(
            match o {
                Some(p) => Some((p.0@, p.1@)),
                None => None,
            },
        ),
{
    match o {
        Some(p) => {
            let ghost before = music_pairs_view(v@);
            let ghost pv = (p.0@, p.1@);
            v.push(p);
            assert(music_pairs_view(v@) =~= before + seq![pv]);
        },
        None => {
            assert(music_pairs_view(v@) =~= music_pairs_view(v@) + Seq::<(Seq<char>, Seq<char>)>::empty());
        },
    }
}

/// The (artist, title) pairs to search for a music file, in order.
pub fn music_query_variants(raw_title: &str) -> (r: Vec<(String, String)>)
    ensures
        music_pairs_view(r@) == music_variants_spec(raw_title@),
{
    let t = chars_of(raw_title);
    let n = normalize_query_chars(t.as_slice());
    let mut variants: Vec<(String, String)> = Vec::new();
    assert(music_pairs_view(variants@) =~= Seq::<(Seq<char>, Seq<char>)>::empty());
    let a = split_pair_exec(n.as_slice(), " - ");
    push_split(&mut variants, a);
    let b = split_pair_exec(n.as_slice(), " – ");
    push_split(&mut variants, b);
    let c = split_pair_exec(n.as_slice(), " — ");
    push_split(&mut variants, c);
    if variants.len() > 0 {
        return variants;
    }
    let parts = crate::text::split_words(n.as_slice());
    assert(crate::text::seqs(parts@) =~= crate::text::words(n@));
    if parts.len() >= 2 {
        let mut rest: Vec<Vec<char>> = Vec::new();
        let mut i: usize = 1;
        while i < parts.len()
            invariant
                1 <= i <= parts.len(),
                crate::text::seqs(rest@) == crate::text::seqs(parts@).subrange(1, i as int),
            decreases parts.len() - i,
        {
            let ghost before = crate::text::seqs(rest@);
            let w = crate::text::to_vec(parts[i].as_slice());
            assert(w@ == parts@[i as int]@);
            rest.push(w);
            assert(crate::text::seqs(rest@) =~= before.push(parts@[i as int]@));
            assert(crate::text::seqs(parts@).subrange(1, i + 1) =~= crate::text::seqs(parts@).subrange(1, i as int).push(parts@[i as int]@));
            i = i + 1;
        }
        assert(crate::text::seqs(parts@).subrange(1, parts.len() as int) =~= crate::text::seqs(
            parts@,
        ).skip(1));
        let sep: Vec<char> = vec![' '];
        assert(sep@ =~= seq![' ']);
        let joined = crate::text::join_chars(&rest, sep.as_slice());
        let first = string_of(parts[0].as_slice());
        let pair = (first, string_of(joined.as_slice()));
        let ghost pv = (pair.0@, pair.1@);
        let v = vec![pair];
        assert(music_pairs_view(v@) =~= seq![pv]);
        v
    } else {
        let ns = string_of(n.as_slice());
        let v = vec![(string_of(n.as_slice()), ns)];
        assert(music_pairs_view(v@) =~= seq![(n@, n@)]);
        v
    }
}

// ---------------------------------------------------------------------------
// Local NFO lookup
// ---------------------------------------------------------------------------

/// Where a local NFO for a media file may be, in order: `<stem>.nfo` and
/// `tvshow.nfo` beside it, then `tvshow.nfo` in the two directories above.
pub open spec fn nfo_candidates_spec(media: Seq<char>) -> Seq<Seq<char>> {
    match crate::paths::parent_spec(media) {
        None => seq![],
        Some(dir) => match crate::paths::file_stem_spec(media) {
            None => seq![],
            Some(stem) => seq![
                crate::paths::join_spec(dir, stem + ".nfo"@),
                crate::paths::join_spec(dir, "tvshow.nfo"@),
            ] + crate::paths::ancestors(dir, 2).map_values(
                |a: Seq<char>| crate::paths::join_spec(a, "tvshow.nfo"@),
            ),
        },
    }
}

/// The NFO files that may go with a media file, in order of preference.
pub fn nfo_candidates(media_path: &str) -> (r: Vec<String>)
    ensures
        views(r@) == nfo_candidates_spec(media_path@),
{
    let dir = match crate::paths::parent(media_path) {
        Some(d) => d,
        None => {
            let v: Vec<String> = Vec::new();
            assert(views(v@) =~= Seq::<Seq<char>>::empty());
            return v;
        },
    };
    let stem = match crate::paths::file_stem(media_path) {
        Some(s) => s,
        None => {
            let v: Vec<String> = Vec::new();
            assert(views(v@) =~= Seq::<Seq<char>>::empty());
            return v;
        },
    };
    let mut name = chars_of(stem.as_str());
    crate::text::append_str(&mut name, ".nfo");
    let own = crate::paths::join(dir.as_str(), string_of(name.as_slice()).as_str());
    let show = crate::paths::join(dir.as_str(), "tvshow.nfo");
    let mut out: Vec<String> = vec![own, show];
    let ups = crate::paths::collect_parent_dirs(dir.as_str(), 2);
    let ghost head = views(out@);
    let ghost anc = crate::paths::ancestors(dir@, 2);
    let mut i: usize = 0;
    while i < ups.len()
        invariant
            i <= ups.len(),
            views(ups@) == anc,
            views(out@) == head + anc.take(i as int).map_values(
                |a: Seq<char>| crate::paths::join_spec(a, "tvshow.nfo"@),
            ),
        decreases ups.len() - i,
    {
        let ghost before = views(out@);
        let p = crate::paths::join(ups[i].as_str(), "tvshow.nfo");
        out.push(p);
        assert(anc.take(i + 1).map_values(|a: Seq<char>| crate::paths::join_spec(a, "tvshow.nfo"@))
            =~= anc.take(i as int).map_values(
            |a: Seq<char>| crate::paths::join_spec(a, "tvshow.nfo"@),
        ).push(crate::paths::join_spec(anc[i as int], "tvshow.nfo"@)));
        assert(views(out@) =~= before.push(crate::paths::join_spec(anc[i as int], "tvshow.nfo"@)));
        i = i + 1;
    }
    assert(anc.take(ups.len() as int) =~= anc);
    out
}

/// `find_nfo`: the first candidate (see `nfo_candidates_spec`) that the
/// caller found on disk.
pub open spec fn find_nfo_spec(cands: Seq<Seq<char>>, existing: Seq<Seq<char>>) -> Option<Seq<char>>
    decreases cands.len(),
{
    if cands.len() == 0 {
        None
    } else if existing.contains(cands[0]) {
        Some(cands[0])
    } else {
        find_nfo_spec(cands.drop_first(), existing)
    }
}

/// The first NFO candidate of a media file that exists.
pub fn find_nfo(media_path: &str, existing: &Vec<String>) -> (r: Option<String>)
    ensures
        r.deep_view() == find_nfo_spec(nfo_candidates_spec(media_path@), views(existing@)),
{
    let cands = nfo_candidates(media_path);
    let ghost cv = views(cands@);
    let mut i: usize = 0;
    assert(cv.skip(0) =~= cv);
    while i < cands.len()
        invariant
            i <= cands.len(),
            cv == views(cands@),
            cv == nfo_candidates_spec(media_path@),
            find_nfo_spec(cv, views(existing@)) == find_nfo_spec(cv.skip(i as int), views(existing@)),
        decreases cands.len() - i,
    {
        assert(cv.skip(i as int)[0] == cands@[i as int]@);
        assert(cv.skip(i as int).drop_first() =~= cv.skip(i + 1));
        if crate::rename::contains_string(existing, cands[i].as_str()) {
            return Some(crate::text::owned(cands[i].as_str()));
        }
        i = i + 1;
    }
    assert(cv.skip(cands.len() as int) =~= Seq::<Seq<char>>::empty());
    None
}

// ---------------------------------------------------------------------------
// JSON in model replies
// ---------------------------------------------------------------------------

/// `extract_json`: the trimmed body of the first fenced `json` block with a
/// closing fence; else the text from the first `{` to the last `}`; else
/// nothing (an empty text).
pub open spec fn fenced_spec(s: Seq<char>) -> Option<Seq<char>> {
    match crate::text::find_spec(s, "```json"@, 0) {
        Some(i) => match crate::text::find_spec(s, "```"@, i + 7) {
            Some(e) => Some(trim(s.subrange(i + 7, e))),
            None => None,
        },
        None => None,
    }
}

pub open spec fn extract_json_spec(s: Seq<char>) -> Seq<char> {
    match fenced_spec(s) {
        Some(b) => b,
        None => match (first_index(s, '{'), last_index(s, '}')) {
            (Some(a), Some(b)) => if b > a {
                s.subrange(a, b + 1)
            } else {
                seq![]
            },
            _ => seq![],
        },
    }
}

#[verifier::opaque]
pub open spec fn first_index(s: Seq<char>, c: char) -> Option<int> {
    if s.contains(c) {
        Some(choose|i: int| 0 <= i < s.len() && s[i] == c && forall|j: int| 0 <= j < i ==> s[j] != c)
    } else {
        None
    }
}

#[verifier::opaque]
pub open spec fn last_index(s: Seq<char>, c: char) -> Option<int> {
    if s.contains(c) {
        Some(choose|i: int| 0 <= i < s.len() && s[i] == c && forall|j: int| i < j < s.len() ==> s[j] != c)
    } else {
        None
    }
}

fn first_index_exec(s: &[char], c: char) -> (r: Option<usize>)
    ensures
        match r {
            Some(i) => i < s.len() && first_index(s@, c) == Some(i as int),
            None => first_index(s@, c) is None,
        },
{
    reveal(first_index);
    let mut i: usize = 0;
    while i < s.len()
        invariant
            i <= s.len(),
            forall|j: int| 0 <= j < i ==> s@[j] != c,
        decreases s.len() - i,
    {
        if s[i] == c {
            proof {
                reveal(first_index);
            }
            assert(s@.contains(c));
            let ghost k = choose|k: int| 0 <= k < s@.len() && s@[k] == c && forall|j: int| 0 <= j < k ==> s@[j] != c;
            assert(k == i) by {
                if k < i {
                    assert(s@[k] != c);
                }
                if k > i {
                    assert(s@[i as int] != c);
                }
            }
            return Some(i);
        }
        i = i + 1;
    }
    None
}

fn last_index_exec(s: &[char], c: char) -> (r: Option<usize>)
    ensures
        match r {
            Some(i) => i < s.len() && last_index(s@, c) == Some(i as int),
            None => last_index(s@, c) is None,
        },
{
    reveal(last_index);
    let mut i: usize = s.len();
    while i > 0
        invariant
            i <= s.len(),
            forall|j: int| i <= j < s.len() ==> s@[j] != c,
        decreases i,
    {
        if s[i - 1] == c {
            proof {
                reveal(last_index);
            }
            assert(s@.contains(c));
            let ghost k = choose|k: int| 0 <= k < s@.len() && s@[k] == c && forall|j: int| k < j < s@.len() ==> s@[j] != c;
            assert(k == i - 1) by {
                if k < i - 1 {
                    assert(s@[i - 1] != c);
                }
                if k > i - 1 {
                    assert(s@[k] != c);
                }
            }
            return Some(i - 1);
        }
        i = i - 1;
    }
    None
}

fn fenced_exec(v: &[char]) -> (r: Option<Vec<char>>)
    ensures
        match r {
            Some(b) => fenced_spec(v@) == Some(b@),
            None => fenced_spec(v@) is None,
        },
{
    let open_fence = chars_of("```json");
    let close_fence = chars_of("```");
    proof {
        reveal_strlit("```json");
        reveal_strlit("```");
    }
    match crate::text::find_from(v, open_fence.as_slice(), 0) {
        Some(i) => {
            assert(i + 7 <= v.len());
            match crate::text::find_from(v, close_fence.as_slice(), i + 7) {
                Some(e) => {
                    assert(e + 3 <= v.len());
                    let body = v.split_at(e).0.split_at(i + 7).1;
                    assert(body@ =~= v@.subrange(i + 7, e as int));
                    Some(trim_chars(body))
                },
                None => None,
            }
        },
        None => None,
    }
}

/// The JSON object in an AI reply (inside a code fence, or between the outer braces).
pub fn extract_json(s: &str) -> (r: String)
    ensures
        r@ == extract_json_spec(s@),
{
    let v = chars_of(s);
    match fenced_exec(v.as_slice()) {
        Some(b) => {
            return string_of(b.as_slice());
        },
        None => {},
    }
    match (first_index_exec(v.as_slice(), '{'), last_index_exec(v.as_slice(), '}')) {
        (Some(a), Some(b)) => {
            if b > a {
                let body = v.split_at(b + 1).0.split_at(a).1;
                assert(body@ =~= v@.subrange(a as int, b + 1));
                string_of(body)
            } else {
                String::new()
            }
        },
        _ => String::new(),
    }
}


// ---------------------------------------------------------------------------
// Contextual queries and hints
// ---------------------------------------------------------------------------

/// Each candidate of `cands` pushed in turn (see `push_variant_spec`).
pub open spec fn push_all_spec(vs: Seq<Seq<char>>, cands: Seq<Seq<char>>) -> Seq<Seq<char>>
    decreases cands.len(),
{
    if cands.len() == 0 {
        vs
    } else {
        push_variant_spec(push_all_spec(vs, cands.drop_last()), cands.last())
    }
}

/// The variants of each title in turn pushed onto `vs`.
pub open spec fn push_title_variants(vs: Seq<Seq<char>>, titles: Seq<Seq<char>>) -> Seq<Seq<char>>
    decreases titles.len(),
{
    if titles.len() == 0 {
        vs
    } else {
        push_all_spec(push_title_variants(vs, titles.drop_last()), title_variants_spec(titles.last()))
    }
}

/// `contextual_title_queries`: the title's own variants, then those of the
/// content's title candidates, then those of the folder hints.
pub open spec fn contextual_queries_spec(
    path: Seq<char>,
    raw_title: Seq<char>,
    title_candidates: Seq<Seq<char>>,
) -> Seq<Seq<char>> {
    push_title_variants(
        push_title_variants(title_variants_spec(raw_title), title_candidates),
        hints_from(ancestors(path, 4), seq![]),
    )
}

fn push_all_exec(vs: &mut Vec<String>, cands: &Vec<String>)
    ensures
        views(final(vs)@) == push_all_spec(views(old(vs)@), views(cands@)),
{
    let ghost start = views(vs@);
    let mut i: usize = 0;
    while i < cands.len()
        invariant
            i <= cands.len(),
            views(vs@) == push_all_spec(start, views(cands@).take(i as int)),
        decreases cands.len() - i,
    {
        proof {
            let t = views(cands@).take(i + 1);
            assert(t.drop_last() =~= views(cands@).take(i as int));
            assert(t.last() == cands@[i as int]@);
        }
        push_unique_variant(vs, crate::text::owned(cands[i].as_str()));
        i = i + 1;
    }
    assert(views(cands@).take(cands.len() as int) =~= views(cands@));
}

fn push_title_variants_exec(vs: &mut Vec<String>, titles: &Vec<String>)
    ensures
        views(final(vs)@) == push_title_variants(views(old(vs)@), views(titles@)),
{
    let ghost start = views(vs@);
    let mut i: usize = 0;
    while i < titles.len()
        invariant
            i <= titles.len(),
            views(vs@) == push_title_variants(start, views(titles@).take(i as int)),
        decreases titles.len() - i,
    {
        proof {
            let t = views(titles@).take(i + 1);
            assert(t.drop_last() =~= views(titles@).take(i as int));
            assert(t.last() == titles@[i as int]@);
        }
        let q = title_query_variants(titles[i].as_str());
        push_all_exec(vs, &q);
        i = i + 1;
    }
    assert(views(titles@).take(titles.len() as int) =~= views(titles@));
}

/// `contextual_title_queries` for a file, its parsed title and the title
/// candidates its content gave.
pub fn contextual_title_queries(
    path: &str,
    raw_title: &str,
    title_candidates: &Vec<String>,
) -> (r: Vec<String>)
    ensures
        views(r@) == contextual_queries_spec(path@, raw_title@, views(title_candidates@)),
{
    let mut variants = title_query_variants(raw_title);
    push_title_variants_exec(&mut variants, title_candidates);
    let hints = path_context_title_hints(path);
    push_title_variants_exec(&mut variants, &hints);
    variants
}

/// The season to look up: the parsed one, else the content's first guess.
pub fn preferred_season_hint(parsed_season: Option<u32>, season_hypotheses: &Vec<u32>) -> (r: Option<u32>)
    ensures
        r == (match parsed_season {
            Some(s) => Some(s),
            None => if season_hypotheses@.len() > 0 {
                Some(season_hypotheses@[0])
            } else {
                None
            },
        }),
{
    match parsed_season {
        Some(s) => Some(s),
        None => if season_hypotheses.len() > 0 {
            Some(season_hypotheses[0])
        } else {
            None
        },
    }
}

/// The episode to look up: the parsed one, else the content's first guess.
pub fn preferred_episode_hint(parsed_episode: Option<u32>, episode_hypotheses: &Vec<u32>) -> (r: Option<u32>)
    ensures
        r == (match parsed_episode {
            Some(e) => Some(e),
            None => if episode_hypotheses@.len() > 0 {
                Some(episode_hypotheses@[0])
            } else {
                None
            },
        }),
{
    match parsed_episode {
        Some(e) => Some(e),
        None => if episode_hypotheses.len() > 0 {
            Some(episode_hypotheses[0])
        } else {
            None
        },
    }
}

// ---------------------------------------------------------------------------
// The fallback chain
// ---------------------------------------------------------------------------

/// What one entry of the fallback chain asks for.
#[derive(Debug, Clone, Copy, PartialEq, Eq, Structural)]
pub enum FallbackStep {
    Local,
    Tmdb,
    MusicBrainz,
    OpenLibrary,
    Ai,
    AiUnavailable,
    Guess,
    Skip,
}

/// The step for a chain entry (names compared trimmed and in ASCII lower
/// case): a provider is asked only for the media it serves and with a
/// parsed title; the AI step needs a configured client.
pub open spec fn fallback_step_spec(
    name: Seq<char>,
    t: MediaType,
    has_parsed: bool,
    ai_configured: bool,
) -> FallbackStep {
    let n = lower(trim(name));
    if n == "local"@ {
        FallbackStep::Local
    } else if n == "tmdb"@ {
        if (t == MediaType::Movie || t == MediaType::TvShow) && has_parsed {
            FallbackStep::Tmdb
        } else {
            FallbackStep::Skip
        }
    } else if n == "musicbrainz"@ {
        if t == MediaType::Music && has_parsed {
            FallbackStep::MusicBrainz
        } else {
            FallbackStep::Skip
        }
    } else if n == "openlibrary"@ || n == "ol"@ {
        if t == MediaType::Novel && has_parsed {
            FallbackStep::OpenLibrary
        } else {
            FallbackStep::Skip
        }
    } else if n == "ai"@ {
        if ai_configured {
            FallbackStep::Ai
        } else {
            FallbackStep::AiUnavailable
        }
    } else if n == "guess"@ {
        FallbackStep::Guess
    } else {
        FallbackStep::Skip
    }
}

/// The action the fallback chain takes for one of its entries.
pub fn fallback_step(name: &str, media_type: MediaType, has_parsed: bool, ai_configured: bool) -> (r:
    FallbackStep)
    ensures
        r == fallback_step_spec(name@, media_type, has_parsed, ai_configured),
{
    let v = chars_of(name);
    let t = trim_chars(v.as_slice());
    let l = to_lower(t.as_slice());
    let n = string_of(l.as_slice());
    let ns = n.as_str();
    if crate::text::str_eq(ns, "local") {
        FallbackStep::Local
    } else if crate::text::str_eq(ns, "tmdb") {
        if (media_type == MediaType::Movie || media_type == MediaType::TvShow) && has_parsed {
            FallbackStep::Tmdb
        } else {
            FallbackStep::Skip
        }
    } else if crate::text::str_eq(ns, "musicbrainz") {
        if media_type == MediaType::Music && has_parsed {
            FallbackStep::MusicBrainz
        } else {
            FallbackStep::Skip
        }
    } else if crate::text::str_eq(ns, "openlibrary") || crate::text::str_eq(ns, "ol") {
        if media_type == MediaType::Novel && has_parsed {
            FallbackStep::OpenLibrary
        } else {
            FallbackStep::Skip
        }
    } else if crate::text::str_eq(ns, "ai") {
        if ai_configured {
            FallbackStep::Ai
        } else {
            FallbackStep::AiUnavailable
        }
    } else if crate::text::str_eq(ns, "guess") {
        FallbackStep::Guess
    } else {
        FallbackStep::Skip
    }
}

/// How a scrape source is named in the trace (`selected source: Tmdb`).
pub open spec fn source_trace_name(s: ScrapeSource) -> Seq<char> {
    match s {
        ScrapeSource::LocalNfo => "LocalNfo"@,
        ScrapeSource::Tmdb => "Tmdb"@,
        ScrapeSource::MusicBrainz => "MusicBrainz"@,
        ScrapeSource::OpenLibrary => "OpenLibrary"@,
        ScrapeSource::AiAssist => "AiAssist"@,
        ScrapeSource::Guess => "Guess"@,
    }
}

/// The trace name of a scrape source.
pub fn source_trace_label(s: ScrapeSource) -> (r: &'static str)
    ensures
        r@ == source_trace_name(s),
{
    match s {
        ScrapeSource::LocalNfo => "LocalNfo",
        ScrapeSource::Tmdb => "Tmdb",
        ScrapeSource::MusicBrainz => "MusicBrainz",
        ScrapeSource::OpenLibrary => "OpenLibrary",
        ScrapeSource::AiAssist => "AiAssist",
        ScrapeSource::Guess => "Guess",
    }
}

/// What the fallback chain does next.
pub enum ChainAction {
    /// Run the step of chain entry `pos`.
    Run { pos: usize, step: FallbackStep },
    /// A source produced a result: the trace with its `selected source:`
    /// line, and the evidence the result carries (the trace so far and a
    /// `selected source` line).
    Found { source: ScrapeSource, details: Vec<String>, evidence: Vec<String> },
    /// No entry produced a result: the trace closed with `selected source:
    /// none`, and the identity left without evidence.
    Exhausted { details: Vec<String>, state: ConfirmationState, evidence_refs: Vec<String> },
}

/// `selected source: S`
pub open spec fn selected_detail(s: ScrapeSource) -> Seq<char> {
    "selected source: "@ + source_trace_name(s)
}

/// `selected source S`
pub open spec fn selected_evidence(s: ScrapeSource) -> Seq<char> {
    "selected source "@ + source_trace_name(s)
}

fn push_selected(v: &mut Vec<String>, head: &str, s: ScrapeSource)
    ensures
        views(final(v)@) == views(old(v)@).push(head@ + source_trace_name(s)),
{
    let mut line = chars_of(head);
    append_str(&mut line, source_trace_label(s));
    let ghost before = views(v@);
    v.push(string_of(line.as_slice()));
    assert(views(v@) =~= before.push(head@ + source_trace_name(s)));
}

/// One step of the fallback chain. `found` is what the entry before `pos`
/// produced (`None` before the first entry), `details` the trace so far.
/// A result finishes the chain with its source; otherwise entry `pos` is
/// run; past the last entry the chain finishes with nothing.
pub fn chain_step(
    chain: &Vec<String>,
    pos: usize,
    media_type: MediaType,
    has_parsed: bool,
    ai_configured: bool,
    found: Option<ScrapeSource>,
    details: &Vec<String>,
) -> (r: ChainAction)
    ensures
        match r {
            ChainAction::Run { pos: p, step } => {
                &&& found is None
                &&& pos < chain.len()
                &&& p == pos
                &&& step == fallback_step_spec(chain@[pos as int]@, media_type, has_parsed, ai_configured)
            },
            ChainAction::Found { source, details: d, evidence: e } => {
                &&& found == Some(source)
                &&& views(d@) == views(details@).push(selected_detail(source))
                &&& views(e@) == views(details@).push(selected_evidence(source))
            },
            ChainAction::Exhausted { details: d, state, evidence_refs } => {
                &&& found is None
                &&& pos >= chain.len()
                &&& views(d@) == views(details@).push("selected source: none"@)
                &&& state == ConfirmationState::InsufficientEvidence
                &&& views(evidence_refs@) == seq!["no scrape source produced a candidate"@]
            },
        },
{
    match found {
        Some(source) => {
            let mut d = crate::media::copy_strings(details);
            push_selected(&mut d, "selected source: ", source);
            let mut e = crate::media::copy_strings(details);
            push_selected(&mut e, "selected source ", source);
            ChainAction::Found { source, details: d, evidence: e }
        },
        None => {
            if pos < chain.len() {
                let step = fallback_step(chain[pos].as_str(), media_type, has_parsed, ai_configured);
                ChainAction::Run { pos, step }
            } else {
                let mut d = crate::media::copy_strings(details);
                let ghost before = views(d@);
                d.push(owned("selected source: none"));
                assert(views(d@) =~= before.push("selected source: none"@));
                let mut refs: Vec<String> = Vec::new();
                refs.push(owned("no scrape source produced a candidate"));
                assert(views(refs@) =~= seq!["no scrape source produced a candidate"@]);
                ChainAction::Exhausted {
                    details: d,
                    state: ConfirmationState::InsufficientEvidence,
                    evidence_refs: refs,
                }
            }
        },
    }
}

/// The episode to enrich a show's match with: the show's TMDB id and both
/// hints are needed.
pub fn episode_enrichment(
    media_type: MediaType,
    season_hint: Option<u32>,
    episode_hint: Option<u32>,
    tmdb_id: Option<u64>,
) -> (r: Option<(u64, u32, u32)>)
    ensures
        r == (if media_type == MediaType::TvShow && season_hint is Some && episode_hint is Some
            && tmdb_id is Some {
            Some((tmdb_id->0, season_hint->0, episode_hint->0))
        } else {
            None
        }),
{
    if media_type == MediaType::TvShow {
        match (season_hint, episode_hint, tmdb_id) {
            (Some(s), Some(e), Some(id)) => Some((id, s, e)),
            _ => None,
        }
    } else {
        None
    }
}

/// The first detail line of a scrape: how much the content probe found.
pub fn content_probe_detail(titles: usize, subtitles: usize, seasons: usize, episodes: usize) -> (r:
    String)
    ensures
        r@ == "content_probe: titles="@ + decimal(titles as nat) + " subtitles="@ + decimal(
            subtitles as nat,
        ) + " seasons="@ + decimal(seasons as nat) + " episodes="@ + decimal(episodes as nat),
{
    let mut v = chars_of("content_probe: titles=");
    append_chars(&mut v, decimal_of(titles as u64).as_slice());
    append_str(&mut v, " subtitles=");
    append_chars(&mut v, decimal_of(subtitles as u64).as_slice());
    append_str(&mut v, " seasons=");
    append_chars(&mut v, decimal_of(seasons as u64).as_slice());
    append_str(&mut v, " episodes=");
    append_chars(&mut v, decimal_of(episodes as u64).as_slice());
    string_of(v.as_slice())
}

/// The key under which TMDB candidates from several queries are merged:
/// the TMDB id, else title and year (0 when unknown).
pub open spec fn tmdb_dedupe_key_spec(id: Option<u64>, title: Seq<char>, year: Option<u16>) -> Seq<
    char,
> {
    match id {
        Some(i) => "tmdb:"@ + decimal(i as nat),
        None => "title:"@ + title + ":"@ + decimal(
            match year {
                Some(y) => y as nat,
                None => 0,
            },
        ),
    }
}

/// The key by which TMDB candidates of several queries are merged.
pub fn tmdb_dedupe_key(tmdb_id: Option<u64>, title: &str, year: Option<u16>) -> (r: String)
    ensures
        r@ == tmdb_dedupe_key_spec(tmdb_id, title@, year),
{
    match tmdb_id {
        Some(i) => {
            let mut v = chars_of("tmdb:");
            append_chars(&mut v, decimal_of(i).as_slice());
            string_of(v.as_slice())
        },
        None => {
            let mut v = chars_of("title:");
            append_str(&mut v, title);
            append_str(&mut v, ":");
            let y: u64 = match year {
                Some(y) => y as u64,
                None => 0,
            };
            append_chars(&mut v, decimal_of(y).as_slice());
            string_of(v.as_slice())
        },
    }
}


// ---------------------------------------------------------------------------
// Identity resolution
// ---------------------------------------------------------------------------

/// A candidate identity as compared with the content evidence (its score
/// is weighed by the caller).
#[derive(Debug, Clone)]
pub struct CandidateIdentity {
    pub source: crate::types::ScrapeSource,
    pub title: String,
    pub year: Option<u16>,
    pub season: Option<u32>,
    pub episode: Option<u32>,
    pub episode_title: Option<String>,
}

/// The identity a scraped result stands for.
pub fn candidate_from_result(result: &crate::media::ScrapeResult) -> (c: CandidateIdentity)
    ensures
        c.source == result.source,
        c.title@ == result.title@,
        c.year == result.year,
        c.season == result.season_number,
        c.episode == result.episode_number,
        crate::media::sv(c.episode_title) == crate::media::sv(result.episode_name),
{
    CandidateIdentity {
        source: result.source,
        title: crate::text::owned(result.title.as_str()),
        year: result.year,
        season: result.season_number,
        episode: result.episode_number,
        episode_title: match &result.episode_name {
            Some(e) => Some(crate::text::owned(e.as_str())),
            None => None,
        },
    }
}

/// The comparable form of a title (see `normalized_identity_tokens`).
pub open spec fn identity_tokens(s: Seq<char>) -> Seq<char> {
    lower(normalize_query_spec(strip_noise_spec(s)))
}

/// Whether one normalized title from the content matches the candidate's
/// title or episode title: equal, or one contains the other.
pub open spec fn title_hit(n: Seq<char>, best_title: Seq<char>, best_episode: Seq<char>) -> bool {
    n.len() > 0 && (n == best_title || (best_episode.len() > 0 && n == best_episode)
        || crate::text::contains(best_title, n) || crate::text::contains(n, best_title))
}

pub open spec fn episode_tokens(c: CandidateIdentity) -> Seq<char> {
    match c.episode_title {
        Some(e) => identity_tokens(e@),
        None => seq![],
    }
}

/// Whether a title read from the content names the candidate.
pub open spec fn title_evidence_spec(c: CandidateIdentity, titles: Seq<Seq<char>>) -> bool {
    exists|i: int|
        0 <= i < titles.len() && title_hit(
            identity_tokens(#[trigger] titles[i]),
            identity_tokens(c.title@),
            episode_tokens(c),
        )
}

/// Whether a title read from the content names the candidate (see
/// `title_evidence_spec`).
pub fn title_evidence_matches_candidate(best: &CandidateIdentity, title_candidates: &Vec<String>) -> (r:
    bool)
    ensures
        r == title_evidence_spec(*best, views(title_candidates@)),
{
    let bt = normalized_identity_tokens(best.title.as_str());
    let be: String = match &best.episode_title {
        Some(e) => normalized_identity_tokens(e.as_str()),
        None => String::new(),
    };
    let btv = chars_of(bt.as_str());
    let bev = chars_of(be.as_str());
    let ghost tv = views(title_candidates@);
    let mut i: usize = 0;
    while i < title_candidates.len()
        invariant
            i <= title_candidates.len(),
            tv == views(title_candidates@),
            btv@ == identity_tokens(best.title@),
            bev@ == episode_tokens(*best),
            forall|j: int|
                0 <= j < i ==> !title_hit(
                    identity_tokens(#[trigger] tv[j]),
                    identity_tokens(best.title@),
                    episode_tokens(*best),
                ),
        decreases title_candidates.len() - i,
    {
        let n = normalized_identity_tokens(title_candidates[i].as_str());
        let nv = chars_of(n.as_str());
        assert(tv[i as int] == title_candidates@[i as int]@);
        let hit = nv.len() > 0 && (chars_eq(nv.as_slice(), btv.as_slice()) || (bev.len() > 0
            && chars_eq(nv.as_slice(), bev.as_slice())) || crate::text::contains_chars(
            btv.as_slice(),
            nv.as_slice(),
        ) || crate::text::contains_chars(nv.as_slice(), btv.as_slice()));
        if hit {
            return true;
        }
        i = i + 1;
    }
    false
}

fn contains_u32(values: &Vec<u32>, x: u32) -> (r: bool)
    ensures
        r == values@.contains(x),
{
    let mut i: usize = 0;
    while i < values.len()
        invariant
            i <= values.len(),
            forall|j: int| 0 <= j < i ==> values@[j] != x,
        decreases values.len() - i,
    {
        if values[i] == x {
            return true;
        }
        i = i + 1;
    }
    false
}

pub open spec fn opt_in(o: Option<u32>, values: Seq<u32>) -> bool {
    match o {
        Some(v) => values.contains(v),
        None => false,
    }
}

pub open spec fn one_if(b: bool) -> nat {
    if b {
        1
    } else {
        0
    }
}

/// How many of title, season and episode the content evidence confirms.
pub open spec fn corroboration_spec(
    c: CandidateIdentity,
    ev: crate::subtitle::ContentEvidence,
) -> nat {
    one_if(title_evidence_spec(c, views(ev.title_candidates@))) + one_if(
        opt_in(c.season, ev.season_hypotheses@),
    ) + one_if(opt_in(c.episode, ev.episode_hypotheses@))
}

fn opt_in_exec(o: Option<u32>, values: &Vec<u32>) -> (r: bool)
    ensures
        r == opt_in(o, values@),
{
    match o {
        Some(v) => contains_u32(values, v),
        None => false,
    }
}

/// How many of title, season and episode the content evidence confirms.
pub fn corroboration_score(best: &CandidateIdentity, ev: &crate::subtitle::ContentEvidence) -> (r:
    usize)
    ensures
        r == corroboration_spec(*best, *ev),
        r <= 3,
{
    let mut score: usize = 0;
    if title_evidence_matches_candidate(best, &ev.title_candidates) {
        score = score + 1;
    }
    if opt_in_exec(best.season, &ev.season_hypotheses) {
        score = score + 1;
    }
    if opt_in_exec(best.episode, &ev.episode_hypotheses) {
        score = score + 1;
    }
    score
}

/// Whether the candidate can be confirmed: its score is high enough
/// (`score_high`, judged by the caller) and, for an episode, season and
/// episode, or title and episode, or title and season with an episode
/// title agree with the content; for a film, the title does. Other media
/// are never confirmed.
pub open spec fn confirmable_spec(
    media_type: MediaType,
    c: CandidateIdentity,
    score_high: bool,
    ev: crate::subtitle::ContentEvidence,
) -> bool {
    let title_match = title_evidence_spec(c, views(ev.title_candidates@));
    let season_match = opt_in(c.season, ev.season_hypotheses@);
    let episode_match = opt_in(c.episode, ev.episode_hypotheses@);
    score_high && match media_type {
        MediaType::TvShow => (season_match && episode_match) || (title_match && episode_match) || (
        title_match && season_match && c.episode_title is Some),
        MediaType::Movie => title_match,
        _ => false,
    }
}

/// Whether the candidate can be confirmed (see `confirmable_spec`).
pub fn is_confirmable_match(
    media_type: MediaType,
    best: &CandidateIdentity,
    score_high: bool,
    ev: &crate::subtitle::ContentEvidence,
) -> (r: bool)
    ensures
        r == confirmable_spec(media_type, *best, score_high, *ev),
{
    if !score_high {
        return false;
    }
    match media_type {
        MediaType::TvShow => {
            let season_match = opt_in_exec(best.season, &ev.season_hypotheses);
            let episode_match = opt_in_exec(best.episode, &ev.episode_hypotheses);
            let title_match = title_evidence_matches_candidate(best, &ev.title_candidates);
            (season_match && episode_match) || (title_match && episode_match) || (title_match
                && season_match && best.episode_title.is_some())
        },
        MediaType::Movie => title_evidence_matches_candidate(best, &ev.title_candidates),
        _ => false,
    }
}

/// The confirmation state of the best candidate: insufficient without a
/// strong content source; ambiguous when the top candidates are too close
/// (`ambiguous`, judged by the caller on their scores); confirmed with two
/// strong sources, two corroborating facts and a confirmable match;
/// otherwise a high-confidence candidate.
pub open spec fn confirmation_spec(
    media_type: MediaType,
    c: CandidateIdentity,
    score_high: bool,
    ambiguous: bool,
    ev: crate::subtitle::ContentEvidence,
) -> crate::types::ConfirmationState {
    if crate::subtitle::strong_evidence_spec(ev) == 0 {
        crate::types::ConfirmationState::InsufficientEvidence
    } else if ambiguous {
        crate::types::ConfirmationState::AmbiguousCandidates
    } else if crate::subtitle::strong_evidence_spec(ev) >= 2 && corroboration_spec(c, ev) >= 2
        && confirmable_spec(media_type, c, score_high, ev) {
        crate::types::ConfirmationState::Confirmed
    } else {
        crate::types::ConfirmationState::HighConfidenceCandidate
    }
}

pub open spec fn ambiguity_flag() -> Seq<char> {
    "top candidates are too close to uniquely confirm identity"@
}

/// The confirmation state of the best candidate (see
/// `confirmation_spec`); when the candidates are found ambiguous, a risk
/// flag saying so is added.
pub fn resolve_identity_state(
    media_type: MediaType,
    best: &CandidateIdentity,
    score_high: bool,
    ambiguous: bool,
    ev: &crate::subtitle::ContentEvidence,
    risk_flags: &mut Vec<String>,
) -> (r: crate::types::ConfirmationState)
    ensures
        r == confirmation_spec(media_type, *best, score_high, ambiguous, *ev),
        views(final(risk_flags)@) == if r == crate::types::ConfirmationState::AmbiguousCandidates {
            views(old(risk_flags)@).push(ambiguity_flag())
        } else {
            views(old(risk_flags)@)
        },
{
    let strong = crate::subtitle::strong_evidence_count(ev);
    if strong == 0 {
        return crate::types::ConfirmationState::InsufficientEvidence;
    }
    if ambiguous {
        let ghost before = views(risk_flags@);
        risk_flags.push(crate::text::owned("top candidates are too close to uniquely confirm identity"));
        assert(views(risk_flags@) =~= before.push(ambiguity_flag()));
        return crate::types::ConfirmationState::AmbiguousCandidates;
    }
    if strong >= 2 && corroboration_score(best, ev) >= 2 && is_confirmable_match(
        media_type,
        best,
        score_high,
        ev,
    ) {
        crate::types::ConfirmationState::Confirmed
    } else {
        crate::types::ConfirmationState::HighConfidenceCandidate
    }
}

/// The evidence references recorded with a resolution: the count of
/// strong sources, the corroboration score, the runtime when known, and
/// at most three title candidates.
pub open spec fn evidence_refs_spec(
    strong: nat,
    corroboration: nat,
    runtime: Option<u64>,
    titles: Seq<Seq<char>>,
) -> Seq<Seq<char>> {
    let head = seq![
        "strong_content_sources="@ + decimal(strong),
        "corroboration_score="@ + decimal(corroboration),
    ];
    let with_runtime = match runtime {
        Some(r) => head.push("runtime_secs="@ + decimal(r as nat)),
        None => head,
    };
    with_runtime + titles.take(if titles.len() < 3 {
        titles.len() as int
    } else {
        3
    }).map_values(|t: Seq<char>| "title_candidate="@ + t)
}

fn labelled_number(label: &str, n: u64) -> (r: String)
    ensures
        r@ == label@ + decimal(n as nat),
{
    let mut v = chars_of(label);
    let d = decimal_of(n);
    append_chars(&mut v, d.as_slice());
    string_of(v.as_slice())
}

/// The evidence references of a resolution (see `evidence_refs_spec`).
pub fn identity_evidence_refs(best: &CandidateIdentity, ev: &crate::subtitle::ContentEvidence, runtime_secs: Option<u64>) -> (r: Vec<String>)
    ensures
        views(r@) == evidence_refs_spec(
            crate::subtitle::strong_evidence_spec(*ev),
            corroboration_spec(*best, *ev),
            runtime_secs,
            views(ev.title_candidates@),
        ),
{
    let strong = crate::subtitle::strong_evidence_count(ev);
    let corr = corroboration_score(best, ev);
    let mut r: Vec<String> = Vec::new();
    r.push(labelled_number("strong_content_sources=", strong as u64));
    r.push(labelled_number("corroboration_score=", corr as u64));
    let ghost head = views(r@);
    match runtime_secs {
        Some(t) => {
            r.push(labelled_number("runtime_secs=", t));
        },
        None => {},
    }
    let ghost base = views(r@);
    let ghost tv = views(ev.title_candidates@);
    let ghost lim: int = if tv.len() < 3 {
        tv.len() as int
    } else {
        3
    };
    let mut i: usize = 0;
    while i < ev.title_candidates.len() && i < 3
        invariant
            i <= lim,
            lim <= tv.len(),
            lim == (if tv.len() < 3 {
                tv.len() as int
            } else {
                3
            }),
            tv == views(ev.title_candidates@),
            views(r@) == base + tv.take(i as int).map_values(|t: Seq<char>| "title_candidate="@ + t),
        decreases 3 - i,
    {
        let mut v = chars_of("title_candidate=");
        append_str(&mut v, ev.title_candidates[i].as_str());
        let ghost old_r = views(r@);
        r.push(string_of(v.as_slice()));
        assert(tv.take(i + 1).map_values(|t: Seq<char>| "title_candidate="@ + t) =~= tv.take(
            i as int,
        ).map_values(|t: Seq<char>| "title_candidate="@ + t).push("title_candidate="@ + tv[i as int]));
        assert(views(r@) =~= old_r.push("title_candidate="@ + tv[i as int]));
        i = i + 1;
    }
    assert(i == lim);
    assert(head =~= seq![
        "strong_content_sources="@ + decimal(strong as nat),
        "corroboration_score="@ + decimal(corr as nat),
    ]);
    r
}


// ---------------------------------------------------------------------------
// Guess from the file name
// ---------------------------------------------------------------------------

/// A metadata guess made from the parsed name alone: nothing for a blank
/// title; otherwise a `Guess` result with the parsed title, year, season
/// and episode and one line of evidence. (The confidence given to the
/// guess, and the evidence line that reports it, are weighed by the
/// caller.)
pub fn guess_from_parsed(parsed: &crate::media::ParsedInfo) -> (r: Option<crate::media::ScrapeResult>)
    ensures
        r is None <==> trim(parsed.raw_title@).len() == 0,
        r matches Some(g) ==> {
            &&& g.source == crate::types::ScrapeSource::Guess
            &&& g.title@ == parsed.raw_title@
            &&& g.year == parsed.year
            &&& g.season_number == parsed.season
            &&& g.episode_number == parsed.episode
            &&& g.title_original is None && g.overview is None && g.episode_name is None
            &&& g.tmdb_id is None && g.musicbrainz_id is None && g.openlibrary_id is None
            &&& views(g.evidence@) == seq!["generated metadata guess from parsed filename"@]
        },
{
    let t = crate::text::trim_str(parsed.raw_title.as_str());
    if t.len() == 0 {
        return None;
    }
    let mut g = crate::media::ScrapeResult::empty(
        crate::types::ScrapeSource::Guess,
        parsed.raw_title.as_str(),
    );
    g.year = parsed.year;
    g.season_number = parsed.season;
    g.episode_number = parsed.episode;
    g.evidence.push(crate::text::owned("generated metadata guess from parsed filename"));
    assert(views(g.evidence@) =~= seq!["generated metadata guess from parsed filename"@]);
    Some(g)
}


/// The `guess` entry of the fallback chain: the guess from the parsed
/// title (see `guess_from_parsed`) and the trace line it adds, `guess: used
/// parsed fallback` or `guess: no parsed title`.
pub fn guess_step(parsed: Option<&crate::media::ParsedInfo>) -> (r: (Option<crate::media::ScrapeResult>, String))
    ensures
        match parsed {
            Some(p) => (r.0 is None <==> trim(p.raw_title@).len() == 0) && (r.0 matches Some(g)
                ==> g.source == crate::types::ScrapeSource::Guess && g.title@ == p.raw_title@
                && g.year == p.year),
            None => r.0 is None,
        },
        r.1@ == (if r.0 is Some {
            "guess: used parsed fallback"@
        } else {
            "guess: no parsed title"@
        }),
{
    let g = match parsed {
        Some(p) => guess_from_parsed(p),
        None => None,
    };
    let line = if g.is_some() {
        owned("guess: used parsed fallback")
    } else {
        owned("guess: no parsed title")
    };
    (g, line)
}

} // verus!
