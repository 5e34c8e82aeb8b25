//! Duplicate detection: exact groups by content hash, which copy a
//! size- or age-based strategy keeps, and the path and track heuristics
//! the scoring uses.
use crate::config::DedupConfig;
use crate::media::in_strs;
use crate::rename::FsEntry;
use crate::text::{
    all_digits, chars_of, contains, contains_str, is_all_digits, lower, str_to_lowercase, to_lower,
    trim, trim_chars, upper, to_upper, views,
};
use crate::media::MediaItem;
use crate::types::{ConfirmationState, DuplicateKind, KeepStrategy, MediaType};
use vstd::prelude::*;

verus! {

/// Finds duplicate media.
pub struct Deduplicator {
    pub config: DedupConfig,
}

impl Deduplicator {
    /// A deduplicator with the given settings.
    pub fn new(config: DedupConfig) -> (d: Self)
        ensures
            d.config == config,
    {
        Deduplicator { config }
    }
}

/// The decision taken for one duplicate group.
#[derive(Debug, Clone, Copy, PartialEq, Eq, Structural)]
pub struct DuplicateDecisionProfile {
    pub keep_index: Option<usize>,
    pub drop_count: usize,
    pub guarded: bool,
    pub manual_review: bool,
}

impl Default for DuplicateDecisionProfile {
    fn default() -> (d: Self)
        ensures
            d.keep_index is None,
            d.drop_count == 0,
            !d.guarded,
            !d.manual_review,
    {
        DuplicateDecisionProfile { keep_index: None, drop_count: 0, guarded: false, manual_review: false }
    }
}

// ---------------------------------------------------------------------------
// Track and path heuristics
// ---------------------------------------------------------------------------

pub open spec fn preferred_languages() -> Seq<Seq<char>> {
    seq!["eng"@, "en"@, "chi"@, "zho"@, "zh"@, "chs"@, "cht"@]
}

/// English or Chinese language codes, trimmed, in any ASCII case.
pub fn is_preferred_subtitle_language(language: &str) -> (r: bool)
    ensures
        r == in_strs(lower(trim(language@)), preferred_languages()),
{
    let v = chars_of(language);
    let t = trim_chars(v.as_slice());
    let l = to_lower(t.as_slice());
    let s = crate::text::string_of(l.as_slice());
    let list: [&str; 7] = ["eng", "en", "chi", "zho", "zh", "chs", "cht"];
    assert(crate::text::str_views(list@) =~= preferred_languages());
    crate::media::in_list_str(s.as_str(), list.as_slice())
}

/// A forced (partial) subtitle track: the title says `forced` but not
/// `full` (ASCII case ignored).
pub fn is_forced_track_title(track_title: &str) -> (r: bool)
    ensures
        r == (contains(lower(trim(track_title@)), "forced"@) && !contains(
            lower(trim(track_title@)),
            "full"@,
        )),
{
    let v = chars_of(track_title);
    let t = trim_chars(v.as_slice());
    let l = to_lower(t.as_slice());
    contains_str(l.as_slice(), "forced") && !contains_str(l.as_slice(), "full")
}

/// A commentary track (ASCII case ignored).
pub fn is_commentary_track_title(track_title: &str) -> (r: bool)
    ensures
        r == contains(lower(trim(track_title@)), "commentary"@),
{
    let v = chars_of(track_title);
    let t = trim_chars(v.as_slice());
    let l = to_lower(t.as_slice());
    contains_str(l.as_slice(), "commentary")
}

pub open spec fn contains_any(s: Seq<char>, pats: Seq<Seq<char>>) -> bool {
    exists|i: int| 0 <= i < pats.len() && contains(s, #[trigger] pats[i])
}

fn contains_any_exec(s: &[char], pats: &[&str]) -> (r: bool)
    ensures
        r == contains_any(s@, crate::text::str_views(pats@)),
{
    let mut i: usize = 0;
    while i < pats.len()
        invariant
            i <= pats.len(),
            forall|j: int| 0 <= j < i ==> !contains(s@, #[trigger] pats@[j]@),
        decreases pats.len() - i,
    {
        if contains_str(s, pats[i]) {
            assert(contains(s@, crate::text::str_views(pats@)[i as int]));
            return true;
        }
        i = i + 1;
    }
    assert forall|j: int| 0 <= j < pats.len() implies !contains(
        s@,
        #[trigger] crate::text::str_views(pats@)[j],
    ) by {
        assert(crate::text::str_views(pats@)[j] == pats@[j]@);
    }
    false
}

pub open spec fn season_path_marks() -> Seq<Seq<char>> {
    seq!["/season "@, "/s01"@, "/s02"@, "/s03"@, "/s04"@, "/s1/"@, "/s2/"@]
}

/// A (lower-case) path inside a season folder.
pub fn looks_like_season_pack_episode_path(path_lower: &str) -> (r: bool)
    ensures
        r == contains_any(path_lower@, season_path_marks()),
{
    let v = chars_of(path_lower);
    let marks: [&str; 7] = ["/season ", "/s01", "/s02", "/s03", "/s04", "/s1/", "/s2/"];
    assert(crate::text::str_views(marks@) =~= season_path_marks());
    contains_any_exec(v.as_slice(), marks.as_slice())
}

pub open spec fn episode_marks() -> Seq<Seq<char>> {
    seq!["S01E"@, "S02E"@, "S03E"@, "S04E"@, "EP"@]
}

/// A file stem with an episode marker (ASCII case ignored).
pub fn stem_contains_episode_marker(stem: &str) -> (r: bool)
    ensures
        r == contains_any(upper(trim(stem@)), episode_marks()),
{
    let v = chars_of(stem);
    let t = trim_chars(v.as_slice());
    let u = to_upper(t.as_slice());
    let marks: [&str; 5] = ["S01E", "S02E", "S03E", "S04E", "EP"];
    assert(crate::text::str_views(marks@) =~= episode_marks());
    contains_any_exec(u.as_slice(), marks.as_slice())
}

/// A file stem that is a bare episode number: one to three ASCII digits
/// (at most three bytes), white space around ignored.
pub fn stem_is_episode_number(stem: &str) -> (r: bool)
    ensures
        r == (trim(stem@).len() > 0 && crate::text::byte_len(trim(stem@)) <= 3 && all_digits(
            trim(stem@),
        )),
{
    let v = chars_of(stem);
    let t = trim_chars(v.as_slice());
    t.len() > 0 && crate::text::byte_len_of(t.as_slice()) <= 3 && is_all_digits(t.as_slice())
}

pub open spec fn extras_marks() -> Seq<Seq<char>> {
    seq!["/extras/"@, "/featurettes/"@, "/behind the scenes/"@, "/specials/"@, "特别篇"@, "花絮"@]
}

/// A (lower-case) path in an extras folder.
pub fn is_extras_like_path(path_lower: &str) -> (r: bool)
    ensures
        r == contains_any(path_lower@, extras_marks()),
{
    let v = chars_of(path_lower);
    let marks: [&str; 6] = ["/extras/", "/featurettes/", "/behind the scenes/", "/specials/", "特别篇", "花絮"];
    assert(crate::text::str_views(marks@) =~= extras_marks());
    contains_any_exec(v.as_slice(), marks.as_slice())
}

pub open spec fn sample_marks() -> Seq<Seq<char>> {
    seq!["/sample/"@, " sample"@, "-sample"@]
}

/// A (lower-case) path of a sample clip.
pub fn is_sample_like_path(path_lower: &str) -> (r: bool)
    ensures
        r == contains_any(path_lower@, sample_marks()),
{
    let v = chars_of(path_lower);
    let marks: [&str; 3] = ["/sample/", " sample", "-sample"];
    assert(crate::text::str_views(marks@) =~= sample_marks());
    contains_any_exec(v.as_slice(), marks.as_slice())
}

pub open spec fn video_exts_for_cluster() -> Seq<Seq<char>> {
    seq!["mkv"@, "mp4"@, "avi"@, "mov"@, "m4v"@, "ts"@, "m2ts"@, "wmv"@, "webm"@]
}

/// A file beside the item that counts for the cluster test: a video, and
/// whether its stem looks like an episode.
pub open spec fn cluster_entry(dir: Seq<char>, e: FsEntry) -> (bool, bool) {
    if !e.is_file || crate::paths::parent_spec(e.path@) != Some(dir) {
        (false, false)
    } else {
        match crate::paths::extension_spec(e.path@) {
            None => (false, false),
            Some(ext) => if !in_strs(lower(ext), video_exts_for_cluster()) {
                (false, false)
            } else {
                let stem = crate::rename::or_empty(crate::paths::file_stem_spec(e.path@));
                (
                    true,
                    contains_any(upper(trim(stem)), episode_marks()) || (trim(stem).len() > 0
                        && crate::text::byte_len(trim(stem)) <= 3 && all_digits(trim(stem))),
                )
            },
        }
    }
}

pub open spec fn cluster_counts(dir: Seq<char>, listing: Seq<FsEntry>) -> (nat, nat)
    decreases listing.len(),
{
    if listing.len() == 0 {
        (0, 0)
    } else {
        let (m, e) = cluster_counts(dir, listing.drop_last());
        let (is_media, is_ep) = cluster_entry(dir, listing.last());
        (m + if is_media {
            1nat
        } else {
            0nat
        }, e + if is_ep {
            1nat
        } else {
            0nat
        })
    }
}

/// `has_episode_cluster_siblings`: the item's directory (as listed) holds
/// at least three videos, two of them named like episodes.
pub open spec fn has_cluster_spec(path: Seq<char>, listing: Seq<FsEntry>) -> bool {
    match crate::paths::parent_spec(path) {
        None => false,
        Some(dir) => cluster_counts(dir, listing).0 >= 3 && cluster_counts(dir, listing).1 >= 2,
    }
}

fn cluster_entry_exec(dir: &str, e: &FsEntry) -> (r: (bool, bool))
    ensures
        r == cluster_entry(dir@, *e),
{
    if !e.is_file {
        return (false, false);
    }
    match crate::paths::parent(e.path.as_str()) {
        Some(p) => {
            if !crate::text::str_eq(p.as_str(), dir) {
                return (false, false);
            }
        },
        None => return (false, false),
    }
    let ext = match crate::paths::extension(e.path.as_str()) {
        Some(x) => x,
        None => return (false, false),
    };
    let ev = chars_of(ext.as_str());
    let el = crate::text::string_of(to_lower(ev.as_slice()).as_slice());
    let exts: [&str; 9] = ["mkv", "mp4", "avi", "mov", "m4v", "ts", "m2ts", "wmv", "webm"];
    assert(crate::text::str_views(exts@) =~= video_exts_for_cluster());
    if !crate::media::in_list_str(el.as_str(), exts.as_slice()) {
        return (false, false);
    }
    let stem = match crate::paths::file_stem(e.path.as_str()) {
        Some(s) => s,
        None => String::new(),
    };
    let ep = stem_contains_episode_marker(stem.as_str()) || stem_is_episode_number(stem.as_str());
    (true, ep)
}

/// Whether a video sits among enough episode-like siblings in its directory listing.
pub fn has_episode_cluster_siblings(path: &str, listing: &Vec<FsEntry>) -> (r: bool)
    ensures
        r == has_cluster_spec(path@, listing@),
{
    let dir = match crate::paths::parent(path) {
        Some(d) => d,
        None => return false,
    };
    let mut media_like: usize = 0;
    let mut episode_like: usize = 0;
    let mut i: usize = 0;
    while i < listing.len()
        invariant
            i <= listing.len(),
            (media_like as nat, episode_like as nat) == cluster_counts(dir@, listing@.take(i as int)),
            media_like <= i,
            episode_like <= i,
        decreases listing.len() - i,
    {
        proof {
            let t = listing@.take(i + 1);
            assert(t.drop_last() =~= listing@.take(i as int));
            assert(t.last() == listing@[i as int]);
        }
        let (m, e) = cluster_entry_exec(dir.as_str(), &listing[i]);
        if m {
            media_like = media_like + 1;
        }
        if e {
            episode_like = episode_like + 1;
        }
        i = i + 1;
    }
    assert(listing@.take(listing.len() as int) =~= listing@);
    media_like >= 3 && episode_like >= 2
}

/// `episode_provenance_tag`: where an episode comes from, judged by its
/// (lower-case) path and its siblings; anything but a show is a feature.
pub open spec fn provenance_spec(t: MediaType, path: Seq<char>, listing: Seq<FsEntry>) -> Seq<char> {
    if !(t == MediaType::TvShow || t == MediaType::Strm) {
        "feature"@
    } else if contains_any(lower(path), extras_marks()) {
        "extras"@
    } else if has_cluster_spec(path, listing) {
        "season_cluster"@
    } else if contains_any(lower(path), season_path_marks()) {
        "season"@
    } else {
        "loose"@
    }
}

/// Where an episode comes from: a feature, extras, a season cluster, a season folder or a loose file.
pub fn episode_provenance_tag(media_type: MediaType, path: &str, listing: &Vec<FsEntry>) -> (r:
    &'static str)
    ensures
        r@ == provenance_spec(media_type, path@, listing@),
{
    if !(media_type == MediaType::TvShow || media_type == MediaType::Strm) {
        return "feature";
    }
    let v = chars_of(path);
    let l = crate::text::string_of(to_lower(v.as_slice()).as_slice());
    if is_extras_like_path(l.as_str()) {
        "extras"
    } else if has_episode_cluster_siblings(path, listing) {
        "season_cluster"
    } else if looks_like_season_pack_episode_path(l.as_str()) {
        "season"
    } else {
        "loose"
    }
}

// ---------------------------------------------------------------------------
// Exact groups
// ---------------------------------------------------------------------------

/// The positions whose full hash is `h`, in order.
pub open spec fn positions_of(hashes: Seq<Option<u64>>, h: u64) -> Seq<usize>
    decreases hashes.len(),
{
    if hashes.len() == 0 {
        seq![]
    } else {
        let rest = positions_of(hashes.drop_last(), h);
        if hashes.last() == Some(h) {
            rest.push((hashes.len() - 1) as usize)
        } else {
            rest
        }
    }
}

/// Whether `h` occurs before position `n`.
pub open spec fn seen_before(hashes: Seq<Option<u64>>, h: u64, n: int) -> bool {
    exists|j: int| 0 <= j < n && hashes[j] == Some(h)
}

/// The exact-duplicate groups: for each full hash shared by two or more
/// files (in order of first appearance), all positions carrying it.
pub open spec fn exact_groups_spec(hashes: Seq<Option<u64>>, n: nat) -> Seq<(u64, Seq<usize>)>
    decreases n,
{
    if n == 0 {
        seq![]
    } else {
        let rest = exact_groups_spec(hashes, (n - 1) as nat);
        match hashes[n - 1] {
            Some(h) => if !seen_before(hashes, h, n - 1) && positions_of(hashes, h).len() >= 2 {
                rest.push((h, positions_of(hashes, h)))
            } else {
                rest
            },
            None => rest,
        }
    }
}

pub open spec fn groups_view(g: Seq<(u64, Vec<usize>)>) -> Seq<(u64, Seq<usize>)> {
    g.map_values(|p: (u64, Vec<usize>)| (p.0, p.1@))
}

fn positions_exec(hashes: &Vec<Option<u64>>, h: u64) -> (r: Vec<usize>)
    ensures
        r@ == positions_of(hashes@, h),
{
    let mut r: Vec<usize> = Vec::new();
    let mut i: usize = 0;
    while i < hashes.len()
        invariant
            i <= hashes.len(),
            r@ == positions_of(hashes@.take(i as int), h),
        decreases hashes.len() - i,
    {
        proof {
            let t = hashes@.take(i + 1);
            assert(t.drop_last() =~= hashes@.take(i as int));
            assert(t.last() == hashes@[i as int]);
        }
        if hashes[i] == Some(h) {
            r.push(i);
        }
        i = i + 1;
    }
    assert(hashes@.take(hashes.len() as int) =~= hashes@);
    r
}

fn seen_before_exec(hashes: &Vec<Option<u64>>, h: u64, n: usize) -> (r: bool)
    requires
        n <= hashes.len(),
    ensures
        r == seen_before(hashes@, h, n as int),
{
    let mut j: usize = 0;
    while j < n
        invariant
            j <= n,
            n <= hashes.len(),
            forall|k: int| 0 <= k < j ==> hashes@[k] != Some(h),
        decreases n - j,
    {
        if hashes[j] == Some(h) {
            return true;
        }
        j = j + 1;
    }
    false
}

/// The exact-duplicate step of deduplication, on the items' full
/// hashes (see `exact_groups_spec`).
pub fn exact_hash_groups(hashes: &Vec<Option<u64>>) -> (r: Vec<(u64, Vec<usize>)>)
    ensures
        groups_view(r@) == exact_groups_spec(hashes@, hashes.len() as nat),
{
    let mut r: Vec<(u64, Vec<usize>)> = Vec::new();
    let mut i: usize = 0;
    assert(groups_view(r@) =~= Seq::<(u64, Seq<usize>)>::empty());
    while i < hashes.len()
        invariant
            i <= hashes.len(),
            groups_view(r@) == exact_groups_spec(hashes@, i as nat),
        decreases hashes.len() - i,
    {
        let ghost before = groups_view(r@);
        match hashes[i] {
            Some(h) => {
                if !seen_before_exec(hashes, h, i) {
                    let pos = positions_exec(hashes, h);
                    if pos.len() >= 2 {
                        let ghost pv = pos@;
                        r.push((h, pos));
                        assert(groups_view(r@) =~= before.push((h, pv)));
                    }
                }
            },
            None => {},
        }
        i = i + 1;
    }
    r
}

proof fn lemma_positions_sound(hashes: Seq<Option<u64>>, h: u64)
    requires
        hashes.len() <= usize::MAX,
    ensures
        forall|j: int|
            0 <= j < positions_of(hashes, h).len() ==> (#[trigger] positions_of(hashes, h)[j]
                < hashes.len() && hashes[positions_of(hashes, h)[j] as int] == Some(h)),
    decreases hashes.len(),
{
    if hashes.len() > 0 {
        let rest = positions_of(hashes.drop_last(), h);
        lemma_positions_sound(hashes.drop_last(), h);
        assert forall|j: int| 0 <= j < positions_of(hashes, h).len() implies (#[trigger] positions_of(
            hashes,
            h,
        )[j] < hashes.len() && hashes[positions_of(hashes, h)[j] as int] == Some(h)) by {
            if j < rest.len() {
                assert(positions_of(hashes, h)[j] == rest[j]);
                assert(hashes.drop_last()[rest[j] as int] == hashes[rest[j] as int]);
            }
        }
    }
}

proof fn lemma_positions_complete(hashes: Seq<Option<u64>>, h: u64, k: int)
    requires
        0 <= k < hashes.len(),
        hashes.len() <= usize::MAX,
        hashes[k] == Some(h),
    ensures
        positions_of(hashes, h).contains(k as usize),
    decreases hashes.len(),
{
    let n = hashes.len() - 1;
    let rest = positions_of(hashes.drop_last(), h);
    if k == n {
        assert(positions_of(hashes, h)[rest.len() as int] == k as usize);
    } else {
        lemma_positions_complete(hashes.drop_last(), h, k);
        let j = choose|j: int| 0 <= j < rest.len() && rest[j] == k as usize;
        assert(positions_of(hashes, h)[j] == k as usize);
    }
}

/// A file's position is among the positions listed for a hash exactly
/// when the file has that hash.
pub proof fn lemma_exact_group_members(hashes: Seq<Option<u64>>, h: u64, k: int)
    requires
        0 <= k < hashes.len(),
        hashes.len() <= usize::MAX,
    ensures
        positions_of(hashes, h).contains(k as usize) <==> hashes[k] == Some(h),
{
    if hashes[k] == Some(h) {
        lemma_positions_complete(hashes, h, k);
    }
    if positions_of(hashes, h).contains(k as usize) {
        lemma_positions_sound(hashes, h);
        let j = choose|j: int|
            0 <= j < positions_of(hashes, h).len() && positions_of(hashes, h)[j] == k as usize;
        assert(positions_of(hashes, h)[j] < hashes.len());
    }
}

// ---------------------------------------------------------------------------
// Keep choices that need no score
// ---------------------------------------------------------------------------

/// The position of the largest size, the last one among equals
/// (`Iterator::max_by_key`); nothing for no candidates.
pub open spec fn largest_spec(sizes: Seq<u64>, n: nat) -> Option<usize>
    decreases n,
{
    if n == 0 {
        None
    } else {
        match largest_spec(sizes, (n - 1) as nat) {
            None => Some((n - 1) as usize),
            Some(k) => if sizes[n - 1] >= sizes[k as int] {
                Some((n - 1) as usize)
            } else {
                Some(k)
            },
        }
    }
}

/// `KeepStrategy::Largest`: the candidate to keep, by file size.
pub fn largest_index(sizes: &Vec<u64>) -> (r: Option<usize>)
    ensures
        r == largest_spec(sizes@, sizes.len() as nat),
        r matches Some(k) ==> k < sizes.len() && forall|j: int|
            0 <= j < sizes.len() ==> sizes@[j] <= sizes@[k as int],
{
    let mut best: Option<usize> = None;
    let mut i: usize = 0;
    while i < sizes.len()
        invariant
            i <= sizes.len(),
            best == largest_spec(sizes@, i as nat),
            best matches Some(k) ==> k < i && forall|j: int| 0 <= j < i ==> sizes@[j] <= sizes@[k as int],
            best is None ==> i == 0,
        decreases sizes.len() - i,
    {
        match best {
            None => {
                best = Some(i);
            },
            Some(k) => {
                if sizes[i] >= sizes[k] {
                    best = Some(i);
                }
            },
        }
        i = i + 1;
    }
    best
}

/// The position of the latest known time, the last one among equals;
/// candidates whose time is unknown are passed over.
pub open spec fn newest_spec(times: Seq<Option<u128>>, n: nat) -> Option<usize>
    decreases n,
{
    if n == 0 {
        None
    } else {
        let rest = newest_spec(times, (n - 1) as nat);
        match times[n - 1] {
            None => rest,
            Some(t) => match rest {
                None => Some((n - 1) as usize),
                Some(k) => if t >= times[k as int]->0 {
                    Some((n - 1) as usize)
                } else {
                    Some(k)
                },
            },
        }
    }
}

/// The newest copy is kept: the chosen candidate has a known time no
/// earlier than any other known time (the last such among equals), and
/// there is a choice exactly when some time is known.
pub proof fn lemma_newest_is_latest(times: Seq<Option<u128>>, n: nat)
    requires
        n <= times.len(),
        n <= usize::MAX,
    ensures
        newest_spec(times, n) is None <==> forall|j: int| 0 <= j < n ==> times[j] is None,
        newest_spec(times, n) matches Some(k) ==> {
            &&& k < n
            &&& times[k as int] is Some
            &&& forall|j: int|
                0 <= j < n && #[trigger] times[j] is Some ==> times[j]->0 <= times[k as int]->0
            &&& forall|j: int|
                k < j < n && #[trigger] times[j] is Some ==> times[j]->0 < times[k as int]->0
        },
    decreases n,
{
    if n > 0 {
        lemma_newest_is_latest(times, (n - 1) as nat);
        let rest = newest_spec(times, (n - 1) as nat);
        let r = newest_spec(times, n);
        match times[n - 1] {
            None => {},
            Some(t) => match rest {
                None => {
                    assert forall|j: int| 0 <= j < n && #[trigger] times[j] is Some implies times[j]->0
                        <= times[n - 1]->0 by {
                        if j < n - 1 {
                            assert(times[j] is None);
                        }
                    }
                },
                Some(k) => {
                    let kk = r->0;
                    if t >= times[k as int]->0 {
                        assert(kk == n - 1);
                        assert forall|j: int| 0 <= j < n && #[trigger] times[j] is Some implies times[j]->0
                            <= times[kk as int]->0 by {
                            if j < n - 1 {
                                assert(times[j]->0 <= times[k as int]->0);
                            }
                        }
                    } else {
                        assert(kk == k);
                        assert forall|j: int| k < j < n && #[trigger] times[j] is Some implies times[j]->0
                            < times[k as int]->0 by {
                            if j < n - 1 {
                                assert(times[j]->0 < times[k as int]->0);
                            }
                        }
                    }
                },
            },
        }
    }
}

/// `KeepStrategy::Newest`: the candidate to keep, by modification time
/// (as read by the caller).
pub fn newest_index(times: &Vec<Option<u128>>) -> (r: Option<usize>)
    ensures
        r == newest_spec(times@, times.len() as nat),
        r matches Some(k) ==> k < times.len() && times@[k as int] is Some,
        r matches Some(k) ==> forall|j: int|
            0 <= j < times.len() && #[trigger] times@[j] is Some ==> times@[j]->0 <= times@[k as int]->0,
        r is None <==> forall|j: int| 0 <= j < times.len() ==> times@[j] is None,
{
    proof {
        lemma_newest_is_latest(times@, times.len() as nat);
    }
    let mut best: Option<usize> = None;
    let mut i: usize = 0;
    while i < times.len()
        invariant
            i <= times.len(),
            best == newest_spec(times@, i as nat),
            best matches Some(k) ==> k < i && times@[k as int] is Some,
        decreases times.len() - i,
    {
        match times[i] {
            None => {},
            Some(t) => match best {
                None => {
                    best = Some(i);
                },
                Some(k) => {
                    let tk = times[k].unwrap();
                    if t >= tk {
                        best = Some(i);
                    }
                },
            },
        }
        i = i + 1;
    }
    best
}


// ---------------------------------------------------------------------------
// Identity and version keys
// ---------------------------------------------------------------------------

/// Whether an identity is firm enough to group versions by provider id:
/// confirmed, or a high-confidence candidate.
pub open spec fn identity_trusted(state: Option<ConfirmationState>) -> bool {
    state == Some(ConfirmationState::Confirmed) || state == Some(
        ConfirmationState::HighConfidenceCandidate,
    )
}

/// Whether an identity is firm enough to group versions by provider id.
pub fn identity_is_trusted(state: Option<ConfirmationState>) -> (r: bool)
    ensures
        r == identity_trusted(state),
{
    match state {
        Some(ConfirmationState::Confirmed) => true,
        Some(ConfirmationState::HighConfidenceCandidate) => true,
        _ => false,
    }
}

pub open spec fn confirmation_label_spec(state: Option<ConfirmationState>) -> Option<Seq<char>> {
    match state {
        Some(ConfirmationState::Confirmed) => Some("confirmed"@),
        Some(ConfirmationState::HighConfidenceCandidate) => Some("high-confidence"@),
        Some(ConfirmationState::AmbiguousCandidates) => Some("ambiguous"@),
        Some(ConfirmationState::InsufficientEvidence) => Some("insufficient"@),
        None => None,
    }
}

/// The label of an identity's confirmation state.
pub fn identity_confirmation_label(state: Option<ConfirmationState>) -> (r: Option<&'static str>)
    ensures
        match r {
            Some(l) => confirmation_label_spec(state) == Some(l@),
            None => confirmation_label_spec(state) is None,
        },
{
    match state {
        Some(ConfirmationState::Confirmed) => Some("confirmed"),
        Some(ConfirmationState::HighConfidenceCandidate) => Some("high-confidence"),
        Some(ConfirmationState::AmbiguousCandidates) => Some("ambiguous"),
        Some(ConfirmationState::InsufficientEvidence) => Some("insufficient"),
        None => None,
    }
}

/// The metadata chosen for an item after weighing its sources (the
/// weighing itself is left to the caller).
#[derive(Debug, Clone)]
pub struct PreferredIdentity {
    pub state: Option<ConfirmationState>,
    pub title: Option<String>,
    pub year: Option<u16>,
    pub season: Option<u32>,
    pub episode: Option<u32>,
}

pub open spec fn opt_u32(o: Option<u32>) -> nat {
    match o {
        Some(v) => v as nat,
        None => 0,
    }
}

pub open spec fn opt_u16(o: Option<u16>) -> nat {
    match o {
        Some(v) => v as nat,
        None => 0,
    }
}

/// `S01E02`: season and episode (0 when unknown), two digits at least.
pub open spec fn sxe(season: Option<u32>, episode: Option<u32>) -> Seq<char> {
    "S"@ + crate::text::pad2(opt_u32(season)) + "E"@ + crate::text::pad2(opt_u32(episode))
}

/// The key by title, when the item has a preferred title.
pub open spec fn fallback_key(id: PreferredIdentity, tag: Seq<char>) -> Option<Seq<char>> {
    match id.title {
        Some(t) => Some(
            "fallback:"@ + t@ + "|"@ + crate::text::decimal(opt_u16(id.year)) + "|"@ + sxe(
                id.season,
                id.episode,
            ) + ":"@ + tag,
        ),
        None => None,
    }
}

/// The key under which versions of one work are grouped: the provider id
/// when the identity is trusted and the scraped result carries one
/// (TMDB, then MusicBrainz, then Open Library), otherwise the preferred
/// title with year, season and episode. Episodes carry their provenance
/// tag, so extras and main episodes never share a key.
pub open spec fn version_key_spec(
    item: MediaItem,
    listing: Seq<FsEntry>,
    id: PreferredIdentity,
) -> Option<Seq<char>> {
    let tag = provenance_spec(item.media_type, item.path@, listing);
    let by_title = fallback_key(id, tag);
    if identity_trusted(id.state) && item.scraped is Some {
        let sc = item.scraped->0;
        match sc.tmdb_id {
            Some(tmdb) => if item.media_type == MediaType::TvShow || item.media_type
                == MediaType::Strm {
                Some(
                    "tmdb:tv:"@ + crate::text::decimal(tmdb as nat) + ":"@ + sxe(
                        id.season,
                        id.episode,
                    ) + ":"@ + tag,
                )
            } else {
                let year: nat = match sc.year {
                    Some(y) => y as nat,
                    None => opt_u16(id.year),
                };
                Some("tmdb:movie:"@ + crate::text::decimal(tmdb as nat) + ":"@ + crate::text::decimal(year))
            },
            None => match sc.musicbrainz_id {
                Some(m) => Some("musicbrainz:"@ + m@),
                None => match sc.openlibrary_id {
                    Some(o) => Some("openlibrary:"@ + o@),
                    None => by_title,
                },
            },
        }
    } else {
        by_title
    }
}

fn sxe_exec(season: Option<u32>, episode: Option<u32>) -> (r: Vec<char>)
    ensures
        r@ == sxe(season, episode),
{
    let s: u64 = match season {
        Some(v) => v as u64,
        None => 0,
    };
    let e: u64 = match episode {
        Some(v) => v as u64,
        None => 0,
    };
    let mut r: Vec<char> = vec!['S'];
    let ps = crate::text::pad2_of(s);
    crate::text::append_chars(&mut r, ps.as_slice());
    r.push('E');
    let pe = crate::text::pad2_of(e);
    crate::text::append_chars(&mut r, pe.as_slice());
    proof {
        reveal_strlit("S");
        reveal_strlit("E");
    }
    r
}

/// The version-grouping key of an item (see `version_key_spec`).
pub fn version_group_key(item: &MediaItem, listing: &Vec<FsEntry>, id: &PreferredIdentity) -> (r:
    Option<String>)
    ensures
        crate::media::sv(r) == version_key_spec(*item, listing@, *id),
{
    let tag = episode_provenance_tag(item.media_type, item.path.as_str(), listing);
    if identity_is_trusted(id.state) {
        if let Some(sc) = &item.scraped {
            if let Some(tmdb) = sc.tmdb_id {
                let d = crate::text::decimal_of(tmdb);
                if item.media_type == MediaType::TvShow || item.media_type == MediaType::Strm {
                    let mut r = chars_of("tmdb:tv:");
                    crate::text::append_chars(&mut r, d.as_slice());
                    r.push(':');
                    let x = sxe_exec(id.season, id.episode);
                    crate::text::append_chars(&mut r, x.as_slice());
                    r.push(':');
                    crate::text::append_str(&mut r, tag);
                    proof {
                        reveal_strlit(":");
                    }
                    return Some(crate::text::string_of(r.as_slice()));
                } else {
                    let year: u64 = match sc.year {
                        Some(y) => y as u64,
                        None => match id.year {
                            Some(y) => y as u64,
                            None => 0,
                        },
                    };
                    let mut r = chars_of("tmdb:movie:");
                    crate::text::append_chars(&mut r, d.as_slice());
                    r.push(':');
                    let yd = crate::text::decimal_of(year);
                    crate::text::append_chars(&mut r, yd.as_slice());
                    proof {
                        reveal_strlit(":");
                    }
                    return Some(crate::text::string_of(r.as_slice()));
                }
            }
            if let Some(m) = &sc.musicbrainz_id {
                let mut r = chars_of("musicbrainz:");
                crate::text::append_str(&mut r, m.as_str());
                return Some(crate::text::string_of(r.as_slice()));
            }
            if let Some(o) = &sc.openlibrary_id {
                let mut r = chars_of("openlibrary:");
                crate::text::append_str(&mut r, o.as_str());
                return Some(crate::text::string_of(r.as_slice()));
            }
        }
    }
    match &id.title {
        None => None,
        Some(t) => {
            let mut r = chars_of("fallback:");
            crate::text::append_str(&mut r, t.as_str());
            r.push('|');
            let y: u64 = match id.year {
                Some(y) => y as u64,
                None => 0,
            };
            let yd = crate::text::decimal_of(y);
            crate::text::append_chars(&mut r, yd.as_slice());
            r.push('|');
            let x = sxe_exec(id.season, id.episode);
            crate::text::append_chars(&mut r, x.as_slice());
            r.push(':');
            crate::text::append_str(&mut r, tag);
            proof {
                reveal_strlit("|");
                reveal_strlit(":");
            }
            Some(crate::text::string_of(r.as_slice()))
        },
    }
}


/// The version keys as plain values.
pub open spec fn key_views(keys: Seq<Option<String>>) -> Seq<Option<Seq<char>>> {
    keys.map_values(|k: Option<String>| crate::media::sv(k))
}

/// The positions whose key is `k`, in order.
pub open spec fn key_positions(keys: Seq<Option<Seq<char>>>, k: Seq<char>) -> Seq<usize>
    decreases keys.len(),
{
    if keys.len() == 0 {
        seq![]
    } else {
        let rest = key_positions(keys.drop_last(), k);
        if keys.last() == Some(k) {
            rest.push((keys.len() - 1) as usize)
        } else {
            rest
        }
    }
}

/// Whether key `k` occurs before position `n`.
pub open spec fn key_seen_before(keys: Seq<Option<Seq<char>>>, k: Seq<char>, n: int) -> bool {
    exists|j: int| 0 <= j < n && keys[j] == Some(k)
}

/// Whether all members carry one and the same known full hash.
pub open spec fn same_full_hash(hashes: Seq<Option<u64>>, members: Seq<usize>) -> bool {
    forall|j: int|
        0 <= j < members.len() - 1 ==> (#[trigger] hashes[members[j] as int]) is Some
            && hashes[members[j] as int] == hashes[members[j + 1] as int]
}

/// The version groups: for each key shared by two or more items (in order
/// of first appearance), all positions carrying it; a group whose members
/// all have the same full hash is left to the exact groups.
pub open spec fn version_groups_spec(
    keys: Seq<Option<Seq<char>>>,
    hashes: Seq<Option<u64>>,
    n: nat,
) -> Seq<(Seq<char>, Seq<usize>)>
    decreases n,
{
    if n == 0 {
        seq![]
    } else {
        let rest = version_groups_spec(keys, hashes, (n - 1) as nat);
        match keys[n - 1] {
            Some(k) => if !key_seen_before(keys, k, n - 1) && key_positions(keys, k).len() >= 2
                && !same_full_hash(hashes, key_positions(keys, k)) {
                rest.push((k, key_positions(keys, k)))
            } else {
                rest
            },
            None => rest,
        }
    }
}

pub open spec fn key_groups_view(g: Seq<(String, Vec<usize>)>) -> Seq<(Seq<char>, Seq<usize>)> {
    g.map_values(|p: (String, Vec<usize>)| (p.0@, p.1@))
}

fn opt_str_is(o: &Option<String>, k: &str) -> (r: bool)
    ensures
        r == (crate::media::sv(*o) == Some(k@)),
{
    match o {
        Some(s) => crate::text::str_eq(s.as_str(), k),
        None => false,
    }
}

fn key_positions_exec(keys: &Vec<Option<String>>, k: &str) -> (r: Vec<usize>)
    ensures
        r@ == key_positions(key_views(keys@), k@),
{
    let ghost kv = key_views(keys@);
    let mut r: Vec<usize> = Vec::new();
    let mut i: usize = 0;
    while i < keys.len()
        invariant
            i <= keys.len(),
            kv == key_views(keys@),
            r@ == key_positions(kv.take(i as int), k@),
        decreases keys.len() - i,
    {
        proof {
            let t = kv.take(i + 1);
            assert(t.drop_last() =~= kv.take(i as int));
            assert(t.last() == kv[i as int]);
        }
        if opt_str_is(&keys[i], k) {
            r.push(i);
        }
        i = i + 1;
    }
    assert(kv.take(keys.len() as int) =~= kv);
    r
}

fn key_seen_before_exec(keys: &Vec<Option<String>>, k: &str, n: usize) -> (r: bool)
    requires
        n <= keys.len(),
    ensures
        r == key_seen_before(key_views(keys@), k@, n as int),
{
    let ghost kv = key_views(keys@);
    let mut j: usize = 0;
    while j < n
        invariant
            j <= n,
            n <= keys.len(),
            kv == key_views(keys@),
            forall|m: int| 0 <= m < j ==> kv[m] != Some(k@),
        decreases n - j,
    {
        if opt_str_is(&keys[j], k) {
            assert(kv[j as int] == Some(k@));
            return true;
        }
        j = j + 1;
    }
    false
}

fn same_full_hash_exec(hashes: &Vec<Option<u64>>, members: &Vec<usize>) -> (r: bool)
    requires
        forall|j: int| 0 <= j < members.len() ==> members@[j] < hashes.len(),
    ensures
        r == same_full_hash(hashes@, members@),
{
    let mut j: usize = 0;
    while j + 1 < members.len()
        invariant
            j == 0 || j < members.len(),
            forall|m: int| 0 <= m < members.len() ==> members@[m] < hashes.len(),
            forall|m: int|
                0 <= m < j && m < members.len() - 1 ==> (#[trigger] hashes@[members@[m] as int])
                    is Some && hashes@[members@[m] as int] == hashes@[members@[m + 1] as int],
        decreases members.len() - j,
    {
        let a = hashes[members[j]];
        let b = hashes[members[j + 1]];
        if a.is_none() || a != b {
            assert(!((hashes@[members@[j as int] as int]) is Some && hashes@[members@[j as int] as int]
                == hashes@[members@[j + 1] as int]));
            return false;
        }
        j = j + 1;
    }
    true
}

proof fn lemma_key_positions_bound(keys: Seq<Option<Seq<char>>>, k: Seq<char>)
    ensures
        forall|j: int|
            0 <= j < key_positions(keys, k).len() ==> #[trigger] key_positions(keys, k)[j]
                < keys.len(),
    decreases keys.len(),
{
    if keys.len() > 0 {
        let rest = key_positions(keys.drop_last(), k);
        lemma_key_positions_bound(keys.drop_last(), k);
        assert forall|j: int| 0 <= j < key_positions(keys, k).len() implies #[trigger] key_positions(
            keys,
            k,
        )[j] < keys.len() by {
            if j < rest.len() {
                assert(key_positions(keys, k)[j] == rest[j]);
            }
        }
    }
}

/// The version step of deduplication, on the items' version keys and
/// full hashes (see `version_groups_spec`).
pub fn version_key_groups(keys: &Vec<Option<String>>, hashes: &Vec<Option<u64>>) -> (r: Vec<
    (String, Vec<usize>),
>)
    requires
        keys.len() == hashes.len(),
    ensures
        key_groups_view(r@) == version_groups_spec(
            key_views(keys@),
            hashes@,
            keys.len() as nat,
        ),
{
    let ghost kv = key_views(keys@);
    let mut r: Vec<(String, Vec<usize>)> = Vec::new();
    let mut i: usize = 0;
    assert(key_groups_view(r@) =~= Seq::<(Seq<char>, Seq<usize>)>::empty());
    while i < keys.len()
        invariant
            i <= keys.len(),
            keys.len() == hashes.len(),
            kv == key_views(keys@),
            key_groups_view(r@) == version_groups_spec(kv, hashes@, i as nat),
        decreases keys.len() - i,
    {
        let ghost before = key_groups_view(r@);
        match &keys[i] {
            Some(k) => {
                assert(kv[i as int] == Some(k@));
                if !key_seen_before_exec(keys, k.as_str(), i) {
                    let pos = key_positions_exec(keys, k.as_str());
                    if pos.len() >= 2 {
                        proof {
                            lemma_key_positions_bound(kv, k@);
                        }
                        if !same_full_hash_exec(hashes, &pos) {
                            let ghost pv = pos@;
                            let name = k.clone();
                            r.push((name, pos));
                            assert(key_groups_view(r@) =~= before.push((k@, pv)));
                        }
                    }
                }
            },
            None => {
                assert(kv[i as int] is None);
            },
        }
        i = i + 1;
    }
    r
}


proof fn lemma_key_positions_complete(keys: Seq<Option<Seq<char>>>, k: Seq<char>, i: int)
    requires
        0 <= i < keys.len(),
        keys.len() <= usize::MAX,
        keys[i] == Some(k),
    ensures
        key_positions(keys, k).contains(i as usize),
    decreases keys.len(),
{
    let n = keys.len() - 1;
    let rest = key_positions(keys.drop_last(), k);
    if i == n {
        assert(key_positions(keys, k)[rest.len() as int] == i as usize);
    } else {
        lemma_key_positions_complete(keys.drop_last(), k, i);
        let j = choose|j: int| 0 <= j < rest.len() && rest[j] == i as usize;
        assert(key_positions(keys, k)[j] == i as usize);
    }
}

proof fn lemma_key_positions_sound(keys: Seq<Option<Seq<char>>>, k: Seq<char>)
    requires
        keys.len() <= usize::MAX,
    ensures
        forall|j: int|
            0 <= j < key_positions(keys, k).len() ==> (#[trigger] key_positions(keys, k)[j]
                < keys.len() && keys[key_positions(keys, k)[j] as int] == Some(k)),
    decreases keys.len(),
{
    if keys.len() > 0 {
        let rest = key_positions(keys.drop_last(), k);
        lemma_key_positions_sound(keys.drop_last(), k);
        assert forall|j: int| 0 <= j < key_positions(keys, k).len() implies (
        #[trigger] key_positions(keys, k)[j] < keys.len() && keys[key_positions(keys, k)[j] as int]
            == Some(k)) by {
            if j < rest.len() {
                assert(key_positions(keys, k)[j] == rest[j]);
                assert(keys.drop_last()[rest[j] as int] == keys[rest[j] as int]);
            }
        }
    }
}

/// An item's position is among the positions listed for a version key
/// exactly when the item has that key.
pub proof fn lemma_version_group_members(keys: Seq<Option<Seq<char>>>, k: Seq<char>, i: int)
    requires
        0 <= i < keys.len(),
        keys.len() <= usize::MAX,
    ensures
        key_positions(keys, k).contains(i as usize) <==> keys[i] == Some(k),
{
    if keys[i] == Some(k) {
        lemma_key_positions_complete(keys, k, i);
    }
    if key_positions(keys, k).contains(i as usize) {
        lemma_key_positions_sound(keys, k);
        let j = choose|j: int|
            0 <= j < key_positions(keys, k).len() && key_positions(keys, k)[j] == i as usize;
        assert(key_positions(keys, k)[j] < keys.len());
    }
}


// ---------------------------------------------------------------------------
// Group summary
// ---------------------------------------------------------------------------

/// How a file is named in messages: its file name, or the whole path
/// when it has none.
pub open spec fn display_name(path: Seq<char>) -> Seq<char> {
    match crate::paths::file_name_spec(path) {
        Some(n) => n,
        None => path,
    }
}

pub open spec fn kind_label(kind: DuplicateKind) -> Seq<char> {
    match kind {
        DuplicateKind::Exact => "Exact"@,
        DuplicateKind::Version => "Version"@,
    }
}

pub open spec fn strategy_label(strategy: KeepStrategy) -> Seq<char> {
    match strategy {
        KeepStrategy::HighestQuality => "HighestQuality"@,
        KeepStrategy::Newest => "Newest"@,
        KeepStrategy::Largest => "Largest"@,
        KeepStrategy::Manual => "Manual"@,
    }
}

/// `<Kind> duplicate group, strategy <Strategy>, keep <name>`, where the
/// name is `manual review` when nothing is kept.
pub open spec fn group_summary_spec(
    kind: DuplicateKind,
    strategy: KeepStrategy,
    keep_path: Option<Seq<char>>,
) -> Seq<char> {
    kind_label(kind) + " duplicate group, strategy "@ + strategy_label(strategy) + ", keep "@
        + match keep_path {
        Some(p) => display_name(p),
        None => "manual review"@,
    }
}

fn display_name_exec(path: &str) -> (r: String)
    ensures
        r@ == display_name(path@),
{
    match crate::paths::file_name(path) {
        Some(n) => n,
        None => crate::text::owned(path),
    }
}

/// The one-line summary of a duplicate group; `keep_path` is the path of
/// the kept file, if any.
pub fn group_summary(kind: DuplicateKind, strategy: KeepStrategy, keep_path: Option<&str>) -> (r:
    String)
    ensures
        r@ == group_summary_spec(
            kind,
            strategy,
            match keep_path {
                Some(p) => Some(p@),
                None => None,
            },
        ),
{
    let k = match kind {
        DuplicateKind::Exact => "Exact",
        DuplicateKind::Version => "Version",
    };
    let st = match strategy {
        KeepStrategy::HighestQuality => "HighestQuality",
        KeepStrategy::Newest => "Newest",
        KeepStrategy::Largest => "Largest",
        KeepStrategy::Manual => "Manual",
    };
    let name = match keep_path {
        Some(p) => display_name_exec(p),
        None => crate::text::owned("manual review"),
    };
    let mut r = chars_of(k);
    crate::text::append_str(&mut r, " duplicate group, strategy ");
    crate::text::append_str(&mut r, st);
    crate::text::append_str(&mut r, ", keep ");
    crate::text::append_str(&mut r, name.as_str());
    crate::text::string_of(r.as_slice())
}


// ---------------------------------------------------------------------------
// Groups
// ---------------------------------------------------------------------------

/// A duplicate group as reports see it. (The scores of its members are
/// kept by the caller beside it.)
#[derive(Debug, Clone)]
pub struct DuplicateGroup {
    pub content_id: String,
    pub kind: DuplicateKind,
    pub keep_strategy: String,
    pub summary: String,
    pub decision: DuplicateDecisionProfile,
    pub guardrails: Vec<String>,
}

impl DuplicateDecisionProfile {
    /// The decision for a group of `members` copies: the kept file's
    /// index (if any), every other copy dropped, held back when there are
    /// guardrails, for human review under the manual strategy.
    pub fn new(keep_index: Option<usize>, members: usize, guardrails: usize, strategy: KeepStrategy) -> (d: Self)
        requires
            keep_index is Some ==> members >= 1,
        ensures
            d.keep_index == keep_index,
            d.drop_count == members - if keep_index is Some {
                1int
            } else {
                0int
            },
            d.guarded == (guardrails > 0),
            d.manual_review == (strategy == KeepStrategy::Manual),
    {
        DuplicateDecisionProfile {
            keep_index,
            drop_count: if keep_index.is_some() {
                members - 1
            } else {
                members
            },
            guarded: guardrails > 0,
            manual_review: strategy == KeepStrategy::Manual,
        }
    }
}


/// Every version key of a group is a fallback (title-only) key.
pub open spec fn all_fallback_keys(keys: Seq<Option<Seq<char>>>) -> bool {
    forall|i: int|
        0 <= i < keys.len() ==> (#[trigger] keys[i] matches Some(k) && crate::text::starts_with(
            k,
            "fallback:"@,
        ))
}

/// The guardrails that need no score: a group without a kept copy, the
/// manual strategy, and (for version groups) identity resting on fallback
/// title keys alone.
pub open spec fn leading_guardrails_spec(
    has_keep: bool,
    strategy: KeepStrategy,
    kind: DuplicateKind,
    keys: Seq<Option<Seq<char>>>,
) -> Seq<Seq<char>> {
    if !has_keep {
        seq!["no automatic keep winner selected"@]
    } else {
        let manual = if strategy == KeepStrategy::Manual {
            seq!["manual keep strategy requires human review before destructive dedup"@]
        } else {
            seq![]
        };
        if kind != DuplicateKind::Version {
            manual
        } else if all_fallback_keys(keys) {
            manual.push("version grouping relies on fallback title identity; review before destructive dedup"@)
        } else {
            manual
        }
    }
}

fn push_line(v: &mut Vec<String>, line: &str)
    ensures
        views(final(v)@) == views(old(v)@).push(line@),
{
    let ghost before = views(v@);
    v.push(crate::text::owned(line));
    assert(views(v@) =~= before.push(line@));
}

/// The guardrails of a group that need no score (`keys` are the members'
/// version keys), and whether the score-based checks of a version group
/// follow: they do for a version group with a kept copy.
pub fn leading_guardrails(
    has_keep: bool,
    strategy: KeepStrategy,
    kind: DuplicateKind,
    keys: &Vec<Option<String>>,
) -> (r: (Vec<String>, bool))
    ensures
        views(r.0@) == leading_guardrails_spec(has_keep, strategy, kind, keys@.map_values(
            |k: Option<String>| crate::media::sv(k),
        )),
        r.1 == (has_keep && kind == DuplicateKind::Version),
{
    let ghost kv = keys@.map_values(|k: Option<String>| crate::media::sv(k));
    let mut guards: Vec<String> = Vec::new();
    if !has_keep {
        push_line(&mut guards, "no automatic keep winner selected");
        return (guards, false);
    }
    if strategy == KeepStrategy::Manual {
        push_line(&mut guards, "manual keep strategy requires human review before destructive dedup");
    }
    assert(views(guards@) == leading_guardrails_spec(true, strategy, DuplicateKind::Exact, kv));
    if kind != DuplicateKind::Version {
        return (guards, false);
    }
    let mut all: bool = true;
    let mut i: usize = 0;
    while i < keys.len()
        invariant
            i <= keys.len(),
            kv == keys@.map_values(|k: Option<String>| crate::media::sv(k)),
            all == (forall|j: int|
                0 <= j < i ==> (#[trigger] kv[j] matches Some(k) && crate::text::starts_with(
                    k,
                    "fallback:"@,
                ))),
        decreases keys.len() - i,
    {
        let ok = match &keys[i] {
            Some(k) => {
                let c = chars_of(k.as_str());
                crate::text::starts_with_str(c.as_slice(), "fallback:")
            },
            None => false,
        };
        assert(kv[i as int] == crate::media::sv(keys@[i as int]));
        all = all && ok;
        i = i + 1;
    }
    if all {
        push_line(
            &mut guards,
            "version grouping relies on fallback title identity; review before destructive dedup",
        );
    }
    (guards, true)
}


/// The id of an exact-duplicate group: `hash:` and the full hash in
/// decimal.
pub fn exact_group_id(hash: u64) -> (r: String)
    ensures
        r@ == "hash:"@ + crate::text::decimal(hash as nat),
{
    let mut v = chars_of("hash:");
    let d = crate::text::decimal_of(hash);
    crate::text::append_chars(&mut v, d.as_slice());
    crate::text::string_of(v.as_slice())
}

/// Which member a strategy keeps, given the member each strategy would
/// pick (`best_scored` by the weighed quality scores, `newest` by
/// modification time, `largest` by size): the manual strategy keeps none.
pub open spec fn strategy_keep_spec(
    strategy: KeepStrategy,
    best_scored: Option<usize>,
    newest: Option<usize>,
    largest: Option<usize>,
) -> Option<usize> {
    match strategy {
        KeepStrategy::HighestQuality => best_scored,
        KeepStrategy::Newest => newest,
        KeepStrategy::Largest => largest,
        KeepStrategy::Manual => None,
    }
}

/// Which member a strategy keeps (see `strategy_keep_spec`).
pub fn strategy_keep(
    strategy: KeepStrategy,
    best_scored: Option<usize>,
    newest: Option<usize>,
    largest: Option<usize>,
) -> (r: Option<usize>)
    ensures
        r == strategy_keep_spec(strategy, best_scored, newest, largest),
{
    match strategy {
        KeepStrategy::HighestQuality => best_scored,
        KeepStrategy::Newest => newest,
        KeepStrategy::Largest => largest,
        KeepStrategy::Manual => None,
    }
}

/// The keep flags of a group's members: only the kept member, if any, is
/// flagged.
pub fn keep_flags(members: usize, keep: Option<usize>) -> (r: Vec<bool>)
    ensures
        r@.len() == members,
        forall|i: int| 0 <= i < members ==> #[trigger] r@[i] == (keep == Some(i as usize)),
{
    let mut r: Vec<bool> = Vec::new();
    let mut i: usize = 0;
    while i < members
        invariant
            i <= members,
            r@.len() == i,
            forall|k: int| 0 <= k < i ==> #[trigger] r@[k] == (keep == Some(k as usize)),
        decreases members - i,
    {
        let flag = match keep {
            Some(k) => k == i,
            None => false,
        };
        r.push(flag);
        i = i + 1;
    }
    r
}

} // verus!
