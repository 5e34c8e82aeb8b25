//! Organize planning: where a file goes in the library and how it gets
//! there, and which plans would collide.
use crate::config::OrganizeConfig;
use crate::media::MediaItem;
use crate::paths::{file_name_spec, join_spec, parent_spec};
use crate::text::{
    append_chars, chars_of, map_bad_chars, owned, pad2, pad2_of, replace_char_set, str_eq,
    string_of, trim, trim_chars, views,
};
use crate::types::{LinkMode, MediaType, OrganizeAction, OrganizeMode};
use vstd::prelude::*;

verus! {

/// `sanitize_filename`: forbidden characters become `_` and the ends are
/// trimmed.
pub open spec fn sanitize_filename_spec(s: Seq<char>) -> Seq<char> {
    trim(map_bad_chars(s, crate::rename::name_bad_chars(), '_'))
}

/// A name with the characters that paths cannot hold replaced by `_`, trimmed.
pub fn sanitize_filename(s: &str) -> (r: String)
    ensures
        r@ == sanitize_filename_spec(s@),
{
    let v = chars_of(s);
    let bad: [char; 9] = ['/', '\\', ':', '*', '?', '"', '<', '>', '|'];
    assert(bad@ =~= crate::rename::name_bad_chars());
    let cleaned = replace_char_set(v.as_slice(), bad.as_slice(), '_');
    let t = trim_chars(cleaned.as_slice());
    string_of(t.as_slice())
}

/// The values chosen for an item where parsed and scraped metadata
/// compete (the choice weighs confidence scores and is made by the
/// caller).
pub struct PreferredMetadata {
    pub title: Option<String>,
    pub season: Option<u32>,
}

/// The library folder for a media type.
pub open spec fn type_dir_spec(t: MediaType) -> Seq<char> {
    match t {
        MediaType::Movie => "Movies"@,
        MediaType::TvShow => "TV Shows"@,
        MediaType::Music => "Music"@,
        MediaType::Novel => "Books"@,
        MediaType::Strm => "TV Shows"@,
        MediaType::Unknown => "Other"@,
    }
}

fn type_dir(t: MediaType) -> (r: &'static str)
    ensures
        r@ == type_dir_spec(t),
{
    match t {
        MediaType::Movie => "Movies",
        MediaType::TvShow => "TV Shows",
        MediaType::Music => "Music",
        MediaType::Novel => "Books",
        MediaType::Strm => "TV Shows",
        MediaType::Unknown => "Other",
    }
}

pub open spec fn season_dir_name(s: u32) -> Seq<char> {
    "Season "@ + pad2(s as nat)
}

proof fn lemma_season_dir_plain(s: u32)
    ensures
        season_dir_name(s).len() > 0,
        !season_dir_name(s).contains('/'),
        season_dir_name(s) != seq!['.', '.'],
{
    reveal_strlit("Season ");
    crate::text::lemma_decimal_digits(s as nat);
    let d = crate::text::decimal(s as nat);
    let p = crate::text::pad2(s as nat);
    let n = season_dir_name(s);
    assert(n[0] == 'S');
    assert forall|k: int| 0 <= k < n.len() implies n[k] != '/' by {
        if k >= 7 {
            assert(n[k] == p[k - 7]);
            if (s as nat) < 10 {
                assert(p =~= seq!['0'] + d);
                if k > 7 {
                    assert(p[k - 7] == d[k - 8]);
                    assert(crate::text::is_digit(d[k - 8]));
                }
            } else {
                assert(crate::text::is_digit(d[k - 7]));
            }
        }
    }
}

/// A show with a season goes in a season folder: in archive and local
/// mode its target directory is named `Season NN`; in local mode, with a
/// title and a parent directory, there is such a target.
pub proof fn lemma_shows_go_in_season_folders(
    item: MediaItem,
    root: Seq<char>,
    mode: OrganizeMode,
    title: Option<Seq<char>>,
    s: u32,
)
    requires
        item.media_type == MediaType::TvShow,
    ensures
        mode == OrganizeMode::Archive || mode == OrganizeMode::Local ==> (target_dir_spec(
            item,
            root,
            mode,
            title,
            Some(s),
        ) matches Some(d) ==> crate::paths::file_name_spec(d) == Some(season_dir_name(s))),
        mode == OrganizeMode::Local && title is Some && parent_spec(item.path@) is Some
            ==> target_dir_spec(item, root, mode, title, Some(s)) is Some,
{
    lemma_season_dir_plain(s);
    match target_dir_spec(item, root, mode, title, Some(s)) {
        Some(d) => {
            if mode == OrganizeMode::Archive {
                let td = type_dir_spec(item.media_type);
                let t = match title {
                    Some(v) => sanitize_filename_spec(v),
                    None => "Unknown"@,
                };
                crate::paths::lemma_join_file_name(join_spec(join_spec(root, td), t), season_dir_name(s));
            } else if mode == OrganizeMode::Local {
                let par = parent_spec(item.path@)->0;
                let v = title->0;
                crate::paths::lemma_join_file_name(join_spec(par, sanitize_filename_spec(v)), season_dir_name(s));
            }
        },
        None => {},
    }
}

fn season_dir_exec(s: u32) -> (r: String)
    ensures
        r@ == season_dir_name(s),
{
    let mut v = chars_of("Season ");
    let p = pad2_of(s as u64);
    append_chars(&mut v, p.as_slice());
    string_of(v.as_slice())
}

pub open spec fn artist_of(item: MediaItem) -> Option<Seq<char>> {
    match item.scraped {
        Some(sc) => crate::media::sv(sc.artist),
        None => None,
    }
}

/// `Organizer::target_dir`: in place for `Rename`; for `Archive`,
/// `root/<type>/<title>` (`Unknown` without a title), with the season
/// folder for shows and `root/<type>/<artist>/<title>` for music with an
/// artist; for `Local`, `<parent>/<title>` (with the season folder for
/// shows), nothing without a title.
pub open spec fn target_dir_spec(
    item: MediaItem,
    root: Seq<char>,
    mode: OrganizeMode,
    title: Option<Seq<char>>,
    season: Option<u32>,
) -> Option<Seq<char>> {
    match mode {
        OrganizeMode::Rename => parent_spec(item.path@),
        OrganizeMode::Archive => {
            let td = type_dir_spec(item.media_type);
            let t = match title {
                Some(v) => sanitize_filename_spec(v),
                None => "Unknown"@,
            };
            let base = join_spec(join_spec(root, td), t);
            let dir = if item.media_type == MediaType::TvShow && season is Some {
                join_spec(base, season_dir_name(season->0))
            } else {
                base
            };
            if item.media_type == MediaType::Music && artist_of(item) is Some {
                Some(
                    join_spec(
                        join_spec(join_spec(root, td), sanitize_filename_spec(artist_of(item)->0)),
                        t,
                    ),
                )
            } else {
                Some(dir)
            }
        },
        OrganizeMode::Local => match parent_spec(item.path@) {
            None => None,
            Some(par) => match title {
                None => None,
                Some(v) => {
                    let d = join_spec(par, sanitize_filename_spec(v));
                    if item.media_type == MediaType::TvShow && season is Some {
                        Some(join_spec(d, season_dir_name(season->0)))
                    } else {
                        Some(d)
                    }
                },
            },
        },
    }
}

/// `plan`'s choice of action: links when asked for, else a copy (the
/// default link mode `none` copies files to their target).
pub open spec fn action_spec(link: LinkMode) -> OrganizeAction {
    match link {
        LinkMode::NoLink => OrganizeAction::Copy,
        LinkMode::Hard => OrganizeAction::HardLink,
        LinkMode::Sym => OrganizeAction::SymLink,
    }
}

/// The file operation for a link mode (the mode itself does not change it).
pub fn organize_action(link: LinkMode, mode: OrganizeMode) -> (a: OrganizeAction)
    ensures
        a == action_spec(link),
{
    match link {
        LinkMode::NoLink => match mode {
            OrganizeMode::Archive | OrganizeMode::Local | OrganizeMode::Rename => OrganizeAction::Copy,
        },
        LinkMode::Hard => OrganizeAction::HardLink,
        LinkMode::Sym => OrganizeAction::SymLink,
    }
}

/// Where one item goes and how: nothing when there is no target directory
/// or file name, or when the file already sits in its target directory.
pub open spec fn plan_target_spec(
    item: MediaItem,
    root: Seq<char>,
    mode: OrganizeMode,
    link: LinkMode,
    title: Option<Seq<char>>,
    season: Option<u32>,
) -> Option<(Seq<char>, OrganizeAction)> {
    match target_dir_spec(item, root, mode, title, season) {
        None => None,
        Some(dir) => match file_name_spec(item.path@) {
            None => None,
            Some(name) => if parent_spec(item.path@) == Some(dir) {
                None
            } else {
                Some((join_spec(dir, name), action_spec(link)))
            },
        },
    }
}

/// Plans where files go in the library.
pub struct Organizer {
    pub config: OrganizeConfig,
}

impl Organizer {
    /// An organizer with the given settings.
    pub fn new(config: OrganizeConfig) -> (o: Self)
        ensures
            o.config == config,
    {
        Organizer { config }
    }

    /// The library root: the configured one, `.` when none is set.
    pub fn library_root(&self) -> (r: String)
        ensures
            r@ == (if self.config.root@.len() == 0 {
                "."@
            } else {
                self.config.root@
            }),
    {
        if self.config.root.as_str().is_empty() {
            owned(".")
        } else {
            owned(self.config.root.as_str())
        }
    }

    /// The directory an item belongs in (see `target_dir_spec`).
    pub fn target_dir(
        &self,
        item: &MediaItem,
        root: &str,
        mode: OrganizeMode,
        preferred: &PreferredMetadata,
    ) -> (r: Option<String>)
        ensures
            crate::media::sv(r) == target_dir_spec(
                *item,
                root@,
                mode,
                crate::media::sv(preferred.title),
                preferred.season,
            ),
    {
        match mode {
            OrganizeMode::Rename => crate::paths::parent(item.path.as_str()),
            OrganizeMode::Archive => {
                let td = type_dir(item.media_type);
                let title = match &preferred.title {
                    Some(v) => sanitize_filename(v.as_str()),
                    None => owned("Unknown"),
                };
                let typed = crate::paths::join(root, td);
                let base = crate::paths::join(typed.as_str(), title.as_str());
                let dir = if item.media_type == MediaType::TvShow && preferred.season.is_some() {
                    let sd = season_dir_exec(preferred.season.unwrap());
                    crate::paths::join(base.as_str(), sd.as_str())
                } else {
                    base
                };
                let artist = match &item.scraped {
                    Some(sc) => match &sc.artist {
                        Some(a) => Some(a),
                        None => None,
                    },
                    None => None,
                };
                if item.media_type == MediaType::Music && artist.is_some() {
                    let a = sanitize_filename(artist.unwrap().as_str());
                    let with_artist = crate::paths::join(typed.as_str(), a.as_str());
                    Some(crate::paths::join(with_artist.as_str(), title.as_str()))
                } else {
                    Some(dir)
                }
            },
            OrganizeMode::Local => {
                let par = match crate::paths::parent(item.path.as_str()) {
                    Some(p) => p,
                    None => return None,
                };
                match &preferred.title {
                    None => None,
                    Some(v) => {
                        let t = sanitize_filename(v.as_str());
                        let d = crate::paths::join(par.as_str(), t.as_str());
                        if item.media_type == MediaType::TvShow && preferred.season.is_some() {
                            let sd = season_dir_exec(preferred.season.unwrap());
                            Some(crate::paths::join(d.as_str(), sd.as_str()))
                        } else {
                            Some(d)
                        }
                    },
                }
            },
        }
    }

    /// The target path and action of one item (see `plan_target_spec`).
    pub fn plan_target(
        &self,
        item: &MediaItem,
        root: &str,
        mode: OrganizeMode,
        link: LinkMode,
        preferred: &PreferredMetadata,
    ) -> (r: Option<(String, OrganizeAction)>)
        ensures
            match r {
                Some((t, a)) => plan_target_spec(
                    *item,
                    root@,
                    mode,
                    link,
                    crate::media::sv(preferred.title),
                    preferred.season,
                ) == Some((t@, a)),
                None => plan_target_spec(
                    *item,
                    root@,
                    mode,
                    link,
                    crate::media::sv(preferred.title),
                    preferred.season,
                ) is None,
            },
    {
        let dir = match self.target_dir(item, root, mode, preferred) {
            Some(d) => d,
            None => return None,
        };
        let name = match crate::paths::file_name(item.path.as_str()) {
            Some(n) => n,
            None => return None,
        };
        match crate::paths::parent(item.path.as_str()) {
            Some(p) => {
                if str_eq(p.as_str(), dir.as_str()) {
                    return None;
                }
            },
            None => {},
        }
        let target = crate::paths::join(dir.as_str(), name.as_str());
        Some((target, organize_action(link, mode)))
    }
}

// ---------------------------------------------------------------------------
// Collisions
// ---------------------------------------------------------------------------

/// How many times `x` occurs in `s`.
pub open spec fn count_of(s: Seq<Seq<char>>, x: Seq<char>) -> nat
    decreases s.len(),
{
    if s.len() == 0 {
        0
    } else {
        count_of(s.drop_last(), x) + if s.last() == x {
            1nat
        } else {
            0nat
        }
    }
}

/// How many plans target `target`.
pub fn target_count(targets: &Vec<String>, target: &str) -> (n: usize)
    ensures
        n == count_of(views(targets@), target@),
{
    let mut n: usize = 0;
    let mut i: usize = 0;
    while i < targets.len()
        invariant
            i <= targets.len(),
            n == count_of(views(targets@).take(i as int), target@),
            n <= i,
        decreases targets.len() - i,
    {
        proof {
            let t = views(targets@).take(i + 1);
            assert(t.drop_last() =~= views(targets@).take(i as int));
            assert(t.last() == targets@[i as int]@);
        }
        if str_eq(targets[i].as_str(), target) {
            n = n + 1;
        }
        i = i + 1;
    }
    assert(views(targets@).take(targets.len() as int) =~= views(targets@));
    n
}

/// Whether plan `i`'s target is also another plan's target.
pub fn target_collides(targets: &Vec<String>, i: usize) -> (r: bool)
    requires
        i < targets.len(),
    ensures
        r == (count_of(views(targets@), targets@[i as int]@) > 1),
{
    target_count(targets, targets[i].as_str()) > 1
}

proof fn lemma_count_positive(s: Seq<Seq<char>>, x: Seq<char>, i: int)
    requires
        0 <= i < s.len(),
        s[i] == x,
    ensures
        count_of(s, x) >= 1,
    decreases s.len(),
{
    if i < s.len() - 1 {
        lemma_count_positive(s.drop_last(), x, i);
    }
}

proof fn lemma_count_two(s: Seq<Seq<char>>, x: Seq<char>, i: int, j: int)
    requires
        0 <= i < s.len(),
        0 <= j < s.len(),
        i != j,
        s[i] == x,
        s[j] == x,
    ensures
        count_of(s, x) >= 2,
    decreases s.len(),
{
    let n = s.len() - 1;
    if i == n {
        lemma_count_positive(s.drop_last(), x, j);
    } else if j == n {
        lemma_count_positive(s.drop_last(), x, i);
    } else {
        lemma_count_two(s.drop_last(), x, i, j);
    }
}

proof fn lemma_count_only(s: Seq<Seq<char>>, x: Seq<char>, i: int)
    requires
        0 <= i < s.len(),
        forall|j: int| 0 <= j < s.len() && j != i ==> s[j] != x,
    ensures
        count_of(s, x) == if s[i] == x {
            1nat
        } else {
            0nat
        },
    decreases s.len(),
{
    let n = s.len() - 1;
    if i == n {
        lemma_count_none(s.drop_last(), x);
    } else {
        lemma_count_only(s.drop_last(), x, i);
    }
}

proof fn lemma_count_none(s: Seq<Seq<char>>, x: Seq<char>)
    requires
        forall|j: int| 0 <= j < s.len() ==> s[j] != x,
    ensures
        count_of(s, x) == 0,
    decreases s.len(),
{
    if s.len() > 0 {
        lemma_count_none(s.drop_last(), x);
    }
}

/// A plan is flagged as colliding exactly when another plan has the same
/// target.
pub proof fn lemma_collision_iff_shared_target(targets: Seq<Seq<char>>, i: int)
    requires
        0 <= i < targets.len(),
    ensures
        count_of(targets, targets[i]) > 1 <==> exists|j: int|
            0 <= j < targets.len() && j != i && targets[j] == targets[i],
{
    if exists|j: int| 0 <= j < targets.len() && j != i && targets[j] == targets[i] {
        let j = choose|j: int| 0 <= j < targets.len() && j != i && targets[j] == targets[i];
        lemma_count_two(targets, targets[i], i, j);
    } else {
        lemma_count_only(targets, targets[i], i);
    }
}

/// A sanitized file name holds none of the characters a file name cannot
/// hold.
pub proof fn lemma_sanitized_filename_is_clean(s: Seq<char>)
    ensures
        forall|i: int|
            0 <= i < sanitize_filename_spec(s).len() ==> !crate::rename::name_bad_chars().contains(
                #[trigger] sanitize_filename_spec(s)[i],
            ),
{
    let bad = crate::rename::name_bad_chars();
    let m = map_bad_chars(s, bad, '_');
    assert(!bad.contains('_')) by {
        if bad.contains('_') {
            let k = choose|k: int| 0 <= k < bad.len() && bad[k] == '_';
            assert(bad[k] != '_');
        }
    }
    assert forall|j: int| 0 <= j < m.len() implies !bad.contains(#[trigger] m[j]) by {}
    crate::text::lemma_lead_ws_bound(m);
    let a = crate::text::trim_start(m);
    crate::text::lemma_trail_ws_bound(a);
    let t = trim(m);
    assert forall|i: int| 0 <= i < t.len() implies !bad.contains(#[trigger] t[i]) by {
        assert(t[i] == a[i]);
        assert(a[i] == m[i + crate::text::lead_ws(m)]);
    }
}


/// Sanitizing a sanitized file name changes nothing.
pub proof fn lemma_sanitize_filename_idempotent(s: Seq<char>)
    ensures
        sanitize_filename_spec(sanitize_filename_spec(s)) == sanitize_filename_spec(s),
{
    let bad = crate::rename::name_bad_chars();
    let t = sanitize_filename_spec(s);
    lemma_sanitized_filename_is_clean(s);
    assert(map_bad_chars(t, bad, '_') =~= t);
    crate::text::lemma_trim_idempotent(map_bad_chars(s, bad, '_'));
}

// ---------------------------------------------------------------------------
// Preflight conflicts
// ---------------------------------------------------------------------------

/// The directory artwork is saved in beside a target (`.` when the
/// target has no parent).
pub open spec fn image_dir(target: Seq<char>) -> Seq<char> {
    match parent_spec(target) {
        Some(d) => d,
        None => "."@,
    }
}

/// Artwork of the first `n` URLs whose file already exists.
pub open spec fn image_conflicts(
    target: Seq<char>,
    urls: Seq<Seq<char>>,
    existing: Seq<Seq<char>>,
    n: nat,
) -> Seq<Seq<char>>
    decreases n,
{
    if n == 0 {
        seq![]
    } else {
        let rest = image_conflicts(target, urls, existing, (n - 1) as nat);
        let img = join_spec(image_dir(target), crate::scraper::image_name((n - 1) as nat, urls[n - 1]));
        if existing.contains(img) {
            rest.push("image target already exists on disk: "@ + img)
        } else {
            rest
        }
    }
}

pub open spec fn one_msg(b: bool, msg: Seq<char>) -> Seq<Seq<char>> {
    if b {
        seq![msg]
    } else {
        seq![]
    }
}

/// The conflicts of plan `i`, found before anything is touched, in this
/// order: its target is also another plan's target; its target already
/// exists (and is not its own source); its NFO file already exists (when
/// it writes one); each artwork file that already exists. `existing`
/// holds the paths found on disk.
pub open spec fn preflight_spec(
    targets: Seq<Seq<char>>,
    i: int,
    source: Seq<char>,
    has_nfo: bool,
    urls: Seq<Seq<char>>,
    existing: Seq<Seq<char>>,
) -> Seq<Seq<char>> {
    let t = targets[i];
    let nfo = crate::paths::with_extension_spec(t, "nfo"@);
    one_msg(count_of(targets, t) > 1, "target path collides with another organize plan: "@ + t)
        + one_msg(existing.contains(t) && t != source, "target path already exists on disk: "@ + t)
        + one_msg(has_nfo && existing.contains(nfo), "nfo target already exists on disk: "@ + nfo)
        + image_conflicts(t, urls, existing, urls.len())
}

fn message(prefix: &str, path: &str) -> (r: String)
    ensures
        r@ == prefix@ + path@,
{
    let mut v = chars_of(prefix);
    crate::text::append_str(&mut v, path);
    string_of(v.as_slice())
}

/// The conflicts of plan `i` (see `preflight_spec`).
pub fn preflight_conflicts(
    targets: &Vec<String>,
    i: usize,
    source: &str,
    has_nfo: bool,
    image_urls: &Vec<String>,
    existing: &Vec<String>,
) -> (r: Vec<String>)
    requires
        i < targets.len(),
    ensures
        views(r@) == preflight_spec(
            views(targets@),
            i as int,
            source@,
            has_nfo,
            views(image_urls@),
            views(existing@),
        ),
{
    let t = targets[i].as_str();
    let ghost tv = views(targets@);
    assert(tv[i as int] == t@);
    let mut r: Vec<String> = Vec::new();
    if target_collides(targets, i) {
        r.push(message("target path collides with another organize plan: ", t));
    }
    let ghost a = views(r@);
    assert(a =~= one_msg(count_of(tv, t@) > 1, "target path collides with another organize plan: "@ + t@));
    if crate::rename::contains_string(existing, t) && !str_eq(t, source) {
        r.push(message("target path already exists on disk: ", t));
    }
    let ghost b = views(r@);
    assert(b =~= a + one_msg(
        views(existing@).contains(t@) && t@ != source@,
        "target path already exists on disk: "@ + t@,
    ));
    let nfo = crate::paths::with_extension(t, "nfo");
    if has_nfo && crate::rename::contains_string(existing, nfo.as_str()) {
        r.push(message("nfo target already exists on disk: ", nfo.as_str()));
    }
    let ghost c = views(r@);
    assert(c =~= b + one_msg(
        has_nfo && views(existing@).contains(nfo@),
        "nfo target already exists on disk: "@ + nfo@,
    ));
    let dir: String = match crate::paths::parent(t) {
        Some(d) => d,
        None => owned("."),
    };
    assert(dir@ == image_dir(t@));
    let ghost uv = views(image_urls@);
    let mut k: usize = 0;
    while k < image_urls.len()
        invariant
            k <= image_urls.len(),
            uv == views(image_urls@),
            dir@ == image_dir(t@),
            views(r@) == c + image_conflicts(t@, uv, views(existing@), k as nat),
        decreases image_urls.len() - k,
    {
        let img = crate::scraper::build_image_path(dir.as_str(), k, image_urls[k].as_str());
        assert(uv[k as int] == image_urls@[k as int]@);
        let ghost before = views(r@);
        if crate::rename::contains_string(existing, img.as_str()) {
            r.push(message("image target already exists on disk: ", img.as_str()));
            assert(views(r@) =~= before.push("image target already exists on disk: "@ + img@));
        }
        k = k + 1;
    }
    r
}


// ---------------------------------------------------------------------------
// Plans
// ---------------------------------------------------------------------------

/// A planned organize operation for one file. (How confident the chosen
/// metadata was is kept by the caller beside the plan.)
#[derive(Debug, Clone)]
pub struct OrganizePlan {
    pub source: String,
    pub target: String,
    pub action: OrganizeAction,
    pub nfo_content: Option<String>,
    pub image_urls: Vec<String>,
    pub nfo_gate: crate::types::AssetGateStatus,
    pub image_gate: crate::types::AssetGateStatus,
    pub rationale: Vec<String>,
    pub conflicts: Vec<String>,
}


// ---------------------------------------------------------------------------
// Asset gates
// ---------------------------------------------------------------------------

/// Whether an authority threshold applies at all to scraped metadata: the
/// identity is confirmed, or is a high-confidence candidate from a real
/// provider (not a guess, not the AI).
pub open spec fn threshold_applies(
    state: Option<crate::types::ConfirmationState>,
    source: crate::types::ScrapeSource,
) -> bool {
    state == Some(crate::types::ConfirmationState::Confirmed) || (state == Some(
        crate::types::ConfirmationState::HighConfidenceCandidate,
    ) && source != crate::types::ScrapeSource::Guess && source
        != crate::types::ScrapeSource::AiAssist)
}

fn threshold_applies_exec(
    state: Option<crate::types::ConfirmationState>,
    source: crate::types::ScrapeSource,
) -> (r: bool)
    ensures
        r == threshold_applies(state, source),
{
    match state {
        Some(crate::types::ConfirmationState::Confirmed) => true,
        Some(crate::types::ConfirmationState::HighConfidenceCandidate) => source
            != crate::types::ScrapeSource::Guess && source != crate::types::ScrapeSource::AiAssist,
        _ => false,
    }
}

/// The NFO gate: disabled by configuration; no scraped metadata; a guess
/// is not trusted; the identity must be firm enough for a threshold to
/// apply, and the metadata's authority must reach it (`meets_threshold`,
/// judged by the caller); then accepted.
pub open spec fn nfo_gate_spec(
    enabled: bool,
    source: Option<crate::types::ScrapeSource>,
    state: Option<crate::types::ConfirmationState>,
    meets_threshold: bool,
) -> crate::types::AssetGateStatus {
    if !enabled {
        crate::types::AssetGateStatus::DisabledByConfig
    } else {
        match source {
            None => crate::types::AssetGateStatus::MissingMetadata,
            Some(s) => if s == crate::types::ScrapeSource::Guess {
                crate::types::AssetGateStatus::UntrustedSource
            } else if !threshold_applies(state, s) {
                crate::types::AssetGateStatus::IdentityUnconfirmed
            } else if !meets_threshold {
                crate::types::AssetGateStatus::LowAuthority
            } else {
                crate::types::AssetGateStatus::Accepted
            },
        }
    }
}

/// The NFO gate (see `nfo_gate_spec`).
pub fn nfo_gate_status(
    enabled: bool,
    source: Option<crate::types::ScrapeSource>,
    state: Option<crate::types::ConfirmationState>,
    meets_threshold: bool,
) -> (r: crate::types::AssetGateStatus)
    ensures
        r == nfo_gate_spec(enabled, source, state, meets_threshold),
{
    if !enabled {
        return crate::types::AssetGateStatus::DisabledByConfig;
    }
    match source {
        None => crate::types::AssetGateStatus::MissingMetadata,
        Some(s) => {
            if s == crate::types::ScrapeSource::Guess {
                crate::types::AssetGateStatus::UntrustedSource
            } else if !threshold_applies_exec(state, s) {
                crate::types::AssetGateStatus::IdentityUnconfirmed
            } else if !meets_threshold {
                crate::types::AssetGateStatus::LowAuthority
            } else {
                crate::types::AssetGateStatus::Accepted
            }
        },
    }
}

/// The artwork gate: as the NFO gate, except that AI metadata is not
/// trusted either, and that accepted metadata must carry image URLs.
pub open spec fn image_gate_spec(
    enabled: bool,
    source: Option<crate::types::ScrapeSource>,
    state: Option<crate::types::ConfirmationState>,
    meets_threshold: bool,
    url_count: nat,
) -> crate::types::AssetGateStatus {
    if !enabled {
        crate::types::AssetGateStatus::DisabledByConfig
    } else {
        match source {
            None => crate::types::AssetGateStatus::MissingMetadata,
            Some(s) => if s == crate::types::ScrapeSource::Guess || s
                == crate::types::ScrapeSource::AiAssist {
                crate::types::AssetGateStatus::UntrustedSource
            } else if !threshold_applies(state, s) {
                crate::types::AssetGateStatus::IdentityUnconfirmed
            } else if !meets_threshold {
                crate::types::AssetGateStatus::LowAuthority
            } else if url_count == 0 {
                crate::types::AssetGateStatus::MissingAssetUrls
            } else {
                crate::types::AssetGateStatus::Accepted
            },
        }
    }
}

/// The artwork gate (see `image_gate_spec`).
pub fn image_gate_status(
    enabled: bool,
    source: Option<crate::types::ScrapeSource>,
    state: Option<crate::types::ConfirmationState>,
    meets_threshold: bool,
    url_count: usize,
) -> (r: crate::types::AssetGateStatus)
    ensures
        r == image_gate_spec(enabled, source, state, meets_threshold, url_count as nat),
{
    if !enabled {
        return crate::types::AssetGateStatus::DisabledByConfig;
    }
    match source {
        None => crate::types::AssetGateStatus::MissingMetadata,
        Some(s) => {
            if s == crate::types::ScrapeSource::Guess || s == crate::types::ScrapeSource::AiAssist {
                crate::types::AssetGateStatus::UntrustedSource
            } else if !threshold_applies_exec(state, s) {
                crate::types::AssetGateStatus::IdentityUnconfirmed
            } else if !meets_threshold {
                crate::types::AssetGateStatus::LowAuthority
            } else if url_count == 0 {
                crate::types::AssetGateStatus::MissingAssetUrls
            } else {
                crate::types::AssetGateStatus::Accepted
            }
        },
    }
}

/// A guess never gets an NFO file or artwork, and AI metadata never gets
/// artwork, whatever its authority.
pub proof fn lemma_untrusted_sources_get_no_assets(
    enabled: bool,
    state: Option<crate::types::ConfirmationState>,
    meets_threshold: bool,
    url_count: nat,
)
    ensures
        nfo_gate_spec(enabled, Some(crate::types::ScrapeSource::Guess), state, meets_threshold)
            != crate::types::AssetGateStatus::Accepted,
        image_gate_spec(enabled, Some(crate::types::ScrapeSource::Guess), state, meets_threshold, url_count)
            != crate::types::AssetGateStatus::Accepted,
        image_gate_spec(enabled, Some(crate::types::ScrapeSource::AiAssist), state, meets_threshold, url_count)
            != crate::types::AssetGateStatus::Accepted,
{
}


/// ` (<label> identity)` after a gate line, when the item has an identity
/// confirmation label.
pub open spec fn identity_suffix(label: Option<Seq<char>>) -> Seq<char> {
    match label {
        Some(l) => " ("@ + l + " identity)"@,
        None => seq![],
    }
}

/// The rationale line of an asset gate (`nfo` when `nfo`, else `image`).
/// `authority` and `threshold` are the two scores already written with two
/// decimals (they are read only for `LowAuthority`); an untrusted source
/// without a provider is named `Guess`.
pub open spec fn gate_line_spec(
    nfo: bool,
    status: crate::types::AssetGateStatus,
    provider: Option<crate::types::ScrapeSource>,
    label: Option<Seq<char>>,
    asset_count: nat,
    authority: Seq<char>,
    threshold: Seq<char>,
) -> Seq<char> {
    let kind = if nfo {
        "nfo"@
    } else {
        "image"@
    };
    let suffix = identity_suffix(label);
    match status {
        crate::types::AssetGateStatus::Accepted => if nfo {
            "nfo gate: accepted trusted metadata"@ + suffix
        } else {
            "image gate: accepted "@ + crate::text::decimal(asset_count) + " trusted asset urls"@
                + suffix
        },
        crate::types::AssetGateStatus::DisabledByConfig => if nfo {
            "nfo gate: generation disabled by config"@
        } else {
            "image gate: download disabled by config"@
        },
        crate::types::AssetGateStatus::MissingMetadata => kind + " gate: missing scraped metadata"@,
        crate::types::AssetGateStatus::IdentityUnconfirmed => kind
            + " gate: identity confirmation is not strong enough"@ + suffix,
        crate::types::AssetGateStatus::UntrustedSource => kind + " gate: "@
            + crate::scraper::source_trace_name(
            match provider {
                Some(p) => p,
                None => crate::types::ScrapeSource::Guess,
            },
        ) + " metadata is not trusted"@ + suffix,
        crate::types::AssetGateStatus::LowAuthority => kind + " gate: scraped authority "@
            + authority + " below threshold "@ + threshold + suffix,
        crate::types::AssetGateStatus::MissingAssetUrls => kind
            + " gate: no image urls available on selected metadata"@,
    }
}

/// The rationale line of an asset gate (see `gate_line_spec`).
pub fn gate_line(
    nfo: bool,
    status: crate::types::AssetGateStatus,
    provider: Option<crate::types::ScrapeSource>,
    label: Option<&str>,
    asset_count: usize,
    authority: &str,
    threshold: &str,
) -> (r: String)
    ensures
        r@ == gate_line_spec(
            nfo,
            status,
            provider,
            match label {
                Some(l) => Some(l@),
                None => None,
            },
            asset_count as nat,
            authority@,
            threshold@,
        ),
{
    let kind = if nfo {
        "nfo"
    } else {
        "image"
    };
    let mut suffix: Vec<char> = Vec::new();
    match label {
        Some(l) => {
            crate::text::append_str(&mut suffix, " (");
            crate::text::append_str(&mut suffix, l);
            crate::text::append_str(&mut suffix, " identity)");
        },
        None => {},
    }
    let mut v: Vec<char> = Vec::new();
    match status {
        crate::types::AssetGateStatus::Accepted => {
            if nfo {
                crate::text::append_str(&mut v, "nfo gate: accepted trusted metadata");
            } else {
                crate::text::append_str(&mut v, "image gate: accepted ");
                let d = crate::text::decimal_of(asset_count as u64);
                append_chars(&mut v, d.as_slice());
                crate::text::append_str(&mut v, " trusted asset urls");
            }
            append_chars(&mut v, suffix.as_slice());
        },
        crate::types::AssetGateStatus::DisabledByConfig => {
            if nfo {
                crate::text::append_str(&mut v, "nfo gate: generation disabled by config");
            } else {
                crate::text::append_str(&mut v, "image gate: download disabled by config");
            }
        },
        crate::types::AssetGateStatus::MissingMetadata => {
            crate::text::append_str(&mut v, kind);
            crate::text::append_str(&mut v, " gate: missing scraped metadata");
        },
        crate::types::AssetGateStatus::IdentityUnconfirmed => {
            crate::text::append_str(&mut v, kind);
            crate::text::append_str(&mut v, " gate: identity confirmation is not strong enough");
            append_chars(&mut v, suffix.as_slice());
        },
        crate::types::AssetGateStatus::UntrustedSource => {
            crate::text::append_str(&mut v, kind);
            crate::text::append_str(&mut v, " gate: ");
            let p = match provider {
                Some(p) => p,
                None => crate::types::ScrapeSource::Guess,
            };
            crate::text::append_str(&mut v, crate::scraper::source_trace_label(p));
            crate::text::append_str(&mut v, " metadata is not trusted");
            append_chars(&mut v, suffix.as_slice());
        },
        crate::types::AssetGateStatus::LowAuthority => {
            crate::text::append_str(&mut v, kind);
            crate::text::append_str(&mut v, " gate: scraped authority ");
            crate::text::append_str(&mut v, authority);
            crate::text::append_str(&mut v, " below threshold ");
            crate::text::append_str(&mut v, threshold);
            append_chars(&mut v, suffix.as_slice());
        },
        crate::types::AssetGateStatus::MissingAssetUrls => {
            crate::text::append_str(&mut v, kind);
            crate::text::append_str(&mut v, " gate: no image urls available on selected metadata");
        },
    }
    string_of(v.as_slice())
}

/// The NFO document a plan carries: the generated one when its gate
/// accepted the metadata, else none.
pub fn gated_nfo(status: crate::types::AssetGateStatus, src: Option<&crate::nfo::NfoSource>) -> (r: Option<String>)
    ensures
        status != crate::types::AssetGateStatus::Accepted ==> r is None,
        status == crate::types::AssetGateStatus::Accepted ==> match src {
            Some(x) => match crate::nfo::nfo_lines(*x) {
                Some(ls) => r.deep_view() == Some(crate::text::join(ls, seq!['\n'])),
                None => r is None,
            },
            None => r is None,
        },
{
    if status != crate::types::AssetGateStatus::Accepted {
        return None;
    }
    match src {
        Some(x) => crate::nfo::generate(x),
        None => None,
    }
}

/// The artwork a plan downloads: all the urls when its gate accepted them,
/// else none.
pub fn gated_urls(status: crate::types::AssetGateStatus, urls: Vec<String>) -> (r: Vec<String>)
    ensures
        status == crate::types::AssetGateStatus::Accepted ==> r@ == urls@,
        status != crate::types::AssetGateStatus::Accepted ==> r@.len() == 0,
{
    if status == crate::types::AssetGateStatus::Accepted {
        urls
    } else {
        Vec::new()
    }
}

} // verus!
