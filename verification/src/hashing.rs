//! Content hashing for duplicate detection: which files need a prefix or a
//! full hash (files of equal size, then of equal prefix), how results are
//! merged, and the `xxh64` digest itself.
use crate::dedup::{exact_groups_spec, exact_hash_groups, groups_view, positions_of};
use crate::media::HashInfo;
use crate::text::{append_chars, append_str, chars_of, decimal, decimal_of, string_of};
use std::hash::Hasher;
use vstd::prelude::*;

verus! {

/// What `twox_hash::XxHash64` (seed 0) gives for a byte sequence.
pub uninterp spec fn xxhash64_result(bytes: Seq<u8>) -> u64;

/// `XxHash64::default()`, `Hasher::write(bytes)`, `Hasher::finish()`:
/// the digest is named by `xxhash64_result` of the bytes.
#[verifier::external_body]
fn xxhash64(bytes: &[u8]) -> (r: u64)
    ensures
        r == xxhash64_result(bytes@),
{
    let mut hasher = twox_hash::XxHash64::default();
    hasher.write(bytes);
    hasher.finish()
}

fn copy_indices(v: &Vec<usize>) -> (r: Vec<usize>)
    ensures
        r@ == v@,
{
    let mut r: Vec<usize> = Vec::new();
    let mut j: usize = 0;
    while j < v.len()
        invariant
            j <= v.len(),
            r@ == v@.take(j as int),
        decreases v.len() - j,
    {
        r.push(v[j]);
        assert(r@ =~= v@.take(j + 1));
        j = j + 1;
    }
    assert(r@ =~= v@);
    r
}

/// Hashes file contents.
pub struct FileHasher;

pub open spec fn somes(v: Seq<u64>) -> Seq<Option<u64>> {
    v.map_values(|x: u64| Some(x))
}

pub open spec fn index_lists(g: Seq<(u64, Seq<usize>)>) -> Seq<Seq<usize>> {
    g.map_values(|p: (u64, Seq<usize>)| p.1)
}

pub open spec fn lists_view(v: Seq<Vec<usize>>) -> Seq<Seq<usize>> {
    v.map_values(|l: Vec<usize>| l@)
}

/// Whether every listed position is below `n`.
pub open spec fn all_below(groups: Seq<Seq<usize>>, n: nat) -> bool {
    forall|g: int, j: int|
        0 <= g < groups.len() && 0 <= j < groups[g].len() ==> (#[trigger] groups[g][j]) < n
}

/// The positions of a group whose value is unknown, in order.
pub open spec fn missing_in(group: Seq<usize>, known: Seq<Option<u64>>) -> Seq<usize>
    decreases group.len(),
{
    if group.len() == 0 {
        seq![]
    } else {
        let rest = missing_in(group.drop_last(), known);
        if known[group.last() as int] is None {
            rest.push(group.last())
        } else {
            rest
        }
    }
}

/// The positions, group after group, whose value is unknown.
pub open spec fn unresolved_spec(groups: Seq<Seq<usize>>, known: Seq<Option<u64>>) -> Seq<usize>
    decreases groups.len(),
{
    if groups.len() == 0 {
        seq![]
    } else {
        unresolved_spec(groups.drop_last(), known) + missing_in(groups.last(), known)
    }
}

/// The values at the given positions.
pub open spec fn values_at(group: Seq<usize>, vals: Seq<Option<u64>>) -> Seq<Option<u64>> {
    group.map_values(|i: usize| vals[i as int])
}

/// The sub-groups of a group that share a known prefix hash (by first
/// appearance), as positions of the whole list.
pub open spec fn prefix_subgroups(group: Seq<usize>, prefix: Seq<Option<u64>>) -> Seq<Seq<usize>> {
    let vals = values_at(group, prefix);
    index_lists(exact_groups_spec(vals, vals.len() as nat)).map_values(
        |sub: Seq<usize>| sub.map_values(|k: usize| group[k as int]),
    )
}

/// Whether some position of `group` has no full hash yet.
pub open spec fn any_missing(group: Seq<usize>, full: Seq<Option<u64>>) -> bool {
    exists|j: int| 0 <= j < group.len() && full[#[trigger] group[j] as int] is None
}

pub open spec fn keep_missing(subs: Seq<Seq<usize>>, full: Seq<Option<u64>>) -> Seq<Seq<usize>>
    decreases subs.len(),
{
    if subs.len() == 0 {
        seq![]
    } else {
        let rest = keep_missing(subs.drop_last(), full);
        if any_missing(subs.last(), full) {
            rest.push(subs.last())
        } else {
            rest
        }
    }
}

/// The groups that need full hashes: within each size group, the files
/// sharing a prefix hash, when one of them still lacks a full hash.
pub open spec fn need_full_spec(
    groups: Seq<Seq<usize>>,
    prefix: Seq<Option<u64>>,
    full: Seq<Option<u64>>,
) -> Seq<Seq<usize>>
    decreases groups.len(),
{
    if groups.len() == 0 {
        seq![]
    } else {
        need_full_spec(groups.drop_last(), prefix, full) + keep_missing(
            prefix_subgroups(groups.last(), prefix),
            full,
        )
    }
}

proof fn lemma_positions_below(hashes: Seq<Option<u64>>, h: u64)
    requires
        hashes.len() <= usize::MAX,
    ensures
        forall|j: int|
            0 <= j < positions_of(hashes, h).len() ==> #[trigger] positions_of(hashes, h)[j]
                < hashes.len(),
    decreases hashes.len(),
{
    if hashes.len() > 0 {
        lemma_positions_below(hashes.drop_last(), h);
        let rest = positions_of(hashes.drop_last(), h);
        assert forall|j: int| 0 <= j < positions_of(hashes, h).len() implies #[trigger] positions_of(
            hashes,
            h,
        )[j] < hashes.len() by {
            if j < rest.len() {
                assert(positions_of(hashes, h)[j] == rest[j]);
            }
        }
    }
}

proof fn lemma_groups_below(hashes: Seq<Option<u64>>, n: nat)
    requires
        n <= hashes.len(),
        hashes.len() <= usize::MAX,
    ensures
        all_below(index_lists(exact_groups_spec(hashes, n)), hashes.len()),
    decreases n,
{
    if n > 0 {
        lemma_groups_below(hashes, (n - 1) as nat);
        match hashes[n - 1] {
            Some(h) => {
                lemma_positions_below(hashes, h);
            },
            None => {},
        }
        let g = index_lists(exact_groups_spec(hashes, n));
        let g0 = index_lists(exact_groups_spec(hashes, (n - 1) as nat));
        assert forall|a: int, j: int| 0 <= a < g.len() && 0 <= j < g[a].len() implies (#[trigger] g[a][j])
            < hashes.len() by {
            if a < g0.len() {
                assert(g[a] == g0[a]);
            }
        }
    }
}

impl FileHasher {
    /// The `xxh64` digest of some bytes (a prefix of a file, or all of it).
    pub fn digest(bytes: &[u8]) -> (r: u64)
        ensures
            r == xxhash64_result(bytes@),
    {
        xxhash64(bytes)
    }

    /// `FileHasher::group_by_size`: the positions of files of equal size,
    /// for sizes shared by two or more files, in order of first appearance.
    pub fn group_by_size(sizes: &Vec<u64>) -> (r: Vec<Vec<usize>>)
        ensures
            lists_view(r@) == index_lists(exact_groups_spec(somes(sizes@), sizes.len() as nat)),
            all_below(lists_view(r@), sizes.len() as nat),
    {
        let mut opts: Vec<Option<u64>> = Vec::new();
        let mut i: usize = 0;
        while i < sizes.len()
            invariant
                i <= sizes.len(),
                opts@ == somes(sizes@).take(i as int),
            decreases sizes.len() - i,
        {
            opts.push(Some(sizes[i]));
            assert(opts@ =~= somes(sizes@).take(i + 1));
            i = i + 1;
        }
        assert(opts@ =~= somes(sizes@));
        let groups = exact_hash_groups(&opts);
        let ghost gv = groups_view(groups@);
        proof {
            lemma_groups_below(opts@, opts@.len());
        }
        let mut r: Vec<Vec<usize>> = Vec::new();
        let mut k: usize = 0;
        while k < groups.len()
            invariant
                k <= groups.len(),
                gv == groups_view(groups@),
                lists_view(r@) == index_lists(gv).take(k as int),
            decreases groups.len() - k,
        {
            let ghost before = lists_view(r@);
            let copy = copy_indices(&groups[k].1);
            r.push(copy);
            assert(lists_view(r@) =~= before.push(groups@[k as int].1@));
            assert(index_lists(gv).take(k + 1) =~= index_lists(gv).take(k as int).push(gv[k as int].1));
            k = k + 1;
        }
        assert(index_lists(gv).take(groups.len() as int) =~= index_lists(gv));
        r
    }

    /// The positions in the groups whose value (prefix or full hash) is
    /// still unknown, group after group.
    pub fn unresolved(groups: &Vec<Vec<usize>>, known: &Vec<Option<u64>>) -> (r: Vec<usize>)
        requires
            all_below(lists_view(groups@), known.len() as nat),
        ensures
            r@ == unresolved_spec(lists_view(groups@), known@),
    {
        let ghost gv = lists_view(groups@);
        let mut r: Vec<usize> = Vec::new();
        let mut k: usize = 0;
        while k < groups.len()
            invariant
                k <= groups.len(),
                gv == lists_view(groups@),
                all_below(gv, known.len() as nat),
                r@ == unresolved_spec(gv.take(k as int), known@),
            decreases groups.len() - k,
        {
            let ghost before = r@;
            let ghost g = gv[k as int];
            let mut j: usize = 0;
            while j < groups[k].len()
                invariant
                    j <= g.len(),
                    g == groups@[k as int]@,
                    gv == lists_view(groups@),
                    k < gv.len(),
                    all_below(gv, known.len() as nat),
                    r@ == before + missing_in(g.take(j as int), known@),
                decreases g.len() - j,
            {
                let idx = groups[k][j];
                assert(gv[k as int][j as int] == idx);
                assert(g.take(j + 1).drop_last() =~= g.take(j as int));
                if known[idx].is_none() {
                    r.push(idx);
                }
                assert(r@ =~= before + missing_in(g.take(j + 1), known@));
                j = j + 1;
            }
            assert(g.take(g.len() as int) =~= g);
            assert(gv.take(k + 1).drop_last() =~= gv.take(k as int));
            k = k + 1;
        }
        assert(gv.take(groups.len() as int) =~= gv);
        r
    }

    /// How a file's hashes are stored: what was cached, else what was
    /// computed now; nothing when neither hash is known.
    pub fn merge_hash(
        size: u64,
        cached: Option<HashInfo>,
        prefix_now: Option<u64>,
        full_now: Option<u64>,
    ) -> (r: Option<HashInfo>)
        ensures
            ({
                let p = match cached {
                    Some(h) => match h.prefix_hash {
                        Some(x) => Some(x),
                        None => prefix_now,
                    },
                    None => prefix_now,
                };
                let f = match cached {
                    Some(h) => match h.full_hash {
                        Some(x) => Some(x),
                        None => full_now,
                    },
                    None => full_now,
                };
                r == if p is Some || f is Some {
                    Some(HashInfo { size_hash: size, prefix_hash: p, full_hash: f })
                } else {
                    None
                }
            }),
    {
        let p = match cached {
            Some(h) => match h.prefix_hash {
                Some(x) => Some(x),
                None => prefix_now,
            },
            None => prefix_now,
        };
        let f = match cached {
            Some(h) => match h.full_hash {
                Some(x) => Some(x),
                None => full_now,
            },
            None => full_now,
        };
        if p.is_some() || f.is_some() {
            Some(HashInfo { size_hash: size, prefix_hash: p, full_hash: f })
        } else {
            None
        }
    }

    /// The cache key of a file: path, size and modification time
    /// (seconds) joined with `:`.
    pub fn cache_key(path: &str, size: u64, modified: u64) -> (r: String)
        ensures
            r@ == path@ + ":"@ + decimal(size as nat) + ":"@ + decimal(modified as nat),
    {
        let mut v = chars_of(path);
        append_str(&mut v, ":");
        append_chars(&mut v, decimal_of(size).as_slice());
        append_str(&mut v, ":");
        append_chars(&mut v, decimal_of(modified).as_slice());
        string_of(v.as_slice())
    }
}


fn values_at_exec(group: &Vec<usize>, vals: &Vec<Option<u64>>) -> (r: Vec<Option<u64>>)
    requires
        forall|j: int| 0 <= j < group.len() ==> (#[trigger] group@[j]) < vals.len(),
    ensures
        r@ == values_at(group@, vals@),
{
    let mut r: Vec<Option<u64>> = Vec::new();
    let mut j: usize = 0;
    while j < group.len()
        invariant
            j <= group.len(),
            forall|i: int| 0 <= i < group.len() ==> (#[trigger] group@[i]) < vals.len(),
            r@ == values_at(group@, vals@).take(j as int),
        decreases group.len() - j,
    {
        r.push(vals[group[j]]);
        assert(r@ =~= values_at(group@, vals@).take(j + 1));
        j = j + 1;
    }
    assert(r@ =~= values_at(group@, vals@));
    r
}

fn map_positions(sub: &Vec<usize>, group: &Vec<usize>) -> (r: Vec<usize>)
    requires
        forall|j: int| 0 <= j < sub.len() ==> (#[trigger] sub@[j]) < group.len(),
    ensures
        r@ == sub@.map_values(|k: usize| group@[k as int]),
{
    let mut r: Vec<usize> = Vec::new();
    let mut j: usize = 0;
    while j < sub.len()
        invariant
            j <= sub.len(),
            forall|i: int| 0 <= i < sub.len() ==> (#[trigger] sub@[i]) < group.len(),
            r@ == sub@.map_values(|k: usize| group@[k as int]).take(j as int),
        decreases sub.len() - j,
    {
        r.push(group[sub[j]]);
        assert(r@ =~= sub@.map_values(|k: usize| group@[k as int]).take(j + 1));
        j = j + 1;
    }
    assert(r@ =~= sub@.map_values(|k: usize| group@[k as int]));
    r
}

fn any_missing_exec(group: &Vec<usize>, full: &Vec<Option<u64>>) -> (r: bool)
    requires
        forall|j: int| 0 <= j < group.len() ==> (#[trigger] group@[j]) < full.len(),
    ensures
        r == any_missing(group@, full@),
{
    let mut j: usize = 0;
    while j < group.len()
        invariant
            j <= group.len(),
            forall|i: int| 0 <= i < group.len() ==> (#[trigger] group@[i]) < full.len(),
            forall|i: int| 0 <= i < j ==> full@[#[trigger] group@[i] as int] is Some,
        decreases group.len() - j,
    {
        if full[group[j]].is_none() {
            return true;
        }
        j = j + 1;
    }
    false
}

impl FileHasher {
    /// The groups that need full hashes (see `need_full_spec`).
    pub fn need_full_groups(
        groups: &Vec<Vec<usize>>,
        prefix: &Vec<Option<u64>>,
        full: &Vec<Option<u64>>,
    ) -> (r: Vec<Vec<usize>>)
        requires
            all_below(lists_view(groups@), prefix.len() as nat),
            prefix.len() == full.len(),
        ensures
            lists_view(r@) == need_full_spec(lists_view(groups@), prefix@, full@),
    {
        let ghost gv = lists_view(groups@);
        let mut r: Vec<Vec<usize>> = Vec::new();
        let mut k: usize = 0;
        assert(lists_view(r@) =~= Seq::<Seq<usize>>::empty());
        while k < groups.len()
            invariant
                k <= groups.len(),
                gv == lists_view(groups@),
                all_below(gv, prefix.len() as nat),
                prefix.len() == full.len(),
                lists_view(r@) == need_full_spec(gv.take(k as int), prefix@, full@),
            decreases groups.len() - k,
        {
            let group = &groups[k];
            assert(forall|j: int| 0 <= j < group.len() ==> (#[trigger] group@[j]) < prefix.len()) by {
                assert forall|j: int| 0 <= j < group.len() implies (#[trigger] group@[j]) < prefix.len() by {
                    assert(gv[k as int][j] == group@[j]);
                }
            }
            let vals = values_at_exec(group, prefix);
            let subs = exact_hash_groups(&vals);
            proof {
                lemma_groups_below(vals@, vals@.len());
            }
            let ghost subs_v = index_lists(groups_view(subs@));
            let ghost pg = prefix_subgroups(group@, prefix@);
            assert(subs_v == index_lists(exact_groups_spec(vals@, vals@.len())));
            let ghost before = lists_view(r@);
            let mut m: usize = 0;
            while m < subs.len()
                invariant
                    m <= subs.len(),
                    subs_v == index_lists(groups_view(subs@)),
                    all_below(subs_v, group.len() as nat),
                    pg == subs_v.map_values(
                        |sub: Seq<usize>| sub.map_values(|i: usize| group@[i as int]),
                    ),
                    forall|j: int| 0 <= j < group.len() ==> (#[trigger] group@[j]) < full.len(),
                    lists_view(r@) == before + keep_missing(pg.take(m as int), full@),
                decreases subs.len() - m,
            {
                let sub = &subs[m].1;
                assert(forall|j: int| 0 <= j < sub.len() ==> (#[trigger] sub@[j]) < group.len()) by {
                    assert forall|j: int| 0 <= j < sub.len() implies (#[trigger] sub@[j]) < group.len() by {
                        assert(subs_v[m as int][j] == sub@[j]);
                    }
                }
                let mapped = map_positions(sub, group);
                assert(mapped@ == pg[m as int]);
                assert(forall|j: int| 0 <= j < mapped.len() ==> (#[trigger] mapped@[j]) < full.len()) by {
                    assert forall|j: int| 0 <= j < mapped.len() implies (#[trigger] mapped@[j]) < full.len() by {
                        assert(mapped@[j] == group@[sub@[j] as int]);
                    }
                }
                let ghost mv = mapped@;
                assert(pg.take(m + 1).drop_last() =~= pg.take(m as int));
                let ghost rv = lists_view(r@);
                if any_missing_exec(&mapped, full) {
                    r.push(mapped);
                    assert(lists_view(r@) =~= rv.push(mv));
                    assert(pg.take(m + 1).last() == mv);
                    assert(keep_missing(pg.take(m + 1), full@) == keep_missing(pg.take(m as int), full@).push(mv));
                    assert(lists_view(r@) =~= before + keep_missing(pg.take(m + 1), full@));
                } else {
                    assert(lists_view(r@) =~= before + keep_missing(pg.take(m + 1), full@));
                }
                m = m + 1;
            }
            assert(pg.take(subs.len() as int) =~= pg);
            assert(gv.take(k + 1).drop_last() =~= gv.take(k as int));
            assert(gv[k as int] == group@);
            k = k + 1;
        }
        assert(gv.take(groups.len() as int) =~= gv);
        r
    }
}

} // verus!
