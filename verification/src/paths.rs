//! File paths as text.
//!
//! A path is a sequence of characters with `/` as separator. The spec
//! functions here state the library's reading of a path: trailing
//! separators are ignored, the parent is everything before the last
//! separator, the file name is what follows it.
use crate::text::{append_chars, chars_of, string_of, to_vec};
use vstd::prelude::*;

verus! {

/// `p` without trailing `/` (a lone `/` is kept).
pub open spec fn trim_slashes(p: Seq<char>) -> Seq<char>
    decreases p.len(),
{
    if p.len() > 1 && p.last() == '/' {
        trim_slashes(p.drop_last())
    } else {
        p
    }
}

/// Index of the last `c` in `s`, or -1.
pub open spec fn last_index_of(s: Seq<char>, c: char) -> int
    decreases s.len(),
{
    if s.len() == 0 {
        -1
    } else if s.last() == c {
        s.len() - 1
    } else {
        last_index_of(s.drop_last(), c)
    }
}

/// The parent directory (`Path::parent`).
pub open spec fn parent_spec(p: Seq<char>) -> Option<Seq<char>> {
    let q = trim_slashes(p);
    if q.len() == 0 || q == seq!['/'] {
        None
    } else {
        let i = last_index_of(q, '/');
        if i < 0 {
            Some(seq![])
        } else if i == 0 {
            Some(seq!['/'])
        } else {
            Some(trim_slashes(q.take(i)))
        }
    }
}

/// The last component (`Path::file_name`).
pub open spec fn file_name_spec(p: Seq<char>) -> Option<Seq<char>> {
    let q = trim_slashes(p);
    let name = q.skip(last_index_of(q, '/') + 1);
    if name.len() == 0 || name == seq!['.', '.'] {
        None
    } else {
        Some(name)
    }
}

/// `Path::file_stem` of a file name: the name before its last `.`, unless
/// that dot is the first character.
pub open spec fn stem_of_name(name: Seq<char>) -> Seq<char> {
    let i = last_index_of(name, '.');
    if i > 0 {
        name.take(i)
    } else {
        name
    }
}

/// `Path::extension` of a file name.
pub open spec fn ext_of_name(name: Seq<char>) -> Option<Seq<char>> {
    let i = last_index_of(name, '.');
    if i > 0 {
        Some(name.skip(i + 1))
    } else {
        None
    }
}

pub open spec fn file_stem_spec(p: Seq<char>) -> Option<Seq<char>> {
    match file_name_spec(p) {
        Some(name) => Some(stem_of_name(name)),
        None => None,
    }
}

pub open spec fn extension_spec(p: Seq<char>) -> Option<Seq<char>> {
    match file_name_spec(p) {
        Some(name) => ext_of_name(name),
        None => None,
    }
}

/// `Path::join`: an absolute `name` replaces `base`.
pub open spec fn join_spec(base: Seq<char>, name: Seq<char>) -> Seq<char> {
    if name.len() > 0 && name[0] == '/' {
        name
    } else if base.len() == 0 {
        name
    } else if base.last() == '/' {
        base + name
    } else {
        base + seq!['/'] + name
    }
}

/// Trimming trailing slashes keeps a non-empty prefix of the path.
pub proof fn lemma_trim_slashes(p: Seq<char>)
    ensures
        trim_slashes(p).len() <= p.len(),
        trim_slashes(p) == p.take(trim_slashes(p).len() as int),
        p.len() > 0 ==> trim_slashes(p).len() > 0,
    decreases p.len(),
{
    if p.len() > 1 && p.last() == '/' {
        lemma_trim_slashes(p.drop_last());
        assert(p.drop_last().take(trim_slashes(p).len() as int) =~= p.take(
            trim_slashes(p).len() as int,
        ));
    } else {
        assert(p.take(p.len() as int) =~= p);
    }
}

/// Joining a plain name (not empty, without `/`, not `..`) makes it the
/// file name of the result.
pub proof fn lemma_join_file_name(base: Seq<char>, name: Seq<char>)
    requires
        name.len() > 0,
        !name.contains('/'),
        name != seq!['.', '.'],
    ensures
        file_name_spec(join_spec(base, name)) == Some(name),
{
    let j = join_spec(base, name);
    assert(name[0] != '/') by {
        if name[0] == '/' {
            assert(name.contains('/'));
        }
    }
    let pre = if base.len() == 0 {
        Seq::<char>::empty()
    } else if base.last() == '/' {
        base
    } else {
        base + seq!['/']
    };
    assert(j =~= pre + name);
    assert(j.last() == name.last());
    assert(name.last() != '/') by {
        assert(name.contains(name.last()));
    }
    assert(trim_slashes(j) == j);
    lemma_last_index_of(j, '/');
    let i = last_index_of(j, '/');
    if pre.len() > 0 {
        assert(j[pre.len() - 1] == '/');
    }
    assert forall|k: int| pre.len() <= k < j.len() implies j[k] != '/' by {
        assert(j[k] == name[k - pre.len()]);
        if j[k] == '/' {
            assert(name.contains('/'));
        }
    }
    assert(i == pre.len() - 1);
    assert(j.skip(i + 1) =~= name);
}

/// `last_index_of` finds the last occurrence of a character, or -1.
pub proof fn lemma_last_index_of(s: Seq<char>, c: char)
    ensures
        -1 <= last_index_of(s, c) < s.len(),
        last_index_of(s, c) >= 0 ==> s[last_index_of(s, c)] == c,
        forall|j: int| last_index_of(s, c) < j < s.len() ==> s[j] != c,
    decreases s.len(),
{
    if s.len() > 0 && s.last() != c {
        lemma_last_index_of(s.drop_last(), c);
        assert forall|j: int| last_index_of(s, c) < j < s.len() implies s[j] != c by {
            if j < s.len() - 1 {
                assert(s[j] == s.drop_last()[j]);
            }
        }
    }
}

/// A parent is strictly shorter than its path.
pub proof fn lemma_parent_shorter(p: Seq<char>)
    ensures
        parent_spec(p) matches Some(q) ==> q.len() < p.len(),
{
    let q = trim_slashes(p);
    lemma_trim_slashes(p);
    lemma_last_index_of(q, '/');
    let i = last_index_of(q, '/');
    if q.len() > 0 && q != seq!['/'] && i > 0 {
        lemma_trim_slashes(q.take(i));
    }
    if q.len() == 1 && i == 0 {
        assert(q =~= seq!['/']);
    }
}

fn trim_slashes_exec(p: &[char]) -> (r: usize)
    ensures
        r <= p.len(),
        trim_slashes(p@) == p@.take(r as int),
{
    let mut n: usize = p.len();
    assert(p@.take(n as int) =~= p@);
    while n > 1 && p[n - 1] == '/'
        invariant
            n <= p.len(),
            trim_slashes(p@) == trim_slashes(p@.take(n as int)),
        decreases n,
    {
        assert(p@.take(n as int).drop_last() =~= p@.take(n - 1));
        n = n - 1;
    }
    assert(p@.take(n as int).len() == n);
    proof {
        r_trim_fixed(p@.take(n as int));
    }
    n
}

proof fn r_trim_fixed(q: Seq<char>)
    requires
        !(q.len() > 1 && q.last() == '/'),
    ensures
        trim_slashes(q) == q,
{
}

fn last_index_exec(s: &[char], n: usize, c: char) -> (r: Option<usize>)
    requires
        n <= s.len(),
    ensures
        r matches Some(i) ==> i < n && last_index_of(s@.take(n as int), c) == i,
        r is None ==> last_index_of(s@.take(n as int), c) == -1,
{
    let mut k: usize = n;
    while k > 0
        invariant
            k <= n <= s.len(),
            last_index_of(s@.take(n as int), c) == last_index_of(s@.take(k as int), c),
        decreases k,
    {
        if s[k - 1] == c {
            return Some(k - 1);
        }
        assert(s@.take(k as int).drop_last() =~= s@.take(k - 1));
        k = k - 1;
    }
    None
}

/// `Path::parent`.
pub fn parent(p: &str) -> (r: Option<String>)
    ensures
        r.deep_view() == parent_spec(p@),
{
    let v = chars_of(p);
    let n = trim_slashes_exec(v.as_slice());
    let ghost q = v@.take(n as int);
    if n == 0 || (n == 1 && v[0] == '/') {
        assert(n == 1 ==> q =~= seq!['/']);
        return None;
    }
    assert(q.len() == n);
    assert(q != seq!['/']) by {
        if n == 1 {
            assert(q[0] == v@[0]);
        }
    }
    match last_index_exec(v.as_slice(), n, '/') {
        None => Some(String::new()),
        Some(i) => {
            if i == 0 {
                let s: Vec<char> = vec!['/'];
                assert(s@ =~= seq!['/']);
                Some(string_of(s.as_slice()))
            } else {
                let m = trim_slashes_exec(v.as_slice().split_at(i).0);
                assert(v@.take(n as int).take(i as int) =~= v@.take(i as int));
                let mut out: Vec<char> = Vec::new();
                let mut k: usize = 0;
                while k < m
                    invariant
                        k <= m,
                        m <= i,
                        i < n <= v.len(),
                        out@ == v@.take(k as int),
                    decreases m - k,
                {
                    out.push(v[k]);
                    k = k + 1;
                    assert(out@ =~= v@.take(k as int));
                }
                assert(v@.take(i as int).take(m as int) =~= v@.take(m as int));
                Some(string_of(out.as_slice()))
            }
        },
    }
}

/// `Path::file_name`.
pub fn file_name(p: &str) -> (r: Option<String>)
    ensures
        r.deep_view() == file_name_spec(p@),
{
    let v = chars_of(p);
    let name = file_name_chars(v.as_slice());
    match name {
        Some(x) => Some(string_of(x.as_slice())),
        None => None,
    }
}

/// The last component of a path given as characters.
pub fn file_name_chars(v: &[char]) -> (r: Option<Vec<char>>)
    ensures
        r matches Some(x) ==> file_name_spec(v@) == Some(x@),
        r is None ==> file_name_spec(v@) is None,
{
    let n = trim_slashes_exec(v);
    let ghost q = v@.take(n as int);
    let start: usize = match last_index_exec(v, n, '/') {
        None => 0,
        Some(i) => i + 1,
    };
    proof {
        lemma_last_index_of(q, '/');
    }
    let mut out: Vec<char> = Vec::new();
    let mut k: usize = start;
    while k < n
        invariant
            start <= k <= n <= v.len(),
            out@ == v@.subrange(start as int, k as int),
        decreases n - k,
    {
        out.push(v[k]);
        k = k + 1;
        assert(out@ =~= v@.subrange(start as int, k as int));
    }
    assert(out@ =~= q.skip(last_index_of(q, '/') + 1));
    if out.len() == 0 || (out.len() == 2 && out[0] == '.' && out[1] == '.') {
        assert(out.len() == 2 ==> out@ =~= seq!['.', '.']);
        None
    } else {
        assert(out@ != seq!['.', '.']) by {
            if out@ =~= seq!['.', '.'] {
                assert(out@[0] == '.' && out@[1] == '.');
            }
        }
        Some(out)
    }
}

/// `Path::file_stem` of a file name.
pub fn stem_chars(name: &[char]) -> (r: Vec<char>)
    ensures
        r@ == stem_of_name(name@),
{
    match last_index_exec(name, name.len(), '.') {
        Some(i) => {
            assert(name@.take(name.len() as int) =~= name@);
            if i > 0 {
                to_vec(name.split_at(i).0)
            } else {
                to_vec(name)
            }
        },
        None => {
            assert(name@.take(name.len() as int) =~= name@);
            to_vec(name)
        },
    }
}

/// `Path::extension` of a file name.
pub fn ext_chars(name: &[char]) -> (r: Option<Vec<char>>)
    ensures
        r matches Some(x) ==> ext_of_name(name@) == Some(x@),
        r is None ==> ext_of_name(name@) is None,
{
    match last_index_exec(name, name.len(), '.') {
        Some(i) => {
            assert(name@.take(name.len() as int) =~= name@);
            if i > 0 {
                proof {
                    lemma_last_index_of(name@, '.');
                }
                let tail = name.split_at(i + 1).1;
                assert(tail@ =~= name@.skip(i + 1));
                Some(to_vec(tail))
            } else {
                None
            }
        },
        None => {
            assert(name@.take(name.len() as int) =~= name@);
            None
        },
    }
}

/// `Path::file_stem`.
pub fn file_stem(p: &str) -> (r: Option<String>)
    ensures
        r.deep_view() == file_stem_spec(p@),
{
    let v = chars_of(p);
    match file_name_chars(v.as_slice()) {
        Some(name) => {
            let st = stem_chars(name.as_slice());
            Some(string_of(st.as_slice()))
        },
        None => None,
    }
}

/// `Path::extension`.
pub fn extension(p: &str) -> (r: Option<String>)
    ensures
        r.deep_view() == extension_spec(p@),
{
    let v = chars_of(p);
    match file_name_chars(v.as_slice()) {
        Some(name) => match ext_chars(name.as_slice()) {
            Some(e) => Some(string_of(e.as_slice())),
            None => None,
        },
        None => None,
    }
}

/// A path joined with a name, as characters.
pub fn join_chars(base: &[char], name: &[char]) -> (r: Vec<char>)
    ensures
        r@ == join_spec(base@, name@),
{
    if name.len() > 0 && name[0] == '/' {
        to_vec(name)
    } else if base.len() == 0 {
        to_vec(name)
    } else if base[base.len() - 1] == '/' {
        let mut r = to_vec(base);
        append_chars(&mut r, name);
        r
    } else {
        let mut r = to_vec(base);
        r.push('/');
        append_chars(&mut r, name);
        r
    }
}

/// `Path::join`.
pub fn join(base: &str, name: &str) -> (r: String)
    ensures
        r@ == join_spec(base@, name@),
{
    let b = chars_of(base);
    let n = chars_of(name);
    let r = join_chars(b.as_slice(), n.as_slice());
    string_of(r.as_slice())
}

/// Up to `n` ancestors of `p`, nearest first.
pub open spec fn ancestors(p: Seq<char>, n: nat) -> Seq<Seq<char>>
    decreases n,
{
    if n == 0 {
        seq![]
    } else {
        match parent_spec(p) {
            Some(q) => seq![q] + ancestors(q, (n - 1) as nat),
            None => seq![],
        }
    }
}

/// Every ancestor of `p`, nearest first.
pub open spec fn all_ancestors(p: Seq<char>) -> Seq<Seq<char>>
    decreases p.len(),
{
    match parent_spec(p) {
        Some(q) => {
            proof {
                lemma_parent_shorter(p);
            }
            seq![q] + all_ancestors(q)
        },
        None => seq![],
    }
}

/// `ContextInfer::collect_parent_dirs`: at most `max` parent directories of
/// `path`, nearest first.
pub fn collect_parent_dirs(path: &str, max: usize) -> (r: Vec<String>)
    ensures
        crate::text::views(r@) == ancestors(path@, max as nat),
{
    let mut dirs: Vec<String> = Vec::new();
    let mut current = parent(path);
    let ghost mut cur_path: Seq<char> = path@;
    assert(current.deep_view() == parent_spec(cur_path));
    while dirs.len() < max
        invariant
            dirs.len() <= max,
            current.deep_view() == parent_spec(cur_path),
            crate::text::views(dirs@) + ancestors(cur_path, (max - dirs.len()) as nat)
                == ancestors(path@, max as nat),
        decreases max - dirs.len(),
    {
        match current {
            Some(dir) => {
                let next = parent(dir.as_str());
                proof {
                    let n = (max - dirs.len()) as nat;
                    assert(ancestors(cur_path, n) == seq![dir@] + ancestors(dir@, (n - 1) as nat));
                    assert(crate::text::views(dirs@.push(dir)) =~= crate::text::views(dirs@).push(
                        dir@,
                    ));
                    assert(crate::text::views(dirs@) + (seq![dir@] + ancestors(
                        dir@,
                        (n - 1) as nat,
                    )) =~= crate::text::views(dirs@).push(dir@) + ancestors(
                        dir@,
                        (n - 1) as nat,
                    ));
                    cur_path = dir@;
                }
                dirs.push(dir);
                current = next;
            },
            None => {
                proof {
                    let n = (max - dirs.len()) as nat;
                    assert(ancestors(cur_path, n) == Seq::<Seq<char>>::empty());
                    assert(crate::text::views(dirs@) + Seq::<Seq<char>>::empty()
                        =~= crate::text::views(dirs@));
                }
                return dirs;
            },
        }
    }
    assert(crate::text::views(dirs@) + Seq::<Seq<char>>::empty() =~= crate::text::views(dirs@));
    dirs
}

/// All ancestors of `path`, nearest first (`parent_chain` of the renamer).
pub fn parent_chain(path: &str) -> (r: Vec<String>)
    ensures
        crate::text::views(r@) == all_ancestors(path@),
{
    let mut dirs: Vec<String> = Vec::new();
    let mut current = parent(path);
    let ghost mut cur_path: Seq<char> = path@;
    loop
        invariant
            current.deep_view() == parent_spec(cur_path),
            crate::text::views(dirs@) + all_ancestors(cur_path) == all_ancestors(path@),
        decreases cur_path.len(),
    {
        match current {
            Some(dir) => {
                let next = parent(dir.as_str());
                proof {
                    lemma_parent_shorter(cur_path);
                    assert(all_ancestors(cur_path) == seq![dir@] + all_ancestors(dir@));
                    assert(crate::text::views(dirs@.push(dir)) =~= crate::text::views(dirs@).push(
                        dir@,
                    ));
                    assert(crate::text::views(dirs@) + (seq![dir@] + all_ancestors(dir@))
                        =~= crate::text::views(dirs@).push(dir@) + all_ancestors(dir@));
                    cur_path = dir@;
                }
                dirs.push(dir);
                current = next;
            },
            None => {
                proof {
                    assert(all_ancestors(cur_path) == Seq::<Seq<char>>::empty());
                    assert(crate::text::views(dirs@) + Seq::<Seq<char>>::empty()
                        =~= crate::text::views(dirs@));
                }
                return dirs;
            },
        }
    }
}


/// `Path::with_extension`: the file name's extension replaced by `ext`
/// (dropped when `ext` is empty); a path without file name is unchanged.
pub open spec fn with_extension_spec(p: Seq<char>, ext: Seq<char>) -> Seq<char> {
    match file_name_spec(p) {
        None => p,
        Some(name) => {
            let q = trim_slashes(p);
            q.take(last_index_of(q, '/') + 1) + stem_of_name(name) + if ext.len() == 0 {
                seq![]
            } else {
                seq!['.'] + ext
            }
        },
    }
}

/// `Path::with_extension`.
pub fn with_extension(p: &str, ext: &str) -> (r: String)
    ensures
        r@ == with_extension_spec(p@, ext@),
{
    let v = chars_of(p);
    match file_name_chars(v.as_slice()) {
        None => string_of(v.as_slice()),
        Some(name) => {
            let n = trim_slashes_exec(v.as_slice());
            let ghost q = v@.take(n as int);
            let start: usize = match last_index_exec(v.as_slice(), n, '/') {
                None => 0,
                Some(i) => i + 1,
            };
            proof {
                lemma_last_index_of(q, '/');
            }
            let mut out: Vec<char> = Vec::new();
            let mut k: usize = 0;
            while k < start
                invariant
                    start <= n <= v.len(),
                    k <= start,
                    out@ == v@.take(k as int),
                decreases start - k,
            {
                out.push(v[k]);
                k = k + 1;
                assert(out@ =~= v@.take(k as int));
            }
            assert(out@ =~= q.take(last_index_of(q, '/') + 1));
            let st = stem_chars(name.as_slice());
            append_chars(&mut out, st.as_slice());
            let e = chars_of(ext);
            if e.len() > 0 {
                out.push('.');
                append_chars(&mut out, e.as_slice());
            }
            string_of(out.as_slice())
        },
    }
}

} // verus!
