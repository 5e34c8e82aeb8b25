//! Character-level text operations with their mathematical meaning.
//!
//! Text is modelled as `Seq<char>`; the executable functions work on
//! `Vec<char>` / `&[char]` and are proved equal to the spec functions.
use vstd::prelude::*;

verus! {

/// `String::push` appends one character to the end of the string.
pub assume_specification[ String::push ](s: &mut String, ch: char)
    ensures
        final(s)@ == old(s)@.push(ch),
;

// ---------------------------------------------------------------------------
// Conversions between `str`/`String` and character vectors
// ---------------------------------------------------------------------------

/// Characters of a string slice, in order.
pub fn chars_of(s: &str) -> (v: Vec<char>)
    ensures
        v@ == s@,
{
    let mut v: Vec<char> = Vec::new();
    for c in it: s.chars()
        invariant
            v@ == it.seq().take(it.index() as int),
    {
        v.push(c);
    }
    v
}

/// A string made of the given characters, in order.
pub fn string_of(v: &[char]) -> (s: String)
    ensures
        s@ == v@,
{
    let mut s = String::new();
    let mut i: usize = 0;
    while i < v.len()
        invariant
            i <= v.len(),
            s@ == v@.take(i as int),
        decreases v.len() - i,
    {
        s.push(v[i]);
        i = i + 1;
        assert(s@ == v@.take(i as int));
    }
    assert(v@.take(v.len() as int) == v@);
    s
}

/// Copy of a character slice as a vector.
pub fn to_vec(v: &[char]) -> (r: Vec<char>)
    ensures
        r@ == v@,
{
    let mut r: Vec<char> = Vec::new();
    let mut i: usize = 0;
    while i < v.len()
        invariant
            i <= v.len(),
            r@ == v@.take(i as int),
        decreases v.len() - i,
    {
        r.push(v[i]);
        i = i + 1;
        assert(r@ == v@.take(i as int));
    }
    assert(v@.take(v.len() as int) == v@);
    r
}

/// Appends all characters of `b` to `a`.
pub fn append_chars(a: &mut Vec<char>, b: &[char])
    ensures
        final(a)@ == old(a)@ + b@,
{
    let mut i: usize = 0;
    while i < b.len()
        invariant
            i <= b.len(),
            a@ == old(a)@ + b@.take(i as int),
        decreases b.len() - i,
    {
        a.push(b[i]);
        i = i + 1;
        assert(a@ == old(a)@ + b@.take(i as int));
    }
    assert(b@.take(b.len() as int) == b@);
}

/// The characters of a string slice appended to a character vector.
pub fn append_str(a: &mut Vec<char>, b: &str)
    ensures
        final(a)@ == old(a)@ + b@,
{
    let bv = chars_of(b);
    append_chars(a, bv.as_slice());
}

/// Equality of two character slices.
pub fn chars_eq(a: &[char], b: &[char]) -> (r: bool)
    ensures
        r == (a@ == b@),
{
    if a.len() != b.len() {
        return false;
    }
    let mut i: usize = 0;
    while i < a.len()
        invariant
            i <= a.len(),
            a.len() == b.len(),
            a@.take(i as int) == b@.take(i as int),
        decreases a.len() - i,
    {
        if a[i] != b[i] {
            return false;
        }
        assert(a@.take(i + 1) == a@.take(i as int).push(a@[i as int]));
        assert(b@.take(i + 1) == b@.take(i as int).push(b@[i as int]));
        i = i + 1;
    }
    assert(a@.take(a.len() as int) == a@);
    assert(b@.take(b.len() as int) == b@);
    true
}

/// Equality of two strings, by their characters.
pub fn str_eq(a: &str, b: &str) -> (r: bool)
    ensures
        r == (a@ == b@),
{
    let av = chars_of(a);
    let bv = chars_of(b);
    chars_eq(av.as_slice(), bv.as_slice())
}

// ---------------------------------------------------------------------------
// Characters
// ---------------------------------------------------------------------------

/// Unicode `White_Space` (the set `char::is_whitespace` accepts).
pub open spec fn is_ws(c: char) -> bool {
    ||| c == ' '
    ||| ('\t' <= c && c <= '\r')
    ||| c == '\u{85}'
    ||| c == '\u{A0}'
    ||| c == '\u{1680}'
    ||| ('\u{2000}' <= c && c <= '\u{200A}')
    ||| c == '\u{2028}'
    ||| c == '\u{2029}'
    ||| c == '\u{202F}'
    ||| c == '\u{205F}'
    ||| c == '\u{3000}'
}

/// Whether a character is white space.
pub fn is_whitespace(c: char) -> (r: bool)
    ensures
        r == is_ws(c),
{
    c == ' ' || ('\t' <= c && c <= '\r') || c == '\u{85}' || c == '\u{A0}' || c == '\u{1680}'
        || ('\u{2000}' <= c && c <= '\u{200A}') || c == '\u{2028}' || c == '\u{2029}' || c
        == '\u{202F}' || c == '\u{205F}' || c == '\u{3000}'
}

pub open spec fn is_digit(c: char) -> bool {
    '0' <= c && c <= '9'
}

pub open spec fn lower_char(c: char) -> char {
    if 'A' <= c && c <= 'Z' {
        ((c as u32) + 32) as char
    } else {
        c
    }
}

pub open spec fn upper_char(c: char) -> char {
    if 'a' <= c && c <= 'z' {
        ((c as u32) - 32) as char
    } else {
        c
    }
}

/// A character in lower case.
pub fn to_lower_char(c: char) -> (r: char)
    ensures
        r == lower_char(c),
{
    if 'A' <= c && c <= 'Z' {
        ((c as u8) + 32) as char
    } else {
        c
    }
}

/// A character in upper case.
pub fn to_upper_char(c: char) -> (r: char)
    ensures
        r == upper_char(c),
{
    if 'a' <= c && c <= 'z' {
        ((c as u8) - 32) as char
    } else {
        c
    }
}

/// ASCII lower-casing of a whole sequence (`str::to_ascii_lowercase`).
pub open spec fn lower(s: Seq<char>) -> Seq<char> {
    s.map_values(|c: char| lower_char(c))
}

/// ASCII upper-casing of a whole sequence (`str::to_ascii_uppercase`).
pub open spec fn upper(s: Seq<char>) -> Seq<char> {
    s.map_values(|c: char| upper_char(c))
}

/// A text in lower case.
pub fn to_lower(s: &[char]) -> (r: Vec<char>)
    ensures
        r@ == lower(s@),
{
    let mut r: Vec<char> = Vec::new();
    let mut i: usize = 0;
    while i < s.len()
        invariant
            i <= s.len(),
            r@ == lower(s@.take(i as int)),
        decreases s.len() - i,
    {
        r.push(to_lower_char(s[i]));
        i = i + 1;
        assert(r@ =~= lower(s@.take(i as int)));
    }
    assert(s@.take(s.len() as int) == s@);
    r
}

/// A text in upper case.
pub fn to_upper(s: &[char]) -> (r: Vec<char>)
    ensures
        r@ == upper(s@),
{
    let mut r: Vec<char> = Vec::new();
    let mut i: usize = 0;
    while i < s.len()
        invariant
            i <= s.len(),
            r@ == upper(s@.take(i as int)),
        decreases s.len() - i,
    {
        r.push(to_upper_char(s[i]));
        i = i + 1;
        assert(r@ =~= upper(s@.take(i as int)));
    }
    assert(s@.take(s.len() as int) == s@);
    r
}

pub open spec fn all_digits(s: Seq<char>) -> bool {
    forall|i: int| 0 <= i < s.len() ==> is_digit(#[trigger] s[i])
}

/// Whether a text is made of ASCII digits only.
pub fn is_all_digits(s: &[char]) -> (r: bool)
    ensures
        r == all_digits(s@),
{
    let mut i: usize = 0;
    while i < s.len()
        invariant
            i <= s.len(),
            forall|j: int| 0 <= j < i ==> is_digit(#[trigger] s@[j]),
        decreases s.len() - i,
    {
        if !('0' <= s[i] && s[i] <= '9') {
            return false;
        }
        i = i + 1;
    }
    true
}

// ---------------------------------------------------------------------------
// Trimming
// ---------------------------------------------------------------------------

/// Number of leading white-space characters.
pub open spec fn lead_ws(s: Seq<char>) -> nat
    decreases s.len(),
{
    if s.len() > 0 && is_ws(s[0]) {
        1 + lead_ws(s.drop_first())
    } else {
        0
    }
}

/// Number of trailing white-space characters.
pub open spec fn trail_ws(s: Seq<char>) -> nat
    decreases s.len(),
{
    if s.len() > 0 && is_ws(s.last()) {
        1 + trail_ws(s.drop_last())
    } else {
        0
    }
}

pub open spec fn trim_start(s: Seq<char>) -> Seq<char> {
    s.skip(lead_ws(s) as int)
}

pub open spec fn trim_end(s: Seq<char>) -> Seq<char> {
    s.take(s.len() - trail_ws(s))
}

/// `str::trim`: the sequence without leading and trailing white space.
pub open spec fn trim(s: Seq<char>) -> Seq<char> {
    trim_end(trim_start(s))
}

/// The leading white space is white and ends at a non-white character.
pub proof fn lemma_lead_ws_bound(s: Seq<char>)
    ensures
        lead_ws(s) <= s.len(),
        forall|j: int| 0 <= j < lead_ws(s) ==> is_ws(#[trigger] s[j]),
        lead_ws(s) < s.len() ==> !is_ws(s[lead_ws(s) as int]),
    decreases s.len(),
{
    if s.len() > 0 && is_ws(s[0]) {
        lemma_lead_ws_bound(s.drop_first());
        assert forall|j: int| 0 <= j < lead_ws(s) implies is_ws(#[trigger] s[j]) by {
            if j > 0 {
                assert(s[j] == s.drop_first()[j - 1]);
            }
        }
    }
}

/// The trailing white space is white and starts after a non-white character.
pub proof fn lemma_trail_ws_bound(s: Seq<char>)
    ensures
        trail_ws(s) <= s.len(),
        forall|j: int| s.len() - trail_ws(s) <= j < s.len() ==> is_ws(#[trigger] s[j]),
        trail_ws(s) < s.len() ==> !is_ws(s[s.len() - trail_ws(s) - 1]),
    decreases s.len(),
{
    if s.len() > 0 && is_ws(s.last()) {
        lemma_trail_ws_bound(s.drop_last());
        assert forall|j: int| s.len() - trail_ws(s) <= j < s.len() implies is_ws(
            #[trigger] s[j],
        ) by {
            if j < s.len() - 1 {
                assert(s[j] == s.drop_last()[j]);
            }
        }
    }
}

/// Trimming a trimmed text changes nothing.
pub proof fn lemma_trim_idempotent(s: Seq<char>)
    ensures
        trim(trim(s)) == trim(s),
{
    lemma_lead_ws_bound(s);
    let a = trim_start(s);
    lemma_trail_ws_bound(a);
    let t = trim(s);
    assert(t == a.take(a.len() - trail_ws(a)));
    if t.len() > 0 {
        assert(t[0] == a[0]);
        assert(a[0] == s[lead_ws(s) as int]);
        assert(t[t.len() - 1] == a[a.len() - trail_ws(a) - 1]);
    }
    lemma_lead_ws_unique(t, 0);
    lemma_trail_ws_unique(t, 0);
    assert(trim_start(t) =~= t);
    assert(trim_end(t) =~= t);
}

/// Characterisation of `lead_ws` by its two defining properties.
pub proof fn lemma_lead_ws_unique(s: Seq<char>, k: int)
    requires
        0 <= k <= s.len(),
        forall|j: int| 0 <= j < k ==> is_ws(#[trigger] s[j]),
        k < s.len() ==> !is_ws(s[k]),
    ensures
        lead_ws(s) == k,
    decreases s.len(),
{
    if k > 0 {
        assert(is_ws(s[0]));
        assert forall|j: int| 0 <= j < k - 1 implies is_ws(#[trigger] s.drop_first()[j]) by {
            assert(s.drop_first()[j] == s[j + 1]);
        }
        lemma_lead_ws_unique(s.drop_first(), k - 1);
    }
}

/// Characterisation of `trail_ws` by its two defining properties.
pub proof fn lemma_trail_ws_unique(s: Seq<char>, k: int)
    requires
        0 <= k <= s.len(),
        forall|j: int| s.len() - k <= j < s.len() ==> is_ws(#[trigger] s[j]),
        k < s.len() ==> !is_ws(s[s.len() - k - 1]),
    ensures
        trail_ws(s) == k,
    decreases s.len(),
{
    if k > 0 {
        assert(is_ws(s.last()));
        assert forall|j: int| s.drop_last().len() - (k - 1) <= j < s.drop_last().len() implies is_ws(
            #[trigger] s.drop_last()[j],
        ) by {
            assert(s.drop_last()[j] == s[j]);
        }
        lemma_trail_ws_unique(s.drop_last(), k - 1);
    }
}

/// A text without leading and trailing white space.
pub fn trim_chars(s: &[char]) -> (r: Vec<char>)
    ensures
        r@ == trim(s@),
{
    let mut a: usize = 0;
    while a < s.len() && is_whitespace(s[a])
        invariant
            a <= s.len(),
            forall|j: int| 0 <= j < a ==> is_ws(#[trigger] s@[j]),
        decreases s.len() - a,
    {
        a = a + 1;
    }
    proof {
        lemma_lead_ws_unique(s@, a as int);
    }
    let ghost t = s@.skip(a as int);
    let mut b: usize = s.len();
    while b > a && is_whitespace(s[b - 1])
        invariant
            a <= b <= s.len(),
            forall|j: int| b <= j < s.len() ==> is_ws(#[trigger] s@[j]),
        decreases b,
    {
        b = b - 1;
    }
    proof {
        let k = (s.len() - b) as int;
        assert forall|j: int| t.len() - k <= j < t.len() implies is_ws(#[trigger] t[j]) by {
            assert(t[j] == s@[j + a]);
        }
        if k < t.len() {
            assert(t[t.len() - k - 1] == s@[b - 1]);
        }
        lemma_trail_ws_unique(t, k);
    }
    let mut r: Vec<char> = Vec::new();
    let mut i: usize = a;
    while i < b
        invariant
            a <= i <= b,
            b <= s.len(),
            r@ == s@.subrange(a as int, i as int),
        decreases b - i,
    {
        r.push(s[i]);
        i = i + 1;
        assert(r@ =~= s@.subrange(a as int, i as int));
    }
    assert(r@ =~= trim(s@));
    r
}

/// A string without leading and trailing white space, as characters.
pub fn trim_str(s: &str) -> (r: Vec<char>)
    ensures
        r@ == trim(s@),
{
    let v = chars_of(s);
    trim_chars(v.as_slice())
}

// ---------------------------------------------------------------------------
// Searching
// ---------------------------------------------------------------------------

/// `p` occurs in `s` at position `i`.
pub open spec fn occurs_at(s: Seq<char>, p: Seq<char>, i: int) -> bool {
    0 <= i && i + p.len() <= s.len() && s.subrange(i, i + p.len()) == p
}

/// `str::contains` for a string pattern.
pub open spec fn contains(s: Seq<char>, p: Seq<char>) -> bool {
    exists|i: int| occurs_at(s, p, i)
}

pub open spec fn starts_with(s: Seq<char>, p: Seq<char>) -> bool {
    occurs_at(s, p, 0)
}

pub open spec fn ends_with(s: Seq<char>, p: Seq<char>) -> bool {
    occurs_at(s, p, s.len() - p.len())
}

/// Whether `p` occurs in `s` at position `i`.
pub fn occurs_at_exec(s: &[char], p: &[char], i: usize) -> (r: bool)
    ensures
        r == occurs_at(s@, p@, i as int),
{
    if i > s.len() || p.len() > s.len() - i {
        return false;
    }
    let mut k: usize = 0;
    while k < p.len()
        invariant
            k <= p.len(),
            i + p.len() <= s.len(),
            forall|j: int| 0 <= j < k ==> s@[i + j] == p@[j],
        decreases p.len() - k,
    {
        if s[i + k] != p[k] {
            assert(s@.subrange(i as int, i + p.len())[k as int] != p@[k as int]);
            return false;
        }
        k = k + 1;
    }
    assert(s@.subrange(i as int, i + p.len()) =~= p@);
    true
}

/// Leftmost occurrence of `p` at or after `from`.
pub open spec fn is_first_from(s: Seq<char>, p: Seq<char>, from: int, i: int) -> bool {
    &&& from <= i
    &&& occurs_at(s, p, i)
    &&& forall|j: int| from <= j < i ==> !occurs_at(s, p, j)
}

/// `str::find` on `s[from..]`, as a position in `s`.
pub open spec fn find_spec(s: Seq<char>, p: Seq<char>, from: int) -> Option<int>
    decreases s.len() + 1 - from,
{
    if from < 0 || from + p.len() > s.len() {
        None
    } else if occurs_at(s, p, from) {
        Some(from)
    } else {
        find_spec(s, p, from + 1)
    }
}

/// `find_spec` finds the first occurrence at or after `from`.
pub proof fn lemma_find_spec(s: Seq<char>, p: Seq<char>, from: int)
    requires
        0 <= from,
    ensures
        find_spec(s, p, from) matches Some(i) ==> is_first_from(s, p, from, i),
        find_spec(s, p, from) is None ==> forall|j: int| from <= j ==> !occurs_at(s, p, j),
    decreases s.len() + 1 - from,
{
    if from + p.len() <= s.len() && !occurs_at(s, p, from) {
        lemma_find_spec(s, p, from + 1);
    }
}

/// The first occurrence of `p` in `s` at or after `from`.
pub fn find_from(s: &[char], p: &[char], from: usize) -> (r: Option<usize>)
    ensures
        r matches Some(i) ==> find_spec(s@, p@, from as int) == Some(i as int),
        r is None ==> find_spec(s@, p@, from as int) is None,
        r matches Some(i) ==> is_first_from(s@, p@, from as int, i as int),
        r is None ==> forall|j: int| from <= j ==> !occurs_at(s@, p@, j),
{
    proof {
        lemma_find_spec(s@, p@, from as int);
    }
    if p.len() > s.len() || from > s.len() - p.len() {
        return None;
    }
    let last = s.len() - p.len();
    let mut i: usize = from;
    while i < last
        invariant
            from <= i <= last,
            last + p.len() == s.len(),
            find_spec(s@, p@, from as int) == find_spec(s@, p@, i as int),
        decreases last - i,
    {
        if occurs_at_exec(s, p, i) {
            assert(find_spec(s@, p@, from as int) == Some(i as int));
            proof {
                lemma_find_spec(s@, p@, from as int);
            }
            return Some(i);
        }
        i = i + 1;
    }
    if occurs_at_exec(s, p, i) {
        return Some(i);
    }
    assert(find_spec(s@, p@, i + 1) is None);
    None
}

/// Whether `p` occurs in `s`.
pub fn contains_chars(s: &[char], p: &[char]) -> (r: bool)
    ensures
        r == contains(s@, p@),
{
    match find_from(s, p, 0) {
        Some(_) => true,
        None => {
            assert forall|j: int| !occurs_at(s@, p@, j) by {
                if j < 0 {
                }
            }
            false
        },
    }
}

/// Whether `p` occurs in `s`.
pub fn contains_str(s: &[char], p: &str) -> (r: bool)
    ensures
        r == contains(s@, p@),
{
    let pv = chars_of(p);
    contains_chars(s, pv.as_slice())
}

/// Whether `s` starts with `p`.
pub fn starts_with_str(s: &[char], p: &str) -> (r: bool)
    ensures
        r == starts_with(s@, p@),
{
    let pv = chars_of(p);
    occurs_at_exec(s, pv.as_slice(), 0)
}

/// Whether `s` starts with `p`.
pub fn starts_with_chars(s: &[char], p: &[char]) -> (r: bool)
    ensures
        r == starts_with(s@, p@),
{
    occurs_at_exec(s, p, 0)
}

/// `str::contains` for a character pattern.
pub fn has_char(s: &[char], c: char) -> (r: bool)
    ensures
        r == s@.contains(c),
{
    let mut i: usize = 0;
    while i < s.len()
        invariant
            i <= s.len(),
            forall|j: int| 0 <= j < i ==> s@[j] != c,
        decreases s.len() - i,
    {
        if s[i] == c {
            return true;
        }
        i = i + 1;
    }
    false
}

// ---------------------------------------------------------------------------
// Replacing
// ---------------------------------------------------------------------------

/// `str::replace(pat, rep)`: every non-overlapping occurrence of a non-empty
/// `pat`, scanning from the left, replaced by `rep`.
pub open spec fn replace_all(s: Seq<char>, pat: Seq<char>, rep: Seq<char>) -> Seq<char>
    decreases s.len(),
{
    if pat.len() == 0 || s.len() < pat.len() {
        s
    } else if s.take(pat.len() as int) == pat {
        rep + replace_all(s.skip(pat.len() as int), pat, rep)
    } else {
        seq![s[0]] + replace_all(s.drop_first(), pat, rep)
    }
}

/// Every occurrence of `pat` in `s` replaced by `rep`, left to right.
pub fn replace_chars(s: &[char], pat: &[char], rep: &[char]) -> (r: Vec<char>)
    requires
        pat.len() > 0,
    ensures
        r@ == replace_all(s@, pat@, rep@),
{
    let mut r: Vec<char> = Vec::new();
    let mut i: usize = 0;
    assert(s@.skip(0) =~= s@);
    assert(r@ + s@ =~= s@);
    while i < s.len()
        invariant
            i <= s.len(),
            pat.len() > 0,
            r@ + replace_all(s@.skip(i as int), pat@, rep@) == replace_all(s@, pat@, rep@),
        decreases s.len() - i,
    {
        let ghost rest = s@.skip(i as int);
        if occurs_at_exec(s, pat, i) {
            assert(rest.take(pat.len() as int) =~= s@.subrange(i as int, i + pat.len()));
            assert(rest.skip(pat.len() as int) =~= s@.skip(i + pat.len()));
            append_chars(&mut r, rep);
            i = i + pat.len();
        } else {
            proof {
                if rest.len() >= pat@.len() {
                    assert(rest.take(pat@.len() as int) =~= s@.subrange(i as int, i + pat@.len()));
                }
            }
            assert(rest.drop_first() =~= s@.skip(i + 1));
            assert(rest[0] == s@[i as int]);
            r.push(s[i]);
            i = i + 1;
            assert(r@ + replace_all(s@.skip(i as int), pat@, rep@) =~= replace_all(
                s@,
                pat@,
                rep@,
            ));
        }
    }
    assert(s@.skip(i as int) =~= Seq::<char>::empty());
    assert(r@ + Seq::<char>::empty() =~= r@);
    r
}

/// Every occurrence of `pat` in `s` replaced by `rep`, left to right.
pub fn replace_str(s: &[char], pat: &str, rep: &str) -> (r: Vec<char>)
    requires
        pat@.len() > 0,
    ensures
        r@ == replace_all(s@, pat@, rep@),
{
    let pv = chars_of(pat);
    let rv = chars_of(rep);
    replace_chars(s, pv.as_slice(), rv.as_slice())
}

/// Every character satisfying `is_bad` replaced by `by`.
pub open spec fn map_bad_chars(s: Seq<char>, bad: Seq<char>, by: char) -> Seq<char> {
    s.map_values(|c: char| if bad.contains(c) { by } else { c })
}

/// Every character of `bad` in `s` replaced by `by`.
pub fn replace_char_set(s: &[char], bad: &[char], by: char) -> (r: Vec<char>)
    ensures
        r@ == map_bad_chars(s@, bad@, by),
{
    let mut r: Vec<char> = Vec::new();
    let mut i: usize = 0;
    while i < s.len()
        invariant
            i <= s.len(),
            r@ == map_bad_chars(s@.take(i as int), bad@, by),
        decreases s.len() - i,
    {
        let c = s[i];
        if has_char(bad, c) {
            r.push(by);
        } else {
            r.push(c);
        }
        i = i + 1;
        assert(r@ =~= map_bad_chars(s@.take(i as int), bad@, by));
    }
    assert(s@.take(s.len() as int) == s@);
    r
}

// ---------------------------------------------------------------------------
// Words
// ---------------------------------------------------------------------------

/// Words of `s` from position `i`, `cur` being the word under construction
/// (`str::split_whitespace` when started at 0 with an empty word).
pub open spec fn words_acc(s: Seq<char>, i: int, cur: Seq<char>) -> Seq<Seq<char>>
    decreases s.len() - i,
{
    if i >= s.len() {
        if cur.len() > 0 {
            seq![cur]
        } else {
            seq![]
        }
    } else if is_ws(s[i]) {
        if cur.len() > 0 {
            seq![cur] + words_acc(s, i + 1, seq![])
        } else {
            words_acc(s, i + 1, seq![])
        }
    } else {
        words_acc(s, i + 1, cur.push(s[i]))
    }
}

/// `str::split_whitespace`.
pub open spec fn words(s: Seq<char>) -> Seq<Seq<char>> {
    words_acc(s, 0, seq![])
}

/// The words of a text, split at white space.
pub fn split_words(s: &[char]) -> (r: Vec<Vec<char>>)
    ensures
        r@.len() == words(s@).len(),
        forall|k: int| 0 <= k < r@.len() ==> (#[trigger] r@[k])@ == words(s@)[k],
{
    let mut r: Vec<Vec<char>> = Vec::new();
    let mut cur: Vec<char> = Vec::new();
    let mut i: usize = 0;
    let ghost done: Seq<Seq<char>> = seq![];
    while i < s.len()
        invariant
            i <= s.len(),
            r@.len() == done.len(),
            forall|k: int| 0 <= k < r@.len() ==> (#[trigger] r@[k])@ == done[k],
            done + words_acc(s@, i as int, cur@) == words(s@),
        decreases s.len() - i,
    {
        let c = s[i];
        if is_whitespace(c) {
            if cur.len() > 0 {
                proof {
                    assert(words_acc(s@, i as int, cur@) == seq![cur@] + words_acc(
                        s@,
                        i + 1,
                        seq![],
                    ));
                    assert(done + (seq![cur@] + words_acc(s@, i + 1, seq![])) =~= done.push(cur@)
                        + words_acc(s@, i + 1, seq![]));
                    done = done.push(cur@);
                }
                r.push(cur);
                cur = Vec::new();
                assert(cur@ =~= Seq::<char>::empty());
            } else {
                assert(cur@ =~= Seq::<char>::empty());
                assert(words_acc(s@, i as int, cur@) == words_acc(s@, i + 1, seq![]));
            }
        } else {
            assert(words_acc(s@, i as int, cur@) == words_acc(s@, i + 1, cur@.push(c)));
            cur.push(c);
        }
        i = i + 1;
    }
    if cur.len() > 0 {
        proof {
            done = done.push(cur@);
        }
        r.push(cur);
    }
    proof {
        assert(done =~= words(s@));
    }
    r
}

/// Views of a sequence of character vectors.
pub open spec fn seqs(v: Seq<Vec<char>>) -> Seq<Seq<char>> {
    v.map_values(|p: Vec<char>| p@)
}

/// Concatenation of `parts` separated by `sep` (`[T]::join`).
pub open spec fn join(parts: Seq<Seq<char>>, sep: Seq<char>) -> Seq<char>
    decreases parts.len(),
{
    if parts.len() == 0 {
        seq![]
    } else if parts.len() == 1 {
        parts[0]
    } else {
        join(parts.drop_last(), sep) + sep + parts.last()
    }
}

/// The parts joined with a separator.
pub fn join_chars(parts: &Vec<Vec<char>>, sep: &[char]) -> (r: Vec<char>)
    ensures
        r@ == join(parts@.map_values(|p: Vec<char>| p@), sep@),
{
    let ghost views = parts@.map_values(|p: Vec<char>| p@);
    let mut r: Vec<char> = Vec::new();
    let mut i: usize = 0;
    while i < parts.len()
        invariant
            i <= parts.len(),
            views == parts@.map_values(|p: Vec<char>| p@),
            r@ == join(views.take(i as int), sep@),
        decreases parts.len() - i,
    {
        if i > 0 {
            append_chars(&mut r, sep);
        }
        append_chars(&mut r, parts[i].as_slice());
        proof {
            let t = views.take(i + 1);
            assert(t.drop_last() =~= views.take(i as int));
            assert(t.last() == parts@[i as int]@);
            if i == 0 {
                assert(r@ =~= join(t, sep@));
            }
        }
        i = i + 1;
    }
    assert(views.take(parts.len() as int) =~= views);
    r
}

/// `split_whitespace().collect::<Vec<_>>().join(" ")`: words joined by one space.
pub open spec fn collapse_ws(s: Seq<char>) -> Seq<char> {
    join(words(s), seq![' '])
}

/// A text with each run of white space turned into one space, trimmed.
pub fn collapse_whitespace(s: &[char]) -> (r: Vec<char>)
    ensures
        r@ == collapse_ws(s@),
{
    let ws = split_words(s);
    let sep: Vec<char> = vec![' '];
    assert(sep@ =~= seq![' ']);
    let r = join_chars(&ws, sep.as_slice());
    assert(ws@.map_values(|p: Vec<char>| p@) =~= words(s@));
    r
}

// ---------------------------------------------------------------------------
// Numbers
// ---------------------------------------------------------------------------

pub open spec fn digit_char(d: nat) -> char {
    ((d + 48) as u32) as char
}

/// Decimal representation of `n` (`u64::to_string`).
pub open spec fn decimal(n: nat) -> Seq<char>
    decreases n,
{
    if n < 10 {
        seq![digit_char(n)]
    } else {
        decimal(n / 10).push(digit_char(n % 10))
    }
}

/// The decimal digits of a number.
pub fn decimal_of(n: u64) -> (r: Vec<char>)
    ensures
        r@ == decimal(n as nat),
    decreases n,
{
    if n < 10 {
        let c = ((n as u8) + 48) as char;
        vec![c]
    } else {
        let mut r = decimal_of(n / 10);
        let c = (((n % 10) as u8) + 48) as char;
        r.push(c);
        r
    }
}

/// `format!("{:02}", n)`: decimal, left-padded with zeros to two digits.
pub open spec fn pad2(n: nat) -> Seq<char> {
    if n < 10 {
        seq!['0'] + decimal(n)
    } else {
        decimal(n)
    }
}

/// The decimal digits of a number, at least two.
pub fn pad2_of(n: u64) -> (r: Vec<char>)
    ensures
        r@ == pad2(n as nat),
{
    if n < 10 {
        let mut r: Vec<char> = vec!['0'];
        let d = decimal_of(n);
        append_chars(&mut r, d.as_slice());
        r
    } else {
        decimal_of(n)
    }
}

/// Value of a run of decimal digits.
pub open spec fn digits_value(s: Seq<char>) -> nat
    decreases s.len(),
{
    if s.len() == 0 {
        0
    } else {
        digits_value(s.drop_last()) * 10 + ((s.last() as u32) - 48) as nat
    }
}

/// The unsigned integer that `str::parse` reads from `s`, with no bound on
/// its size: an optional `+` followed by one or more ASCII digits.
pub open spec fn uint_value(s: Seq<char>) -> Option<nat> {
    let body = if s.len() > 0 && s[0] == '+' {
        s.drop_first()
    } else {
        s
    };
    if body.len() > 0 && all_digits(body) {
        Some(digits_value(body))
    } else {
        None
    }
}

/// `str::parse` into an unsigned type whose largest value is `max`.
pub open spec fn parse_uint_spec(s: Seq<char>, max: nat) -> Option<nat> {
    match uint_value(s) {
        Some(v) => if v <= max {
            Some(v)
        } else {
            None
        },
        None => None,
    }
}

/// The value of a prefix of digits bounds the value of the whole.
pub proof fn lemma_digits_value_prefix(s: Seq<char>, i: int)
    requires
        0 <= i <= s.len(),
        all_digits(s),
    ensures
        digits_value(s.take(i)) <= digits_value(s),
    decreases s.len() - i,
{
    if i < s.len() {
        lemma_digits_value_prefix(s, i + 1);
        assert(s.take(i + 1).drop_last() =~= s.take(i));
        assert(is_digit(s[i]));
    } else {
        assert(s.take(i) =~= s);
    }
}

proof fn lemma_digit_char(k: nat)
    requires
        k < 10,
    ensures
        digit_char(k) as u32 == k + 48,
        is_digit(digit_char(k)),
{
    assert(((k + 48) as u32) == k + 48);
}

/// A number written in decimal is a non-empty run of digits whose value
/// is the number.
pub proof fn lemma_decimal_digits(n: nat)
    ensures
        all_digits(decimal(n)),
        decimal(n).len() > 0,
        digits_value(decimal(n)) == n,
        decimal(n)[0] != '+',
    decreases n,
{
    lemma_digit_char(n % 10);
    let c = digit_char(n % 10);
    if n < 10 {
        let e = decimal(n);
        assert(e == seq![c]);
        assert(e.drop_last() =~= Seq::<char>::empty());
        assert(e.last() == c);
        assert(digits_value(e) == digits_value(e.drop_last()) * 10 + ((c as u32) - 48) as nat);
    } else {
        lemma_decimal_digits(n / 10);
        let d = decimal(n / 10);
        let e = d.push(c);
        assert(decimal(n) == e);
        assert(e.drop_last() =~= d);
        assert(e.last() == c);
        assert(digits_value(e) == digits_value(e.drop_last()) * 10 + ((c as u32) - 48) as nat);
        assert(digits_value(e) == (n / 10) * 10 + n % 10);
        assert forall|i: int| 0 <= i < e.len() implies is_digit(#[trigger] e[i]) by {
            if i < d.len() {
                assert(e[i] == d[i]);
            }
        }
        assert(e[0] == d[0]);
    }
}

/// Reading back a number written in decimal gives the number, whenever it
/// fits the type it is read into.
pub proof fn lemma_parse_decimal_roundtrip(n: nat, max: nat)
    requires
        n <= max,
    ensures
        parse_uint_spec(decimal(n), max) == Some(n),
{
    lemma_decimal_digits(n);
}

/// `str::parse::<T>()` for an unsigned `T` whose largest value is `max`:
/// `None` where std returns an error.
pub fn parse_uint(s: &[char], max: u64) -> (r: Option<u64>)
    ensures
        r matches Some(v) ==> parse_uint_spec(s@, max as nat) == Some(v as nat),
        r is None ==> parse_uint_spec(s@, max as nat) is None,
{
    let start: usize = if s.len() > 0 && s[0] == '+' {
        1
    } else {
        0
    };
    let ghost body = if s@.len() > 0 && s@[0] == '+' {
        s@.drop_first()
    } else {
        s@
    };
    assert(body =~= s@.skip(start as int));
    if start >= s.len() {
        return None;
    }
    let mut v: u128 = 0;
    let mut i: usize = start;
    while i < s.len()
        invariant
            start <= i <= s.len(),
            body =~= s@.skip(start as int),
            uint_value(s@) == (if body.len() > 0 && all_digits(body) {
                Some(digits_value(body))
            } else {
                None
            }),
            body.len() > 0,
            v <= max,
            forall|j: int| start <= j < i ==> is_digit(#[trigger] s@[j]),
            v as nat == digits_value(s@.subrange(start as int, i as int)),
        decreases s.len() - i,
    {
        let c = s[i];
        if !('0' <= c && c <= '9') {
            assert(body[i - start] == s@[i as int]);
            assert(!is_digit(body[i - start]));
            assert(!all_digits(body));
            assert(uint_value(s@) is None);
            return None;
        }
        let d = (c as u8 - 48) as u128;
        assert(s@.subrange(start as int, i + 1).drop_last() =~= s@.subrange(
            start as int,
            i as int,
        ));
        let nv = v * 10 + d;
        if nv > max as u128 {
            // The value only grows with more digits, and a later non-digit
            // makes the whole string invalid.
            proof {
                if all_digits(body) {
                    assert(body.take(i + 1 - start) =~= s@.subrange(start as int, i + 1));
                    assert(digits_value(s@.subrange(start as int, i + 1)) == nv);
                    lemma_digits_value_prefix(body, i + 1 - start);
                    assert(digits_value(body) > max);
                    assert(uint_value(s@) == Some(digits_value(body)));
                }
                assert(parse_uint_spec(s@, max as nat) is None);
            }
            return None;
        }
        v = nv;
        i = i + 1;
    }
    assert(body =~= s@.subrange(start as int, s.len() as int));
    Some(v as u64)
}

} // verus!

verus! {

/// An owned copy of a string slice.
pub fn owned(s: &str) -> (r: String)
    ensures
        r@ == s@,
{
    let v = chars_of(s);
    string_of(v.as_slice())
}

/// Views of a sequence of strings.
pub open spec fn views(v: Seq<String>) -> Seq<Seq<char>> {
    v.map_values(|s: String| s@)
}

/// Views of a sequence of string slices.
pub open spec fn str_views(v: Seq<&str>) -> Seq<Seq<char>> {
    v.map_values(|s: &str| s@)
}

/// Owned copies of a list of string slices, in order.
pub fn strings_of(lits: &[&str]) -> (r: Vec<String>)
    ensures
        views(r@) == str_views(lits@),
{
    let mut r: Vec<String> = Vec::new();
    let mut i: usize = 0;
    while i < lits.len()
        invariant
            i <= lits.len(),
            r@.len() == i,
            forall|k: int| 0 <= k < i ==> (#[trigger] r@[k])@ == lits@[k]@,
        decreases lits.len() - i,
    {
        let item = owned(lits[i]);
        r.push(item);
        i = i + 1;
    }
    assert(views(r@) =~= str_views(lits@));
    r
}

} // verus!

verus! {

/// Whether `char::is_alphabetic` holds (the Unicode `Alphabetic` property).
pub uninterp spec fn alphabetic(c: char) -> bool;

/// `char::is_alphabetic`; the contract names the result.
#[verifier::external_body]
pub(crate) fn char_is_alphabetic(c: char) -> (r: bool)
    ensures
        r == alphabetic(c),
{
    c.is_alphabetic()
}

/// What `str::to_lowercase` returns (Unicode lowercase mapping).
pub uninterp spec fn lowercase_result(s: Seq<char>) -> Seq<char>;

/// What `str::to_uppercase` returns (Unicode uppercase mapping).
pub uninterp spec fn uppercase_result(s: Seq<char>) -> Seq<char>;

/// `str::to_lowercase`; the contract names the result.
#[verifier::external_body]
pub(crate) fn str_to_lowercase(s: &str) -> (r: String)
    ensures
        r@ == lowercase_result(s@),
{
    s.to_lowercase()
}

/// `str::to_uppercase`; the contract names the result.
#[verifier::external_body]
pub(crate) fn str_to_uppercase(s: &str) -> (r: String)
    ensures
        r@ == uppercase_result(s@),
{
    s.to_uppercase()
}

/// Number of bytes `c` takes in UTF-8.
pub open spec fn utf8_width(c: char) -> nat {
    if (c as u32) < 0x80 {
        1
    } else if (c as u32) < 0x800 {
        2
    } else if (c as u32) < 0x10000 {
        3
    } else {
        4
    }
}

/// `str::len`: the UTF-8 length in bytes.
pub open spec fn byte_len(s: Seq<char>) -> nat
    decreases s.len(),
{
    if s.len() == 0 {
        0
    } else {
        byte_len(s.drop_last()) + utf8_width(s.last())
    }
}

/// The length of a text in UTF-8 bytes.
pub fn byte_len_of(s: &[char]) -> (r: u128)
    ensures
        r as nat == byte_len(s@),
{
    let mut n: u128 = 0;
    let mut i: usize = 0;
    while i < s.len()
        invariant
            i <= s.len(),
            n as nat == byte_len(s@.take(i as int)),
            n <= 4 * i,
        decreases s.len() - i,
    {
        let c = s[i];
        let w: u128 = if (c as u32) < 0x80 {
            1
        } else if (c as u32) < 0x800 {
            2
        } else if (c as u32) < 0x10000 {
            3
        } else {
            4
        };
        assert(s@.take(i + 1).drop_last() =~= s@.take(i as int));
        n = n + w;
        i = i + 1;
    }
    assert(s@.take(s.len() as int) =~= s@);
    n
}

pub open spec fn all_ascii(s: Seq<char>) -> bool {
    forall|i: int| 0 <= i < s.len() ==> (#[trigger] s[i] as u32) < 128
}

/// Whether a text is ASCII.
pub fn is_ascii_chars(s: &[char]) -> (r: bool)
    ensures
        r == all_ascii(s@),
{
    let mut i: usize = 0;
    while i < s.len()
        invariant
            i <= s.len(),
            forall|j: int| 0 <= j < i ==> (#[trigger] s@[j] as u32) < 128,
        decreases s.len() - i,
    {
        if (s[i] as u32) >= 128 {
            return false;
        }
        i = i + 1;
    }
    true
}

/// `s` without leading characters from `set`.
pub open spec fn strip_start(s: Seq<char>, set: Seq<char>) -> Seq<char>
    decreases s.len(),
{
    if s.len() > 0 && set.contains(s[0]) {
        strip_start(s.drop_first(), set)
    } else {
        s
    }
}

/// `s` without trailing characters from `set`.
pub open spec fn strip_end(s: Seq<char>, set: Seq<char>) -> Seq<char>
    decreases s.len(),
{
    if s.len() > 0 && set.contains(s.last()) {
        strip_end(s.drop_last(), set)
    } else {
        s
    }
}

/// `str::trim_end_matches` with a set of characters.
pub fn strip_end_chars(s: &[char], set: &[char]) -> (r: Vec<char>)
    ensures
        r@ == strip_end(s@, set@),
{
    let mut b: usize = s.len();
    assert(s@.take(b as int) =~= s@);
    while b > 0 && has_char(set, s[b - 1])
        invariant
            b <= s.len(),
            strip_end(s@, set@) == strip_end(s@.take(b as int), set@),
        decreases b,
    {
        assert(s@.take(b as int).last() == s@[b - 1]);
        assert(s@.take(b as int).drop_last() =~= s@.take(b - 1));
        b = b - 1;
    }
    if b > 0 {
        assert(s@.take(b as int).last() == s@[b - 1]);
    }
    let out = s.split_at(b).0;
    assert(out@ =~= s@.take(b as int));
    to_vec(out)
}

/// The characters of `s` from the byte offset `start` on (`&s[start..]`
/// where `start` falls between characters).
pub open spec fn bytes_from(s: Seq<char>, start: int) -> Seq<char>
    decreases s.len(),
{
    if s.len() == 0 || start <= 0 {
        s
    } else {
        bytes_from(s.drop_first(), start - utf8_width(s[0]))
    }
}

/// A text from a byte offset on.
pub fn skip_bytes(s: &[char], start: usize) -> (r: Vec<char>)
    ensures
        r@ == bytes_from(s@, start as int),
{
    let mut i: usize = 0;
    let mut acc: u128 = 0;
    assert(s@.skip(0) =~= s@);
    while i < s.len() && acc < start as u128
        invariant
            i <= s.len(),
            acc <= 4 * i,
            bytes_from(s@, start as int) == bytes_from(s@.skip(i as int), start - acc),
        decreases s.len() - i,
    {
        let c = s[i];
        let w: u128 = if (c as u32) < 0x80 {
            1
        } else if (c as u32) < 0x800 {
            2
        } else if (c as u32) < 0x10000 {
            3
        } else {
            4
        };
        assert(w == utf8_width(c));
        assert(s@.skip(i as int)[0] == c);
        assert(s@.skip(i as int).drop_first() =~= s@.skip(i + 1));
        acc = acc + w;
        i = i + 1;
    }
    let out = s.split_at(i).1;
    assert(out@ =~= s@.skip(i as int));
    to_vec(out)
}

/// `str::trim_matches` with a set of characters.
pub open spec fn trim_matches(s: Seq<char>, set: Seq<char>) -> Seq<char> {
    strip_end(strip_start(s, set), set)
}

/// A text without leading and trailing characters of `set`.
pub fn trim_matches_chars(s: &[char], set: &[char]) -> (r: Vec<char>)
    ensures
        r@ == trim_matches(s@, set@),
{
    let mut a: usize = 0;
    assert(s@.skip(0) =~= s@);
    while a < s.len() && has_char(set, s[a])
        invariant
            a <= s.len(),
            strip_start(s@, set@) == strip_start(s@.skip(a as int), set@),
        decreases s.len() - a,
    {
        assert(s@.skip(a as int)[0] == s@[a as int]);
        assert(s@.skip(a as int).drop_first() =~= s@.skip(a + 1));
        a = a + 1;
    }
    if a < s.len() {
        assert(s@.skip(a as int)[0] == s@[a as int]);
    }
    assert(strip_start(s@, set@) == s@.skip(a as int));
    let mid = s.split_at(a).1;
    assert(mid@ =~= s@.skip(a as int));
    let mut b: usize = mid.len();
    assert(mid@.take(b as int) =~= mid@);
    while b > 0 && has_char(set, mid[b - 1])
        invariant
            b <= mid.len(),
            strip_end(mid@, set@) == strip_end(mid@.take(b as int), set@),
        decreases b,
    {
        assert(mid@.take(b as int).last() == mid@[b - 1]);
        assert(mid@.take(b as int).drop_last() =~= mid@.take(b - 1));
        b = b - 1;
    }
    if b > 0 {
        assert(mid@.take(b as int).last() == mid@[b - 1]);
    }
    let out = mid.split_at(b).0;
    assert(out@ =~= mid@.take(b as int));
    to_vec(out)
}

/// `str::lines`: pieces between `\n`, a `\r` before the `\n` removed, no
/// final empty piece.
pub open spec fn lines_acc(s: Seq<char>, i: int, cur: Seq<char>) -> Seq<Seq<char>>
    decreases s.len() - i,
{
    if i >= s.len() {
        if cur.len() > 0 {
            seq![cur]
        } else {
            seq![]
        }
    } else if s[i] == '\n' {
        seq![
            if cur.len() > 0 && cur.last() == '\r' {
                cur.drop_last()
            } else {
                cur
            },
        ] + lines_acc(s, i + 1, seq![])
    } else {
        lines_acc(s, i + 1, cur.push(s[i]))
    }
}

pub open spec fn lines(s: Seq<char>) -> Seq<Seq<char>> {
    lines_acc(s, 0, seq![])
}

/// The lines of a text.
pub fn split_lines(s: &[char]) -> (r: Vec<Vec<char>>)
    ensures
        r@.map_values(|v: Vec<char>| v@) == lines(s@),
{
    let mut r: Vec<Vec<char>> = Vec::new();
    let mut cur: Vec<char> = Vec::new();
    let mut i: usize = 0;
    while i < s.len()
        invariant
            i <= s.len(),
            r@.map_values(|v: Vec<char>| v@) + lines_acc(s@, i as int, cur@) == lines(s@),
        decreases s.len() - i,
    {
        let c = s[i];
        let ghost before = r@.map_values(|v: Vec<char>| v@);
        if c == '\n' {
            let ghost orig = cur@;
            if cur.len() > 0 && cur[cur.len() - 1] == '\r' {
                cur.pop();
                assert(cur@ =~= orig.drop_last());
            }
            let ghost line = cur@;
            assert(lines_acc(s@, i as int, orig) == seq![line] + lines_acc(s@, i + 1, seq![]));
            r.push(cur);
            cur = Vec::new();
            assert(r@.map_values(|v: Vec<char>| v@) =~= before.push(line));
            assert(before + (seq![line] + lines_acc(s@, i + 1, seq![])) =~= before.push(line)
                + lines_acc(s@, i + 1, Seq::<char>::empty()));
            assert(cur@ =~= Seq::<char>::empty());
        } else {
            assert(lines_acc(s@, i as int, cur@) == lines_acc(s@, i + 1, cur@.push(c)));
            cur.push(c);
        }
        i = i + 1;
    }
    if cur.len() > 0 {
        let ghost before = r@.map_values(|v: Vec<char>| v@);
        let ghost line = cur@;
        r.push(cur);
        assert(r@.map_values(|v: Vec<char>| v@) =~= before.push(line));
    } else {
        assert(r@.map_values(|v: Vec<char>| v@) + Seq::<Seq<char>>::empty() =~= r@.map_values(
            |v: Vec<char>| v@,
        ));
    }
    r
}

} // verus!
