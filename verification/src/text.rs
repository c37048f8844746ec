//! Operations on text.
//!
//! A `str` or `String` is modelled by its sequence of characters. The
//! specification functions below say what the usual text operations (trimming,
//! splitting into lines, searching, replacing) give on such a sequence; the
//! executable functions are proved to compute them.
use vstd::prelude::*;

use crate::model::{group_views, opt_view, views};

verus! {

broadcast use group_views;

/// `String::push` appends one character.
pub assume_specification[ String::push ](s: &mut String, c: char)
    ensures
        final(s)@ == old(s)@.push(c),
;

// ---------------------------------------------------------------------------
// Conversions
// ---------------------------------------------------------------------------

/// The characters of `s`.
pub fn chars_of(s: &str) -> (v: Vec<char>)
    ensures
        v@ == s@,
{
    let mut v: Vec<char> = Vec::new();
    for c in it: s.chars()
        invariant
            it.seq() == s@,
            v@ == s@.take(it.index() as int),
    {
        v.push(c);
        assert(s@.take(it.index() + 1) == s@.take(it.index() as int).push(c));
    }
    assert(s@.take(s@.len() as int) == s@);
    v
}

/// The text made of the characters `from..to` of `v`.
pub fn text_range(v: &Vec<char>, from: usize, to: usize) -> (s: String)
    requires
        from <= to <= v@.len(),
    ensures
        s@ == v@.subrange(from as int, to as int),
{
    let mut s = String::new();
    for i in from..to
        invariant
            from <= to <= v@.len(),
            s@ == v@.subrange(from as int, i as int),
    {
        s.push(v[i]);
        assert(v@.subrange(from as int, i + 1) == v@.subrange(from as int, i as int).push(v@[i as int]));
    }
    s
}

/// The text made of all of `v`.
pub fn text_of(v: &Vec<char>) -> (s: String)
    ensures
        s@ == v@,
{
    let s = text_range(v, 0, v.len());
    assert(v@.subrange(0, v@.len() as int) == v@);
    s
}

/// An owned copy of `s`.
pub fn owned(s: &str) -> (r: String)
    ensures
        r@ == s@,
{
    s.to_owned()
}

/// Whether two texts are the same.
pub fn same(a: &str, b: &str) -> (r: bool)
    ensures
        r == (a@ == b@),
{
    a.to_owned() == b.to_owned()
}

/// Whether `w` is one of `v`.
pub open spec fn among(w: Seq<char>, v: Seq<Seq<char>>) -> bool {
    exists|i: int| 0 <= i < v.len() && #[trigger] v[i] == w
}

/// Whether the text `w` is one of `v`.
pub fn is_among(w: &str, v: &Vec<String>) -> (r: bool)
    ensures
        r == among(w@, views(v@)),
{
    for i in 0..v.len()
        invariant
            forall|j: int| 0 <= j < i ==> (#[trigger] views(v@)[j]) != w@,
    {
        if same(v[i].as_str(), w) {
            assert(views(v@)[i as int] == w@);
            return true;
        }
    }
    false
}

// ---------------------------------------------------------------------------
// Characters
// ---------------------------------------------------------------------------

/// The characters with the Unicode property White_Space.
pub open spec fn is_white(c: char) -> bool {
    let n = c as u32;
    (0x9 <= n <= 0xd) || n == 0x20 || n == 0x85 || n == 0xa0 || n == 0x1680 || (0x2000 <= n
        <= 0x200a) || n == 0x2028 || n == 0x2029 || n == 0x202f || n == 0x205f || n == 0x3000
}

/// Whether `c` is white space.
pub fn white(c: char) -> (r: bool)
    ensures
        r == is_white(c),
{
    let n: u32 = c as u32;
    (0x9 <= n && n <= 0xd) || n == 0x20 || n == 0x85 || n == 0xa0 || n == 0x1680 || (0x2000 <= n
        && n <= 0x200a) || n == 0x2028 || n == 0x2029 || n == 0x202f || n == 0x205f || n == 0x3000
}

/// The ASCII decimal digits.
pub open spec fn is_digit(c: char) -> bool {
    '0' <= c <= '9'
}

/// ASCII letters and digits.
pub open spec fn is_alnum(c: char) -> bool {
    is_digit(c) || 'a' <= c <= 'z' || 'A' <= c <= 'Z'
}

/// Whether `c` is an ASCII letter or digit.
pub fn alnum(c: char) -> (r: bool)
    ensures
        r == is_alnum(c),
{
    ('0' <= c && c <= '9') || ('a' <= c && c <= 'z') || ('A' <= c && c <= 'Z')
}

// ---------------------------------------------------------------------------
// Trimming
// ---------------------------------------------------------------------------

/// `s` without its leading white space.
pub open spec fn trim_start(s: Seq<char>) -> Seq<char>
    decreases s.len(),
{
    if s.len() > 0 && is_white(s[0]) {
        trim_start(s.skip(1))
    } else {
        s
    }
}

/// `s` without its trailing white space.
pub open spec fn trim_end(s: Seq<char>) -> Seq<char>
    decreases s.len(),
{
    if s.len() > 0 && is_white(s.last()) {
        trim_end(s.drop_last())
    } else {
        s
    }
}

/// `s` without leading and trailing white space.
pub open spec fn trim(s: Seq<char>) -> Seq<char> {
    trim_end(trim_start(s))
}

/// `s` without the trailing occurrences of `c`.
pub open spec fn trim_end_char(s: Seq<char>, c: char) -> Seq<char>
    decreases s.len(),
{
    if s.len() > 0 && s.last() == c {
        trim_end_char(s.drop_last(), c)
    } else {
        s
    }
}

fn start_index(v: &Vec<char>) -> (i: usize)
    ensures
        i <= v@.len(),
        trim_start(v@) == v@.skip(i as int),
{
    let mut i: usize = 0;
    assert(v@.skip(0) == v@);
    while i < v.len() && white(v[i])
        invariant
            i <= v@.len(),
            trim_start(v@) == trim_start(v@.skip(i as int)),
        decreases v@.len() - i,
    {
        assert(v@.skip(i as int).skip(1) == v@.skip(i + 1));
        i += 1;
    }
    i
}

fn end_index(v: &Vec<char>, from: usize) -> (j: usize)
    requires
        from <= v@.len(),
    ensures
        from <= j <= v@.len(),
        trim_end(v@.skip(from as int)) == v@.subrange(from as int, j as int),
{
    let mut j: usize = v.len();
    assert(v@.subrange(from as int, j as int) == v@.skip(from as int));
    while from < j && white(v[j - 1])
        invariant
            from <= j <= v@.len(),
            trim_end(v@.skip(from as int)) == trim_end(v@.subrange(from as int, j as int)),
        decreases j,
    {
        assert(v@.subrange(from as int, j as int).drop_last() == v@.subrange(from as int, j - 1));
        j -= 1;
    }
    j
}

/// Trims `s` at both ends.
pub fn trimmed(s: &str) -> (r: String)
    ensures
        r@ == trim(s@),
{
    let v = chars_of(s);
    let i: usize = start_index(&v);
    let j: usize = end_index(&v, i);
    text_range(&v, i, j)
}

/// Trims `s` at its end.
pub fn trimmed_end(s: &str) -> (r: String)
    ensures
        r@ == trim_end(s@),
{
    let v = chars_of(s);
    let j: usize = end_index(&v, 0);
    assert(v@.skip(0) == v@);
    text_range(&v, 0, j)
}

/// Trims `s` at its start.
pub fn trimmed_start(s: &str) -> (r: String)
    ensures
        r@ == trim_start(s@),
{
    let v = chars_of(s);
    let i: usize = start_index(&v);
    assert(v@.subrange(i as int, v@.len() as int) == v@.skip(i as int));
    text_range(&v, i, v.len())
}

/// Drops the trailing occurrences of `c` from `s`.
pub fn trimmed_end_char(s: &str, c: char) -> (r: String)
    ensures
        r@ == trim_end_char(s@, c),
{
    let v = chars_of(s);
    let mut j: usize = v.len();
    assert(v@.take(j as int) == v@);
    while 0 < j && v[j - 1] == c
        invariant
            j <= v@.len(),
            trim_end_char(v@, c) == trim_end_char(v@.take(j as int), c),
        decreases j,
    {
        assert(v@.take(j as int).drop_last() == v@.take(j - 1));
        j -= 1;
    }
    assert(v@.take(j as int) == v@.subrange(0, j as int));
    text_range(&v, 0, j)
}

// ---------------------------------------------------------------------------
// Searching
// ---------------------------------------------------------------------------

/// Whether `pat` stands in `s` at position `i`.
pub open spec fn occurs_at(s: Seq<char>, pat: Seq<char>, i: int) -> bool {
    0 <= i && i + pat.len() <= s.len() && s.subrange(i, i + pat.len()) == pat
}

/// Whether `s` contains `pat`.
pub open spec fn contains(s: Seq<char>, pat: Seq<char>) -> bool {
    exists|i: int| #[trigger] occurs_at(s, pat, i)
}

/// Whether `s` starts with `pat`.
pub open spec fn starts_with(s: Seq<char>, pat: Seq<char>) -> bool {
    pat.len() <= s.len() && s.take(pat.len() as int) == pat
}

/// Whether `s` ends with `pat`.
pub open spec fn ends_with(s: Seq<char>, pat: Seq<char>) -> bool {
    pat.len() <= s.len() && s.skip(s.len() - pat.len()) == pat
}

/// The first position from `i` on at which `pat` stands in `s`.
pub open spec fn find_from(s: Seq<char>, pat: Seq<char>, i: int) -> Option<int>
    decreases s.len() - i + 1,
{
    if i < 0 || i + pat.len() > s.len() {
        None
    } else if occurs_at(s, pat, i) {
        Some(i)
    } else {
        find_from(s, pat, i + 1)
    }
}

/// `find_from` gives the least position, or none where there is none.
pub proof fn lemma_find_from(s: Seq<char>, pat: Seq<char>, i: int)
    requires
        0 <= i,
    ensures
        match find_from(s, pat, i) {
            Some(k) => i <= k && occurs_at(s, pat, k) && forall|j: int|
                i <= j < k ==> !#[trigger] occurs_at(s, pat, j),
            None => forall|j: int| i <= j ==> !#[trigger] occurs_at(s, pat, j),
        },
    decreases s.len() - i + 1,
{
    if i + pat.len() > s.len() {
    } else if occurs_at(s, pat, i) {
    } else {
        lemma_find_from(s, pat, i + 1);
    }
}

/// Whether `pat` stands in `v` at `i`.
pub fn is_at(v: &Vec<char>, pat: &Vec<char>, i: usize) -> (r: bool)
    ensures
        r == occurs_at(v@, pat@, i as int),
{
    let n: usize = v.len();
    if i > n || pat.len() > n - i {
        return false;
    }
    for k in 0..pat.len()
        invariant
            i + pat@.len() <= n == v@.len(),
            forall|j: int| 0 <= j < k ==> v@[i + j] == #[trigger] pat@[j],
    {
        if v[i + k] != pat[k] {
            assert(v@.subrange(i as int, i + pat@.len())[k as int] != pat@[k as int]);
            return false;
        }
    }
    assert(v@.subrange(i as int, i + pat@.len()) == pat@);
    true
}

/// The first position from `from` on at which `pat` stands in `v`.
pub fn index_from(v: &Vec<char>, pat: &Vec<char>, from: usize) -> (r: Option<usize>)
    ensures
        match r {
            Some(k) => find_from(v@, pat@, from as int) == Some(k as int) && from <= k && k
                + pat@.len() <= v@.len(),
            None => find_from(v@, pat@, from as int) is None,
        },
{
    let mut i: usize = from;
    while i <= v.len() && pat.len() <= v.len() - i
        invariant
            from <= i,
            i <= v@.len() + 1 || i == from,
            find_from(v@, pat@, from as int) == find_from(v@, pat@, i as int),
        decreases v@.len() + 1 - i,
    {
        if is_at(v, pat, i) {
            return Some(i);
        }
        if i == v.len() {
            assert(find_from(v@, pat@, i + 1) is None);
            return None;
        }
        i += 1;
    }
    None
}

/// Whether `s` contains `pat`.
pub fn has(s: &str, pat: &str) -> (r: bool)
    ensures
        r == contains(s@, pat@),
{
    let v = chars_of(s);
    let p = chars_of(pat);
    proof {
        lemma_find_from(v@, p@, 0);
    }
    match index_from(&v, &p, 0) {
        Some(k) => {
            assert(occurs_at(s@, pat@, k as int));
            true
        },
        None => {
            assert forall|i: int| !#[trigger] occurs_at(s@, pat@, i) by {
                if 0 <= i {
                }
            }
            false
        },
    }
}

/// Whether `s` starts with `pat`.
pub fn has_prefix(s: &str, pat: &str) -> (r: bool)
    ensures
        r == starts_with(s@, pat@),
{
    let v = chars_of(s);
    let p = chars_of(pat);
    let r = is_at(&v, &p, 0);
    proof {
        if p@.len() <= v@.len() {
            assert(v@.subrange(0, p@.len() as int) == v@.take(p@.len() as int));
        }
    }
    r
}

/// Whether `s` ends with `pat`.
pub fn has_suffix(s: &str, pat: &str) -> (r: bool)
    ensures
        r == ends_with(s@, pat@),
{
    let v = chars_of(s);
    let p = chars_of(pat);
    if p.len() > v.len() {
        return false;
    }
    let at: usize = v.len() - p.len();
    assert(v@.subrange(at as int, at + p@.len()) == v@.skip(at as int));
    is_at(&v, &p, at)
}

/// What follows `pat` at the start of `s`, if `s` starts with it.
pub open spec fn strip_prefix(s: Seq<char>, pat: Seq<char>) -> Option<Seq<char>> {
    if starts_with(s, pat) {
        Some(s.skip(pat.len() as int))
    } else {
        None
    }
}

/// Drops `pat` from the start of `s`, if `s` starts with it.
pub fn without_prefix(s: &str, pat: &str) -> (r: Option<String>)
    ensures
        opt_view(r) == strip_prefix(s@, pat@),
{
    if has_prefix(s, pat) {
        let v = chars_of(s);
        let n: usize = pat.unicode_len();
        assert(v@.subrange(n as int, v@.len() as int) == v@.skip(n as int));
        Some(text_range(&v, n, v.len()))
    } else {
        None
    }
}

/// The two parts of `s` before and after the first `pat`.
pub open spec fn split_once(s: Seq<char>, pat: Seq<char>) -> Option<(Seq<char>, Seq<char>)> {
    match find_from(s, pat, 0) {
        Some(k) => Some((s.take(k), s.skip(k + pat.len()))),
        None => None,
    }
}

/// The two parts of `s` before and after the first `pat`.
pub fn cut_once(s: &str, pat: &str) -> (r: Option<(String, String)>)
    ensures
        match r {
            Some(p) => split_once(s@, pat@) == Some((p.0@, p.1@)),
            None => split_once(s@, pat@) is None,
        },
{
    let v = chars_of(s);
    let p = chars_of(pat);
    match index_from(&v, &p, 0) {
        Some(k) => {
            let n: usize = v.len();
            let a = text_range(&v, 0, k);
            let b = text_range(&v, k + p.len(), n);
            assert(a@ == v@.take(k as int));
            assert(b@ == v@.skip(k + p@.len()));
            Some((a, b))
        },
        None => None,
    }
}

/// The last position up to `i` at which `pat` occurs in `s`.
pub open spec fn find_last(s: Seq<char>, pat: Seq<char>, i: int) -> Option<int>
    decreases i + 1,
{
    if i < 0 {
        None
    } else if occurs_at(s, pat, i) {
        Some(i)
    } else {
        find_last(s, pat, i - 1)
    }
}

/// Where `pat` occurs at `k` and nowhere behind it, that is the last position.
pub proof fn lemma_last_at(s: Seq<char>, pat: Seq<char>, i: int, k: int)
    requires
        0 <= k <= i,
        occurs_at(s, pat, k),
        forall|j: int| k < j <= i ==> !#[trigger] occurs_at(s, pat, j),
    ensures
        find_last(s, pat, i) == Some(k),
    decreases i,
{
    if k < i {
        lemma_last_at(s, pat, i - 1, k);
    }
}

/// What stands before the last `pat`.
pub open spec fn before_last(s: Seq<char>, pat: Seq<char>) -> Option<Seq<char>> {
    match find_last(s, pat, s.len() as int) {
        Some(k) => Some(s.take(k)),
        None => None,
    }
}

/// What stands before the last `pat`.
pub fn cut_last(s: &str, pat: &str) -> (r: Option<String>)
    ensures
        opt_view(r) == before_last(s@, pat@),
{
    let v = chars_of(s);
    let p = chars_of(pat);
    let mut i: usize = v.len();
    loop
        invariant
            i <= v@.len(),
            find_last(v@, p@, v@.len() as int) == find_last(v@, p@, i as int),
            v@ == s@,
            p@ == pat@,
        decreases i,
    {
        if is_at(&v, &p, i) {
            let head = text_range(&v, 0, i);
            assert(head@ == v@.take(i as int));
            return Some(head);
        }
        if i == 0 {
            assert(find_last(v@, p@, -1) is None);
            return None;
        }
        i -= 1;
    }
}

// ---------------------------------------------------------------------------
// Joining and splitting
// ---------------------------------------------------------------------------

/// The texts of `parts` with `sep` between them.
pub open spec fn join(parts: Seq<Seq<char>>, sep: Seq<char>) -> Seq<char>
    decreases parts.len(),
{
    if parts.len() == 0 {
        Seq::empty()
    } else if parts.len() == 1 {
        parts[0]
    } else {
        join(parts.drop_last(), sep) + sep + parts.last()
    }
}

/// Joins `parts` with `sep` between them.
pub fn joined(parts: &Vec<String>, sep: &str) -> (r: String)
    ensures
        r@ == join(views(parts@), sep@),
{
    let mut r = String::new();
    let ghost all = views(parts@);
    for i in 0..parts.len()
        invariant
            all == views(parts@),
            r@ == join(all.take(i as int), sep@),
    {
        assert(all.take(i + 1).drop_last() == all.take(i as int));
        if i > 0 {
            r.append(sep);
        }
        r.append(parts[i].as_str());
        assert(i == 0 ==> Seq::<char>::empty() + all[0] == all[0]);
    }
    assert(all.take(all.len() as int) == all);
    r
}

/// The position of the first `c` in `s` from `i` on, or the length of `s`.
pub open spec fn char_from(s: Seq<char>, c: char, i: int) -> int
    decreases s.len() - i,
{
    if i >= s.len() || s[i] == c {
        i
    } else {
        char_from(s, c, i + 1)
    }
}

pub proof fn lemma_char_from(s: Seq<char>, c: char, i: int)
    requires
        0 <= i <= s.len(),
    ensures
        i <= char_from(s, c, i) <= s.len(),
        forall|j: int| i <= j < char_from(s, c, i) ==> s[j] != c,
        char_from(s, c, i) < s.len() ==> s[char_from(s, c, i)] == c,
    decreases s.len() - i,
{
    if i < s.len() && s[i] != c {
        lemma_char_from(s, c, i + 1);
    }
}

/// The position of the first `c` in `v` from `i` on, or the length of `v`.
pub fn index_of_char(v: &Vec<char>, c: char, i: usize) -> (r: usize)
    requires
        i <= v@.len(),
    ensures
        i <= r <= v@.len(),
        r == char_from(v@, c, i as int),
{
    let mut k: usize = i;
    while k < v.len() && v[k] != c
        invariant
            i <= k <= v@.len(),
            char_from(v@, c, i as int) == char_from(v@, c, k as int),
        decreases v@.len() - k,
    {
        k += 1;
    }
    k
}

/// `s` cut at each `c`: one part more than there are occurrences.
pub open spec fn split(s: Seq<char>, c: char) -> Seq<Seq<char>>
    decreases s.len(),
{
    let k = char_from(s, c, 0);
    if k < 0 || k >= s.len() {
        seq![s]
    } else {
        seq![s.take(k)] + split(s.skip(k + 1), c)
    }
}

/// Cuts `s` at each `c`.
pub fn split_at_char(s: &str, c: char) -> (r: Vec<String>)
    ensures
        views(r@) == split(s@, c),
{
    let v = chars_of(s);
    let n: usize = v.len();
    let mut r: Vec<String> = Vec::new();
    let mut from: usize = 0;
    assert(v@.skip(0) == v@);
    assert(views(r@) + split(v@, c) == split(v@, c));
    loop
        invariant
            n == v@.len(),
            from <= n,
            v@ == s@,
            views(r@) + split(v@.skip(from as int), c) == split(s@, c),
        decreases n - from,
    {
        let k: usize = index_of_char(&v, c, from);
        let ghost rest = v@.skip(from as int);
        proof {
            lemma_char_from_skip(v@, c, from as int);
            lemma_char_from(v@, c, from as int);
        }
        let part = text_range(&v, from, k);
        let ghost before = views(r@);
        assert(part@ == rest.take(k - from));
        r.push(part);
        assert(views(r@) == before.push(part@));
        if k == n {
            assert(rest.take(k - from) == rest);
            assert(before + seq![rest] == before.push(rest));
            return r;
        }
        assert(v@.skip(k + 1) == rest.skip(k - from + 1));
        assert(before + (seq![part@] + split(v@.skip(k + 1), c)) == before.push(part@) + split(
            v@.skip(k + 1),
            c,
        ));
        from = k + 1;
    }
}

/// Searching in a suffix.
proof fn lemma_char_from_skip(s: Seq<char>, c: char, i: int)
    requires
        0 <= i <= s.len(),
    ensures
        char_from(s.skip(i), c, 0) == char_from(s, c, i) - i,
{
    lemma_char_from_shift(s, c, i, 0);
}

proof fn lemma_char_from_shift(s: Seq<char>, c: char, i: int, k: int)
    requires
        0 <= i,
        0 <= k,
        i + k <= s.len(),
    ensures
        char_from(s.skip(i), c, k) == char_from(s, c, i + k) - i,
    decreases s.len() - i - k,
{
    if i + k < s.len() && s[i + k] != c {
        lemma_char_from_shift(s, c, i, k + 1);
    }
}

/// A part ended by a line feed, without a carriage return before it.
pub open spec fn without_return(s: Seq<char>) -> Seq<char> {
    if s.len() > 0 && s.last() == '\r' {
        s.drop_last()
    } else {
        s
    }
}

/// The lines of `s`: what stands between line feeds. A carriage return before
/// a line feed belongs to the line ending; an empty last line is no line.
pub open spec fn lines(s: Seq<char>) -> Seq<Seq<char>>
    decreases s.len(),
{
    let k = char_from(s, '\n', 0);
    if s.len() == 0 {
        Seq::empty()
    } else if k < 0 || k >= s.len() {
        seq![s]
    } else {
        seq![without_return(s.take(k))] + lines(s.skip(k + 1))
    }
}

/// The lines of `s`.
pub fn lines_of(s: &str) -> (r: Vec<String>)
    ensures
        views(r@) == lines(s@),
{
    let v = chars_of(s);
    let n: usize = v.len();
    let mut r: Vec<String> = Vec::new();
    let mut from: usize = 0;
    assert(v@.skip(0) == v@);
    assert(views(r@) + lines(v@) == lines(v@));
    while from < n
        invariant
            n == v@.len(),
            from <= n,
            v@ == s@,
            views(r@) + lines(v@.skip(from as int)) == lines(s@),
        decreases n - from,
    {
        let k: usize = index_of_char(&v, '\n', from);
        let ghost rest = v@.skip(from as int);
        let ghost before = views(r@);
        proof {
            lemma_char_from_skip(v@, '\n', from as int);
            lemma_char_from(v@, '\n', from as int);
        }
        if k == n {
            let part = text_range(&v, from, n);
            assert(part@ == rest);
            r.push(part);
            assert(views(r@) == before.push(rest));
            assert(before + seq![rest] == before.push(rest));
            assert(v@.skip(n as int) == Seq::<char>::empty());
            assert(views(r@) + Seq::<Seq<char>>::empty() == views(r@));
            from = n;
        } else {
            let end: usize = if from < k && v[k - 1] == '\r' {
                k - 1
            } else {
                k
            };
            let part = text_range(&v, from, end);
            assert(part@ == without_return(rest.take(k - from)));
            r.push(part);
            assert(views(r@) == before.push(part@));
            assert(v@.skip(k + 1) == rest.skip(k - from + 1));
            assert(before + (seq![part@] + lines(v@.skip(k + 1))) == before.push(part@) + lines(
                v@.skip(k + 1),
            ));
            from = k + 1;
        }
    }
    assert(v@.skip(n as int) == Seq::<char>::empty());
    assert(views(r@) + Seq::<Seq<char>>::empty() == views(r@));
    r
}

// ---------------------------------------------------------------------------
// Numbers
// ---------------------------------------------------------------------------

/// The decimal digit `d`.
pub open spec fn digit(d: nat) -> char {
    ('0' as u32 + d) as char
}

/// `n` in decimal notation.
pub open spec fn decimal(n: nat) -> Seq<char>
    decreases n,
{
    if n < 10 {
        seq![digit(n)]
    } else {
        decimal(n / 10).push(digit(n % 10))
    }
}

/// Decimal notation consists of digits.
pub proof fn lemma_decimal_digits(n: nat)
    ensures
        forall|k: int| 0 <= k < decimal(n).len() ==> '0' <= (#[trigger] decimal(n)[k]) <= '9',
    decreases n,
{
    if n >= 10 {
        lemma_decimal_digits(n / 10);
        assert('0' <= digit(n % 10) <= '9');
        assert forall|k: int| 0 <= k < decimal(n).len() implies '0' <= (#[trigger] decimal(n)[k])
            <= '9' by {
            if k < decimal(n / 10).len() {
                assert(decimal(n)[k] == decimal(n / 10)[k]);
            }
        }
    } else {
        assert('0' <= digit(n) <= '9');
    }
}

/// The digit for `d`.
fn digit_char(d: u64) -> (c: char)
    requires
        d < 10,
    ensures
        c == digit(d as nat),
{
    match d {
        0 => '0',
        1 => '1',
        2 => '2',
        3 => '3',
        4 => '4',
        5 => '5',
        6 => '6',
        7 => '7',
        8 => '8',
        _ => '9',
    }
}

/// `n` in decimal notation.
pub fn decimal_text(n: u64) -> (r: String)
    ensures
        r@ == decimal(n as nat),
    decreases n,
{
    if n < 10 {
        let mut r = String::new();
        r.push(digit_char(n));
        assert(r@ =~= decimal(n as nat));
        r
    } else {
        let mut r = decimal_text(n / 10);
        r.push(digit_char(n % 10));
        r
    }
}

// ---------------------------------------------------------------------------
// Words
// ---------------------------------------------------------------------------

/// The position of the first white space in `s` from `i` on, or its length.
pub open spec fn white_from(s: Seq<char>, i: int) -> int
    decreases s.len() - i,
{
    if i >= s.len() || is_white(s[i]) {
        i
    } else {
        white_from(s, i + 1)
    }
}

/// The words of `s`: what stands between white space.
pub open spec fn words(s: Seq<char>) -> Seq<Seq<char>>
    decreases s.len(),
{
    if s.len() == 0 {
        Seq::empty()
    } else if is_white(s[0]) {
        words(s.skip(1))
    } else {
        let k = white_from(s, 0);
        if k <= 0 || k > s.len() {
            Seq::empty()
        } else {
            seq![s.take(k)] + words(s.skip(k))
        }
    }
}

pub proof fn lemma_white_from(s: Seq<char>, i: int)
    requires
        0 <= i <= s.len(),
    ensures
        i <= white_from(s, i) <= s.len(),
        forall|j: int| i <= j < white_from(s, i) ==> !is_white(s[j]),
        white_from(s, i) < s.len() ==> is_white(s[white_from(s, i)]),
    decreases s.len() - i,
{
    if i < s.len() && !is_white(s[i]) {
        lemma_white_from(s, i + 1);
    }
}

proof fn lemma_white_from_shift(s: Seq<char>, i: int, k: int)
    requires
        0 <= i,
        0 <= k,
        i + k <= s.len(),
    ensures
        white_from(s.skip(i), k) == white_from(s, i + k) - i,
    decreases s.len() - i - k,
{
    if i + k < s.len() && !is_white(s[i + k]) {
        lemma_white_from_shift(s, i, k + 1);
    }
}

/// The words of `s`.
pub fn words_of(s: &str) -> (r: Vec<String>)
    ensures
        views(r@) == words(s@),
{
    let v = chars_of(s);
    let n: usize = v.len();
    let mut r: Vec<String> = Vec::new();
    let mut i: usize = 0;
    assert(v@.skip(0) == v@);
    assert(views(r@) + words(v@) == words(v@));
    while i < n
        invariant
            n == v@.len(),
            i <= n,
            v@ == s@,
            views(r@) + words(v@.skip(i as int)) == words(s@),
        decreases n - i,
    {
        let ghost rest = v@.skip(i as int);
        if white(v[i]) {
            assert(rest.skip(1) == v@.skip(i + 1));
            i += 1;
        } else {
            let mut k: usize = i;
            while k < n && !white(v[k])
                invariant
                    n == v@.len(),
                    i <= k <= n,
                    white_from(v@, i as int) == white_from(v@, k as int),
                decreases n - k,
            {
                k += 1;
            }
            proof {
                lemma_white_from(v@, i as int);
                lemma_white_from_shift(v@, i as int, 0);
            }
            let ghost before = views(r@);
            let word = text_range(&v, i, k);
            assert(word@ == rest.take(k - i));
            r.push(word);
            assert(views(r@) == before.push(word@));
            assert(rest.skip(k - i) == v@.skip(k as int));
            assert(before + (seq![word@] + words(v@.skip(k as int))) == before.push(word@) + words(
                v@.skip(k as int),
            ));
            i = k;
        }
    }
    assert(v@.skip(n as int) == Seq::<char>::empty());
    assert(views(r@) + Seq::<Seq<char>>::empty() == views(r@));
    r
}

// ---------------------------------------------------------------------------
// Cutting to a length
// ---------------------------------------------------------------------------

/// The first `n` characters of `s`.
pub open spec fn first_chars(s: Seq<char>, n: nat) -> Seq<char> {
    if s.len() <= n {
        s
    } else {
        s.take(n as int)
    }
}

/// The first `n` characters of `s`.
pub fn take_chars(s: &str, n: usize) -> (r: String)
    ensures
        r@ == first_chars(s@, n as nat),
{
    let v = chars_of(s);
    if v.len() <= n {
        s.to_owned()
    } else {
        assert(v@.subrange(0, n as int) == v@.take(n as int));
        text_range(&v, 0, n)
    }
}

// ---------------------------------------------------------------------------
// Byte offsets
// ---------------------------------------------------------------------------

/// The number of bytes of a character in UTF-8.
pub open spec fn utf8_width(c: char) -> nat {
    let n = c as u32;
    if n < 0x80 {
        1
    } else if n < 0x800 {
        2
    } else if n < 0x10000 {
        3
    } else {
        4
    }
}

/// The number of bytes of a character in UTF-8.
pub fn width_in_bytes(c: char) -> (r: usize)
    ensures
        r == utf8_width(c),
        1 <= r <= 4,
{
    let n: u32 = c as u32;
    if n < 0x80 {
        1
    } else if n < 0x800 {
        2
    } else if n < 0x10000 {
        3
    } else {
        4
    }
}

/// The number of bytes of a text in UTF-8.
pub open spec fn utf8_len(s: Seq<char>) -> nat
    decreases s.len(),
{
    if s.len() == 0 {
        0
    } else {
        utf8_len(s.drop_last()) + utf8_width(s.last())
    }
}

/// The number of characters before the byte offset `pos`, if a character starts
/// or the text ends there.
pub open spec fn char_index(s: Seq<char>, pos: nat) -> Option<int>
    decreases s.len(),
{
    if pos == 0 {
        Some(0)
    } else if s.len() == 0 || pos < utf8_width(s[0]) {
        None
    } else {
        match char_index(s.skip(1), (pos - utf8_width(s[0])) as nat) {
            Some(k) => Some(k + 1),
            None => None,
        }
    }
}

/// The number of characters before a byte offset.
pub fn index_of_byte(v: &Vec<char>, pos: usize) -> (r: Option<usize>)
    ensures
        match r {
            Some(k) => char_index(v@, pos as nat) == Some(k as int) && k <= v@.len() && utf8_len(
                v@.take(k as int),
            ) == pos,
            None => char_index(v@, pos as nat) is None,
        },
{
    let mut left: usize = pos;
    let mut k: usize = 0;
    assert(v@.skip(0) == v@);
    while left > 0
        invariant
            k <= v@.len(),
            left <= pos,
            utf8_len(v@.take(k as int)) == pos - left,
            char_index(v@, pos as nat) == (match char_index(v@.skip(k as int), left as nat) {
                Some(j) => Some(j + k),
                None => None,
            }),
        decreases left,
    {
        if k >= v.len() {
            return None;
        }
        let w: usize = width_in_bytes(v[k]);
        if left < w {
            return None;
        }
        assert(v@.skip(k as int).skip(1) == v@.skip(k + 1));
        assert(v@.take(k + 1).drop_last() == v@.take(k as int));
        left -= w;
        k += 1;
    }
    Some(k)
}

/// The number that a text of digits denotes.
pub open spec fn digits_value(s: Seq<char>) -> nat
    decreases s.len(),
{
    if s.len() == 0 {
        0
    } else {
        digits_value(s.drop_last()) * 10 + (s.last() as u32 - '0' as u32) as nat
    }
}

/// A number as it is read: a plus sign may stand before the digits.
pub open spec fn unsigned(s: Seq<char>) -> Seq<char> {
    if s.len() > 0 && s[0] == '+' {
        s.skip(1)
    } else {
        s
    }
}

/// The number that a text denotes, if it is one and at most `max`.
pub open spec fn number(s: Seq<char>, max: nat) -> Option<nat> {
    let d = unsigned(s);
    if d.len() > 0 && (forall|i: int| 0 <= i < d.len() ==> is_digit(#[trigger] d[i]))
        && digits_value(d) <= max {
        Some(digits_value(d))
    } else {
        None
    }
}

/// The number that a text denotes, if it is one and at most `max`.
pub fn parse_number(s: &str, max: u64) -> (r: Option<u64>)
    ensures
        match r {
            Some(n) => number(s@, max as nat) == Some(n as nat),
            None => number(s@, max as nat) is None,
        },
{
    let v = chars_of(s);
    let n: usize = v.len();
    let start: usize = if n > 0 && v[0] == '+' {
        1
    } else {
        0
    };
    let ghost d = unsigned(s@);
    assert(d == v@.skip(start as int));
    if start >= n {
        return None;
    }
    let mut value: u64 = 0;
    let mut over = false;
    for i in start..n
        invariant
            n == v@.len(),
            start < n,
            start <= 1,
            d == unsigned(s@),
            d == v@.skip(start as int),
            forall|j: int| 0 <= j < i - start ==> is_digit(#[trigger] d[j]),
            over ==> digits_value(d.take(i - start)) > max,
            !over ==> value == digits_value(d.take(i - start)) && value <= max,
    {
        let c = v[i];
        assert(d[i - start] == c);
        if c < '0' || c > '9' {
            assert(0 <= i - start < d.len() && !is_digit(d[i - start]));
            assert(number(s@, max as nat) is None);
            return None;
        }
        assert(d.take(i - start + 1).drop_last() == d.take(i - start));
        let digit: u64 = c as u64 - '0' as u64;
        assert(digit == (c as u32 - '0' as u32) as nat);
        if !over {
            if digit > max || value > (max - digit) / 10 {
                over = true;
            } else {
                value = value * 10 + digit;
            }
        }
    }
    assert(d.take(d.len() as int) == d);
    if over {
        None
    } else {
        Some(value)
    }
}

} // verus!
