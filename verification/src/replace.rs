//! Replacing a text in another one.
use vstd::prelude::*;

use crate::text::{chars_of, find_from, index_from, lemma_find_from, occurs_at, text_range};

verus! {

/// Where the search goes on behind an occurrence: occurrences do not overlap,
/// and an empty text occurs once at each place.
pub open spec fn next_from(pat: Seq<char>, k: int) -> int {
    if pat.len() == 0 {
        k + 1
    } else {
        k + pat.len()
    }
}

/// The number of occurrences of `pat` in `s` from `i` on.
pub open spec fn occurrences_from(s: Seq<char>, pat: Seq<char>, i: int) -> nat
    decreases s.len() + 1 - i,
{
    match find_from(s, pat, i) {
        Some(k) => if i <= k && k + pat.len() <= s.len() {
            1 + occurrences_from(s, pat, next_from(pat, k))
        } else {
            0
        },
        None => 0,
    }
}

/// The number of occurrences of `pat` in `s`.
pub open spec fn occurrences(s: Seq<char>, pat: Seq<char>) -> nat {
    occurrences_from(s, pat, 0)
}

/// What stands from `done` on when the next `limit` occurrences of `pat` from
/// `i` on are replaced by `new`.
pub open spec fn replaced_from(
    s: Seq<char>,
    pat: Seq<char>,
    new: Seq<char>,
    done: int,
    i: int,
    limit: nat,
) -> Seq<char>
    decreases limit,
{
    if limit == 0 {
        s.skip(done)
    } else {
        match find_from(s, pat, i) {
            Some(k) => s.subrange(done, k) + new + replaced_from(
                s,
                pat,
                new,
                k + pat.len(),
                next_from(pat, k),
                (limit - 1) as nat,
            ),
            None => s.skip(done),
        }
    }
}

/// `s` with the first `limit` occurrences of `pat` replaced by `new`.
pub open spec fn replaced(s: Seq<char>, pat: Seq<char>, new: Seq<char>, limit: nat) -> Seq<char> {
    replaced_from(s, pat, new, 0, 0, limit)
}

/// The number of occurrences of `pat` in `s`.
pub fn count_occurrences(s: &str, pat: &str) -> (r: usize)
    requires
        s@.len() < usize::MAX,
    ensures
        r == occurrences(s@, pat@),
{
    let v = chars_of(s);
    let p = chars_of(pat);
    let n: usize = v.len();
    let mut count: usize = 0;
    let mut i: usize = 0;
    while i <= n
        invariant
            v@ == s@,
            p@ == pat@,
            n == v@.len() < usize::MAX,
            i <= n + 1,
            count <= i,
            count + occurrences_from(v@, p@, i as int) == occurrences(v@, p@),
        decreases n + 1 - i,
    {
        match index_from(&v, &p, i) {
            Some(k) => {
                count += 1;
                i = if p.len() == 0 {
                    k + 1
                } else {
                    k + p.len()
                };
            },
            None => {
                return count;
            },
        }
    }
    assert(find_from(v@, p@, i as int) is None);
    count
}

/// `s` with the first `limit` occurrences of `pat` replaced by `new`.
pub fn replace_first(s: &str, pat: &str, new: &str, limit: usize) -> (r: String)
    requires
        s@.len() < usize::MAX,
    ensures
        r@ == replaced(s@, pat@, new@, limit as nat),
{
    let v = chars_of(s);
    let p = chars_of(pat);
    let n: usize = v.len();
    let mut r = String::new();
    let mut done: usize = 0;
    let mut i: usize = 0;
    let mut left: usize = limit;
    assert(r@ + replaced(v@, p@, new@, limit as nat) =~= replaced(v@, p@, new@, limit as nat));
    while left > 0 && i <= n
        invariant
            v@ == s@,
            p@ == pat@,
            n == v@.len() < usize::MAX,
            done <= i <= n + 1,
            done <= n,
            left <= limit,
            r@ + replaced_from(v@, p@, new@, done as int, i as int, left as nat) == replaced(
                v@,
                p@,
                new@,
                limit as nat,
            ),
        decreases left,
    {
        match index_from(&v, &p, i) {
            Some(k) => {
                let ghost before = r@;
                let ghost rest = replaced_from(
                    v@,
                    p@,
                    new@,
                    k + p@.len(),
                    next_from(p@, k as int),
                    (left - 1) as nat,
                );
                r.append(text_range(&v, done, k).as_str());
                r.append(new);
                assert(before + (v@.subrange(done as int, k as int) + new@ + rest) =~= r@ + rest);
                done = k + p.len();
                i = if p.len() == 0 {
                    k + 1
                } else {
                    done
                };
                left -= 1;
            },
            None => {
                r.append(text_range(&v, done, n).as_str());
                assert(v@.subrange(done as int, n as int) =~= v@.skip(done as int));
                return r;
            },
        }
    }
    assert(left > 0 ==> find_from(v@, p@, i as int) is None);
    r.append(text_range(&v, done, n).as_str());
    assert(v@.subrange(done as int, n as int) =~= v@.skip(done as int));
    r
}

/// Replacing a text by itself changes nothing.
pub proof fn law_replacing_by_itself(
    s: Seq<char>,
    pat: Seq<char>,
    done: int,
    i: int,
    limit: nat,
)
    requires
        0 <= done <= i,
        done <= s.len(),
    ensures
        replaced_from(s, pat, pat, done, i, limit) == s.skip(done),
    decreases limit,
{
    lemma_find_from(s, pat, i);
    if limit > 0 {
        if let Some(k) = find_from(s, pat, i) {
            assert(occurs_at(s, pat, k));
            law_replacing_by_itself(
                s,
                pat,
                k + pat.len(),
                next_from(pat, k),
                (limit - 1) as nat,
            );
            assert(s.subrange(done, k) + pat + s.skip(k + pat.len()) =~= s.skip(done));
        }
    }
}

/// Replacing as many occurrences as there are replaces them all: a higher limit
/// changes nothing.
pub proof fn law_more_is_not_needed(
    s: Seq<char>,
    pat: Seq<char>,
    new: Seq<char>,
    done: int,
    i: int,
    limit: nat,
)
    requires
        0 <= i,
        limit >= occurrences_from(s, pat, i),
    ensures
        replaced_from(s, pat, new, done, i, limit) == replaced_from(
            s,
            pat,
            new,
            done,
            i,
            occurrences_from(s, pat, i),
        ),
    decreases s.len() + 1 - i,
{
    lemma_find_from(s, pat, i);
    if let Some(k) = find_from(s, pat, i) {
        assert(occurs_at(s, pat, k));
        law_more_is_not_needed(s, pat, new, k + pat.len(), next_from(pat, k), (limit - 1) as nat);
    }
}

/// Where a text occurs once, replacing it changes that place and nothing else.
pub proof fn law_unique_replacement(s: Seq<char>, pat: Seq<char>, new: Seq<char>)
    requires
        occurrences(s, pat) == 1,
    ensures
        exists|k: int|
            #[trigger] occurs_at(s, pat, k) && replaced(s, pat, new, 1) == s.take(k) + new + s.skip(
                k + pat.len(),
            ),
{
    lemma_find_from(s, pat, 0);
    let k = find_from(s, pat, 0).unwrap();
    assert(occurs_at(s, pat, k));
    reveal_with_fuel(replaced_from, 2);
    assert(s.subrange(0, k) =~= s.take(k));
    assert(replaced(s, pat, new, 1) =~= s.take(k) + new + s.skip(k + pat.len()));
}

} // verus!
