//! Ordering texts.
use vstd::prelude::*;

use crate::model::{group_views, views};
use crate::text::chars_of;

verus! {

broadcast use group_views;

/// Whether a character comes before another. In the order of paths the
/// separator comes before everything else, so that paths are compared part by
/// part.
pub open spec fn lower(c: char, d: char, paths: bool) -> bool {
    if paths && c == '/' {
        d != '/'
    } else if paths && d == '/' {
        false
    } else {
        c < d
    }
}

/// Whether `a` comes before `b`: by the first character in which they differ,
/// or because `b` goes on where `a` ends.
pub open spec fn precedes(a: Seq<char>, b: Seq<char>, paths: bool) -> bool
    decreases a.len(),
{
    if b.len() == 0 {
        false
    } else if a.len() == 0 {
        true
    } else if a[0] == b[0] {
        precedes(a.skip(1), b.skip(1), paths)
    } else {
        lower(a[0], b[0], paths)
    }
}

proof fn lemma_not_before_itself(a: Seq<char>, paths: bool)
    ensures
        !precedes(a, a, paths),
    decreases a.len(),
{
    if a.len() > 0 {
        lemma_not_before_itself(a.skip(1), paths);
    }
}

/// No text comes before itself, of two different texts one comes first, and
/// the order is transitive.
pub proof fn lemma_precedes_is_an_order(
    a: Seq<char>,
    b: Seq<char>,
    c: Seq<char>,
    paths: bool,
)
    ensures
        !precedes(a, a, paths),
        a != b ==> precedes(a, b, paths) != precedes(b, a, paths),
        precedes(a, b, paths) && precedes(b, c, paths) ==> precedes(a, c, paths),
    decreases a.len() + b.len() + c.len(),
{
    lemma_not_before_itself(a, paths);
    if a != b {
        if a.len() == 0 || b.len() == 0 {
            assert(a.len() == 0 && b.len() == 0 ==> a =~= b);
        } else if a[0] == b[0] {
            assert(a.skip(1) != b.skip(1)) by {
                if a.skip(1) == b.skip(1) {
                    assert(a =~= seq![a[0]] + a.skip(1));
                    assert(b =~= seq![b[0]] + b.skip(1));
                }
            }
            lemma_precedes_is_an_order(a.skip(1), b.skip(1), Seq::empty(), paths);
        } else {
            assert(lower(a[0], b[0], paths) != lower(b[0], a[0], paths));
        }
    }
    if precedes(a, b, paths) && precedes(b, c, paths) && a.len() > 0 && b.len() > 0 && c.len() > 0 {
        if a[0] == b[0] && b[0] == c[0] {
            lemma_precedes_is_an_order(a.skip(1), b.skip(1), c.skip(1), paths);
        }
    }
}

/// Whether `a` comes before `b`.
pub fn comes_before(a: &str, b: &str, paths: bool) -> (r: bool)
    ensures
        r == precedes(a@, b@, paths),
{
    let x = chars_of(a);
    let y = chars_of(b);
    let mut i: usize = 0;
    assert(x@.skip(0) == x@);
    assert(y@.skip(0) == y@);
    while i < x.len() && i < y.len() && x[i] == y[i]
        invariant
            i <= x@.len(),
            i <= y@.len(),
            precedes(a@, b@, paths) == precedes(x@.skip(i as int), y@.skip(i as int), paths),
        decreases x@.len() - i,
    {
        assert(x@.skip(i as int).skip(1) == x@.skip(i + 1));
        assert(y@.skip(i as int).skip(1) == y@.skip(i + 1));
        i += 1;
    }
    if i >= y.len() {
        return false;
    }
    if i >= x.len() {
        return true;
    }
    let c = x[i];
    let d = y[i];
    if paths && c == '/' {
        d != '/'
    } else if paths && d == '/' {
        false
    } else {
        c < d
    }
}

/// `x` put into an ordered list, behind the entries that do not come after it.
pub open spec fn insert_in_order(
    s: Seq<Seq<char>>,
    x: Seq<char>,
    paths: bool,
) -> Seq<Seq<char>>
    decreases s.len(),
{
    if s.len() == 0 || !precedes(x, s.last(), paths) {
        s.push(x)
    } else {
        insert_in_order(s.drop_last(), x, paths).push(s.last())
    }
}

/// The entries of a list in order.
pub open spec fn in_order(s: Seq<Seq<char>>, paths: bool) -> Seq<Seq<char>>
    decreases s.len(),
{
    if s.len() == 0 {
        Seq::empty()
    } else {
        insert_in_order(in_order(s.drop_last(), paths), s.last(), paths)
    }
}

/// Whether no entry comes before an earlier one.
pub open spec fn ordered(s: Seq<Seq<char>>, paths: bool) -> bool {
    forall|i: int, j: int|
        0 <= i < j < s.len() ==> !precedes(#[trigger] s[j], #[trigger] s[i], paths)
}

proof fn lemma_insert_in_order(s: Seq<Seq<char>>, x: Seq<char>, paths: bool)
    requires
        ordered(s, paths),
    ensures
        ordered(insert_in_order(s, x, paths), paths),
        insert_in_order(s, x, paths).to_multiset() == s.to_multiset().insert(x),
        insert_in_order(s, x, paths).len() == s.len() + 1,
    decreases s.len(),
{
    broadcast use vstd::seq_lib::group_to_multiset_ensures;

    let r = insert_in_order(s, x, paths);
    if s.len() == 0 || !precedes(x, s.last(), paths) {
        assert forall|i: int, j: int| 0 <= i < j < r.len() implies !precedes(
            #[trigger] r[j],
            #[trigger] r[i],
            paths,
        ) by {
            if j == s.len() {
                lemma_not_after(s[i], s.last(), x, paths);
                if i < s.len() - 1 {
                    assert(!precedes(s[s.len() - 1], s[i], paths));
                }
            }
        }
    } else {
        lemma_insert_in_order(s.drop_last(), x, paths);
        let t = insert_in_order(s.drop_last(), x, paths);
        assert(s =~= s.drop_last().push(s.last()));
        assert forall|i: int, j: int| 0 <= i < j < r.len() implies !precedes(
            #[trigger] r[j],
            #[trigger] r[i],
            paths,
        ) by {
            if j == r.len() - 1 {
                lemma_precedes_is_an_order(x, s.last(), x, paths);
                assert(t.to_multiset().contains(t[i]));
                assert(s.drop_last().to_multiset().insert(x).contains(t[i]));
                if t[i] != x {
                    assert(s.drop_last().to_multiset().contains(t[i]));
                    assert(s.drop_last().contains(t[i]));
                    let k = choose|k: int| 0 <= k < s.drop_last().len() && s.drop_last()[k] == t[i];
                    assert(!precedes(s[s.len() - 1], s[k], paths));
                }
            }
        }
    }
}

proof fn lemma_not_after(a: Seq<char>, b: Seq<char>, c: Seq<char>, paths: bool)
    ensures
        (!precedes(b, a, paths) || a == b) && !precedes(c, b, paths) ==> !precedes(c, a, paths),
{
    lemma_precedes_is_an_order(a, b, c, paths);
    lemma_precedes_is_an_order(c, a, b, paths);
    lemma_precedes_is_an_order(b, c, a, paths);
    lemma_precedes_is_an_order(c, b, a, paths);
    lemma_precedes_is_an_order(a, c, b, paths);
}

/// Putting a list in order changes only the order.
pub proof fn law_in_order_is_an_ordering(s: Seq<Seq<char>>, paths: bool)
    ensures
        ordered(in_order(s, paths), paths),
        in_order(s, paths).to_multiset() == s.to_multiset(),
        in_order(s, paths).len() == s.len(),
    decreases s.len(),
{
    broadcast use vstd::seq_lib::group_to_multiset_ensures;

    if s.len() > 0 {
        law_in_order_is_an_ordering(s.drop_last(), paths);
        lemma_insert_in_order(in_order(s.drop_last(), paths), s.last(), paths);
        assert(s =~= s.drop_last().push(s.last()));
    } else {
        assert(in_order(s, paths) =~= s);
    }
}

fn insert_text(v: &mut Vec<String>, x: String, paths: bool)
    ensures
        views(final(v)@) == insert_in_order(views(old(v)@), x@, paths),
{
    let ghost all = views(v@);
    let mut i: usize = v.len();
    assert(all.take(all.len() as int) == all);
    assert(insert_in_order(all, x@, paths) + all.skip(all.len() as int) =~= insert_in_order(
        all,
        x@,
        paths,
    ));
    while i > 0 && comes_before(x.as_str(), v[i - 1].as_str(), paths)
        invariant
            i <= v@.len(),
            all == views(v@),
            insert_in_order(all, x@, paths) == insert_in_order(all.take(i as int), x@, paths)
                + all.skip(i as int),
        decreases i,
    {
        assert(all.take(i as int).drop_last() == all.take(i - 1));
        assert(all.take(i as int).last() == all[i - 1]);
        assert(insert_in_order(all.take(i - 1), x@, paths).push(all[i - 1]) + all.skip(i as int)
            =~= insert_in_order(all.take(i - 1), x@, paths) + all.skip(i - 1));
        i -= 1;
    }
    assert(i > 0 ==> all.take(i as int).last() == all[i - 1]);
    let ghost before = v@;
    v.insert(i, x);
    assert(views(v@) =~= all.take(i as int).push(x@) + all.skip(i as int));
}

/// Puts texts in order.
pub fn sort_texts(v: Vec<String>, paths: bool) -> (r: Vec<String>)
    ensures
        views(r@) == in_order(views(v@), paths),
{
    let ghost all = views(v@);
    let mut r: Vec<String> = Vec::new();
    for i in 0..v.len()
        invariant
            all == views(v@),
            views(r@) == in_order(all.take(i as int), paths),
    {
        assert(all.take(i + 1).drop_last() == all.take(i as int));
        insert_text(&mut r, v[i].clone(), paths);
    }
    assert(all.take(all.len() as int) == all);
    r
}

/// The first character in which two texts differ decides which comes first; in
/// the order of paths, a separator comes before all others. A text comes before
/// those that go on where it ends.
pub proof fn law_first_difference_decides(
    p: Seq<char>,
    a: Seq<char>,
    b: Seq<char>,
    c: char,
    d: char,
)
    requires
        c != d,
    ensures
        precedes(p + seq![c] + a, p + seq![d] + b, false) <==> c < d,
        precedes(p + seq![c] + a, p + seq![d] + b, true) <==> c == '/' || (d != '/' && c < d),
        precedes(p, p + seq![c] + a, false),
        precedes(p, p + seq![c] + a, true),
    decreases p.len(),
{
    let x = p + seq![c] + a;
    let y = p + seq![d] + b;
    if p.len() == 0 {
        assert(x[0] == c);
        assert(y[0] == d);
    } else {
        law_first_difference_decides(p.skip(1), a, b, c, d);
        assert(x.skip(1) =~= p.skip(1) + seq![c] + a);
        assert(y.skip(1) =~= p.skip(1) + seq![d] + b);
    }
}

} // verus!
