//! Suggestions for misspelt tool names.
use vstd::prelude::*;
use vstd::utf8::encode_utf8;

use crate::model::{group_views, views};
use crate::text::{chars_of, join, joined};

verus! {

broadcast use group_views;

/// The edit distance between two texts, over their last characters. It is the
/// least number of insertions, deletions and replacements of a character that
/// turn one into the other: see `law_distance_is_least`.
pub open spec fn edit_distance(a: Seq<char>, b: Seq<char>) -> nat
    decreases a.len() + b.len(),
{
    if a.len() == 0 {
        b.len()
    } else if b.len() == 0 {
        a.len()
    } else {
        let cost: nat = if a.last() == b.last() {
            0
        } else {
            1
        };
        least(
            least(
                edit_distance(a.drop_last(), b) + 1,
                edit_distance(a, b.drop_last()) + 1,
            ),
            edit_distance(a.drop_last(), b.drop_last()) + cost,
        )
    }
}

/// The smaller of two numbers.
pub open spec fn least(x: nat, y: nat) -> nat {
    if x <= y {
        x
    } else {
        y
    }
}

/// The distance is at most the length of the longer text.
proof fn lemma_distance_bound(a: Seq<char>, b: Seq<char>)
    ensures
        edit_distance(a, b) <= a.len() || edit_distance(a, b) <= b.len(),
    decreases a.len() + b.len(),
{
    if a.len() > 0 && b.len() > 0 {
        lemma_distance_bound(a.drop_last(), b.drop_last());
    }
}

/// The distance does not depend on the direction.
pub proof fn law_distance_is_symmetric(a: Seq<char>, b: Seq<char>)
    ensures
        edit_distance(a, b) == edit_distance(b, a),
    decreases a.len() + b.len(),
{
    if a.len() > 0 && b.len() > 0 {
        law_distance_is_symmetric(a.drop_last(), b);
        law_distance_is_symmetric(a, b.drop_last());
        law_distance_is_symmetric(a.drop_last(), b.drop_last());
    }
}

/// The distance is zero exactly between equal texts.
pub proof fn law_distance_zero_means_equal(a: Seq<char>, b: Seq<char>)
    ensures
        edit_distance(a, b) == 0 <==> a == b,
    decreases a.len() + b.len(),
{
    if a.len() == 0 {
        assert(b.len() == 0 ==> a =~= b);
    } else if b.len() > 0 {
        law_distance_zero_means_equal(a.drop_last(), b.drop_last());
        if a.last() == b.last() && a.drop_last() == b.drop_last() {
            assert(a =~= a.drop_last().push(a.last()));
            assert(b =~= b.drop_last().push(b.last()));
        }
    }
}

/// A change of one character.
pub enum Edit {
    Insert(int, char),
    Delete(int),
    Replace(int, char),
}

/// Whether a change names a position of a text.
pub open spec fn applies(e: Edit, s: Seq<char>) -> bool {
    match e {
        Edit::Insert(i, _) => 0 <= i <= s.len(),
        Edit::Delete(i) => 0 <= i < s.len(),
        Edit::Replace(i, _) => 0 <= i < s.len(),
    }
}

/// A text after a change.
pub open spec fn edit(s: Seq<char>, e: Edit) -> Seq<char> {
    match e {
        Edit::Insert(i, c) => s.insert(i, c),
        Edit::Delete(i) => s.remove(i),
        Edit::Replace(i, c) => s.update(i, c),
    }
}

/// A text after some changes; none where one of them names no position.
pub open spec fn edits(s: Seq<char>, es: Seq<Edit>) -> Option<Seq<char>>
    decreases es.len(),
{
    if es.len() == 0 {
        Some(s)
    } else {
        match edits(s, es.drop_last()) {
            Some(m) => if applies(es.last(), m) {
                Some(edit(m, es.last()))
            } else {
                None
            },
            None => None,
        }
    }
}

proof fn lemma_one_less(a: Seq<char>, b: Seq<char>)
    requires
        b.len() > 0,
    ensures
        edit_distance(a, b.drop_last()) <= edit_distance(a, b) + 1,
        edit_distance(a, b) <= edit_distance(a, b.drop_last()) + 1,
    decreases a.len(),
{
    if a.len() > 0 {
        lemma_one_less(a.drop_last(), b);
    }
}

proof fn lemma_last_replaced(a: Seq<char>, b: Seq<char>, c: char)
    requires
        b.len() > 0,
    ensures
        edit_distance(a, b.drop_last().push(c)) <= edit_distance(a, b) + 1,
    decreases a.len(),
{
    let other = b.drop_last().push(c);
    assert(other.drop_last() =~= b.drop_last());
    if a.len() > 0 {
        lemma_last_replaced(a.drop_last(), b, c);
    }
}

/// A change of one character moves the distance by one at most.
proof fn lemma_edit_moves_by_one(a: Seq<char>, b: Seq<char>, e: Edit)
    requires
        applies(e, b),
    ensures
        edit_distance(a, edit(b, e)) <= edit_distance(a, b) + 1,
    decreases a.len() + b.len(),
{
    let after = edit(b, e);
    let at_end = match e {
        Edit::Insert(i, _) => i == b.len(),
        Edit::Delete(i) => i == b.len() - 1,
        Edit::Replace(i, _) => i == b.len() - 1,
    };
    if at_end {
        match e {
            Edit::Insert(_, _) => {
                assert(after.drop_last() =~= b);
                lemma_one_less(a, after);
            },
            Edit::Delete(_) => {
                assert(after =~= b.drop_last());
                lemma_one_less(a, b);
            },
            Edit::Replace(_, c) => {
                assert(after =~= b.drop_last().push(c));
                lemma_last_replaced(a, b, c);
            },
        }
    } else if a.len() > 0 {
        let front = b.drop_last();
        assert(after.drop_last() =~= edit(front, e));
        assert(after.last() == b.last());
        lemma_edit_moves_by_one(a.drop_last(), b, e);
        lemma_edit_moves_by_one(a, front, e);
        lemma_edit_moves_by_one(a.drop_last(), front, e);
    }
}

proof fn lemma_edits_bound(a: Seq<char>, es: Seq<Edit>)
    requires
        edits(a, es) is Some,
    ensures
        edit_distance(a, edits(a, es)->Some_0) <= es.len(),
    decreases es.len(),
{
    if es.len() == 0 {
        law_distance_zero_means_equal(a, a);
    } else {
        lemma_edits_bound(a, es.drop_last());
        lemma_edit_moves_by_one(a, edits(a, es.drop_last())->Some_0, es.last());
    }
}

proof fn lemma_edits_compose(a: Seq<char>, first: Seq<Edit>, second: Seq<Edit>)
    requires
        edits(a, first) is Some,
    ensures
        edits(a, first + second) == edits(edits(a, first)->Some_0, second),
    decreases second.len(),
{
    if second.len() == 0 {
        assert(first + second =~= first);
    } else {
        lemma_edits_compose(a, first, second.drop_last());
        assert((first + second).drop_last() =~= first + second.drop_last());
    }
}

/// What changes a text changes it in the same way before one more character.
proof fn lemma_edits_before(a: Seq<char>, es: Seq<Edit>, c: char)
    requires
        edits(a, es) is Some,
    ensures
        edits(a.push(c), es) == Some(edits(a, es)->Some_0.push(c)),
    decreases es.len(),
{
    if es.len() > 0 {
        lemma_edits_before(a, es.drop_last(), c);
        let m = edits(a, es.drop_last())->Some_0;
        assert(edit(m.push(c), es.last()) =~= edit(m, es.last()).push(c));
    }
}

proof fn lemma_one_more_edit(s: Seq<char>, es: Seq<Edit>, e: Edit)
    requires
        edits(s, es) is Some,
        applies(e, edits(s, es)->Some_0),
    ensures
        edits(s, es.push(e)) == Some(edit(edits(s, es)->Some_0, e)),
        es.push(e).len() == es.len() + 1,
{
    assert(es.push(e).drop_last() =~= es);
}

/// The change that puts the last character of a text behind the others.
spec fn appended(s: Seq<char>) -> Edit {
    Edit::Insert(s.len() - 1, s.last())
}

/// The change that puts the last character of a text in place of another.
spec fn last_replaced(s: Seq<char>) -> Edit {
    Edit::Replace(s.len() - 1, s.last())
}

/// Changes that turn one text into another.
spec fn edits_between(a: Seq<char>, b: Seq<char>) -> Seq<Edit>
    decreases a.len() + b.len(),
{
    if a.len() == 0 && b.len() == 0 {
        Seq::empty()
    } else if b.len() > 0 && (a.len() == 0 || edit_distance(a, b) == edit_distance(
        a,
        b.drop_last(),
    ) + 1) {
        edits_between(a, b.drop_last()).push(appended(b))
    } else if b.len() == 0 || edit_distance(a, b) == edit_distance(a.drop_last(), b) + 1 {
        Seq::<Edit>::empty().push(Edit::Delete(a.len() - 1)) + edits_between(a.drop_last(), b)
    } else if a.last() == b.last() {
        edits_between(a.drop_last(), b.drop_last())
    } else {
        edits_between(a.drop_last(), b.drop_last()).push(last_replaced(b))
    }
}

/// They do, and there are as many as the distance says.
proof fn lemma_edits_between(a: Seq<char>, b: Seq<char>)
    ensures
        edits(a, edits_between(a, b)) == Some(b),
        edits_between(a, b).len() == edit_distance(a, b),
    decreases a.len() + b.len(),
{
    if a.len() == 0 && b.len() == 0 {
        assert(a =~= b);
    } else if b.len() > 0 && (a.len() == 0 || edit_distance(a, b) == edit_distance(
        a,
        b.drop_last(),
    ) + 1) {
        lemma_edits_between(a, b.drop_last());
        let e = appended(b);
        lemma_one_more_edit(a, edits_between(a, b.drop_last()), e);
        assert(edit(b.drop_last(), e) =~= b);
        let rest = edits_between(a, b.drop_last());
        assert(edits_between(a, b) == rest.push(appended(b)));
        assert(rest.push(appended(b)) == rest.push(e));
        assert(edits_between(a, b).len() == edit_distance(a, b));
    } else if b.len() == 0 || edit_distance(a, b) == edit_distance(a.drop_last(), b) + 1 {
        lemma_edits_between(a.drop_last(), b);
        let e = Edit::Delete(a.len() - 1);
        let first = Seq::<Edit>::empty().push(e);
        lemma_one_more_edit(a, Seq::<Edit>::empty(), e);
        assert(edit(a, e) =~= a.drop_last());
        lemma_edits_compose(a, first, edits_between(a.drop_last(), b));
        assert(edits_between(a, b) == first + edits_between(a.drop_last(), b));
        assert(edits_between(a, b).len() == edit_distance(a, b));
    } else {
        lemma_edits_between(a.drop_last(), b.drop_last());
        let first = edits_between(a.drop_last(), b.drop_last());
        lemma_edits_before(a.drop_last(), first, a.last());
        assert(a.drop_last().push(a.last()) =~= a);
        if a.last() == b.last() {
            assert(b.drop_last().push(a.last()) =~= b);
            assert(edits_between(a, b) == first);
            assert(edits_between(a, b).len() == edit_distance(a, b));
        } else {
            let e = last_replaced(b);
            lemma_one_more_edit(a, first, e);
            assert(edit(b.drop_last().push(a.last()), e) =~= b);
            assert(edits_between(a, b) == first.push(e));
            assert(edit_distance(a, b) == edit_distance(a.drop_last(), b.drop_last()) + 1);
            assert(edits_between(a, b).len() == edit_distance(a, b));
        }
    }
}

/// The distance is the least number of insertions, deletions and replacements
/// of a character that turn one text into the other.
pub proof fn law_distance_is_least(a: Seq<char>, b: Seq<char>)
    ensures
        exists|es: Seq<Edit>| #[trigger] edits(a, es) == Some(b) && es.len() == edit_distance(a, b),
        forall|es: Seq<Edit>| #[trigger] edits(a, es) == Some(b) ==> edit_distance(a, b) <= es.len(),
{
    lemma_edits_between(a, b);
    assert forall|es: Seq<Edit>| #[trigger] edits(a, es) == Some(b) implies edit_distance(a, b)
        <= es.len() by {
        lemma_edits_bound(a, es);
    }
}

/// A detour over a third text is no shorter.
pub proof fn law_triangle_inequality(a: Seq<char>, b: Seq<char>, c: Seq<char>)
    ensures
        edit_distance(a, c) <= edit_distance(a, b) + edit_distance(b, c),
{
    let first = edits_between(a, b);
    let second = edits_between(b, c);
    lemma_edits_between(a, b);
    lemma_edits_between(b, c);
    lemma_edits_compose(a, first, second);
    lemma_edits_bound(a, first + second);
}

/// Edit distance between two short strings.
pub fn levenshtein(a: &str, b: &str) -> (r: usize)
    ensures
        r == edit_distance(a@, b@),
{
    let a = chars_of(a);
    let b = chars_of(b);
    let n: usize = b.len();
    let mut prev: Vec<u128> = Vec::new();
    for j in 0..n
        invariant
            n == b@.len(),
            prev@.len() == j,
            forall|k: int|
                0 <= k < j ==> #[trigger] prev@[k] == edit_distance(a@.take(0), b@.take(k)),
    {
        prev.push(j as u128);
    }
    prev.push(n as u128);
    for i in 0..a.len()
        invariant
            n == b@.len(),
            prev@.len() == n + 1,
            forall|k: int|
                0 <= k <= n ==> #[trigger] prev@[k] == edit_distance(a@.take(i as int), b@.take(k)),
    {
        let mut curr: Vec<u128> = Vec::new();
        curr.push(i as u128 + 1);
        let ghost upper = a@.take(i as int);
        let ghost lower = a@.take(i + 1);
        assert(lower.drop_last() == upper);
        assert(b@.take(0).len() == 0);
        for j in 0..n
            invariant
                n == b@.len(),
                0 <= i < a@.len(),
                prev@.len() == n + 1,
                upper == a@.take(i as int),
                lower == a@.take(i + 1),
                lower.drop_last() == upper,
                forall|k: int|
                    0 <= k <= n ==> #[trigger] prev@[k] == edit_distance(upper, b@.take(k)),
                curr@.len() == j + 1,
                forall|k: int|
                    0 <= k <= j ==> #[trigger] curr@[k] == edit_distance(lower, b@.take(k)),
        {
            assert(b@.take(j + 1).drop_last() == b@.take(j as int));
            proof {
                lemma_distance_bound(upper, b@.take(j + 1));
                lemma_distance_bound(lower, b@.take(j as int));
                lemma_distance_bound(upper, b@.take(j as int));
            }
            let cost: u128 = if a[i] == b[j] {
                0
            } else {
                1
            };
            let up: u128 = prev[j + 1] + 1;
            let left: u128 = curr[j] + 1;
            let diagonal: u128 = prev[j] + cost;
            let nearer: u128 = if up <= left {
                up
            } else {
                left
            };
            curr.push(
                if nearer <= diagonal {
                    nearer
                } else {
                    diagonal
                },
            );
        }
        prev = curr;
    }
    assert(a@.take(a@.len() as int) == a@);
    assert(b@.take(n as int) == b@);
    proof {
        lemma_distance_bound(a@, b@);
    }
    prev[n] as usize
}

/// The number of bytes of a text.
pub open spec fn byte_len(s: Seq<char>) -> usize {
    encode_utf8(s).len() as usize
}

/// The position of the first of `names` that is nearest to `name`.
pub open spec fn nearest(name: Seq<char>, names: Seq<Seq<char>>) -> int
    decreases names.len(),
{
    if names.len() <= 1 {
        0
    } else {
        let before = nearest(name, names.drop_last());
        if edit_distance(name, names.last()) < edit_distance(name, names[before]) {
            names.len() - 1
        } else {
            before
        }
    }
}

/// `nearest` is a position, no name is nearer, and no earlier one is as near.
pub proof fn lemma_nearest(name: Seq<char>, names: Seq<Seq<char>>)
    requires
        names.len() > 0,
    ensures
        0 <= nearest(name, names) < names.len(),
        forall|i: int|
            0 <= i < names.len() ==> edit_distance(name, names[nearest(name, names)])
                <= edit_distance(name, #[trigger] names[i]),
        forall|i: int|
            0 <= i < nearest(name, names) ==> edit_distance(name, names[nearest(name, names)])
                < edit_distance(name, #[trigger] names[i]),
    decreases names.len(),
{
    if names.len() > 1 {
        lemma_nearest(name, names.drop_last());
        let before = nearest(name, names.drop_last());
        assert(names[before] == names.drop_last()[before]);
        assert forall|i: int| 0 <= i < names.len() implies edit_distance(
            name,
            names[nearest(name, names)],
        ) <= edit_distance(name, #[trigger] names[i]) by {
            if i < names.len() - 1 {
                assert(names[i] == names.drop_last()[i]);
            }
        }
        assert forall|i: int| 0 <= i < nearest(name, names) implies edit_distance(
            name,
            names[nearest(name, names)],
        ) < edit_distance(name, #[trigger] names[i]) by {
            assert(names[i] == names.drop_last()[i]);
        }
    }
}

/// The name that is suggested for a misspelt one: the nearest, unless it is
/// farther than half the length of the misspelt name.
pub open spec fn suggestion(name: Seq<char>, names: Seq<Seq<char>>) -> Option<Seq<char>> {
    if names.len() == 0 {
        None
    } else {
        let c = names[nearest(name, names)];
        let len: usize = if byte_len(name) >= 3 {
            byte_len(name)
        } else {
            3
        };
        if edit_distance(name, c) <= len / 2 {
            Some(c)
        } else {
            None
        }
    }
}

/// The answer to a call of a tool that does not exist.
pub open spec fn unknown_tool_text(name: Seq<char>, names: Seq<Seq<char>>) -> Seq<char> {
    match suggestion(name, names) {
        Some(c) => "Unknown tool '"@ + name + "'. Did you mean '"@ + c + "'? Available tools: "@
            + join(names, ", "@),
        None => "Unknown tool '"@ + name + "'. Available tools: "@ + join(names, ", "@),
    }
}

/// Suggests the closest registered tool name for a misspelt call.
pub fn unknown_tool_message(name: &str, tools: &Vec<String>) -> (r: String)
    ensures
        r@ == unknown_tool_text(name@, views(tools@)),
{
    let mut r = "Unknown tool '".to_owned();
    r.append(name);
    if tools.len() > 0 {
        let ghost names = views(tools@);
        let mut best: usize = 0;
        let mut distance: usize = levenshtein(name, tools[0].as_str());
        for i in 1..tools.len()
            invariant
                names == views(tools@),
                1 <= i <= tools@.len(),
                best < i,
                best == nearest(name@, names.take(i as int)),
                distance == edit_distance(name@, names[best as int]),
        {
            assert(names.take(i + 1).drop_last() == names.take(i as int));
            let d: usize = levenshtein(name, tools[i].as_str());
            if d < distance {
                best = i;
                distance = d;
            }
        }
        assert(names.take(names.len() as int) == names);
        let bytes: usize = name.len();
        let len: usize = if bytes >= 3 {
            bytes
        } else {
            3
        };
        if distance <= len / 2 {
            r.append("'. Did you mean '");
            r.append(tools[best].as_str());
            r.append("'? Available tools: ");
            r.append(joined(tools, ", ").as_str());
            return r;
        }
    }
    r.append("'. Available tools: ");
    r.append(joined(tools, ", ").as_str());
    r
}

} // verus!
