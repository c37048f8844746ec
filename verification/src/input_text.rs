//! Lines and columns of the text that is being typed.
use vstd::prelude::*;

use crate::text::chars_of;

verus! {

/// The number of line feeds in a text.
pub open spec fn line_feeds(s: Seq<char>) -> nat
    decreases s.len(),
{
    if s.len() == 0 {
        0
    } else {
        line_feeds(s.drop_last()) + if s.last() == '\n' {
            1nat
        } else {
            0nat
        }
    }
}

/// The number of lines of a text.
pub open spec fn lines_in(s: Seq<char>) -> nat {
    line_feeds(s) + 1
}

/// There are no more line feeds than characters, nor in a part than in the
/// whole.
pub proof fn lemma_line_feeds(s: Seq<char>, i: int)
    requires
        0 <= i <= s.len(),
    ensures
        line_feeds(s) <= s.len(),
        line_feeds(s.take(i)) <= line_feeds(s),
    decreases s.len(),
{
    if s.len() > 0 {
        if i < s.len() {
            lemma_line_feeds(s.drop_last(), i);
            assert(s.drop_last().take(i) == s.take(i));
        } else {
            lemma_line_feeds(s.drop_last(), i - 1);
            assert(s.take(i) == s);
        }
    } else {
        assert(s.take(i) == s);
    }
}

/// The number of line feeds in a text.
pub fn count_line_feeds(v: &Vec<char>) -> (r: usize)
    ensures
        r == line_feeds(v@),
        r <= v@.len(),
{
    let mut n: usize = 0;
    let len: usize = v.len();
    for i in 0..len
        invariant
            len == v@.len(),
            n == line_feeds(v@.take(i as int)),
            n <= i,
    {
        assert(v@.take(i + 1).drop_last() == v@.take(i as int));
        if v[i] == '\n' {
            n += 1;
        }
    }
    assert(v@.take(v@.len() as int) == v@);
    n
}

/// The number of lines of a text.
pub fn total_lines(buffer: &str) -> (r: usize)
    requires
        buffer@.len() < usize::MAX,
    ensures
        r == lines_in(buffer@),
{
    count_line_feeds(&chars_of(buffer)) + 1
}

/// The start of the line in which position `k` lies.
pub open spec fn line_start(s: Seq<char>, k: int) -> int
    decreases k,
{
    if k <= 0 || k > s.len() || s[k - 1] == '\n' {
        k
    } else {
        line_start(s, k - 1)
    }
}

/// A position in a text, at most its end.
pub open spec fn within(s: Seq<char>, k: nat) -> int {
    if k < s.len() {
        k as int
    } else {
        s.len() as int
    }
}

/// The line of a position.
pub open spec fn line_of(s: Seq<char>, k: nat) -> nat {
    line_feeds(s.take(within(s, k)))
}

/// The column of a position.
pub open spec fn column_of(s: Seq<char>, k: nat) -> nat {
    (within(s, k) - line_start(s, within(s, k))) as nat
}

/// Where line `n` starts, looking from position `i` on; the end of the text
/// where there is no such line.
pub open spec fn start_of_line(s: Seq<char>, n: nat, i: int) -> int
    decreases s.len() - i,
{
    if n == 0 || i >= s.len() {
        i
    } else if s[i] == '\n' {
        start_of_line(s, (n - 1) as nat, i + 1)
    } else {
        start_of_line(s, n, i + 1)
    }
}

/// Column `col` of the line that starts at `i`, at most the end of that line.
pub open spec fn along_line(s: Seq<char>, i: int, col: nat) -> int
    decreases s.len() - i,
{
    if col == 0 || i >= s.len() || s[i] == '\n' {
        i
    } else {
        along_line(s, i + 1, (col - 1) as nat)
    }
}

/// The position of a line and column.
pub open spec fn position_of(s: Seq<char>, line: nat, col: nat) -> int {
    along_line(s, start_of_line(s, line, 0), col)
}

/// A line and a column have a position in the text.
pub proof fn lemma_position_in_text(s: Seq<char>, line: nat, col: nat)
    ensures
        0 <= position_of(s, line, col) <= s.len(),
{
    lemma_start_in_text(s, line, 0);
    lemma_along_in_text(s, start_of_line(s, line, 0), col);
}

proof fn lemma_start_in_text(s: Seq<char>, n: nat, i: int)
    requires
        0 <= i <= s.len(),
    ensures
        i <= start_of_line(s, n, i) <= s.len(),
    decreases s.len() - i,
{
    if n > 0 && i < s.len() {
        if s[i] == '\n' {
            lemma_start_in_text(s, (n - 1) as nat, i + 1);
        } else {
            lemma_start_in_text(s, n, i + 1);
        }
    }
}

proof fn lemma_along_in_text(s: Seq<char>, i: int, col: nat)
    requires
        0 <= i <= s.len(),
    ensures
        i <= along_line(s, i, col) <= s.len(),
    decreases s.len() - i,
{
    if col > 0 && i < s.len() && s[i] != '\n' {
        lemma_along_in_text(s, i + 1, (col - 1) as nat);
    }
}

/// Line and column of a position.
pub fn line_and_column(v: &Vec<char>, cursor: usize) -> (r: (usize, usize))
    ensures
        r.0 == line_of(v@, cursor as nat),
        r.1 == column_of(v@, cursor as nat),
        r.0 <= v@.len(),
        r.1 <= v@.len(),
{
    let n: usize = v.len();
    let end: usize = if cursor < n {
        cursor
    } else {
        n
    };
    let mut line: usize = 0;
    let mut col: usize = 0;
    for i in 0..end
        invariant
            end <= n == v@.len(),
            line == line_feeds(v@.take(i as int)),
            col == i - line_start(v@, i as int),
            line <= i,
            col <= i,
    {
        assert(v@.take(i + 1).drop_last() == v@.take(i as int));
        if v[i] == '\n' {
            line += 1;
            col = 0;
        } else {
            col += 1;
        }
    }
    (line, col)
}

/// Line and column of a cursor, both counted from 0 in characters.
pub fn line_col(buffer: &str, cursor: usize) -> (r: (usize, usize))
    ensures
        r.0 == line_of(buffer@, cursor as nat),
        r.1 == column_of(buffer@, cursor as nat),
{
    line_and_column(&chars_of(buffer), cursor)
}

/// The position of a line and column.
pub fn cursor_at(v: &Vec<char>, target_line: usize, target_col: usize) -> (r: usize)
    ensures
        r == position_of(v@, target_line as nat, target_col as nat),
        r <= v@.len(),
{
    let n: usize = v.len();
    let mut i: usize = 0;
    let mut line: usize = target_line;
    while line > 0 && i < n
        invariant
            i <= n == v@.len(),
            start_of_line(v@, target_line as nat, 0) == start_of_line(v@, line as nat, i as int),
        decreases n - i,
    {
        if v[i] == '\n' {
            line -= 1;
        }
        i += 1;
    }
    let ghost start = i;
    let mut col: usize = target_col;
    while col > 0 && i < n && v[i] != '\n'
        invariant
            i <= n == v@.len(),
            along_line(v@, start as int, target_col as nat) == along_line(
                v@,
                i as int,
                col as nat,
            ),
        decreases n - i,
    {
        i += 1;
        col -= 1;
    }
    i
}

/// The inverse of `line_col`; a column beyond the line means its end.
pub fn cursor_from_line_col(buffer: &str, target_line: usize, target_col: usize) -> (r: usize)
    ensures
        r == position_of(buffer@, target_line as nat, target_col as nat),
        r <= buffer@.len(),
{
    cursor_at(&chars_of(buffer), target_line, target_col)
}

/// The start of the line of a position lies behind the last line feed before it.
pub proof fn lemma_line_start_bounds(s: Seq<char>, k: int)
    requires
        0 <= k <= s.len(),
    ensures
        0 <= line_start(s, k) <= k,
        line_start(s, k) > 0 ==> s[line_start(s, k) - 1] == '\n',
        forall|j: int| line_start(s, k) <= j < k ==> s[j] != '\n',
    decreases k,
{
    if k > 0 && s[k - 1] != '\n' {
        lemma_line_start_bounds(s, k - 1);
    }
}

/// Skipping the line feeds before a line start leads to it.
proof fn lemma_start_of_line_is(s: Seq<char>, start: int, i: int)
    requires
        0 <= i <= start <= s.len(),
        start > i ==> s[start - 1] == '\n',
    ensures
        start_of_line(
            s,
            (line_feeds(s.take(start)) - line_feeds(s.take(i))) as nat,
            i,
        ) == start,
        line_feeds(s.take(i)) <= line_feeds(s.take(start)),
    decreases start - i,
{
    lemma_line_feeds(s.take(start), i);
    assert(s.take(start).take(i) == s.take(i));
    if i < start {
        assert(s.take(i + 1).drop_last() == s.take(i));
        lemma_line_feeds(s.take(start), start - 1);
        assert(s.take(start).take(start - 1) == s.take(start - 1));
        assert(s.take(start).drop_last() == s.take(start - 1));
        if i < start - 1 {
            lemma_line_feeds(s.take(start - 1), i);
            assert(s.take(start - 1).take(i) == s.take(i));
        }
        lemma_start_of_line_is(s, start, i + 1);
    }
}

proof fn lemma_along_line_is(s: Seq<char>, i: int, k: int)
    requires
        0 <= i <= k <= s.len(),
        forall|j: int| i <= j < k ==> s[j] != '\n',
    ensures
        along_line(s, i, (k - i) as nat) == k,
    decreases k - i,
{
    if i < k {
        lemma_along_line_is(s, i + 1, k);
    }
}

/// Every position is found again from its line and column.
pub proof fn law_position_of_line_and_column(s: Seq<char>, k: nat)
    requires
        k <= s.len(),
    ensures
        position_of(s, line_of(s, k), column_of(s, k)) == k,
{
    let start = line_start(s, k as int);
    lemma_line_start_bounds(s, k as int);
    lemma_same_line(s, start, k as int);
    lemma_start_of_line_is(s, start, 0);
    assert(s.take(0).len() == 0);
    lemma_along_line_is(s, start, k as int);
}

proof fn lemma_same_line(s: Seq<char>, i: int, k: int)
    requires
        0 <= i <= k <= s.len(),
        forall|j: int| i <= j < k ==> s[j] != '\n',
    ensures
        line_feeds(s.take(i)) == line_feeds(s.take(k)),
    decreases k - i,
{
    if i < k {
        lemma_same_line(s, i, k - 1);
        assert(s.take(k).drop_last() == s.take(k - 1));
    }
}

/// The first line that is shown of `total`, with room for `visible`, when the
/// cursor is in line `cursor_line`.
pub open spec fn first_shown(total: nat, cursor_line: nat, visible: nat) -> nat {
    let max = if total >= visible {
        (total - visible) as nat
    } else {
        0
    };
    if cursor_line < max {
        cursor_line
    } else {
        max
    }
}

/// The first line that is shown.
pub fn scroll_offset(buffer: &str, cursor_line: usize, visible: usize) -> (r: usize)
    requires
        buffer@.len() < usize::MAX,
    ensures
        r == first_shown(lines_in(buffer@), cursor_line as nat, visible as nat),
        r <= cursor_line,
{
    let total: usize = total_lines(buffer);
    let max: usize = if total >= visible {
        total - visible
    } else {
        0
    };
    if cursor_line < max {
        cursor_line
    } else {
        max
    }
}

/// The line of the cursor is among the lines that are shown.
pub proof fn law_cursor_line_is_shown(s: Seq<char>, k: nat, visible: nat)
    requires
        visible > 0,
    ensures
        first_shown(lines_in(s), line_of(s, k), visible) <= line_of(s, k) < first_shown(
            lines_in(s),
            line_of(s, k),
            visible,
        ) + visible,
{
    lemma_line_feeds(s, within(s, k));
}

/// Line feeds are counted one by one.
pub proof fn law_line_feeds_are_counted(a: Seq<char>, b: Seq<char>, c: char)
    ensures
        line_feeds(a + b) == line_feeds(a) + line_feeds(b),
        line_feeds(seq![c]) == if c == '\n' {
            1nat
        } else {
            0
        },
        lines_in(a) == line_feeds(a) + 1,
    decreases b.len(),
{
    assert(seq![c].drop_last() =~= Seq::empty());
    reveal_with_fuel(line_feeds, 2);
    if b.len() == 0 {
        assert(a + b =~= a);
    } else {
        law_line_feeds_are_counted(a, b.drop_last(), c);
        assert((a + b).drop_last() =~= a + b.drop_last());
    }
}

proof fn lemma_start_of_line_counts(s: Seq<char>, n: nat, i: int)
    requires
        0 <= i <= s.len(),
        line_feeds(s.take(i)) + n <= line_feeds(s),
    ensures
        i <= start_of_line(s, n, i) <= s.len(),
        line_feeds(s.take(start_of_line(s, n, i))) == line_feeds(s.take(i)) + n,
        start_of_line(s, n, i) == i || s[start_of_line(s, n, i) - 1] == '\n',
    decreases s.len() - i,
{
    assert(s.take(s.len() as int) =~= s);
    if n > 0 && i < s.len() {
        assert(s.take(i + 1).drop_last() =~= s.take(i));
        if s[i] == '\n' {
            lemma_start_of_line_counts(s, (n - 1) as nat, i + 1);
        } else {
            lemma_start_of_line_counts(s, n, i + 1);
        }
    }
}

proof fn lemma_along_stays_on_the_line(s: Seq<char>, i: int, col: nat)
    requires
        0 <= i <= s.len(),
    ensures
        ({
            let q = along_line(s, i, col);
            &&& i <= q <= s.len()
            &&& q <= i + col
            &&& forall|j: int| i <= j < q ==> #[trigger] s[j] != '\n'
            &&& q == i + col || q == s.len() || s[q] == '\n'
        }),
    decreases s.len() - i,
{
    if col > 0 && i < s.len() && s[i] != '\n' {
        lemma_along_stays_on_the_line(s, i + 1, (col - 1) as nat);
    }
}

/// A line and a column mean the place on that line, that many characters from its
/// start, or its end where it is shorter.
pub proof fn law_place_on_a_line(s: Seq<char>, line: nat, col: nat)
    requires
        line < lines_in(s),
    ensures
        ({
            let p = position_of(s, line, col);
            &&& 0 <= p <= s.len()
            &&& line_of(s, p as nat) == line
            &&& column_of(s, p as nat) <= col
            &&& column_of(s, p as nat) == col || p == s.len() || s[p] == '\n'
        }),
{
    assert(s.take(0) =~= Seq::empty());
    lemma_start_of_line_counts(s, line, 0);
    let start = start_of_line(s, line, 0);
    lemma_along_stays_on_the_line(s, start, col);
    let p = position_of(s, line, col);
    lemma_same_line(s, start, p);
    lemma_line_start_bounds(s, p);
    let ls = line_start(s, p);
    if ls < start {
        assert(s[start - 1] == '\n');
    }
    if ls > start {
        assert(s[ls - 1] == '\n');
    }
}

/// A line starts behind a line feed, or at the start of the text, and ends before
/// one, or at its end.
pub proof fn law_ends_of_a_line(s: Seq<char>, k: nat, far: nat)
    requires
        k <= s.len(),
        far >= s.len(),
    ensures
        ({
            let a = position_of(s, line_of(s, k), 0);
            let b = position_of(s, line_of(s, k), far);
            &&& 0 <= a <= k <= b <= s.len()
            &&& a == 0 || s[a - 1] == '\n'
            &&& b == s.len() || s[b] == '\n'
            &&& forall|j: int| a <= j < b ==> #[trigger] s[j] != '\n'
        }),
{
    let start = line_start(s, k as int);
    lemma_line_start_bounds(s, k as int);
    lemma_same_line(s, start, k as int);
    lemma_start_of_line_is(s, start, 0);
    assert(s.take(0).len() == 0);
    assert(start_of_line(s, line_of(s, k), 0) == start);
    lemma_along_stays_on_the_line(s, start, far);
    let b = along_line(s, start, far);
    if b < k {
        assert(s[b] != '\n');
    }
}

} // verus!
