//! What holds of texts that are cut, joined, trimmed and read.
use vstd::prelude::*;

use crate::text::{
    before_last, char_from, char_index, contains, decimal, digit, digits_value, ends_with,
    first_chars, is_alnum, is_digit, is_white, join, lemma_char_from, lemma_decimal_digits, lemma_find_from,
    lemma_last_at, lemma_white_from, lines, number, occurs_at, split, split_once, starts_with,
    strip_prefix, trim, trim_end, trim_start, unsigned, utf8_len, utf8_width, white_from, words,
};

verus! {

/// Joining two lists is joining each and putting one separator between them;
/// a single text stays as it is, and no texts are no text.
pub proof fn law_join_of_both(a: Seq<Seq<char>>, b: Seq<Seq<char>>, sep: Seq<char>)
    requires
        a.len() > 0,
        b.len() > 0,
    ensures
        join(a + b, sep) == join(a, sep) + sep + join(b, sep),
    decreases b.len(),
{
    reveal_with_fuel(join, 2);
    assert((a + b).drop_last() =~= a + b.drop_last());
    assert((a + b).last() == b.last());
    if b.len() == 1 {
        assert(a + b.drop_last() =~= a);
    } else {
        law_join_of_both(a, b.drop_last(), sep);
        assert(join(a, sep) + sep + join(b.drop_last(), sep) + sep + b.last() =~= join(a, sep)
            + sep + (join(b.drop_last(), sep) + sep + b.last()));
    }
}

/// A single text that is joined stays as it is, and no texts are no text.
pub proof fn law_join_of_one(x: Seq<char>, sep: Seq<char>)
    ensures
        join(seq![x], sep) == x,
        join(Seq::empty(), sep) == Seq::<char>::empty(),
{
}

/// Joining the parts of a text that was cut gives the text, and the character
/// that it was cut at is in no part.
pub proof fn law_joining_undoes_splitting(s: Seq<char>, c: char)
    ensures
        split(s, c).len() > 0,
        join(split(s, c), seq![c]) == s,
        forall|i: int| 0 <= i < split(s, c).len() ==> !(#[trigger] split(s, c)[i]).contains(c),
    decreases s.len(),
{
    let k = char_from(s, c, 0);
    lemma_char_from(s, c, 0);
    if k < s.len() {
        let head = seq![s.take(k)];
        let rest = s.skip(k + 1);
        law_joining_undoes_splitting(rest, c);
        law_join_of_both(head, split(rest, c), seq![c]);
        assert(s =~= s.take(k) + seq![c] + rest);
        assert forall|i: int| 0 <= i < split(s, c).len() implies !(#[trigger] split(
            s,
            c,
        )[i]).contains(c) by {
            if i > 0 {
                assert(split(s, c)[i] == split(rest, c)[i - 1]);
            }
        }
    }
}

/// A line is what stands before a line feed, without a carriage return before
/// it; the rest of the text has the lines behind it. What stands at the end
/// without a line feed is a line, unless it is nothing.
pub proof fn law_lines_end_at_line_feeds(line: Seq<char>, rest: Seq<char>)
    requires
        !line.contains('\n'),
    ensures
        line.len() == 0 || line.last() != '\r' ==> lines(line + "\n"@ + rest) == seq![line]
            + lines(rest),
        lines(line + "\r\n"@ + rest) == seq![line] + lines(rest),
        line.len() > 0 ==> lines(line) == seq![line],
        lines(Seq::empty()) == Seq::<Seq<char>>::empty(),
{
    reveal_strlit("\n");
    reveal_strlit("\r\n");
    let a = line + "\n"@ + rest;
    lemma_char_from(a, '\n', 0);
    assert(a[line.len() as int] == '\n');
    assert(forall|j: int| 0 <= j < line.len() ==> a[j] == line[j]);
    let ka = char_from(a, '\n', 0);
    if ka < line.len() {
        assert(line.contains(line[ka]));
    }
    assert(a.take(line.len() as int) =~= line);
    assert(a.skip(line.len() as int + 1) =~= rest);
    let b = line + "\r\n"@ + rest;
    lemma_char_from(b, '\n', 0);
    assert(b[line.len() as int] == '\r');
    assert(b[line.len() as int + 1] == '\n');
    assert(forall|j: int| 0 <= j < line.len() ==> b[j] == line[j]);
    let kb = char_from(b, '\n', 0);
    if kb < line.len() {
        assert(line.contains(line[kb]));
    }
    assert(kb == line.len() + 1);
    assert(b.take(line.len() as int + 1) =~= line.push('\r'));
    assert(line.push('\r').drop_last() =~= line);
    assert(b.skip(line.len() as int + 2) =~= rest);
    lemma_char_from(line, '\n', 0);
    let kl = char_from(line, '\n', 0);
    if kl < line.len() {
        assert(line.contains(line[kl]));
    }
}

/// A trimmed text is a part of the text with white space on both sides of it,
/// and has none at its own ends.
pub proof fn law_trimming_takes_white_space_only(s: Seq<char>)
    ensures
        exists|i: int, j: int|
            0 <= i <= j <= s.len() && #[trigger] s.subrange(i, j) == trim(s) && (forall|k: int|
                0 <= k < i ==> is_white(#[trigger] s[k])) && (forall|k: int|
                j <= k < s.len() ==> is_white(#[trigger] s[k])),
        trim(s).len() > 0 ==> !is_white(trim(s)[0]) && !is_white(trim(s).last()),
{
    let i = lemma_trim_start(s);
    let t = s.skip(i);
    let j = lemma_trim_end(t);
    assert(s.subrange(i, i + j) =~= t.take(j));
    assert(s.subrange(i, i + j) == trim(s));
    assert forall|k: int| i + j <= k < s.len() implies is_white(#[trigger] s[k]) by {
        assert(t[k - i] == s[k]);
    }
    if trim(s).len() > 0 {
        assert(trim(s)[0] == t[0]);
    }
}

proof fn lemma_trim_start(s: Seq<char>) -> (i: int)
    ensures
        0 <= i <= s.len(),
        trim_start(s) == s.skip(i),
        forall|k: int| 0 <= k < i ==> is_white(#[trigger] s[k]),
        i < s.len() ==> !is_white(s[i]),
    decreases s.len(),
{
    if s.len() > 0 && is_white(s[0]) {
        let t = s.skip(1);
        let i = lemma_trim_start(t);
        assert(t.skip(i) =~= s.skip(i + 1));
        assert forall|k: int| 0 <= k < i + 1 implies is_white(#[trigger] s[k]) by {
            if k > 0 {
                assert(t[k - 1] == s[k]);
            }
        }
        if i < t.len() {
            assert(t[i] == s[i + 1]);
        }
        i + 1
    } else {
        assert(s.skip(0) =~= s);
        0
    }
}

proof fn lemma_trim_end(s: Seq<char>) -> (j: int)
    ensures
        0 <= j <= s.len(),
        trim_end(s) == s.take(j),
        forall|k: int| j <= k < s.len() ==> is_white(#[trigger] s[k]),
        j > 0 ==> !is_white(s[j - 1]),
    decreases s.len(),
{
    if s.len() > 0 && is_white(s.last()) {
        let t = s.drop_last();
        let j = lemma_trim_end(t);
        assert(t.take(j) =~= s.take(j));
        assert forall|k: int| j <= k < s.len() implies is_white(#[trigger] s[k]) by {
            if k < t.len() {
                assert(t[k] == s[k]);
            }
        }
        j
    } else {
        assert(s.take(s.len() as int) =~= s);
        s.len() as int
    }
}

/// The usual white space is white, and no character that is printed.
pub proof fn law_usual_white_space(c: char)
    requires
        c <= '~',
    ensures
        is_white(c) <==> c == ' ' || '\t' <= c <= '\r',
{
}

/// The words of a text that is cut at white space are those of its parts; a text
/// without white space is one word, unless it is empty.
pub proof fn law_words_stand_between_white_space(a: Seq<char>, c: char, b: Seq<char>)
    requires
        is_white(c),
    ensures
        words(a + seq![c] + b) == words(a) + words(b),
        a.len() > 0 && (forall|k: int| 0 <= k < a.len() ==> !is_white(#[trigger] a[k])) ==> words(
            a,
        ) == seq![a],
    decreases a.len(),
{
    let s = a + seq![c] + b;
    if a.len() == 0 {
        assert(s[0] == c);
        assert(s.skip(1) =~= b);
        assert(words(a) + words(b) =~= words(b));
    } else if is_white(a[0]) {
        assert(s[0] == a[0]);
        assert(s.skip(1) =~= a.skip(1) + seq![c] + b);
        law_words_stand_between_white_space(a.skip(1), c, b);
    } else {
        assert(s[0] == a[0]);
        lemma_white_from(a, 0);
        lemma_white_from(s, 0);
        let k = white_from(a, 0);
        let m = white_from(s, 0);
        assert(forall|j: int| 0 <= j < a.len() ==> s[j] == a[j]);
        assert(s[a.len() as int] == c);
        if k < m {
            if k < a.len() {
                assert(is_white(s[k]));
            } else {
                assert(is_white(s[a.len() as int]));
            }
        }
        if m < k {
            assert(is_white(a[m]));
        }
        assert(k == m);
        assert(k > 0);
        assert(s.take(k) =~= a.take(k));
        assert(s.skip(k) =~= a.skip(k) + seq![c] + b);
        law_words_stand_between_white_space(a.skip(k), c, b);
        assert(words(s) =~= words(a) + words(b));
        if forall|k: int| 0 <= k < a.len() ==> !is_white(#[trigger] a[k]) {
            if k < a.len() {
                assert(is_white(a[k]));
            }
            assert(a.take(k) =~= a);
            assert(a.skip(k) =~= Seq::empty());
            assert(words(a) =~= seq![a]);
        }
    }
}

/// A number that is written in digits and read again is that number, and what is
/// read of anything but digits is no number.
pub proof fn law_written_number_is_read(n: nat, max: nat, s: Seq<char>)
    ensures
        n <= max ==> number(decimal(n), max) == Some(n),
        n > max ==> number(decimal(n), max) is None,
        (exists|i: int| 0 < i < s.len() && !('0' <= #[trigger] s[i] <= '9')) ==> number(
            s,
            max,
        ) is None,
        s.len() == 0 ==> number(s, max) is None,
{
    lemma_decimal_value(n);
    lemma_decimal_digits(n);
    lemma_decimal_not_empty(n);
    assert(decimal(n)[0] != '+');
    assert(forall|i: int| 0 <= i < decimal(n).len() ==> is_digit(#[trigger] decimal(n)[i]));
    if exists|i: int| 0 < i < s.len() && !('0' <= #[trigger] s[i] <= '9') {
        let i = choose|i: int| 0 < i < s.len() && !('0' <= #[trigger] s[i] <= '9');
        let d = unsigned(s);
        if d.len() < s.len() {
            assert(d[i - 1] == s[i]);
            assert(!is_digit(d[i - 1]));
        } else {
            assert(!is_digit(d[i]));
        }
    }
}

proof fn lemma_decimal_not_empty(n: nat)
    ensures
        decimal(n).len() > 0,
    decreases n,
{
    if n >= 10 {
        lemma_decimal_not_empty(n / 10);
    }
}

proof fn lemma_decimal_value(n: nat)
    ensures
        digits_value(decimal(n)) == n,
    decreases n,
{
    reveal_with_fuel(digits_value, 2);
    if n >= 10 {
        lemma_decimal_value(n / 10);
        assert(decimal(n).drop_last() =~= decimal(n / 10));
        assert(digit(n % 10) as u32 == '0' as u32 + n % 10);
    } else {
        assert(decimal(n).drop_last() =~= Seq::empty());
        assert(digit(n) as u32 == '0' as u32 + n);
    }
}

/// Two numbers that are written alike are the same.
pub proof fn law_decimal_tells_numbers_apart(m: nat, n: nat)
    requires
        decimal(m) == decimal(n),
    ensures
        m == n,
{
    lemma_decimal_value(m);
    lemma_decimal_value(n);
}

/// A text that is cut to a length is its start, as long as that, or the text.
pub proof fn law_cut_text_is_its_start(s: Seq<char>, n: nat)
    ensures
        first_chars(s, n).len() == if s.len() <= n {
            s.len()
        } else {
            n
        },
        forall|i: int| 0 <= i < first_chars(s, n).len() ==> first_chars(s, n)[i] == #[trigger] s[i],
{
}

/// A text starts with what it was put behind, and ends with what was put behind
/// it; both can be taken from it again, and nothing else can.
pub proof fn law_starts_and_ends(a: Seq<char>, b: Seq<char>, s: Seq<char>)
    ensures
        starts_with(a + b, a),
        ends_with(a + b, b),
        strip_prefix(a + b, a) == Some(b),
        starts_with(s, a) ==> s == a + s.skip(a.len() as int),
        ends_with(s, b) ==> s == s.take(s.len() - b.len()) + b,
        !starts_with(s, a) ==> strip_prefix(s, a) is None,
        contains(a + s + b, s),
{
    let n = a.len() as int;
    let m = b.len() as int;
    assert((a + b).take(n) =~= a);
    assert((a + b).skip(n) =~= b);
    if starts_with(s, a) {
        assert(s =~= s.take(n) + s.skip(n));
    }
    if ends_with(s, b) {
        assert(s =~= s.take(s.len() - m) + s.skip(s.len() - m));
    }
    let w = a + s + b;
    assert(w.subrange(n, n + s.len()) =~= s);
    assert(occurs_at(w, s, n));
}

/// A text is cut at the first place of a mark, or, where that is asked, before the
/// last one.
pub proof fn law_text_is_cut_at_a_mark(a: Seq<char>, mark: Seq<char>, b: Seq<char>)
    ensures
        (forall|k: int| 0 <= k < a.len() ==> !#[trigger] occurs_at(a + mark + b, mark, k))
            ==> split_once(a + mark + b, mark) == Some((a, b)),
        (forall|k: int| a.len() < k ==> !#[trigger] occurs_at(a + mark + b, mark, k))
            ==> before_last(a + mark + b, mark) == Some(a),
        (forall|k: int| !#[trigger] occurs_at(a, mark, k)) ==> split_once(a, mark) is None,
{
    let s = a + mark + b;
    let n = a.len() as int;
    let m = mark.len() as int;
    lemma_find_from(s, mark, 0);
    lemma_find_from(a, mark, 0);
    assert(s.subrange(n, n + m) =~= mark);
    assert(occurs_at(s, mark, n));
    assert(s.take(n) =~= a);
    assert(s.skip(n + m) =~= b);
    if forall|k: int| a.len() < k ==> !#[trigger] occurs_at(s, mark, k) {
        lemma_last_at(s, mark, s.len() as int, n);
    }
}

/// The bytes of a text are those of its characters: one up to the end of ASCII,
/// two up to 0x7ff, three up to 0xffff, and four behind that.
pub proof fn law_bytes_of_a_text(a: Seq<char>, b: Seq<char>, c: char)
    ensures
        utf8_len(a + b) == utf8_len(a) + utf8_len(b),
        utf8_len(seq![c]) == if (c as u32) <= 0x7f {
            1nat
        } else if (c as u32) <= 0x7ff {
            2
        } else if (c as u32) <= 0xffff {
            3
        } else {
            4
        },
    decreases b.len(),
{
    assert(seq![c].drop_last() =~= Seq::empty());
    reveal_with_fuel(utf8_len, 2);
    if b.len() == 0 {
        assert(a + b =~= a);
    } else {
        law_bytes_of_a_text(a, b.drop_last(), c);
        assert((a + b).drop_last() =~= a + b.drop_last());
    }
}

/// A character is found at the offset of the bytes before it.
pub proof fn law_character_at_an_offset(s: Seq<char>, k: int)
    requires
        0 <= k <= s.len(),
    ensures
        char_index(s, utf8_len(s.take(k))) == Some(k),
    decreases s.len(),
{
    if k == 0 {
        assert(s.take(0) =~= Seq::empty());
    } else {
        let rest = s.skip(1);
        law_character_at_an_offset(rest, k - 1);
        assert(s.take(k) =~= seq![s[0]] + rest.take(k - 1));
        law_bytes_of_a_text(seq![s[0]], rest.take(k - 1), s[0]);
        assert(seq![s[0]].drop_last() =~= Seq::empty());
        reveal_with_fuel(utf8_len, 2);
        assert(utf8_len(seq![s[0]]) == utf8_width(s[0]));
    }
}

/// A number is written with its digits, the last of which is its remainder by
/// ten.
pub proof fn law_number_is_written_by_its_digits(a: nat, d: nat)
    requires
        d < 10,
    ensures
        decimal(d) == seq![('0' as u32 + d) as char],
        a > 0 ==> decimal(a * 10 + d) == decimal(a) + decimal(d),
{
    reveal_with_fuel(decimal, 2);
    assert((a * 10 + d) / 10 == a && (a * 10 + d) % 10 == d) by (nonlinear_arith)
        requires
            d < 10,
    ;
    assert(d / 10 == 0 && d % 10 == d);
    assert(decimal(d) =~= seq![('0' as u32 + d) as char]);
    if a > 0 {
        assert(decimal(a * 10 + d) =~= decimal(a) + decimal(d));
    }
}

/// The white space of Unicode, and no other character.
pub proof fn law_all_white_space(c: char)
    ensures
        is_white(c) <==> ('\t' <= c <= '\r' || c == ' ' || c == '\u{85}' || c == '\u{a0}' || c
            == '\u{1680}' || '\u{2000}' <= c <= '\u{200a}' || c == '\u{2028}' || c == '\u{2029}' || c
            == '\u{202f}' || c == '\u{205f}' || c == '\u{3000}'),
        is_alnum(c) <==> ('0' <= c <= '9' || 'a' <= c <= 'z' || 'A' <= c <= 'Z'),
{
}

/// A number may have a plus before it; a minus, or nothing behind the plus, makes
/// it none.
pub proof fn law_sign_of_a_number(n: nat, max: nat, s: Seq<char>)
    requires
        n <= max,
    ensures
        number(seq!['+'] + decimal(n), max) == Some(n),
        number(seq!['+'], max) is None,
        number(seq!['-'] + s, max) is None,
{
    law_written_number_is_read(n, max, s);
    lemma_decimal_value(n);
    lemma_decimal_digits(n);
    lemma_decimal_not_empty(n);
    let a = seq!['+'] + decimal(n);
    assert(a.skip(1) =~= decimal(n));
    assert(forall|i: int| 0 <= i < decimal(n).len() ==> is_digit(#[trigger] decimal(n)[i]));
    assert(seq!['+'].skip(1).len() == 0);
    let b = seq!['-'] + s;
    assert(b[0] == '-');
    assert(!is_digit(b[0]));
}

} // verus!
