//! The file of lines that were entered before.
//!
//! It starts with a version line. Each further line is one entry, in which a
//! backslash and a line feed are escaped.
use vstd::prelude::*;

use crate::model::{group_views, views};
use crate::text::{char_from, chars_of, lemma_char_from, lines, lines_of, same, without_return};

verus! {

broadcast use group_views;

/// `s` with backslashes and line feeds escaped.
pub open spec fn escaped(s: Seq<char>) -> Seq<char>
    decreases s.len(),
{
    if s.len() == 0 {
        Seq::empty()
    } else {
        let rest = escaped(s.skip(1));
        if s[0] == '\\' {
            seq!['\\', '\\'] + rest
        } else if s[0] == '\n' {
            seq!['\\', 'n'] + rest
        } else {
            seq![s[0]] + rest
        }
    }
}

/// What an escaped text stands for. A backslash before another character than
/// these two, or at the end, stands for itself.
pub open spec fn unescaped(s: Seq<char>) -> Seq<char>
    decreases s.len(),
{
    if s.len() == 0 {
        Seq::empty()
    } else if s[0] != '\\' {
        seq![s[0]] + unescaped(s.skip(1))
    } else if s.len() == 1 {
        seq!['\\']
    } else {
        let rest = unescaped(s.skip(2));
        if s[1] == 'n' {
            seq!['\n'] + rest
        } else if s[1] == '\\' {
            seq!['\\'] + rest
        } else {
            seq!['\\', s[1]] + rest
        }
    }
}

/// Escapes backslashes and line feeds.
pub fn escape_history_line(line: &str) -> (r: String)
    ensures
        r@ == escaped(line@),
{
    let v = chars_of(line);
    let mut r = String::new();
    assert(v@.skip(0) == v@);
    for i in 0..v.len()
        invariant
            v@ == line@,
            r@ + escaped(v@.skip(i as int)) == escaped(line@),
    {
        let ghost before = r@;
        let ghost rest = escaped(v@.skip(i + 1));
        assert(v@.skip(i as int).skip(1) == v@.skip(i + 1));
        let c = v[i];
        if c == '\\' {
            r.push('\\');
            r.push('\\');
            assert(before + (seq!['\\', '\\'] + rest) == r@ + rest);
        } else if c == '\n' {
            r.push('\\');
            r.push('n');
            assert(before + (seq!['\\', 'n'] + rest) == r@ + rest);
        } else {
            r.push(c);
            assert(before + (seq![c] + rest) == r@ + rest);
        }
    }
    assert(r@ + escaped(v@.skip(v@.len() as int)) == r@);
    r
}

/// Undoes the escaping of a line.
pub fn unescape_history_line(line: &str) -> (r: String)
    ensures
        r@ == unescaped(line@),
{
    let v = chars_of(line);
    let n: usize = v.len();
    let mut r = String::new();
    let mut i: usize = 0;
    assert(v@.skip(0) == v@);
    while i < n
        invariant
            n == v@.len(),
            i <= n,
            v@ == line@,
            r@ + unescaped(v@.skip(i as int)) == unescaped(line@),
        decreases n - i,
    {
        let ghost before = r@;
        let ghost s = v@.skip(i as int);
        let c = v[i];
        if c != '\\' {
            r.push(c);
            assert(s.skip(1) == v@.skip(i + 1));
            assert(before + (seq![c] + unescaped(v@.skip(i + 1))) == r@ + unescaped(
                v@.skip(i + 1),
            ));
            i += 1;
        } else if i + 1 == n {
            r.push('\\');
            assert(before + seq!['\\'] == r@ + unescaped(v@.skip(i + 1)));
            i += 1;
        } else {
            let d = v[i + 1];
            let ghost rest = unescaped(v@.skip(i + 2));
            assert(s.skip(2) == v@.skip(i + 2));
            if d == 'n' {
                r.push('\n');
                assert(before + (seq!['\n'] + rest) == r@ + rest);
            } else if d == '\\' {
                r.push('\\');
                assert(before + (seq!['\\'] + rest) == r@ + rest);
            } else {
                r.push('\\');
                r.push(d);
                assert(before + (seq!['\\', d] + rest) == r@ + rest);
            }
            i += 2;
        }
    }
    assert(r@ + unescaped(v@.skip(n as int)) == r@);
    r
}

/// What stands in the first line of the file.
pub open spec fn version_line() -> Seq<char> {
    "#V2"@
}

/// The entries that some lines hold; empty lines hold none.
pub open spec fn entries_in(ls: Seq<Seq<char>>) -> Seq<Seq<char>>
    decreases ls.len(),
{
    if ls.len() == 0 {
        Seq::empty()
    } else if ls[0].len() == 0 {
        entries_in(ls.skip(1))
    } else {
        seq![unescaped(ls[0])] + entries_in(ls.skip(1))
    }
}

/// The entries of a history file; the version line may be missing.
pub open spec fn history_of(contents: Seq<char>) -> Seq<Seq<char>> {
    let ls = lines(contents);
    if ls.len() > 0 && ls[0] == version_line() {
        entries_in(ls.skip(1))
    } else {
        entries_in(ls)
    }
}

/// Reads the entries of a history file.
pub fn load_history(contents: &str) -> (r: Vec<String>)
    ensures
        views(r@) == history_of(contents@),
{
    let ls = lines_of(contents);
    let ghost all = views(ls@);
    let n: usize = ls.len();
    let start: usize = if n > 0 && same(ls[0].as_str(), "#V2") {
        1
    } else {
        0
    };
    let mut r: Vec<String> = Vec::new();
    let ghost wanted = history_of(contents@);
    assert(all.skip(0) == all);
    assert(views(r@) + entries_in(all.skip(start as int)) == wanted);
    for i in start..n
        invariant
            n == ls@.len(),
            start <= n,
            all == views(ls@),
            views(r@) + entries_in(all.skip(i as int)) == wanted,
    {
        let ghost before = views(r@);
        assert(all.skip(i as int).skip(1) == all.skip(i + 1));
        if ls[i].as_str().unicode_len() > 0 {
            let entry = unescape_history_line(ls[i].as_str());
            r.push(entry);
            assert(before + (seq![entry@] + entries_in(all.skip(i + 1))) == before.push(entry@)
                + entries_in(all.skip(i + 1)));
        }
    }
    assert(views(r@) + entries_in(all.skip(n as int)) == views(r@));
    r
}

/// What is written for an entry: a new file gets the version line first.
pub open spec fn history_record(line: Seq<char>, new_file: bool) -> Seq<char> {
    let record = escaped(line) + seq!['\n'];
    if new_file {
        version_line() + seq!['\n'] + record
    } else {
        record
    }
}

/// What to append to the history file for an entry.
pub fn append_history(line: &str, new_file: bool) -> (r: String)
    ensures
        r@ == history_record(line@, new_file),
{
    let mut r = String::new();
    if new_file {
        r.append("#V2");
        r.push('\n');
    }
    let ghost head = r@;
    r.append(escape_history_line(line).as_str());
    r.push('\n');
    assert(new_file ==> head =~= version_line() + seq!['\n']);
    assert(r@ =~= head + (escaped(line@) + seq!['\n']));
    r
}

/// Reading back an escaped text gives the text.
pub proof fn law_unescaping_undoes_escaping(s: Seq<char>)
    ensures
        unescaped(escaped(s)) == s,
    decreases s.len(),
{
    if s.len() > 0 {
        law_unescaping_undoes_escaping(s.skip(1));
        let rest = escaped(s.skip(1));
        let e = escaped(s);
        if s[0] == '\\' || s[0] == '\n' {
            assert(e.skip(2) =~= rest);
        } else {
            assert(e.skip(1) =~= rest);
        }
        assert(seq![s[0]] + s.skip(1) =~= s);
    }
}

proof fn lemma_escaped(s: Seq<char>)
    ensures
        forall|i: int| 0 <= i < escaped(s).len() ==> escaped(s)[i] != '\n',
        s.len() > 0 ==> escaped(s).len() > 0,
        s.len() > 0 && s.last() != '\r' ==> escaped(s).last() != '\r',
    decreases s.len(),
{
    if s.len() > 0 {
        lemma_escaped(s.skip(1));
        if s.len() == 1 {
            assert(escaped(s.skip(1)) =~= Seq::empty());
        } else {
            assert(s.skip(1).last() == s.last());
        }
    }
}

/// The first line of a text whose first line feed stands behind `line`.
proof fn lemma_first_line(line: Seq<char>, rest: Seq<char>)
    requires
        forall|i: int| 0 <= i < line.len() ==> line[i] != '\n',
    ensures
        lines(line + seq!['\n'] + rest) == seq![without_return(line)] + lines(rest),
{
    let s = line + seq!['\n'] + rest;
    let k = char_from(s, '\n', 0);
    lemma_char_from(s, '\n', 0);
    assert(s[line.len() as int] == '\n');
    if k < line.len() {
        assert(s[k] == line[k]);
    }
    assert(k == line.len());
    assert(s.take(k) =~= line);
    assert(s.skip(k + 1) =~= rest);
}

/// What the records of some entries make of a file that has others already.
pub open spec fn records(entries: Seq<Seq<char>>) -> Seq<char>
    decreases entries.len(),
{
    if entries.len() == 0 {
        Seq::empty()
    } else {
        history_record(entries[0], false) + records(entries.skip(1))
    }
}

/// A history file with some entries.
pub open spec fn history_file(entries: Seq<Seq<char>>) -> Seq<char> {
    if entries.len() == 0 {
        Seq::empty()
    } else {
        history_record(entries[0], true) + records(entries.skip(1))
    }
}

proof fn lemma_records(entries: Seq<Seq<char>>)
    requires
        forall|i: int|
            0 <= i < entries.len() ==> (#[trigger] entries[i]).len() > 0 && entries[i].last()
                != '\r',
    ensures
        entries_in(lines(records(entries))) == entries,
    decreases entries.len(),
{
    if entries.len() > 0 {
        let first = entries[0];
        let tail = entries.skip(1);
        lemma_escaped(first);
        lemma_first_line(escaped(first), records(tail));
        lemma_records(tail);
        law_unescaping_undoes_escaping(first);
        let ls = lines(records(entries));
        assert(ls[0] == escaped(first));
        assert(ls.skip(1) =~= lines(records(tail)));
        assert(seq![first] + tail =~= entries);
    }
}

/// What is entered is what a later start reads back: each entry, in order. An
/// entry is a line that was trimmed, so it is not empty and does not end in a
/// carriage return.
pub proof fn law_history_is_read_back(entries: Seq<Seq<char>>)
    requires
        forall|i: int|
            0 <= i < entries.len() ==> (#[trigger] entries[i]).len() > 0 && entries[i].last()
                != '\r',
    ensures
        history_of(history_file(entries)) == entries,
{
    if entries.len() > 0 {
        lemma_records(entries);
        reveal_strlit("#V2");
        lemma_first_line(version_line(), records(entries));
        assert(history_file(entries) =~= version_line() + seq!['\n'] + records(entries));
        let ls = lines(history_file(entries));
        assert(ls[0] == version_line());
        assert(ls.skip(1) =~= lines(records(entries)));
    }
}

} // verus!
