//! What a text mentions, and what is attached to it.
use vstd::prelude::*;

use crate::mentions::{
    after_slash, attachments_of, completions, components, dir_lines, dir_listing, expanded,
    file_body, is_known, mention_at, mention_hint, mention_of, mention_target, mention_token,
    mentions_in, named_parts, names_of, path_join, paths_of, trim_closing, with_prefix, with_slash,
    word_start, CandidateView, EntryView, MentionView,
};
use crate::order::{in_order, law_in_order_is_an_ordering, precedes};
use crate::suggest::byte_len;
use crate::text::{decimal, is_white, join, split, starts_with, strip_prefix, utf8_len};

verus! {

/// The characters that may close a sentence or a quotation.
pub open spec fn closes(c: char) -> bool {
    seq![',', '.', ';', ':', '!', '?', ')', ']', '}', '\'', '"'].contains(c)
}

proof fn lemma_closes(c: char)
    ensures
        closes(c) <==> crate::mentions::is_closing(c),
{
    let all = seq![',', '.', ';', ':', '!', '?', ')', ']', '}', '\'', '"'];
    if crate::mentions::is_closing(c) {
        assert(all[0] == ',' && all[1] == '.' && all[2] == ';' && all[3] == ':' && all[4] == '!'
            && all[5] == '?' && all[6] == ')' && all[7] == ']' && all[8] == '}' && all[9] == '\''
            && all[10] == '"');
        assert(all.contains(c));
    }
}

proof fn lemma_trim_closing(path: Seq<char>, tail: Seq<char>)
    requires
        path.len() > 0 ==> !closes(path.last()),
        forall|i: int| 0 <= i < tail.len() ==> closes(#[trigger] tail[i]),
    ensures
        trim_closing(path + tail) == path,
    decreases tail.len(),
{
    if tail.len() == 0 {
        assert(path + tail =~= path);
        if path.len() > 0 {
            lemma_closes(path.last());
        }
    } else {
        lemma_closes(tail.last());
        assert((path + tail).last() == tail.last());
        assert((path + tail).drop_last() =~= path + tail.drop_last());
        lemma_trim_closing(path, tail.drop_last());
    }
}

/// A word mentions the path behind its `@`, without the punctuation that closes
/// the sentence; a word without one, or with nothing else, mentions nothing.
pub proof fn law_word_mentions_its_path(path: Seq<char>, tail: Seq<char>, word: Seq<char>)
    requires
        path.len() > 0 ==> !closes(path.last()),
        forall|i: int| 0 <= i < tail.len() ==> closes(#[trigger] tail[i]),
    ensures
        mention_of(seq!['@'] + path + tail) == if path.len() > 0 {
            Some(path)
        } else {
            None
        },
        word.len() == 0 || word[0] != '@' ==> mention_of(word) is None,
{
    lemma_trim_closing(path, tail);
    assert((seq!['@'] + path + tail).skip(1) =~= path + tail);
}

/// The mentions of a text are those of its words, in their order.
pub proof fn law_mentions_are_those_of_the_words(
    a: Seq<Seq<char>>,
    b: Seq<Seq<char>>,
    word: Seq<char>,
)
    ensures
        mentions_in(a + b) == mentions_in(a) + mentions_in(b),
        mentions_in(seq![word]) == match mention_of(word) {
            Some(m) => seq![m],
            None => Seq::empty(),
        },
    decreases b.len(),
{
    assert(seq![word].drop_last() =~= Seq::empty());
    reveal_with_fuel(mentions_in, 2);
    assert(mentions_in(seq![word]) =~= match mention_of(word) {
        Some(m) => seq![m],
        None => Seq::empty(),
    });
    if b.len() == 0 {
        assert(a + b =~= a);
        assert(mentions_in(a) + mentions_in(b) =~= mentions_in(a));
    } else {
        law_mentions_are_those_of_the_words(a, b.drop_last(), word);
        assert((a + b).drop_last() =~= a + b.drop_last());
        assert(mentions_in(a + b) =~= mentions_in(a) + mentions_in(b));
    }
}

/// A path that starts at the root stands for itself; any other stands below the
/// directory, behind one slash.
pub proof fn law_path_below_a_directory(base: Seq<char>, rest: Seq<char>)
    ensures
        path_join(base, seq!['/'] + rest) == seq!['/'] + rest,
        rest.len() == 0 || rest[0] != '/' ==> path_join(base + seq!['/'], rest) == base + seq!['/']
            + rest,
        (rest.len() == 0 || rest[0] != '/') && base.len() > 0 && base.last() != '/' ==> path_join(
            base,
            rest,
        ) == base + seq!['/'] + rest,
        rest.len() == 0 || rest[0] != '/' ==> path_join(Seq::empty(), rest) == rest,
{
    reveal_strlit("/");
    assert("/"@ =~= seq!['/']);
    assert((seq!['/'] + rest)[0] == '/');
    assert((base + seq!['/']).last() == '/');
    assert(Seq::<char>::empty() + rest =~= rest);
}

/// A tilde stands for the home directory; without one, what it starts stands for
/// nothing. All else stands below the working directory.
pub proof fn law_tilde_is_the_home(
    rest: Seq<char>,
    home: Option<Seq<char>>,
    dir: Seq<char>,
    token: Seq<char>,
)
    ensures
        mention_target(seq!['~', '/'] + rest, home, dir) == match home {
            Some(h) => Some(path_join(h, rest)),
            None => None,
        },
        mention_target(seq!['~'], home, dir) == home,
        token.len() == 0 || token[0] != '~' ==> mention_target(token, home, dir) == Some(
            path_join(dir, token),
        ),
{
    reveal_strlit("~/");
    reveal_strlit("~");
    assert("~/"@ =~= seq!['~', '/']);
    assert("~"@ =~= seq!['~']);
    let t = seq!['~', '/'] + rest;
    assert(t.take(2) =~= "~/"@);
    assert(t.skip(2) =~= rest);
    if starts_with(token, "~/"@) {
        assert(token.take(2)[0] == '~');
    }
}

/// Directories and the rest are told apart, each in its order.
pub proof fn law_names_by_kind(a: Seq<EntryView>, b: Seq<EntryView>, e: EntryView, dirs: bool)
    ensures
        names_of(a + b, dirs) == names_of(a, dirs) + names_of(b, dirs),
        names_of(seq![e], dirs) == if e.is_dir == dirs {
            seq![e.name]
        } else {
            Seq::empty()
        },
    decreases b.len(),
{
    assert(seq![e].drop_last() =~= Seq::empty());
    reveal_with_fuel(names_of, 2);
    assert(names_of(seq![e], dirs) =~= if e.is_dir == dirs {
        seq![e.name]
    } else {
        Seq::empty()
    });
    if b.len() == 0 {
        assert(a + b =~= a);
        assert(names_of(a, dirs) + names_of(b, dirs) =~= names_of(a, dirs));
    } else {
        law_names_by_kind(a, b.drop_last(), e, dirs);
        assert((a + b).drop_last() =~= a + b.drop_last());
        assert(names_of(a + b, dirs) =~= names_of(a, dirs) + names_of(b, dirs));
    }
}

/// A directory is shown by its directories, each with a slash, and behind them by
/// all else; of many, by the first two hundred.
pub proof fn law_directory_is_shown(entries: Seq<EntryView>)
    ensures
        ({
            let dirs = names_of(entries, true);
            let n = dirs.len() as int;
            let lines = dir_lines(entries);
            &&& lines.len() == n + names_of(entries, false).len()
            &&& lines.subrange(0, n).to_multiset() == dirs.map_values(
                |s: Seq<char>| s + seq!['/'],
            ).to_multiset()
            &&& lines.skip(n).to_multiset() == names_of(entries, false).to_multiset()
            &&& entries.len() == 0 ==> dir_listing(entries) == "(empty)"@
            &&& lines.len() > 0 && lines.len() <= 200 ==> dir_listing(entries) == join(
                lines,
                "\n"@,
            )
            &&& lines.len() > 200 ==> dir_listing(entries) == join(lines.take(200), "\n"@)
        }),
{
    reveal_strlit("/");
    assert("/"@ =~= seq!['/']);
    let dirs = names_of(entries, true);
    let slashed = dirs.map_values(|s: Seq<char>| with_slash(s));
    assert(slashed =~= dirs.map_values(|s: Seq<char>| s + seq!['/']));
    law_in_order_is_an_ordering(slashed, false);
    law_in_order_is_an_ordering(names_of(entries, false), false);
    let lines = dir_lines(entries);
    let n = dirs.len() as int;
    assert(lines.subrange(0, n) =~= in_order(slashed, false));
    assert(lines.skip(n) =~= in_order(names_of(entries, false), false));
    assert(lines.subrange(0, 200) =~= lines.take(200));
}

/// A file is attached as it is, up to a hundred thousand characters; of a longer
/// one the first are, with a word on how many there are.
pub proof fn law_file_is_attached(content: Seq<char>)
    ensures
        content.len() <= 100_000 ==> file_body(content) == content,
        content.len() > 100_000 ==> file_body(content) == content.take(100_000)
            + "\n... (truncated to the first 100000 of "@ + decimal(content.len())
            + " characters)"@,
{
}

proof fn lemma_named_parts(parts: Seq<Seq<char>>, k: int)
    requires
        0 < k < parts.len(),
        parts[k].len() == 0 || parts[k] == "."@,
    ensures
        named_parts(parts) == named_parts(parts.remove(k)),
    decreases parts.len(),
{
    if k == parts.len() - 1 {
        assert(parts.remove(k) =~= parts.drop_last());
    } else {
        lemma_named_parts(parts.drop_last(), k);
        assert(parts.drop_last().remove(k) =~= parts.remove(k).drop_last());
        assert(parts.remove(k).last() == parts.last());
        if parts.remove(k).len() == 1 {
            assert(k == 0);
        }
    }
}

/// Of the parts of a path, an empty one or a dot behind the first makes no
/// difference; all others do.
pub proof fn law_empty_parts_make_no_difference(
    parts: Seq<Seq<char>>,
    k: int,
    plain: Seq<Seq<char>>,
)
    requires
        0 < k < parts.len(),
        parts[k].len() == 0 || parts[k] == "."@,
        forall|i: int|
            0 <= i < plain.len() ==> (#[trigger] plain[i]).len() > 0 && plain[i] != "."@,
    ensures
        named_parts(parts) == named_parts(parts.remove(k)),
        named_parts(plain) == plain,
    decreases plain.len(),
{
    lemma_named_parts(parts, k);
    if plain.len() > 0 {
        law_empty_parts_make_no_difference(parts, k, plain.drop_last());
        assert(plain =~= plain.drop_last().push(plain.last()));
    }
}

/// A path that no earlier mention has is attached behind what is there already.
pub proof fn law_new_path_is_attached(ms: Seq<MentionView>, m: MentionView, text: Seq<char>)
    requires
        forall|i: int|
            0 <= i < ms.len() ==> components((#[trigger] ms[i]).path) != components(m.path),
    ensures
        attachments_of(ms.push(m)) == match m.attachment {
            Some(a) => attachments_of(ms).push(a),
            None => attachments_of(ms),
        },
        attachments_of(ms).len() > 0 ==> expanded(text, ms) == text
            + "\n\n---\nAttached via @mention:\n\n"@ + join(attachments_of(ms), "\n\n"@),
{
    assert(ms.push(m).drop_last() =~= ms);
    if is_known(m.path, paths_of(ms)) {
        let i = choose|i: int|
            0 <= i < paths_of(ms).len() && components(#[trigger] paths_of(ms)[i]) == components(
                m.path,
            );
        assert(components(ms[i].path) == components(m.path));
    }
}

proof fn lemma_word_start(s: Seq<char>, start: int, k: int)
    requires
        0 <= start <= k <= s.len(),
        start == 0 || is_white(s[start - 1]),
        forall|i: int| start <= i < k ==> !is_white(#[trigger] s[i]),
    ensures
        word_start(s, k) == start,
    decreases k,
{
    if start < k {
        lemma_word_start(s, start, k - 1);
    }
}

/// A cursor sits in the mention whose word runs up to it: what stands between the
/// `@` and the cursor is what was typed of it.
pub proof fn law_cursor_sits_in_its_word(s: Seq<char>, start: int, k: int)
    requires
        0 <= start <= k <= s.len(),
        start == 0 || is_white(s[start - 1]),
        forall|i: int| start <= i < k ==> !is_white(#[trigger] s[i]),
    ensures
        mention_at(s, k) == if start < k && s[start] == '@' {
            Some((start, s.subrange(start + 1, k)))
        } else {
            None
        },
{
    lemma_word_start(s, start, k);
}

proof fn lemma_after_slash(s: Seq<char>, n: int, i: int)
    requires
        0 <= n <= i <= s.len(),
        n == 0 || s[n - 1] == '/',
        forall|j: int| n <= j < i ==> #[trigger] s[j] != '/',
    ensures
        after_slash(s, i) == n,
    decreases i,
{
    if n < i {
        lemma_after_slash(s, n, i - 1);
    }
}

/// Names are those that start with what was typed, each in its place.
pub proof fn law_names_with_a_start(
    a: Seq<Seq<char>>,
    b: Seq<Seq<char>>,
    name: Seq<char>,
    start: Seq<char>,
)
    ensures
        with_prefix(a + b, start) == with_prefix(a, start) + with_prefix(b, start),
        with_prefix(seq![name], start) == if start.len() <= name.len() && name.take(
            start.len() as int,
        ) == start {
            seq![name]
        } else {
            Seq::empty()
        },
    decreases b.len(),
{
    assert(seq![name].drop_last() =~= Seq::empty());
    reveal_with_fuel(with_prefix, 2);
    assert(with_prefix(seq![name], start) =~= if starts_with(name, start) {
        seq![name]
    } else {
        Seq::empty()
    });
    if b.len() == 0 {
        assert(a + b =~= a);
        assert(with_prefix(a, start) + with_prefix(b, start) =~= with_prefix(a, start));
    } else {
        law_names_with_a_start(a, b.drop_last(), name, start);
        assert((a + b).drop_last() =~= a + b.drop_last());
        assert(with_prefix(a + b, start) =~= with_prefix(a, start) + with_prefix(b, start));
    }
}

/// What completes a mention: the directories that start with what was typed
/// behind the last slash, then the other entries, at most a hundred. What takes
/// the place of the word keeps the directory that was typed.
pub proof fn law_completions_complete(
    dir: Seq<char>,
    typed: Seq<char>,
    entries: Seq<EntryView>,
    i: int,
)
    requires
        dir.len() == 0 || dir.last() == '/',
        forall|j: int| 0 <= j < typed.len() ==> #[trigger] typed[j] != '/',
        0 <= i < completions(dir + typed, entries).len(),
    ensures
        ({
            let cs = completions(dir + typed, entries);
            let dirs = in_order(with_prefix(names_of(entries, true), typed), false);
            let rest = in_order(with_prefix(names_of(entries, false), typed), false);
            &&& cs.len() == if dirs.len() + rest.len() > 100 {
                100
            } else {
                dirs.len() + rest.len()
            }
            &&& cs[i].display == if i < dirs.len() {
                dirs[i] + seq!['/']
            } else {
                rest[i - dirs.len()]
            }
            &&& cs[i].replacement == seq!['@'] + dir + cs[i].display
        }),
{
    reveal_strlit("/");
    reveal_strlit("@");
    assert("/"@ =~= seq!['/']);
    assert("@"@ =~= seq!['@']);
    let p = dir + typed;
    let n = dir.len() as int;
    lemma_after_slash(p, n, p.len() as int);
    assert(p.subrange(n, p.len() as int) =~= typed);
    assert(p.subrange(0, n) =~= dir);
}

/// The only completion is shown by what is left to type of it; several are shown
/// by their names; what is typed in full needs none.
pub proof fn law_hint_is_what_is_left(
    typed: Seq<char>,
    rest: Seq<char>,
    shown: Seq<char>,
    cs: Seq<CandidateView>,
)
    ensures
        mention_hint(
            typed,
            seq![CandidateView { display: shown, replacement: seq!['@'] + typed + rest }],
        ) == if rest.len() > 0 {
            Some((rest, byte_len(rest)))
        } else {
            None
        },
        cs.len() == 0 ==> mention_hint(typed, cs) is None,
        cs.len() > 1 ==> (mention_hint(typed, cs) matches Some((text, n)) && n == 0 && text == "  "@
            + join(cs.map_values(|c: CandidateView| c.display), "  "@)),
{
    reveal_strlit("@");
    assert("@"@ =~= seq!['@']);
    let whole = seq!['@'] + typed + rest;
    assert(whole.take(1) =~= "@"@);
    assert(whole.skip(1) =~= typed + rest);
    assert((typed + rest).take(typed.len() as int) =~= typed);
    assert((typed + rest).skip(typed.len() as int) =~= rest);
    assert(strip_prefix(whole, "@"@) == Some(typed + rest));
    assert(strip_prefix(typed + rest, typed) == Some(rest));
}

/// The mention at an offset in bytes is the one at the character there.
pub proof fn law_mention_at_an_offset(s: Seq<char>, k: int)
    requires
        0 <= k <= s.len(),
    ensures
        mention_token(s, utf8_len(s.take(k))) == match mention_at(s, k) {
            Some((start, typed)) => Some((utf8_len(s.take(start)), typed)),
            None => None,
        },
{
    crate::text_laws::law_character_at_an_offset(s, k);
}

/// The components of a path are its parts between slashes, behind the root where
/// it starts there.
pub proof fn law_components_of_a_path(path: Seq<char>)
    ensures
        path.len() > 0 && path[0] == '/' ==> components(path) == seq!["/"@] + named_parts(
            split(path, '/'),
        ),
        path.len() == 0 || path[0] != '/' ==> components(path) == named_parts(split(path, '/')),
{
    reveal_strlit("/");
    assert("/"@ =~= seq!['/']);
    if path.len() > 0 && path[0] == '/' {
        assert(path.take(1) =~= "/"@);
    }
    if starts_with(path, "/"@) {
        assert(path.take(1)[0] == '/');
    }
}

/// A dot at the start of a path is a part of it.
pub proof fn law_dot_at_the_start_counts(plain: Seq<Seq<char>>)
    requires
        forall|i: int|
            0 <= i < plain.len() ==> (#[trigger] plain[i]).len() > 0 && plain[i] != "."@,
    ensures
        named_parts(seq!["."@] + plain) == seq!["."@] + plain,
    decreases plain.len(),
{
    reveal_strlit(".");
    assert("."@.len() == 1);
    let parts = seq!["."@] + plain;
    if plain.len() == 0 {
        assert(parts =~= seq!["."@]);
        assert(parts.drop_last() =~= Seq::empty());
        reveal_with_fuel(named_parts, 2);
        assert(named_parts(parts) =~= parts);
    } else {
        law_dot_at_the_start_counts(plain.drop_last());
        assert(parts.drop_last() =~= seq!["."@] + plain.drop_last());
        assert(parts.last() == plain.last());
        assert(parts =~= parts.drop_last().push(parts.last()));
    }
}

/// The directories of a listing stand in order, and so do the other entries.
pub proof fn law_directory_is_shown_in_order(entries: Seq<EntryView>, i: int, j: int)
    requires
        0 <= i < j < dir_lines(entries).len(),
        j < names_of(entries, true).len() || i >= names_of(entries, true).len(),
    ensures
        !precedes(dir_lines(entries)[j], dir_lines(entries)[i], false),
{
    let dirs = names_of(entries, true);
    let slashed = dirs.map_values(|s: Seq<char>| with_slash(s));
    law_in_order_is_an_ordering(slashed, false);
    law_in_order_is_an_ordering(names_of(entries, false), false);
    let a = in_order(slashed, false);
    let b = in_order(names_of(entries, false), false);
    let n = dirs.len() as int;
    if j < n {
        assert(!precedes(a[j], a[i], false));
    } else {
        assert(!precedes(b[j - n], b[i - n], false));
    }
}

} // verus!
