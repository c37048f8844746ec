//! `@path` mentions: files and directories whose contents are attached to a
//! prompt.
use vstd::prelude::*;

use crate::model::{group_views, opt_view, views};
use crate::order::{in_order, sort_texts};
use crate::suggest::byte_len;
use crate::text::{
    char_index, chars_of, decimal, decimal_text, first_chars, has_prefix, index_of_byte,
    is_white, join, joined, same, split, split_at_char, starts_with, strip_prefix, take_chars,
    text_range, utf8_len, white, width_in_bytes, without_prefix, words, words_of,
};

verus! {

broadcast use group_views;

/// How many characters of a file are attached.
pub const MAX_MENTION_FILE_CHARS: usize = 100_000;

/// How many entries of a directory are attached.
pub const MAX_DIR_ENTRIES: usize = 200;

/// How many completions are offered.
pub const MAX_COMPLETIONS: usize = 100;

// ---------------------------------------------------------------------------
// Which words are mentions
// ---------------------------------------------------------------------------

/// Punctuation that may end a sentence or a quotation.
pub open spec fn is_closing(c: char) -> bool {
    c == ',' || c == '.' || c == ';' || c == ':' || c == '!' || c == '?' || c == ')' || c == ']'
        || c == '}' || c == '\'' || c == '"'
}

fn closing(c: char) -> (r: bool)
    ensures
        r == is_closing(c),
{
    c == ',' || c == '.' || c == ';' || c == ':' || c == '!' || c == '?' || c == ')' || c == ']'
        || c == '}' || c == '\'' || c == '"'
}

/// `s` without closing punctuation at its end.
pub open spec fn trim_closing(s: Seq<char>) -> Seq<char>
    decreases s.len(),
{
    if s.len() > 0 && is_closing(s.last()) {
        trim_closing(s.drop_last())
    } else {
        s
    }
}

/// The path that a word mentions.
pub open spec fn mention_of(word: Seq<char>) -> Option<Seq<char>> {
    if word.len() > 0 && word[0] == '@' && trim_closing(word.skip(1)).len() > 0 {
        Some(trim_closing(word.skip(1)))
    } else {
        None
    }
}

/// The mentions among some words.
pub open spec fn mentions_in(ws: Seq<Seq<char>>) -> Seq<Seq<char>>
    decreases ws.len(),
{
    if ws.len() == 0 {
        Seq::empty()
    } else {
        let rest = mentions_in(ws.drop_last());
        match mention_of(ws.last()) {
            Some(m) => rest.push(m),
            None => rest,
        }
    }
}

fn mention_in_word(word: &str) -> (r: Option<String>)
    ensures
        opt_view(r) == mention_of(word@),
{
    let v = chars_of(word);
    if v.len() == 0 || v[0] != '@' {
        return None;
    }
    let mut j: usize = v.len();
    let ghost tail = v@.skip(1);
    assert(tail.take(j - 1) == tail);
    while j > 1 && closing(v[j - 1])
        invariant
            1 <= j <= v@.len(),
            tail == v@.skip(1),
            trim_closing(tail) == trim_closing(tail.take(j - 1)),
        decreases j,
    {
        assert(tail.take(j - 1).drop_last() == tail.take(j - 2));
        assert(tail.take(j - 1).last() == v@[j - 1]);
        j -= 1;
    }
    assert(j > 1 ==> tail.take(j - 1).last() == v@[j - 1]);
    if j == 1 {
        return None;
    }
    assert(v@.subrange(1, j as int) == tail.take(j - 1));
    Some(text_range(&v, 1, j))
}

/// The words with an `@` before them, without it and without closing
/// punctuation.
pub fn mention_tokens(text: &str) -> (r: Vec<String>)
    ensures
        views(r@) == mentions_in(words(text@)),
{
    let ws = words_of(text);
    let ghost all = views(ws@);
    let mut r: Vec<String> = Vec::new();
    for i in 0..ws.len()
        invariant
            all == views(ws@),
            views(r@) == mentions_in(all.take(i as int)),
    {
        assert(all.take(i + 1).drop_last() == all.take(i as int));
        if let Some(m) = mention_in_word(ws[i].as_str()) {
            r.push(m);
        }
    }
    assert(all.take(all.len() as int) == all);
    r
}

// ---------------------------------------------------------------------------
// Paths
// ---------------------------------------------------------------------------

/// A path below another one; an absolute path stays what it is.
pub open spec fn path_join(base: Seq<char>, rest: Seq<char>) -> Seq<char> {
    if rest.len() > 0 && rest[0] == '/' {
        rest
    } else if base.len() == 0 || base.last() == '/' {
        base + rest
    } else {
        base + "/"@ + rest
    }
}

/// A path below another one.
pub fn join_path(base: &str, rest: &str) -> (r: String)
    ensures
        r@ == path_join(base@, rest@),
{
    let b = chars_of(base);
    let t = chars_of(rest);
    if t.len() > 0 && t[0] == '/' {
        return rest.to_owned();
    }
    let mut r = base.to_owned();
    if b.len() > 0 && b[b.len() - 1] != '/' {
        r.append("/");
    }
    r.append(rest);
    r
}

/// The path that a mention stands for: below the home directory behind a
/// tilde, else below the working directory.
pub open spec fn mention_target(
    token: Seq<char>,
    home: Option<Seq<char>>,
    working_dir: Seq<char>,
) -> Option<Seq<char>> {
    match strip_prefix(token, "~/"@) {
        Some(rest) => match home {
            Some(h) => Some(path_join(h, rest)),
            None => None,
        },
        None => if token == "~"@ {
            home
        } else {
            Some(path_join(working_dir, token))
        },
    }
}

/// The path that a mention stands for. Whether there is something is for the
/// caller to find out.
pub fn mention_path(token: &str, home: &Option<String>, working_dir: &str) -> (r: Option<String>)
    ensures
        opt_view(r) == mention_target(token@, opt_view(*home), working_dir@),
{
    match without_prefix(token, "~/") {
        Some(rest) => match home {
            Some(h) => Some(join_path(h.as_str(), rest.as_str())),
            None => None,
        },
        None => if crate::text::same(token, "~") {
            match home {
                Some(h) => Some(h.clone()),
                None => None,
            }
        } else {
            Some(join_path(working_dir, token))
        },
    }
}

// ---------------------------------------------------------------------------
// Attachments
// ---------------------------------------------------------------------------

/// An entry of a directory.
pub struct Entry {
    pub is_dir: bool,
    pub name: String,
}

#[verifier::ext_equal]
pub struct EntryView {
    pub is_dir: bool,
    pub name: Seq<char>,
}

impl View for Entry {
    type V = EntryView;

    open spec fn view(&self) -> EntryView {
        EntryView { is_dir: self.is_dir, name: self.name@ }
    }
}

/// The names of the directories, or of the others, among some entries.
pub open spec fn names_of(entries: Seq<EntryView>, dirs: bool) -> Seq<Seq<char>>
    decreases entries.len(),
{
    if entries.len() == 0 {
        Seq::empty()
    } else {
        let rest = names_of(entries.drop_last(), dirs);
        if entries.last().is_dir == dirs {
            rest.push(entries.last().name)
        } else {
            rest
        }
    }
}

/// The names of the directories, or of the others.
pub fn select_names(entries: &Vec<Entry>, dirs: bool) -> (r: Vec<String>)
    ensures
        views(r@) == names_of(views(entries@), dirs),
{
    let mut r: Vec<String> = Vec::new();
    let ghost all = views(entries@);
    for i in 0..entries.len()
        invariant
            all == views(entries@),
            views(r@) == names_of(all.take(i as int), dirs),
    {
        assert(all.take(i + 1).drop_last() == all.take(i as int));
        if entries[i].is_dir == dirs {
            r.push(entries[i].name.clone());
        }
    }
    assert(all.take(all.len() as int) == all);
    r
}

/// The first `n` of a list.
pub open spec fn first_of(s: Seq<Seq<char>>, n: nat) -> Seq<Seq<char>> {
    if s.len() <= n {
        s
    } else {
        s.subrange(0, n as int)
    }
}

fn keep_first(v: Vec<String>, n: usize) -> (r: Vec<String>)
    ensures
        views(r@) == first_of(views(v@), n as nat),
{
    let mut v = v;
    if v.len() > n {
        v.truncate(n);
    }
    v
}

/// `s` with a slash behind it.
pub open spec fn with_slash(s: Seq<char>) -> Seq<char> {
    s + "/"@
}

fn with_slashes(v: &Vec<String>) -> (r: Vec<String>)
    ensures
        views(r@) == views(v@).map_values(|s: Seq<char>| with_slash(s)),
{
    let mut r: Vec<String> = Vec::new();
    for i in 0..v.len()
        invariant
            r@.len() == i,
            forall|k: int| 0 <= k < i ==> (#[trigger] r@[k])@ == with_slash(v@[k]@),
    {
        let mut s = v[i].clone();
        s.append("/");
        r.push(s);
    }
    assert(views(r@) =~= views(v@).map_values(|s: Seq<char>| with_slash(s)));
    r
}

/// The lines of a directory listing: directories first, each with a slash
/// behind it, then the rest, each kind in order.
pub open spec fn dir_lines(entries: Seq<EntryView>) -> Seq<Seq<char>> {
    in_order(names_of(entries, true).map_values(|s: Seq<char>| with_slash(s)), false) + in_order(
        names_of(entries, false),
        false,
    )
}

/// A directory listing.
pub open spec fn dir_listing(entries: Seq<EntryView>) -> Seq<char> {
    let shown = first_of(dir_lines(entries), MAX_DIR_ENTRIES as nat);
    if shown.len() == 0 {
        "(empty)"@
    } else {
        join(shown, "\n"@)
    }
}

/// One level of a directory, directories first.
pub fn list_dir_shallow(entries: &Vec<Entry>) -> (r: String)
    ensures
        r@ == dir_listing(views(entries@)),
{
    let mut lines = sort_texts(with_slashes(&select_names(entries, true)), false);
    let mut files = sort_texts(select_names(entries, false), false);
    lines.append(&mut files);
    let shown = keep_first(lines, MAX_DIR_ENTRIES);
    if shown.len() == 0 {
        "(empty)".to_owned()
    } else {
        joined(&shown, "\n")
    }
}

/// The attachment of a directory.
pub fn attach_dir(label: &str, entries: &Vec<Entry>) -> (r: String)
    ensures
        r@ == "### "@ + label@ + "/ (directory listing)\n"@ + dir_listing(views(entries@)),
{
    let mut r = "### ".to_owned();
    r.append(label);
    r.append("/ (directory listing)\n");
    r.append(list_dir_shallow(entries).as_str());
    r
}

/// The attached part of a file.
pub open spec fn file_body(content: Seq<char>) -> Seq<char> {
    if content.len() > MAX_MENTION_FILE_CHARS {
        first_chars(content, MAX_MENTION_FILE_CHARS as nat)
            + "\n... (truncated to the first 100000 of "@ + decimal(content.len()) + " characters)"@
    } else {
        content
    }
}

/// The attachment of a file.
pub fn attach_file(label: &str, content: &str) -> (r: String)
    ensures
        r@ == "### "@ + label@ + "\n```\n"@ + file_body(content@) + "\n```"@,
{
    let n: usize = content.unicode_len();
    let mut body = take_chars(content, MAX_MENTION_FILE_CHARS);
    if n > MAX_MENTION_FILE_CHARS {
        body.append("\n... (truncated to the first 100000 of ");
        body.append(decimal_text(n as u64).as_str());
        body.append(" characters)");
    }
    let mut r = "### ".to_owned();
    r.append(label);
    r.append("\n```\n");
    r.append(body.as_str());
    r.append("\n```");
    r
}

/// A mention that stands for something: its path, and what is attached, if it
/// can be read.
pub struct Mention {
    pub path: String,
    pub attachment: Option<String>,
}

#[verifier::ext_equal]
pub struct MentionView {
    pub path: Seq<char>,
    pub attachment: Option<Seq<char>>,
}

impl View for Mention {
    type V = MentionView;

    open spec fn view(&self) -> MentionView {
        MentionView { path: self.path@, attachment: opt_view(self.attachment) }
    }
}

/// The parts of a path that count: not the empty ones, nor `.`, unless the path
/// starts with it.
pub open spec fn named_parts(parts: Seq<Seq<char>>) -> Seq<Seq<char>>
    decreases parts.len(),
{
    if parts.len() == 0 {
        Seq::empty()
    } else {
        let rest = named_parts(parts.drop_last());
        let part = parts.last();
        if part.len() == 0 || (part == "."@ && parts.len() > 1) {
            rest
        } else {
            rest.push(part)
        }
    }
}

/// The components of a path; one that starts with a slash starts at the root.
pub open spec fn components(path: Seq<char>) -> Seq<Seq<char>> {
    let parts = named_parts(split(path, '/'));
    if starts_with(path, "/"@) {
        seq!["/"@] + parts
    } else {
        parts
    }
}

/// Whether a path is one of some paths: it has the same components.
pub open spec fn is_known(path: Seq<char>, paths: Seq<Seq<char>>) -> bool {
    exists|i: int| 0 <= i < paths.len() && components(#[trigger] paths[i]) == components(path)
}

fn components_of(path: &str) -> (r: Vec<String>)
    ensures
        views(r@) == components(path@),
{
    let parts = split_at_char(path, '/');
    let ghost all = views(parts@);
    let mut r: Vec<String> = Vec::new();
    let rooted = has_prefix(path, "/");
    if rooted {
        r.push("/".to_owned());
    }
    let ghost root = views(r@);
    assert(root =~= if rooted {
        seq!["/"@]
    } else {
        Seq::empty()
    });
    assert(views(r@) =~= root + named_parts(all.take(0)));
    for i in 0..parts.len()
        invariant
            all == views(parts@),
            views(r@) == root + named_parts(all.take(i as int)),
    {
        assert(all.take(i + 1).drop_last() == all.take(i as int));
        assert(all.take(i + 1).last() == parts@[i as int]@);
        let part = parts[i].as_str();
        if part.unicode_len() > 0 && !(i > 0 && same(part, ".")) {
            r.push(parts[i].clone());
            assert(views(r@) =~= root + named_parts(all.take(i + 1)));
        }
    }
    assert(all.take(all.len() as int) == all);
    assert(views(r@) =~= components(path@));
    r
}

fn same_texts(a: &Vec<String>, b: &Vec<String>) -> (r: bool)
    ensures
        r == (views(a@) == views(b@)),
{
    if a.len() != b.len() {
        assert(views(a@).len() != views(b@).len());
        return false;
    }
    for i in 0..a.len()
        invariant
            a@.len() == b@.len(),
            forall|k: int| 0 <= k < i ==> views(a@)[k] == views(b@)[k],
    {
        if !same(a[i].as_str(), b[i].as_str()) {
            assert(views(a@)[i as int] != views(b@)[i as int]);
            return false;
        }
    }
    assert(views(a@) =~= views(b@));
    true
}

fn known(path: &str, paths: &Vec<String>) -> (r: bool)
    ensures
        r == is_known(path@, views(paths@)),
{
    let wanted = components_of(path);
    for i in 0..paths.len()
        invariant
            views(wanted@) == components(path@),
            forall|k: int|
                0 <= k < i ==> components(#[trigger] views(paths@)[k]) != components(path@),
    {
        if same_texts(&components_of(paths[i].as_str()), &wanted) {
            assert(components(views(paths@)[i as int]) == components(path@));
            return true;
        }
    }
    false
}

/// The paths of some mentions.
pub open spec fn paths_of(ms: Seq<MentionView>) -> Seq<Seq<char>> {
    ms.map_values(|m: MentionView| m.path)
}

/// The attachments of some mentions: one for each path, at its first mention.
pub open spec fn attachments_of(ms: Seq<MentionView>) -> Seq<Seq<char>>
    decreases ms.len(),
{
    if ms.len() == 0 {
        Seq::empty()
    } else {
        let rest = attachments_of(ms.drop_last());
        match ms.last().attachment {
            Some(a) => if is_known(ms.last().path, paths_of(ms.drop_last())) {
                rest
            } else {
                rest.push(a)
            },
            None => rest,
        }
    }
}

/// A text with the attachments of its mentions; the text alone where there are
/// none.
pub open spec fn expanded(text: Seq<char>, ms: Seq<MentionView>) -> Seq<char> {
    let attachments = attachments_of(ms);
    if attachments.len() == 0 {
        text
    } else {
        text + "\n\n---\nAttached via @mention:\n\n"@ + join(attachments, "\n\n"@)
    }
}

/// Appends the attachments of the mentions that were found, in the order of
/// the words.
pub fn expand_mentions(text: &str, found: &Vec<Mention>) -> (r: String)
    ensures
        r@ == expanded(text@, views(found@)),
{
    let ghost all = views(found@);
    let mut seen: Vec<String> = Vec::new();
    let mut attachments: Vec<String> = Vec::new();
    assert(views(seen@) =~= paths_of(all.take(0)));
    for i in 0..found.len()
        invariant
            all == views(found@),
            views(seen@) == paths_of(all.take(i as int)),
            views(attachments@) == attachments_of(all.take(i as int)),
    {
        assert(all.take(i + 1).drop_last() == all.take(i as int));
        if let Some(a) = &found[i].attachment {
            if !known(found[i].path.as_str(), &seen) {
                attachments.push(a.clone());
            }
        }
        seen.push(found[i].path.clone());
        assert(views(seen@) =~= paths_of(all.take(i + 1)));
    }
    assert(all.take(all.len() as int) == all);
    assert(attachments@.len() == attachments_of(all).len());
    if attachments.len() == 0 {
        return text.to_owned();
    }
    let mut r = text.to_owned();
    r.append("\n\n---\nAttached via @mention:\n\n");
    r.append(joined(&attachments, "\n\n").as_str());
    r
}

/// A text in which nothing was found stays as it is, and no path is attached
/// twice.
pub proof fn law_mentions_attach_once(text: Seq<char>, ms: Seq<MentionView>)
    ensures
        ms.len() == 0 ==> expanded(text, ms) == text,
        starts_with(expanded(text, ms), text),
        forall|m: MentionView|
            is_known(m.path, paths_of(ms)) ==> #[trigger] expanded(text, ms.push(m)) == expanded(
                text,
                ms,
            ),
{
    assert(expanded(text, ms).take(text.len() as int) =~= text);
    assert forall|m: MentionView| is_known(m.path, paths_of(ms)) implies #[trigger] expanded(
        text,
        ms.push(m),
    ) == expanded(text, ms) by {
        assert(ms.push(m).drop_last() =~= ms);
    }
}

// ---------------------------------------------------------------------------
// Completion
// ---------------------------------------------------------------------------

/// The start of the word that ends before position `k`.
pub open spec fn word_start(s: Seq<char>, k: int) -> int
    decreases k,
{
    if k <= 0 || k > s.len() || is_white(s[k - 1]) {
        k
    } else {
        word_start(s, k - 1)
    }
}

/// The mention that a cursor behind `k` characters sits in: where its word
/// starts, and what stands between the `@` and the cursor.
pub open spec fn mention_at(s: Seq<char>, k: int) -> Option<(int, Seq<char>)> {
    let start = word_start(s, k);
    if start < k && s[start] == '@' {
        Some((start, s.subrange(start + 1, k)))
    } else {
        None
    }
}

/// The mention that a cursor behind `k` characters sits in.
pub fn mention_before(v: &Vec<char>, k: usize) -> (r: Option<(usize, String)>)
    requires
        k <= v@.len(),
    ensures
        match r {
            Some((start, prefix)) => mention_at(v@, k as int) == Some((start as int, prefix@))
                && start < k,
            None => mention_at(v@, k as int) is None,
        },
{
    let mut start: usize = k;
    while start > 0 && !white(v[start - 1])
        invariant
            start <= k <= v@.len(),
            word_start(v@, k as int) == word_start(v@, start as int),
        decreases start,
    {
        start -= 1;
    }
    if start < k && v[start] == '@' {
        Some((start, text_range(v, start + 1, k)))
    } else {
        None
    }
}

/// The mention that a cursor at a byte offset sits in, with the byte offset of
/// its word.
pub open spec fn mention_token(s: Seq<char>, pos: nat) -> Option<(nat, Seq<char>)> {
    match char_index(s, pos) {
        Some(k) => match mention_at(s, k) {
            Some((start, prefix)) => Some((utf8_len(s.take(start)), prefix)),
            None => None,
        },
        None => None,
    }
}

/// If the cursor sits in an `@`-prefixed word, its start offset and the text
/// after the `@`. Offsets count bytes.
pub fn at_mention_token(line: &str, pos: usize) -> (r: Option<(usize, String)>)
    ensures
        match r {
            Some((start, prefix)) => mention_token(line@, pos as nat) == Some(
                (start as nat, prefix@),
            ),
            None => mention_token(line@, pos as nat) is None,
        },
{
    let v = chars_of(line);
    let k: usize = match index_of_byte(&v, pos) {
        Some(k) => k,
        None => {
            return None;
        },
    };
    match mention_before(&v, k) {
        Some((start, prefix)) => {
            let mut offset: usize = pos;
            let mut i: usize = k;
            while i > start
                invariant
                    start <= i <= k <= v@.len(),
                    offset == utf8_len(v@.take(i as int)),
                decreases i,
            {
                assert(v@.take(i as int).drop_last() == v@.take(i - 1));
                offset -= width_in_bytes(v[i - 1]);
                i -= 1;
            }
            Some((offset, prefix))
        },
        None => None,
    }
}

/// The position behind the last slash of a path.
pub open spec fn after_slash(s: Seq<char>, i: int) -> int
    decreases i,
{
    if i <= 0 || i > s.len() || s[i - 1] == '/' {
        i
    } else {
        after_slash(s, i - 1)
    }
}

/// The directory in which a mention is completed, and the start of the name.
pub struct MentionPrefix {
    /// The part up to the last slash.
    pub dir_part: String,
    /// The part behind it.
    pub name_prefix: String,
    /// Whether hidden entries are offered.
    pub show_hidden: bool,
}

/// Splits what was typed after the `@`.
pub fn split_mention(prefix: &str) -> (r: MentionPrefix)
    ensures
        r.dir_part@ == prefix@.subrange(0, after_slash(prefix@, prefix@.len() as int)),
        r.name_prefix@ == prefix@.subrange(
            after_slash(prefix@, prefix@.len() as int),
            prefix@.len() as int,
        ),
        r.show_hidden == (r.name_prefix@.len() > 0 && r.name_prefix@[0] == '.'),
{
    let v = chars_of(prefix);
    let n: usize = v.len();
    let mut i: usize = n;
    while i > 0 && v[i - 1] != '/'
        invariant
            i <= n == v@.len(),
            after_slash(v@, n as int) == after_slash(v@, i as int),
        decreases i,
    {
        i -= 1;
    }
    let show_hidden = i < n && v[i] == '.';
    MentionPrefix {
        dir_part: text_range(&v, 0, i),
        name_prefix: text_range(&v, i, n),
        show_hidden,
    }
}

/// A completion: how it is shown, and what takes the place of the word.
pub struct Candidate {
    pub display: String,
    pub replacement: String,
}

#[verifier::ext_equal]
pub struct CandidateView {
    pub display: Seq<char>,
    pub replacement: Seq<char>,
}

impl View for Candidate {
    type V = CandidateView;

    open spec fn view(&self) -> CandidateView {
        CandidateView { display: self.display@, replacement: self.replacement@ }
    }
}

/// The names that start with `prefix`.
pub open spec fn with_prefix(names: Seq<Seq<char>>, prefix: Seq<char>) -> Seq<Seq<char>>
    decreases names.len(),
{
    if names.len() == 0 {
        Seq::empty()
    } else {
        let rest = with_prefix(names.drop_last(), prefix);
        if starts_with(names.last(), prefix) {
            rest.push(names.last())
        } else {
            rest
        }
    }
}

/// The texts that start with `prefix`.
pub fn keep_prefixed(names: &Vec<String>, prefix: &str) -> (r: Vec<String>)
    ensures
        views(r@) == with_prefix(views(names@), prefix@),
{
    let mut r: Vec<String> = Vec::new();
    let ghost all = views(names@);
    for i in 0..names.len()
        invariant
            all == views(names@),
            views(r@) == with_prefix(all.take(i as int), prefix@),
    {
        assert(all.take(i + 1).drop_last() == all.take(i as int));
        if has_prefix(names[i].as_str(), prefix) {
            r.push(names[i].clone());
        }
    }
    assert(all.take(all.len() as int) == all);
    r
}

/// The completion to an entry.
pub open spec fn candidate(dir: Seq<char>, shown: Seq<char>) -> CandidateView {
    CandidateView { display: shown, replacement: "@"@ + dir + shown }
}

/// The shown names of the completions: directories first, each with a slash
/// behind it, then the rest, each kind in order of its names.
pub open spec fn completion_names(entries: Seq<EntryView>, prefix: Seq<char>) -> Seq<Seq<char>> {
    first_of(
        in_order(with_prefix(names_of(entries, true), prefix), false).map_values(
            |s: Seq<char>| with_slash(s),
        ) + in_order(with_prefix(names_of(entries, false), prefix), false),
        MAX_COMPLETIONS as nat,
    )
}

/// The completions of what was typed after the `@`, among the entries of its
/// directory.
pub open spec fn completions(prefix: Seq<char>, entries: Seq<EntryView>) -> Seq<CandidateView> {
    let k = after_slash(prefix, prefix.len() as int);
    completion_names(entries, prefix.subrange(k, prefix.len() as int)).map_values(
        |s: Seq<char>| candidate(prefix.subrange(0, k), s),
    )
}

/// The entries that complete `prefix`, which was typed after an `@`. The
/// entries are those of the directory that `split_mention` names.
pub fn complete_at_mention(prefix: &str, entries: &Vec<Entry>) -> (r: Vec<Candidate>)
    ensures
        views(r@) == completions(prefix@, views(entries@)),
{
    let parts = split_mention(prefix);
    let dirs = sort_texts(
        keep_prefixed(&select_names(entries, true), parts.name_prefix.as_str()),
        false,
    );
    let mut files = sort_texts(
        keep_prefixed(&select_names(entries, false), parts.name_prefix.as_str()),
        false,
    );
    let mut names = with_slashes(&dirs);
    names.append(&mut files);
    let names = keep_first(names, MAX_COMPLETIONS);
    let mut r: Vec<Candidate> = Vec::new();
    for i in 0..names.len()
        invariant
            r@.len() == i,
            forall|k: int|
                0 <= k < i ==> (#[trigger] r@[k])@ == candidate(parts.dir_part@, names@[k]@),
    {
        let mut replacement = "@".to_owned();
        replacement.append(parts.dir_part.as_str());
        replacement.append(names[i].as_str());
        r.push(Candidate { display: names[i].clone(), replacement });
    }
    assert(views(r@) =~= completions(prefix@, views(entries@)));
    r
}

/// What is shown behind the cursor: the rest of the only completion, or all of
/// them; and how many bytes of it complete the word.
pub open spec fn mention_hint(prefix: Seq<char>, cs: Seq<CandidateView>) -> Option<
    (Seq<char>, usize),
> {
    if cs.len() == 0 {
        None
    } else if cs.len() == 1 {
        match strip_prefix(cs[0].replacement, "@"@) {
            Some(rest) => match strip_prefix(rest, prefix) {
                Some(suffix) => if suffix.len() > 0 {
                    Some((suffix, byte_len(suffix)))
                } else {
                    None
                },
                None => None,
            },
            None => None,
        }
    } else {
        Some(("  "@ + join(cs.map_values(|c: CandidateView| c.display), "  "@), 0))
    }
}

/// The live hint for what was typed after an `@`.
pub fn at_mention_hint(prefix: &str, entries: &Vec<Entry>) -> (r: Option<(String, usize)>)
    ensures
        match r {
            Some((hint, n)) => mention_hint(prefix@, completions(prefix@, views(entries@))) == Some(
                (hint@, n),
            ),
            None => mention_hint(prefix@, completions(prefix@, views(entries@))) is None,
        },
{
    let candidates = complete_at_mention(prefix, entries);
    let ghost cs = views(candidates@);
    assert(cs.len() == candidates@.len());
    if candidates.len() == 0 {
        return None;
    }
    if candidates.len() == 1 {
        assert(cs[0] == candidates@[0]@);
        let rest = match without_prefix(candidates[0].replacement.as_str(), "@") {
            Some(rest) => rest,
            None => {
                return None;
            },
        };
        let suffix = match without_prefix(rest.as_str(), prefix) {
            Some(suffix) => suffix,
            None => {
                return None;
            },
        };
        if suffix.as_str().unicode_len() == 0 {
            return None;
        }
        let n: usize = suffix.as_str().len();
        return Some((suffix, n));
    }
    let mut displays: Vec<String> = Vec::new();
    for i in 0..candidates.len()
        invariant
            displays@.len() == i,
            forall|k: int| 0 <= k < i ==> (#[trigger] displays@[k])@ == candidates@[k].display@,
    {
        displays.push(candidates[i].display.clone());
    }
    assert(views(displays@) =~= cs.map_values(|c: CandidateView| c.display));
    let mut hint = "  ".to_owned();
    hint.append(joined(&displays, "  ").as_str());
    Some((hint, 0))
}

} // verus!
