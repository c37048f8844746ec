//! What the file tools do, seen from outside.
use vstd::prelude::*;

use crate::diff::{count_of, LineChange};
use crate::edit_file::{edit_outcome, edit_plan, edit_properties, EditPlanView};
use crate::glob_tool::glob_outcome;
use crate::json::{bool_member, lemma_member, member, number_tree, text_member, JsonTree};
use crate::ls::{
    below_root, depth_limit, entry_line, entry_lines, first_entries, indent, law_listing_is_ordered,
    listed, listed_before, ls_outcome, ls_properties, WalkedView,
};
use crate::mcp::{all_offered, call_outcome, offered, CallEnd, RemoteToolView};
use crate::model::views;
use crate::order::precedes;
use crate::replace::{next_from, occurrences, occurrences_from, replaced, replaced_from};
use crate::text::{decimal, find_from, join, lemma_find_from, occurs_at};
use crate::tool::schema_tree;
use crate::write_file::{write_outcome, write_properties};

verus! {

// ---------------------------------------------------------------------------
// Edits
// ---------------------------------------------------------------------------

/// Whether a text stands in another at a place.
pub open spec fn stands_at(s: Seq<char>, pat: Seq<char>, k: int) -> bool {
    0 <= k && k + pat.len() <= s.len() && s.subrange(k, k + pat.len()) == pat
}

/// A text that stands at one place of a file is replaced there, and nothing else
/// changes, whether or not all places are meant.
pub proof fn law_unique_text_is_replaced(
    path: Seq<char>,
    a: Seq<char>,
    from: Seq<char>,
    b: Seq<char>,
    to: Seq<char>,
    all: bool,
)
    requires
        from.len() > 0,
        forall|k: int| #[trigger] stands_at(a + from + b, from, k) ==> k == a.len(),
    ensures
        edit_plan(path, a + from + b, from, to, all) == (EditPlanView::Write {
            content: a + to + b,
            occurrences: 1,
        }),
{
    let s = a + from + b;
    let n = a.len() as int;
    let m = n + from.len();
    lemma_find_from(s, from, 0);
    lemma_find_from(s, from, m);
    assert(s.subrange(n, m) =~= from);
    assert forall|k: int| #[trigger] occurs_at(s, from, k) implies k == n by {
        assert(stands_at(s, from, k));
    }
    assert(occurs_at(s, from, n));
    assert(find_from(s, from, 0) == Some(n));
    assert(find_from(s, from, m) is None);
    reveal_with_fuel(occurrences_from, 2);
    reveal_with_fuel(replaced_from, 2);
    assert(s.subrange(0, n) =~= a);
    assert(s.skip(m) =~= b);
    assert(replaced(s, from, to, 1) =~= a + to + b);
}

/// A text that stands nowhere is not replaced: the edit is an error.
pub proof fn law_missing_text_is_an_error(
    path: Seq<char>,
    s: Seq<char>,
    from: Seq<char>,
    to: Seq<char>,
    all: bool,
)
    requires
        forall|k: int| !#[trigger] stands_at(s, from, k),
    ensures
        edit_plan(path, s, from, to, all) matches EditPlanView::Refuse(o) && o.is_error
            && o.content == "old_string not found in "@ + path,
{
    lemma_find_from(s, from, 0);
    if let Some(k) = find_from(s, from, 0) {
        assert(stands_at(s, from, k));
    }
}

proof fn lemma_at_least_one(s: Seq<char>, pat: Seq<char>, i: int, k: int)
    requires
        0 <= i <= k,
        stands_at(s, pat, k),
    ensures
        occurrences_from(s, pat, i) >= 1,
        find_from(s, pat, i) matches Some(f) && i <= f <= k && stands_at(s, pat, f),
{
    lemma_find_from(s, pat, i);
    assert(occurs_at(s, pat, k));
}

/// A text that stands at two places, one behind the other, is not replaced
/// unless all places are meant: the edit is an error, and the file stays.
pub proof fn law_ambiguous_text_is_an_error(
    path: Seq<char>,
    s: Seq<char>,
    from: Seq<char>,
    to: Seq<char>,
    i: int,
    j: int,
)
    requires
        from.len() > 0,
        stands_at(s, from, i),
        stands_at(s, from, j),
        i + from.len() <= j,
    ensures
        edit_plan(path, s, from, to, false) matches EditPlanView::Refuse(o) && o.is_error
            && o.content == "old_string matches "@ + decimal(occurrences(s, from)) + " times in "@
            + path + " -- pass replace_all: true, or narrow old_string to a unique match"@,
        edit_plan(path, s, from, to, true) is Write,
{
    lemma_at_least_one(s, from, 0, i);
    let f = find_from(s, from, 0)->0;
    lemma_at_least_one(s, from, f + from.len(), j);
    reveal_with_fuel(occurrences_from, 2);
}

proof fn lemma_find_behind(s: Seq<char>, pat: Seq<char>, off: int, i: int)
    requires
        0 <= off <= s.len(),
        0 <= i,
    ensures
        match find_from(s.skip(off), pat, i) {
            Some(k) => find_from(s, pat, off + i) == Some(off + k) && i <= k && k + pat.len()
                <= s.len() - off,
            None => find_from(s, pat, off + i) is None,
        },
{
    let t = s.skip(off);
    lemma_find_from(t, pat, i);
    lemma_find_from(s, pat, off + i);
    assert forall|k: int| 0 <= k implies (#[trigger] occurs_at(t, pat, k) <==> occurs_at(
        s,
        pat,
        off + k,
    )) by {
        if 0 <= k && k + pat.len() <= t.len() {
            assert(t.subrange(k, k + pat.len()) =~= s.subrange(off + k, off + k + pat.len()));
        }
    }
    match find_from(t, pat, i) {
        Some(k) => {
            assert(occurs_at(s, pat, off + k));
            let g = find_from(s, pat, off + i)->0;
            assert(occurs_at(t, pat, g - off));
        },
        None => {
            if let Some(g) = find_from(s, pat, off + i) {
                assert(occurs_at(t, pat, g - off));
            }
        },
    }
}

proof fn lemma_occurrences_behind(s: Seq<char>, pat: Seq<char>, off: int, i: int)
    requires
        0 <= off <= s.len(),
        0 <= i,
        pat.len() > 0,
    ensures
        occurrences_from(s, pat, off + i) == occurrences_from(s.skip(off), pat, i),
    decreases s.len() + 1 - i,
{
    lemma_find_behind(s, pat, off, i);
    if let Some(k) = find_from(s.skip(off), pat, i) {
        lemma_occurrences_behind(s, pat, off, next_from(pat, k));
    }
}

proof fn lemma_replaced_behind(
    s: Seq<char>,
    pat: Seq<char>,
    new: Seq<char>,
    off: int,
    done: int,
    i: int,
    limit: nat,
)
    requires
        0 <= off <= s.len(),
        0 <= done <= i,
        done <= s.len() - off,
        pat.len() > 0,
    ensures
        replaced_from(s, pat, new, off + done, off + i, limit) == replaced_from(
            s.skip(off),
            pat,
            new,
            done,
            i,
            limit,
        ),
    decreases limit,
{
    assert(s.skip(off).skip(done) =~= s.skip(off + done));
    if limit > 0 {
        lemma_find_behind(s, pat, off, i);
        if let Some(k) = find_from(s.skip(off), pat, i) {
            lemma_replaced_behind(
                s,
                pat,
                new,
                off,
                k + pat.len(),
                next_from(pat, k),
                (limit - 1) as nat,
            );
            assert(s.skip(off).subrange(done, k) =~= s.subrange(off + done, off + k));
        }
    }
}

/// Where all places are meant, the first is replaced, and behind it all others
/// are; each is counted.
pub proof fn law_all_places_are_replaced(
    path: Seq<char>,
    a: Seq<char>,
    from: Seq<char>,
    b: Seq<char>,
    to: Seq<char>,
)
    requires
        from.len() > 0,
        forall|k: int| #[trigger] stands_at(a + from + b, from, k) ==> k >= a.len(),
    ensures
        edit_plan(path, a + from + b, from, to, true) == match edit_plan(
            path,
            b,
            from,
            to,
            true,
        ) {
            EditPlanView::Write { content, occurrences } => EditPlanView::Write {
                content: a + to + content,
                occurrences: occurrences + 1,
            },
            EditPlanView::Refuse(_) => EditPlanView::Write {
                content: a + to + b,
                occurrences: 1,
            },
        },
{
    let s = a + from + b;
    let n = a.len() as int;
    let m = n + from.len();
    lemma_find_from(s, from, 0);
    assert(s.subrange(n, m) =~= from);
    assert(occurs_at(s, from, n));
    let f = find_from(s, from, 0)->0;
    assert(stands_at(s, from, f));
    assert(f == n);
    assert(s.skip(m) =~= b);
    assert(s.subrange(0, n) =~= a);
    lemma_occurrences_behind(s, from, m, 0);
    let rest = occurrences(b, from);
    assert(occurrences(s, from) == 1 + rest);
    lemma_replaced_behind(s, from, to, m, 0, 0, rest);
    assert(replaced(s, from, to, 1 + rest) == a + to + replaced(b, from, to, rest));
    if rest == 0 {
        assert(replaced(b, from, to, 0) =~= b);
    }
}

/// What is told of an edit: how many places, and of which file, in words and in
/// the details.
pub proof fn law_edit_is_told(
    path: Seq<char>,
    label: Seq<char>,
    n: usize,
    before: Seq<char>,
    after: Seq<char>,
)
    ensures
        edit_outcome(path, label, n, before, after).content == "replaced "@ + decimal(n as nat)
            + " occurrence(s) in "@ + path,
        !edit_outcome(path, label, n, before, after).is_error,
        member(edit_outcome(path, label, n, before, after).metadata, "occurrences"@) == Some(
            number_tree(n as u64),
        ),
        text_member(edit_outcome(path, label, n, before, after).metadata, "diff"@) == Some(
            crate::diff::unified_diff(before, after, 3, "a/"@ + label, "b/"@ + label),
        ),
        member(edit_outcome(path, label, n, before, after).metadata, "additions"@) == Some(
            number_tree(
                count_of(crate::diff::line_changes(before, after), LineChange::Added) as u64,
            ),
        ),
        member(edit_outcome(path, label, n, before, after).metadata, "deletions"@) == Some(
            number_tree(
                count_of(crate::diff::line_changes(before, after), LineChange::Removed) as u64,
            ),
        ),
{
    let m = edit_outcome(path, label, n, before, after).metadata->Object_0;
    reveal_strlit("occurrences");
    reveal_strlit("diff");
    reveal_strlit("additions");
    reveal_strlit("deletions");
    assert("occurrences"@[0] == 'o' && "diff"@[0] == 'd' && "additions"@[0] == 'a');
    assert("diff"@.len() != "deletions"@.len() && "deletions"@[0] == 'd');
    lemma_member(m, 0);
    lemma_member(m, 1);
    lemma_member(m, 2);
    lemma_member(m, 3);
}

/// Lines are counted one by one.
pub proof fn law_changes_are_counted(
    a: Seq<LineChange>,
    b: Seq<LineChange>,
    c: LineChange,
    what: LineChange,
)
    ensures
        count_of(a + b, what) == count_of(a, what) + count_of(b, what),
        count_of(seq![c], what) == if c == what {
            1nat
        } else {
            0
        },
    decreases b.len(),
{
    assert(seq![c].drop_last() =~= Seq::empty());
    reveal_with_fuel(count_of, 2);
    if b.len() == 0 {
        assert(a + b =~= a);
    } else {
        law_changes_are_counted(a, b.drop_last(), c, what);
        assert((a + b).drop_last() =~= a + b.drop_last());
    }
}

// ---------------------------------------------------------------------------
// Files that are written
// ---------------------------------------------------------------------------

/// What is told of a file that was written: how many bytes, and where.
pub proof fn law_written_file_is_told(path: Seq<char>, n: usize)
    ensures
        write_outcome(path, n).content == "wrote "@ + decimal(n as nat) + " bytes to "@ + path,
        !write_outcome(path, n).is_error,
        member(write_outcome(path, n).metadata, "bytes_written"@) == Some(number_tree(n as u64)),
{
    lemma_member(write_outcome(path, n).metadata->Object_0, 0);
}

// ---------------------------------------------------------------------------
// Listings
// ---------------------------------------------------------------------------

/// A directory is listed three levels deep, or as deep as is asked; without
/// recursion, one level.
pub proof fn law_depth_of_a_listing(d: u32)
    ensures
        depth_limit(true, Some(d)) == d,
        depth_limit(true, None) == 3,
        depth_limit(false, Some(d)) == 1,
        depth_limit(false, None) == 1,
{
}

/// The directory itself is not listed; all else is, in the order in which it was
/// found, up to the limit.
pub proof fn law_directory_itself_is_not_listed(
    a: Seq<WalkedView>,
    b: Seq<WalkedView>,
    x: WalkedView,
)
    ensures
        below_root(a + b) == below_root(a) + below_root(b),
        below_root(seq![x]) == if x.depth == 0 {
            Seq::empty()
        } else {
            seq![x]
        },
        first_entries(a).len() == if a.len() > 500 {
            500
        } else {
            a.len()
        },
        forall|i: int| 0 <= i < first_entries(a).len() ==> #[trigger] first_entries(a)[i] == a[i],
    decreases b.len(),
{
    assert(seq![x].drop_last() =~= Seq::empty());
    reveal_with_fuel(below_root, 2);
    assert(below_root(seq![x]) =~= if x.depth == 0 {
        Seq::empty()
    } else {
        seq![x]
    });
    if b.len() == 0 {
        assert(a + b =~= a);
        assert(below_root(a) + below_root(b) =~= below_root(a));
    } else {
        law_directory_itself_is_not_listed(a, b.drop_last(), x);
        assert((a + b).drop_last() =~= a + b.drop_last());
        assert(below_root(a + b) =~= below_root(a) + below_root(b));
    }
}

/// Directories are listed before files, and each of the two by path.
pub proof fn law_directories_are_listed_first(walked: Seq<WalkedView>, i: int, j: int)
    requires
        0 <= i < j < listed(walked).len(),
    ensures
        listed(walked)[j].is_dir ==> listed(walked)[i].is_dir,
        listed(walked)[i].is_dir == listed(walked)[j].is_dir ==> !precedes(
            listed(walked)[j].relative,
            listed(walked)[i].relative,
            true,
        ),
{
    law_listing_is_ordered(walked);
    assert(!listed_before(listed(walked)[j], listed(walked)[i]));
}

proof fn lemma_indent(n: nat)
    ensures
        indent(n).len() == 2 * n,
        forall|i: int| 0 <= i < indent(n).len() ==> #[trigger] indent(n)[i] == ' ',
    decreases n,
{
    reveal_strlit("  ");
    if n > 0 {
        lemma_indent((n - 1) as nat);
    }
}

/// The line of an entry is its path behind two blanks for each level below the
/// first, and a slash behind that of a directory.
pub proof fn law_line_shows_path_and_level(e: WalkedView)
    requires
        e.depth > 0,
    ensures
        ({
            let line = entry_line(e);
            let n = 2 * (e.depth - 1);
            let m = n + e.relative.len();
            &&& line.len() == m + if e.is_dir {
                1int
            } else {
                0
            }
            &&& forall|i: int| 0 <= i < n ==> #[trigger] line[i] == ' '
            &&& line.subrange(n, m) == e.relative
            &&& e.is_dir ==> line.last() == '/'
        }),
{
    reveal_strlit("/");
    lemma_indent((e.depth - 1) as nat);
    let n = 2 * (e.depth - 1);
    let m = n + e.relative.len();
    assert(entry_line(e).subrange(n, m) =~= e.relative);
}

/// A listing has one line for each entry, in their order; how many there are,
/// and whether there may be more, is told with it.
pub proof fn law_listing_is_told(walked: Seq<WalkedView>)
    ensures
        !ls_outcome(walked).is_error,
        listed(walked).len() == 0 ==> ls_outcome(walked).content == "(empty)"@,
        listed(walked).len() > 0 ==> ls_outcome(walked).content == join(
            entry_lines(listed(walked)),
            "\n"@,
        ),
        entry_lines(listed(walked)).len() == listed(walked).len(),
        forall|i: int|
            0 <= i < listed(walked).len() ==> #[trigger] entry_lines(listed(walked))[i]
                == entry_line(listed(walked)[i]),
        member(ls_outcome(walked).metadata, "count"@) == Some(
            number_tree(listed(walked).len() as u64),
        ),
        bool_member(ls_outcome(walked).metadata, "truncated"@) == Some(
            below_root(walked).len() >= 500,
        ),
{
    let m = ls_outcome(walked).metadata->Object_0;
    reveal_strlit("count");
    reveal_strlit("truncated");
    assert("count"@[0] == 'c' && "truncated"@[0] == 't');
    lemma_member(m, 0);
    lemma_member(m, 1);
    law_listing_is_ordered(walked);
    lemma_listed_len(walked);
}

proof fn lemma_listed_len(walked: Seq<WalkedView>)
    ensures
        listed(walked).len() == first_entries(below_root(walked)).len(),
{
    broadcast use vstd::seq_lib::group_to_multiset_ensures;

    law_listing_is_ordered(walked);
    assert(listed(walked).to_multiset().len() == listed(walked).len());
    assert(first_entries(below_root(walked)).to_multiset().len() == first_entries(
        below_root(walked),
    ).len());
}

// ---------------------------------------------------------------------------
// Other tools
// ---------------------------------------------------------------------------

/// What is told of paths that match: each on a line of its own, in order; how
/// many there are; and in words where there is none.
pub proof fn law_matches_are_told(found: Seq<Seq<char>>)
    ensures
        !glob_outcome(found).is_error,
        found.len() == 0 ==> glob_outcome(found).content == "no matches"@,
        found.len() > 0 ==> exists|l: Seq<Seq<char>>|
            l.to_multiset() == found.to_multiset() && (forall|i: int, j: int|
                0 <= i < j < l.len() ==> !precedes(#[trigger] l[j], #[trigger] l[i], false))
                && glob_outcome(found).content == #[trigger] join(l, "\n"@),
        member(glob_outcome(found).metadata, "count"@) == Some(number_tree(found.len() as u64)),
{
    lemma_member(glob_outcome(found).metadata->Object_0, 0);
    let l = crate::order::in_order(found, false);
    crate::order::law_in_order_is_an_ordering(found, false);
    assert(found.len() > 0 ==> glob_outcome(found).content == join(l, "\n"@));
}

/// A server's tool is offered with its own description and arguments, under a
/// name that tells the server and the tool.
pub proof fn law_servers_tool_is_offered(server: Seq<char>, t: RemoteToolView)
    ensures
        offered(server, t).name == "mcp__"@ + server + "__"@ + t.name,
        t.description matches Some(d) ==> offered(server, t).description == d,
        t.description is None ==> offered(server, t).description.len() == 0,
        offered(server, t).parameters == t.input_schema,
{
}

/// What a server answers is the outcome, line by line, and an error only if it
/// says so; a call that fails is an error with the reason.
pub proof fn law_servers_answer_is_the_outcome(name: Seq<char>, end: CallEnd)
    ensures
        end matches CallEnd::Answer { texts, is_error } ==> call_outcome(name, end).content
            == join(views(texts@), "\n"@) && (call_outcome(name, end).is_error <==> is_error
            == Some(true)),
        end matches CallEnd::Failed(e) ==> call_outcome(name, end).is_error && call_outcome(
            name,
            end,
        ).content == "mcp call to \""@ + name + "\" failed: "@ + e@,
{
}

// ---------------------------------------------------------------------------
// Arguments
// ---------------------------------------------------------------------------

/// A schema is that of an object with these properties, of which some are
/// required.
pub proof fn law_schema_tells_the_arguments(
    properties: Seq<(Seq<char>, JsonTree)>,
    required: Seq<Seq<char>>,
)
    ensures
        text_member(schema_tree(properties, required), "type"@) == Some("object"@),
        member(schema_tree(properties, required), "properties"@) == Some(
            JsonTree::Object(properties),
        ),
        required.len() > 0 ==> (member(schema_tree(properties, required), "required"@) matches Some(
            JsonTree::Array(v),
        ) && v.len() == required.len() && forall|i: int|
            0 <= i < v.len() ==> #[trigger] v[i] == JsonTree::Str(required[i])),
{
    let m = schema_tree(properties, required)->Object_0;
    reveal_strlit("type");
    reveal_strlit("properties");
    reveal_strlit("required");
    assert("type"@[0] == 't' && "properties"@[0] == 'p' && "required"@[0] == 'r');
    lemma_member(m, 0);
    lemma_member(m, 1);
    if required.len() > 0 {
        lemma_member(m, 2);
    }
}

/// The arguments of the file tools, with the type of each.
pub proof fn law_arguments_of_the_tools()
    ensures
        edit_properties().len() == 4,
        edit_properties()[0].0 == "path"@,
        edit_properties()[1].0 == "old_string"@,
        edit_properties()[2].0 == "new_string"@,
        edit_properties()[3].0 == "replace_all"@,
        text_member(edit_properties()[3].1, "type"@) == Some("boolean"@),
        write_properties().len() == 2,
        write_properties()[0].0 == "path"@,
        write_properties()[1].0 == "content"@,
        ls_properties().len() == 4,
        ls_properties()[0].0 == "path"@,
        ls_properties()[1].0 == "recursive"@,
        ls_properties()[2].0 == "max_depth"@,
        ls_properties()[3].0 == "show_hidden"@,
{
    reveal_strlit("type");
    reveal_strlit("description");
    assert("type"@[0] == 't' && "description"@[0] == 'd');
    lemma_member(edit_properties()[3].1->Object_0, 0);
}

/// All tools of a server are offered, in their order.
pub proof fn law_all_tools_of_a_server_are_offered(server: Seq<char>, tools: Seq<RemoteToolView>)
    ensures
        all_offered(server, tools).len() == tools.len(),
        forall|i: int|
            0 <= i < tools.len() ==> #[trigger] all_offered(server, tools)[i] == offered(
                server,
                tools[i],
            ),
{
}

} // verus!
