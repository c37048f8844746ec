//! What is remembered of messages that were dropped.
use vstd::prelude::*;

use crate::json::{member, text_member, JsonTree};
use crate::ledger::{
    block_calls, bullet_lines, commits_section, files_section, ledger_text, message_calls,
    record_blocks, record_call, record_messages, summaries_section, todo_lines, todo_list_after,
    todo_section, todo_summary, transcript_lines, with_summary, LedgerView,
};
use crate::message::{message_text, BlockView, MessageView, Role, ToolCallView};
use crate::text::{contains, join, occurs_at, starts_with, trim};

verus! {

// ---------------------------------------------------------------------------
// Recording
// ---------------------------------------------------------------------------

/// The ledger after some calls are recorded, one after the other.
pub open spec fn record_calls(l: LedgerView, calls: Seq<ToolCallView>) -> LedgerView
    decreases calls.len(),
{
    if calls.len() == 0 {
        l
    } else {
        record_call(record_calls(l, calls.drop_last()), calls.last())
    }
}

proof fn lemma_record_both(l: LedgerView, a: Seq<ToolCallView>, b: Seq<ToolCallView>)
    ensures
        record_calls(l, a + b) == record_calls(record_calls(l, a), b),
    decreases b.len(),
{
    if b.len() == 0 {
        assert(a + b =~= a);
    } else {
        assert((a + b).drop_last() =~= a + b.drop_last());
        lemma_record_both(l, a, b.drop_last());
    }
}

proof fn lemma_record_blocks(l: LedgerView, blocks: Seq<BlockView>)
    ensures
        record_blocks(l, blocks) == record_calls(l, block_calls(blocks)),
    decreases blocks.len(),
{
    if blocks.len() > 0 {
        lemma_record_blocks(l, blocks.drop_last());
        let rest = block_calls(blocks.drop_last());
        if let BlockView::ToolUse(c) = blocks.last() {
            assert(rest.push(c).drop_last() =~= rest);
        }
    }
}

/// Recording messages is recording their calls, each one and in their order.
pub proof fn law_messages_are_recorded_by_their_calls(l: LedgerView, ms: Seq<MessageView>)
    ensures
        record_messages(l, ms) == record_calls(l, message_calls(ms)),
    decreases ms.len(),
{
    if ms.len() > 0 {
        law_messages_are_recorded_by_their_calls(l, ms.drop_last());
        let before = message_calls(ms.drop_last());
        lemma_record_blocks(record_messages(l, ms.drop_last()), ms.last().content);
        lemma_record_both(l, before, block_calls(ms.last().content));
    }
}

/// The calls of messages are the tool uses in them, all and in their order.
pub proof fn law_calls_of_messages(a: Seq<MessageView>, b: Seq<MessageView>, m: MessageView)
    ensures
        message_calls(a + b) == message_calls(a) + message_calls(b),
        message_calls(seq![m]) == crate::message::calls_of(m.content),
    decreases b.len(),
{
    assert(seq![m].drop_last() =~= Seq::empty());
    reveal_with_fuel(message_calls, 2);
    lemma_block_calls(m.content);
    assert(message_calls(seq![m]) =~= crate::message::calls_of(m.content));
    if b.len() == 0 {
        assert(a + b =~= a);
        assert(message_calls(a) + message_calls(b) =~= message_calls(a));
    } else {
        law_calls_of_messages(a, b.drop_last(), m);
        assert((a + b).drop_last() =~= a + b.drop_last());
        assert(message_calls(a + b) =~= message_calls(a) + message_calls(b));
    }
}

proof fn lemma_block_calls(blocks: Seq<BlockView>)
    ensures
        block_calls(blocks) == crate::message::calls_of(blocks),
    decreases blocks.len(),
{
    if blocks.len() > 0 {
        lemma_block_calls(blocks.drop_last());
    }
}

/// Whether a call changes the file at a path: it writes, edits or deletes it.
pub open spec fn changes_file(c: ToolCallView, path: Seq<char>) -> bool {
    (c.name == "write_file"@ || c.name == "edit_file"@ || c.name == "delete_file"@) && text_member(
        c.arguments,
        "path"@,
    ) == Some(path)
}

proof fn lemma_names_differ()
    ensures
        "git_commit"@ != "write_file"@,
        "git_commit"@ != "edit_file"@,
        "git_commit"@ != "delete_file"@,
        "git_commit"@ != "todo_write"@,
        "todo_write"@ != "write_file"@,
        "todo_write"@ != "edit_file"@,
        "todo_write"@ != "delete_file"@,
{
    reveal_strlit("git_commit");
    reveal_strlit("todo_write");
    reveal_strlit("write_file");
    reveal_strlit("edit_file");
    reveal_strlit("delete_file");
    assert("git_commit"@[0] == 'g' && "write_file"@[0] == 'w' && "edit_file"@[0] == 'e'
        && "delete_file"@[0] == 'd' && "todo_write"@[0] == 't');
}

proof fn lemma_file_of_call(l: LedgerView, c: ToolCallView, path: Seq<char>)
    ensures
        changes_file(c, path) ==> record_call(l, c).touched_files == if crate::text::among(
            path,
            l.touched_files,
        ) {
            l.touched_files
        } else {
            crate::ledger::push_capped(l.touched_files, path, 30)
        },
        (forall|p: Seq<char>| !changes_file(c, p)) ==> record_call(l, c).touched_files
            == l.touched_files,
{
    lemma_names_differ();
    if let Some(p) = text_member(c.arguments, "path"@) {
        if forall|p: Seq<char>| !changes_file(c, p) {
            assert(!changes_file(c, p));
        }
    }
}

/// A file that a call changes is remembered: where it was not, it stands at the
/// end, and where there were thirty, the oldest is forgotten for it. Files that
/// were there before stay, in their order; a call that changes no file changes
/// nothing about them.
pub proof fn law_changed_file_is_remembered(l: LedgerView, c: ToolCallView, path: Seq<char>)
    requires
        l.touched_files.len() <= 30,
    ensures
        changes_file(c, path) ==> {
            let after = record_call(l, c).touched_files;
            &&& after.contains(path)
            &&& if l.touched_files.contains(path) {
                after == l.touched_files
            } else {
                &&& after.last() == path
                &&& after.drop_last() == if l.touched_files.len() < 30 {
                    l.touched_files
                } else {
                    l.touched_files.skip(1)
                }
            }
        },
        (forall|p: Seq<char>| !changes_file(c, p)) ==> record_call(l, c).touched_files
            == l.touched_files,
{
    lemma_file_of_call(l, c, path);
    let files = l.touched_files;
    let after = record_call(l, c).touched_files;
    if changes_file(c, path) {
        if files.contains(path) {
            let i = choose|i: int| 0 <= i < files.len() && files[i] == path;
            assert(crate::text::among(path, files));
        } else {
            assert(!crate::text::among(path, files));
            assert(after.last() == path);
            assert(after.contains(after[after.len() - 1]));
            if files.len() < 30 {
                assert(after.drop_last() =~= files);
            } else {
                assert(after.drop_last() =~= files.skip(1));
            }
        }
    }
}

/// Whether the files are those that some calls change, each once, in the order
/// in which they were first changed.
pub open spec fn are_first_changed(files: Seq<Seq<char>>, calls: Seq<ToolCallView>) -> bool {
    &&& files.no_duplicates()
    &&& forall|k: int, p: Seq<char>|
        0 <= k < calls.len() && #[trigger] changes_file(calls[k], p) ==> files.contains(p)
    &&& forall|i: int|
        0 <= i < files.len() ==> is_changed(calls, #[trigger] files[i])
    &&& forall|i: int, j: int, a: int, b: int|
        0 <= i < j < files.len() && #[trigger] is_first_change(calls, a, files[i])
            && #[trigger] is_first_change(calls, b, files[j]) ==> a < b
}

/// Whether one of some calls changes the file at a path.
pub open spec fn is_changed(calls: Seq<ToolCallView>, path: Seq<char>) -> bool {
    exists|k: int| #[trigger] is_first_change(calls, k, path)
}

/// Whether the `k`-th call is the first that changes the file at a path.
pub open spec fn is_first_change(calls: Seq<ToolCallView>, k: int, path: Seq<char>) -> bool {
    &&& 0 <= k < calls.len()
    &&& changes_file(calls[k], path)
    &&& forall|m: int| 0 <= m < k ==> !changes_file(#[trigger] calls[m], path)
}

proof fn lemma_no_more_than(files: Seq<Seq<char>>, paths: Seq<Seq<char>>)
    requires
        files.no_duplicates(),
        forall|i: int| 0 <= i < files.len() ==> paths.contains(#[trigger] files[i]),
    ensures
        files.len() <= paths.len(),
{
    files.unique_seq_to_set();
    paths.lemma_cardinality_of_set();
    assert(files.to_set().subset_of(paths.to_set())) by {
        assert forall|p: Seq<char>| files.to_set().contains(p) implies paths.to_set().contains(
            p,
        ) by {
            let i = choose|i: int| 0 <= i < files.len() && files[i] == p;
            assert(paths.contains(files[i]));
        }
    }
    vstd::set_lib::lemma_len_subset(files.to_set(), paths.to_set());
}

proof fn lemma_files_of_calls(calls: Seq<ToolCallView>, paths: Seq<Seq<char>>)
    requires
        paths.len() <= 30,
        forall|k: int, p: Seq<char>|
            0 <= k < calls.len() && #[trigger] changes_file(calls[k], p) ==> paths.contains(p),
    ensures
        are_first_changed(record_calls(LedgerView::empty(), calls).touched_files, calls),
    decreases calls.len(),
{
    let after = record_calls(LedgerView::empty(), calls).touched_files;
    if calls.len() > 0 {
        let rest = calls.drop_last();
        let c = calls.last();
        assert forall|k: int, p: Seq<char>|
            0 <= k < rest.len() && #[trigger] changes_file(rest[k], p) implies paths.contains(
            p,
        ) by {
            assert(changes_file(calls[k], p));
        }
        lemma_files_of_calls(rest, paths);
        let l = record_calls(LedgerView::empty(), rest);
        let files = l.touched_files;
        assert(forall|k: int| 0 <= k < rest.len() ==> rest[k] == calls[k]);
        if exists|p: Seq<char>| changes_file(c, p) {
            let p = choose|p: Seq<char>| changes_file(c, p);
            assert(forall|q: Seq<char>| changes_file(c, q) ==> q == p);
            assert(changes_file(calls[calls.len() - 1], p));
            lemma_file_of_call(l, c, p);
            assert forall|i: int| 0 <= i < files.len() implies paths.contains(
                #[trigger] files[i],
            ) by {
                assert(is_changed(rest, files[i]));
                let k = choose|k: int| #[trigger] is_first_change(rest, k, files[i]);
                assert(changes_file(calls[k], files[i]));
            }
            if files.contains(p) {
                let i = choose|i: int| 0 <= i < files.len() && files[i] == p;
                assert(crate::text::among(p, files));
                assert(after == files);
                lemma_first_changes_stay(files, rest, calls);
            } else {
                assert(!crate::text::among(p, files));
                let more = files.push(p);
                assert(more.no_duplicates());
                assert forall|i: int| 0 <= i < more.len() implies paths.contains(
                    #[trigger] more[i],
                ) by {
                    if i < files.len() {
                        assert(paths.contains(files[i]));
                    }
                }
                lemma_no_more_than(more, paths);
                assert(after == more);
                lemma_new_file(files, rest, calls, p);
            }
        } else {
            lemma_file_of_call(l, c, Seq::empty());
            assert(after == files);
            lemma_first_changes_stay(files, rest, calls);
        }
    } else {
        assert(after =~= Seq::empty());
    }
}

proof fn lemma_first_changes_stay(
    files: Seq<Seq<char>>,
    rest: Seq<ToolCallView>,
    calls: Seq<ToolCallView>,
)
    requires
        calls.len() > 0,
        rest == calls.drop_last(),
        are_first_changed(files, rest),
        forall|p: Seq<char>| changes_file(calls.last(), p) ==> files.contains(p),
    ensures
        are_first_changed(files, calls),
{
    assert(forall|k: int| 0 <= k < rest.len() ==> rest[k] == calls[k]);
    assert forall|k: int, p: Seq<char>|
        0 <= k < calls.len() && #[trigger] changes_file(calls[k], p) implies files.contains(p) by {
        if k < rest.len() {
            assert(changes_file(rest[k], p));
        }
    }
    assert forall|i: int| 0 <= i < files.len() implies is_changed(
        calls,
        #[trigger] files[i],
    ) by {
        assert(is_changed(rest, files[i]));
        let k = choose|k: int| #[trigger] is_first_change(rest, k, files[i]);
        assert forall|m: int| 0 <= m < k implies !changes_file(#[trigger] calls[m], files[i]) by {
            assert(!changes_file(rest[m], files[i]));
        }
        assert(is_first_change(calls, k, files[i]));
    }
    assert forall|i: int, j: int, a: int, b: int|
        0 <= i < j < files.len() && #[trigger] is_first_change(calls, a, files[i])
            && #[trigger] is_first_change(calls, b, files[j]) implies a < b by {
        lemma_first_change_in_front(files, rest, calls, i, a);
        lemma_first_change_in_front(files, rest, calls, j, b);
    }
}

proof fn lemma_first_change_in_front(
    files: Seq<Seq<char>>,
    rest: Seq<ToolCallView>,
    calls: Seq<ToolCallView>,
    i: int,
    a: int,
)
    requires
        calls.len() > 0,
        rest == calls.drop_last(),
        are_first_changed(files, rest),
        0 <= i < files.len(),
        is_first_change(calls, a, files[i]),
    ensures
        is_first_change(rest, a, files[i]),
{
    assert(forall|k: int| 0 <= k < rest.len() ==> rest[k] == calls[k]);
    assert(is_changed(rest, files[i]));
    let k = choose|k: int| #[trigger] is_first_change(rest, k, files[i]);
    assert(changes_file(calls[k], files[i]));
    if a > k {
        assert(!changes_file(calls[k], files[i]));
    }
    assert forall|m: int| 0 <= m < a implies !changes_file(#[trigger] rest[m], files[i]) by {
        assert(!changes_file(calls[m], files[i]));
    }
}

proof fn lemma_new_file(
    files: Seq<Seq<char>>,
    rest: Seq<ToolCallView>,
    calls: Seq<ToolCallView>,
    p: Seq<char>,
)
    requires
        calls.len() > 0,
        rest == calls.drop_last(),
        are_first_changed(files, rest),
        changes_file(calls.last(), p),
        !files.contains(p),
    ensures
        are_first_changed(files.push(p), calls),
{
    let more = files.push(p);
    let last = calls.len() - 1;
    assert(forall|k: int| 0 <= k < rest.len() ==> rest[k] == calls[k]);
    assert(more[files.len() as int] == p);
    assert forall|k: int, q: Seq<char>|
        0 <= k < calls.len() && #[trigger] changes_file(calls[k], q) implies more.contains(q) by {
        if k < rest.len() {
            assert(changes_file(rest[k], q));
            let i = choose|i: int| 0 <= i < files.len() && files[i] == q;
            assert(more[i] == q);
        } else {
            assert(q == p);
        }
    }
    assert(is_first_change(calls, last, p)) by {
        assert forall|m: int| 0 <= m < last implies !changes_file(#[trigger] calls[m], p) by {
            if changes_file(calls[m], p) {
                assert(changes_file(rest[m], p));
            }
        }
    }
    assert forall|i: int| 0 <= i < more.len() implies is_changed(
        calls,
        #[trigger] more[i],
    ) by {
        if i < files.len() {
            assert(is_changed(rest, files[i]));
            let k = choose|k: int| #[trigger] is_first_change(rest, k, files[i]);
            assert forall|m: int| 0 <= m < k implies !changes_file(
                #[trigger] calls[m],
                files[i],
            ) by {
                assert(!changes_file(rest[m], files[i]));
            }
            assert(is_first_change(calls, k, more[i]));
        } else {
            assert(is_first_change(calls, last, more[i]));
        }
    }
    assert forall|i: int, j: int, a: int, b: int|
        0 <= i < j < more.len() && #[trigger] is_first_change(calls, a, more[i])
            && #[trigger] is_first_change(calls, b, more[j]) implies a < b by {
        assert(more[i] == files[i]);
        lemma_first_change_in_front(files, rest, calls, i, a);
        if j < files.len() {
            assert(more[j] == files[j]);
            lemma_first_change_in_front(files, rest, calls, j, b);
        } else if b < last {
            assert(changes_file(rest[b], p));
        }
    }
}

/// Of messages that change thirty different files at most, exactly these files
/// are remembered, each once, in the order in which they were first changed. The
/// paths are any list that has them all.
pub proof fn law_changed_files_are_remembered_in_order(
    ms: Seq<MessageView>,
    paths: Seq<Seq<char>>,
)
    requires
        paths.len() <= 30,
        forall|k: int, p: Seq<char>|
            0 <= k < message_calls(ms).len() && #[trigger] changes_file(message_calls(ms)[k], p)
                ==> paths.contains(p),
    ensures
        are_first_changed(
            record_messages(LedgerView::empty(), ms).touched_files,
            message_calls(ms),
        ),
{
    law_messages_are_recorded_by_their_calls(LedgerView::empty(), ms);
    lemma_files_of_calls(message_calls(ms), paths);
}

/// A commit is remembered by its message, at the end; of more than twelve the
/// oldest is forgotten. No other call changes the commits.
pub proof fn law_commit_is_remembered(l: LedgerView, c: ToolCallView)
    requires
        l.commits.len() <= 12,
    ensures
        match text_member(c.arguments, "message"@) {
            Some(message) if c.name == "git_commit"@ => {
                let after = record_call(l, c).commits;
                &&& after.last() == message
                &&& after.drop_last() == if l.commits.len() < 12 {
                    l.commits
                } else {
                    l.commits.skip(1)
                }
            },
            _ => record_call(l, c).commits == l.commits,
        },
{
    lemma_names_differ();
    let after = record_call(l, c).commits;
    if let Some(m) = text_member(c.arguments, "message"@) {
        if c.name == "git_commit"@ {
            if l.commits.len() < 12 {
                assert(after.drop_last() =~= l.commits);
            } else {
                assert(after.drop_last() =~= l.commits.skip(1));
            }
        }
    }
}

/// A summary stands at the end; of more than five the oldest is forgotten.
/// Nothing else changes.
pub proof fn law_summary_is_remembered(l: LedgerView, text: Seq<char>)
    requires
        l.summaries.len() <= 5,
    ensures
        with_summary(l, text).summaries.last() == text,
        with_summary(l, text).summaries.drop_last() == if l.summaries.len() < 5 {
            l.summaries
        } else {
            l.summaries.skip(1)
        },
        with_summary(l, text).touched_files == l.touched_files,
        with_summary(l, text).commits == l.commits,
        with_summary(l, text).latest_todo == l.latest_todo,
{
    let after = with_summary(l, text).summaries;
    if l.summaries.len() < 5 {
        assert(after.drop_last() =~= l.summaries);
    } else {
        assert(after.drop_last() =~= l.summaries.skip(1));
    }
}

/// A todo list that is written takes the place of the one before. An empty one
/// leaves none; what is no list, or a list of entries without a content, leaves
/// the one before. No other call changes it.
pub proof fn law_written_todo_list_counts(l: LedgerView, c: ToolCallView)
    ensures
        c.name != "todo_write"@ ==> record_call(l, c).latest_todo == l.latest_todo,
        c.name == "todo_write"@ ==> match member(c.arguments, "todos"@) {
            Some(JsonTree::Array(todos)) => if todos.len() == 0 {
                record_call(l, c).latest_todo is None
            } else if exists|i: int|
                0 <= i < todos.len() && text_member(#[trigger] todos[i], "content"@) is Some {
                record_call(l, c).latest_todo == Some(join(todo_lines(todos), "\n"@))
            } else {
                record_call(l, c).latest_todo == l.latest_todo
            },
            _ => record_call(l, c).latest_todo == l.latest_todo,
        },
{
    lemma_names_differ();
    if let Some(JsonTree::Array(todos)) = member(c.arguments, "todos"@) {
        lemma_some_line(todos);
    }
}

proof fn lemma_some_line(todos: Seq<JsonTree>)
    ensures
        todo_lines(todos).len() > 0 <==> exists|i: int|
            0 <= i < todos.len() && text_member(#[trigger] todos[i], "content"@) is Some,
    decreases todos.len(),
{
    if todos.len() > 0 {
        let rest = todos.drop_last();
        lemma_some_line(rest);
        if todo_lines(rest).len() > 0 {
            let i = choose|i: int|
                0 <= i < rest.len() && text_member(#[trigger] rest[i], "content"@) is Some;
            assert(text_member(todos[i], "content"@) is Some);
        }
        if text_member(todos.last(), "content"@) is Some {
            assert(text_member(todos[todos.len() - 1], "content"@) is Some);
        }
        if exists|i: int|
            0 <= i < todos.len() && text_member(#[trigger] todos[i], "content"@) is Some {
            let i = choose|i: int|
                0 <= i < todos.len() && text_member(#[trigger] todos[i], "content"@) is Some;
            if i < rest.len() {
                assert(text_member(rest[i], "content"@) is Some);
            }
        }
    }
}

/// Each entry of a todo list has a line, in their order: its content behind a
/// mark that tells what is done (`x`) and what is being done (`~`). An entry
/// without a content has none.
pub proof fn law_todo_entry_has_a_line(
    a: Seq<JsonTree>,
    b: Seq<JsonTree>,
    entry: JsonTree,
)
    ensures
        todo_lines(a + b) == todo_lines(a) + todo_lines(b),
        match text_member(entry, "content"@) {
            Some(content) => {
                let status = text_member(entry, "status"@);
                &&& status == Some("completed"@) ==> todo_lines(seq![entry]) == seq![
                    "  ["@ + "x"@ + "] "@ + content,
                ]
                &&& status == Some("in_progress"@) ==> todo_lines(seq![entry]) == seq![
                    "  ["@ + "~"@ + "] "@ + content,
                ]
                &&& status != Some("completed"@) && status != Some("in_progress"@) ==> todo_lines(
                    seq![entry],
                ) == seq!["  ["@ + " "@ + "] "@ + content]
            },
            None => todo_lines(seq![entry]).len() == 0,
        },
    decreases b.len(),
{
    assert(seq![entry].drop_last() =~= Seq::empty());
    reveal_with_fuel(todo_lines, 2);
    reveal_strlit("completed");
    reveal_strlit("in_progress");
    assert("completed"@[0] == 'c' && "in_progress"@[0] == 'i');
    if let Some(content) = text_member(entry, "content"@) {
        assert(todo_lines(seq![entry]) =~= seq![crate::ledger::todo_line(entry).unwrap()]);
    }
    if b.len() == 0 {
        assert(a + b =~= a);
        assert(todo_lines(a) + todo_lines(b) =~= todo_lines(a));
    } else {
        law_todo_entry_has_a_line(a, b.drop_last(), entry);
        assert((a + b).drop_last() =~= a + b.drop_last());
        assert(todo_lines(a + b) =~= todo_lines(a) + todo_lines(b));
    }
}

/// What the `/todo` list shows after a call is what the ledger would remember of
/// it.
pub proof fn law_shown_todo_list_is_the_recorded_one(l: LedgerView, c: ToolCallView)
    requires
        c.name == "todo_write"@,
    ensures
        todo_list_after(l.latest_todo, c.arguments) == record_call(l, c).latest_todo,
        todo_summary(c.arguments) is Some ==> record_call(l, c).latest_todo == todo_summary(
            c.arguments,
        ),
{
    lemma_names_differ();
}

// ---------------------------------------------------------------------------
// What the model is told
// ---------------------------------------------------------------------------

proof fn lemma_occurs(s: Seq<char>, before: Seq<char>, pat: Seq<char>, after: Seq<char>)
    requires
        s == before + pat + after,
    ensures
        contains(s, pat),
{
    assert(s.subrange(before.len() as int, (before.len() + pat.len()) as int) =~= pat);
    assert(occurs_at(s, pat, before.len() as int));
}

proof fn lemma_bullet(items: Seq<Seq<char>>, i: int) -> (r: (Seq<char>, Seq<char>))
    requires
        0 <= i < items.len(),
    ensures
        bullet_lines(items) == r.0 + ("  - "@ + items[i] + "\n"@) + r.1,
    decreases items.len(),
{
    let front = items.drop_last();
    let line = "  - "@ + items.last() + "\n"@;
    if i == front.len() {
        assert(bullet_lines(items) =~= bullet_lines(front) + line + Seq::empty());
        (bullet_lines(front), Seq::empty())
    } else {
        let (a, b) = lemma_bullet(front, i);
        assert(bullet_lines(items) =~= a + ("  - "@ + items[i] + "\n"@) + (b + line));
        (a, b + line)
    }
}

/// The model is told of recorded facts exactly if there are some: of the todo
/// list, of the files, of each commit and of each summary.
pub proof fn law_recorded_facts_are_told(l: LedgerView, i: int, j: int)
    ensures
        ledger_text(l) is None <==> l.touched_files.len() == 0 && l.latest_todo is None
            && l.commits.len() == 0 && l.summaries.len() == 0,
        ledger_text(l) matches Some(text) ==> {
            &&& starts_with(
                text,
                "Earlier context was compacted; these facts from it still apply:\n"@,
            )
            &&& l.latest_todo matches Some(todo) ==> contains(
                text,
                "Current todo list:\n"@ + todo + "\n"@,
            )
            &&& l.touched_files.len() > 0 ==> contains(
                text,
                "Files touched so far: "@ + join(l.touched_files, ", "@) + "\n"@,
            )
            &&& 0 <= i < l.commits.len() ==> contains(text, "  - "@ + l.commits[i] + "\n"@)
            &&& 0 <= j < l.summaries.len() ==> contains(text, "  - "@ + l.summaries[j] + "\n"@)
        },
{
    if let Some(text) = ledger_text(l) {
        let h = "Earlier context was compacted; these facts from it still apply:\n"@;
        let (t, f, c, s) = (
            todo_section(l),
            files_section(l),
            commits_section(l),
            summaries_section(l),
        );
        lemma_sections(h, t, f, c, s);
        assert(starts_with(text, h));
        if l.latest_todo is Some {
            lemma_occurs(text, h, t, f + c + s);
        }
        if l.touched_files.len() > 0 {
            lemma_occurs(text, h + t, f, c + s);
        }
        if 0 <= i < l.commits.len() {
            lemma_bullet_occurs(text, h + t + f, "Commits made:\n"@, l.commits, s, i);
        }
        if 0 <= j < l.summaries.len() {
            assert(text =~= (h + t + f + c) + s + Seq::empty());
            lemma_bullet_occurs(
                text,
                h + t + f + c,
                "Summary of earlier discussion:\n"@,
                l.summaries,
                Seq::empty(),
                j,
            );
        }
    }
}

/// Texts one after the other, taken together in other ways.
proof fn lemma_sections(h: Seq<char>, t: Seq<char>, f: Seq<char>, c: Seq<char>, s: Seq<char>)
    ensures
        starts_with(h + t + f + c + s, h),
        h + t + f + c + s == h + t + (f + c + s),
        h + t + f + c + s == (h + t) + f + (c + s),
        h + t + f + c + s == (h + t + f) + c + s,
{
    let text = h + t + f + c + s;
    assert(text.take(h.len() as int) =~= h);
    assert(text =~= h + t + (f + c + s));
    assert(text =~= (h + t) + f + (c + s));
}

/// A line of a list that stands in a text stands in the text.
proof fn lemma_bullet_occurs(
    text: Seq<char>,
    pre: Seq<char>,
    head: Seq<char>,
    items: Seq<Seq<char>>,
    post: Seq<char>,
    i: int,
)
    requires
        0 <= i < items.len(),
        text == pre + (head + bullet_lines(items)) + post,
    ensures
        contains(text, "  - "@ + items[i] + "\n"@),
{
    let (a, b) = lemma_bullet(items, i);
    let line = "  - "@ + items[i] + "\n"@;
    assert(text =~= (pre + head + a) + line + (b + post));
    lemma_occurs(text, pre + head + a, line, b + post);
}

/// Each kind of fact is told under its heading, one line for each commit and
/// each summary; what there is nothing of is not mentioned.
pub proof fn law_facts_of_one_kind_are_told_alone(l: LedgerView)
    requires
        ledger_text(l) is Some,
    ensures
        ({
            let head = "Earlier context was compacted; these facts from it still apply:\n"@;
            let files = l.touched_files.len() == 0;
            let todo = l.latest_todo is None;
            let commits = l.commits.len() == 0;
            let summaries = l.summaries.len() == 0;
            &&& todo && commits && summaries ==> ledger_text(l) == Some(
                head + "Files touched so far: "@ + join(l.touched_files, ", "@) + "\n"@,
            )
            &&& files && commits && summaries ==> ledger_text(l) == Some(
                head + "Current todo list:\n"@ + l.latest_todo.unwrap() + "\n"@,
            )
            &&& files && todo && summaries && l.commits.len() == 1 ==> ledger_text(l) == Some(
                head + "Commits made:\n"@ + "  - "@ + l.commits[0] + "\n"@,
            )
            &&& files && todo && commits && l.summaries.len() == 1 ==> ledger_text(l) == Some(
                head + "Summary of earlier discussion:\n"@ + "  - "@ + l.summaries[0] + "\n"@,
            )
        }),
{
    let head = "Earlier context was compacted; these facts from it still apply:\n"@;
    let text = ledger_text(l).unwrap();
    reveal_with_fuel(bullet_lines, 2);
    if l.latest_todo is None && l.commits.len() == 0 && l.summaries.len() == 0 {
        assert(text =~= head + "Files touched so far: "@ + join(l.touched_files, ", "@) + "\n"@);
    }
    if l.touched_files.len() == 0 && l.commits.len() == 0 && l.summaries.len() == 0 {
        assert(text =~= head + "Current todo list:\n"@ + l.latest_todo.unwrap() + "\n"@);
    }
    if l.touched_files.len() == 0 && l.latest_todo is None && l.summaries.len() == 0
        && l.commits.len() == 1 {
        assert(text =~= head + "Commits made:\n"@ + "  - "@ + l.commits[0] + "\n"@);
    }
    if l.touched_files.len() == 0 && l.latest_todo is None && l.commits.len() == 0
        && l.summaries.len() == 1 {
        assert(text =~= head + "Summary of earlier discussion:\n"@ + "  - "@ + l.summaries[0]
            + "\n"@);
    }
}

/// What is summarised is what the user and the assistant said, in its order and
/// under their names; nothing else, and no blank message.
pub proof fn law_said_text_is_summarised(
    a: Seq<MessageView>,
    b: Seq<MessageView>,
    m: MessageView,
)
    ensures
        transcript_lines(a + b) == transcript_lines(a) + transcript_lines(b),
        transcript_lines(seq![m]) == if trim(message_text(m)).len() == 0 {
            Seq::empty()
        } else {
            match m.role {
                Role::User => seq!["User"@ + ": "@ + message_text(m)],
                Role::Assistant => seq!["Assistant"@ + ": "@ + message_text(m)],
                _ => Seq::empty(),
            }
        },
    decreases b.len(),
{
    assert(seq![m].drop_last() =~= Seq::empty());
    reveal_with_fuel(transcript_lines, 2);
    if let Some(line) = crate::ledger::transcript_line(m) {
        assert(transcript_lines(seq![m]) =~= seq![line]);
    }
    if b.len() == 0 {
        assert(a + b =~= a);
        assert(transcript_lines(a) + transcript_lines(b) =~= transcript_lines(a));
    } else {
        law_said_text_is_summarised(a, b.drop_last(), m);
        assert((a + b).drop_last() =~= a + b.drop_last());
        assert(transcript_lines(a + b) =~= transcript_lines(a) + transcript_lines(b));
    }
}

} // verus!
