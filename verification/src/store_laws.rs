//! How sessions are named, kept and found again.
use vstd::prelude::*;

use crate::json::{distinct_keys, json_parsed, readable, well_keyed, JsonTree};
use crate::mentions::path_join;
use crate::message::{message_text, MessageView, Role};
use crate::message_json::{block_trees, message_tree, message_trees};
use crate::reporter::truncated;
use crate::session_store::{
    concluded, empty_record, first_user, found_record, matching_ids, newest, plain_record,
    record_from, record_id, record_read, record_path,
    refreshed, sanitized, sessions_path, started, summary_of, RecordView,
};
use crate::text::{decimal, ends_with, is_alnum, starts_with, trim};

verus! {

/// A new session holds nothing but its name and the time.
pub proof fn law_new_session_is_empty(id: Seq<char>, now: u64)
    ensures
        empty_record(id, now).id == id,
        empty_record(id, now).created_at == now,
        empty_record(id, now).updated_at == now,
        empty_record(id, now).messages.len() == 0,
        empty_record(id, now).system_prompt.len() == 0,
        empty_record(id, now).summary.len() == 0,
        !empty_record(id, now).interrupted,
{
}

/// In a name that is made from a path, letters, digits, hyphens and dots stay, and
/// all else becomes an underscore.
pub proof fn law_path_becomes_a_name(s: Seq<char>)
    ensures
        sanitized(s).len() == s.len(),
        forall|i: int|
            0 <= i < s.len() ==> #[trigger] sanitized(s)[i] == if is_alnum(s[i]) || s[i] == '-'
                || s[i] == '.' {
                s[i]
            } else {
                '_'
            },
{
}

/// The sessions of a project stand in a directory of their own, each in a file
/// with its name.
pub proof fn law_session_has_a_file(dir: Seq<char>, id: Seq<char>)
    requires
        dir.len() > 0,
        dir.last() != '/',
        id.len() == 0 || id[0] != '/',
    ensures
        sessions_path(dir) == dir + "/"@ + ".agent"@ + "/"@ + "sessions"@,
        record_path(dir, id) == sessions_path(dir) + "/"@ + (id + ".json"@),
{
    reveal_strlit(".agent");
    reveal_strlit("sessions");
    reveal_strlit(".json");
    reveal_strlit("/");
    assert(".agent"@[0] == '.');
    assert("sessions"@[0] == 's');
    let a = path_join(dir, ".agent"@);
    assert(a == dir + "/"@ + ".agent"@);
    assert(a.last() == ".agent"@.last());
    assert(".agent"@.last() == 't');
    let b = path_join(a, "sessions"@);
    assert(b.last() == "sessions"@.last());
    assert("sessions"@.last() == 's');
    assert(".json"@[0] == '.');
    let f = id + ".json"@;
    assert(f[0] != '/') by {
        if id.len() > 0 {
            assert(f[0] == id[0]);
        } else {
            assert(f[0] == ".json"@[0]);
        }
    }
}

proof fn lemma_first_user(ms: Seq<MessageView>, i: int)
    requires
        0 <= i,
    ensures
        match first_user(ms, i) {
            Some(k) => i <= k < ms.len() && ms[k].role == Role::User && forall|j: int|
                i <= j < k ==> (#[trigger] ms[j]).role != Role::User,
            None => forall|j: int| i <= j < ms.len() ==> (#[trigger] ms[j]).role != Role::User,
        },
    decreases ms.len() - i,
{
    if i < ms.len() && ms[i].role != Role::User {
        lemma_first_user(ms, i + 1);
    }
}

/// A session is summed up by how the user began: by the first message in the
/// user's name, in one line of at most eighty characters.
pub proof fn law_summary_is_how_the_user_began(ms: Seq<MessageView>, k: int)
    requires
        0 <= k < ms.len(),
        ms[k].role == Role::User,
        forall|j: int| 0 <= j < k ==> (#[trigger] ms[j]).role != Role::User,
    ensures
        summary_of(ms) == truncated(trim(message_text(ms[k])), 80),
{
    lemma_first_user(ms, 0);
}

/// A session in which the user has said nothing has no summary.
pub proof fn law_silent_session_has_no_summary(ms: Seq<MessageView>)
    requires
        forall|j: int| 0 <= j < ms.len() ==> (#[trigger] ms[j]).role != Role::User,
    ensures
        summary_of(ms).len() == 0,
{
    lemma_first_user(ms, 0);
}

/// The start of a turn marks the session as cut off, with the time and the
/// summary of now; nothing else changes.
pub proof fn law_start_marks_the_session(r: RecordView, now: u64)
    ensures
        started(r, now).interrupted,
        started(r, now).updated_at == now,
        started(r, now).created_at == r.created_at,
        started(r, now).id == r.id,
        started(r, now).messages == r.messages,
        started(r, now).system_prompt == r.system_prompt,
        started(r, now).summary == summary_of(r.messages),
{
}

/// The end of a turn records the conversation, and takes the mark away.
pub proof fn law_end_records_the_conversation(
    r: RecordView,
    prompt: Seq<char>,
    messages: Seq<MessageView>,
    now: u64,
)
    ensures
        !concluded(r, prompt, messages, now).interrupted,
        concluded(r, prompt, messages, now).messages == messages,
        concluded(r, prompt, messages, now).system_prompt == prompt,
        concluded(r, prompt, messages, now).summary == summary_of(messages),
        concluded(r, prompt, messages, now).updated_at == now,
        concluded(r, prompt, messages, now).created_at == r.created_at,
        concluded(r, prompt, messages, now).id == r.id,
        refreshed(r, now).interrupted == r.interrupted,
{
}

/// The files of sessions are those with a name before `.json`.
pub proof fn law_session_files_end_in_json(id: Seq<char>, name: Seq<char>)
    ensures
        id.len() > 0 ==> record_id(id + ".json"@) == Some(id),
        record_id(name) matches Some(found) ==> name == found + ".json"@ && found.len() > 0,
{
    let n = id.len() as int;
    let f = id + ".json"@;
    assert(f.skip(n) =~= ".json"@);
    assert(f.take(n) =~= id);
    assert(f.len() - ".json"@.len() == n);
    assert(ends_with(f, ".json"@));
    if let Some(found) = record_id(name) {
        let k = name.len() - ".json"@.len();
        assert(name =~= name.take(k) + name.skip(k));
    }
}

/// The sessions that a start of a name may mean, each in its place.
pub proof fn law_start_of_a_name_finds_sessions(
    a: Seq<Seq<char>>,
    b: Seq<Seq<char>>,
    name: Seq<char>,
    id: Seq<char>,
)
    ensures
        matching_ids(a + b, id) == matching_ids(a, id) + matching_ids(b, id),
        matching_ids(seq![name], id) == match record_id(name) {
            Some(found) => if id.len() <= found.len() && found.take(id.len() as int) == id {
                seq![found]
            } else {
                Seq::empty()
            },
            None => Seq::empty(),
        },
    decreases b.len(),
{
    assert(seq![name].drop_last() =~= Seq::empty());
    reveal_with_fuel(matching_ids, 2);
    if let Some(found) = record_id(name) {
        if starts_with(found, id) {
            assert(matching_ids(seq![name], id) =~= seq![found]);
        }
    }
    if b.len() == 0 {
        assert(a + b =~= a);
        assert(matching_ids(a, id) + matching_ids(b, id) =~= matching_ids(a, id));
    } else {
        law_start_of_a_name_finds_sessions(a, b.drop_last(), name, id);
        assert((a + b).drop_last() =~= a + b.drop_last());
        assert(matching_ids(a + b, id) =~= matching_ids(a, id) + matching_ids(b, id));
    }
}

/// A session is found by its whole name, or by the start of one name alone; the
/// start of several is an error, and that of none finds nothing.
pub proof fn law_session_is_found(
    dir: Seq<char>,
    id: Seq<char>,
    names: Seq<Seq<char>>,
    only: Seq<char>,
)
    ensures
        found_record(dir, id, true, names) == Ok::<Option<Seq<char>>, Seq<char>>(
            Some(record_path(dir, id)),
        ),
        matching_ids(names, id).len() == 0 ==> found_record(dir, id, false, names) == Ok::<
            Option<Seq<char>>,
            Seq<char>,
        >(None),
        matching_ids(names, id) == seq![only] ==> found_record(dir, id, false, names) == Ok::<
            Option<Seq<char>>,
            Seq<char>,
        >(Some(record_path(dir, only))),
        matching_ids(names, id).len() > 1 ==> found_record(dir, id, false, names) == Err::<
            Option<Seq<char>>,
            Seq<char>,
        >(
            "session id '"@ + id + "' is ambiguous ("@ + decimal(matching_ids(names, id).len())
                + " matches)"@,
        ),
{
}

/// Of sessions with the same time the first is the latest; without one there is
/// none.
pub proof fn law_first_of_the_newest(rs: Seq<RecordView>)
    ensures
        newest(rs) is None <==> rs.len() == 0,
        newest(rs) matches Some(b) ==> 0 <= b < rs.len() && (forall|i: int|
            0 <= i < rs.len() ==> (#[trigger] rs[i]).updated_at <= rs[b].updated_at) && forall|
            i: int,
        |
            0 <= i < b ==> (#[trigger] rs[i]).updated_at < rs[b].updated_at,
    decreases rs.len(),
{
    if rs.len() > 0 {
        let front = rs.drop_last();
        law_first_of_the_newest(front);
        let b = newest(rs)->0;
        assert forall|i: int| 0 <= i < rs.len() implies (#[trigger] rs[i]).updated_at
            <= rs[b].updated_at && (i < b ==> rs[i].updated_at < rs[b].updated_at) by {
            if i < front.len() {
                assert(front[i] == rs[i]);
            }
        }
    }
}

proof fn lemma_text_message(m: MessageView, depth: int)
    requires
        forall|j: int| 0 <= j < m.content.len() ==> (#[trigger] m.content[j]) is Text,
        m.metadata == JsonTree::Null,
        depth > 2,
    ensures
        well_keyed(message_tree(m)),
        readable(message_tree(m), depth),
{
    reveal_strlit("role");
    reveal_strlit("content");
    reveal_strlit("metadata");
    assert("role"@.len() == 4 && "content"@.len() == 7 && "metadata"@.len() == 8);
    let blocks = block_trees(m.content);
    assert forall|j: int| 0 <= j < blocks.len() implies well_keyed(#[trigger] blocks[j]) && readable(
        blocks[j],
        depth - 2,
    ) by {
        let text = m.content[j]->Text_0;
        assert(blocks[j] == JsonTree::Object(seq![("text"@, JsonTree::Str(text))]));
        let one = seq![("text"@, JsonTree::Str(text))];
        assert(one[0].1 == JsonTree::Str(text));
        assert(well_keyed(JsonTree::Str(text)) && readable(JsonTree::Str(text), depth - 3));
        assert(distinct_keys(one));
    }
    let t = message_tree(m);
    let members = t->Object_0;
    assert(members[1].1 == JsonTree::Array(blocks));
    assert(well_keyed(JsonTree::Array(blocks)));
    assert(readable(JsonTree::Array(blocks), depth - 1));
    assert(well_keyed(members[0].1) && readable(members[0].1, depth - 1));
    assert(well_keyed(members[2].1) && readable(members[2].1, depth - 1));
    assert(distinct_keys(members));
    assert forall|i: int| 0 <= i < members.len() implies well_keyed((#[trigger] members[i]).1)
        && readable(members[i].1, depth - 1) by {
        assert(i == 0 || i == 1 || i == 2);
    }
}

/// A session in which only texts were said can be written and read.
pub proof fn law_session_of_texts_is_plain(r: RecordView)
    requires
        forall|i: int| 0 <= i < r.messages.len() ==> only_texts(#[trigger] r.messages[i]),
    ensures
        plain_record(r),
{
    let trees = message_trees(r.messages);
    assert forall|i: int| 0 <= i < trees.len() implies well_keyed(#[trigger] trees[i]) && readable(
        trees[i],
        125,
    ) by {
        assert(only_texts(r.messages[i]));
        lemma_text_message(r.messages[i], 125);
    }
}

/// Whether a message holds texts, and nothing else.
pub open spec fn only_texts(m: MessageView) -> bool {
    m.metadata == JsonTree::Null && forall|j: int|
        0 <= j < m.content.len() ==> (#[trigger] m.content[j]) is Text
}

/// A file is a session if its text is JSON that is one.
pub proof fn law_file_is_a_session(s: Seq<char>, t: JsonTree)
    ensures
        json_parsed(s) == Some(t) ==> record_read(s) == record_from(t),
        json_parsed(s) is None ==> record_read(s) is None,
{
}

} // verus!
