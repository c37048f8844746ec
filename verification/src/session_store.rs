//! Sessions that are kept for later.
use vstd::prelude::*;

use crate::json::{
    array_member, canonical, distinct_keys, entry, json_parsed, json_pretty,
    lemma_canonical_well_keyed, lemma_member, member, number_of, number_tree, number_value,
    readable, text_member, u64_member, well_keyed, Json, JsonTree, READ_DEPTH,
};
use crate::mentions::{join_path, path_join};
use crate::message::{message_text, Message, MessageView, Role};
use crate::message_json::{
    law_messages_survive_json, message_trees, messages_from, messages_json, read_messages,
};
use crate::model::{group_views, opt_view, views};
use crate::reporter::{truncate, truncated};
use crate::text::{
    alnum, chars_of, decimal, decimal_text, ends_with, has_prefix, has_suffix, is_alnum, is_digit,
    starts_with, text_range, trim, trimmed,
};

verus! {

broadcast use group_views;

/// The number of characters of a summary.
pub const SUMMARY_CHARS: usize = 80;

/// A session as it is kept.
pub struct SessionRecord {
    pub id: String,
    /// Times are in seconds.
    pub created_at: u64,
    pub updated_at: u64,
    pub system_prompt: String,
    pub messages: Vec<Message>,
    pub summary: String,
    /// A turn was started and has not come to its end.
    pub interrupted: bool,
}

#[verifier::ext_equal]
pub struct RecordView {
    pub id: Seq<char>,
    pub created_at: u64,
    pub updated_at: u64,
    pub system_prompt: Seq<char>,
    pub messages: Seq<MessageView>,
    pub summary: Seq<char>,
    pub interrupted: bool,
}

impl View for SessionRecord {
    type V = RecordView;

    open spec fn view(&self) -> RecordView {
        RecordView {
            id: self.id@,
            created_at: self.created_at,
            updated_at: self.updated_at,
            system_prompt: self.system_prompt@,
            messages: views(self.messages@),
            summary: self.summary@,
            interrupted: self.interrupted,
        }
    }
}

/// A session that has not run yet.
pub open spec fn empty_record(id: Seq<char>, now: u64) -> RecordView {
    RecordView {
        id,
        created_at: now,
        updated_at: now,
        system_prompt: Seq::empty(),
        messages: Seq::empty(),
        summary: Seq::empty(),
        interrupted: false,
    }
}

/// The lower-case hexadecimal digits.
pub open spec fn is_hex(c: char) -> bool {
    is_digit(c) || 'a' <= c <= 'f'
}

/// The form of a random identifier: groups of hexadecimal digits, with the
/// digit of the version and one of those for the variant.
pub open spec fn is_random_id(s: Seq<char>) -> bool {
    &&& s.len() == 36
    &&& forall|i: int|
        0 <= i < 36 ==> if i == 8 || i == 13 || i == 18 || i == 23 {
            #[trigger] s[i] == '-'
        } else {
            is_hex(s[i])
        }
    &&& s[14] == '4'
    &&& (s[19] == '8' || s[19] == '9' || s[19] == 'a' || s[19] == 'b')
}

/// `uuid::Uuid::new_v4` as text: a random identifier. Its form is claimed, and
/// nothing of its digits.
#[verifier::external_body]
fn random_id() -> (r: String)
    ensures
        is_random_id(r@),
{
    uuid::Uuid::new_v4().to_string()
}

impl SessionRecord {
    /// A new session with an identifier of its own.
    pub fn new(now: u64) -> (r: SessionRecord)
        ensures
            is_random_id(r@.id),
            r@ == empty_record(r@.id, now),
    {
        SessionRecord::with_id(random_id(), now)
    }

    /// A new session with a given identifier.
    pub fn with_id(id: String, now: u64) -> (r: SessionRecord)
        ensures
            r@ == empty_record(id@, now),
    {
        SessionRecord {
            id,
            created_at: now,
            updated_at: now,
            system_prompt: String::new(),
            messages: Vec::new(),
            summary: String::new(),
            interrupted: false,
        }
    }
}

/// The characters of an identifier.
pub open spec fn is_key_char(c: char) -> bool {
    is_alnum(c) || c == '-' || c == '.' || c == '_'
}

/// A text with the characters that cannot stand in an identifier replaced.
pub open spec fn sanitized(s: Seq<char>) -> Seq<char> {
    Seq::new(
        s.len(),
        |i: int|
            if is_alnum(s[i]) || s[i] == '-' || s[i] == '.' {
                s[i]
            } else {
                '_'
            },
    )
}

/// The identifier of the session that works on `text`.
pub fn session_key(prefix: &str, text: &str) -> (r: String)
    ensures
        r@ == prefix@ + sanitized(text@),
{
    let v = chars_of(text);
    let mut r = prefix.to_owned();
    assert(sanitized(text@).take(0) =~= Seq::empty());
    for i in 0..v.len()
        invariant
            v@ == text@,
            r@ == prefix@ + sanitized(text@).take(i as int),
    {
        let c = v[i];
        r.push(
            if alnum(c) || c == '-' || c == '.' {
                c
            } else {
                '_'
            },
        );
        assert(r@ =~= prefix@ + sanitized(text@).take(i + 1));
    }
    assert(sanitized(text@).take(v@.len() as int) == sanitized(text@));
    r
}

/// The identifier of the session that works on the file with this path.
pub fn key_for_path(canonical: &str) -> (r: String)
    ensures
        r@ == "loop-"@ + sanitized(canonical@),
{
    session_key("loop-", canonical)
}

/// An identifier made from a path can stand in a file name, whatever the path.
pub proof fn law_keys_are_file_names(path: Seq<char>)
    ensures
        forall|i: int|
            0 <= i < ("loop-"@ + sanitized(path)).len() ==> is_key_char(
                #[trigger] ("loop-"@ + sanitized(path))[i],
            ),
{
    reveal_strlit("loop-");
}

/// Paths of the usual characters have identifiers of their own.
pub proof fn law_keys_tell_plain_paths_apart(a: Seq<char>, b: Seq<char>)
    requires
        forall|i: int| 0 <= i < a.len() ==> is_key_char(#[trigger] a[i]) || a[i] == '/',
        forall|i: int| 0 <= i < b.len() ==> is_key_char(#[trigger] b[i]) || b[i] == '/',
        forall|i: int| 0 <= i < a.len() ==> #[trigger] a[i] != '_',
        forall|i: int| 0 <= i < b.len() ==> #[trigger] b[i] != '_',
        "loop-"@ + sanitized(a) == "loop-"@ + sanitized(b),
    ensures
        a == b,
{
    let p = "loop-"@;
    assert((p + sanitized(a)).skip(p.len() as int) =~= sanitized(a));
    assert((p + sanitized(b)).skip(p.len() as int) =~= sanitized(b));
    assert forall|i: int| 0 <= i < a.len() implies a[i] == b[i] by {
        assert(sanitized(a)[i] == sanitized(b)[i]);
    }
    assert(a =~= b);
}

/// The directory of the sessions of a project.
pub open spec fn sessions_path(working_dir: Seq<char>) -> Seq<char> {
    path_join(path_join(working_dir, ".agent"@), "sessions"@)
}

/// The directory of the sessions of a project.
pub fn sessions_dir(working_dir: &str) -> (r: String)
    ensures
        r@ == sessions_path(working_dir@),
{
    join_path(join_path(working_dir, ".agent").as_str(), "sessions")
}

/// The file of a session.
pub open spec fn record_path(working_dir: Seq<char>, id: Seq<char>) -> Seq<char> {
    path_join(sessions_path(working_dir), id + ".json"@)
}

/// The file of a session.
pub fn path_for(working_dir: &str, id: &str) -> (r: String)
    ensures
        r@ == record_path(working_dir@, id@),
{
    let mut name = id.to_owned();
    name.append(".json");
    join_path(sessions_dir(working_dir).as_str(), name.as_str())
}

/// The first message of the user from `i` on.
pub open spec fn first_user(ms: Seq<MessageView>, i: int) -> Option<int>
    decreases ms.len() - i,
{
    if i < 0 || i >= ms.len() {
        None
    } else if ms[i].role == Role::User {
        Some(i)
    } else {
        first_user(ms, i + 1)
    }
}

/// A line that says what a conversation is about: how the user began.
pub open spec fn summary_of(ms: Seq<MessageView>) -> Seq<char> {
    match first_user(ms, 0) {
        Some(i) => truncated(trim(message_text(ms[i])), SUMMARY_CHARS as nat),
        None => Seq::empty(),
    }
}

/// A line that says what a conversation is about.
pub fn summarize(messages: &Vec<Message>) -> (r: String)
    ensures
        r@ == summary_of(views(messages@)),
{
    let ghost all = views(messages@);
    let n: usize = messages.len();
    let mut i: usize = 0;
    while i < n && messages[i].role != Role::User
        invariant
            n == messages@.len(),
            i <= n,
            all == views(messages@),
            first_user(all, 0) == first_user(all, i as int),
        decreases n - i,
    {
        assert(all[i as int].role != Role::User);
        i += 1;
    }
    if i < n {
        assert(all[i as int].role == Role::User);
        let text = messages[i].text();
        truncate(trimmed(text.as_str()).as_str(), SUMMARY_CHARS)
    } else {
        String::new()
    }
}

/// A record as it is written: with the time and the summary of now.
pub open spec fn refreshed(r: RecordView, now: u64) -> RecordView {
    RecordView { updated_at: now, summary: summary_of(r.messages), ..r }
}

/// A record when a turn is over.
pub open spec fn concluded(
    r: RecordView,
    system_prompt: Seq<char>,
    messages: Seq<MessageView>,
    now: u64,
) -> RecordView {
    refreshed(RecordView { system_prompt, messages, interrupted: false, ..r }, now)
}

/// A record when a turn starts.
pub open spec fn started(r: RecordView, now: u64) -> RecordView {
    refreshed(RecordView { interrupted: true, ..r }, now)
}

impl SessionRecord {
    /// Brings the time and the summary up to date, before the record is
    /// written.
    pub fn refresh(&mut self, now: u64)
        ensures
            final(self)@ == refreshed(old(self)@, now),
    {
        self.updated_at = now;
        self.summary = summarize(&self.messages);
    }

    /// Takes over the conversation when a turn is over.
    pub fn conclude_turn(&mut self, system_prompt: String, messages: Vec<Message>, now: u64)
        ensures
            final(self)@ == concluded(old(self)@, system_prompt@, views(messages@), now),
    {
        self.system_prompt = system_prompt;
        self.messages = messages;
        self.interrupted = false;
        self.refresh(now);
    }

    /// Notes that a turn starts.
    pub fn mark_turn_started(&mut self, now: u64)
        ensures
            final(self)@ == started(old(self)@, now),
    {
        self.interrupted = true;
        self.refresh(now);
    }
}

/// The identifier of a session file with this name; other files have none.
pub open spec fn record_id(name: Seq<char>) -> Option<Seq<char>> {
    if ends_with(name, ".json"@) && name.len() > ".json"@.len() {
        Some(name.take(name.len() - ".json"@.len()))
    } else {
        None
    }
}

/// The identifier of a session file with this name.
pub fn id_of_file(name: &str) -> (r: Option<String>)
    ensures
        opt_view(r) == record_id(name@),
{
    let n: usize = name.unicode_len();
    let k: usize = ".json".unicode_len();
    if n > k && has_suffix(name, ".json") {
        let v = chars_of(name);
        assert(v@.subrange(0, n - k) == v@.take(n - k));
        Some(text_range(&v, 0, n - k))
    } else {
        None
    }
}

/// The identifiers among some files that start with `id`.
pub open spec fn matching_ids(names: Seq<Seq<char>>, id: Seq<char>) -> Seq<Seq<char>>
    decreases names.len(),
{
    if names.len() == 0 {
        Seq::empty()
    } else {
        let rest = matching_ids(names.drop_last(), id);
        match record_id(names.last()) {
            Some(found) if starts_with(found, id) => rest.push(found),
            _ => rest,
        }
    }
}

/// The file of the session with this identifier, or with the one identifier
/// that starts so.
pub open spec fn found_record(
    working_dir: Seq<char>,
    id: Seq<char>,
    exact: bool,
    names: Seq<Seq<char>>,
) -> Result<Option<Seq<char>>, Seq<char>> {
    let found = matching_ids(names, id);
    if exact {
        Ok(Some(record_path(working_dir, id)))
    } else if found.len() == 0 {
        Ok(None)
    } else if found.len() == 1 {
        Ok(Some(record_path(working_dir, found[0])))
    } else {
        Err(
            "session id '"@ + id + "' is ambiguous ("@ + decimal(found.len()) + " matches)"@,
        )
    }
}

/// The file to load for an identifier. `exact` tells whether the file of that
/// very identifier exists, and `names` are the names of all files beside it.
pub fn load_by_id(working_dir: &str, id: &str, exact: bool, names: &Vec<String>) -> (r: Result<
    Option<String>,
    String,
>)
    ensures
        match r {
            Ok(p) => found_record(working_dir@, id@, exact, views(names@)) == Ok::<
                Option<Seq<char>>,
                Seq<char>,
            >(opt_view(p)),
            Err(e) => found_record(working_dir@, id@, exact, views(names@)) == Err::<
                Option<Seq<char>>,
                Seq<char>,
            >(e@),
        },
{
    if exact {
        return Ok(Some(path_for(working_dir, id)));
    }
    let ghost all = views(names@);
    let mut found: Vec<String> = Vec::new();
    for i in 0..names.len()
        invariant
            all == views(names@),
            views(found@) == matching_ids(all.take(i as int), id@),
    {
        assert(all.take(i + 1).drop_last() == all.take(i as int));
        if let Some(x) = id_of_file(names[i].as_str()) {
            if has_prefix(x.as_str(), id) {
                found.push(x);
            }
        }
    }
    assert(all.take(all.len() as int) == all);
    let n: usize = found.len();
    if n == 0 {
        Ok(None)
    } else if n == 1 {
        Ok(Some(path_for(working_dir, found[0].as_str())))
    } else {
        let mut e = "session id '".to_owned();
        e.append(id);
        e.append("' is ambiguous (");
        e.append(decimal_text(n as u64).as_str());
        e.append(" matches)");
        Err(e)
    }
}

/// The record that was changed last; of two with the same time the first.
pub open spec fn newest(rs: Seq<RecordView>) -> Option<int>
    decreases rs.len(),
{
    if rs.len() == 0 {
        None
    } else {
        match newest(rs.drop_last()) {
            Some(b) => if rs.last().updated_at > rs[b].updated_at {
                Some(rs.len() - 1)
            } else {
                Some(b)
            },
            None => Some(rs.len() - 1),
        }
    }
}

/// The most recently updated of some records.
pub fn load_latest(records: Vec<SessionRecord>) -> (r: Option<SessionRecord>)
    ensures
        match newest(views(records@)) {
            Some(b) => r matches Some(x) && 0 <= b < records@.len() && x@ == views(records@)[b],
            None => r is None,
        },
{
    let ghost all = views(records@);
    let ghost items = records@;
    let mut best: Option<SessionRecord> = None;
    for record in it: records
        invariant
            it.seq() == items,
            all == views(items),
            match newest(all.take(it.index() as int)) {
                Some(b) => best matches Some(x) && 0 <= b < it.index() && x@ == all[b],
                None => best is None,
            },
    {
        let ghost i = it.index();
        assert(all.take(i + 1).drop_last() == all.take(i as int));
        assert(all.take(i + 1).last() == record@);
        let better = match &best {
            Some(b) => record.updated_at > b.updated_at,
            None => true,
        };
        if better {
            best = Some(record);
        }
    }
    assert(all.take(all.len() as int) == all);
    best
}

/// What is loaded as the latest session is one of them, and none is newer.
pub proof fn law_latest_is_newest(rs: Seq<RecordView>)
    requires
        rs.len() > 0,
    ensures
        newest(rs) matches Some(b) && 0 <= b < rs.len() && forall|i: int|
            0 <= i < rs.len() ==> (#[trigger] rs[i]).updated_at <= rs[b].updated_at,
    decreases rs.len(),
{
    reveal_with_fuel(newest, 2);
    let front = rs.drop_last();
    if front.len() > 0 {
        law_latest_is_newest(front);
        assert forall|i: int| 0 <= i < rs.len() implies (#[trigger] rs[i]).updated_at
            <= rs[newest(rs).unwrap()].updated_at by {
            if i < front.len() {
                assert(front[i] == rs[i]);
            }
        }
    }
}

/// Whether an interactive start goes on with a session, if it is the last one: a
/// turn of it never came to its end.
pub open spec fn is_resumed(r: RecordView) -> bool {
    r.interrupted
}

/// The session that an interactive start goes on with, if any.
pub fn to_resume(latest: Option<SessionRecord>) -> (r: Option<SessionRecord>)
    ensures
        match latest {
            Some(prior) => if is_resumed(prior@) {
                r == Some(prior)
            } else {
                r is None
            },
            None => r is None,
        },
{
    match latest {
        Some(prior) => {
            if prior.interrupted {
                Some(prior)
            } else {
                None
            }
        },
        None => None,
    }
}

/// What is recorded of a session's turns.
pub enum TurnMark {
    Start { now: u64 },
    End { system_prompt: Seq<char>, messages: Seq<MessageView>, now: u64 },
}

/// The record of a session after some marks.
pub open spec fn marked(r: RecordView, marks: Seq<TurnMark>) -> RecordView
    decreases marks.len(),
{
    if marks.len() == 0 {
        r
    } else {
        match marks.last() {
            TurnMark::Start { now } => started(marked(r, marks.drop_last()), now),
            TurnMark::End { system_prompt, messages, now } => concluded(
                marked(r, marks.drop_last()),
                system_prompt,
                messages,
                now,
            ),
        }
    }
}

/// The conversation at the last end of a turn, or the first one.
pub open spec fn concluded_messages(first: Seq<MessageView>, marks: Seq<TurnMark>) -> Seq<
    MessageView,
>
    decreases marks.len(),
{
    if marks.len() == 0 {
        first
    } else {
        match marks.last() {
            TurnMark::Start { now } => concluded_messages(first, marks.drop_last()),
            TurnMark::End { system_prompt, messages, now } => messages,
        }
    }
}

/// A session is resumed exactly if the last that was recorded of it is the start
/// of a turn; what it resumes with is the conversation at the end of the turn
/// before.
pub proof fn law_only_cut_off_turns_are_resumed(r: RecordView, marks: Seq<TurnMark>)
    requires
        !r.interrupted,
    ensures
        is_resumed(marked(r, marks)) <==> marks.len() > 0 && marks.last() is Start,
        marked(r, marks).messages == concluded_messages(r.messages, marks),
        marked(r, marks).id == r.id,
    decreases marks.len(),
{
    if marks.len() > 0 {
        law_only_cut_off_turns_are_resumed(r, marks.drop_last());
    }
}

// ---------------------------------------------------------------------------
// The text of a session file
// ---------------------------------------------------------------------------

/// A session as JSON.
pub open spec fn record_tree(r: RecordView) -> JsonTree {
    JsonTree::Object(
        seq![
            ("id"@, JsonTree::Str(r.id)),
            ("created_at"@, number_tree(r.created_at)),
            ("updated_at"@, number_tree(r.updated_at)),
            ("system_prompt"@, JsonTree::Str(r.system_prompt)),
            ("messages"@, JsonTree::Array(message_trees(r.messages))),
            ("summary"@, JsonTree::Str(r.summary)),
            ("interrupted"@, JsonTree::Bool(r.interrupted)),
        ],
    )
}

/// A flag that may be absent, read from a member.
pub open spec fn flag_if_any(m: Option<JsonTree>) -> Option<bool> {
    match m {
        None => Some(false),
        Some(JsonTree::Bool(b)) => Some(b),
        _ => None,
    }
}

/// The session that a JSON value denotes. Whether it was interrupted may be
/// absent, and is then false.
pub open spec fn record_from(t: JsonTree) -> Option<RecordView> {
    match (
        text_member(t, "id"@),
        u64_member(t, "created_at"@),
        u64_member(t, "updated_at"@),
        text_member(t, "system_prompt"@),
        array_member(t, "messages"@),
        text_member(t, "summary"@),
        flag_if_any(member(t, "interrupted"@)),
    ) {
        (
            Some(id),
            Some(created_at),
            Some(updated_at),
            Some(system_prompt),
            Some(v),
            Some(summary),
            Some(interrupted),
        ) => match messages_from(v, 0) {
            Some(messages) => Some(
                RecordView {
                    id,
                    created_at,
                    updated_at,
                    system_prompt,
                    messages,
                    summary,
                    interrupted,
                },
            ),
            None => None,
        },
        _ => None,
    }
}

/// The session that the text of a file denotes.
pub open spec fn record_read(s: Seq<char>) -> Option<RecordView> {
    match json_parsed(s) {
        Some(t) => record_from(t),
        None => None,
    }
}

/// How deep the messages of a session may be, within the session itself.
pub const MESSAGES_DEPTH: u8 = 126;

/// Whether the messages of a session name no member twice, and are not too deep
/// for a text that is read.
pub open spec fn plain_record(r: RecordView) -> bool {
    let messages = JsonTree::Array(message_trees(r.messages));
    well_keyed(messages) && readable(messages, MESSAGES_DEPTH as int)
}

proof fn lemma_record_keys(r: RecordView)
    ensures
        distinct_keys(record_tree(r)->Object_0),
{
    reveal_strlit("id");
    reveal_strlit("created_at");
    reveal_strlit("updated_at");
    reveal_strlit("system_prompt");
    reveal_strlit("messages");
    reveal_strlit("summary");
    reveal_strlit("interrupted");
    assert("id"@.len() == 2 && "created_at"@.len() == 10 && "updated_at"@.len() == 10);
    assert("created_at"@[0] == 'c' && "updated_at"@[0] == 'u');
    assert("system_prompt"@.len() == 13 && "messages"@.len() == 8 && "summary"@.len() == 7);
    assert("interrupted"@.len() == 11);
}

/// Reading a session that was written gives that session, where the numbers of
/// its times are the integers that they were made of.
proof fn lemma_record_survives(r: RecordView)
    requires
        number_value(number_of(r.created_at)) == Some(r.created_at),
        number_value(number_of(r.updated_at)) == Some(r.updated_at),
    ensures
        record_from(record_tree(r)) == Some(r),
{
    let m = record_tree(r)->Object_0;
    lemma_record_keys(r);
    lemma_member(m, 0);
    lemma_member(m, 1);
    lemma_member(m, 2);
    lemma_member(m, 3);
    lemma_member(m, 4);
    lemma_member(m, 5);
    lemma_member(m, 6);
    law_messages_survive_json(r.messages);
}

proof fn lemma_plain_record(r: RecordView)
    requires
        plain_record(r),
        number_value(number_of(r.created_at)) is Some,
        number_value(number_of(r.updated_at)) is Some,
    ensures
        well_keyed(record_tree(r)),
        readable(record_tree(r), READ_DEPTH as int),
{
    reveal_with_fuel(well_keyed, 2);
    reveal_with_fuel(readable, 2);
    lemma_record_keys(r);
}

impl SessionRecord {
    /// The session as JSON.
    pub fn to_json(&self) -> (r: Json)
        ensures
            r@ == record_tree(self@),
            record_from(r@) == Some(self@),
            plain_record(self@) ==> well_keyed(r@) && readable(r@, READ_DEPTH as int),
    {
        let mut m: Vec<(String, Json)> = Vec::new();
        m.push(entry("id", Json::Str(self.id.clone())));
        m.push(entry("created_at", Json::number(self.created_at)));
        m.push(entry("updated_at", Json::number(self.updated_at)));
        m.push(entry("system_prompt", Json::Str(self.system_prompt.clone())));
        m.push(entry("messages", messages_json(&self.messages)));
        m.push(entry("summary", Json::Str(self.summary.clone())));
        m.push(entry("interrupted", Json::Bool(self.interrupted)));
        let r = Json::Object(m);
        assert(r@->Object_0 =~= record_tree(self@)->Object_0);
        proof {
            lemma_record_survives(self@);
            if plain_record(self@) {
                lemma_plain_record(self@);
            }
        }
        r
    }

    /// Whether the text of the session's file reads back as the session.
    pub fn reads_back(&self) -> (r: bool)
        ensures
            r == plain_record(self@),
    {
        let messages = messages_json(&self.messages);
        messages.is_well_keyed() && messages.is_readable(MESSAGES_DEPTH)
    }

    /// The session that a JSON value denotes.
    pub fn from_json(j: &Json) -> (r: Option<SessionRecord>)
        ensures
            opt_view(r) == record_from(j@),
    {
        let interrupted = match j.get("interrupted") {
            None => false,
            Some(Json::Bool(b)) => *b,
            _ => {
                return None;
            },
        };
        match (
            j.get_text("id"),
            j.get_u64("created_at"),
            j.get_u64("updated_at"),
            j.get_text("system_prompt"),
            j.get_array("messages"),
            j.get_text("summary"),
        ) {
            (
                Some(id),
                Some(created_at),
                Some(updated_at),
                Some(system_prompt),
                Some(v),
                Some(summary),
            ) => match read_messages(v) {
                Some(messages) => Some(
                    SessionRecord {
                        id: id.clone(),
                        created_at,
                        updated_at,
                        system_prompt: system_prompt.clone(),
                        messages,
                        summary: summary.clone(),
                        interrupted,
                    },
                ),
                None => None,
            },
            _ => None,
        }
    }

    /// The text of the session's file. Where its messages are plain,
    /// reading the text gives the session again.
    pub fn to_text(&self) -> (r: String)
        ensures
            r@ == json_pretty(canonical(record_tree(self@))),
            plain_record(self@) ==> record_read(r@) == Some(self@),
    {
        let j = self.to_json();
        proof {
            if plain_record(self@) {
                lemma_canonical_well_keyed(j@);
            }
        }
        j.pretty()
    }

    /// The session that the text of a file denotes; none where it denotes
    /// none.
    pub fn from_text(s: &str) -> (r: Option<SessionRecord>)
        ensures
            opt_view(r) == record_read(s@),
    {
        match Json::parse(s) {
            Some(j) => SessionRecord::from_json(&j),
            None => None,
        }
    }
}

} // verus!
