//! The forms in which things are written, kept and told.
use vstd::prelude::*;

use crate::ansi::{Color, SpanView};
use crate::ask_overlay::{key_help, modal_of, panel_lines, row_line, row_style, OverlayView};
use crate::cli::{dashes, keys_text, load_warning, prompt_text, Recurring};
use crate::config::{config_error_text, ConfigError};
use crate::history::{entries_in, escaped, history_of, history_record, unescaped};
use crate::hook_engine::{load_error_text, loaded_name, HookLoadError};
use crate::input_box::{before_cursor, columns, cursor_cell, InputOutcome};
use crate::input_text::{first_shown, line_of, lines_in};
use crate::json::{
    array_member, bool_member, canonical, lemma_member, member, member_at, number_tree, object_of,
    put, text_member, u64_member, JsonTree,
};
use crate::layout::{parts_of, Rect};
use crate::loop_mode::{asking, loop_error_text, LoopError};
use crate::manifest::{manifest_error_text, ManifestError};
use crate::markdown::{body_range, highlighted_code, overlaid, with_block, MdNodeView};
use crate::mcp::{mcp_error_text, McpToolError};
use crate::mentions::{completions, mention_hint, mention_token, EntryView};
use crate::message::{
    BlockView, MessageView, Role, ToolCallView, ToolResultContentView, ToolResultView,
};
use crate::message_json::{
    block_from, block_tree, blocks_from, call_from, call_tree, message_from, message_tree,
    messages_from, result_from, result_tree,
};
use crate::provider::{error_text, ProviderErrorView};
use crate::read_file::read_properties;
use crate::reporter::frame_text;
use crate::script::{items_of, json_of, Evaluation, StepView};
use crate::session_store::{record_from, record_tree, RecordView};
use crate::skill::{skill_error_text, SkillErrorView};
use crate::slash::{
    arg_candidate, command_candidate, commands_for, line_completions, line_hint, model_args,
    name_hint, CompletionStart,
};
use crate::suggest::byte_len;
use crate::text::{decimal, lines};
use crate::tool::property_tree;
use crate::transcript::rows;
use crate::tui::{line_step, LineActionView, LineEvent};

verus! {

// ---------------------------------------------------------------------------
// Messages as JSON
// ---------------------------------------------------------------------------

/// A message is kept with its role by name, its blocks in their order, and its
/// metadata.
pub proof fn law_message_is_kept_by_its_parts(m: MessageView)
    ensures
        text_member(message_tree(m), "role"@) == Some(
            match m.role {
                Role::System => "system"@,
                Role::User => "user"@,
                Role::Assistant => "assistant"@,
                Role::Tool => "tool"@,
            },
        ),
        array_member(message_tree(m), "content"@) matches Some(v) && v.len() == m.content.len()
            && forall|i: int| 0 <= i < v.len() ==> #[trigger] v[i] == block_tree(m.content[i]),
        member(message_tree(m), "metadata"@) == Some(m.metadata),
{
    reveal_strlit("role");
    reveal_strlit("content");
    reveal_strlit("metadata");
    assert("role"@.len() == 4 && "content"@.len() == 7 && "metadata"@.len() == 8);
    let t = message_tree(m)->Object_0;
    lemma_member(t, 0);
    lemma_member(t, 1);
    lemma_member(t, 2);
}

/// A block is an object with one member, which tells what it is; calls and
/// results are kept with the ids that tie them together.
pub proof fn law_block_is_kept_by_its_kind(
    text: Seq<char>,
    c: ToolCallView,
    r: ToolResultView,
    signature: Option<Seq<char>>,
)
    ensures
        block_tree(BlockView::Text(text)) == JsonTree::Object(seq![("text"@, JsonTree::Str(text))]),
        block_tree(BlockView::ToolUse(c)) == JsonTree::Object(seq![("tool_use"@, call_tree(c))]),
        block_tree(BlockView::ToolResult(r)) == JsonTree::Object(
            seq![("tool_result"@, result_tree(r))],
        ),
        block_tree(BlockView::Thinking { text, signature }) matches JsonTree::Object(m) && m.len()
            == 1 && m[0].0 == "thinking"@ && text_member(m[0].1, "text"@) == Some(text) && member(
            m[0].1,
            "signature"@,
        ) == Some(
            match signature {
                Some(s) => JsonTree::Str(s),
                None => JsonTree::Null,
            },
        ),
        text_member(call_tree(c), "id"@) == Some(c.id),
        text_member(call_tree(c), "name"@) == Some(c.name),
        member(call_tree(c), "arguments"@) == Some(c.arguments),
        text_member(result_tree(r), "tool_call_id"@) == Some(r.tool_call_id),
        bool_member(result_tree(r), "is_error"@) == Some(r.is_error),
        member(result_tree(r), "content"@) == Some(
            match r.content {
                ToolResultContentView::Text(t) => JsonTree::Str(t),
                ToolResultContentView::Blocks(v) => JsonTree::Array(v),
            },
        ),
{
    reveal_strlit("id");
    reveal_strlit("name");
    reveal_strlit("arguments");
    reveal_strlit("tool_call_id");
    reveal_strlit("content");
    reveal_strlit("is_error");
    assert("id"@.len() == 2 && "name"@.len() == 4 && "arguments"@.len() == 9);
    assert("tool_call_id"@.len() == 12 && "content"@.len() == 7 && "is_error"@.len() == 8);
    reveal_strlit("text");
    reveal_strlit("signature");
    assert("text"@.len() == 4 && "signature"@.len() == 9);
    let thoughts = crate::message_json::thinking_tree(text, signature)->Object_0;
    lemma_member(thoughts, 0);
    lemma_member(thoughts, 1);
    let t = call_tree(c)->Object_0;
    lemma_member(t, 0);
    lemma_member(t, 1);
    lemma_member(t, 2);
    let u = result_tree(r)->Object_0;
    lemma_member(u, 0);
    lemma_member(u, 1);
    lemma_member(u, 2);
}

proof fn lemma_at(m: Seq<(Seq<char>, JsonTree)>, key: Seq<char>)
    ensures
        match member_at(m, key) {
            Some(i) => 0 <= i < m.len() && m[i].0 == key && forall|j: int|
                0 <= j < i ==> (#[trigger] m[j]).0 != key,
            None => forall|j: int| 0 <= j < m.len() ==> (#[trigger] m[j]).0 != key,
        },
    decreases m.len(),
{
    if m.len() > 0 && m[0].0 != key {
        lemma_at(m.skip(1), key);
        match member_at(m.skip(1), key) {
            Some(i) => {
                assert forall|j: int| 0 <= j < i + 1 implies (#[trigger] m[j]).0 != key by {
                    if j > 0 {
                        assert(m.skip(1)[j - 1] == m[j]);
                    }
                }
            },
            None => {
                assert forall|j: int| 0 <= j < m.len() implies (#[trigger] m[j]).0 != key by {
                    if j > 0 {
                        assert(m.skip(1)[j - 1] == m[j]);
                    }
                }
            },
        }
    }
}

proof fn lemma_first(m: Seq<(Seq<char>, JsonTree)>, key: Seq<char>, i: int)
    requires
        0 <= i < m.len(),
        m[i].0 == key,
        forall|j: int| 0 <= j < i ==> (#[trigger] m[j]).0 != key,
    ensures
        member_at(m, key) == Some(i),
{
    lemma_at(m, key);
    match member_at(m, key) {
        Some(k) => {
            if k < i {
                assert(m[k].0 != key);
            }
            if i < k {
                assert(m[i].0 != key);
            }
        },
        None => {
            assert(m[i].0 != key);
        },
    }
}

/// A message without metadata has none; one with an unknown role, or with a block
/// that is none, is no message.
pub proof fn law_message_may_lack_metadata(role: Seq<char>, v: Seq<JsonTree>)
    ensures
        ({
            let t = JsonTree::Object(
                seq![("role"@, JsonTree::Str(role)), ("content"@, JsonTree::Array(v))],
            );
            &&& role == "user"@ ==> (blocks_from(v, 0) matches Some(b) ==> message_from(t) == Some(
                MessageView { role: Role::User, content: b, metadata: JsonTree::Null },
            ))
            &&& role == "assistant"@ ==> (blocks_from(v, 0) matches Some(b) ==> message_from(t)
                == Some(
                MessageView { role: Role::Assistant, content: b, metadata: JsonTree::Null },
            ))
            &&& role != "user"@ && role != "assistant"@ && role != "system"@ && role != "tool"@
                ==> message_from(t) is None
            &&& blocks_from(v, 0) is None ==> message_from(t) is None
        }),
{
    reveal_strlit("role");
    reveal_strlit("content");
    reveal_strlit("metadata");
    reveal_strlit("user");
    reveal_strlit("assistant");
    reveal_strlit("system");
    reveal_strlit("tool");
    assert("role"@.len() == 4 && "content"@.len() == 7 && "metadata"@.len() == 8);
    assert("user"@.len() == 4 && "assistant"@.len() == 9 && "system"@.len() == 6 && "tool"@.len()
        == 4);
    assert("user"@[0] == 'u' && "tool"@[0] == 't');
    let m = seq![("role"@, JsonTree::Str(role)), ("content"@, JsonTree::Array(v))];
    lemma_member(m, 0);
    lemma_member(m, 1);
    lemma_at(m, "metadata"@);
}

/// What is no object with one known member is no block.
pub proof fn law_other_values_are_no_blocks(
    m: Seq<(Seq<char>, JsonTree)>,
    name: Seq<char>,
    t: JsonTree,
    text: Seq<char>,
)
    ensures
        m.len() != 1 ==> block_from(JsonTree::Object(m)) is None,
        !(t is Object) ==> block_from(t) is None,
        block_from(JsonTree::Object(seq![("text"@, JsonTree::Str(text))])) == Some(
            BlockView::Text(text),
        ),
        name != "text"@ && name != "tool_use"@ && name != "tool_result"@ && name != "thinking"@
            ==> block_from(JsonTree::Object(seq![(name, t)])) is None,
{
}

/// A session is kept by its name, its times, its prompt, its messages, its
/// summary and whether it was cut off.
pub proof fn law_session_is_kept_by_its_parts(r: RecordView)
    ensures
        text_member(record_tree(r), "id"@) == Some(r.id),
        member(record_tree(r), "created_at"@) == Some(number_tree(r.created_at)),
        member(record_tree(r), "updated_at"@) == Some(number_tree(r.updated_at)),
        text_member(record_tree(r), "system_prompt"@) == Some(r.system_prompt),
        array_member(record_tree(r), "messages"@) matches Some(v) && v.len() == r.messages.len()
            && forall|i: int| 0 <= i < v.len() ==> #[trigger] v[i] == message_tree(r.messages[i]),
        text_member(record_tree(r), "summary"@) == Some(r.summary),
        bool_member(record_tree(r), "interrupted"@) == Some(r.interrupted),
{
    reveal_strlit("id");
    reveal_strlit("created_at");
    reveal_strlit("updated_at");
    reveal_strlit("system_prompt");
    reveal_strlit("messages");
    reveal_strlit("summary");
    reveal_strlit("interrupted");
    assert("id"@.len() == 2 && "created_at"@.len() == 10 && "updated_at"@.len() == 10
        && "system_prompt"@.len() == 13 && "messages"@.len() == 8 && "summary"@.len() == 7
        && "interrupted"@.len() == 11);
    assert("created_at"@[0] == 'c' && "updated_at"@[0] == 'u');
    let m = record_tree(r)->Object_0;
    lemma_member(m, 0);
    lemma_member(m, 1);
    lemma_member(m, 2);
    lemma_member(m, 3);
    lemma_member(m, 4);
    lemma_member(m, 5);
    lemma_member(m, 6);
}

// ---------------------------------------------------------------------------
// Objects
// ---------------------------------------------------------------------------

/// The value of a name is that of the first member with it; other values have no
/// members.
pub proof fn law_member_is_the_first_of_its_name(
    m: Seq<(Seq<char>, JsonTree)>,
    key: Seq<char>,
    i: int,
    t: JsonTree,
)
    ensures
        0 <= i < m.len() && m[i].0 == key && (forall|j: int|
            0 <= j < i ==> (#[trigger] m[j]).0 != key) ==> member(JsonTree::Object(m), key)
            == Some(m[i].1),
        (forall|j: int| 0 <= j < m.len() ==> (#[trigger] m[j]).0 != key) ==> member(
            JsonTree::Object(m),
            key,
        ) is None,
        !(t is Object) ==> member(t, key) is None,
        member(t, key) == Some(JsonTree::Str(key)) ==> text_member(t, key) == Some(key),
        member(t, key) matches Some(v) && !(v is Str) ==> text_member(t, key) is None,
        member(t, key) is None ==> text_member(t, key) is None && bool_member(t, key) is None
            && u64_member(t, key) is None && array_member(t, key) is None,
{
    if 0 <= i < m.len() && m[i].0 == key && (forall|j: int|
        0 <= j < i ==> (#[trigger] m[j]).0 != key) {
        lemma_first(m, key, i);
    }
    lemma_at(m, key);
}

proof fn lemma_put(m: Seq<(Seq<char>, JsonTree)>, key: Seq<char>, value: JsonTree, other: Seq<char>)
    ensures
        member(JsonTree::Object(put(m, key, value)), key) == Some(value),
        other != key ==> member(JsonTree::Object(put(m, key, value)), other) == member(
            JsonTree::Object(m),
            other,
        ),
{
    let p = put(m, key, value);
    lemma_at(m, key);
    lemma_at(m, other);
    lemma_at(p, other);
    match member_at(m, key) {
        Some(i) => {
            assert forall|j: int| 0 <= j < i implies (#[trigger] p[j]).0 != key by {
                assert(p[j] == m[j]);
            }
            lemma_first(p, key, i);
        },
        None => {
            assert forall|j: int| 0 <= j < m.len() implies (#[trigger] p[j]).0 != key by {
                assert(p[j] == m[j]);
            }
            lemma_first(p, key, m.len() as int);
        },
    }
    if other != key {
        match member_at(m, other) {
            Some(k) => {
                assert forall|j: int| 0 <= j < k implies (#[trigger] p[j]).0 != other by {
                    assert(m[j].0 != other);
                }
                lemma_first(p, other, k);
            },
            None => {
                if let Some(k) = member_at(p, other) {
                    if k < m.len() {
                        assert(m[k].0 != other);
                    }
                }
            },
        }
    }
}

/// Of members with the same name the last value counts, and no other name is
/// touched by it.
pub proof fn law_last_value_of_a_name_counts(pairs: Seq<(Seq<char>, JsonTree)>, k: int)
    requires
        0 <= k < pairs.len(),
        forall|j: int| k < j < pairs.len() ==> (#[trigger] pairs[j]).0 != pairs[k].0,
    ensures
        member(JsonTree::Object(object_of(pairs)), pairs[k].0) == Some(pairs[k].1),
    decreases pairs.len(),
{
    let front = pairs.drop_last();
    let last = pairs.last();
    lemma_put(object_of(front), last.0, last.1, pairs[k].0);
    if k < front.len() {
        assert forall|j: int| k < j < front.len() implies (#[trigger] front[j]).0 != front[k].0 by {
            assert(front[j] == pairs[j]);
        }
        law_last_value_of_a_name_counts(front, k);
        assert(pairs[pairs.len() - 1].0 != pairs[k].0);
    }
}

/// What is written of a value is the value, with the values of its items; of
/// members with the same name, one.
pub proof fn law_written_values_are_kept(v: Seq<JsonTree>, s: Seq<char>, b: bool, i: int)
    ensures
        canonical(JsonTree::Str(s)) == JsonTree::Str(s),
        canonical(JsonTree::Bool(b)) == JsonTree::Bool(b),
        canonical(JsonTree::Null) == JsonTree::Null,
        canonical(JsonTree::Array(v)) matches JsonTree::Array(w) && w.len() == v.len() && (0 <= i
            < v.len() ==> w[i] == canonical(v[i])),
{
}

// ---------------------------------------------------------------------------
// The history
// ---------------------------------------------------------------------------

/// In the history a line feed is written as a backslash and an `n`, a backslash
/// as two, and all else as it is.
pub proof fn law_history_escapes(a: Seq<char>, b: Seq<char>, c: char)
    ensures
        escaped(a + b) == escaped(a) + escaped(b),
        escaped(seq![c]) == if c == '\n' {
            seq!['\\', 'n']
        } else if c == '\\' {
            seq!['\\', '\\']
        } else {
            seq![c]
        },
    decreases a.len(),
{
    assert(seq![c].skip(1) =~= Seq::empty());
    reveal_with_fuel(escaped, 2);
    assert(escaped(seq![c]) =~= if c == '\n' {
        seq!['\\', 'n']
    } else if c == '\\' {
        seq!['\\', '\\']
    } else {
        seq![c]
    });
    if a.len() == 0 {
        assert(a + b =~= b);
        assert(escaped(a) + escaped(b) =~= escaped(b));
    } else {
        law_history_escapes(a.skip(1), b, c);
        assert((a + b).skip(1) =~= a.skip(1) + b);
        assert((a + b)[0] == a[0]);
        assert(escaped(a + b) =~= escaped(a) + escaped(b));
    }
}

/// An entry is a line; a new file starts with its version. A backslash before any
/// other character stands for itself.
pub proof fn law_history_entry_is_a_line(line: Seq<char>, c: char)
    ensures
        history_record(line, false) == escaped(line) + seq!['\n'],
        history_record(line, true) == "#V2"@ + seq!['\n'] + (escaped(line) + seq!['\n']),
        c != 'n' && c != '\\' ==> unescaped(seq!['\\', c]) == seq!['\\', c],
{
    assert(seq!['\\', c].skip(2) =~= Seq::empty());
    reveal_with_fuel(unescaped, 2);
    if c != 'n' && c != '\\' {
        assert(unescaped(seq!['\\', c]) =~= seq!['\\', c]);
    }
}

// ---------------------------------------------------------------------------
// Errors
// ---------------------------------------------------------------------------

/// What a provider's error says.
pub proof fn law_provider_errors_are_told(s: Seq<char>, status: u16, n: u64)
    ensures
        error_text(ProviderErrorView::Transport(s)) == "transport error: "@ + s,
        error_text(ProviderErrorView::Api { status, body: s })
            == "provider returned error status "@ + decimal(status as nat) + ": "@ + s,
        error_text(ProviderErrorView::Deserialize(s)) == "failed to parse provider response: "@ + s,
        error_text(ProviderErrorView::RateLimited { retry_after_secs: Some(n) })
            == "rate-limited, retry after Some("@ + decimal(n as nat) + ")s"@,
        error_text(ProviderErrorView::RateLimited { retry_after_secs: None })
            == "rate-limited, retry after Nones"@,
{
}

/// What the errors of loading say: what failed, where, and why.
pub proof fn law_loading_errors_are_told(
    c: ConfigError,
    h: HookLoadError,
    m: ManifestError,
    p: McpToolError,
)
    ensures
        match c {
            ConfigError::Io(path, reason) => config_error_text(c) == "failed to read "@ + path@
                + ": "@ + reason@,
            ConfigError::Parse(path, reason) => config_error_text(c) == "failed to parse "@ + path@
                + ": "@ + reason@,
        },
        match h {
            HookLoadError::Io(path, reason) => load_error_text(h)
                == "failed to read hooks directory "@ + path@ + ": "@ + reason@,
            HookLoadError::Mq(name, reason) => load_error_text(h)
                == "failed to load hook module '"@ + name@ + "': "@ + reason@,
        },
        match m {
            ManifestError::Read { path, reason } => manifest_error_text(m)
                == "failed to read manifest "@ + path@ + ": "@ + reason@,
            ManifestError::Parse { path, reason } => manifest_error_text(m)
                == "failed to parse manifest "@ + path@ + ": "@ + reason@,
        },
        match p {
            McpToolError::Manifest(e) => mcp_error_text(p) == manifest_error_text(e),
            McpToolError::Spawn { name, command, reason } => mcp_error_text(p) == "mcp server \""@
                + name@ + "\" failed to start `"@ + command@ + "`: "@ + reason@,
            McpToolError::Initialize { name, reason } => mcp_error_text(p) == "mcp server \""@
                + name@ + "\" failed to initialize: "@ + reason@,
            McpToolError::ListTools { name, reason } => mcp_error_text(p) == "mcp server \""@
                + name@ + "\" failed to list tools: "@ + reason@,
        },
{
}

/// What the errors of skills say.
pub proof fn law_skill_errors_are_told(a: Seq<char>, b: Seq<char>, c: Seq<char>)
    ensures
        skill_error_text(SkillErrorView::Io(a, b)) == "failed to read skills directory "@ + a
            + ": "@ + b,
        skill_error_text(SkillErrorView::MissingFrontmatter(a)) == "skill file "@ + a
            + " is missing '---' delimited frontmatter"@,
        skill_error_text(SkillErrorView::MissingField(a, b)) == "skill file "@ + a
            + " frontmatter is missing required field '"@ + b + "'"@,
        skill_error_text(SkillErrorView::DuplicateName { name: a, first: b, second: c })
            == "duplicate skill name '"@ + a + "' in "@ + b + " and "@ + c
            + " -- skill names must be unique"@,
{
}

/// What the ends of a loop say.
pub proof fn law_loop_errors_are_told(e: LoopError)
    ensures
        match e {
            LoopError::Query(reason) => loop_error_text(e) == "mq query failed: "@ + reason@,
            LoopError::Agent(err) => loop_error_text(e) == "agent turn failed: "@
                + crate::session::agent_error_text(err@),
            LoopError::Stalled(n) => loop_error_text(e) == "no progress after "@ + decimal(n as nat)
                + " consecutive iteration(s) (item count didn't decrease) -- stopping to avoid spinning forever"@,
            LoopError::MaxIterationsReached(n) => loop_error_text(e) == "reached the maximum of "@
                + decimal(n as nat)
                + " working iteration(s) -- stopping (raise MINDER_LOOP_MAX_ITERATIONS to allow more)"@,
        },
{
}

/// What failed to load is named by its module, or is the module of functions for
/// hooks.
pub proof fn law_failed_module_is_named(name: Seq<char>, code: Seq<char>, dir: Seq<char>)
    ensures
        loaded_name(StepView::Module(name)) == name,
        loaded_name(StepView::Eval(code)) == "agent"@,
        loaded_name(StepView::SearchDir(dir)) == "agent"@,
{
}

// ---------------------------------------------------------------------------
// Scripts
// ---------------------------------------------------------------------------

/// A query for open items is evaluated with the path of the file under its name.
pub proof fn law_query_knows_the_path(path: Seq<char>, query: Seq<char>)
    ensures
        asking(path, query).len() == 2,
        asking(path, query)[0] == (StepView::Define {
            name: "path"@,
            value: JsonTree::Str(path),
        }),
        asking(path, query)[1] == StepView::Eval(query),
{
}

/// An evaluation means its first value; without one it means nothing, and a
/// failure stays one.
pub proof fn law_evaluation_means_its_first_value(r: Evaluation)
    ensures
        match r {
            Ok(v) => {
                &&& v@.len() > 0 ==> json_of(r) == Ok::<JsonTree, Seq<char>>(
                    crate::script::runtime_json(v@[0]),
                ) && items_of(r) == Ok::<Option<Seq<Seq<char>>>, Seq<char>>(
                    crate::script::runtime_items(v@[0]),
                )
                &&& v@.len() == 0 ==> json_of(r) == Ok::<JsonTree, Seq<char>>(JsonTree::Null)
                    && items_of(r) == Ok::<Option<Seq<Seq<char>>>, Seq<char>>(None)
            },
            Err(e) => json_of(r) == Err::<JsonTree, Seq<char>>(e@) && items_of(r) == Err::<
                Option<Seq<Seq<char>>>,
                Seq<char>,
            >(e@),
        },
{
}

// ---------------------------------------------------------------------------
// The screen
// ---------------------------------------------------------------------------

/// At the end of a line commands are completed first, then models, then
/// mentions; within a line only mentions are.
pub proof fn law_line_is_completed(
    line: Seq<char>,
    pos: usize,
    models: Seq<Seq<char>>,
    entries: Seq<EntryView>,
)
    ensures
        ({
            let (start, cs) = line_completions(line, pos, models, entries);
            let at_end = pos == byte_len(line);
            let commands = commands_for(line);
            let args = model_args(line, models);
            &&& at_end && commands is Some ==> start == CompletionStart::Line && cs.len()
                == commands->0.len() && forall|i: int|
                0 <= i < cs.len() ==> #[trigger] cs[i] == command_candidate(commands->0[i])
            &&& at_end && commands is None && args is Some ==> start == CompletionStart::Typed(
                byte_len(args->Some_0.0),
            ) && cs.len() == args->Some_0.1.len() && forall|i: int|
                0 <= i < cs.len() ==> #[trigger] cs[i] == arg_candidate(args->Some_0.1[i])
            &&& (!at_end || (commands is None && args is None)) ==> match mention_token(
                line,
                pos as nat,
            ) {
                Some((at, prefix)) => start == CompletionStart::Word(at as usize) && cs
                    == completions(prefix, entries),
                None => start == CompletionStart::Nothing && cs.len() == 0,
            }
        }),
{
}

/// A hint is given at the end of a line only: for a command, else for a model,
/// else for a mention.
pub proof fn law_line_has_a_hint(
    line: Seq<char>,
    pos: usize,
    models: Seq<Seq<char>>,
    entries: Seq<EntryView>,
)
    ensures
        pos != byte_len(line) ==> line_hint(line, pos, models, entries) is None,
        pos == byte_len(line) && commands_for(line) is Some ==> line_hint(line, pos, models, entries)
            == name_hint(
            line.skip(1),
            commands_for(line)->0,
            commands_for(line)->0.map_values(|n: Seq<char>| "/"@ + n),
        ),
        pos == byte_len(line) && commands_for(line) is None && model_args(line, models) is Some
            ==> line_hint(line, pos, models, entries) == name_hint(
            model_args(line, models)->Some_0.0,
            model_args(line, models)->Some_0.1,
            model_args(line, models)->Some_0.1,
        ),
        pos == byte_len(line) && commands_for(line) is None && model_args(line, models) is None
            && mention_token(line, pos as nat) is Some ==> line_hint(line, pos, models, entries)
            == mention_hint(
            mention_token(line, pos as nat)->Some_0.1,
            completions(mention_token(line, pos as nat)->Some_0.1, entries),
        ),
{
}

/// A line that is read: what was entered is the line, the end and Ctrl-D leave,
/// and all else waits or draws.
pub proof fn law_line_is_read(e: LineEvent)
    ensures
        match e {
            LineEvent::End => line_step(e) == LineActionView::Stop,
            LineEvent::Nothing => line_step(e) == LineActionView::Wait,
            LineEvent::Resized => line_step(e) == LineActionView::Redraw,
            LineEvent::Scrolled => line_step(e) == LineActionView::Redraw,
            LineEvent::Key(InputOutcome::Submit(s)) => line_step(e) == LineActionView::Line(s@),
            LineEvent::Key(InputOutcome::Quit) => line_step(e) == LineActionView::Stop,
            LineEvent::Key(InputOutcome::CtrlCHint) => line_step(e)
                == LineActionView::RedrawWithHint,
            LineEvent::Key(InputOutcome::Handled) => line_step(e) == LineActionView::Redraw,
            LineEvent::Key(InputOutcome::CancelTurn) => line_step(e) == LineActionView::Redraw,
        },
{
}

/// The cursor stands behind the sign and what is before it on its line, in the
/// row of that line among those that are shown.
pub proof fn law_cursor_stands_behind_what_is_before_it(
    area: Rect,
    buffer: Seq<char>,
    cursor: nat,
    pending: nat,
)
    ensures
        match parts_of(area, pending).interior {
            Some(r) => {
                let (x, y) = cursor_cell(area, buffer, cursor, pending);
                &&& x == r.x + 2 + columns(before_cursor(buffer, cursor))
                &&& y == r.y + line_of(buffer, cursor) - first_shown(
                    lines_in(buffer),
                    line_of(buffer, cursor),
                    r.height as nat,
                )
            },
            None => cursor_cell(area, buffer, cursor, pending) == (area.x as int, area.y as int),
        },
{
}

/// A question is shown with its header, its text, a row for each option and one
/// for an answer in the user's own words, and help on the keys.
pub proof fn law_question_is_shown(s: OverlayView, i: int)
    requires
        s.well_formed(),
    ensures
        ({
            let q = s.questions[s.current as int];
            let ls = panel_lines(s, false);
            let n = q.options.len();
            &&& ls[0].len() == 1 && ls[0][0].content == q.header
            &&& ls[1].len() == 1 && ls[1][0].content == q.question
            &&& ls.last().len() == 1 && ls.last()[0].content == key_help(s)
            &&& !s.writing ==> ls.len() == n + 6
            &&& !s.writing && 0 <= i <= n ==> ls[i + 3] == row_line(s, i as nat, false)
            &&& s.writing ==> ls.len() == 6 && ls[3].len() == 1 && ls[3][0].content == "> "@
                + s.text_buffer + "_"@
            &&& 0 <= i < n ==> row_line(s, i as nat, false)[0].content
                == crate::ask_overlay::row_text(
                s,
                i as nat,
                q.options[i].label,
                q.options[i].description,
            )
            &&& row_line(s, n, false)[0].content == crate::ask_overlay::row_text(
                s,
                n,
                "Other"@,
                "type your own answer"@,
            )
            &&& s.writing ==> key_help(s) == "Enter confirm · Esc back"@
            &&& !s.writing && q.multi_select ==> key_help(s)
                == "↑↓ move · Space toggle · 1-9 jump · Enter confirm · Esc skip"@
            &&& !s.writing && !q.multi_select ==> key_help(s)
                == "↑↓ move · 1-9 select · Enter select · Esc skip"@
        }),
{
}

/// A question has seventy columns, and sixty rows or as many as leave two free.
pub proof fn law_size_of_a_question(area: Rect)
    ensures
        area.height >= 62 ==> modal_of(area) == crate::layout::centered_in(area, 70, 60),
        2 <= area.height < 62 ==> modal_of(area) == crate::layout::centered_in(
            area,
            70,
            (area.height - 2) as u16,
        ),
        area.height < 2 ==> modal_of(area) == crate::layout::centered_in(area, 70, 0),
{
}

/// The rows of a transcript are those that it takes at a width, as many as can be
/// counted.
pub proof fn law_rows_of_a_transcript(lines: Seq<Seq<SpanView>>, width: u16)
    ensures
        width == 0 || lines.len() == 0 ==> rows(lines, width) == 0,
        width > 0 && lines.len() > 0 ==> ({
            let n = crate::transcript::wrapped_rows(crate::transcript::span_texts(lines), width);
            rows(lines, width) == if n <= 65535 {
                n as int
            } else {
                65535
            }
        }),
{
}

/// The pictures of the spinner, one after the other.
pub proof fn law_spinner_turns(i: nat)
    requires
        i < 10,
    ensures
        frame_text(i) == seq![
            "⠋"@,
            "⠙"@,
            "⠹"@,
            "⠸"@,
            "⠼"@,
            "⠴"@,
            "⠦"@,
            "⠧"@,
            "⠇"@,
            "⠏"@,
        ][i as int],
{
}

/// Code is colored line by line, in its language and the theme, from the line
/// behind its first fence up to its last one.
pub proof fn law_code_is_colored_by_its_language(
    ls: Seq<Seq<char>>,
    lang: Seq<char>,
    start: usize,
    end: usize,
    h: Seq<Option<Seq<char>>>,
)
    requires
        1 <= start,
        start + 1 < end <= ls.len() + 1,
        highlighted_code(
            "Monokai Extended"@,
            lang,
            Seq::new((end - 1 - start) as nat, |i: int| ls[start + i] + seq!['\n']),
        ) == Some(h),
    ensures
        with_block(
            ls,
            MdNodeView::Code { fence: true, lang: Some(lang), position: Some((start, end)) },
        ) == overlaid(ls, start as int, end - 1, h),
{
    let code = ls.subrange(start as int, end - 1);
    assert(body_range(ls.len(), Some((start, end))) == Some((start as int, end - 1)));
    let ended = crate::markdown::all_ended(code);
    let wanted = Seq::new((end - 1 - start) as nat, |i: int| ls[start + i] + seq!['\n']);
    assert forall|i: int| 0 <= i < ended.len() implies #[trigger] ended[i] == wanted[i] by {
        assert(code[i].push('\n') =~= ls[start + i] + seq!['\n']);
    }
    assert(ended =~= wanted);
}

/// The prompt, and what is said of the keys and of sessions that could not be
/// loaded.
pub proof fn law_prompt_and_help(work: Recurring, e: Seq<char>)
    ensures
        prompt_text(false) == "> "@,
        prompt_text(true) == "\x1b[1m"@ + "\x1b[36m"@ + "❯"@ + "\x1b[0m"@ + " "@,
        keys_text(true)
            == "Esc/Ctrl-C cancel input/turn, type + Enter to steer a running turn · Ctrl-D, 'exit'/'quit', or Ctrl-C twice to leave · /help for commands · @path attaches a file/dir"@,
        keys_text(false)
            == "Ctrl-C cancels a running turn (press twice at the prompt to quit) · Ctrl-D or 'exit'/'quit' to leave · /help for commands · @path attaches a file/dir"@,
        work is Loop ==> load_warning(work, e) == "warning: failed to load prior loop session: "@
            + e,
        work is Schedule ==> load_warning(work, e)
            == "warning: failed to load prior schedule session: "@ + e,
{
}

/// The arguments for reading a file.
pub proof fn law_arguments_for_reading()
    ensures
        read_properties().len() == 3,
        read_properties()[0].0 == "path"@,
        read_properties()[1].0 == "start_line"@,
        read_properties()[2].0 == "end_line"@,
{
}

/// The limits that hold where nothing else is said.
pub proof fn law_limits()
    ensures
        crate::anthropic::DEFAULT_MAX_TOKENS == 8192,
        crate::openai::DEFAULT_MAX_TOKENS == 8192,
        crate::gemini::DEFAULT_MAX_TOKENS == 8192,
        crate::wasm::DEFAULT_TIMEOUT_SECS == 30,
        crate::wasm::DEFAULT_MAX_MEMORY_PAGES == 256,
        crate::wasm::DEFAULT_FUEL == 5_000_000,
        crate::loop_mode::DEFAULT_MAX_ITERATIONS == 50,
        crate::loop_mode::DEFAULT_POLL_INTERVAL_SECS == 5,
        crate::reporter::SPINNER_FRAMES == 10,
{
}

// ---------------------------------------------------------------------------
// What is read
// ---------------------------------------------------------------------------

/// A call and a result that are read are what their members say; where one is
/// missing, they are none.
pub proof fn law_read_call_is_what_its_members_say(t: JsonTree)
    ensures
        call_from(t) is Some <==> text_member(t, "id"@) is Some && text_member(t, "name"@) is Some
            && member(t, "arguments"@) is Some,
        call_from(t) matches Some(c) ==> text_member(t, "id"@) == Some(c.id) && text_member(
            t,
            "name"@,
        ) == Some(c.name) && member(t, "arguments"@) == Some(c.arguments),
        result_from(t) matches Some(r) ==> text_member(t, "tool_call_id"@) == Some(r.tool_call_id)
            && bool_member(t, "is_error"@) == Some(r.is_error) && member(t, "content"@) == Some(
            match r.content {
                ToolResultContentView::Text(s) => JsonTree::Str(s),
                ToolResultContentView::Blocks(v) => JsonTree::Array(v),
            },
        ),
        text_member(t, "tool_call_id"@) is None || bool_member(t, "is_error"@) is None || member(
            t,
            "content"@,
        ) is None ==> result_from(t) is None,
{
}

/// A session that is read is what its members say. Whether it was cut off may be
/// missing: then it was not.
pub proof fn law_read_session_is_what_its_members_say(t: JsonTree)
    ensures
        record_from(t) matches Some(r) ==> {
            &&& text_member(t, "id"@) == Some(r.id)
            &&& u64_member(t, "created_at"@) == Some(r.created_at)
            &&& u64_member(t, "updated_at"@) == Some(r.updated_at)
            &&& text_member(t, "system_prompt"@) == Some(r.system_prompt)
            &&& text_member(t, "summary"@) == Some(r.summary)
            &&& array_member(t, "messages"@) matches Some(v) && messages_from(v, 0) == Some(
                r.messages,
            )
            &&& member(t, "interrupted"@) is None ==> !r.interrupted
            &&& member(t, "interrupted"@) is Some ==> bool_member(t, "interrupted"@) == Some(
                r.interrupted,
            )
        },
        text_member(t, "id"@) is None || u64_member(t, "created_at"@) is None || u64_member(
            t,
            "updated_at"@,
        ) is None || text_member(t, "system_prompt"@) is None || array_member(t, "messages"@)
            is None || text_member(t, "summary"@) is None ==> record_from(t) is None,
{
}

/// A history is read line by line: the version is passed over where it comes
/// first, and so are empty lines.
pub proof fn law_history_is_read_by_lines(line: Seq<char>, rest: Seq<char>)
    requires
        !line.contains('\n'),
        line.len() > 0 ==> line.last() != '\r',
    ensures
        line == "#V2"@ ==> history_of(line + seq!['\n'] + rest) == entries_in(lines(rest)),
        line.len() == 0 ==> history_of(line + seq!['\n'] + rest) == entries_in(lines(rest)),
        line.len() > 0 && line != "#V2"@ ==> history_of(line + seq!['\n'] + rest) == seq![
            unescaped(line),
        ] + entries_in(lines(rest)),
{
    reveal_strlit("#V2");
    assert("#V2"@.len() == 3);
    reveal_strlit("\n");
    assert("\n"@ =~= seq!['\n']);
    crate::text_laws::law_lines_end_at_line_feeds(line, rest);
    let ls = lines(line + seq!['\n'] + rest);
    assert(ls == seq![line] + lines(rest));
    assert(ls[0] == line);
    assert(ls.skip(1) =~= lines(rest));
}

/// The marked row of a question is bold and yellow.
pub proof fn law_marked_row_stands_out(s: OverlayView, i: nat)
    ensures
        i == s.highlighted ==> row_style(s, i, true).bold && row_style(s, i, true).fg == Some(
            Color::Yellow,
        ),
        i != s.highlighted ==> row_style(s, i, true) == crate::input_box::panel_style(true),
        row_style(s, i, false) == crate::ansi::plain(),
{
}

/// A rule is made of hyphens. An argument is described by its type and a text.
pub proof fn law_rules_and_arguments(n: nat, kind: Seq<char>, text: Seq<char>)
    ensures
        dashes(n).len() == n,
        forall|i: int| 0 <= i < n ==> #[trigger] dashes(n)[i] == '-',
        text_member(property_tree(kind, text), "type"@) == Some(kind),
        text_member(property_tree(kind, text), "description"@) == Some(text),
{
    reveal_strlit("type");
    reveal_strlit("description");
    assert("type"@.len() == 4 && "description"@.len() == 11);
    let m = property_tree(kind, text)->Object_0;
    lemma_member(m, 0);
    lemma_member(m, 1);
}

} // verus!
