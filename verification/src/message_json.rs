//! Messages as JSON: what session files hold and what hooks are shown.
//!
//! A block is an object with one member, which is named after what the block
//! is. Reading what was written gives the same messages again.
use vstd::prelude::*;

use crate::json::{
    array_member, bool_member, distinct_keys, entry, lemma_member, member, optional_text,
    text_member, text_or_null, Json, JsonTree,
};
use crate::message::{
    BlockView, ContentBlock, Message, MessageView, Role, ToolCall, ToolCallView, ToolResult,
    ToolResultContent, ToolResultContentView, ToolResultView,
};
use crate::model::{copy_all, group_views, opt_view, views};
use crate::text::same;

verus! {

broadcast use group_views;

// ---------------------------------------------------------------------------
// Roles
// ---------------------------------------------------------------------------

/// The name of a role.
pub open spec fn role_name(role: Role) -> Seq<char> {
    match role {
        Role::System => "system"@,
        Role::User => "user"@,
        Role::Assistant => "assistant"@,
        Role::Tool => "tool"@,
    }
}

/// The role with a name.
pub open spec fn role_named(name: Seq<char>) -> Option<Role> {
    if name == "system"@ {
        Some(Role::System)
    } else if name == "user"@ {
        Some(Role::User)
    } else if name == "assistant"@ {
        Some(Role::Assistant)
    } else if name == "tool"@ {
        Some(Role::Tool)
    } else {
        None
    }
}

fn name_of_role(role: Role) -> (r: &'static str)
    ensures
        r@ == role_name(role),
{
    match role {
        Role::System => "system",
        Role::User => "user",
        Role::Assistant => "assistant",
        Role::Tool => "tool",
    }
}

fn role_of_name(name: &str) -> (r: Option<Role>)
    ensures
        r == role_named(name@),
{
    if same(name, "system") {
        Some(Role::System)
    } else if same(name, "user") {
        Some(Role::User)
    } else if same(name, "assistant") {
        Some(Role::Assistant)
    } else if same(name, "tool") {
        Some(Role::Tool)
    } else {
        None
    }
}

proof fn lemma_role_survives(role: Role)
    ensures
        role_named(role_name(role)) == Some(role),
{
    reveal_strlit("system");
    reveal_strlit("user");
    reveal_strlit("assistant");
    reveal_strlit("tool");
    assert("system"@.len() == 6 && "assistant"@.len() == 9);
    assert("user"@[0] == 'u' && "tool"@[0] == 't');
    assert("user"@.len() == 4 && "tool"@.len() == 4);
}

// ---------------------------------------------------------------------------
// Tool calls
// ---------------------------------------------------------------------------

/// A tool call as JSON.
pub open spec fn call_tree(c: ToolCallView) -> JsonTree {
    JsonTree::Object(
        seq![
            ("id"@, JsonTree::Str(c.id)),
            ("name"@, JsonTree::Str(c.name)),
            ("arguments"@, c.arguments),
        ],
    )
}

/// A tool call as JSON.
pub fn call_json(c: &ToolCall) -> (r: Json)
    ensures
        r@ == call_tree(c@),
{
    let mut m: Vec<(String, Json)> = Vec::new();
    m.push(entry("id", Json::Str(c.id.clone())));
    m.push(entry("name", Json::Str(c.name.clone())));
    m.push(entry("arguments", c.arguments.copy()));
    let r = Json::Object(m);
    assert(r@->Object_0 =~= call_tree(c@)->Object_0);
    r
}

/// The tool call that a JSON value denotes.
pub open spec fn call_from(t: JsonTree) -> Option<ToolCallView> {
    match (text_member(t, "id"@), text_member(t, "name"@), member(t, "arguments"@)) {
        (Some(id), Some(name), Some(arguments)) => Some(ToolCallView { id, name, arguments }),
        _ => None,
    }
}

/// The tool call that a JSON value denotes.
pub fn read_call(j: &Json) -> (r: Option<ToolCall>)
    ensures
        opt_view(r) == call_from(j@),
{
    match (j.get_text("id"), j.get_text("name"), j.get("arguments")) {
        (Some(id), Some(name), Some(arguments)) => Some(
            ToolCall { id: id.clone(), name: name.clone(), arguments: arguments.copy() },
        ),
        _ => None,
    }
}

proof fn lemma_call_keys(c: ToolCallView)
    ensures
        distinct_keys(call_tree(c)->Object_0),
{
    reveal_strlit("id");
    reveal_strlit("name");
    reveal_strlit("arguments");
    assert("id"@.len() == 2 && "name"@.len() == 4 && "arguments"@.len() == 9);
}

/// The call that a hook which allows a call unchanged gives back is that call.
pub proof fn law_call_survives_json(c: ToolCallView)
    ensures
        call_from(call_tree(c)) == Some(c),
{
    let m = call_tree(c)->Object_0;
    lemma_call_keys(c);
    lemma_member(m, 0);
    lemma_member(m, 1);
    lemma_member(m, 2);
}

// ---------------------------------------------------------------------------
// Tool results
// ---------------------------------------------------------------------------

/// The content of a tool result as JSON: a text, or an array of blocks.
pub open spec fn content_tree(c: ToolResultContentView) -> JsonTree {
    match c {
        ToolResultContentView::Text(t) => JsonTree::Str(t),
        ToolResultContentView::Blocks(b) => JsonTree::Array(b),
    }
}

/// The content of a tool result that a JSON value denotes.
pub open spec fn content_from(t: JsonTree) -> Option<ToolResultContentView> {
    match t {
        JsonTree::Str(s) => Some(ToolResultContentView::Text(s)),
        JsonTree::Array(v) => Some(ToolResultContentView::Blocks(v)),
        _ => None,
    }
}

/// A tool result as JSON.
pub open spec fn result_tree(r: ToolResultView) -> JsonTree {
    JsonTree::Object(
        seq![
            ("tool_call_id"@, JsonTree::Str(r.tool_call_id)),
            ("content"@, content_tree(r.content)),
            ("is_error"@, JsonTree::Bool(r.is_error)),
        ],
    )
}

/// The tool result that a JSON value denotes.
pub open spec fn result_from(t: JsonTree) -> Option<ToolResultView> {
    match (text_member(t, "tool_call_id"@), member(t, "content"@), bool_member(t, "is_error"@)) {
        (Some(tool_call_id), Some(c), Some(is_error)) => match content_from(c) {
            Some(content) => Some(ToolResultView { tool_call_id, content, is_error }),
            None => None,
        },
        _ => None,
    }
}

fn content_json(c: &ToolResultContent) -> (r: Json)
    ensures
        r@ == content_tree(c@),
{
    match c {
        ToolResultContent::Text(t) => Json::Str(t.clone()),
        ToolResultContent::Blocks(b) => Json::array(copy_all(b)),
    }
}

fn read_content(j: &Json) -> (r: Option<ToolResultContent>)
    ensures
        opt_view(r) == content_from(j@),
{
    match j {
        Json::Str(s) => Some(ToolResultContent::Text(s.clone())),
        Json::Array(v) => {
            assert(j@->Array_0 =~= views(v@));
            Some(ToolResultContent::Blocks(copy_all(v)))
        },
        _ => None,
    }
}

fn result_json(x: &ToolResult) -> (r: Json)
    ensures
        r@ == result_tree(x@),
{
    let mut m: Vec<(String, Json)> = Vec::new();
    m.push(entry("tool_call_id", Json::Str(x.tool_call_id.clone())));
    m.push(entry("content", content_json(&x.content)));
    m.push(entry("is_error", Json::Bool(x.is_error)));
    let r = Json::Object(m);
    assert(r@->Object_0 =~= result_tree(x@)->Object_0);
    r
}

fn read_result(j: &Json) -> (r: Option<ToolResult>)
    ensures
        opt_view(r) == result_from(j@),
{
    match (j.get_text("tool_call_id"), j.get("content"), j.get_bool("is_error")) {
        (Some(id), Some(c), Some(is_error)) => match read_content(c) {
            Some(content) => Some(ToolResult { tool_call_id: id.clone(), content, is_error }),
            None => None,
        },
        _ => None,
    }
}

proof fn lemma_result_keys(r: ToolResultView)
    ensures
        distinct_keys(result_tree(r)->Object_0),
{
    reveal_strlit("tool_call_id");
    reveal_strlit("content");
    reveal_strlit("is_error");
    assert("tool_call_id"@.len() == 12 && "content"@.len() == 7 && "is_error"@.len() == 8);
}

proof fn lemma_result_survives(r: ToolResultView)
    ensures
        result_from(result_tree(r)) == Some(r),
{
    let m = result_tree(r)->Object_0;
    lemma_result_keys(r);
    lemma_member(m, 0);
    lemma_member(m, 1);
    lemma_member(m, 2);
}

// ---------------------------------------------------------------------------
// Blocks
// ---------------------------------------------------------------------------

/// Thoughts as JSON.
pub open spec fn thinking_tree(text: Seq<char>, signature: Option<Seq<char>>) -> JsonTree {
    JsonTree::Object(
        seq![("text"@, JsonTree::Str(text)), ("signature"@, text_or_null(signature))],
    )
}

/// A text that may be absent or null, read from a member.
pub open spec fn text_if_any(m: Option<JsonTree>) -> Option<Option<Seq<char>>> {
    match m {
        None => Some(None),
        Some(JsonTree::Null) => Some(None),
        Some(JsonTree::Str(s)) => Some(Some(s)),
        _ => None,
    }
}

/// The thoughts that a JSON value denotes.
pub open spec fn thinking_from(t: JsonTree) -> Option<BlockView> {
    match (text_member(t, "text"@), text_if_any(member(t, "signature"@))) {
        (Some(text), Some(signature)) => Some(BlockView::Thinking { text, signature }),
        _ => None,
    }
}

/// A block as JSON.
pub open spec fn block_tree(b: BlockView) -> JsonTree {
    match b {
        BlockView::Text(t) => JsonTree::Object(seq![("text"@, JsonTree::Str(t))]),
        BlockView::ToolUse(c) => JsonTree::Object(seq![("tool_use"@, call_tree(c))]),
        BlockView::ToolResult(r) => JsonTree::Object(seq![("tool_result"@, result_tree(r))]),
        BlockView::Thinking { text, signature } => JsonTree::Object(
            seq![("thinking"@, thinking_tree(text, signature))],
        ),
    }
}

/// The block that a member of an object denotes.
pub open spec fn block_named(name: Seq<char>, t: JsonTree) -> Option<BlockView> {
    if name == "text"@ {
        match t {
            JsonTree::Str(s) => Some(BlockView::Text(s)),
            _ => None,
        }
    } else if name == "tool_use"@ {
        match call_from(t) {
            Some(c) => Some(BlockView::ToolUse(c)),
            None => None,
        }
    } else if name == "tool_result"@ {
        match result_from(t) {
            Some(r) => Some(BlockView::ToolResult(r)),
            None => None,
        }
    } else if name == "thinking"@ {
        thinking_from(t)
    } else {
        None
    }
}

/// The block that a JSON value denotes.
pub open spec fn block_from(t: JsonTree) -> Option<BlockView> {
    match t {
        JsonTree::Object(m) => if m.len() == 1 {
            block_named(m[0].0, m[0].1)
        } else {
            None
        },
        _ => None,
    }
}

fn thinking_json(text: &String, signature: &Option<String>) -> (r: Json)
    ensures
        r@ == thinking_tree(text@, opt_view(*signature)),
{
    let mut m: Vec<(String, Json)> = Vec::new();
    m.push(entry("text", Json::Str(text.clone())));
    m.push(entry("signature", optional_text(signature)));
    let r = Json::Object(m);
    assert(r@->Object_0 =~= thinking_tree(text@, opt_view(*signature))->Object_0);
    r
}

fn read_thinking(j: &Json) -> (r: Option<ContentBlock>)
    ensures
        opt_view(r) == thinking_from(j@),
{
    match j.get_text("text") {
        Some(text) => match j.get("signature") {
            None => Some(ContentBlock::Thinking { text: text.clone(), signature: None }),
            Some(Json::Null) => Some(
                ContentBlock::Thinking { text: text.clone(), signature: None },
            ),
            Some(Json::Str(s)) => Some(
                ContentBlock::Thinking { text: text.clone(), signature: Some(s.clone()) },
            ),
            _ => None,
        },
        None => None,
    }
}

fn block_json(b: &ContentBlock) -> (r: Json)
    ensures
        r@ == block_tree(b@),
{
    let mut m: Vec<(String, Json)> = Vec::new();
    match b {
        ContentBlock::Text(t) => m.push(entry("text", Json::Str(t.clone()))),
        ContentBlock::ToolUse(c) => m.push(entry("tool_use", call_json(c))),
        ContentBlock::ToolResult(x) => m.push(entry("tool_result", result_json(x))),
        ContentBlock::Thinking { text, signature } => m.push(
            entry("thinking", thinking_json(text, signature)),
        ),
    }
    let r = Json::Object(m);
    assert(r@->Object_0 =~= block_tree(b@)->Object_0);
    r
}

fn read_block(j: &Json) -> (r: Option<ContentBlock>)
    ensures
        opt_view(r) == block_from(j@),
{
    match j {
        Json::Object(m) => {
            if m.len() != 1 {
                return None;
            }
            let name = m[0].0.as_str();
            let value = &m[0].1;
            assert(j@->Object_0[0] == (name@, value@));
            if same(name, "text") {
                match value {
                    Json::Str(s) => Some(ContentBlock::Text(s.clone())),
                    _ => None,
                }
            } else if same(name, "tool_use") {
                match read_call(value) {
                    Some(c) => Some(ContentBlock::ToolUse(c)),
                    None => None,
                }
            } else if same(name, "tool_result") {
                match read_result(value) {
                    Some(x) => Some(ContentBlock::ToolResult(x)),
                    None => None,
                }
            } else if same(name, "thinking") {
                read_thinking(value)
            } else {
                None
            }
        },
        _ => None,
    }
}

proof fn lemma_thinking_keys(text: Seq<char>, signature: Option<Seq<char>>)
    ensures
        distinct_keys(thinking_tree(text, signature)->Object_0),
{
    reveal_strlit("text");
    reveal_strlit("signature");
    assert("text"@.len() == 4 && "signature"@.len() == 9);
}

proof fn lemma_block_survives(b: BlockView)
    ensures
        block_from(block_tree(b)) == Some(b),
{
    reveal_strlit("text");
    reveal_strlit("tool_use");
    reveal_strlit("tool_result");
    reveal_strlit("thinking");
    assert("tool_use"@[1] == 'o' && "thinking"@[1] == 'h');
    assert("text"@.len() == 4 && "tool_use"@.len() == 8 && "tool_result"@.len() == 11);
    assert("thinking"@.len() == 8);
    match b {
        BlockView::Text(_) => {},
        BlockView::ToolUse(c) => {
            law_call_survives_json(c);
        },
        BlockView::ToolResult(r) => {
            lemma_result_survives(r);
        },
        BlockView::Thinking { text, signature } => {
            let m = thinking_tree(text, signature)->Object_0;
            lemma_thinking_keys(text, signature);
            lemma_member(m, 0);
            lemma_member(m, 1);
        },
    }
}

/// Some blocks as JSON.
pub open spec fn block_trees(b: Seq<BlockView>) -> Seq<JsonTree> {
    Seq::new(b.len(), |i: int| block_tree(b[i]))
}

/// The blocks that the values from `i` on denote, if each denotes one.
pub open spec fn blocks_from(v: Seq<JsonTree>, i: int) -> Option<Seq<BlockView>>
    decreases v.len() - i,
{
    if i < 0 || i >= v.len() {
        Some(Seq::empty())
    } else {
        match (block_from(v[i]), blocks_from(v, i + 1)) {
            (Some(b), Some(rest)) => Some(seq![b] + rest),
            _ => None,
        }
    }
}

fn blocks_json(b: &Vec<ContentBlock>) -> (r: Json)
    ensures
        r@ == JsonTree::Array(block_trees(views(b@))),
{
    let mut w: Vec<Json> = Vec::new();
    for i in 0..b.len()
        invariant
            w@.len() == i,
            forall|j: int| 0 <= j < i ==> (#[trigger] w@[j])@ == block_tree(b@[j]@),
    {
        w.push(block_json(&b[i]));
    }
    assert(views(w@) =~= block_trees(views(b@)));
    Json::array(w)
}

fn read_blocks(v: &Vec<Json>) -> (r: Option<Vec<ContentBlock>>)
    ensures
        match r {
            Some(b) => blocks_from(views(v@), 0) == Some(views(b@)),
            None => blocks_from(views(v@), 0) is None,
        },
{
    let ghost all = views(v@);
    let mut b: Vec<ContentBlock> = Vec::new();
    proof {
        if let Some(rest) = blocks_from(all, 0) {
            assert(views(b@) + rest =~= rest);
        }
    }
    for i in 0..v.len()
        invariant
            all == views(v@),
            match blocks_from(all, i as int) {
                Some(rest) => blocks_from(all, 0) == Some(views(b@) + rest),
                None => blocks_from(all, 0) is None,
            },
    {
        let ghost before = views(b@);
        match read_block(&v[i]) {
            Some(x) => {
                b.push(x);
                proof {
                    if let Some(rest) = blocks_from(all, i + 1) {
                        assert(before + (seq![x@] + rest) =~= before.push(x@) + rest);
                    }
                }
            },
            None => {
                return None;
            },
        }
    }
    assert(views(b@) + Seq::<BlockView>::empty() =~= views(b@));
    Some(b)
}

proof fn lemma_blocks_survive(b: Seq<BlockView>, i: int)
    requires
        0 <= i <= b.len(),
    ensures
        blocks_from(block_trees(b), i) == Some(b.skip(i)),
    decreases b.len() - i,
{
    if i < b.len() {
        lemma_block_survives(b[i]);
        lemma_blocks_survive(b, i + 1);
        assert(seq![b[i]] + b.skip(i + 1) =~= b.skip(i));
    } else {
        assert(b.skip(i) =~= Seq::empty());
    }
}

// ---------------------------------------------------------------------------
// Messages
// ---------------------------------------------------------------------------

/// A message as JSON.
pub open spec fn message_tree(m: MessageView) -> JsonTree {
    JsonTree::Object(
        seq![
            ("role"@, JsonTree::Str(role_name(m.role))),
            ("content"@, JsonTree::Array(block_trees(m.content))),
            ("metadata"@, m.metadata),
        ],
    )
}

/// The message that a JSON value denotes. Metadata may be absent.
pub open spec fn message_from(t: JsonTree) -> Option<MessageView> {
    match (text_member(t, "role"@), array_member(t, "content"@)) {
        (Some(name), Some(v)) => match (role_named(name), blocks_from(v, 0)) {
            (Some(role), Some(content)) => Some(
                MessageView {
                    role,
                    content,
                    metadata: match member(t, "metadata"@) {
                        Some(metadata) => metadata,
                        None => JsonTree::Null,
                    },
                },
            ),
            _ => None,
        },
        _ => None,
    }
}

/// A message as JSON.
pub fn message_json(x: &Message) -> (r: Json)
    ensures
        r@ == message_tree(x@),
{
    let mut m: Vec<(String, Json)> = Vec::new();
    m.push(entry("role", Json::Str(name_of_role(x.role).to_owned())));
    m.push(entry("content", blocks_json(&x.content)));
    m.push(entry("metadata", x.metadata.copy()));
    let r = Json::Object(m);
    assert(r@->Object_0 =~= message_tree(x@)->Object_0);
    r
}

/// The message that a JSON value denotes.
pub fn read_message(j: &Json) -> (r: Option<Message>)
    ensures
        opt_view(r) == message_from(j@),
{
    match (j.get_text("role"), j.get_array("content")) {
        (Some(name), Some(v)) => match (role_of_name(name.as_str()), read_blocks(v)) {
            (Some(role), Some(content)) => {
                let metadata = match j.get("metadata") {
                    Some(metadata) => metadata.copy(),
                    None => Json::Null,
                };
                Some(Message { role, content, metadata })
            },
            _ => None,
        },
        _ => None,
    }
}

proof fn lemma_message_keys(m: MessageView)
    ensures
        distinct_keys(message_tree(m)->Object_0),
{
    reveal_strlit("role");
    reveal_strlit("content");
    reveal_strlit("metadata");
    assert("role"@.len() == 4 && "content"@.len() == 7 && "metadata"@.len() == 8);
}

/// Reading a message that was written gives that message.
pub proof fn law_message_survives_json(m: MessageView)
    ensures
        message_from(message_tree(m)) == Some(m),
{
    let members = message_tree(m)->Object_0;
    lemma_message_keys(m);
    lemma_member(members, 0);
    lemma_member(members, 1);
    lemma_member(members, 2);
    lemma_role_survives(m.role);
    lemma_blocks_survive(m.content, 0);
    assert(m.content.skip(0) =~= m.content);
}

/// Some messages as JSON.
pub open spec fn message_trees(m: Seq<MessageView>) -> Seq<JsonTree> {
    Seq::new(m.len(), |i: int| message_tree(m[i]))
}

/// The messages that the values from `i` on denote, if each denotes one.
pub open spec fn messages_from(v: Seq<JsonTree>, i: int) -> Option<Seq<MessageView>>
    decreases v.len() - i,
{
    if i < 0 || i >= v.len() {
        Some(Seq::empty())
    } else {
        match (message_from(v[i]), messages_from(v, i + 1)) {
            (Some(m), Some(rest)) => Some(seq![m] + rest),
            _ => None,
        }
    }
}

/// Some messages as JSON.
pub fn messages_json(m: &Vec<Message>) -> (r: Json)
    ensures
        r@ == JsonTree::Array(message_trees(views(m@))),
{
    let mut w: Vec<Json> = Vec::new();
    for i in 0..m.len()
        invariant
            w@.len() == i,
            forall|j: int| 0 <= j < i ==> (#[trigger] w@[j])@ == message_tree(m@[j]@),
    {
        w.push(message_json(&m[i]));
    }
    assert(views(w@) =~= message_trees(views(m@)));
    Json::array(w)
}

/// The messages that some JSON values denote, if each denotes one.
pub fn read_messages(v: &Vec<Json>) -> (r: Option<Vec<Message>>)
    ensures
        match r {
            Some(m) => messages_from(views(v@), 0) == Some(views(m@)),
            None => messages_from(views(v@), 0) is None,
        },
{
    let ghost all = views(v@);
    let mut m: Vec<Message> = Vec::new();
    proof {
        if let Some(rest) = messages_from(all, 0) {
            assert(views(m@) + rest =~= rest);
        }
    }
    for i in 0..v.len()
        invariant
            all == views(v@),
            match messages_from(all, i as int) {
                Some(rest) => messages_from(all, 0) == Some(views(m@) + rest),
                None => messages_from(all, 0) is None,
            },
    {
        let ghost before = views(m@);
        match read_message(&v[i]) {
            Some(x) => {
                m.push(x);
                proof {
                    if let Some(rest) = messages_from(all, i + 1) {
                        assert(before + (seq![x@] + rest) =~= before.push(x@) + rest);
                    }
                }
            },
            None => {
                return None;
            },
        }
    }
    assert(views(m@) + Seq::<MessageView>::empty() =~= views(m@));
    Some(m)
}

proof fn lemma_messages_survive(m: Seq<MessageView>, i: int)
    requires
        0 <= i <= m.len(),
    ensures
        messages_from(message_trees(m), i) == Some(m.skip(i)),
    decreases m.len() - i,
{
    if i < m.len() {
        law_message_survives_json(m[i]);
        lemma_messages_survive(m, i + 1);
        assert(seq![m[i]] + m.skip(i + 1) =~= m.skip(i));
    } else {
        assert(m.skip(i) =~= Seq::empty());
    }
}

/// Reading messages that were written gives those messages, in their order.
pub proof fn law_messages_survive_json(m: Seq<MessageView>)
    ensures
        messages_from(message_trees(m), 0) == Some(m),
{
    lemma_messages_survive(m, 0);
    assert(m.skip(0) =~= m);
}

} // verus!
