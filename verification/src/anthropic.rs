//! The Anthropic Messages API.
use vstd::prelude::*;

use crate::json::{canonical, entry, json_text, number_tree, text_value, Json, JsonTree};
use crate::message::{
    BlockView, ContentBlock, Message, MessageView, ProviderResponse, ResponseView, Role,
    StopReason, ToolCall, ToolCallView, ToolResult, ToolResultContent, ToolResultContentView,
    ToolResultView, ToolSpec, ToolSpecView, Usage,
};
use crate::model::{copy_all, copy_option, group_views, opt_view, views};
use crate::text::same;

verus! {

broadcast use group_views;

/// The most tokens that an answer may have.
pub const DEFAULT_MAX_TOKENS: u32 = 8192;

/// The text of a tool's result: blocks are sent as JSON.
pub open spec fn result_text(c: ToolResultContentView) -> Seq<char> {
    match c {
        ToolResultContentView::Text(t) => t,
        ToolResultContentView::Blocks(b) => json_text(canonical(JsonTree::Array(b))),
    }
}

/// The text of a tool's result.
pub fn text_of_result(c: &ToolResultContent) -> (r: String)
    ensures
        r@ == result_text(c@),
{
    match c {
        ToolResultContent::Text(t) => t.clone(),
        ToolResultContent::Blocks(b) => {
            let array = Json::Array(copy_all(b));
            assert(array@->Array_0 =~= views(b@));
            array.text()
        },
    }
}

// ---------------------------------------------------------------------------
// Wire format
// ---------------------------------------------------------------------------

/// A part of a message on the wire.
pub enum AnthropicContentBlock {
    Text { text: String },
    ToolUse { id: String, name: String, input: Json },
    ToolResult { tool_use_id: String, content: String, is_error: Option<bool> },
    Thinking { thinking: String, signature: Option<String> },
}

#[verifier::ext_equal]
pub enum AnthropicBlockView {
    Text { text: Seq<char> },
    ToolUse { id: Seq<char>, name: Seq<char>, input: JsonTree },
    ToolResult { tool_use_id: Seq<char>, content: Seq<char>, is_error: Option<bool> },
    Thinking { thinking: Seq<char>, signature: Option<Seq<char>> },
}

impl View for AnthropicContentBlock {
    type V = AnthropicBlockView;

    open spec fn view(&self) -> AnthropicBlockView {
        match self {
            AnthropicContentBlock::Text { text } => AnthropicBlockView::Text { text: text@ },
            AnthropicContentBlock::ToolUse { id, name, input } => AnthropicBlockView::ToolUse {
                id: id@,
                name: name@,
                input: input@,
            },
            AnthropicContentBlock::ToolResult {
                tool_use_id,
                content,
                is_error,
            } => AnthropicBlockView::ToolResult {
                tool_use_id: tool_use_id@,
                content: content@,
                is_error: *is_error,
            },
            AnthropicContentBlock::Thinking { thinking, signature } =>
                AnthropicBlockView::Thinking {
                thinking: thinking@,
                signature: opt_view(*signature),
            },
        }
    }
}

/// A message on the wire.
pub struct AnthropicMessage {
    pub role: String,
    pub content: Vec<AnthropicContentBlock>,
}

#[verifier::ext_equal]
pub struct AnthropicMessageView {
    pub role: Seq<char>,
    pub content: Seq<AnthropicBlockView>,
}

impl View for AnthropicMessage {
    type V = AnthropicMessageView;

    open spec fn view(&self) -> AnthropicMessageView {
        AnthropicMessageView { role: self.role@, content: views(self.content@) }
    }
}

/// A tool on the wire.
pub struct AnthropicTool {
    pub name: String,
    pub description: String,
    pub input_schema: Json,
}

impl View for AnthropicTool {
    type V = ToolSpecView;

    open spec fn view(&self) -> ToolSpecView {
        ToolSpecView {
            name: self.name@,
            description: self.description@,
            parameters: self.input_schema@,
        }
    }
}

/// A request.
pub struct AnthropicRequest {
    pub model: String,
    pub max_tokens: u32,
    pub system: Option<String>,
    pub messages: Vec<AnthropicMessage>,
    pub tools: Vec<AnthropicTool>,
}

/// An answer.
pub struct AnthropicResponse {
    pub content: Vec<AnthropicContentBlock>,
    pub stop_reason: Option<String>,
    pub input_tokens: u32,
    pub output_tokens: u32,
}

// ---------------------------------------------------------------------------
// Mapping
// ---------------------------------------------------------------------------

/// A block as it is sent.
pub open spec fn to_block(b: BlockView) -> AnthropicBlockView {
    match b {
        BlockView::Text(text) => AnthropicBlockView::Text { text },
        BlockView::ToolUse(c) => AnthropicBlockView::ToolUse {
            id: c.id,
            name: c.name,
            input: c.arguments,
        },
        BlockView::ToolResult(r) => AnthropicBlockView::ToolResult {
            tool_use_id: r.tool_call_id,
            content: result_text(r.content),
            is_error: if r.is_error {
                Some(true)
            } else {
                None
            },
        },
        BlockView::Thinking { text, signature } => AnthropicBlockView::Thinking {
            thinking: text,
            signature,
        },
    }
}

/// A block as it was received.
pub open spec fn from_block(b: AnthropicBlockView) -> BlockView {
    match b {
        AnthropicBlockView::Text { text } => BlockView::Text(text),
        AnthropicBlockView::ToolUse { id, name, input } => BlockView::ToolUse(
            ToolCallView { id, name, arguments: input },
        ),
        AnthropicBlockView::ToolResult { tool_use_id, content, is_error } => BlockView::ToolResult(
            ToolResultView {
                tool_call_id: tool_use_id,
                content: ToolResultContentView::Text(content),
                is_error: is_error == Some(true),
            },
        ),
        AnthropicBlockView::Thinking { thinking, signature } => BlockView::Thinking {
            text: thinking,
            signature,
        },
    }
}

/// A message as it is sent: tool results travel in the user's name.
pub open spec fn to_message(m: MessageView) -> AnthropicMessageView {
    AnthropicMessageView {
        role: if m.role == Role::Assistant {
            "assistant"@
        } else {
            "user"@
        },
        content: m.content.map_values(|b: BlockView| to_block(b)),
    }
}

/// The messages as they are sent. The system prompt travels elsewhere, so
/// system messages are left out.
pub open spec fn to_messages(ms: Seq<MessageView>) -> Seq<AnthropicMessageView>
    decreases ms.len(),
{
    if ms.len() == 0 {
        Seq::empty()
    } else {
        let rest = to_messages(ms.drop_last());
        if ms.last().role == Role::System {
            rest
        } else {
            rest.push(to_message(ms.last()))
        }
    }
}

/// A block as it is sent.
pub fn to_anthropic_block(block: &ContentBlock) -> (r: AnthropicContentBlock)
    ensures
        r@ == to_block(block@),
{
    match block {
        ContentBlock::Text(text) => AnthropicContentBlock::Text { text: text.clone() },
        ContentBlock::ToolUse(call) => AnthropicContentBlock::ToolUse {
            id: call.id.clone(),
            name: call.name.clone(),
            input: call.arguments.copy(),
        },
        ContentBlock::ToolResult(result) => AnthropicContentBlock::ToolResult {
            tool_use_id: result.tool_call_id.clone(),
            content: text_of_result(&result.content),
            is_error: if result.is_error {
                Some(true)
            } else {
                None
            },
        },
        ContentBlock::Thinking { text, signature } => AnthropicContentBlock::Thinking {
            thinking: text.clone(),
            signature: copy_option(signature),
        },
    }
}

/// The messages as they are sent.
pub fn to_anthropic_messages(messages: &Vec<Message>) -> (r: Vec<AnthropicMessage>)
    ensures
        views(r@) == to_messages(views(messages@)),
{
    let mut r: Vec<AnthropicMessage> = Vec::new();
    let ghost all = views(messages@);
    for i in 0..messages.len()
        invariant
            all == views(messages@),
            views(r@) == to_messages(all.take(i as int)),
    {
        assert(all.take(i + 1).drop_last() == all.take(i as int));
        let m = &messages[i];
        if m.role != Role::System {
            let mut content: Vec<AnthropicContentBlock> = Vec::new();
            for j in 0..m.content.len()
                invariant
                    content@.len() == j,
                    forall|k: int|
                        0 <= k < j ==> (#[trigger] content@[k])@ == to_block(m.content@[k]@),
            {
                content.push(to_anthropic_block(&m.content[j]));
            }
            let role = if m.role == Role::Assistant {
                "assistant"
            } else {
                "user"
            };
            let sent = AnthropicMessage { role: role.to_owned(), content };
            assert(sent@ =~= to_message(m@));
            r.push(sent);
        }
    }
    assert(all.take(all.len() as int) == all);
    r
}

/// The tools as they are sent.
pub fn to_anthropic_tools(tools: &Vec<ToolSpec>) -> (r: Vec<AnthropicTool>)
    ensures
        views(r@) == views(tools@),
{
    let mut r: Vec<AnthropicTool> = Vec::new();
    for i in 0..tools.len()
        invariant
            r@.len() == i,
            forall|k: int| 0 <= k < i ==> (#[trigger] r@[k])@ == tools@[k]@,
    {
        r.push(
            AnthropicTool {
                name: tools[i].name.clone(),
                description: tools[i].description.clone(),
                input_schema: tools[i].parameters.copy(),
            },
        );
    }
    assert(views(r@) =~= views(tools@));
    r
}

/// Whether some blocks ask for a tool.
pub open spec fn uses_tool(blocks: Seq<AnthropicBlockView>) -> bool {
    exists|i: int| 0 <= i < blocks.len() && (#[trigger] blocks[i]) is ToolUse
}

/// Why the model stopped.
pub open spec fn stop_of(reason: Option<Seq<char>>, tool: bool) -> StopReason {
    if tool {
        StopReason::ToolUse
    } else if reason == Some("end_turn"@) || reason == Some("stop_sequence"@) {
        StopReason::EndTurn
    } else if reason == Some("max_tokens"@) {
        StopReason::MaxTokens
    } else {
        StopReason::Other
    }
}

/// The answer as the session takes it.
pub open spec fn response_of(
    blocks: Seq<AnthropicBlockView>,
    reason: Option<Seq<char>>,
    input_tokens: u32,
    output_tokens: u32,
) -> ResponseView {
    ResponseView {
        message: MessageView {
            role: Role::Assistant,
            content: blocks.map_values(|b: AnthropicBlockView| from_block(b)),
            metadata: JsonTree::Null,
        },
        stop_reason: stop_of(reason, uses_tool(blocks)),
        usage: Usage { input_tokens, output_tokens },
    }
}

fn from_anthropic_block(b: AnthropicContentBlock) -> (r: ContentBlock)
    ensures
        r@ == from_block(b@),
{
    match b {
        AnthropicContentBlock::Text { text } => ContentBlock::Text(text),
        AnthropicContentBlock::ToolUse { id, name, input } => ContentBlock::ToolUse(
            ToolCall { id, name, arguments: input },
        ),
        AnthropicContentBlock::ToolResult { tool_use_id, content, is_error } =>
            ContentBlock::ToolResult(
            ToolResult {
                tool_call_id: tool_use_id,
                content: ToolResultContent::Text(content),
                is_error: match is_error {
                    Some(e) => e,
                    None => false,
                },
            },
        ),
        AnthropicContentBlock::Thinking { thinking, signature } => ContentBlock::Thinking {
            text: thinking,
            signature,
        },
    }
}

/// The answer as the session takes it.
pub fn from_anthropic_response(resp: AnthropicResponse) -> (r: ProviderResponse)
    ensures
        r@ == response_of(
            views(resp.content@),
            opt_view(resp.stop_reason),
            resp.input_tokens,
            resp.output_tokens,
        ),
{
    let ghost blocks = views(resp.content@);
    let mut content: Vec<ContentBlock> = Vec::new();
    let mut has_tool_use = false;
    let ghost all = resp.content@;
    for b in it: resp.content
        invariant
            it.seq() == all,
            blocks == views(all),
            content@.len() == it.index(),
            forall|k: int|
                0 <= k < content@.len() ==> (#[trigger] content@[k])@ == from_block(blocks[k]),
            has_tool_use == exists|k: int|
                0 <= k < it.index() && (#[trigger] blocks[k]) is ToolUse,
    {
        let ghost i = it.index();
        assert(blocks[i] == b@);
        if let AnthropicContentBlock::ToolUse { .. } = &b {
            has_tool_use = true;
        }
        content.push(from_anthropic_block(b));
    }
    let stop_reason = if has_tool_use {
        StopReason::ToolUse
    } else {
        match resp.stop_reason {
            Some(s) => if same(s.as_str(), "end_turn") || same(s.as_str(), "stop_sequence") {
                StopReason::EndTurn
            } else if same(s.as_str(), "max_tokens") {
                StopReason::MaxTokens
            } else {
                StopReason::Other
            },
            None => StopReason::Other,
        }
    };
    let r = ProviderResponse {
        message: Message { role: Role::Assistant, content, metadata: Json::Null },
        stop_reason,
        usage: Usage { input_tokens: resp.input_tokens, output_tokens: resp.output_tokens },
    };
    assert(r@.message.content =~= response_of(
        blocks,
        opt_view(resp.stop_reason),
        resp.input_tokens,
        resp.output_tokens,
    ).message.content);
    r
}

// ---------------------------------------------------------------------------
// The body of a request
// ---------------------------------------------------------------------------

/// A block as JSON.
pub open spec fn block_tree(b: AnthropicBlockView) -> JsonTree {
    JsonTree::Object(
        match b {
            AnthropicBlockView::Text { text } => seq![
                ("type"@, JsonTree::Str("text"@)),
                ("text"@, JsonTree::Str(text)),
            ],
            AnthropicBlockView::ToolUse { id, name, input } => seq![
                ("type"@, JsonTree::Str("tool_use"@)),
                ("id"@, JsonTree::Str(id)),
                ("name"@, JsonTree::Str(name)),
                ("input"@, input),
            ],
            AnthropicBlockView::ToolResult { tool_use_id, content, is_error } => seq![
                ("type"@, JsonTree::Str("tool_result"@)),
                ("tool_use_id"@, JsonTree::Str(tool_use_id)),
                ("content"@, JsonTree::Str(content)),
            ] + match is_error {
                Some(e) => seq![("is_error"@, JsonTree::Bool(e))],
                None => Seq::empty(),
            },
            AnthropicBlockView::Thinking { thinking, signature } => seq![
                ("type"@, JsonTree::Str("thinking"@)),
                ("thinking"@, JsonTree::Str(thinking)),
            ] + match signature {
                Some(s) => seq![("signature"@, JsonTree::Str(s))],
                None => Seq::empty(),
            },
        },
    )
}

fn block_json(b: &AnthropicContentBlock) -> (r: Json)
    ensures
        r@ == block_tree(b@),
{
    let mut m: Vec<(String, Json)> = Vec::new();
    match b {
        AnthropicContentBlock::Text { text } => {
            m.push(entry("type", text_value("text")));
            m.push(entry("text", text_value(text.as_str())));
        },
        AnthropicContentBlock::ToolUse { id, name, input } => {
            m.push(entry("type", text_value("tool_use")));
            m.push(entry("id", text_value(id.as_str())));
            m.push(entry("name", text_value(name.as_str())));
            m.push(entry("input", input.copy()));
        },
        AnthropicContentBlock::ToolResult { tool_use_id, content, is_error } => {
            m.push(entry("type", text_value("tool_result")));
            m.push(entry("tool_use_id", text_value(tool_use_id.as_str())));
            m.push(entry("content", text_value(content.as_str())));
            if let Some(e) = is_error {
                m.push(entry("is_error", Json::Bool(*e)));
            }
        },
        AnthropicContentBlock::Thinking { thinking, signature } => {
            m.push(entry("type", text_value("thinking")));
            m.push(entry("thinking", text_value(thinking.as_str())));
            if let Some(s) = signature {
                m.push(entry("signature", text_value(s.as_str())));
            }
        },
    }
    let r = Json::object(m);
    assert(r@->Object_0 =~= block_tree(b@)->Object_0);
    r
}

fn blocks_json(items: &Vec<AnthropicContentBlock>) -> (r: Json)
    ensures
        r@ == JsonTree::Array(views(items@).map_values(|x: AnthropicBlockView| block_tree(x))),
{
    let mut v: Vec<Json> = Vec::new();
    for i in 0..items.len()
        invariant
            v@.len() == i,
            forall|k: int| 0 <= k < i ==> (#[trigger] v@[k])@ == block_tree(items@[k]@),
    {
        v.push(block_json(&items[i]));
    }
    let r = Json::array(v);
    assert(r@->Array_0 =~= views(items@).map_values(|x: AnthropicBlockView| block_tree(x)));
    r
}

/// A message as JSON.
pub open spec fn sent_tree(m: AnthropicMessageView) -> JsonTree {
    JsonTree::Object(
        seq![
            ("role"@, JsonTree::Str(m.role)),
            (
                "content"@,
                JsonTree::Array(m.content.map_values(|b: AnthropicBlockView| block_tree(b))),
            ),
        ],
    )
}

fn sent_json(message: &AnthropicMessage) -> (r: Json)
    ensures
        r@ == sent_tree(message@),
{
    let mut m: Vec<(String, Json)> = Vec::new();
    m.push(entry("role", text_value(message.role.as_str())));
    m.push(entry("content", blocks_json(&message.content)));
    let r = Json::object(m);
    assert(r@->Object_0 =~= sent_tree(message@)->Object_0);
    r
}

fn all_sent_json(items: &Vec<AnthropicMessage>) -> (r: Json)
    ensures
        r@ == JsonTree::Array(views(items@).map_values(|x: AnthropicMessageView| sent_tree(x))),
{
    let mut v: Vec<Json> = Vec::new();
    for i in 0..items.len()
        invariant
            v@.len() == i,
            forall|k: int| 0 <= k < i ==> (#[trigger] v@[k])@ == sent_tree(items@[k]@),
    {
        v.push(sent_json(&items[i]));
    }
    let r = Json::array(v);
    assert(r@->Array_0 =~= views(items@).map_values(|x: AnthropicMessageView| sent_tree(x)));
    r
}

/// A tool as JSON.
pub open spec fn tool_tree(t: ToolSpecView) -> JsonTree {
    JsonTree::Object(
        seq![
            ("name"@, JsonTree::Str(t.name)),
            ("description"@, JsonTree::Str(t.description)),
            ("input_schema"@, t.parameters),
        ],
    )
}

fn tool_json(t: &AnthropicTool) -> (r: Json)
    ensures
        r@ == tool_tree(t@),
{
    let mut m: Vec<(String, Json)> = Vec::new();
    m.push(entry("name", text_value(t.name.as_str())));
    m.push(entry("description", text_value(t.description.as_str())));
    m.push(entry("input_schema", t.input_schema.copy()));
    let r = Json::object(m);
    assert(r@->Object_0 =~= tool_tree(t@)->Object_0);
    r
}

fn tools_json(items: &Vec<AnthropicTool>) -> (r: Json)
    ensures
        r@ == JsonTree::Array(views(items@).map_values(|x: ToolSpecView| tool_tree(x))),
{
    let mut v: Vec<Json> = Vec::new();
    for i in 0..items.len()
        invariant
            v@.len() == i,
            forall|k: int| 0 <= k < i ==> (#[trigger] v@[k])@ == tool_tree(items@[k]@),
    {
        v.push(tool_json(&items[i]));
    }
    let r = Json::array(v);
    assert(r@->Array_0 =~= views(items@).map_values(|x: ToolSpecView| tool_tree(x)));
    r
}

/// The body of a request. A prompt and tools stand in it where there are some.
pub open spec fn request_tree(r: AnthropicRequest) -> JsonTree {
    let head = seq![
        ("model"@, JsonTree::Str(r.model@)),
        ("max_tokens"@, number_tree(r.max_tokens as u64)),
    ];
    let system = match r.system {
        Some(s) => seq![("system"@, JsonTree::Str(s@))],
        None => Seq::empty(),
    };
    let messages = seq![
        (
            "messages"@,
            JsonTree::Array(
                views(r.messages@).map_values(|m: AnthropicMessageView| sent_tree(m)),
            ),
        ),
    ];
    let tools = if r.tools@.len() > 0 {
        seq![
            (
                "tools"@,
                JsonTree::Array(views(r.tools@).map_values(|t: ToolSpecView| tool_tree(t))),
            ),
        ]
    } else {
        Seq::empty()
    };
    JsonTree::Object(head + system + messages + tools)
}

impl AnthropicRequest {
    /// The body of the request.
    pub fn body(&self) -> (r: Json)
        ensures
            r@ == request_tree(*self),
    {
        let mut m: Vec<(String, Json)> = Vec::new();
        m.push(entry("model", text_value(self.model.as_str())));
        m.push(entry("max_tokens", Json::number(self.max_tokens as u64)));
        if let Some(s) = &self.system {
            m.push(entry("system", text_value(s.as_str())));
        }
        m.push(entry("messages", all_sent_json(&self.messages)));
        if self.tools.len() > 0 {
            m.push(entry("tools", tools_json(&self.tools)));
        }
        let r = Json::object(m);
        assert(r@->Object_0 =~= request_tree(*self)->Object_0);
        r
    }
}

/// Access to the API.
pub struct AnthropicProvider {
    pub api_key: String,
    pub base_url: String,
    pub model: String,
}

impl AnthropicProvider {
    /// Access with a key, for a model.
    pub fn new(api_key: &str, model: &str) -> (r: AnthropicProvider)
        ensures
            r.api_key@ == api_key@,
            r.base_url@ == "https://api.anthropic.com"@,
            r.model@ == model@,
    {
        AnthropicProvider {
            api_key: api_key.to_owned(),
            base_url: "https://api.anthropic.com".to_owned(),
            model: model.to_owned(),
        }
    }

    /// The name of the provider.
    pub fn id(&self) -> (r: &'static str)
        ensures
            r@ == "anthropic"@,
    {
        "anthropic"
    }

    /// Where requests go.
    pub fn url(&self) -> (r: String)
        ensures
            r@ == self.base_url@ + "/v1/messages"@,
    {
        let mut r = self.base_url.clone();
        r.append("/v1/messages");
        r
    }

    /// The request for the next message.
    pub fn request(
        &self,
        messages: &Vec<Message>,
        tools: &Vec<ToolSpec>,
        system_prompt: &Option<String>,
    ) -> (r: AnthropicRequest)
        ensures
            r.model@ == self.model@,
            r.max_tokens == DEFAULT_MAX_TOKENS,
            opt_view(r.system) == opt_view(*system_prompt),
            views(r.messages@) == to_messages(views(messages@)),
            views(r.tools@) == views(tools@),
    {
        AnthropicRequest {
            model: self.model.clone(),
            max_tokens: DEFAULT_MAX_TOKENS,
            system: copy_option(system_prompt),
            messages: to_anthropic_messages(messages),
            tools: to_anthropic_tools(tools),
        }
    }
}

/// What is sent of an assistant's block and comes back is that block.
pub proof fn law_blocks_survive_the_wire(b: BlockView)
    requires
        b matches BlockView::ToolResult(r) ==> r.content is Text,
    ensures
        from_block(to_block(b)) == b,
{
}

} // verus!
