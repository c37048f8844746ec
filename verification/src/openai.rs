//! The OpenAI chat completions API.
use vstd::prelude::*;

use crate::anthropic::{result_text, text_of_result};
use crate::json::{
    canonical, entry, json_parsed, json_text, number_tree, text_value, Json, JsonTree,
};
use crate::message::{
    calls_of, texts_of, BlockView, ContentBlock, Message, MessageView, ProviderResponse,
    ResponseView, Role, StopReason, ToolCall, ToolCallView, ToolSpec, ToolSpecView, Usage,
};
use crate::model::{group_views, opt_view, views};
use crate::provider::{ProviderError, ProviderErrorView};
use crate::text::{join, joined, same};

verus! {

broadcast use group_views;

/// The most tokens that an answer may have.
pub const DEFAULT_MAX_TOKENS: u32 = 8192;

// ---------------------------------------------------------------------------
// Wire format
// ---------------------------------------------------------------------------

/// A function call; its arguments are JSON in a text.
pub struct OaFunctionCall {
    pub name: String,
    pub arguments: String,
}

/// A tool call on the wire.
pub struct OaToolCall {
    pub id: String,
    pub kind: String,
    pub function: OaFunctionCall,
}

#[verifier::ext_equal]
pub struct OaToolCallView {
    pub id: Seq<char>,
    pub kind: Seq<char>,
    pub name: Seq<char>,
    pub arguments: Seq<char>,
}

impl View for OaToolCall {
    type V = OaToolCallView;

    open spec fn view(&self) -> OaToolCallView {
        OaToolCallView {
            id: self.id@,
            kind: self.kind@,
            name: self.function.name@,
            arguments: self.function.arguments@,
        }
    }
}

/// A message on the wire.
pub struct OaMessage {
    pub role: String,
    pub content: Option<String>,
    pub tool_calls: Vec<OaToolCall>,
    pub tool_call_id: Option<String>,
}

#[verifier::ext_equal]
pub struct OaMessageView {
    pub role: Seq<char>,
    pub content: Option<Seq<char>>,
    pub tool_calls: Seq<OaToolCallView>,
    pub tool_call_id: Option<Seq<char>>,
}

impl View for OaMessage {
    type V = OaMessageView;

    open spec fn view(&self) -> OaMessageView {
        OaMessageView {
            role: self.role@,
            content: opt_view(self.content),
            tool_calls: views(self.tool_calls@),
            tool_call_id: opt_view(self.tool_call_id),
        }
    }
}

/// A tool on the wire.
pub struct OaTool {
    pub kind: String,
    pub name: String,
    pub description: String,
    pub parameters: Json,
}

#[verifier::ext_equal]
pub struct OaToolView {
    pub kind: Seq<char>,
    pub tool: ToolSpecView,
}

impl View for OaTool {
    type V = OaToolView;

    open spec fn view(&self) -> OaToolView {
        OaToolView {
            kind: self.kind@,
            tool: ToolSpecView {
                name: self.name@,
                description: self.description@,
                parameters: self.parameters@,
            },
        }
    }
}

/// A request.
pub struct OaRequest {
    pub model: String,
    pub max_completion_tokens: u32,
    pub messages: Vec<OaMessage>,
    pub tools: Vec<OaTool>,
}

/// One of the answers that the model offers.
pub struct OaChoice {
    pub content: Option<String>,
    pub tool_calls: Vec<OaToolCall>,
    pub finish_reason: Option<String>,
}

#[verifier::ext_equal]
pub struct OaChoiceView {
    pub content: Option<Seq<char>>,
    pub tool_calls: Seq<OaToolCallView>,
    pub finish_reason: Option<Seq<char>>,
}

impl View for OaChoice {
    type V = OaChoiceView;

    open spec fn view(&self) -> OaChoiceView {
        OaChoiceView {
            content: opt_view(self.content),
            tool_calls: views(self.tool_calls@),
            finish_reason: opt_view(self.finish_reason),
        }
    }
}

/// The tokens that an answer cost.
#[derive(Clone, Copy, Debug)]
pub struct OaUsage {
    pub prompt_tokens: u32,
    pub completion_tokens: u32,
}

/// An answer.
pub struct OaResponse {
    pub choices: Vec<OaChoice>,
    pub usage: Option<OaUsage>,
}

// ---------------------------------------------------------------------------
// Mapping
// ---------------------------------------------------------------------------

/// A tool call as it is sent.
pub open spec fn to_call(c: ToolCallView) -> OaToolCallView {
    OaToolCallView {
        id: c.id,
        kind: "function"@,
        name: c.name,
        arguments: json_text(canonical(c.arguments)),
    }
}

/// The messages of the results in a tool message: one for each.
pub open spec fn result_messages(blocks: Seq<BlockView>) -> Seq<OaMessageView>
    decreases blocks.len(),
{
    if blocks.len() == 0 {
        Seq::empty()
    } else {
        let rest = result_messages(blocks.drop_last());
        match blocks.last() {
            BlockView::ToolResult(r) => rest.push(
                OaMessageView {
                    role: "tool"@,
                    content: Some(result_text(r.content)),
                    tool_calls: Seq::empty(),
                    tool_call_id: Some(r.tool_call_id),
                },
            ),
            _ => rest,
        }
    }
}

/// The messages that one message becomes: none for the system, one for the user
/// and the assistant, one per result for tools.
pub open spec fn message_group(m: MessageView) -> Seq<OaMessageView> {
    match m.role {
        Role::System => Seq::empty(),
        Role::Tool => result_messages(m.content),
        _ => {
            let text = join(texts_of(m.content), "\n"@);
            seq![
                OaMessageView {
                    role: if m.role == Role::User {
                        "user"@
                    } else {
                        "assistant"@
                    },
                    content: if text.len() == 0 {
                        None
                    } else {
                        Some(text)
                    },
                    tool_calls: calls_of(m.content).map_values(|c: ToolCallView| to_call(c)),
                    tool_call_id: None,
                },
            ]
        },
    }
}

/// The messages as they are sent.
pub open spec fn message_groups(ms: Seq<MessageView>) -> Seq<OaMessageView>
    decreases ms.len(),
{
    if ms.len() == 0 {
        Seq::empty()
    } else {
        message_groups(ms.drop_last()) + message_group(ms.last())
    }
}

/// The messages that one message becomes.
pub fn to_openai_message_group(m: &Message) -> (r: Vec<OaMessage>)
    ensures
        views(r@) == message_group(m@),
{
    let mut r: Vec<OaMessage> = Vec::new();
    match m.role {
        Role::System => {},
        Role::Tool => {
            let ghost blocks = m@.content;
            for i in 0..m.content.len()
                invariant
                    blocks == views(m.content@),
                    views(r@) == result_messages(blocks.take(i as int)),
            {
                assert(blocks.take(i + 1).drop_last() == blocks.take(i as int));
                if let ContentBlock::ToolResult(result) = &m.content[i] {
                    let sent = OaMessage {
                        role: "tool".to_owned(),
                        content: Some(text_of_result(&result.content)),
                        tool_calls: Vec::new(),
                        tool_call_id: Some(result.tool_call_id.clone()),
                    };
                    r.push(sent);
                }
            }
            assert(blocks.take(blocks.len() as int) == blocks);
        },
        _ => {
            let text = joined(&m.text_blocks(), "\n");
            let calls = m.tool_calls();
            let mut tool_calls: Vec<OaToolCall> = Vec::new();
            for i in 0..calls.len()
                invariant
                    tool_calls@.len() == i,
                    forall|k: int|
                        0 <= k < i ==> (#[trigger] tool_calls@[k])@ == to_call(calls@[k]@),
            {
                tool_calls.push(
                    OaToolCall {
                        id: calls[i].id.clone(),
                        kind: "function".to_owned(),
                        function: OaFunctionCall {
                            name: calls[i].name.clone(),
                            arguments: calls[i].arguments.text(),
                        },
                    },
                );
            }
            assert(views(tool_calls@) =~= views(calls@).map_values(|c: ToolCallView| to_call(c)));
            let role = if m.role == Role::User {
                "user"
            } else {
                "assistant"
            };
            let content = if text.as_str().unicode_len() == 0 {
                None
            } else {
                Some(text)
            };
            r.push(
                OaMessage { role: role.to_owned(), content, tool_calls, tool_call_id: None },
            );
            assert(views(r@) =~= message_group(m@));
        },
    }
    r
}

/// The messages as they are sent.
pub fn to_openai_messages(messages: &Vec<Message>) -> (r: Vec<OaMessage>)
    ensures
        views(r@) == message_groups(views(messages@)),
{
    let mut r: Vec<OaMessage> = Vec::new();
    let ghost all = views(messages@);
    for i in 0..messages.len()
        invariant
            all == views(messages@),
            views(r@) == message_groups(all.take(i as int)),
    {
        assert(all.take(i + 1).drop_last() == all.take(i as int));
        let mut group = to_openai_message_group(&messages[i]);
        r.append(&mut group);
    }
    assert(all.take(all.len() as int) == all);
    r
}

/// The tools as they are sent.
pub fn to_openai_tools(tools: &Vec<ToolSpec>) -> (r: Vec<OaTool>)
    ensures
        views(r@) == views(tools@).map_values(
            |t: ToolSpecView| OaToolView { kind: "function"@, tool: t },
        ),
{
    let mut r: Vec<OaTool> = Vec::new();
    for i in 0..tools.len()
        invariant
            r@.len() == i,
            forall|k: int|
                0 <= k < i ==> (#[trigger] r@[k])@ == (OaToolView {
                    kind: "function"@,
                    tool: tools@[k]@,
                }),
    {
        r.push(
            OaTool {
                kind: "function".to_owned(),
                name: tools[i].name.clone(),
                description: tools[i].description.clone(),
                parameters: tools[i].parameters.copy(),
            },
        );
    }
    assert(views(r@) =~= views(tools@).map_values(
        |t: ToolSpecView| OaToolView { kind: "function"@, tool: t },
    ));
    r
}

/// A tool call as the session takes it: arguments that are no JSON are null.
pub open spec fn from_call(c: OaToolCallView) -> BlockView {
    BlockView::ToolUse(
        ToolCallView {
            id: c.id,
            name: c.name,
            arguments: match json_parsed(c.arguments) {
                Some(t) => t,
                None => JsonTree::Null,
            },
        },
    )
}

/// Why the model stopped.
pub open spec fn stop_of(reason: Option<Seq<char>>, tool: bool) -> StopReason {
    if tool {
        StopReason::ToolUse
    } else if reason == Some("stop"@) {
        StopReason::EndTurn
    } else if reason == Some("length"@) {
        StopReason::MaxTokens
    } else {
        StopReason::Other
    }
}

/// The blocks of an answer: its text, then its tool calls.
pub open spec fn choice_blocks(c: OaChoiceView) -> Seq<BlockView> {
    (match c.content {
        Some(text) => seq![BlockView::Text(text)],
        None => Seq::empty(),
    }) + c.tool_calls.map_values(|t: OaToolCallView| from_call(t))
}

/// The answer as the session takes it: the first choice, or an error where
/// there is none.
pub open spec fn response_of(
    choices: Seq<OaChoiceView>,
    usage: Option<OaUsage>,
) -> Result<ResponseView, ProviderErrorView> {
    if choices.len() == 0 {
        Err(ProviderErrorView::Deserialize("no choices in response"@))
    } else {
        let c = choices[0];
        Ok(
            ResponseView {
                message: MessageView {
                    role: Role::Assistant,
                    content: choice_blocks(c),
                    metadata: JsonTree::Null,
                },
                stop_reason: stop_of(c.finish_reason, c.tool_calls.len() > 0),
                usage: match usage {
                    Some(u) => Usage {
                        input_tokens: u.prompt_tokens,
                        output_tokens: u.completion_tokens,
                    },
                    None => Usage { input_tokens: 0, output_tokens: 0 },
                },
            },
        )
    }
}

/// The answer as the session takes it.
pub fn from_openai_response(resp: OaResponse) -> (r: Result<ProviderResponse, ProviderError>)
    ensures
        match r {
            Ok(x) => response_of(views(resp.choices@), resp.usage) == Ok::<_, ProviderErrorView>(
                x@,
            ),
            Err(e) => response_of(views(resp.choices@), resp.usage) == Err::<ResponseView, _>(e@),
        },
{
    if resp.choices.len() == 0 {
        return Err(ProviderError::Deserialize("no choices in response".to_owned()));
    }
    let choice = &resp.choices[0];
    let ghost c = choice@;
    let mut content: Vec<ContentBlock> = Vec::new();
    if let Some(text) = &choice.content {
        content.push(ContentBlock::Text(text.clone()));
    }
    let ghost head = views(content@);
    assert(head =~= match c.content {
        Some(text) => seq![BlockView::Text(text)],
        None => Seq::empty(),
    });
    let ghost tail = c.tool_calls.map_values(|t: OaToolCallView| from_call(t));
    assert(head + tail.take(0) =~= head);
    for i in 0..choice.tool_calls.len()
        invariant
            c == choice@,
            tail == c.tool_calls.map_values(|t: OaToolCallView| from_call(t)),
            views(content@) == head + tail.take(i as int),
    {
        let tc = &choice.tool_calls[i];
        let arguments = match Json::parse(tc.function.arguments.as_str()) {
            Some(j) => j,
            None => Json::Null,
        };
        let ghost before = views(content@);
        content.push(
            ContentBlock::ToolUse(
                ToolCall { id: tc.id.clone(), name: tc.function.name.clone(), arguments },
            ),
        );
        assert(views(content@) == before.push(tail[i as int]));
        assert(head + tail.take(i + 1) =~= (head + tail.take(i as int)).push(tail[i as int]));
    }
    assert(tail.take(tail.len() as int) == tail);
    let stop_reason = if choice.tool_calls.len() > 0 {
        StopReason::ToolUse
    } else {
        match &choice.finish_reason {
            Some(s) => if same(s.as_str(), "stop") {
                StopReason::EndTurn
            } else if same(s.as_str(), "length") {
                StopReason::MaxTokens
            } else {
                StopReason::Other
            },
            None => StopReason::Other,
        }
    };
    let usage = match resp.usage {
        Some(u) => Usage { input_tokens: u.prompt_tokens, output_tokens: u.completion_tokens },
        None => Usage { input_tokens: 0, output_tokens: 0 },
    };
    Ok(
        ProviderResponse {
            message: Message { role: Role::Assistant, content, metadata: Json::Null },
            stop_reason,
            usage,
        },
    )
}

// ---------------------------------------------------------------------------
// The body of a request
// ---------------------------------------------------------------------------

/// A function call as JSON.
pub open spec fn function_tree(c: OaToolCallView) -> JsonTree {
    JsonTree::Object(
        seq![("name"@, JsonTree::Str(c.name)), ("arguments"@, JsonTree::Str(c.arguments))],
    )
}

/// A tool call as JSON.
pub open spec fn sent_call_tree(c: OaToolCallView) -> JsonTree {
    JsonTree::Object(
        seq![
            ("id"@, JsonTree::Str(c.id)),
            ("type"@, JsonTree::Str(c.kind)),
            ("function"@, function_tree(c)),
        ],
    )
}

fn sent_call_json(c: &OaToolCall) -> (r: Json)
    ensures
        r@ == sent_call_tree(c@),
{
    let mut f: Vec<(String, Json)> = Vec::new();
    f.push(entry("name", text_value(c.function.name.as_str())));
    f.push(entry("arguments", text_value(c.function.arguments.as_str())));
    let function = Json::object(f);
    assert(function@->Object_0 =~= function_tree(c@)->Object_0);
    let mut m: Vec<(String, Json)> = Vec::new();
    m.push(entry("id", text_value(c.id.as_str())));
    m.push(entry("type", text_value(c.kind.as_str())));
    m.push(entry("function", function));
    let r = Json::object(m);
    assert(r@->Object_0 =~= sent_call_tree(c@)->Object_0);
    r
}

fn sent_calls_json(items: &Vec<OaToolCall>) -> (r: Json)
    ensures
        r@ == JsonTree::Array(views(items@).map_values(|x: OaToolCallView| sent_call_tree(x))),
{
    let mut v: Vec<Json> = Vec::new();
    for i in 0..items.len()
        invariant
            v@.len() == i,
            forall|k: int| 0 <= k < i ==> (#[trigger] v@[k])@ == sent_call_tree(items@[k]@),
    {
        v.push(sent_call_json(&items[i]));
    }
    let r = Json::array(v);
    assert(r@->Array_0 =~= views(items@).map_values(|x: OaToolCallView| sent_call_tree(x)));
    r
}

/// A message as JSON. What it does not have is left out.
pub open spec fn sent_tree(m: OaMessageView) -> JsonTree {
    let content = match m.content {
        Some(c) => seq![("content"@, JsonTree::Str(c))],
        None => Seq::empty(),
    };
    let calls = if m.tool_calls.len() > 0 {
        seq![
            (
                "tool_calls"@,
                JsonTree::Array(m.tool_calls.map_values(|c: OaToolCallView| sent_call_tree(c))),
            ),
        ]
    } else {
        Seq::empty()
    };
    let id = match m.tool_call_id {
        Some(id) => seq![("tool_call_id"@, JsonTree::Str(id))],
        None => Seq::empty(),
    };
    JsonTree::Object(seq![("role"@, JsonTree::Str(m.role))] + content + calls + id)
}

fn sent_json(message: &OaMessage) -> (r: Json)
    ensures
        r@ == sent_tree(message@),
{
    let mut m: Vec<(String, Json)> = Vec::new();
    m.push(entry("role", text_value(message.role.as_str())));
    if let Some(content) = &message.content {
        m.push(entry("content", text_value(content.as_str())));
    }
    assert(message@.tool_calls.len() == message.tool_calls@.len());
    if message.tool_calls.len() > 0 {
        m.push(entry("tool_calls", sent_calls_json(&message.tool_calls)));
    }
    if let Some(id) = &message.tool_call_id {
        m.push(entry("tool_call_id", text_value(id.as_str())));
    }
    let r = Json::object(m);
    assert(r@->Object_0 =~= sent_tree(message@)->Object_0);
    r
}

fn all_sent_json(items: &Vec<OaMessage>) -> (r: Json)
    ensures
        r@ == JsonTree::Array(views(items@).map_values(|x: OaMessageView| sent_tree(x))),
{
    let mut v: Vec<Json> = Vec::new();
    for i in 0..items.len()
        invariant
            v@.len() == i,
            forall|k: int| 0 <= k < i ==> (#[trigger] v@[k])@ == sent_tree(items@[k]@),
    {
        v.push(sent_json(&items[i]));
    }
    let r = Json::array(v);
    assert(r@->Array_0 =~= views(items@).map_values(|x: OaMessageView| sent_tree(x)));
    r
}

/// A tool as JSON.
pub open spec fn tool_tree(t: ToolSpecView) -> JsonTree {
    JsonTree::Object(
        seq![
            ("name"@, JsonTree::Str(t.name)),
            ("description"@, JsonTree::Str(t.description)),
            ("parameters"@, t.parameters),
        ],
    )
}

/// A tool of the wire as JSON.
pub open spec fn sent_tool_tree(t: OaToolView) -> JsonTree {
    JsonTree::Object(seq![("type"@, JsonTree::Str(t.kind)), ("function"@, tool_tree(t.tool))])
}

fn sent_tool_json(t: &OaTool) -> (r: Json)
    ensures
        r@ == sent_tool_tree(t@),
{
    let mut f: Vec<(String, Json)> = Vec::new();
    f.push(entry("name", text_value(t.name.as_str())));
    f.push(entry("description", text_value(t.description.as_str())));
    f.push(entry("parameters", t.parameters.copy()));
    let function = Json::object(f);
    assert(function@->Object_0 =~= tool_tree(t@.tool)->Object_0);
    let mut m: Vec<(String, Json)> = Vec::new();
    m.push(entry("type", text_value(t.kind.as_str())));
    m.push(entry("function", function));
    let r = Json::object(m);
    assert(r@->Object_0 =~= sent_tool_tree(t@)->Object_0);
    r
}

fn sent_tools_json(items: &Vec<OaTool>) -> (r: Json)
    ensures
        r@ == JsonTree::Array(views(items@).map_values(|x: OaToolView| sent_tool_tree(x))),
{
    let mut v: Vec<Json> = Vec::new();
    for i in 0..items.len()
        invariant
            v@.len() == i,
            forall|k: int| 0 <= k < i ==> (#[trigger] v@[k])@ == sent_tool_tree(items@[k]@),
    {
        v.push(sent_tool_json(&items[i]));
    }
    let r = Json::array(v);
    assert(r@->Array_0 =~= views(items@).map_values(|x: OaToolView| sent_tool_tree(x)));
    r
}

/// The body of a request. Tools stand in it where there are some.
pub open spec fn request_tree(r: OaRequest) -> JsonTree {
    let head = seq![
        ("model"@, JsonTree::Str(r.model@)),
        ("max_completion_tokens"@, number_tree(r.max_completion_tokens as u64)),
        (
            "messages"@,
            JsonTree::Array(views(r.messages@).map_values(|m: OaMessageView| sent_tree(m))),
        ),
    ];
    let tools = if r.tools@.len() > 0 {
        seq![
            (
                "tools"@,
                JsonTree::Array(views(r.tools@).map_values(|t: OaToolView| sent_tool_tree(t))),
            ),
        ]
    } else {
        Seq::empty()
    };
    JsonTree::Object(head + tools)
}

impl OaRequest {
    /// The body of the request.
    pub fn body(&self) -> (r: Json)
        ensures
            r@ == request_tree(*self),
    {
        let mut m: Vec<(String, Json)> = Vec::new();
        m.push(entry("model", text_value(self.model.as_str())));
        m.push(
            entry("max_completion_tokens", Json::number(self.max_completion_tokens as u64)),
        );
        m.push(entry("messages", all_sent_json(&self.messages)));
        if self.tools.len() > 0 {
            m.push(entry("tools", sent_tools_json(&self.tools)));
        }
        let r = Json::object(m);
        assert(r@->Object_0 =~= request_tree(*self)->Object_0);
        r
    }
}

/// Access to the API.
pub struct OpenAiProvider {
    pub api_key: String,
    pub base_url: String,
    pub model: String,
}

/// The system prompt as a message.
pub open spec fn system_message(prompt: Option<Seq<char>>) -> Seq<OaMessageView> {
    match prompt {
        Some(p) => seq![
            OaMessageView {
                role: "system"@,
                content: Some(p),
                tool_calls: Seq::empty(),
                tool_call_id: None,
            },
        ],
        None => Seq::empty(),
    }
}

impl OpenAiProvider {
    /// Access with a key, for a model.
    pub fn new(api_key: &str, model: &str) -> (r: OpenAiProvider)
        ensures
            r.api_key@ == api_key@,
            r.base_url@ == "https://api.openai.com"@,
            r.model@ == model@,
    {
        OpenAiProvider {
            api_key: api_key.to_owned(),
            base_url: "https://api.openai.com".to_owned(),
            model: model.to_owned(),
        }
    }

    /// The name of the provider.
    pub fn id(&self) -> (r: &'static str)
        ensures
            r@ == "openai"@,
    {
        "openai"
    }

    /// Where requests go.
    pub fn url(&self) -> (r: String)
        ensures
            r@ == self.base_url@ + "/v1/chat/completions"@,
    {
        let mut r = self.base_url.clone();
        r.append("/v1/chat/completions");
        r
    }

    /// The request for the next message: the system prompt first.
    pub fn request(
        &self,
        messages: &Vec<Message>,
        tools: &Vec<ToolSpec>,
        system_prompt: &Option<String>,
    ) -> (r: OaRequest)
        ensures
            r.model@ == self.model@,
            r.max_completion_tokens == DEFAULT_MAX_TOKENS,
            views(r.messages@) == system_message(opt_view(*system_prompt)) + message_groups(
                views(messages@),
            ),
            views(r.tools@) == views(tools@).map_values(
                |t: ToolSpecView| OaToolView { kind: "function"@, tool: t },
            ),
    {
        let mut all: Vec<OaMessage> = Vec::new();
        if let Some(p) = system_prompt {
            all.push(
                OaMessage {
                    role: "system".to_owned(),
                    content: Some(p.clone()),
                    tool_calls: Vec::new(),
                    tool_call_id: None,
                },
            );
        }
        assert(views(all@) =~= system_message(opt_view(*system_prompt)));
        let mut rest = to_openai_messages(messages);
        all.append(&mut rest);
        OaRequest {
            model: self.model.clone(),
            max_completion_tokens: DEFAULT_MAX_TOKENS,
            messages: all,
            tools: to_openai_tools(tools),
        }
    }
}

} // verus!
