//! The Gemini API.
use vstd::prelude::*;

use crate::anthropic::{result_text, text_of_result};
use crate::json::{canonical, entry, json_text, number_tree, text_value, Json, JsonTree};
use crate::message::{
    BlockView, ContentBlock, Message, MessageView, ProviderResponse, ResponseView, Role,
    StopReason, ToolCall, ToolCallView, ToolResult, ToolResultContent, ToolResultContentView,
    ToolResultView, ToolSpec, ToolSpecView, Usage,
};
use crate::model::{group_views, opt_view, views};
use crate::provider::{ProviderError, ProviderErrorView};
use crate::text::{
    before_last, cut_last, decimal, decimal_text, lemma_decimal_digits,
    lemma_last_at, occurs_at, same,
};

verus! {

broadcast use group_views;

/// The most tokens that an answer may have.
pub const DEFAULT_MAX_TOKENS: u32 = 8192;

/// What stands between the name and the number in a call id.
pub open spec fn id_separator() -> Seq<char> {
    "::"@
}

// ---------------------------------------------------------------------------
// Wire format
// ---------------------------------------------------------------------------

/// A part of a message on the wire.
pub enum GmPart {
    Text { text: String },
    FunctionCall { name: String, args: Json },
    FunctionResponse { name: String, response: Json },
}

#[verifier::ext_equal]
pub enum GmPartView {
    Text { text: Seq<char> },
    FunctionCall { name: Seq<char>, args: JsonTree },
    FunctionResponse { name: Seq<char>, response: JsonTree },
}

impl View for GmPart {
    type V = GmPartView;

    open spec fn view(&self) -> GmPartView {
        match self {
            GmPart::Text { text } => GmPartView::Text { text: text@ },
            GmPart::FunctionCall { name, args } => GmPartView::FunctionCall {
                name: name@,
                args: args@,
            },
            GmPart::FunctionResponse { name, response } => GmPartView::FunctionResponse {
                name: name@,
                response: response@,
            },
        }
    }
}

/// A message on the wire.
pub struct GmContent {
    pub role: Option<String>,
    pub parts: Vec<GmPart>,
}

#[verifier::ext_equal]
pub struct GmContentView {
    pub role: Option<Seq<char>>,
    pub parts: Seq<GmPartView>,
}

impl View for GmContent {
    type V = GmContentView;

    open spec fn view(&self) -> GmContentView {
        GmContentView { role: opt_view(self.role), parts: views(self.parts@) }
    }
}

/// Tools on the wire: all in one declaration.
pub struct GmToolDecl {
    pub function_declarations: Vec<ToolSpec>,
}

impl View for GmToolDecl {
    type V = Seq<ToolSpecView>;

    open spec fn view(&self) -> Seq<ToolSpecView> {
        views(self.function_declarations@)
    }
}

/// A request.
pub struct GmRequest {
    pub contents: Vec<GmContent>,
    pub system_instruction: Option<GmContent>,
    pub tools: Vec<GmToolDecl>,
    pub max_output_tokens: u32,
}

/// One of the answers that the model offers.
pub struct GmCandidate {
    pub content: Option<GmContent>,
    pub finish_reason: Option<String>,
}

#[verifier::ext_equal]
pub struct GmCandidateView {
    pub content: Option<GmContentView>,
    pub finish_reason: Option<Seq<char>>,
}

impl View for GmCandidate {
    type V = GmCandidateView;

    open spec fn view(&self) -> GmCandidateView {
        GmCandidateView {
            content: opt_view(self.content),
            finish_reason: opt_view(self.finish_reason),
        }
    }
}

/// The tokens that an answer cost.
#[derive(Clone, Copy, Debug)]
pub struct GmUsage {
    pub prompt_token_count: u32,
    pub candidates_token_count: u32,
}

/// An answer.
pub struct GmResponse {
    pub candidates: Vec<GmCandidate>,
    pub usage_metadata: Option<GmUsage>,
}

// ---------------------------------------------------------------------------
// Mapping
// ---------------------------------------------------------------------------

/// The name of the function that a call id stands for: what stands before the
/// last separator.
pub open spec fn name_in_id(id: Seq<char>) -> Seq<char> {
    match before_last(id, id_separator()) {
        Some(name) => name,
        None => id,
    }
}

/// The id of the call that is the `i`-th part of an answer.
pub open spec fn call_id(name: Seq<char>, i: nat) -> Seq<char> {
    name + id_separator() + decimal(i)
}

/// A block as it is sent.
pub open spec fn to_part(b: BlockView) -> GmPartView {
    match b {
        BlockView::Text(text) => GmPartView::Text { text },
        BlockView::ToolUse(c) => GmPartView::FunctionCall { name: c.name, args: c.arguments },
        BlockView::ToolResult(r) => GmPartView::FunctionResponse {
            name: name_in_id(r.tool_call_id),
            response: JsonTree::Object(seq![("result"@, JsonTree::Str(result_text(r.content)))]),
        },
        BlockView::Thinking { text, .. } => GmPartView::Text { text },
    }
}

/// A message as it is sent.
pub open spec fn to_content(m: MessageView) -> GmContentView {
    GmContentView {
        role: Some(
            if m.role == Role::Assistant {
                "model"@
            } else {
                "user"@
            },
        ),
        parts: m.content.map_values(|b: BlockView| to_part(b)),
    }
}

/// The messages as they are sent, without those of the system.
pub open spec fn to_contents(ms: Seq<MessageView>) -> Seq<GmContentView>
    decreases ms.len(),
{
    if ms.len() == 0 {
        Seq::empty()
    } else {
        let rest = to_contents(ms.drop_last());
        if ms.last().role == Role::System {
            rest
        } else {
            rest.push(to_content(ms.last()))
        }
    }
}

fn to_gemini_part(b: &ContentBlock) -> (r: GmPart)
    ensures
        r@ == to_part(b@),
{
    match b {
        ContentBlock::Text(t) => GmPart::Text { text: t.clone() },
        ContentBlock::ToolUse(c) => GmPart::FunctionCall {
            name: c.name.clone(),
            args: c.arguments.copy(),
        },
        ContentBlock::ToolResult(r) => {
            let name = match cut_last(r.tool_call_id.as_str(), "::") {
                Some(name) => name,
                None => r.tool_call_id.clone(),
            };
            let mut m: Vec<(String, Json)> = Vec::new();
            let value = Json::Str(text_of_result(&r.content));
            assert(value@ == JsonTree::Str(result_text(r.content@)));
            m.push(("result".to_owned(), value));
            let response = Json::Object(m);
            assert(response@->Object_0 =~= seq![
                ("result"@, JsonTree::Str(result_text(r.content@))),
            ]);
            GmPart::FunctionResponse { name, response }
        },
        ContentBlock::Thinking { text, .. } => GmPart::Text { text: text.clone() },
    }
}

/// The messages as they are sent. There are only the roles of user and model,
/// and results are known by the name of the function.
pub fn to_gemini_contents(messages: &Vec<Message>) -> (r: Vec<GmContent>)
    ensures
        views(r@) == to_contents(views(messages@)),
{
    let mut r: Vec<GmContent> = Vec::new();
    let ghost all = views(messages@);
    for i in 0..messages.len()
        invariant
            all == views(messages@),
            views(r@) == to_contents(all.take(i as int)),
    {
        assert(all.take(i + 1).drop_last() == all.take(i as int));
        let m = &messages[i];
        if m.role != Role::System {
            let mut parts: Vec<GmPart> = Vec::new();
            for j in 0..m.content.len()
                invariant
                    parts@.len() == j,
                    forall|k: int|
                        0 <= k < j ==> (#[trigger] parts@[k])@ == to_part(m.content@[k]@),
            {
                parts.push(to_gemini_part(&m.content[j]));
            }
            let role = if m.role == Role::Assistant {
                "model"
            } else {
                "user"
            };
            let sent = GmContent { role: Some(role.to_owned()), parts };
            assert(sent@ =~= to_content(m@));
            r.push(sent);
        }
    }
    assert(all.take(all.len() as int) == all);
    r
}

/// The tools as they are sent: none, or all in one declaration.
pub fn to_gemini_tools(tools: &Vec<ToolSpec>) -> (r: Vec<GmToolDecl>)
    ensures
        views(r@) == if tools@.len() == 0 {
            Seq::empty()
        } else {
            seq![views(tools@)]
        },
{
    let mut r: Vec<GmToolDecl> = Vec::new();
    if tools.len() > 0 {
        r.push(GmToolDecl { function_declarations: crate::model::copy_all(tools) });
    }
    assert(views(r@) =~= if tools@.len() == 0 {
        Seq::empty()
    } else {
        seq![views(tools@)]
    });
    r
}

/// The `i`-th part of an answer as the session takes it. Calls have no id on
/// the wire, so one is made from the name and the position.
pub open spec fn from_part(p: GmPartView, i: nat) -> BlockView {
    match p {
        GmPartView::Text { text } => BlockView::Text(text),
        GmPartView::FunctionCall { name, args } => BlockView::ToolUse(
            ToolCallView { id: call_id(name, i), name, arguments: args },
        ),
        GmPartView::FunctionResponse { name, response } => BlockView::ToolResult(
            ToolResultView {
                tool_call_id: name,
                content: ToolResultContentView::Text(json_text(canonical(response))),
                is_error: false,
            },
        ),
    }
}

/// Whether some parts call a function.
pub open spec fn calls_function(parts: Seq<GmPartView>) -> bool {
    exists|i: int| 0 <= i < parts.len() && (#[trigger] parts[i]) is FunctionCall
}

/// Why the model stopped.
pub open spec fn stop_of(reason: Option<Seq<char>>, tool: bool) -> StopReason {
    if tool {
        StopReason::ToolUse
    } else if reason == Some("STOP"@) {
        StopReason::EndTurn
    } else if reason == Some("MAX_TOKENS"@) {
        StopReason::MaxTokens
    } else {
        StopReason::Other
    }
}

/// The parts of an answer.
pub open spec fn candidate_parts(c: GmCandidateView) -> Seq<GmPartView> {
    match c.content {
        Some(content) => content.parts,
        None => Seq::empty(),
    }
}

/// The answer as the session takes it: the first candidate, or an error where
/// there is none.
pub open spec fn response_of(
    candidates: Seq<GmCandidateView>,
    usage: Option<GmUsage>,
) -> Result<ResponseView, ProviderErrorView> {
    if candidates.len() == 0 {
        Err(ProviderErrorView::Deserialize("no candidates in response"@))
    } else {
        let parts = candidate_parts(candidates[0]);
        Ok(
            ResponseView {
                message: MessageView {
                    role: Role::Assistant,
                    content: Seq::new(parts.len(), |i: int| from_part(parts[i], i as nat)),
                    metadata: JsonTree::Null,
                },
                stop_reason: stop_of(candidates[0].finish_reason, calls_function(parts)),
                usage: match usage {
                    Some(u) => Usage {
                        input_tokens: u.prompt_token_count,
                        output_tokens: u.candidates_token_count,
                    },
                    None => Usage { input_tokens: 0, output_tokens: 0 },
                },
            },
        )
    }
}

fn from_gemini_part(p: &GmPart, i: usize) -> (r: ContentBlock)
    ensures
        r@ == from_part(p@, i as nat),
{
    match p {
        GmPart::Text { text } => ContentBlock::Text(text.clone()),
        GmPart::FunctionCall { name, args } => {
            let mut id = name.clone();
            id.append("::");
            id.append(decimal_text(i as u64).as_str());
            ContentBlock::ToolUse(ToolCall { id, name: name.clone(), arguments: args.copy() })
        },
        GmPart::FunctionResponse { name, response } => ContentBlock::ToolResult(
            ToolResult {
                tool_call_id: name.clone(),
                content: ToolResultContent::Text(response.text()),
                is_error: false,
            },
        ),
    }
}

/// The answer as the session takes it.
pub fn from_gemini_response(resp: GmResponse) -> (r: Result<ProviderResponse, ProviderError>)
    ensures
        match r {
            Ok(x) => response_of(views(resp.candidates@), resp.usage_metadata) == Ok::<
                _,
                ProviderErrorView,
            >(x@),
            Err(e) => response_of(views(resp.candidates@), resp.usage_metadata) == Err::<
                ResponseView,
                _,
            >(e@),
        },
{
    if resp.candidates.len() == 0 {
        return Err(ProviderError::Deserialize("no candidates in response".to_owned()));
    }
    let candidate = &resp.candidates[0];
    let ghost parts = candidate_parts(candidate@);
    let mut content: Vec<ContentBlock> = Vec::new();
    let mut has_call = false;
    if let Some(c) = &candidate.content {
        assert(views(c.parts@) == parts);
        for i in 0..c.parts.len()
            invariant
                views(c.parts@) == parts,
                content@.len() == i,
                forall|k: int|
                    0 <= k < i ==> (#[trigger] content@[k])@ == from_part(parts[k], k as nat),
                has_call == exists|k: int| 0 <= k < i && (#[trigger] parts[k]) is FunctionCall,
        {
            assert(parts[i as int] == c.parts@[i as int]@);
            if let GmPart::FunctionCall { .. } = &c.parts[i] {
                has_call = true;
            }
            content.push(from_gemini_part(&c.parts[i], i));
        }
    }
    let stop_reason = if has_call {
        StopReason::ToolUse
    } else {
        match &candidate.finish_reason {
            Some(s) => if same(s.as_str(), "STOP") {
                StopReason::EndTurn
            } else if same(s.as_str(), "MAX_TOKENS") {
                StopReason::MaxTokens
            } else {
                StopReason::Other
            },
            None => StopReason::Other,
        }
    };
    let usage = match resp.usage_metadata {
        Some(u) => Usage {
            input_tokens: u.prompt_token_count,
            output_tokens: u.candidates_token_count,
        },
        None => Usage { input_tokens: 0, output_tokens: 0 },
    };
    let r = ProviderResponse {
        message: Message { role: Role::Assistant, content, metadata: Json::Null },
        stop_reason,
        usage,
    };
    assert(r@.message.content =~= Seq::new(parts.len(), |i: int| from_part(parts[i], i as nat)));
    Ok(r)
}

// ---------------------------------------------------------------------------
// The body of a request
// ---------------------------------------------------------------------------

/// A name with a value as JSON.
pub open spec fn named_tree(name: Seq<char>, key: Seq<char>, value: JsonTree) -> JsonTree {
    JsonTree::Object(seq![("name"@, JsonTree::Str(name)), (key, value)])
}

fn named_json(name: &str, key: &str, value: &Json) -> (r: Json)
    ensures
        r@ == named_tree(name@, key@, value@),
{
    let mut m: Vec<(String, Json)> = Vec::new();
    m.push(entry("name", text_value(name)));
    m.push(entry(key, value.copy()));
    let r = Json::object(m);
    assert(r@->Object_0 =~= named_tree(name@, key@, value@)->Object_0);
    r
}

/// A part as JSON.
pub open spec fn part_tree(p: GmPartView) -> JsonTree {
    JsonTree::Object(
        match p {
            GmPartView::Text { text } => seq![("text"@, JsonTree::Str(text))],
            GmPartView::FunctionCall { name, args } => seq![
                ("functionCall"@, named_tree(name, "args"@, args)),
            ],
            GmPartView::FunctionResponse { name, response } => seq![
                ("functionResponse"@, named_tree(name, "response"@, response)),
            ],
        },
    )
}

fn part_json(p: &GmPart) -> (r: Json)
    ensures
        r@ == part_tree(p@),
{
    let mut m: Vec<(String, Json)> = Vec::new();
    match p {
        GmPart::Text { text } => {
            m.push(entry("text", text_value(text.as_str())));
        },
        GmPart::FunctionCall { name, args } => {
            m.push(entry("functionCall", named_json(name.as_str(), "args", args)));
        },
        GmPart::FunctionResponse { name, response } => {
            m.push(entry("functionResponse", named_json(name.as_str(), "response", response)));
        },
    }
    let r = Json::object(m);
    assert(r@->Object_0 =~= part_tree(p@)->Object_0);
    r
}

fn parts_json(items: &Vec<GmPart>) -> (r: Json)
    ensures
        r@ == JsonTree::Array(views(items@).map_values(|x: GmPartView| part_tree(x))),
{
    let mut v: Vec<Json> = Vec::new();
    for i in 0..items.len()
        invariant
            v@.len() == i,
            forall|k: int| 0 <= k < i ==> (#[trigger] v@[k])@ == part_tree(items@[k]@),
    {
        v.push(part_json(&items[i]));
    }
    let r = Json::array(v);
    assert(r@->Array_0 =~= views(items@).map_values(|x: GmPartView| part_tree(x)));
    r
}

/// A message as JSON.
pub open spec fn sent_tree(c: GmContentView) -> JsonTree {
    let role = match c.role {
        Some(role) => seq![("role"@, JsonTree::Str(role))],
        None => Seq::empty(),
    };
    JsonTree::Object(
        role + seq![
            ("parts"@, JsonTree::Array(c.parts.map_values(|p: GmPartView| part_tree(p)))),
        ],
    )
}

fn sent_json(c: &GmContent) -> (r: Json)
    ensures
        r@ == sent_tree(c@),
{
    let mut m: Vec<(String, Json)> = Vec::new();
    if let Some(role) = &c.role {
        m.push(entry("role", text_value(role.as_str())));
    }
    m.push(entry("parts", parts_json(&c.parts)));
    let r = Json::object(m);
    assert(r@->Object_0 =~= sent_tree(c@)->Object_0);
    r
}

fn all_sent_json(items: &Vec<GmContent>) -> (r: Json)
    ensures
        r@ == JsonTree::Array(views(items@).map_values(|x: GmContentView| sent_tree(x))),
{
    let mut v: Vec<Json> = Vec::new();
    for i in 0..items.len()
        invariant
            v@.len() == i,
            forall|k: int| 0 <= k < i ==> (#[trigger] v@[k])@ == sent_tree(items@[k]@),
    {
        v.push(sent_json(&items[i]));
    }
    let r = Json::array(v);
    assert(r@->Array_0 =~= views(items@).map_values(|x: GmContentView| sent_tree(x)));
    r
}

/// A tool as JSON.
pub open spec fn tool_tree(t: ToolSpecView) -> JsonTree {
    JsonTree::Object(
        seq![
            ("name"@, JsonTree::Str(t.name)),
            ("description"@, JsonTree::Str(t.description)),
            ("parameters"@, t.parameters),
        ],
    )
}

fn tool_json(t: &ToolSpec) -> (r: Json)
    ensures
        r@ == tool_tree(t@),
{
    let mut m: Vec<(String, Json)> = Vec::new();
    m.push(entry("name", text_value(t.name.as_str())));
    m.push(entry("description", text_value(t.description.as_str())));
    m.push(entry("parameters", t.parameters.copy()));
    let r = Json::object(m);
    assert(r@->Object_0 =~= tool_tree(t@)->Object_0);
    r
}

fn tools_json(items: &Vec<ToolSpec>) -> (r: Json)
    ensures
        r@ == JsonTree::Array(views(items@).map_values(|x: ToolSpecView| tool_tree(x))),
{
    let mut v: Vec<Json> = Vec::new();
    for i in 0..items.len()
        invariant
            v@.len() == i,
            forall|k: int| 0 <= k < i ==> (#[trigger] v@[k])@ == tool_tree(items@[k]@),
    {
        v.push(tool_json(&items[i]));
    }
    let r = Json::array(v);
    assert(r@->Array_0 =~= views(items@).map_values(|x: ToolSpecView| tool_tree(x)));
    r
}

/// A declaration of tools as JSON.
pub open spec fn declaration_tree(tools: Seq<ToolSpecView>) -> JsonTree {
    JsonTree::Object(
        seq![
            (
                "functionDeclarations"@,
                JsonTree::Array(tools.map_values(|t: ToolSpecView| tool_tree(t))),
            ),
        ],
    )
}

fn declaration_json(d: &GmToolDecl) -> (r: Json)
    ensures
        r@ == declaration_tree(d@),
{
    let mut m: Vec<(String, Json)> = Vec::new();
    m.push(entry("functionDeclarations", tools_json(&d.function_declarations)));
    let r = Json::object(m);
    assert(r@->Object_0 =~= declaration_tree(d@)->Object_0);
    r
}

fn declarations_json(items: &Vec<GmToolDecl>) -> (r: Json)
    ensures
        r@ == JsonTree::Array(views(items@).map_values(|x: Seq<ToolSpecView>| declaration_tree(x))),
{
    let mut v: Vec<Json> = Vec::new();
    for i in 0..items.len()
        invariant
            v@.len() == i,
            forall|k: int| 0 <= k < i ==> (#[trigger] v@[k])@ == declaration_tree(items@[k]@),
    {
        v.push(declaration_json(&items[i]));
    }
    let r = Json::array(v);
    assert(r@->Array_0 =~= views(items@).map_values(|x: Seq<ToolSpecView>| declaration_tree(x)));
    r
}

/// How answers are to be generated, as JSON.
pub open spec fn config_tree(max_output_tokens: u32) -> JsonTree {
    JsonTree::Object(seq![("max_output_tokens"@, number_tree(max_output_tokens as u64))])
}

/// The body of a request. An instruction and tools stand in it where there are
/// some.
pub open spec fn request_tree(r: GmRequest) -> JsonTree {
    let contents = seq![
        (
            "contents"@,
            JsonTree::Array(views(r.contents@).map_values(|c: GmContentView| sent_tree(c))),
        ),
    ];
    let instruction = match r.system_instruction {
        Some(c) => seq![("system_instruction"@, sent_tree(c@))],
        None => Seq::empty(),
    };
    let tools = if r.tools@.len() > 0 {
        seq![
            (
                "tools"@,
                JsonTree::Array(
                    views(r.tools@).map_values(|t: Seq<ToolSpecView>| declaration_tree(t)),
                ),
            ),
        ]
    } else {
        Seq::empty()
    };
    let config = seq![("generation_config"@, config_tree(r.max_output_tokens))];
    JsonTree::Object(contents + instruction + tools + config)
}

impl GmRequest {
    /// The body of the request.
    pub fn body(&self) -> (r: Json)
        ensures
            r@ == request_tree(*self),
    {
        let mut m: Vec<(String, Json)> = Vec::new();
        m.push(entry("contents", all_sent_json(&self.contents)));
        if let Some(c) = &self.system_instruction {
            m.push(entry("system_instruction", sent_json(c)));
        }
        if self.tools.len() > 0 {
            m.push(entry("tools", declarations_json(&self.tools)));
        }
        let mut g: Vec<(String, Json)> = Vec::new();
        g.push(entry("max_output_tokens", Json::number(self.max_output_tokens as u64)));
        let config = Json::object(g);
        assert(config@->Object_0 =~= config_tree(self.max_output_tokens)->Object_0);
        m.push(entry("generation_config", config));
        let r = Json::object(m);
        assert(r@->Object_0 =~= request_tree(*self)->Object_0);
        r
    }
}

/// Access to the API.
pub struct GeminiProvider {
    pub api_key: String,
    pub base_url: String,
    pub model: String,
}

impl GeminiProvider {
    /// Access with a key, for a model.
    pub fn new(api_key: &str, model: &str) -> (r: GeminiProvider)
        ensures
            r.api_key@ == api_key@,
            r.base_url@ == "https://generativelanguage.googleapis.com"@,
            r.model@ == model@,
    {
        GeminiProvider {
            api_key: api_key.to_owned(),
            base_url: "https://generativelanguage.googleapis.com".to_owned(),
            model: model.to_owned(),
        }
    }

    /// The name of the provider.
    pub fn id(&self) -> (r: &'static str)
        ensures
            r@ == "gemini"@,
    {
        "gemini"
    }

    /// Where requests go.
    pub fn url(&self) -> (r: String)
        ensures
            r@ == self.base_url@ + "/v1beta/models/"@ + self.model@ + ":generateContent"@,
    {
        let mut r = self.base_url.clone();
        r.append("/v1beta/models/");
        r.append(self.model.as_str());
        r.append(":generateContent");
        r
    }

    /// The request for the next message.
    pub fn request(
        &self,
        messages: &Vec<Message>,
        tools: &Vec<ToolSpec>,
        system_prompt: &Option<String>,
    ) -> (r: GmRequest)
        ensures
            views(r.contents@) == to_contents(views(messages@)),
            opt_view(r.system_instruction) == (match opt_view(*system_prompt) {
                Some(p) => Some(
                    GmContentView { role: None, parts: seq![GmPartView::Text { text: p }] },
                ),
                None => None,
            }),
            views(r.tools@) == if tools@.len() == 0 {
                Seq::empty()
            } else {
                seq![views(tools@)]
            },
            r.max_output_tokens == DEFAULT_MAX_TOKENS,
    {
        let system_instruction = match system_prompt {
            Some(p) => {
                let mut parts: Vec<GmPart> = Vec::new();
                parts.push(GmPart::Text { text: p.clone() });
                assert(views(parts@) =~= seq![GmPartView::Text { text: p@ }]);
                Some(GmContent { role: None, parts })
            },
            None => None,
        };
        GmRequest {
            contents: to_gemini_contents(messages),
            system_instruction,
            tools: to_gemini_tools(tools),
            max_output_tokens: DEFAULT_MAX_TOKENS,
        }
    }
}

/// The name of a function is recovered from the id that was made for its call.
pub proof fn law_name_is_recovered_from_id(name: Seq<char>, i: nat)
    ensures
        name_in_id(call_id(name, i)) == name,
{
    let id = call_id(name, i);
    let sep = id_separator();
    reveal_strlit("::");
    let n = name.len() as int;
    assert(occurs_at(id, sep, n)) by {
        assert(id.subrange(n, n + 2) =~= sep);
    }
    lemma_decimal_digits(i);
    assert forall|k: int| n < k <= id.len() implies !#[trigger] occurs_at(id, sep, k) by {
        if occurs_at(id, sep, k) {
            assert(id.subrange(k, k + 2)[1] == ':');
            assert(id[k + 1] == decimal(i)[k - 1 - n]);
        }
    }
    lemma_last_at(id, sep, id.len() as int, n);
    assert(id.take(n) =~= name);
}

} // verus!
