//! Conversation messages.
use vstd::prelude::*;

use crate::json::{Json, JsonTree};
use crate::model::{copy_all, copy_option, group_views, opt_view, views, Copied};
use crate::text::join;

verus! {

broadcast use group_views;

/// Who a message comes from.
#[derive(Clone, Copy, Debug, PartialEq, Eq, Structural)]
pub enum Role {
    System,
    User,
    Assistant,
    Tool,
}

/// Why a provider stopped generating.
#[derive(Clone, Copy, Debug, PartialEq, Eq, Structural)]
pub enum StopReason {
    EndTurn,
    ToolUse,
    MaxTokens,
    Other,
}

/// Tokens that were consumed.
#[derive(Clone, Copy, Debug, PartialEq, Eq, Structural)]
pub struct Usage {
    pub input_tokens: u32,
    pub output_tokens: u32,
}

impl Default for Usage {
    fn default() -> (r: Usage)
        ensures
            r.input_tokens == 0,
            r.output_tokens == 0,
    {
        Usage { input_tokens: 0, output_tokens: 0 }
    }
}

/// A request of the model to run a tool.
pub struct ToolCall {
    pub id: String,
    pub name: String,
    pub arguments: Json,
}

/// What a tool gave back.
pub enum ToolResultContent {
    Text(String),
    Blocks(Vec<Json>),
}

/// The answer to a tool call.
pub struct ToolResult {
    pub tool_call_id: String,
    pub content: ToolResultContent,
    pub is_error: bool,
}

/// A part of a message.
pub enum ContentBlock {
    Text(String),
    ToolUse(ToolCall),
    ToolResult(ToolResult),
    Thinking { text: String, signature: Option<String> },
}

/// A message of the conversation.
pub struct Message {
    pub role: Role,
    pub content: Vec<ContentBlock>,
    pub metadata: Json,
}

/// A tool as it is offered to the model.
pub struct ToolSpec {
    pub name: String,
    pub description: String,
    pub parameters: Json,
}

/// What a provider answered.
pub struct ProviderResponse {
    pub message: Message,
    pub stop_reason: StopReason,
    pub usage: Usage,
}

/// What running a tool gave.
pub struct ToolExecOutcome {
    pub content: String,
    pub is_error: bool,
    pub metadata: Json,
}

// ---------------------------------------------------------------------------
// Views
// ---------------------------------------------------------------------------

#[verifier::ext_equal]
pub struct ToolCallView {
    pub id: Seq<char>,
    pub name: Seq<char>,
    pub arguments: JsonTree,
}

#[verifier::ext_equal]
pub enum ToolResultContentView {
    Text(Seq<char>),
    Blocks(Seq<JsonTree>),
}

#[verifier::ext_equal]
pub struct ToolResultView {
    pub tool_call_id: Seq<char>,
    pub content: ToolResultContentView,
    pub is_error: bool,
}

#[verifier::ext_equal]
pub enum BlockView {
    Text(Seq<char>),
    ToolUse(ToolCallView),
    ToolResult(ToolResultView),
    Thinking { text: Seq<char>, signature: Option<Seq<char>> },
}

#[verifier::ext_equal]
pub struct MessageView {
    pub role: Role,
    pub content: Seq<BlockView>,
    pub metadata: JsonTree,
}

#[verifier::ext_equal]
pub struct ToolSpecView {
    pub name: Seq<char>,
    pub description: Seq<char>,
    pub parameters: JsonTree,
}

#[verifier::ext_equal]
pub struct ResponseView {
    pub message: MessageView,
    pub stop_reason: StopReason,
    pub usage: Usage,
}

#[verifier::ext_equal]
pub struct OutcomeView {
    pub content: Seq<char>,
    pub is_error: bool,
    pub metadata: JsonTree,
}

impl View for ToolCall {
    type V = ToolCallView;

    open spec fn view(&self) -> ToolCallView {
        ToolCallView { id: self.id@, name: self.name@, arguments: self.arguments@ }
    }
}

impl View for ToolResultContent {
    type V = ToolResultContentView;

    open spec fn view(&self) -> ToolResultContentView {
        match self {
            ToolResultContent::Text(t) => ToolResultContentView::Text(t@),
            ToolResultContent::Blocks(b) => ToolResultContentView::Blocks(views(b@)),
        }
    }
}

impl View for ToolResult {
    type V = ToolResultView;

    open spec fn view(&self) -> ToolResultView {
        ToolResultView {
            tool_call_id: self.tool_call_id@,
            content: self.content@,
            is_error: self.is_error,
        }
    }
}

impl View for ContentBlock {
    type V = BlockView;

    open spec fn view(&self) -> BlockView {
        match self {
            ContentBlock::Text(t) => BlockView::Text(t@),
            ContentBlock::ToolUse(c) => BlockView::ToolUse(c@),
            ContentBlock::ToolResult(r) => BlockView::ToolResult(r@),
            ContentBlock::Thinking { text, signature } => BlockView::Thinking {
                text: text@,
                signature: opt_view(*signature),
            },
        }
    }
}

impl View for Message {
    type V = MessageView;

    open spec fn view(&self) -> MessageView {
        MessageView {
            role: self.role,
            content: views(self.content@),
            metadata: self.metadata@,
        }
    }
}

impl View for ToolSpec {
    type V = ToolSpecView;

    open spec fn view(&self) -> ToolSpecView {
        ToolSpecView {
            name: self.name@,
            description: self.description@,
            parameters: self.parameters@,
        }
    }
}

impl View for ProviderResponse {
    type V = ResponseView;

    open spec fn view(&self) -> ResponseView {
        ResponseView {
            message: self.message@,
            stop_reason: self.stop_reason,
            usage: self.usage,
        }
    }
}

impl View for ToolExecOutcome {
    type V = OutcomeView;

    open spec fn view(&self) -> OutcomeView {
        OutcomeView {
            content: self.content@,
            is_error: self.is_error,
            metadata: self.metadata@,
        }
    }
}

// ---------------------------------------------------------------------------
// Copies
// ---------------------------------------------------------------------------

impl Copied for ToolCall {
    fn copied(&self) -> (r: Self) {
        ToolCall {
            id: self.id.clone(),
            name: self.name.clone(),
            arguments: self.arguments.copy(),
        }
    }
}

impl Copied for ToolResultContent {
    fn copied(&self) -> (r: Self) {
        match self {
            ToolResultContent::Text(t) => ToolResultContent::Text(t.clone()),
            ToolResultContent::Blocks(b) => ToolResultContent::Blocks(copy_all(b)),
        }
    }
}

impl Copied for ToolResult {
    fn copied(&self) -> (r: Self) {
        ToolResult {
            tool_call_id: self.tool_call_id.clone(),
            content: self.content.copied(),
            is_error: self.is_error,
        }
    }
}

impl Copied for ContentBlock {
    fn copied(&self) -> (r: Self) {
        match self {
            ContentBlock::Text(t) => ContentBlock::Text(t.clone()),
            ContentBlock::ToolUse(c) => ContentBlock::ToolUse(c.copied()),
            ContentBlock::ToolResult(r) => ContentBlock::ToolResult(r.copied()),
            ContentBlock::Thinking { text, signature } => ContentBlock::Thinking {
                text: text.clone(),
                signature: copy_option(signature),
            },
        }
    }
}

impl Copied for Message {
    fn copied(&self) -> (r: Self) {
        Message {
            role: self.role,
            content: copy_all(&self.content),
            metadata: self.metadata.copy(),
        }
    }
}

impl Copied for ToolSpec {
    fn copied(&self) -> (r: Self) {
        ToolSpec {
            name: self.name.clone(),
            description: self.description.clone(),
            parameters: self.parameters.copy(),
        }
    }
}

impl Copied for ToolExecOutcome {
    fn copied(&self) -> (r: Self) {
        ToolExecOutcome {
            content: self.content.clone(),
            is_error: self.is_error,
            metadata: self.metadata.copy(),
        }
    }
}

// ---------------------------------------------------------------------------
// Making and reading messages
// ---------------------------------------------------------------------------

/// A user message made of one text.
pub open spec fn user_text_view(text: Seq<char>) -> MessageView {
    MessageView {
        role: Role::User,
        content: seq![BlockView::Text(text)],
        metadata: JsonTree::Null,
    }
}

/// A message that carries the answers to tool calls.
pub open spec fn tool_results_view(results: Seq<ToolResultView>) -> MessageView {
    MessageView {
        role: Role::Tool,
        content: results.map_values(|r: ToolResultView| BlockView::ToolResult(r)),
        metadata: JsonTree::Null,
    }
}

/// The tool calls among some blocks, in order.
pub open spec fn calls_of(blocks: Seq<BlockView>) -> Seq<ToolCallView>
    decreases blocks.len(),
{
    if blocks.len() == 0 {
        Seq::empty()
    } else {
        let rest = calls_of(blocks.drop_last());
        match blocks.last() {
            BlockView::ToolUse(c) => rest.push(c),
            _ => rest,
        }
    }
}

/// The texts among some blocks, in order.
pub open spec fn texts_of(blocks: Seq<BlockView>) -> Seq<Seq<char>>
    decreases blocks.len(),
{
    if blocks.len() == 0 {
        Seq::empty()
    } else {
        let rest = texts_of(blocks.drop_last());
        match blocks.last() {
            BlockView::Text(t) => rest.push(t),
            _ => rest,
        }
    }
}

/// The text of a message: its text blocks, one after the other on lines of
/// their own.
pub open spec fn message_text(m: MessageView) -> Seq<char> {
    join(texts_of(m.content), "\n"@)
}

impl Message {
    /// A user message made of one text.
    pub fn user_text(text: &str) -> (r: Message)
        ensures
            r@ == user_text_view(text@),
    {
        let mut content: Vec<ContentBlock> = Vec::new();
        content.push(ContentBlock::Text(text.to_owned()));
        let r = Message { role: Role::User, content, metadata: Json::Null };
        assert(r@.content =~= user_text_view(text@).content);
        r
    }

    /// A message that carries the answers to tool calls.
    pub fn tool_results(results: Vec<ToolResult>) -> (r: Message)
        ensures
            r@ == tool_results_view(views(results@)),
    {
        let mut content: Vec<ContentBlock> = Vec::new();
        let ghost all = results@;
        for result in it: results
            invariant
                it.seq() == all,
                content@.len() == it.index(),
                forall|j: int|
                    0 <= j < content@.len() ==> (#[trigger] content@[j])@
                        == BlockView::ToolResult(all[j]@),
        {
            content.push(ContentBlock::ToolResult(result));
        }
        let r = Message { role: Role::Tool, content, metadata: Json::Null };
        assert(r@.content =~= tool_results_view(views(all)).content);
        r
    }

    /// The tool calls that the message asks for, in order.
    pub fn tool_calls(&self) -> (r: Vec<ToolCall>)
        ensures
            views(r@) == calls_of(self@.content),
    {
        let mut r: Vec<ToolCall> = Vec::new();
        let ghost blocks = self@.content;
        for i in 0..self.content.len()
            invariant
                blocks == views(self.content@),
                views(r@) == calls_of(blocks.take(i as int)),
        {
            assert(blocks.take(i + 1).drop_last() == blocks.take(i as int));
            if let ContentBlock::ToolUse(c) = &self.content[i] {
                r.push(c.copied());
            }
        }
        assert(blocks.take(blocks.len() as int) == blocks);
        r
    }

    /// The text blocks of the message, in order.
    pub fn text_blocks(&self) -> (r: Vec<String>)
        ensures
            views(r@) == texts_of(self@.content),
    {
        let mut r: Vec<String> = Vec::new();
        let ghost blocks = self@.content;
        for i in 0..self.content.len()
            invariant
                blocks == views(self.content@),
                views(r@) == texts_of(blocks.take(i as int)),
        {
            assert(blocks.take(i + 1).drop_last() == blocks.take(i as int));
            if let ContentBlock::Text(t) = &self.content[i] {
                r.push(t.clone());
            }
        }
        assert(blocks.take(blocks.len() as int) == blocks);
        r
    }

    /// The text of the message.
    pub fn text(&self) -> (r: String)
        ensures
            r@ == message_text(self@),
    {
        crate::text::joined(&self.text_blocks(), "\n")
    }
}

// ---------------------------------------------------------------------------
// Laws
// ---------------------------------------------------------------------------

/// The calls of a message are its tool uses, all of them and in their order:
/// those of two parts are those of the first and then those of the second, and
/// a single block has a call exactly if it is a tool use.
pub proof fn law_calls_are_the_tool_uses(
    a: Seq<BlockView>,
    b: Seq<BlockView>,
    block: BlockView,
)
    ensures
        calls_of(a + b) == calls_of(a) + calls_of(b),
        calls_of(seq![block]) == match block {
            BlockView::ToolUse(c) => seq![c],
            _ => Seq::empty(),
        },
    decreases b.len(),
{
    assert(seq![block].drop_last() =~= Seq::empty());
    reveal_with_fuel(calls_of, 2);
    if b.len() == 0 {
        assert(a + b =~= a);
    } else {
        law_calls_are_the_tool_uses(a, b.drop_last(), block);
        assert((a + b).drop_last() =~= a + b.drop_last());
        assert((a + b).last() == b.last());
    }
}

/// The texts of a message are its text blocks, all of them and in their order.
pub proof fn law_texts_are_the_text_blocks(
    a: Seq<BlockView>,
    b: Seq<BlockView>,
    block: BlockView,
)
    ensures
        texts_of(a + b) == texts_of(a) + texts_of(b),
        texts_of(seq![block]) == match block {
            BlockView::Text(t) => seq![t],
            _ => Seq::empty(),
        },
    decreases b.len(),
{
    assert(seq![block].drop_last() =~= Seq::empty());
    reveal_with_fuel(texts_of, 2);
    if b.len() == 0 {
        assert(a + b =~= a);
    } else {
        law_texts_are_the_text_blocks(a, b.drop_last(), block);
        assert((a + b).drop_last() =~= a + b.drop_last());
        assert((a + b).last() == b.last());
    }
}

/// A text that a user enters is the text of the message that is made of it,
/// which is the user's and asks for nothing.
pub proof fn law_user_text_says_it(text: Seq<char>)
    ensures
        user_text_view(text).role == Role::User,
        user_text_view(text).content == seq![BlockView::Text(text)],
        message_text(user_text_view(text)) == text,
        calls_of(user_text_view(text).content).len() == 0,
{
    let blocks = seq![BlockView::Text(text)];
    assert(blocks.drop_last() =~= Seq::empty());
    reveal_with_fuel(texts_of, 2);
    reveal_with_fuel(calls_of, 2);
    reveal_with_fuel(join, 2);
    assert(texts_of(blocks) =~= seq![text]);
}

/// A message of results holds each result, in order, and is a tool's.
pub proof fn law_tool_message_holds_results(results: Seq<ToolResultView>, i: int)
    requires
        0 <= i < results.len(),
    ensures
        tool_results_view(results).role == Role::Tool,
        tool_results_view(results).content.len() == results.len(),
        tool_results_view(results).content[i] == BlockView::ToolResult(results[i]),
{
}

} // verus!
