//! What is sent to the providers, and what is made of their answers.
use vstd::prelude::*;

use crate::anthropic::{self, AnthropicBlockView};
use crate::gemini::{self, GmCandidateView, GmContentView, GmPartView, GmUsage};
use crate::json::{
    bool_member, canonical, json_parsed, json_text, lemma_member, member, number_tree, text_member,
    JsonTree,
};
use crate::message::{
    calls_of, BlockView, MessageView, Role, StopReason, ToolCallView, ToolResultContentView,
    ToolResultView, ToolSpecView,
};
use crate::openai::{self, OaChoiceView, OaMessageView, OaToolCallView, OaUsage};
use crate::provider::ProviderErrorView;
use crate::text::join;

verus! {

// ---------------------------------------------------------------------------
// OpenAI
// ---------------------------------------------------------------------------

/// A call that is sent has the id, the name and the arguments of the call, the
/// arguments as a text; and where that text reads as the arguments, the call
/// that is read from it is the call.
pub proof fn law_openai_call_survives_the_wire(c: ToolCallView)
    ensures
        openai::to_call(c).id == c.id,
        openai::to_call(c).name == c.name,
        openai::to_call(c).kind == "function"@,
        openai::to_call(c).arguments == json_text(canonical(c.arguments)),
        json_parsed(json_text(canonical(c.arguments))) == Some(c.arguments) ==> openai::from_call(
            openai::to_call(c),
        ) == BlockView::ToolUse(c),
{
}

/// Each call of an answer is read, in their order: with its id, its name and the
/// arguments that its text says; a text that is no JSON says nothing.
pub proof fn law_openai_calls_are_read(
    choices: Seq<OaChoiceView>,
    usage: Option<OaUsage>,
    i: int,
)
    requires
        choices.len() > 0,
        0 <= i < choices[0].tool_calls.len(),
    ensures
        openai::response_of(choices, usage) matches Ok(r) && ({
            let wire = choices[0].tool_calls;
            let read = calls_of(r.message.content);
            &&& read.len() == wire.len()
            &&& read[i].id == wire[i].id
            &&& read[i].name == wire[i].name
            &&& read[i].arguments == match json_parsed(wire[i].arguments) {
                Some(t) => t,
                None => JsonTree::Null,
            }
        }),
{
    let c = choices[0];
    let head: Seq<BlockView> = match c.content {
        Some(text) => seq![BlockView::Text(text)],
        None => Seq::empty(),
    };
    let tail = c.tool_calls.map_values(|t: OaToolCallView| openai::from_call(t));
    lemma_calls_of_uses(head, c.tool_calls.map_values(
        |t: OaToolCallView| openai::from_call(t)->ToolUse_0,
    ));
    assert(tail =~= c.tool_calls.map_values(
        |t: OaToolCallView| openai::from_call(t)->ToolUse_0,
    ).map_values(|x: ToolCallView| BlockView::ToolUse(x)));
}

/// The calls in blocks of which the first are none, and the rest all are.
proof fn lemma_calls_of_uses(head: Seq<BlockView>, calls: Seq<ToolCallView>)
    requires
        head.len() <= 1,
        head.len() == 1 ==> head[0] is Text,
    ensures
        calls_of(head + calls.map_values(|x: ToolCallView| BlockView::ToolUse(x))) == calls,
    decreases calls.len(),
{
    let tail = calls.map_values(|x: ToolCallView| BlockView::ToolUse(x));
    if calls.len() == 0 {
        assert(head + tail =~= head);
        reveal_with_fuel(calls_of, 2);
        assert(calls_of(head) =~= calls);
    } else {
        lemma_calls_of_uses(head, calls.drop_last());
        assert((head + tail).drop_last() =~= head + calls.drop_last().map_values(
            |x: ToolCallView| BlockView::ToolUse(x),
        ));
        assert(calls.drop_last().push(calls.last()) =~= calls);
    }
}

/// An answer is the first choice, in the assistant's name: its text, where it
/// has one, and behind it its calls. Without a choice there is an error.
pub proof fn law_openai_answer_is_the_first_choice(
    choices: Seq<OaChoiceView>,
    usage: Option<OaUsage>,
)
    ensures
        choices.len() == 0 <==> openai::response_of(choices, usage) is Err,
        openai::response_of(choices, usage) matches Err(e) ==> e == ProviderErrorView::Deserialize(
            "no choices in response"@,
        ),
        openai::response_of(choices, usage) matches Ok(r) ==> r.message.metadata == JsonTree::Null,
        openai::response_of(choices, usage) matches Ok(r) ==> {
            let c = choices[0];
            let n: int = if c.content is Some {
                1
            } else {
                0
            };
            &&& r.message.role == Role::Assistant
            &&& r.message.content.len() == n + c.tool_calls.len()
            &&& c.content matches Some(text) ==> r.message.content[0] == BlockView::Text(text)
            &&& forall|i: int|
                n <= i < r.message.content.len() ==> (#[trigger] r.message.content[i]) is ToolUse
            &&& r.usage.input_tokens == match usage {
                Some(u) => u.prompt_tokens,
                None => 0,
            }
            &&& r.usage.output_tokens == match usage {
                Some(u) => u.completion_tokens,
                None => 0,
            }
            &&& c.tool_calls.len() > 0 <==> r.stop_reason == StopReason::ToolUse
            &&& c.tool_calls.len() == 0 ==> r.stop_reason == match c.finish_reason {
                Some(reason) => if reason == "stop"@ {
                    StopReason::EndTurn
                } else if reason == "length"@ {
                    StopReason::MaxTokens
                } else {
                    StopReason::Other
                },
                None => StopReason::Other,
            }
        },
{
}

/// Messages are sent one after the other. What the user and the assistant say is
/// one message each, in their name, with the texts on lines of their own and all
/// calls; the system's messages are left out.
pub proof fn law_openai_sends_what_was_said(
    a: Seq<MessageView>,
    b: Seq<MessageView>,
    m: MessageView,
)
    ensures
        openai::message_groups(a + b) == openai::message_groups(a) + openai::message_groups(b),
        m.role == Role::System ==> openai::message_groups(seq![m]).len() == 0,
        m.role == Role::User || m.role == Role::Assistant ==> {
            let sent = openai::message_groups(seq![m]);
            let text = join(crate::message::texts_of(m.content), "\n"@);
            let calls = calls_of(m.content);
            &&& sent.len() == 1
            &&& sent[0].role == if m.role == Role::User {
                "user"@
            } else {
                "assistant"@
            }
            &&& sent[0].content == if text.len() == 0 {
                None
            } else {
                Some(text)
            }
            &&& sent[0].tool_call_id is None
            &&& sent[0].tool_calls.len() == calls.len()
            &&& forall|i: int|
                0 <= i < calls.len() ==> (#[trigger] sent[0].tool_calls[i]).id == calls[i].id
                    && sent[0].tool_calls[i].name == calls[i].name
                    && sent[0].tool_calls[i].arguments == json_text(
                    canonical(calls[i].arguments),
                )
        },
        m.role == Role::Tool ==> openai::message_groups(seq![m]) == openai::result_messages(
            m.content,
        ),
    decreases b.len(),
{
    assert(seq![m].drop_last() =~= Seq::empty());
    reveal_with_fuel(openai::message_groups, 2);
    assert(openai::message_groups(seq![m]) =~= openai::message_group(m));
    if b.len() == 0 {
        assert(a + b =~= a);
        assert(openai::message_groups(a) + openai::message_groups(b) =~= openai::message_groups(a));
    } else {
        law_openai_sends_what_was_said(a, b.drop_last(), m);
        assert((a + b).drop_last() =~= a + b.drop_last());
        assert(openai::message_groups(a + b) =~= openai::message_groups(a)
            + openai::message_groups(b));
    }
}

/// Each result is sent as a message of its own, in their order, under the id of
/// its call and with its text.
pub proof fn law_openai_sends_each_result(
    a: Seq<BlockView>,
    b: Seq<BlockView>,
    r: ToolResultView,
    other: BlockView,
)
    ensures
        openai::result_messages(a + b) == openai::result_messages(a) + openai::result_messages(b),
        openai::result_messages(seq![BlockView::ToolResult(r)]) == seq![
            OaMessageView {
                role: "tool"@,
                content: Some(
                    match r.content {
                        ToolResultContentView::Text(t) => t,
                        ToolResultContentView::Blocks(v) => json_text(
                            canonical(JsonTree::Array(v)),
                        ),
                    },
                ),
                tool_calls: Seq::empty(),
                tool_call_id: Some(r.tool_call_id),
            },
        ],
        !(other is ToolResult) ==> openai::result_messages(seq![other]).len() == 0,
    decreases b.len(),
{
    assert(seq![BlockView::ToolResult(r)].drop_last() =~= Seq::empty());
    assert(seq![other].drop_last() =~= Seq::empty());
    reveal_with_fuel(openai::result_messages, 2);
    if b.len() == 0 {
        assert(a + b =~= a);
        assert(openai::result_messages(a) + openai::result_messages(b)
            =~= openai::result_messages(a));
    } else {
        law_openai_sends_each_result(a, b.drop_last(), r, other);
        assert((a + b).drop_last() =~= a + b.drop_last());
        assert(openai::result_messages(a + b) =~= openai::result_messages(a)
            + openai::result_messages(b));
    }
}

/// A prompt is sent as one message of the system; without a prompt there is
/// none.
pub proof fn law_openai_prompt_is_the_systems(prompt: Seq<char>)
    ensures
        openai::system_message(Some(prompt)).len() == 1,
        openai::system_message(Some(prompt))[0].role == "system"@,
        openai::system_message(Some(prompt))[0].content == Some(prompt),
        openai::system_message(Some(prompt))[0].tool_calls.len() == 0,
        openai::system_message(Some(prompt))[0].tool_call_id is None,
        openai::system_message(None).len() == 0,
{
}

// ---------------------------------------------------------------------------
// Anthropic
// ---------------------------------------------------------------------------

/// A block is sent as what it is: with its text, with the id, the name and the
/// arguments of its call, or with the text of its result under the id of its
/// call, marked only if it is an error.
pub proof fn law_anthropic_blocks_are_sent_as_they_are(
    text: Seq<char>,
    c: ToolCallView,
    r: ToolResultView,
    signature: Option<Seq<char>>,
)
    ensures
        anthropic::to_block(BlockView::Text(text)) == (AnthropicBlockView::Text { text }),
        anthropic::to_block(BlockView::ToolUse(c)) == (AnthropicBlockView::ToolUse {
            id: c.id,
            name: c.name,
            input: c.arguments,
        }),
        anthropic::to_block(BlockView::ToolResult(r)) matches AnthropicBlockView::ToolResult {
            tool_use_id,
            content,
            is_error,
        } && tool_use_id == r.tool_call_id && (r.content matches ToolResultContentView::Text(t)
            ==> content == t) && (r.is_error <==> is_error == Some(true)) && (!r.is_error
            ==> is_error is None),
        anthropic::to_block(BlockView::Thinking { text, signature }) == (
        AnthropicBlockView::Thinking { thinking: text, signature }),
{
}

/// Messages are sent in their order, each block of each; those of the system are
/// left out, and what is not the assistant's goes in the user's name.
pub proof fn law_anthropic_sends_what_was_said(
    a: Seq<MessageView>,
    b: Seq<MessageView>,
    m: MessageView,
)
    ensures
        anthropic::to_messages(a + b) == anthropic::to_messages(a) + anthropic::to_messages(b),
        m.role == Role::System ==> anthropic::to_messages(seq![m]).len() == 0,
        m.role != Role::System ==> {
            let sent = anthropic::to_messages(seq![m]);
            &&& sent.len() == 1
            &&& sent[0].role == if m.role == Role::Assistant {
                "assistant"@
            } else {
                "user"@
            }
            &&& sent[0].content.len() == m.content.len()
            &&& forall|i: int|
                0 <= i < m.content.len() ==> #[trigger] sent[0].content[i] == anthropic::to_block(
                    m.content[i],
                )
        },
    decreases b.len(),
{
    assert(seq![m].drop_last() =~= Seq::empty());
    reveal_with_fuel(anthropic::to_messages, 2);
    if b.len() == 0 {
        assert(a + b =~= a);
        assert(anthropic::to_messages(a) + anthropic::to_messages(b)
            =~= anthropic::to_messages(a));
    } else {
        law_anthropic_sends_what_was_said(a, b.drop_last(), m);
        assert((a + b).drop_last() =~= a + b.drop_last());
        assert(anthropic::to_messages(a + b) =~= anthropic::to_messages(a)
            + anthropic::to_messages(b));
    }
}

/// An answer is read block by block, in the assistant's name, with the tokens
/// that it cost. It stops for a tool exactly if it asks for one.
pub proof fn law_anthropic_answer_is_read(
    blocks: Seq<AnthropicBlockView>,
    reason: Option<Seq<char>>,
    input_tokens: u32,
    output_tokens: u32,
)
    ensures
        ({
            let r = anthropic::response_of(blocks, reason, input_tokens, output_tokens);
            &&& r.message.role == Role::Assistant
            &&& r.message.metadata == JsonTree::Null
            &&& r.message.content.len() == blocks.len()
            &&& forall|i: int|
                0 <= i < blocks.len() ==> match blocks[i] {
                    AnthropicBlockView::Text { text } => #[trigger] r.message.content[i]
                        == BlockView::Text(text),
                    AnthropicBlockView::ToolUse { id, name, input } => r.message.content[i]
                        == BlockView::ToolUse(ToolCallView { id, name, arguments: input }),
                    AnthropicBlockView::ToolResult { tool_use_id, content, is_error } =>
                        r.message.content[i] == BlockView::ToolResult(
                        ToolResultView {
                            tool_call_id: tool_use_id,
                            content: ToolResultContentView::Text(content),
                            is_error: is_error == Some(true),
                        },
                    ),
                    AnthropicBlockView::Thinking { thinking, signature } => r.message.content[i]
                        == (BlockView::Thinking { text: thinking, signature }),
                }
            &&& r.usage.input_tokens == input_tokens
            &&& r.usage.output_tokens == output_tokens
            &&& r.stop_reason == StopReason::ToolUse <==> exists|i: int|
                0 <= i < blocks.len() && (#[trigger] blocks[i]) is ToolUse
            &&& r.stop_reason != StopReason::ToolUse ==> r.stop_reason == match reason {
                Some(text) => if text == "end_turn"@ || text == "stop_sequence"@ {
                    StopReason::EndTurn
                } else if text == "max_tokens"@ {
                    StopReason::MaxTokens
                } else {
                    StopReason::Other
                },
                None => StopReason::Other,
            }
        }),
{
}

// ---------------------------------------------------------------------------
// Gemini
// ---------------------------------------------------------------------------

/// A call that is read gets an id of its own, from its name and its place in the
/// answer; its result is sent under that name again.
pub proof fn law_gemini_result_finds_its_function(
    name: Seq<char>,
    args: JsonTree,
    i: nat,
    j: nat,
    text: Seq<char>,
    is_error: bool,
)
    ensures
        gemini::from_part(GmPartView::FunctionCall { name, args }, i) matches BlockView::ToolUse(c)
            && c.name == name && c.arguments == args && gemini::to_part(
            BlockView::ToolResult(
                ToolResultView {
                    tool_call_id: c.id,
                    content: ToolResultContentView::Text(text),
                    is_error,
                },
            ),
        ) == (GmPartView::FunctionResponse {
            name,
            response: JsonTree::Object(seq![("result"@, JsonTree::Str(text))]),
        }) && gemini::to_part(BlockView::ToolUse(c)) == (GmPartView::FunctionCall { name, args }),
        gemini::call_id(name, i) == gemini::call_id(name, j) ==> i == j,
{
    gemini::law_name_is_recovered_from_id(name, i);
    if gemini::call_id(name, i) == gemini::call_id(name, j) {
        let head = name + gemini::id_separator();
        let n = head.len() as int;
        assert(gemini::call_id(name, i).skip(n) =~= crate::text::decimal(i));
        assert(gemini::call_id(name, j).skip(n) =~= crate::text::decimal(j));
        crate::text_laws::law_decimal_tells_numbers_apart(i, j);
    }
}

/// No two calls of an answer have the same id, whatever they call.
pub proof fn law_gemini_calls_have_their_own_ids(
    a: Seq<char>,
    x: JsonTree,
    i: nat,
    b: Seq<char>,
    y: JsonTree,
    j: nat,
)
    requires
        i != j || a != b,
    ensures
        gemini::from_part(GmPartView::FunctionCall { name: a, args: x }, i)->ToolUse_0.id
            != gemini::from_part(GmPartView::FunctionCall { name: b, args: y }, j)->ToolUse_0.id,
{
    gemini::law_name_is_recovered_from_id(a, i);
    gemini::law_name_is_recovered_from_id(b, j);
    if gemini::call_id(a, i) == gemini::call_id(b, j) {
        let n = (a + gemini::id_separator()).len() as int;
        assert(gemini::call_id(a, i).skip(n) =~= crate::text::decimal(i));
        assert(gemini::call_id(b, j).skip(n) =~= crate::text::decimal(j));
        crate::text_laws::law_decimal_tells_numbers_apart(i, j);
    }
}

/// A result of several blocks is sent as their text.
pub proof fn law_results_of_blocks_are_sent_as_text(
    id: Seq<char>,
    v: Seq<JsonTree>,
    is_error: bool,
)
    ensures
        ({
            let r = ToolResultView {
                tool_call_id: id,
                content: ToolResultContentView::Blocks(v),
                is_error,
            };
            let text = json_text(canonical(JsonTree::Array(v)));
            &&& anthropic::to_block(BlockView::ToolResult(
                r,
            )) matches AnthropicBlockView::ToolResult { content, .. } && content == text
            &&& gemini::to_part(BlockView::ToolResult(
                r,
            )) matches GmPartView::FunctionResponse { response, .. } && text_member(
                response,
                "result"@,
            ) == Some(text)
        }),
{
    let response = JsonTree::Object(
        seq![("result"@, JsonTree::Str(json_text(canonical(JsonTree::Array(v)))))],
    );
    lemma_member(response->Object_0, 0);
}

/// Texts, also those of thoughts, are sent as texts; a text that is read is a
/// text.
pub proof fn law_gemini_texts_are_texts(text: Seq<char>, signature: Option<Seq<char>>, i: nat)
    ensures
        gemini::to_part(BlockView::Text(text)) == (GmPartView::Text { text }),
        gemini::to_part(BlockView::Thinking { text, signature }) == (GmPartView::Text { text }),
        gemini::from_part(GmPartView::Text { text }, i) == BlockView::Text(text),
{
}

/// Messages are sent in their order, each block of each; those of the system are
/// left out. The assistant's go in the model's name, all others in the user's.
pub proof fn law_gemini_sends_what_was_said(
    a: Seq<MessageView>,
    b: Seq<MessageView>,
    m: MessageView,
)
    ensures
        gemini::to_contents(a + b) == gemini::to_contents(a) + gemini::to_contents(b),
        m.role == Role::System ==> gemini::to_contents(seq![m]).len() == 0,
        m.role != Role::System ==> {
            let sent = gemini::to_contents(seq![m]);
            &&& sent.len() == 1
            &&& sent[0].role == Some(
                if m.role == Role::Assistant {
                    "model"@
                } else {
                    "user"@
                },
            )
            &&& sent[0].parts.len() == m.content.len()
            &&& forall|i: int|
                0 <= i < m.content.len() ==> #[trigger] sent[0].parts[i] == gemini::to_part(
                    m.content[i],
                )
        },
    decreases b.len(),
{
    assert(seq![m].drop_last() =~= Seq::empty());
    reveal_with_fuel(gemini::to_contents, 2);
    if b.len() == 0 {
        assert(a + b =~= a);
        assert(gemini::to_contents(a) + gemini::to_contents(b) =~= gemini::to_contents(a));
    } else {
        law_gemini_sends_what_was_said(a, b.drop_last(), m);
        assert((a + b).drop_last() =~= a + b.drop_last());
        assert(gemini::to_contents(a + b) =~= gemini::to_contents(a) + gemini::to_contents(b));
    }
}

/// An answer is the first candidate, part by part and in the assistant's name;
/// without a candidate there is an error.
pub proof fn law_gemini_answer_is_the_first_candidate(
    candidates: Seq<GmCandidateView>,
    usage: Option<GmUsage>,
    content: GmContentView,
)
    requires
        candidates.len() > 0 ==> candidates[0].content == Some(content),
    ensures
        candidates.len() == 0 <==> gemini::response_of(candidates, usage) is Err,
        gemini::response_of(candidates, usage) matches Err(e) ==> e
            == ProviderErrorView::Deserialize("no candidates in response"@),
        gemini::response_of(candidates, usage) matches Ok(r) ==> r.message.metadata
            == JsonTree::Null,
        gemini::response_of(candidates, usage) matches Ok(r) ==> {
            &&& r.message.role == Role::Assistant
            &&& r.message.content.len() == content.parts.len()
            &&& forall|i: int|
                0 <= i < content.parts.len() ==> #[trigger] r.message.content[i]
                    == gemini::from_part(content.parts[i], i as nat)
            &&& r.usage.input_tokens == match usage {
                Some(u) => u.prompt_token_count,
                None => 0,
            }
            &&& r.usage.output_tokens == match usage {
                Some(u) => u.candidates_token_count,
                None => 0,
            }
        },
{
}

/// An answer stops for a tool exactly if it calls a function; else the reason is
/// the service's. One without content says nothing.
pub proof fn law_gemini_answer_says_why_it_stops(
    candidates: Seq<GmCandidateView>,
    usage: Option<GmUsage>,
)
    requires
        candidates.len() > 0,
    ensures
        gemini::response_of(candidates, usage) matches Ok(r) && {
            let content = candidates[0].content;
            let reason = candidates[0].finish_reason;
            &&& r.stop_reason == StopReason::ToolUse <==> content is Some && exists|i: int|
                0 <= i < content->0.parts.len() && (#[trigger] content->0.parts[i]) is FunctionCall
            &&& r.stop_reason == StopReason::EndTurn <==> r.stop_reason != StopReason::ToolUse
                && reason == Some("STOP"@)
            &&& r.stop_reason == StopReason::MaxTokens <==> r.stop_reason != StopReason::ToolUse
                && reason == Some("MAX_TOKENS"@)
            &&& content is None ==> r.message.content.len() == 0
        },
{
    reveal_strlit("STOP");
    reveal_strlit("MAX_TOKENS");
    assert("STOP"@.len() != "MAX_TOKENS"@.len());
    let parts = gemini::candidate_parts(candidates[0]);
    assert(gemini::calls_function(parts) <==> candidates[0].content is Some && exists|i: int|
        0 <= i < parts.len() && (#[trigger] parts[i]) is FunctionCall);
}

/// The body of a request holds each part under the member that the service reads
/// it from.
pub proof fn law_gemini_parts_have_their_members(
    text: Seq<char>,
    name: Seq<char>,
    value: JsonTree,
    c: GmContentView,
)
    ensures
        gemini::part_tree(GmPartView::Text { text }) == JsonTree::Object(
            seq![("text"@, JsonTree::Str(text))],
        ),
        gemini::part_tree(GmPartView::FunctionCall { name, args: value }) == JsonTree::Object(
            seq![
                (
                    "functionCall"@,
                    JsonTree::Object(seq![("name"@, JsonTree::Str(name)), ("args"@, value)]),
                ),
            ],
        ),
        gemini::part_tree(GmPartView::FunctionResponse { name, response: value })
            == JsonTree::Object(
            seq![
                (
                    "functionResponse"@,
                    JsonTree::Object(seq![("name"@, JsonTree::Str(name)), ("response"@, value)]),
                ),
            ],
        ),
        gemini::sent_tree(c) matches JsonTree::Object(members) && members.last().0 == "parts"@ && (
        members.last().1 matches JsonTree::Array(parts) && parts.len() == c.parts.len() && forall|
            i: int,
        |
            0 <= i < parts.len() ==> #[trigger] parts[i] == gemini::part_tree(c.parts[i])) && (
        c.role matches Some(role) ==> members.len() == 2 && members[0] == (
            "role"@,
            JsonTree::Str(role),
        )) && (c.role is None ==> members.len() == 1),
{
}

// ---------------------------------------------------------------------------
// Bodies of requests
// ---------------------------------------------------------------------------

/// The services read the parts of a request from members of different names.
proof fn lemma_names_differ()
    ensures
        "model"@ != "max_tokens"@,
        "model"@ != "system"@,
        "model"@ != "messages"@,
        "model"@ != "tools"@,
        "max_tokens"@ != "system"@,
        "max_tokens"@ != "messages"@,
        "max_tokens"@ != "tools"@,
        "system"@ != "messages"@,
        "system"@ != "tools"@,
        "messages"@ != "tools"@,
        "model"@ != "max_completion_tokens"@,
        "max_completion_tokens"@ != "messages"@,
        "max_completion_tokens"@ != "tools"@,
        "contents"@ != "system_instruction"@,
        "contents"@ != "tools"@,
        "contents"@ != "generation_config"@,
        "system_instruction"@ != "tools"@,
        "system_instruction"@ != "generation_config"@,
        "tools"@ != "generation_config"@,
        "role"@ != "content"@,
        "role"@ != "tool_calls"@,
        "role"@ != "tool_call_id"@,
        "content"@ != "tool_calls"@,
        "content"@ != "tool_call_id"@,
        "tool_calls"@ != "tool_call_id"@,
        "id"@ != "type"@,
        "id"@ != "function"@,
        "type"@ != "function"@,
        "name"@ != "arguments"@,
        "type"@ != "text"@,
        "type"@ != "id"@,
        "type"@ != "name"@,
        "type"@ != "input"@,
        "id"@ != "name"@,
        "id"@ != "input"@,
        "name"@ != "input"@,
        "type"@ != "tool_use_id"@,
        "type"@ != "content"@,
        "type"@ != "is_error"@,
        "tool_use_id"@ != "content"@,
        "tool_use_id"@ != "is_error"@,
        "content"@ != "is_error"@,
        "type"@ != "thinking"@,
        "type"@ != "signature"@,
        "thinking"@ != "signature"@,
        "name"@ != "description"@,
        "name"@ != "input_schema"@,
        "description"@ != "input_schema"@,
        "name"@ != "parameters"@,
        "description"@ != "parameters"@,
{
    reveal_strlit("arguments");
    reveal_strlit("content");
    reveal_strlit("contents");
    reveal_strlit("description");
    reveal_strlit("function");
    reveal_strlit("generation_config");
    reveal_strlit("id");
    reveal_strlit("input");
    reveal_strlit("input_schema");
    reveal_strlit("is_error");
    reveal_strlit("max_completion_tokens");
    reveal_strlit("max_tokens");
    reveal_strlit("messages");
    reveal_strlit("model");
    reveal_strlit("name");
    reveal_strlit("parameters");
    reveal_strlit("role");
    reveal_strlit("signature");
    reveal_strlit("system");
    reveal_strlit("system_instruction");
    reveal_strlit("text");
    reveal_strlit("thinking");
    reveal_strlit("tool_call_id");
    reveal_strlit("tool_calls");
    reveal_strlit("tool_use_id");
    reveal_strlit("tools");
    reveal_strlit("type");
    assert("arguments"@.len() == 9);
    assert("content"@.len() == 7);
    assert("contents"@.len() == 8);
    assert("description"@.len() == 11);
    assert("function"@.len() == 8);
    assert("generation_config"@.len() == 17);
    assert("id"@.len() == 2);
    assert("input"@.len() == 5);
    assert("input_schema"@.len() == 12);
    assert("is_error"@.len() == 8);
    assert("max_completion_tokens"@.len() == 21);
    assert("max_tokens"@.len() == 10);
    assert("messages"@.len() == 8);
    assert("model"@.len() == 5);
    assert("name"@.len() == 4);
    assert("parameters"@.len() == 10);
    assert("role"@.len() == 4);
    assert("signature"@.len() == 9);
    assert("system"@.len() == 6);
    assert("system_instruction"@.len() == 18);
    assert("text"@.len() == 4);
    assert("thinking"@.len() == 8);
    assert("tool_call_id"@.len() == 12);
    assert("tool_calls"@.len() == 10);
    assert("tool_use_id"@.len() == 11);
    assert("tools"@.len() == 5);
    assert("type"@.len() == 4);
    assert("model"@[0] == 'm');
    assert("tools"@[0] == 't');
    assert("type"@[1] == 'y');
    assert("text"@[1] == 'e');
    assert("type"@[0] == 't');
    assert("name"@[0] == 'n');
}

/// A request to Anthropic holds the model, the limit, the prompt where there is
/// one, the messages and, where there are some, the tools.
pub proof fn law_anthropic_body_holds_the_request(r: anthropic::AnthropicRequest)
    ensures
        text_member(anthropic::request_tree(r), "model"@) == Some(r.model@),
        member(anthropic::request_tree(r), "max_tokens"@) == Some(
            number_tree(r.max_tokens as u64),
        ),
        r.system matches Some(s) ==> text_member(anthropic::request_tree(r), "system"@) == Some(s@),
        member(anthropic::request_tree(r), "messages"@) matches Some(JsonTree::Array(v)) && v.len()
            == r.messages@.len() && forall|i: int|
            0 <= i < v.len() ==> #[trigger] v[i] == anthropic::sent_tree(r.messages@[i]@),
        r.tools@.len() > 0 ==> (member(anthropic::request_tree(r), "tools"@) matches Some(
            JsonTree::Array(v),
        ) && v.len() == r.tools@.len() && forall|i: int|
            0 <= i < v.len() ==> #[trigger] v[i] == anthropic::tool_tree(r.tools@[i]@)),
{
    lemma_names_differ();
    let m = anthropic::request_tree(r)->Object_0;
    let k: int = if r.system is Some {
        1
    } else {
        0
    };
    lemma_member(m, 0);
    lemma_member(m, 1);
    if r.system is Some {
        lemma_member(m, 2);
    }
    lemma_member(m, 2 + k);
    if r.tools@.len() > 0 {
        lemma_member(m, 3 + k);
    }
}

/// A request to OpenAI holds the model, the limit, the messages and, where there
/// are some, the tools.
pub proof fn law_openai_body_holds_the_request(r: openai::OaRequest)
    ensures
        text_member(openai::request_tree(r), "model"@) == Some(r.model@),
        member(openai::request_tree(r), "max_completion_tokens"@) == Some(
            number_tree(r.max_completion_tokens as u64),
        ),
        member(openai::request_tree(r), "messages"@) matches Some(JsonTree::Array(v)) && v.len()
            == r.messages@.len() && forall|i: int|
            0 <= i < v.len() ==> #[trigger] v[i] == openai::sent_tree(r.messages@[i]@),
        r.tools@.len() > 0 ==> (member(openai::request_tree(r), "tools"@) matches Some(
            JsonTree::Array(v),
        ) && v.len() == r.tools@.len() && forall|i: int|
            0 <= i < v.len() ==> #[trigger] v[i] == openai::sent_tool_tree(r.tools@[i]@)),
{
    lemma_names_differ();
    let m = openai::request_tree(r)->Object_0;
    lemma_member(m, 0);
    lemma_member(m, 1);
    lemma_member(m, 2);
    if r.tools@.len() > 0 {
        lemma_member(m, 3);
    }
}

/// A message to OpenAI holds its role, and its text, calls and the id of the call
/// that it answers where it has them; a call holds its id, name and arguments.
pub proof fn law_openai_message_holds_its_parts(m: OaMessageView, c: OaToolCallView)
    ensures
        text_member(openai::sent_tree(m), "role"@) == Some(m.role),
        m.content matches Some(t) ==> text_member(openai::sent_tree(m), "content"@) == Some(t),
        m.tool_call_id matches Some(id) ==> text_member(openai::sent_tree(m), "tool_call_id"@)
            == Some(id),
        m.tool_calls.len() > 0 ==> (member(openai::sent_tree(m), "tool_calls"@) matches Some(
            JsonTree::Array(v),
        ) && v.len() == m.tool_calls.len() && forall|i: int|
            0 <= i < v.len() ==> #[trigger] v[i] == openai::sent_call_tree(m.tool_calls[i])),
        text_member(openai::sent_call_tree(c), "id"@) == Some(c.id),
        text_member(openai::sent_call_tree(c), "type"@) == Some(c.kind),
        member(openai::sent_call_tree(c), "function"@) matches Some(f) && text_member(f, "name"@)
            == Some(c.name) && text_member(f, "arguments"@) == Some(c.arguments),
{
    lemma_names_differ();
    let t = openai::sent_tree(m)->Object_0;
    let a: int = if m.content is Some {
        1
    } else {
        0
    };
    let b: int = if m.tool_calls.len() > 0 {
        1
    } else {
        0
    };
    lemma_member(t, 0);
    if m.content is Some {
        lemma_member(t, 1);
    }
    if m.tool_calls.len() > 0 {
        lemma_member(t, 1 + a);
    }
    if m.tool_call_id is Some {
        lemma_member(t, 1 + a + b);
    }
    let u = openai::sent_call_tree(c)->Object_0;
    lemma_member(u, 0);
    lemma_member(u, 1);
    lemma_member(u, 2);
    let f = openai::function_tree(c)->Object_0;
    lemma_member(f, 0);
    lemma_member(f, 1);
}

/// A block to Anthropic says of which type it is, and holds its parts.
pub proof fn law_anthropic_block_holds_its_parts(b: AnthropicBlockView)
    ensures
        ({
            let t = anthropic::block_tree(b);
            match b {
                AnthropicBlockView::Text { text } => text_member(t, "type"@) == Some("text"@)
                    && text_member(t, "text"@) == Some(text),
                AnthropicBlockView::ToolUse { id, name, input } => text_member(t, "type"@) == Some(
                    "tool_use"@,
                ) && text_member(t, "id"@) == Some(id) && text_member(t, "name"@) == Some(name)
                    && member(t, "input"@) == Some(input),
                AnthropicBlockView::ToolResult { tool_use_id, content, is_error } => text_member(
                    t,
                    "type"@,
                ) == Some("tool_result"@) && text_member(t, "tool_use_id"@) == Some(tool_use_id)
                    && text_member(t, "content"@) == Some(content) && (is_error matches Some(e)
                    ==> bool_member(t, "is_error"@) == Some(e)),
                AnthropicBlockView::Thinking { thinking, signature } => text_member(t, "type"@)
                    == Some("thinking"@) && text_member(t, "thinking"@) == Some(thinking) && (
                signature matches Some(s) ==> text_member(t, "signature"@) == Some(s)),
            }
        }),
{
    lemma_names_differ();
    let m = anthropic::block_tree(b)->Object_0;
    lemma_member(m, 0);
    lemma_member(m, 1);
    if m.len() > 2 {
        lemma_member(m, 2);
    }
    if m.len() > 3 {
        lemma_member(m, 3);
    }
}

/// A message to Anthropic holds its role and its blocks, in their order.
pub proof fn law_anthropic_message_holds_its_blocks(m: anthropic::AnthropicMessageView)
    ensures
        text_member(anthropic::sent_tree(m), "role"@) == Some(m.role),
        member(anthropic::sent_tree(m), "content"@) matches Some(JsonTree::Array(v)) && v.len()
            == m.content.len() && forall|i: int|
            0 <= i < v.len() ==> #[trigger] v[i] == anthropic::block_tree(m.content[i]),
{
    lemma_names_differ();
    let t = anthropic::sent_tree(m)->Object_0;
    lemma_member(t, 0);
    lemma_member(t, 1);
}

/// Each service is told of a tool its name, its description and its arguments.
pub proof fn law_tools_are_told(t: ToolSpecView, o: openai::OaToolView)
    ensures
        text_member(anthropic::tool_tree(t), "name"@) == Some(t.name),
        text_member(anthropic::tool_tree(t), "description"@) == Some(t.description),
        member(anthropic::tool_tree(t), "input_schema"@) == Some(t.parameters),
        text_member(openai::tool_tree(t), "name"@) == Some(t.name),
        text_member(openai::tool_tree(t), "description"@) == Some(t.description),
        member(openai::tool_tree(t), "parameters"@) == Some(t.parameters),
        text_member(gemini::tool_tree(t), "name"@) == Some(t.name),
        text_member(gemini::tool_tree(t), "description"@) == Some(t.description),
        member(gemini::tool_tree(t), "parameters"@) == Some(t.parameters),
        text_member(openai::sent_tool_tree(o), "type"@) == Some(o.kind),
        member(openai::sent_tool_tree(o), "function"@) == Some(openai::tool_tree(o.tool)),
{
    lemma_names_differ();
    let a = anthropic::tool_tree(t)->Object_0;
    lemma_member(a, 0);
    lemma_member(a, 1);
    lemma_member(a, 2);
    let b = openai::tool_tree(t)->Object_0;
    lemma_member(b, 0);
    lemma_member(b, 1);
    lemma_member(b, 2);
    let c = gemini::tool_tree(t)->Object_0;
    lemma_member(c, 0);
    lemma_member(c, 1);
    lemma_member(c, 2);
    let d = openai::sent_tool_tree(o)->Object_0;
    lemma_member(d, 0);
    lemma_member(d, 1);
}

/// A request to Gemini holds the contents, the prompt where there is one, the
/// tools where there are some, and the limit.
pub proof fn law_gemini_body_holds_the_request(r: gemini::GmRequest, tools: Seq<ToolSpecView>)
    ensures
        member(gemini::request_tree(r), "contents"@) matches Some(JsonTree::Array(v)) && v.len()
            == r.contents@.len() && forall|i: int|
            0 <= i < v.len() ==> #[trigger] v[i] == gemini::sent_tree(r.contents@[i]@),
        r.system_instruction matches Some(c) ==> member(
            gemini::request_tree(r),
            "system_instruction"@,
        ) == Some(gemini::sent_tree(c@)),
        r.tools@.len() > 0 ==> (member(gemini::request_tree(r), "tools"@) matches Some(
            JsonTree::Array(v),
        ) && v.len() == r.tools@.len() && forall|i: int|
            0 <= i < v.len() ==> #[trigger] v[i] == gemini::declaration_tree(r.tools@[i]@)),
        member(gemini::request_tree(r), "generation_config"@) matches Some(c) && member(
            c,
            "max_output_tokens"@,
        ) == Some(number_tree(r.max_output_tokens as u64)),
        member(gemini::declaration_tree(tools), "functionDeclarations"@) matches Some(
            JsonTree::Array(v),
        ) && v.len() == tools.len() && forall|i: int|
            0 <= i < v.len() ==> #[trigger] v[i] == gemini::tool_tree(tools[i]),
{
    lemma_names_differ();
    let m = gemini::request_tree(r)->Object_0;
    let a: int = if r.system_instruction is Some {
        1
    } else {
        0
    };
    let b: int = if r.tools@.len() > 0 {
        1
    } else {
        0
    };
    lemma_member(m, 0);
    if r.system_instruction is Some {
        lemma_member(m, 1);
    }
    if r.tools@.len() > 0 {
        lemma_member(m, 1 + a);
    }
    lemma_member(m, 1 + a + b);
    lemma_member(gemini::config_tree(r.max_output_tokens)->Object_0, 0);
    lemma_member(gemini::declaration_tree(tools)->Object_0, 0);
}

} // verus!
