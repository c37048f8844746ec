//! The log of a session.
use vstd::prelude::*;

use crate::json::{
    canonical, entry, group_pairs, json_text, number_tree, pairs, text_value, Json, JsonTree,
};
use crate::message::{OutcomeView, ToolCall, ToolCallView, ToolExecOutcome};
use crate::model::{group_views, opt_view};
use crate::reporter::{in_one_line, one_line, truncate, truncated};
use crate::session::{Report, ReportView};
use crate::text::{decimal, decimal_text, lemma_decimal_digits, same};

verus! {

broadcast use {group_pairs, group_views};

/// The number of characters of a result that are logged.
pub const RESULT_LOG_CHARS: usize = 2000;

/// How events are written.
#[derive(Clone, Copy, Debug, PartialEq, Eq, Structural)]
pub enum LogFormat {
    /// One line of text for each event.
    Text,
    /// One JSON object for each event.
    Json,
}

impl LogFormat {
    /// The format that the setting asks for: JSON where it says `json`, text
    /// for anything else.
    pub fn from_env(setting: &Option<String>) -> (r: LogFormat)
        ensures
            r == if opt_view(*setting) == Some("json"@) {
                LogFormat::Json
            } else {
                LogFormat::Text
            },
    {
        if let Some(s) = setting {
            if same(s.as_str(), "json") {
                return LogFormat::Json;
            }
        }
        LogFormat::Text
    }
}

/// Something to be logged.
pub struct LogEvent {
    pub name: String,
    /// The event as a line of text.
    pub line: String,
    /// The event as members of an object.
    pub fields: Vec<(String, Json)>,
}

#[verifier::ext_equal]
pub struct LogEventView {
    pub name: Seq<char>,
    pub line: Seq<char>,
    pub fields: Seq<(Seq<char>, JsonTree)>,
}

impl View for LogEvent {
    type V = LogEventView;

    open spec fn view(&self) -> LogEventView {
        LogEventView { name: self.name@, line: self.line@, fields: pairs(self.fields@) }
    }
}

/// An event as it is logged at a time in seconds: in one line.
pub open spec fn logged(format: LogFormat, ts: u64, e: LogEventView) -> Seq<char> {
    match format {
        LogFormat::Text => "["@ + decimal(ts as nat) + "] "@ + one_line(e.line),
        LogFormat::Json => json_text(
            canonical(
                JsonTree::Object(
                    seq![("ts"@, number_tree(ts)), ("event"@, JsonTree::Str(e.name))] + e.fields,
                ),
            ),
        ),
    }
}

/// An event as it is logged at a time in seconds: in one line.
pub fn render_event(format: LogFormat, ts: u64, event: LogEvent) -> (r: String)
    ensures
        r@ == logged(format, ts, event@),
        !r@.contains('\n'),
{
    match format {
        LogFormat::Text => {
            let mut r = "[".to_owned();
            r.append(decimal_text(ts).as_str());
            r.append("] ");
            r.append(in_one_line(event.line.as_str()).as_str());
            proof {
                reveal_strlit("[");
                reveal_strlit("] ");
                lemma_decimal_digits(ts as nat);
                let head = "["@ + decimal(ts as nat);
                assert forall|i: int| 0 <= i < r@.len() implies r@[i] != '\n' by {
                    if 1 <= i < head.len() {
                        assert(r@[i] == decimal(ts as nat)[i - 1]);
                    } else if i >= head.len() + 2 {
                        assert(r@[i] == one_line(event.line@)[i - head.len() - 2]);
                    }
                }
            }
            r
        },
        LogFormat::Json => {
            let ghost fields = pairs(event.fields@);
            let ghost items = event.fields@;
            let mut m: Vec<(String, Json)> = Vec::new();
            m.push(entry("ts", Json::number(ts)));
            m.push(entry("event", text_value(event.name.as_str())));
            let ghost head = pairs(m@);
            assert(head =~= seq![("ts"@, number_tree(ts)), ("event"@, JsonTree::Str(event.name@))]);
            assert(head + fields.take(0) =~= head);
            for field in it: event.fields
                invariant
                    it.seq() == items,
                    fields == pairs(items),
                    pairs(m@) == head + fields.take(it.index() as int),
            {
                let ghost i = it.index();
                m.push(field);
                assert(head + fields.take(i + 1) =~= (head + fields.take(i as int)).push(
                    fields[i as int],
                ));
            }
            assert(fields.take(fields.len() as int) == fields);
            Json::object(m).text()
        },
    }
}

/// A number of seconds as a span of time is written.
pub open spec fn delay_text(secs: u64) -> Seq<char> {
    if secs == 0 {
        "0ns"@
    } else {
        decimal(secs as nat) + "s"@
    }
}

fn text_of_delay(secs: u64) -> (r: String)
    ensures
        r@ == delay_text(secs),
{
    if secs == 0 {
        return "0ns".to_owned();
    }
    let mut r = decimal_text(secs);
    r.append("s");
    r
}

/// What is logged of the progress of a turn.
pub open spec fn report_event(r: ReportView) -> Option<LogEventView> {
    match r {
        ReportView::TurnStart => Some(
            LogEventView {
                name: "turn_start"@,
                line: "turn: waiting on model"@,
                fields: Seq::empty(),
            },
        ),
        ReportView::AssistantText(text) => Some(
            LogEventView {
                name: "assistant_text"@,
                line: "assistant: "@ + text,
                fields: seq![("text"@, JsonTree::Str(text))],
            },
        ),
        ReportView::Thinking(text) => Some(
            LogEventView {
                name: "thinking"@,
                line: "thinking: "@ + text,
                fields: seq![("text"@, JsonTree::Str(text))],
            },
        ),
        ReportView::Retry { attempt, max_attempts, delay_secs, reason } => Some(
            LogEventView {
                name: "retry"@,
                line: "retry "@ + decimal(attempt as nat) + "/"@ + decimal(max_attempts as nat)
                    + " in "@ + delay_text(delay_secs) + ": "@ + reason,
                fields: seq![
                    ("attempt"@, number_tree(attempt as u64)),
                    ("max_attempts"@, number_tree(max_attempts as u64)),
                    ("delay_ms"@, number_tree(delay_secs.wrapping_mul(1000))),
                    ("reason"@, JsonTree::Str(reason)),
                ],
            },
        ),
        ReportView::Usage(usage) => Some(
            LogEventView {
                name: "usage"@,
                line: "usage: input="@ + decimal(usage.input_tokens as nat) + " output="@ + decimal(
                    usage.output_tokens as nat,
                ),
                fields: seq![
                    ("input_tokens"@, number_tree(usage.input_tokens as u64)),
                    ("output_tokens"@, number_tree(usage.output_tokens as u64)),
                ],
            },
        ),
        ReportView::TurnEnd | ReportView::AssistantTextDelta(_) | ReportView::Steering(_)
        | ReportView::ProviderChanged { .. } => None,
    }
}

fn text_event(name: &str, label: &str, text: &str) -> (r: LogEvent)
    ensures
        r@ == (LogEventView {
            name: name@,
            line: label@ + text@,
            fields: seq![("text"@, JsonTree::Str(text@))],
        }),
{
    let mut line = label.to_owned();
    line.append(text);
    let mut fields: Vec<(String, Json)> = Vec::new();
    fields.push(entry("text", text_value(text)));
    let r = LogEvent { name: name.to_owned(), line, fields };
    assert(r@.fields =~= seq![("text"@, JsonTree::Str(text@))]);
    r
}

/// What is logged of the progress of a turn.
pub fn event_of(report: &Report) -> (r: Option<LogEvent>)
    ensures
        opt_view(r) == report_event(report@),
{
    match report {
        Report::TurnStart => {
            let r = LogEvent {
                name: "turn_start".to_owned(),
                line: "turn: waiting on model".to_owned(),
                fields: Vec::new(),
            };
            assert(r@.fields =~= Seq::empty());
            Some(r)
        },
        Report::AssistantText(text) => Some(
            text_event("assistant_text", "assistant: ", text.as_str()),
        ),
        Report::Thinking(text) => Some(text_event("thinking", "thinking: ", text.as_str())),
        Report::Retry { attempt, max_attempts, delay_secs, reason } => {
            let mut line = "retry ".to_owned();
            line.append(decimal_text(*attempt as u64).as_str());
            line.append("/");
            line.append(decimal_text(*max_attempts as u64).as_str());
            line.append(" in ");
            line.append(text_of_delay(*delay_secs).as_str());
            line.append(": ");
            line.append(reason.as_str());
            let mut fields: Vec<(String, Json)> = Vec::new();
            fields.push(entry("attempt", Json::number(*attempt as u64)));
            fields.push(entry("max_attempts", Json::number(*max_attempts as u64)));
            fields.push(entry("delay_ms", Json::number(delay_secs.wrapping_mul(1000))));
            fields.push(entry("reason", text_value(reason.as_str())));
            let r = LogEvent { name: "retry".to_owned(), line, fields };
            assert(r@.fields =~= report_event(report@).unwrap().fields);
            Some(r)
        },
        Report::Usage(usage) => {
            let mut line = "usage: input=".to_owned();
            line.append(decimal_text(usage.input_tokens as u64).as_str());
            line.append(" output=");
            line.append(decimal_text(usage.output_tokens as u64).as_str());
            let mut fields: Vec<(String, Json)> = Vec::new();
            fields.push(entry("input_tokens", Json::number(usage.input_tokens as u64)));
            fields.push(entry("output_tokens", Json::number(usage.output_tokens as u64)));
            let r = LogEvent { name: "usage".to_owned(), line, fields };
            assert(r@.fields =~= report_event(report@).unwrap().fields);
            Some(r)
        },
        Report::TurnEnd | Report::AssistantTextDelta(_) | Report::Steering(_)
        | Report::ProviderChanged { .. } => None,
    }
}

/// What is logged of a tool call.
pub open spec fn call_event(call: ToolCallView) -> LogEventView {
    LogEventView {
        name: "tool_call"@,
        line: "tool_call: "@ + call.name + "("@ + json_text(canonical(call.arguments)) + ")"@,
        fields: seq![
            ("id"@, JsonTree::Str(call.id)),
            ("name"@, JsonTree::Str(call.name)),
            ("arguments"@, call.arguments),
        ],
    }
}

/// What is logged of a tool call.
pub fn tool_call_event(call: &ToolCall) -> (r: LogEvent)
    ensures
        r@ == call_event(call@),
{
    let mut line = "tool_call: ".to_owned();
    line.append(call.name.as_str());
    line.append("(");
    line.append(call.arguments.text().as_str());
    line.append(")");
    let mut fields: Vec<(String, Json)> = Vec::new();
    fields.push(entry("id", text_value(call.id.as_str())));
    fields.push(entry("name", text_value(call.name.as_str())));
    fields.push(entry("arguments", call.arguments.copy()));
    let r = LogEvent { name: "tool_call".to_owned(), line, fields };
    assert(r@.fields =~= call_event(call@).fields);
    r
}

/// What is logged of the outcome of a tool call.
pub open spec fn result_event(call: ToolCallView, o: OutcomeView) -> LogEventView {
    let content = truncated(o.content, RESULT_LOG_CHARS as nat);
    LogEventView {
        name: "tool_result"@,
        line: "tool_result: "@ + call.name + " ["@ + (if o.is_error {
            "error"@
        } else {
            "ok"@
        }) + "] "@ + content,
        fields: seq![
            ("id"@, JsonTree::Str(call.id)),
            ("name"@, JsonTree::Str(call.name)),
            ("is_error"@, JsonTree::Bool(o.is_error)),
            ("content"@, JsonTree::Str(content)),
        ],
    }
}

/// What is logged of the outcome of a tool call.
pub fn tool_result_event(call: &ToolCall, outcome: &ToolExecOutcome) -> (r: LogEvent)
    ensures
        r@ == result_event(call@, outcome@),
{
    let content = truncate(outcome.content.as_str(), RESULT_LOG_CHARS);
    let mut line = "tool_result: ".to_owned();
    line.append(call.name.as_str());
    line.append(" [");
    line.append(
        if outcome.is_error {
            "error"
        } else {
            "ok"
        },
    );
    line.append("] ");
    line.append(content.as_str());
    let mut fields: Vec<(String, Json)> = Vec::new();
    fields.push(entry("id", text_value(call.id.as_str())));
    fields.push(entry("name", text_value(call.name.as_str())));
    fields.push(entry("is_error", Json::Bool(outcome.is_error)));
    fields.push(entry("content", Json::Str(content)));
    let r = LogEvent { name: "tool_result".to_owned(), line, fields };
    assert(r@.fields =~= result_event(call@, outcome@).fields);
    r
}

} // verus!
