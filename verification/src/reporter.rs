//! What is shown on the terminal while a turn runs.
use vstd::prelude::*;

use crate::hooks::{RenderDecision, RenderView};
use crate::json::{canonical, json_text, text_member, u64_member, Json, JsonTree};
use crate::message::{OutcomeView, ToolCall, ToolCallView, ToolExecOutcome};
use crate::model::{group_views, opt_view, views};
use crate::order::{in_order, sort_texts};
use crate::session::Report;
use crate::text::{
    chars_of, decimal, decimal_text, has_prefix, join, joined, lines, lines_of, same, starts_with,
};

verus! {

broadcast use group_views;

/// Ends any style.
pub const RESET: &'static str = "\x1b[0m";

pub const DIM: &'static str = "\x1b[2m";

pub const BOLD: &'static str = "\x1b[1m";

pub const GREEN: &'static str = "\x1b[32m";

pub const RED: &'static str = "\x1b[31m";

pub const YELLOW: &'static str = "\x1b[33m";

pub const CYAN: &'static str = "\x1b[36m";

/// The number of characters of a result that are shown.
pub const RESULT_PREVIEW_CHARS: usize = 300;

/// The number of lines of a diff that are shown.
pub const MAX_DIFF_LINES: usize = 40;

/// The number of characters of arguments that are shown.
pub const ARGS_PREVIEW_CHARS: usize = 100;

/// `text` in the style of `code`, if there is color.
pub open spec fn painted(color: bool, code: Seq<char>, text: Seq<char>) -> Seq<char> {
    if color {
        code + text + RESET@
    } else {
        text
    }
}

/// `text` in the style of `code`, if there is color.
pub fn paint(color: bool, code: &str, text: &str) -> (r: String)
    ensures
        r@ == painted(color, code@, text@),
{
    if color {
        let mut r = code.to_owned();
        r.append(text);
        r.append(RESET);
        r
    } else {
        text.to_owned()
    }
}

/// The code of a style that goes by a name.
pub open spec fn style_code(style: Option<Seq<char>>) -> Option<Seq<char>> {
    match style {
        None => None,
        Some(s) => if s == "green"@ {
            Some(GREEN@)
        } else if s == "red"@ {
            Some(RED@)
        } else if s == "yellow"@ {
            Some(YELLOW@)
        } else if s == "cyan"@ {
            Some(CYAN@)
        } else if s == "dim"@ {
            Some(DIM@)
        } else if s == "bold"@ {
            Some(BOLD@)
        } else {
            None
        },
    }
}

/// `text` in a style that goes by a name; an unknown name has no style.
pub open spec fn painted_as(color: bool, style: Option<Seq<char>>, text: Seq<char>) -> Seq<char> {
    match style_code(style) {
        Some(code) => painted(color, code, text),
        None => text,
    }
}

/// The code of a line of a diff.
pub open spec fn diff_code(line: Seq<char>) -> Seq<char> {
    if starts_with(line, "+++"@) || starts_with(line, "---"@) {
        BOLD@
    } else if starts_with(line, "@@"@) {
        CYAN@
    } else if starts_with(line, "+"@) {
        GREEN@
    } else if starts_with(line, "-"@) {
        RED@
    } else {
        DIM@
    }
}

/// A line of a diff as it is shown.
pub open spec fn diff_line(color: bool, line: Seq<char>) -> Seq<char> {
    "  "@ + painted(color, diff_code(line), line)
}

/// The first `n` lines of a diff as they are shown.
pub open spec fn diff_lines(color: bool, ls: Seq<Seq<char>>, n: nat) -> Seq<Seq<char>> {
    Seq::new(n, |i: int| diff_line(color, ls[i]))
}

/// The text about what is not shown of a diff.
pub open spec fn more_lines(color: bool, n: nat) -> Seq<char> {
    "  "@ + painted(color, DIM@, "… "@ + decimal(n) + " more line(s)"@)
}

/// A diff as it is shown.
pub open spec fn shown_diff(color: bool, unified: Seq<char>) -> Seq<char> {
    let ls = lines(unified);
    if ls.len() > MAX_DIFF_LINES {
        join(
            diff_lines(color, ls, MAX_DIFF_LINES as nat).push(
                more_lines(color, (ls.len() - MAX_DIFF_LINES) as nat),
            ),
            "\n"@,
        )
    } else {
        join(diff_lines(color, ls, ls.len()), "\n"@)
    }
}

/// A text in one line.
pub open spec fn one_line(s: Seq<char>) -> Seq<char> {
    Seq::new(
        s.len(),
        |i: int|
            if s[i] == '\n' {
                ' '
            } else {
                s[i]
            },
    )
}

/// A text in one line, cut to a number of characters.
pub open spec fn truncated(s: Seq<char>, max_chars: nat) -> Seq<char> {
    if s.len() > max_chars {
        one_line(s.take(max_chars as int) + "..."@)
    } else {
        one_line(s)
    }
}

/// Puts a text into one line.
pub fn in_one_line(s: &str) -> (r: String)
    ensures
        r@ == one_line(s@),
{
    let v = chars_of(s);
    let mut r = String::new();
    for i in 0..v.len()
        invariant
            v@ == s@,
            r@ == one_line(s@).take(i as int),
    {
        let c = v[i];
        r.push(
            if c == '\n' {
                ' '
            } else {
                c
            },
        );
        assert(r@ == one_line(s@).take(i + 1));
    }
    assert(one_line(s@).take(v@.len() as int) == one_line(s@));
    r
}

/// Cuts a text to `max_chars` characters and puts it into one line.
pub fn truncate(s: &str, max_chars: usize) -> (r: String)
    ensures
        r@ == truncated(s@, max_chars as nat),
{
    let mut cut = crate::text::take_chars(s, max_chars);
    if s.unicode_len() > max_chars {
        cut.append("...");
    }
    in_one_line(cut.as_str())
}

/// The argument that says most about a call.
pub open spec fn args_summary(args: JsonTree) -> Seq<char> {
    if let Some(v) = text_member(args, "path"@) {
        "path="@ + v
    } else if let Some(v) = text_member(args, "command"@) {
        "command="@ + v
    } else if let Some(v) = text_member(args, "pattern"@) {
        "pattern="@ + v
    } else if let Some(v) = text_member(args, "url"@) {
        "url="@ + v
    } else if let Some(v) = text_member(args, "name"@) {
        "name="@ + v
    } else if let Some(v) = text_member(args, "query"@) {
        "query="@ + v
    } else {
        truncated(json_text(canonical(args)), ARGS_PREVIEW_CHARS as nat)
    }
}

fn with_label(label: &str, v: &String) -> (r: String)
    ensures
        r@ == label@ + v@,
{
    let mut r = label.to_owned();
    r.append(v.as_str());
    r
}

/// The argument that says most about a call.
pub fn summarize_args(args: &Json) -> (r: String)
    ensures
        r@ == args_summary(args@),
{
    if let Some(v) = args.get_text("path") {
        return with_label("path=", v);
    }
    if let Some(v) = args.get_text("command") {
        return with_label("command=", v);
    }
    if let Some(v) = args.get_text("pattern") {
        return with_label("pattern=", v);
    }
    if let Some(v) = args.get_text("url") {
        return with_label("url=", v);
    }
    if let Some(v) = args.get_text("name") {
        return with_label("name=", v);
    }
    if let Some(v) = args.get_text("query") {
        return with_label("query=", v);
    }
    truncate(args.text().as_str(), ARGS_PREVIEW_CHARS)
}

/// A call as it is shown where no hook says otherwise.
pub open spec fn default_call(color: bool, call: ToolCallView) -> Seq<char> {
    let summary = args_summary(call.arguments);
    let header = if summary.len() == 0 {
        call.name
    } else {
        call.name + "("@ + summary + ")"@
    };
    painted(color, BOLD@, "● "@ + header)
}

/// The mark of an outcome.
pub open spec fn outcome_mark(color: bool, is_error: bool) -> Seq<char> {
    if is_error {
        painted(color, RED@, "✗"@)
    } else {
        painted(color, GREEN@, "✓"@)
    }
}

/// How long a call took.
pub struct Elapsed {
    pub millis: u64,
    /// The same in seconds, rounded to a tenth and written out.
    pub seconds: String,
}

#[verifier::ext_equal]
pub struct ElapsedView {
    pub millis: u64,
    pub seconds: Seq<char>,
}

impl View for Elapsed {
    type V = ElapsedView;

    open spec fn view(&self) -> ElapsedView {
        ElapsedView { millis: self.millis, seconds: self.seconds@ }
    }
}

/// The shortest time that is shown, in milliseconds.
pub const SHOWN_FROM_MILLIS: u64 = 1000;

/// How long a call took, as far as that is shown.
pub open spec fn elapsed_suffix(color: bool, elapsed: Option<ElapsedView>) -> Seq<char> {
    match elapsed {
        Some(e) if e.millis >= SHOWN_FROM_MILLIS => " "@ + painted(
            color,
            DIM@,
            "("@ + e.seconds + "s)"@,
        ),
        _ => Seq::empty(),
    }
}

/// A count of lines in an outcome, or none.
pub open spec fn line_count(metadata: JsonTree, key: Seq<char>) -> nat {
    match u64_member(metadata, key) {
        Some(n) => n as nat,
        None => 0,
    }
}

/// An outcome as it is shown where no hook says otherwise.
pub open spec fn default_result(
    color: bool,
    o: OutcomeView,
    elapsed: Option<ElapsedView>,
) -> Seq<char> {
    let head = "  "@ + outcome_mark(color, o.is_error) + " "@;
    let suffix = elapsed_suffix(color, elapsed);
    match text_member(o.metadata, "diff"@) {
        Some(diff) if diff.len() > 0 => head + painted(
            color,
            GREEN@,
            "+"@ + decimal(line_count(o.metadata, "additions"@)),
        ) + " "@ + painted(color, RED@, "-"@ + decimal(line_count(o.metadata, "deletions"@)))
            + suffix + "\n"@ + shown_diff(color, diff),
        _ => head + painted(
            color,
            DIM@,
            truncated(o.content, RESULT_PREVIEW_CHARS as nat),
        ) + suffix,
    }
}

/// What a decision on the display makes of the default line.
pub open spec fn decided_line(color: bool, d: RenderView, default_line: Seq<char>) -> Option<
    Seq<char>,
> {
    match d {
        RenderView::Hide => None,
        RenderView::Text { value, style } => Some(painted_as(color, style, value)),
        RenderView::Default => Some(default_line),
    }
}

/// The line before a request is sent again.
pub open spec fn retry_text(
    color: bool,
    attempt: nat,
    max_attempts: nat,
    secs: nat,
    reason: Seq<char>,
) -> Seq<char> {
    painted(
        color,
        YELLOW@,
        "retrying in "@ + decimal(secs) + "s (attempt "@ + decimal(attempt) + "/"@ + decimal(
            max_attempts,
        ) + "): "@ + reason,
    )
}

/// Shows the progress of a turn as lines of text.
pub struct TerminalReporter {
    /// Whether lines have color.
    pub color: bool,
    /// Whether there is a terminal for a spinner.
    pub interactive: bool,
}

impl TerminalReporter {
    /// `text` in the style of `code`.
    pub fn paint(&self, code: &str, text: &str) -> (r: String)
        ensures
            r@ == painted(self.color, code@, text@),
    {
        paint(self.color, code, text)
    }

    /// `text` in a style that goes by a name.
    pub fn painted_by_name(&self, style: &Option<String>, text: &str) -> (r: String)
        ensures
            r@ == painted_as(self.color, opt_view(*style), text@),
    {
        let name = match style {
            Some(name) => name.as_str(),
            None => return text.to_owned(),
        };
        if same(name, "green") {
            self.paint(GREEN, text)
        } else if same(name, "red") {
            self.paint(RED, text)
        } else if same(name, "yellow") {
            self.paint(YELLOW, text)
        } else if same(name, "cyan") {
            self.paint(CYAN, text)
        } else if same(name, "dim") {
            self.paint(DIM, text)
        } else if same(name, "bold") {
            self.paint(BOLD, text)
        } else {
            text.to_owned()
        }
    }

    /// A line of a diff in its color.
    pub fn color_diff_line(&self, line: &str) -> (r: String)
        ensures
            r@ == painted(self.color, diff_code(line@), line@),
    {
        if has_prefix(line, "+++") || has_prefix(line, "---") {
            self.paint(BOLD, line)
        } else if has_prefix(line, "@@") {
            self.paint(CYAN, line)
        } else if has_prefix(line, "+") {
            self.paint(GREEN, line)
        } else if has_prefix(line, "-") {
            self.paint(RED, line)
        } else {
            self.paint(DIM, line)
        }
    }

    /// A diff as it is shown: indented, colored, and cut.
    pub fn render_diff(&self, unified: &str) -> (r: String)
        ensures
            r@ == shown_diff(self.color, unified@),
    {
        let ls = lines_of(unified);
        let n: usize = ls.len();
        let ghost all = views(ls@);
        let shown: usize = if n > MAX_DIFF_LINES {
            MAX_DIFF_LINES
        } else {
            n
        };
        let mut rendered: Vec<String> = Vec::new();
        assert(diff_lines(self.color, all, 0) =~= Seq::empty());
        for i in 0..shown
            invariant
                shown <= n == ls@.len(),
                all == views(ls@),
                views(rendered@) == diff_lines(self.color, all, i as nat),
        {
            let mut line = "  ".to_owned();
            line.append(self.color_diff_line(ls[i].as_str()).as_str());
            rendered.push(line);
            assert(diff_lines(self.color, all, i as nat + 1) =~= diff_lines(
                self.color,
                all,
                i as nat,
            ).push(diff_line(self.color, all[i as int])));
        }
        if n > MAX_DIFF_LINES {
            let mut note = "… ".to_owned();
            note.append(decimal_text((n - MAX_DIFF_LINES) as u64).as_str());
            note.append(" more line(s)");
            let mut line = "  ".to_owned();
            line.append(self.paint(DIM, note.as_str()).as_str());
            rendered.push(line);
        }
        joined(&rendered, "\n")
    }

    /// A call as it is shown where no hook says otherwise.
    pub fn format_default_call(&self, call: &ToolCall) -> (r: String)
        ensures
            r@ == default_call(self.color, call@),
    {
        let summary = summarize_args(&call.arguments);
        let mut text = "● ".to_owned();
        if summary.as_str().unicode_len() == 0 {
            text.append(call.name.as_str());
            self.paint(BOLD, text.as_str())
        } else {
            let mut header = call.name.clone();
            header.append("(");
            header.append(summary.as_str());
            header.append(")");
            text.append(header.as_str());
            self.paint(BOLD, text.as_str())
        }
    }

    /// An outcome as it is shown where no hook says otherwise, with the time
    /// that the call took.
    pub fn format_default_result(&self, outcome: &ToolExecOutcome, elapsed: &Option<Elapsed>) -> (r:
        String)
        ensures
            r@ == default_result(self.color, outcome@, opt_view(*elapsed)),
    {
        let mut r = "  ".to_owned();
        let mark = if outcome.is_error {
            self.paint(RED, "✗")
        } else {
            self.paint(GREEN, "✓")
        };
        r.append(mark.as_str());
        r.append(" ");
        let mut suffix = String::new();
        if let Some(e) = elapsed {
            if e.millis >= SHOWN_FROM_MILLIS {
                let mut took = "(".to_owned();
                took.append(e.seconds.as_str());
                took.append("s)");
                suffix = " ".to_owned();
                suffix.append(self.paint(DIM, took.as_str()).as_str());
            }
        }
        assert(suffix@ =~= elapsed_suffix(self.color, opt_view(*elapsed)));
        if let Some(diff) = outcome.metadata.get_text("diff") {
            if diff.as_str().unicode_len() > 0 {
                let additions: u64 = match outcome.metadata.get_u64("additions") {
                    Some(n) => n,
                    None => 0,
                };
                let deletions: u64 = match outcome.metadata.get_u64("deletions") {
                    Some(n) => n,
                    None => 0,
                };
                let mut added = "+".to_owned();
                added.append(decimal_text(additions).as_str());
                let mut removed = "-".to_owned();
                removed.append(decimal_text(deletions).as_str());
                r.append(self.paint(GREEN, added.as_str()).as_str());
                r.append(" ");
                r.append(self.paint(RED, removed.as_str()).as_str());
                r.append(suffix.as_str());
                r.append("\n");
                r.append(self.render_diff(diff.as_str()).as_str());
                return r;
            }
        }
        let preview = truncate(outcome.content.as_str(), RESULT_PREVIEW_CHARS);
        r.append(self.paint(DIM, preview.as_str()).as_str());
        r.append(suffix.as_str());
        r
    }

    /// The line for a call, unless a hook hides it.
    pub fn call_line(&self, decision: &RenderDecision, call: &ToolCall) -> (r: Option<String>)
        ensures
            opt_view(r) == decided_line(self.color, decision@, default_call(self.color, call@)),
    {
        match decision {
            RenderDecision::Hide => None,
            RenderDecision::Text { value, style } => Some(
                self.painted_by_name(style, value.as_str()),
            ),
            RenderDecision::Default => Some(self.format_default_call(call)),
        }
    }

    /// The line for an outcome, unless a hook hides it.
    pub fn result_line(
        &self,
        decision: &RenderDecision,
        outcome: &ToolExecOutcome,
        elapsed: &Option<Elapsed>,
    ) -> (r: Option<String>)
        ensures
            opt_view(r) == decided_line(
                self.color,
                decision@,
                default_result(self.color, outcome@, opt_view(*elapsed)),
            ),
    {
        match decision {
            RenderDecision::Hide => None,
            RenderDecision::Text { value, style } => Some(
                self.painted_by_name(style, value.as_str()),
            ),
            RenderDecision::Default => Some(self.format_default_result(outcome, elapsed)),
        }
    }

    /// The line before a request is sent again.
    pub fn retry_line(&self, attempt: usize, max_attempts: usize, secs: u64, reason: &str) -> (r:
        String)
        ensures
            r@ == retry_text(
                self.color,
                attempt as nat,
                max_attempts as nat,
                secs as nat,
                reason@,
            ),
    {
        let mut text = "retrying in ".to_owned();
        text.append(decimal_text(secs).as_str());
        text.append("s (attempt ");
        text.append(decimal_text(attempt as u64).as_str());
        text.append("/");
        text.append(decimal_text(max_attempts as u64).as_str());
        text.append("): ");
        text.append(reason);
        self.paint(YELLOW, text.as_str())
    }
}

/// Shows nothing.
pub struct NoopReporter;

impl NoopReporter {
    /// The lines for some progress: none.
    pub fn lines(&self, report: &Report) -> (r: Vec<String>)
        ensures
            r@.len() == 0,
    {
        Vec::new()
    }
}

// ---------------------------------------------------------------------------
// The spinner
// ---------------------------------------------------------------------------

/// What the spinner shows for something that runs.
pub struct SpinnerLabel {
    pub key: String,
    pub label: String,
    /// When it started, in milliseconds.
    pub started: u64,
}

#[verifier::ext_equal]
pub struct LabelView {
    pub key: Seq<char>,
    pub label: Seq<char>,
    pub started: u64,
}

impl View for SpinnerLabel {
    type V = LabelView;

    open spec fn view(&self) -> LabelView {
        LabelView { key: self.key@, label: self.label@, started: self.started }
    }
}

/// What runs, and the frame of the spinner.
pub struct SpinnerState {
    labels: Vec<SpinnerLabel>,
    frame: usize,
}

#[verifier::ext_equal]
pub struct SpinnerView {
    /// At most one label for a key.
    pub labels: Seq<LabelView>,
    pub frame: nat,
}

impl View for SpinnerState {
    type V = SpinnerView;

    closed spec fn view(&self) -> SpinnerView {
        SpinnerView { labels: views(self.labels@), frame: self.frame as nat }
    }
}

/// The number of frames.
pub const SPINNER_FRAMES: usize = 10;

/// A frame of the spinner.
pub open spec fn frame_text(i: nat) -> Seq<char> {
    if i == 0 {
        "⠋"@
    } else if i == 1 {
        "⠙"@
    } else if i == 2 {
        "⠹"@
    } else if i == 3 {
        "⠸"@
    } else if i == 4 {
        "⠼"@
    } else if i == 5 {
        "⠴"@
    } else if i == 6 {
        "⠦"@
    } else if i == 7 {
        "⠧"@
    } else if i == 8 {
        "⠇"@
    } else {
        "⠏"@
    }
}

fn frame_str(i: usize) -> (r: &'static str)
    ensures
        r@ == frame_text(i as nat),
{
    match i {
        0 => "⠋",
        1 => "⠙",
        2 => "⠹",
        3 => "⠸",
        4 => "⠼",
        5 => "⠴",
        6 => "⠦",
        7 => "⠧",
        8 => "⠇",
        _ => "⠏",
    }
}

/// The position of a key from `i` on.
pub open spec fn label_at(labels: Seq<LabelView>, key: Seq<char>, i: int) -> Option<int>
    decreases labels.len() - i,
{
    if i < 0 || i >= labels.len() {
        None
    } else if labels[i].key == key {
        Some(i)
    } else {
        label_at(labels, key, i + 1)
    }
}

/// The labels when something starts.
pub open spec fn with_started(s: SpinnerView, l: LabelView) -> SpinnerView {
    match label_at(s.labels, l.key, 0) {
        Some(i) => SpinnerView { labels: s.labels.update(i, l), ..s },
        None => SpinnerView { labels: s.labels.push(l), ..s },
    }
}

/// The labels when something is over.
pub open spec fn with_stopped(s: SpinnerView, key: Seq<char>) -> SpinnerView {
    match label_at(s.labels, key, 0) {
        Some(i) => SpinnerView { labels: s.labels.remove(i), ..s },
        None => s,
    }
}

/// The texts of some labels.
pub open spec fn label_texts(labels: Seq<LabelView>) -> Seq<Seq<char>> {
    Seq::new(labels.len(), |i: int| labels[i].label)
}

/// The earliest start among some labels.
pub open spec fn earliest(labels: Seq<LabelView>) -> u64
    decreases labels.len(),
{
    if labels.len() == 0 {
        u64::MAX
    } else {
        let rest = earliest(labels.drop_last());
        if labels.last().started < rest {
            labels.last().started
        } else {
            rest
        }
    }
}

/// What the spinner shows at one moment.
pub struct SpinnerShown {
    pub frame: String,
    /// What runs, in order.
    pub names: String,
    /// When the first of them started.
    pub since: u64,
}

impl SpinnerState {
    /// Nothing runs.
    pub fn new() -> (r: SpinnerState)
        ensures
            r@ == (SpinnerView { labels: Seq::empty(), frame: 0 }),
    {
        SpinnerState { labels: Vec::new(), frame: 0 }
    }

    fn find(&self, key: &str) -> (r: Option<usize>)
        ensures
            match r {
                Some(i) => i < self.labels@.len() && label_at(self@.labels, key@, 0) == Some(
                    i as int,
                ),
                None => label_at(self@.labels, key@, 0) is None,
            },
    {
        let ghost all = views(self.labels@);
        let n: usize = self.labels.len();
        let mut i: usize = 0;
        while i < n
            invariant
                n == self.labels@.len(),
                i <= n,
                all == views(self.labels@),
                label_at(all, key@, 0) == label_at(all, key@, i as int),
            decreases n - i,
        {
            if same(self.labels[i].key.as_str(), key) {
                assert(all[i as int].key == key@);
                return Some(i);
            }
            assert(all[i as int].key != key@);
            i += 1;
        }
        None
    }

    /// Something starts. Without a terminal nothing is kept of it.
    pub fn start(&mut self, interactive: bool, label: SpinnerLabel)
        ensures
            final(self)@ == (if interactive {
                with_started(old(self)@, label@)
            } else {
                old(self)@
            }),
    {
        if interactive {
            match self.find(label.key.as_str()) {
                Some(i) => {
                    self.labels[i] = label;
                },
                None => {
                    self.labels.push(label);
                },
            }
        }
    }

    /// Something is over; gives when it started.
    pub fn stop(&mut self, interactive: bool, key: &str) -> (r: Option<u64>)
        ensures
            final(self)@ == (if interactive {
                with_stopped(old(self)@, key@)
            } else {
                old(self)@
            }),
            r == (match label_at(old(self)@.labels, key@, 0) {
                Some(i) if interactive => Some(old(self)@.labels[i].started),
                _ => None,
            }),
    {
        if !interactive {
            return None;
        }
        match self.find(key) {
            Some(i) => {
                let l = self.labels.remove(i);
                Some(l.started)
            },
            None => None,
        }
    }

    /// Whether nothing runs.
    pub fn is_empty(&self) -> (r: bool)
        ensures
            r == (self@.labels.len() == 0),
    {
        self.labels.len() == 0
    }

    /// The next frame, if anything runs.
    pub fn tick(&mut self) -> (r: Option<SpinnerShown>)
        ensures
            old(self)@.labels.len() == 0 ==> r is None && final(self)@ == old(self)@,
            old(self)@.labels.len() > 0 ==> {
                &&& r matches Some(shown)
                &&& final(self)@ == (SpinnerView {
                    frame: if old(self)@.frame < SPINNER_FRAMES - 1 {
                        old(self)@.frame + 1
                    } else {
                        0
                    },
                    ..old(self)@
                })
                &&& shown.frame@ == frame_text(final(self)@.frame)
                &&& shown.names@ == join(
                    in_order(label_texts(old(self)@.labels), false),
                    ", "@,
                )
                &&& shown.since == earliest(old(self)@.labels)
            },
    {
        let n: usize = self.labels.len();
        if n == 0 {
            return None;
        }
        self.frame = if self.frame < SPINNER_FRAMES - 1 {
            self.frame + 1
        } else {
            0
        };
        let ghost all = views(self.labels@);
        let mut names: Vec<String> = Vec::new();
        let mut since: u64 = u64::MAX;
        for i in 0..n
            invariant
                n == self.labels@.len(),
                all == views(self.labels@),
                views(names@) == label_texts(all.take(i as int)),
                since == earliest(all.take(i as int)),
        {
            assert(all.take(i + 1).drop_last() == all.take(i as int));
            names.push(self.labels[i].label.clone());
            assert(label_texts(all.take(i + 1)) == label_texts(all.take(i as int)).push(
                all[i as int].label,
            ));
            if self.labels[i].started < since {
                since = self.labels[i].started;
            }
        }
        assert(all.take(n as int) == all);
        let sorted = sort_texts(names, false);
        Some(
            SpinnerShown {
                frame: frame_str(self.frame).to_owned(),
                names: joined(&sorted, ", "),
                since,
            },
        )
    }
}

/// After a call is over, the spinner is as it was before the call, if nothing
/// ran under its key.
pub proof fn law_spinner_returns(s: SpinnerView, l: LabelView)
    requires
        label_at(s.labels, l.key, 0) is None,
    ensures
        with_stopped(with_started(s, l), l.key) == s,
{
    lemma_not_found(s.labels, l, 0);
    assert(s.labels.push(l).remove(s.labels.len() as int) =~= s.labels);
}

proof fn lemma_not_found(labels: Seq<LabelView>, l: LabelView, i: int)
    requires
        0 <= i <= labels.len(),
        label_at(labels, l.key, i) is None,
    ensures
        label_at(labels.push(l), l.key, i) == Some(labels.len() as int),
    decreases labels.len() - i,
{
    if i < labels.len() {
        lemma_not_found(labels, l, i + 1);
    }
}

} // verus!
