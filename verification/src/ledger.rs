//! Facts that survive the dropping of old messages.
use vstd::prelude::*;

use crate::json::{member, text_member, Json, JsonTree};
use crate::message::{
    message_text, BlockView, ContentBlock, Message, MessageView, Role, ToolCall, ToolCallView,
};
use crate::model::{group_views, opt_view, views};
use crate::text::{among, is_among, join, joined, same, trim, trimmed};

verus! {

broadcast use group_views;

/// How many commit messages are kept.
pub const DECISION_LEDGER_COMMIT_CAP: usize = 12;

/// How many touched files are kept.
pub const DECISION_LEDGER_FILE_CAP: usize = 30;

/// How many summaries are kept.
pub const DECISION_LEDGER_SUMMARY_CAP: usize = 5;

/// Facts taken from messages before they are dropped.
pub struct DecisionLedger {
    pub touched_files: Vec<String>,
    pub latest_todo: Option<String>,
    pub commits: Vec<String>,
    pub summaries: Vec<String>,
}

#[verifier::ext_equal]
pub struct LedgerView {
    pub touched_files: Seq<Seq<char>>,
    pub latest_todo: Option<Seq<char>>,
    pub commits: Seq<Seq<char>>,
    pub summaries: Seq<Seq<char>>,
}

impl View for DecisionLedger {
    type V = LedgerView;

    open spec fn view(&self) -> LedgerView {
        LedgerView {
            touched_files: views(self.touched_files@),
            latest_todo: opt_view(self.latest_todo),
            commits: views(self.commits@),
            summaries: views(self.summaries@),
        }
    }
}

impl LedgerView {
    /// The ledger in which nothing has been recorded.
    pub open spec fn empty() -> LedgerView {
        LedgerView {
            touched_files: Seq::empty(),
            latest_todo: None,
            commits: Seq::empty(),
            summaries: Seq::empty(),
        }
    }

    /// Whether no list is longer than it may be.
    pub open spec fn within_caps(self) -> bool {
        &&& self.touched_files.len() <= DECISION_LEDGER_FILE_CAP
        &&& self.commits.len() <= DECISION_LEDGER_COMMIT_CAP
        &&& self.summaries.len() <= DECISION_LEDGER_SUMMARY_CAP
    }
}

/// `s` with `x` at the end; where that is more than `cap` entries, without the
/// oldest.
pub open spec fn push_capped(s: Seq<Seq<char>>, x: Seq<char>, cap: nat) -> Seq<Seq<char>> {
    if s.len() + 1 > cap {
        s.push(x).remove(0)
    } else {
        s.push(x)
    }
}

fn push_capped_text(v: &mut Vec<String>, x: String, cap: usize)
    ensures
        views(final(v)@) == push_capped(views(old(v)@), x@, cap as nat),
{
    v.push(x);
    if v.len() > cap {
        v.remove(0);
    }
}

/// The ledger after a summary is added.
pub open spec fn with_summary(l: LedgerView, summary: Seq<char>) -> LedgerView {
    LedgerView {
        summaries: push_capped(l.summaries, summary, DECISION_LEDGER_SUMMARY_CAP as nat),
        ..l
    }
}

/// One entry of a todo list: its mark and its content.
pub open spec fn todo_line(t: JsonTree) -> Option<Seq<char>> {
    match text_member(t, "content"@) {
        Some(content) => Some("  ["@ + todo_mark(text_member(t, "status"@)) + "] "@ + content),
        None => None,
    }
}

/// The mark of a todo entry by its status.
pub open spec fn todo_mark(status: Option<Seq<char>>) -> Seq<char> {
    if status == Some("completed"@) {
        "x"@
    } else if status == Some("in_progress"@) {
        "~"@
    } else {
        " "@
    }
}

/// The lines of the entries that have a content.
pub open spec fn todo_lines(todos: Seq<JsonTree>) -> Seq<Seq<char>>
    decreases todos.len(),
{
    if todos.len() == 0 {
        Seq::empty()
    } else {
        let rest = todo_lines(todos.drop_last());
        match todo_line(todos.last()) {
            Some(line) => rest.push(line),
            None => rest,
        }
    }
}

/// A todo list as one line per entry; none where there is no entry to show.
pub open spec fn todo_summary(args: JsonTree) -> Option<Seq<char>> {
    match member(args, "todos"@) {
        Some(JsonTree::Array(todos)) => if todo_lines(todos).len() == 0 {
            None
        } else {
            Some(join(todo_lines(todos), "\n"@))
        },
        _ => None,
    }
}

/// The todo list of a `todo_write` call as one line per entry.
pub fn summarize_todo_write(args: &Json) -> (r: Option<String>)
    ensures
        opt_view(r) == todo_summary(args@),
{
    match args.get("todos") {
        Some(Json::Array(todos)) => {
            let mut lines: Vec<String> = Vec::new();
            let ghost trees = views(todos@);
            for i in 0..todos.len()
                invariant
                    trees == views(todos@),
                    views(lines@) == todo_lines(trees.take(i as int)),
            {
                assert(trees.take(i + 1).drop_last() == trees.take(i as int));
                let t = &todos[i];
                if let Some(content) = t.get_text("content") {
                    let mark = match t.get_text("status") {
                        Some(s) => if same(s.as_str(), "completed") {
                            "x"
                        } else if same(s.as_str(), "in_progress") {
                            "~"
                        } else {
                            " "
                        },
                        None => " ",
                    };
                    let mut line = "  [".to_owned();
                    line.append(mark);
                    line.append("] ");
                    line.append(content.as_str());
                    lines.push(line);
                }
            }
            assert(trees.take(trees.len() as int) == trees);
            assert(trees =~= member(args@, "todos"@)->Some_0->Array_0);
            if lines.len() == 0 {
                assert(todo_lines(trees).len() == 0);
                None
            } else {
                assert(todo_lines(trees).len() == lines@.len());
                Some(joined(&lines, "\n"))
            }
        },
        _ => None,
    }
}

/// Whether an argument is a todo list without entries.
pub open spec fn empty_todos(args: JsonTree) -> bool {
    member(args, "todos"@) matches Some(JsonTree::Array(todos)) && todos.len() == 0
}

fn is_empty_todos(args: &Json) -> (r: bool)
    ensures
        r == empty_todos(args@),
{
    match args.get("todos") {
        Some(Json::Array(todos)) => {
            assert(views(todos@) == member(args@, "todos"@)->Some_0->Array_0);
            todos.len() == 0
        },
        _ => false,
    }
}

/// The todo list after a `todo_write` call: the one of the call, or the one
/// before where the call is malformed.
pub open spec fn todo_list_after(before: Option<Seq<char>>, args: JsonTree) -> Option<Seq<char>> {
    if todo_summary(args) is Some || empty_todos(args) {
        todo_summary(args)
    } else {
        before
    }
}

/// The todo list after a `todo_write` call, as one line per entry.
pub fn todo_after(before: Option<String>, args: &Json) -> (r: Option<String>)
    ensures
        opt_view(r) == todo_list_after(opt_view(before), args@),
{
    let summary = summarize_todo_write(args);
    if summary.is_some() || is_empty_todos(args) {
        summary
    } else {
        before
    }
}

/// The ledger after a dropped tool call is recorded: commits and written files
/// are noted, a todo list replaces the one before. Malformed calls leave it as
/// it is.
pub open spec fn record_call(l: LedgerView, call: ToolCallView) -> LedgerView {
    if call.name == "git_commit"@ {
        match text_member(call.arguments, "message"@) {
            Some(m) => LedgerView {
                commits: push_capped(l.commits, m, DECISION_LEDGER_COMMIT_CAP as nat),
                ..l
            },
            None => l,
        }
    } else if call.name == "todo_write"@ {
        LedgerView { latest_todo: todo_list_after(l.latest_todo, call.arguments), ..l }
    } else if call.name == "write_file"@ || call.name == "edit_file"@ || call.name
        == "delete_file"@ {
        match text_member(call.arguments, "path"@) {
            Some(path) => if among(path, l.touched_files) {
                l
            } else {
                LedgerView {
                    touched_files: push_capped(
                        l.touched_files,
                        path,
                        DECISION_LEDGER_FILE_CAP as nat,
                    ),
                    ..l
                }
            },
            None => l,
        }
    } else {
        l
    }
}

/// The ledger after the blocks of a message are recorded.
pub open spec fn record_blocks(l: LedgerView, blocks: Seq<BlockView>) -> LedgerView
    decreases blocks.len(),
{
    if blocks.len() == 0 {
        l
    } else {
        let before = record_blocks(l, blocks.drop_last());
        match blocks.last() {
            BlockView::ToolUse(c) => record_call(before, c),
            _ => before,
        }
    }
}

/// The ledger after messages are recorded.
pub open spec fn record_messages(l: LedgerView, dropped: Seq<MessageView>) -> LedgerView
    decreases dropped.len(),
{
    if dropped.len() == 0 {
        l
    } else {
        record_blocks(record_messages(l, dropped.drop_last()), dropped.last().content)
    }
}

/// One line per entry, each behind a dash.
pub open spec fn bullet_lines(items: Seq<Seq<char>>) -> Seq<char>
    decreases items.len(),
{
    if items.len() == 0 {
        Seq::empty()
    } else {
        bullet_lines(items.drop_last()) + "  - "@ + items.last() + "\n"@
    }
}

/// The section on the todo list.
pub open spec fn todo_section(l: LedgerView) -> Seq<char> {
    match l.latest_todo {
        Some(todo) => "Current todo list:\n"@ + todo + "\n"@,
        None => Seq::empty(),
    }
}

/// The section on the files.
pub open spec fn files_section(l: LedgerView) -> Seq<char> {
    if l.touched_files.len() > 0 {
        "Files touched so far: "@ + join(l.touched_files, ", "@) + "\n"@
    } else {
        Seq::empty()
    }
}

/// The section on the commits.
pub open spec fn commits_section(l: LedgerView) -> Seq<char> {
    if l.commits.len() > 0 {
        "Commits made:\n"@ + bullet_lines(l.commits)
    } else {
        Seq::empty()
    }
}

/// The section on the summaries.
pub open spec fn summaries_section(l: LedgerView) -> Seq<char> {
    if l.summaries.len() > 0 {
        "Summary of earlier discussion:\n"@ + bullet_lines(l.summaries)
    } else {
        Seq::empty()
    }
}

/// What the model is told of the recorded facts; nothing where there are none.
pub open spec fn ledger_text(l: LedgerView) -> Option<Seq<char>> {
    if l.touched_files.len() == 0 && l.latest_todo is None && l.commits.len() == 0
        && l.summaries.len() == 0 {
        None
    } else {
        Some(
            "Earlier context was compacted; these facts from it still apply:\n"@ + todo_section(l)
                + files_section(l) + commits_section(l) + summaries_section(l),
        )
    }
}

fn append_bullets(out: &mut String, items: &Vec<String>)
    ensures
        final(out)@ == old(out)@ + bullet_lines(views(items@)),
{
    let ghost start = out@;
    let ghost all = views(items@);
    assert(start + bullet_lines(all.take(0)) == start);
    for i in 0..items.len()
        invariant
            all == views(items@),
            out@ == start + bullet_lines(all.take(i as int)),
    {
        assert(all.take(i + 1).drop_last() == all.take(i as int));
        out.append("  - ");
        out.append(items[i].as_str());
        out.append("\n");
        assert(out@ == start + bullet_lines(all.take(i + 1)));
    }
    assert(all.take(all.len() as int) == all);
}

impl Default for DecisionLedger {
    /// Nothing is recorded yet.
    fn default() -> (r: DecisionLedger)
        ensures
            r@ == LedgerView::empty(),
    {
        DecisionLedger::new()
    }
}

impl DecisionLedger {
    /// An empty ledger.
    pub fn new() -> (r: DecisionLedger)
        ensures
            r@ == LedgerView::empty(),
            r@.within_caps(),
    {
        DecisionLedger {
            touched_files: Vec::new(),
            latest_todo: None,
            commits: Vec::new(),
            summaries: Vec::new(),
        }
    }

    /// Adds a summary, dropping the oldest where there are too many.
    pub fn push_summary(&mut self, summary: String)
        ensures
            final(self)@ == with_summary(old(self)@, summary@),
            old(self)@.within_caps() ==> final(self)@.within_caps(),
    {
        push_capped_text(&mut self.summaries, summary, DECISION_LEDGER_SUMMARY_CAP);
    }

    fn record_one(&mut self, call: &ToolCall)
        ensures
            final(self)@ == record_call(old(self)@, call@),
            old(self)@.within_caps() ==> final(self)@.within_caps(),
    {
        let name = call.name.as_str();
        if same(name, "git_commit") {
            if let Some(m) = call.arguments.get_text("message") {
                push_capped_text(&mut self.commits, m.clone(), DECISION_LEDGER_COMMIT_CAP);
            }
        } else if same(name, "todo_write") {
            let mut before: Option<String> = None;
            std::mem::swap(&mut before, &mut self.latest_todo);
            self.latest_todo = todo_after(before, &call.arguments);
        } else if same(name, "write_file") || same(name, "edit_file") || same(name, "delete_file") {
            if let Some(path) = call.arguments.get_text("path") {
                if !is_among(path.as_str(), &self.touched_files) {
                    push_capped_text(
                        &mut self.touched_files,
                        path.clone(),
                        DECISION_LEDGER_FILE_CAP,
                    );
                }
            }
        }
    }

    /// Records what the tool calls in `dropped` did.
    pub fn record(&mut self, dropped: &Vec<Message>)
        ensures
            final(self)@ == record_messages(old(self)@, views(dropped@)),
            old(self)@.within_caps() ==> final(self)@.within_caps(),
    {
        let ghost start = self@;
        let ghost all = views(dropped@);
        for i in 0..dropped.len()
            invariant
                all == views(dropped@),
                self@ == record_messages(start, all.take(i as int)),
                start.within_caps() ==> self@.within_caps(),
        {
            let content = &dropped[i].content;
            let ghost mid = self@;
            let ghost blocks = views(content@);
            for j in 0..content.len()
                invariant
                    blocks == views(content@),
                    self@ == record_blocks(mid, blocks.take(j as int)),
                    start.within_caps() ==> self@.within_caps(),
            {
                assert(blocks.take(j + 1).drop_last() == blocks.take(j as int));
                if let ContentBlock::ToolUse(call) = &content[j] {
                    self.record_one(call);
                }
            }
            assert(blocks.take(blocks.len() as int) == blocks);
            assert(all.take(i + 1).drop_last() == all.take(i as int));
            assert(all.take(i + 1).last() == dropped@[i as int]@);
        }
        assert(all.take(all.len() as int) == all);
    }

    /// What the model is told of the recorded facts.
    pub fn render(&self) -> (r: Option<String>)
        ensures
            opt_view(r) == ledger_text(self@),
    {
        if self.touched_files.len() == 0 && self.latest_todo.is_none() && self.commits.len() == 0
            && self.summaries.len() == 0 {
            return None;
        }
        let mut out =
            "Earlier context was compacted; these facts from it still apply:\n".to_owned();
        let ghost head = out@;
        if let Some(todo) = &self.latest_todo {
            out.append("Current todo list:\n");
            out.append(todo.as_str());
            out.append("\n");
        }
        assert(out@ =~= head + todo_section(self@));
        let ghost head = out@;
        if self.touched_files.len() > 0 {
            out.append("Files touched so far: ");
            out.append(joined(&self.touched_files, ", ").as_str());
            out.append("\n");
        }
        assert(out@ =~= head + files_section(self@));
        let ghost head = out@;
        if self.commits.len() > 0 {
            out.append("Commits made:\n");
            append_bullets(&mut out, &self.commits);
        }
        assert(out@ =~= head + commits_section(self@));
        let ghost head = out@;
        if self.summaries.len() > 0 {
            out.append("Summary of earlier discussion:\n");
            append_bullets(&mut out, &self.summaries);
        }
        assert(out@ =~= head + summaries_section(self@));
        Some(out)
    }
}

/// Recording keeps the lists within their caps.
pub proof fn law_recording_keeps_caps(l: LedgerView, dropped: Seq<MessageView>)
    requires
        l.within_caps(),
    ensures
        record_messages(l, dropped).within_caps(),
    decreases dropped.len(),
{
    if dropped.len() > 0 {
        law_recording_keeps_caps(l, dropped.drop_last());
        lemma_blocks_keep_caps(
            record_messages(l, dropped.drop_last()),
            dropped.last().content,
        );
    }
}

proof fn lemma_blocks_keep_caps(l: LedgerView, blocks: Seq<BlockView>)
    requires
        l.within_caps(),
    ensures
        record_blocks(l, blocks).within_caps(),
    decreases blocks.len(),
{
    if blocks.len() > 0 {
        lemma_blocks_keep_caps(l, blocks.drop_last());
    }
}

/// The last `n` entries, or all where there are fewer.
pub open spec fn last_of(s: Seq<Seq<char>>, n: nat) -> Seq<Seq<char>> {
    if s.len() <= n {
        s
    } else {
        s.skip(s.len() - n)
    }
}

/// The tool calls in the blocks of a message.
pub open spec fn block_calls(blocks: Seq<BlockView>) -> Seq<ToolCallView>
    decreases blocks.len(),
{
    if blocks.len() == 0 {
        Seq::empty()
    } else {
        let rest = block_calls(blocks.drop_last());
        match blocks.last() {
            BlockView::ToolUse(c) => rest.push(c),
            _ => rest,
        }
    }
}

/// The tool calls in some messages.
pub open spec fn message_calls(messages: Seq<MessageView>) -> Seq<ToolCallView>
    decreases messages.len(),
{
    if messages.len() == 0 {
        Seq::empty()
    } else {
        message_calls(messages.drop_last()) + block_calls(messages.last().content)
    }
}

/// The messages of the commits among some calls.
pub open spec fn commit_messages(calls: Seq<ToolCallView>) -> Seq<Seq<char>>
    decreases calls.len(),
{
    if calls.len() == 0 {
        Seq::empty()
    } else {
        let rest = commit_messages(calls.drop_last());
        let c = calls.last();
        match text_member(c.arguments, "message"@) {
            Some(m) => if c.name == "git_commit"@ {
                rest.push(m)
            } else {
                rest
            },
            None => rest,
        }
    }
}

/// Whether a call writes, edits or deletes a file.
pub open spec fn touches(call: ToolCallView, path: Seq<char>) -> bool {
    &&& call.name == "write_file"@ || call.name == "edit_file"@ || call.name == "delete_file"@
    &&& text_member(call.arguments, "path"@) == Some(path)
}

/// What is done to a ledger: messages are recorded, or a summary is added.
#[verifier::ext_equal]
pub enum LedgerStep {
    Record(Seq<MessageView>),
    Summary(Seq<char>),
}

/// The ledger after some steps, from an empty one.
pub open spec fn after_steps(steps: Seq<LedgerStep>) -> LedgerView
    decreases steps.len(),
{
    if steps.len() == 0 {
        LedgerView::empty()
    } else {
        let before = after_steps(steps.drop_last());
        match steps.last() {
            LedgerStep::Record(messages) => record_messages(before, messages),
            LedgerStep::Summary(text) => with_summary(before, text),
        }
    }
}

/// The tool calls that some steps recorded.
pub open spec fn recorded_calls(steps: Seq<LedgerStep>) -> Seq<ToolCallView>
    decreases steps.len(),
{
    if steps.len() == 0 {
        Seq::empty()
    } else {
        let rest = recorded_calls(steps.drop_last());
        match steps.last() {
            LedgerStep::Record(messages) => rest + message_calls(messages),
            LedgerStep::Summary(text) => rest,
        }
    }
}

/// The summaries that some steps added.
pub open spec fn added_summaries(steps: Seq<LedgerStep>) -> Seq<Seq<char>>
    decreases steps.len(),
{
    if steps.len() == 0 {
        Seq::empty()
    } else {
        let rest = added_summaries(steps.drop_last());
        match steps.last() {
            LedgerStep::Record(messages) => rest,
            LedgerStep::Summary(text) => rest.push(text),
        }
    }
}

/// Whether a ledger holds of some calls and summaries what it should.
pub open spec fn holds_of(
    l: LedgerView,
    calls: Seq<ToolCallView>,
    summaries: Seq<Seq<char>>,
) -> bool {
    &&& l.commits == last_of(commit_messages(calls), DECISION_LEDGER_COMMIT_CAP as nat)
    &&& l.summaries == last_of(summaries, DECISION_LEDGER_SUMMARY_CAP as nat)
    &&& l.touched_files.no_duplicates()
    &&& l.touched_files.len() <= DECISION_LEDGER_FILE_CAP
    &&& forall|i: int|
        0 <= i < l.touched_files.len() ==> exists|k: int|
            0 <= k < calls.len() && touches(
                #[trigger] calls[k],
                #[trigger] l.touched_files[i],
            )
}

proof fn lemma_push_capped(s: Seq<Seq<char>>, x: Seq<char>, cap: nat)
    requires
        cap > 0,
    ensures
        push_capped(last_of(s, cap), x, cap) == last_of(s.push(x), cap),
{
    assert(push_capped(last_of(s, cap), x, cap) =~= last_of(s.push(x), cap));
}

proof fn lemma_call_kept(
    l: LedgerView,
    calls: Seq<ToolCallView>,
    summaries: Seq<Seq<char>>,
    call: ToolCallView,
)
    requires
        holds_of(l, calls, summaries),
    ensures
        holds_of(record_call(l, call), calls.push(call), summaries),
{
    let after = record_call(l, call);
    let more = calls.push(call);
    reveal_strlit("git_commit");
    reveal_strlit("todo_write");
    reveal_strlit("write_file");
    reveal_strlit("edit_file");
    reveal_strlit("delete_file");
    assert("git_commit"@[0] == 'g' && "write_file"@[0] == 'w' && "edit_file"@[0] == 'e'
        && "delete_file"@[0] == 'd' && "todo_write"@[0] == 't');
    assert(more.drop_last() =~= calls);
    if let Some(m) = text_member(call.arguments, "message"@) {
        lemma_push_capped(commit_messages(calls), m, DECISION_LEDGER_COMMIT_CAP as nat);
    }
    assert forall|i: int| 0 <= i < after.touched_files.len() implies exists|k: int|
        0 <= k < more.len() && touches(
            #[trigger] more[k],
            #[trigger] after.touched_files[i],
        ) by {
        let f = after.touched_files[i];
        if l.touched_files.contains(f) {
            let j = choose|j: int| 0 <= j < l.touched_files.len() && l.touched_files[j] == f;
            let k = choose|k: int| 0 <= k < calls.len() && touches(#[trigger] calls[k], f);
            assert(touches(calls[k], l.touched_files[j]));
            assert(more[k] == calls[k]);
        } else {
            assert(touches(more[calls.len() as int], f));
        }
    }
}

proof fn lemma_blocks_kept(
    l: LedgerView,
    calls: Seq<ToolCallView>,
    summaries: Seq<Seq<char>>,
    blocks: Seq<BlockView>,
)
    requires
        holds_of(l, calls, summaries),
    ensures
        holds_of(record_blocks(l, blocks), calls + block_calls(blocks), summaries),
    decreases blocks.len(),
{
    if blocks.len() == 0 {
        assert(calls + block_calls(blocks) =~= calls);
    } else {
        let rest = blocks.drop_last();
        lemma_blocks_kept(l, calls, summaries, rest);
        if let BlockView::ToolUse(c) = blocks.last() {
            lemma_call_kept(record_blocks(l, rest), calls + block_calls(rest), summaries, c);
            assert((calls + block_calls(rest)).push(c) =~= calls + block_calls(blocks));
        }
    }
}

proof fn lemma_messages_kept(
    l: LedgerView,
    calls: Seq<ToolCallView>,
    summaries: Seq<Seq<char>>,
    messages: Seq<MessageView>,
)
    requires
        holds_of(l, calls, summaries),
    ensures
        holds_of(record_messages(l, messages), calls + message_calls(messages), summaries),
    decreases messages.len(),
{
    if messages.len() == 0 {
        assert(calls + message_calls(messages) =~= calls);
    } else {
        let rest = messages.drop_last();
        let content = messages.last().content;
        lemma_messages_kept(l, calls, summaries, rest);
        lemma_blocks_kept(
            record_messages(l, rest),
            calls + message_calls(rest),
            summaries,
            content,
        );
        assert(calls + message_calls(rest) + block_calls(content) =~= calls + message_calls(
            messages,
        ));
    }
}

/// Recording leaves the summaries as they are.
pub proof fn law_recording_keeps_summaries(l: LedgerView, dropped: Seq<MessageView>)
    ensures
        record_messages(l, dropped).summaries == l.summaries,
    decreases dropped.len(),
{
    if dropped.len() > 0 {
        law_recording_keeps_summaries(l, dropped.drop_last());
        lemma_blocks_keep_summaries(
            record_messages(l, dropped.drop_last()),
            dropped.last().content,
        );
    }
}

proof fn lemma_blocks_keep_summaries(l: LedgerView, blocks: Seq<BlockView>)
    ensures
        record_blocks(l, blocks).summaries == l.summaries,
    decreases blocks.len(),
{
    if blocks.len() > 0 {
        lemma_blocks_keep_summaries(l, blocks.drop_last());
    }
}

/// Whatever is recorded and summarised, from an empty ledger on: it holds the
/// last commit messages in their order, twelve at most; files without
/// repetition, thirty at most, each of which a recorded call wrote, edited or
/// deleted; and the last five summaries in their order.
pub proof fn law_ledger_holds_what_happened(steps: Seq<LedgerStep>)
    ensures
        holds_of(after_steps(steps), recorded_calls(steps), added_summaries(steps)),
    decreases steps.len(),
{
    if steps.len() > 0 {
        let rest = steps.drop_last();
        law_ledger_holds_what_happened(rest);
        match steps.last() {
            LedgerStep::Record(messages) => {
                lemma_messages_kept(
                    after_steps(rest),
                    recorded_calls(rest),
                    added_summaries(rest),
                    messages,
                );
            },
            LedgerStep::Summary(text) => {
                lemma_push_capped(
                    added_summaries(rest),
                    text,
                    DECISION_LEDGER_SUMMARY_CAP as nat,
                );
            },
        }
    }
}

// ---------------------------------------------------------------------------
// The transcript that is summarised
// ---------------------------------------------------------------------------

/// The name of a role.
pub open spec fn role_name(r: Role) -> Seq<char> {
    match r {
        Role::System => "System"@,
        Role::User => "User"@,
        Role::Assistant => "Assistant"@,
        Role::Tool => "Tool"@,
    }
}

fn role_text(r: Role) -> (s: &'static str)
    ensures
        s@ == role_name(r),
{
    match r {
        Role::System => "System",
        Role::User => "User",
        Role::Assistant => "Assistant",
        Role::Tool => "Tool",
    }
}

/// The line of one message: only what the user and the assistant said.
pub open spec fn transcript_line(m: MessageView) -> Option<Seq<char>> {
    if (m.role == Role::User || m.role == Role::Assistant) && trim(message_text(m)).len() > 0 {
        Some(role_name(m.role) + ": "@ + message_text(m))
    } else {
        None
    }
}

/// The lines of some messages.
pub open spec fn transcript_lines(messages: Seq<MessageView>) -> Seq<Seq<char>>
    decreases messages.len(),
{
    if messages.len() == 0 {
        Seq::empty()
    } else {
        let rest = transcript_lines(messages.drop_last());
        match transcript_line(messages.last()) {
            Some(line) => rest.push(line),
            None => rest,
        }
    }
}

/// What the user and the assistant said, one line per message.
pub fn plain_text_transcript(messages: &Vec<Message>) -> (r: String)
    ensures
        r@ == join(transcript_lines(views(messages@)), "\n"@),
{
    let mut lines: Vec<String> = Vec::new();
    let ghost all = views(messages@);
    for i in 0..messages.len()
        invariant
            all == views(messages@),
            views(lines@) == transcript_lines(all.take(i as int)),
    {
        assert(all.take(i + 1).drop_last() == all.take(i as int));
        let m = &messages[i];
        if m.role == Role::User || m.role == Role::Assistant {
            let text = m.text();
            if trimmed(text.as_str()).as_str().unicode_len() > 0 {
                let mut line = role_text(m.role).to_owned();
                line.append(": ");
                line.append(text.as_str());
                lines.push(line);
            }
        }
    }
    assert(all.take(all.len() as int) == all);
    joined(&lines, "\n")
}

} // verus!
