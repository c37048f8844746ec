//! Working through a checklist.
use vstd::prelude::*;

use crate::config::{number_setting, number_setting_of};
use crate::json::{Json, JsonTree};
use crate::model::{group_views, opt_view, views};
use crate::script::{
    as_items, eval_steps, evaluating, items_of, texts_view, Evaluation, ScriptStep, StepView,
};
use crate::session::{agent_error_text, AgentError};
use crate::text::{decimal, decimal_text, join, joined};

verus! {

broadcast use group_views;

/// The lines of a file with a box that is not checked.
pub const DEFAULT_QUERY: &'static str = "read_file(path) | split(., \"\\n\") | filter(., fn(line): is_regex_match(line, \"^\\\\s*[-*+]\\\\s+\\\\[ \\\\]\") end)";

pub const DEFAULT_MAX_ITERATIONS: u64 = 50;

pub const DEFAULT_POLL_INTERVAL_SECS: u64 = 5;

/// How often in a row the list fails to get shorter before the work ends.
pub const MAX_CONSECUTIVE_STALLS: usize = 2;

/// Why the work on a checklist ends.
pub enum LoopError {
    Query(String),
    Agent(AgentError),
    Stalled(usize),
    MaxIterationsReached(usize),
}

/// The message of an error.
pub open spec fn loop_error_text(e: LoopError) -> Seq<char> {
    match e {
        LoopError::Query(reason) => "mq query failed: "@ + reason@,
        LoopError::Agent(err) => "agent turn failed: "@ + agent_error_text(err@),
        LoopError::Stalled(n) => "no progress after "@ + decimal(n as nat)
            + " consecutive iteration(s) (item count didn't decrease) -- stopping to avoid spinning forever"@,
        LoopError::MaxIterationsReached(n) => "reached the maximum of "@ + decimal(n as nat)
            + " working iteration(s) -- stopping (raise MINDER_LOOP_MAX_ITERATIONS to allow more)"@,
    }
}

impl LoopError {
    /// The message of the error.
    pub fn message(&self) -> (r: String)
        ensures
            r@ == loop_error_text(*self),
    {
        match self {
            LoopError::Query(reason) => {
                let mut r = "mq query failed: ".to_owned();
                r.append(reason.as_str());
                r
            },
            LoopError::Agent(err) => {
                let mut r = "agent turn failed: ".to_owned();
                r.append(err.message().as_str());
                r
            },
            LoopError::Stalled(n) => {
                let mut r = "no progress after ".to_owned();
                r.append(decimal_text(*n as u64).as_str());
                r.append(
                    " consecutive iteration(s) (item count didn't decrease) -- stopping to avoid spinning forever",
                );
                r
            },
            LoopError::MaxIterationsReached(n) => {
                let mut r = "reached the maximum of ".to_owned();
                r.append(decimal_text(*n as u64).as_str());
                r.append(
                    " working iteration(s) -- stopping (raise MINDER_LOOP_MAX_ITERATIONS to allow more)",
                );
                r
            },
        }
    }
}

/// How a checklist is worked through.
pub struct LoopOptions {
    pub max_iterations: usize,
    /// The query for the open items.
    pub query: String,
    pub poll_interval_secs: u64,
}

/// A number that is set, or the default.
pub open spec fn setting_or(env: Option<Seq<char>>, default_value: u64, max: u64) -> u64 {
    match number_setting_of(env, None, max) {
        Some(n) => n,
        None => default_value,
    }
}

impl LoopOptions {
    /// The options that the environment sets; for the others the defaults.
    pub fn from_env(
        max_iterations: &Option<String>,
        query: Option<String>,
        poll_interval_secs: &Option<String>,
    ) -> (r: LoopOptions)
        ensures
            r.max_iterations == setting_or(
                opt_view(*max_iterations),
                DEFAULT_MAX_ITERATIONS,
                usize::MAX as u64,
            ),
            r.query@ == (match opt_view(query) {
                Some(q) => q,
                None => DEFAULT_QUERY@,
            }),
            r.poll_interval_secs == setting_or(
                opt_view(*poll_interval_secs),
                DEFAULT_POLL_INTERVAL_SECS,
                u64::MAX,
            ),
    {
        let max: u64 = match number_setting(max_iterations, None, usize::MAX as u64) {
            Some(n) => n,
            None => DEFAULT_MAX_ITERATIONS,
        };
        let poll: u64 = match number_setting(poll_interval_secs, None, u64::MAX) {
            Some(n) => n,
            None => DEFAULT_POLL_INTERVAL_SECS,
        };
        LoopOptions {
            max_iterations: max as usize,
            query: match query {
                Some(q) => q,
                None => DEFAULT_QUERY.to_owned(),
            },
            poll_interval_secs: poll,
        }
    }
}

// ---------------------------------------------------------------------------
// The open items
// ---------------------------------------------------------------------------

/// What the result of a query means: something that is no list has no items.
pub open spec fn open_items(result: Result<Option<Seq<Seq<char>>>, Seq<char>>) -> Result<
    Seq<Seq<char>>,
    Seq<char>,
> {
    match result {
        Ok(Some(items)) => Ok(items),
        Ok(None) => Ok(Seq::empty()),
        Err(e) => Err(e),
    }
}

/// Whether items, or the error about a query, are the ones meant.
pub open spec fn is_reply(
    r: Result<Vec<String>, LoopError>,
    meant: Result<Seq<Seq<char>>, Seq<char>>,
) -> bool {
    match meant {
        Ok(items) => r matches Ok(v) && views(v@) == items,
        Err(e) => r matches Err(LoopError::Query(m)) && m@ == e,
    }
}

/// The open items that the result of a query stands for.
pub fn todos_of(result: Result<Option<Vec<String>>, String>) -> (r: Result<Vec<String>, LoopError>)
    ensures
        is_reply(
            r,
            open_items(
                match result {
                    Ok(v) => Ok(texts_view(v)),
                    Err(e) => Err(e@),
                },
            ),
        ),
{
    match result {
        Ok(Some(items)) => Ok(items),
        Ok(None) => {
            let none: Vec<String> = Vec::new();
            assert(views(none@) =~= Seq::empty());
            Ok(none)
        },
        Err(e) => Err(LoopError::Query(e)),
    }
}

/// The steps of a fresh engine that find the open items of the checklist at
/// `path`: the query does the reading.
pub open spec fn asking(path: Seq<char>, query: Seq<char>) -> Seq<StepView> {
    evaluating("path"@, JsonTree::Str(path), query)
}

/// The steps of a fresh engine that find the open items of a checklist.
pub fn todo_steps(path: &str, query: &str) -> (r: Vec<ScriptStep>)
    ensures
        views(r@) == asking(path@, query@),
{
    eval_steps("path", &Json::Str(path.to_owned()), query)
}

/// The open items of a checklist, by what the query on it gave.
pub fn remaining_todos(result: Evaluation) -> (r: Result<Vec<String>, LoopError>)
    ensures
        is_reply(r, open_items(items_of(result))),
{
    todos_of(as_items(result))
}

// ---------------------------------------------------------------------------
// The prompt
// ---------------------------------------------------------------------------

/// The task of one turn.
pub open spec fn loop_prompt(
    path: Seq<char>,
    task_hint: Option<Seq<char>>,
    remaining: Seq<Seq<char>>,
) -> Seq<char> {
    (match task_hint {
        Some(h) => "Overall goal: "@ + h + "\n\n"@,
        None => Seq::empty(),
    }) + "Work through the checklist in `"@ + path + "`. Remaining unchecked items:\n\n"@ + join(
        remaining,
        "\n"@,
    )
        + "\n\nPick the first unfinished item, implement it completely, then edit `"@
        + path
        + "` to check it off (`- [ ]` -> `- [x]`) for that item before ending your turn. Only check off an item once it is genuinely done -- if you run out of turn budget partway through, leave it unchecked."@
}

/// The task of one turn.
pub fn build_prompt(path: &str, task_hint: &Option<String>, remaining: &Vec<String>) -> (r: String)
    ensures
        r@ == loop_prompt(path@, opt_view(*task_hint), views(remaining@)),
{
    let mut r = String::new();
    if let Some(h) = task_hint {
        r = "Overall goal: ".to_owned();
        r.append(h.as_str());
        r.append("\n\n");
    }
    assert(r@ =~= (match opt_view(*task_hint) {
        Some(h) => "Overall goal: "@ + h + "\n\n"@,
        None => Seq::empty(),
    }));
    r.append("Work through the checklist in `");
    r.append(path);
    r.append("`. Remaining unchecked items:\n\n");
    r.append(joined(remaining, "\n").as_str());
    r.append("\n\nPick the first unfinished item, implement it completely, then edit `");
    r.append(path);
    r.append(
        "` to check it off (`- [ ]` -> `- [x]`) for that item before ending your turn. Only check off an item once it is genuinely done -- if you run out of turn budget partway through, leave it unchecked.",
    );
    r
}

// ---------------------------------------------------------------------------
// The loop
// ---------------------------------------------------------------------------

/// How far the work has come.
pub struct LoopState {
    /// The number of open items before the last turn, if there was one since
    /// the list was last empty.
    pub previous: Option<usize>,
    /// How often in a row the list did not get shorter.
    pub stalls: usize,
    /// The turns so far.
    pub worked: usize,
    /// It was said that there is nothing to do.
    pub announced: bool,
}

/// What is done next.
pub enum LoopNext {
    /// Wait and look again.
    Poll,
    /// Run a turn.
    Work,
    /// Give up.
    Stop(LoopError),
}

/// What is done next, and what is said before.
pub struct LoopStep {
    pub notice: Option<String>,
    pub next: LoopNext,
}

/// What is said when the list is empty.
pub open spec fn idle_notice(path: Seq<char>, secs: u64) -> Seq<char> {
    "[loop] "@ + path + " has no unchecked items -- polling every "@ + decimal(secs as nat)
        + "s for new work (Ctrl-C to stop)"@
}

/// What is said before a turn.
pub open spec fn work_notice(path: Seq<char>, worked: nat, max: nat, count: nat) -> Seq<char> {
    "[loop "@ + decimal(worked) + "/"@ + decimal(max) + "] "@ + decimal(count)
        + " item(s) remaining in "@ + path
}

/// The state when the list has `count` open items.
pub open spec fn looked(s: LoopState, count: nat) -> LoopState {
    if count == 0 {
        LoopState { previous: None, announced: true, ..s }
    } else {
        LoopState {
            previous: Some(count as usize),
            stalls: if s.previous matches Some(p) && count >= p {
                (s.stalls + 1) as usize
            } else {
                0
            },
            worked: (s.worked + 1) as usize,
            announced: false,
        }
    }
}

/// What is done when the list has `count` open items.
pub open spec fn loop_next(s: LoopState, count: nat, max: usize) -> LoopNext {
    let t = looked(s, count);
    if count == 0 {
        LoopNext::Poll
    } else if t.worked > max {
        LoopNext::Stop(LoopError::MaxIterationsReached(max))
    } else if t.stalls >= MAX_CONSECUTIVE_STALLS {
        LoopNext::Stop(LoopError::Stalled(t.stalls))
    } else {
        LoopNext::Work
    }
}

/// What is said when the list has `count` open items.
pub open spec fn loop_notice(
    s: LoopState,
    count: nat,
    max: usize,
    secs: u64,
    path: Seq<char>,
) -> Option<Seq<char>> {
    if count == 0 {
        if s.announced {
            None
        } else {
            Some(idle_notice(path, secs))
        }
    } else if s.worked + 1 > max {
        None
    } else {
        Some(work_notice(path, s.worked as nat + 1, max as nat, count))
    }
}

impl LoopState {
    /// The state at the start.
    pub fn new() -> (r: LoopState)
        ensures
            r == (LoopState { previous: None, stalls: 0, worked: 0, announced: false }),
    {
        LoopState { previous: None, stalls: 0, worked: 0, announced: false }
    }

    /// What is done when the list has `count` open items. After a stop the
    /// state counts no further.
    pub fn step(&mut self, count: usize, opts: &LoopOptions, path: &str) -> (r: LoopStep)
        requires
            old(self).worked < usize::MAX,
            old(self).stalls < usize::MAX,
        ensures
            r.next == loop_next(*old(self), count as nat, opts.max_iterations),
            opt_view(r.notice) == loop_notice(
                *old(self),
                count as nat,
                opts.max_iterations,
                opts.poll_interval_secs,
                path@,
            ),
            !(r.next is Stop) ==> *final(self) == looked(*old(self), count as nat),
            r.next is Work ==> final(self).worked <= opts.max_iterations && final(self).stalls
                < MAX_CONSECUTIVE_STALLS,
    {
        let max: usize = opts.max_iterations;
        if count == 0 {
            let mut notice: Option<String> = None;
            if !self.announced {
                let mut text = "[loop] ".to_owned();
                text.append(path);
                text.append(" has no unchecked items -- polling every ");
                text.append(decimal_text(opts.poll_interval_secs).as_str());
                text.append("s for new work (Ctrl-C to stop)");
                notice = Some(text);
                self.announced = true;
            }
            self.previous = None;
            return LoopStep { notice, next: LoopNext::Poll };
        }
        self.announced = false;
        self.worked = self.worked + 1;
        if self.worked > max {
            return LoopStep {
                notice: None,
                next: LoopNext::Stop(LoopError::MaxIterationsReached(max)),
            };
        }
        let mut text = "[loop ".to_owned();
        text.append(decimal_text(self.worked as u64).as_str());
        text.append("/");
        text.append(decimal_text(max as u64).as_str());
        text.append("] ");
        text.append(decimal_text(count as u64).as_str());
        text.append(" item(s) remaining in ");
        text.append(path);
        let stalled = match self.previous {
            Some(p) => count >= p,
            None => false,
        };
        if stalled {
            self.stalls = self.stalls + 1;
            if self.stalls >= MAX_CONSECUTIVE_STALLS {
                return LoopStep {
                    notice: Some(text),
                    next: LoopNext::Stop(LoopError::Stalled(self.stalls)),
                };
            }
        } else {
            self.stalls = 0;
        }
        self.previous = Some(count);
        LoopStep { notice: Some(text), next: LoopNext::Work }
    }
}

/// The number of turns that some looks at the list lead to.
pub open spec fn turns(s: LoopState, counts: Seq<nat>, max: usize) -> nat
    decreases counts.len(),
{
    if counts.len() == 0 || loop_next(s, counts[0], max) is Stop {
        0
    } else {
        let rest = turns(looked(s, counts[0]), counts.skip(1), max);
        if loop_next(s, counts[0], max) is Work {
            rest + 1
        } else {
            rest
        }
    }
}

/// However the list changes, no more turns are run than allowed; looks at an
/// empty list do not count.
pub proof fn law_turns_are_bounded(s: LoopState, counts: Seq<nat>, max: usize)
    requires
        s.worked <= max,
        max < usize::MAX,
    ensures
        turns(s, counts, max) + s.worked <= max,
    decreases counts.len(),
{
    if counts.len() > 0 && !(loop_next(s, counts[0], max) is Stop) {
        law_turns_are_bounded(looked(s, counts[0]), counts.skip(1), max);
    }
}

/// While the list gets shorter with every turn and turns are left, each look at
/// it leads to another turn.
pub proof fn law_progress_is_no_stall(s: LoopState, counts: Seq<nat>, max: usize)
    requires
        forall|i: int| 0 <= i < counts.len() ==> 0 < #[trigger] counts[i] <= usize::MAX,
        forall|i: int, j: int| 0 <= i < j < counts.len() ==> counts[j] < counts[i],
        counts.len() > 0 ==> (s.previous matches Some(p) ==> counts[0] < p),
        s.worked + counts.len() <= max,
    ensures
        turns(s, counts, max) == counts.len(),
    decreases counts.len(),
{
    if counts.len() > 0 {
        let rest = counts.skip(1);
        assert forall|i: int| 0 <= i < rest.len() implies 0 < #[trigger] rest[i]
            <= usize::MAX by {
            assert(rest[i] == counts[i + 1]);
        }
        law_progress_is_no_stall(looked(s, counts[0]), rest, max);
    }
}

/// Two turns in a row that do not make the list shorter end the work, and one
/// alone does not.
pub proof fn law_stall_stops(s: LoopState, first: nat, second: nat, third: nat, max: usize)
    requires
        0 < first <= second <= third <= usize::MAX,
        s.worked + 2 < max,
        s.stalls == 0,
        s.previous matches Some(p) ==> first < p,
    ensures
        ({
            let once = looked(s, first);
            let twice = looked(once, second);
            &&& loop_next(s, first, max) is Work
            &&& loop_next(once, second, max) is Work
            &&& loop_next(twice, third, max) == LoopNext::Stop(LoopError::Stalled(2))
        }),
{
}

} // verus!
