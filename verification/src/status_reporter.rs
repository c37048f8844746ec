//! A snapshot of what the agent is doing, for others to read.
use vstd::prelude::*;

use crate::json::{
    canonical, entry, group_pairs, json_pretty, number_tree, optional_text, text_or_null,
    text_value, Json, JsonTree,
};
use crate::message::ToolCall;
use crate::model::{group_views, opt_view};

verus! {

broadcast use {group_pairs, group_views};

/// What the agent is doing. Running is counted: a turn and each tool call
/// count one until they are over.
pub struct StatusReporter {
    path: String,
    depth: u32,
    turn_started_at: Option<u64>,
    current_action: Option<String>,
    provider_id: String,
    model: String,
}

#[verifier::ext_equal]
pub struct StatusView {
    /// The file that the snapshot is written to.
    pub path: Seq<char>,
    pub depth: nat,
    /// In seconds.
    pub turn_started_at: Option<u64>,
    pub current_action: Option<Seq<char>>,
    pub provider_id: Seq<char>,
    pub model: Seq<char>,
}

impl View for StatusReporter {
    type V = StatusView;

    closed spec fn view(&self) -> StatusView {
        StatusView {
            path: self.path@,
            depth: self.depth as nat,
            turn_started_at: self.turn_started_at,
            current_action: opt_view(self.current_action),
            provider_id: self.provider_id@,
            model: self.model@,
        }
    }
}

/// The status when something starts.
pub open spec fn entered(s: StatusView, action: Seq<char>, now: u64) -> StatusView {
    StatusView {
        turn_started_at: if s.depth == 0 {
            Some(now)
        } else {
            s.turn_started_at
        },
        depth: s.depth + 1,
        current_action: Some(action),
        ..s
    }
}

/// The status when something is over.
pub open spec fn left(s: StatusView) -> StatusView {
    if s.depth <= 1 {
        StatusView { depth: 0, turn_started_at: None, current_action: None, ..s }
    } else {
        StatusView { depth: (s.depth - 1) as nat, ..s }
    }
}

/// An integer or null, as JSON.
pub open spec fn number_or_null(o: Option<u64>) -> JsonTree {
    match o {
        Some(n) => number_tree(n),
        None => JsonTree::Null,
    }
}

/// The snapshot of a status.
pub open spec fn snapshot_tree(s: StatusView, pid: u32, now: u64) -> JsonTree {
    JsonTree::Object(
        seq![
            (
                "state"@,
                JsonTree::Str(
                    if s.depth > 0 {
                        "running"@
                    } else {
                        "idle"@
                    },
                ),
            ),
            ("current_action"@, text_or_null(s.current_action)),
            ("turn_started_at"@, number_or_null(s.turn_started_at)),
            ("provider"@, JsonTree::Str(s.provider_id)),
            ("model"@, JsonTree::Str(s.model)),
            ("pid"@, number_tree(pid as u64)),
            ("updated_at"@, number_tree(now)),
        ],
    )
}

impl StatusReporter {
    /// An idle status, to be written to a file.
    pub fn new(path: String) -> (r: StatusReporter)
        ensures
            r@ == (StatusView {
                path: path@,
                depth: 0,
                turn_started_at: None,
                current_action: None,
                provider_id: Seq::empty(),
                model: Seq::empty(),
            }),
    {
        StatusReporter {
            path,
            depth: 0,
            turn_started_at: None,
            current_action: None,
            provider_id: String::new(),
            model: String::new(),
        }
    }

    /// Something starts, at the time `now` in seconds.
    pub fn enter(&mut self, action: &str, now: u64)
        requires
            old(self)@.depth < u32::MAX,
        ensures
            final(self)@ == entered(old(self)@, action@, now),
    {
        if self.depth == 0 {
            self.turn_started_at = Some(now);
        }
        self.depth = self.depth + 1;
        self.current_action = Some(action.to_owned());
    }

    /// Something is over.
    pub fn leave(&mut self)
        ensures
            final(self)@ == left(old(self)@),
    {
        if self.depth <= 1 {
            self.depth = 0;
            self.turn_started_at = None;
            self.current_action = None;
        } else {
            self.depth = self.depth - 1;
        }
    }

    /// Whether one more thing can start.
    pub fn can_enter(&self) -> (r: bool)
        ensures
            r == (self@.depth < u32::MAX),
    {
        self.depth < u32::MAX
    }

    /// The model is asked.
    pub fn on_turn_start(&mut self, now: u64)
        requires
            old(self)@.depth < u32::MAX,
        ensures
            final(self)@ == entered(old(self)@, "Waiting on model"@, now),
    {
        self.enter("Waiting on model", now);
    }

    /// The model has answered, or failed to.
    pub fn on_turn_end(&mut self)
        ensures
            final(self)@ == left(old(self)@),
    {
        self.leave();
    }

    /// A tool is run.
    pub fn on_tool_call(&mut self, call: &ToolCall, now: u64)
        requires
            old(self)@.depth < u32::MAX,
        ensures
            final(self)@ == entered(old(self)@, "Running "@ + call.name@, now),
    {
        let mut action = "Running ".to_owned();
        action.append(call.name.as_str());
        self.enter(action.as_str(), now);
    }

    /// A tool is done.
    pub fn on_tool_result(&mut self)
        ensures
            final(self)@ == left(old(self)@),
    {
        self.leave();
    }

    /// Another provider answers from now on.
    pub fn on_provider_changed(&mut self, provider_id: &str, model: &str)
        ensures
            final(self)@ == (StatusView { provider_id: provider_id@, model: model@, ..old(self)@ }),
    {
        self.provider_id = provider_id.to_owned();
        self.model = model.to_owned();
    }

    /// The snapshot, for the process `pid` at the time `now` in seconds.
    pub fn snapshot(&self, pid: u32, now: u64) -> (r: Json)
        ensures
            r@ == snapshot_tree(self@, pid, now),
    {
        let mut m: Vec<(String, Json)> = Vec::new();
        m.push(
            entry(
                "state",
                text_value(
                    if self.depth > 0 {
                        "running"
                    } else {
                        "idle"
                    },
                ),
            ),
        );
        m.push(entry("current_action", optional_text(&self.current_action)));
        m.push(
            entry(
                "turn_started_at",
                match self.turn_started_at {
                    Some(n) => Json::number(n),
                    None => Json::Null,
                },
            ),
        );
        m.push(entry("provider", text_value(self.provider_id.as_str())));
        m.push(entry("model", text_value(self.model.as_str())));
        m.push(entry("pid", Json::number(pid as u64)));
        m.push(entry("updated_at", Json::number(now)));
        let r = Json::object(m);
        assert(r@->Object_0 =~= snapshot_tree(self@, pid, now)->Object_0);
        r
    }

    /// What is written to the file.
    pub fn rendered(&self, pid: u32, now: u64) -> (r: String)
        ensures
            r@ == json_pretty(canonical(snapshot_tree(self@, pid, now))),
    {
        self.snapshot(pid, now).pretty()
    }

    /// The file of the snapshot.
    pub fn path(&self) -> (r: &str)
        ensures
            r@ == self@.path,
    {
        self.path.as_str()
    }

    /// The file that is written first and then takes the place of the other, so
    /// that nobody reads half a snapshot.
    pub fn tmp_path(&self) -> (r: String)
        ensures
            r@ == self@.path + ".tmp"@,
    {
        let mut r = self.path.clone();
        r.append(".tmp");
        r
    }
}

/// What a status is told.
pub enum StatusStep {
    Start { action: Seq<char>, now: u64 },
    Over,
}

/// The status after what it was told, in turn.
pub open spec fn told(s: StatusView, steps: Seq<StatusStep>) -> StatusView
    decreases steps.len(),
{
    if steps.len() == 0 {
        s
    } else {
        match steps.last() {
            StatusStep::Start { action, now } => entered(told(s, steps.drop_last()), action, now),
            StatusStep::Over => left(told(s, steps.drop_last())),
        }
    }
}

/// How many more things have started than are over.
pub open spec fn still_open(steps: Seq<StatusStep>) -> int
    decreases steps.len(),
{
    if steps.len() == 0 {
        0
    } else if steps.last() is Start {
        still_open(steps.drop_last()) + 1
    } else {
        still_open(steps.drop_last()) - 1
    }
}

/// Nothing is going on.
pub open spec fn is_idle(s: StatusView) -> bool {
    &&& s.depth == 0
    &&& s.turn_started_at is None
    &&& s.current_action is None
}

/// The status is running exactly while something that started is not over: where
/// nothing ends before it has started, the status is idle again, as it was, once
/// as much is over as has started, and otherwise says when work began and what
/// is done.
pub proof fn law_over_means_idle(s: StatusView, steps: Seq<StatusStep>)
    requires
        is_idle(s),
        forall|i: int| 0 <= i <= steps.len() ==> still_open(#[trigger] steps.take(i)) >= 0,
    ensures
        told(s, steps).depth == still_open(steps),
        still_open(steps) == 0 ==> told(s, steps) == s,
        still_open(steps) > 0 ==> told(s, steps).turn_started_at is Some && told(
            s,
            steps,
        ).current_action is Some,
        told(s, steps).path == s.path,
        told(s, steps).provider_id == s.provider_id,
        told(s, steps).model == s.model,
    decreases steps.len(),
{
    assert(steps.take(steps.len() as int) == steps);
    if steps.len() > 0 {
        let before = steps.drop_last();
        assert forall|i: int| 0 <= i <= before.len() implies still_open(#[trigger] before.take(i))
            >= 0 by {
            assert(before.take(i) == steps.take(i));
        }
        law_over_means_idle(s, before);
    }
}

/// Whatever a status is told, it is idle or says when work began and what is
/// done; what ends without having started leaves it idle.
pub proof fn law_idle_or_running(s: StatusView, steps: Seq<StatusStep>)
    requires
        is_idle(s),
    ensures
        told(s, steps).depth == 0 ==> is_idle(told(s, steps)),
        told(s, steps).depth > 0 ==> told(s, steps).turn_started_at is Some && told(
            s,
            steps,
        ).current_action is Some,
        is_idle(told(s, steps)) ==> is_idle(left(told(s, steps))),
    decreases steps.len(),
{
    if steps.len() > 0 {
        law_idle_or_running(s, steps.drop_last());
    }
}

/// While a turn runs, the start of a tool call in it does not change when the
/// turn started, and its end leaves the turn running.
pub proof fn law_nested_call_keeps_running(
    s: StatusView,
    outer: Seq<char>,
    inner: Seq<char>,
    now: u64,
    later: u64,
)
    requires
        s.depth == 0,
    ensures
        ({
            let running = entered(s, outer, now);
            let nested = entered(running, inner, later);
            &&& nested.turn_started_at == Some(now)
            &&& left(nested).depth == running.depth
            &&& left(nested).turn_started_at == Some(now)
            &&& left(left(nested)).depth == 0
            &&& left(left(nested)).turn_started_at is None
        }),
{
}

} // verus!
