//! How a session is put together.
//!
//! The driver loads the part that is asked for and tells what came of it; here
//! it is decided what is loaded next, what goes into the session, what is
//! said, and what ends the start.
use vstd::prelude::*;

use crate::model::{group_views, opt_view, views};
use crate::text::{decimal, decimal_text, join, joined, same};

verus! {

broadcast use group_views;

/// How far the start has come: the part that is to be loaded next.
#[derive(Clone, Copy, Debug, PartialEq, Eq, Structural)]
pub enum Stage {
    Plugins,
    Hooks,
    SearchKey,
    Skills,
    WasmTools,
    McpTools,
    /// The servers of the plugin at this place.
    PluginMcpTools(usize),
    LogFile,
    StatusFile,
    Subagents,
    /// Everything is loaded.
    Done,
    /// The start came to its end before.
    Failed,
}

/// What came of loading a part.
pub enum SetupEvent {
    /// The names of the plugins.
    Plugins(Result<Vec<String>, String>),
    /// The hooks; `project` tells whether the project has some of its own.
    Hooks { project: bool, result: Result<(), String> },
    /// Whether there is a key for searching the web.
    SearchKey(bool),
    /// The number of skills.
    Skills(Result<usize, String>),
    /// The names of the tools from plugins that are run in a sandbox.
    WasmTools(Result<Vec<String>, String>),
    /// The names of the tools from servers.
    McpTools(Result<Vec<String>, String>),
    /// The names of the tools from the servers of a plugin.
    PluginMcpTools(Result<Vec<String>, String>),
    /// The log file, if there is to be one.
    LogFile(Option<LogFile>),
    /// The status file, if there is to be one.
    StatusFile(Option<String>),
    /// The names of the project's agents.
    Subagents(Result<Vec<String>, String>),
}

/// A log file that was opened, or not.
pub struct LogFile {
    pub path: String,
    pub result: Result<(), String>,
}

#[verifier::ext_equal]
pub struct LogFileView {
    pub path: Seq<char>,
    pub failure: Option<Seq<char>>,
}

impl View for LogFile {
    type V = LogFileView;

    open spec fn view(&self) -> LogFileView {
        LogFileView { path: self.path@, failure: failure_of(self.result) }
    }
}

#[verifier::ext_equal]
pub enum SetupEventView {
    Plugins(Result<Seq<Seq<char>>, Seq<char>>),
    Hooks { project: bool, failure: Option<Seq<char>> },
    SearchKey(bool),
    Skills(Result<nat, Seq<char>>),
    WasmTools(Result<Seq<Seq<char>>, Seq<char>>),
    McpTools(Result<Seq<Seq<char>>, Seq<char>>),
    PluginMcpTools(Result<Seq<Seq<char>>, Seq<char>>),
    LogFile(Option<LogFileView>),
    StatusFile(Option<Seq<char>>),
    Subagents(Result<Seq<Seq<char>>, Seq<char>>),
}

/// The view of a list of names, or of why there is none.
pub open spec fn names_view(r: Result<Vec<String>, String>) -> Result<Seq<Seq<char>>, Seq<char>> {
    match r {
        Ok(v) => Ok(views(v@)),
        Err(e) => Err(e@),
    }
}

/// Why something failed, if it did.
pub open spec fn failure_of(r: Result<(), String>) -> Option<Seq<char>> {
    match r {
        Ok(_) => None,
        Err(e) => Some(e@),
    }
}

impl View for SetupEvent {
    type V = SetupEventView;

    open spec fn view(&self) -> SetupEventView {
        match self {
            SetupEvent::Plugins(r) => SetupEventView::Plugins(names_view(*r)),
            SetupEvent::Hooks { project, result } => SetupEventView::Hooks {
                project: *project,
                failure: failure_of(*result),
            },
            SetupEvent::SearchKey(b) => SetupEventView::SearchKey(*b),
            SetupEvent::Skills(r) => SetupEventView::Skills(
                match r {
                    Ok(n) => Ok(*n as nat),
                    Err(e) => Err(e@),
                },
            ),
            SetupEvent::WasmTools(r) => SetupEventView::WasmTools(names_view(*r)),
            SetupEvent::McpTools(r) => SetupEventView::McpTools(names_view(*r)),
            SetupEvent::PluginMcpTools(r) => SetupEventView::PluginMcpTools(names_view(*r)),
            SetupEvent::LogFile(f) => SetupEventView::LogFile(opt_view(*f)),
            SetupEvent::StatusFile(path) => SetupEventView::StatusFile(opt_view(*path)),
            SetupEvent::Subagents(r) => SetupEventView::Subagents(names_view(*r)),
        }
    }
}

/// An agent of the session.
pub struct AgentSlot {
    pub name: String,
    /// Its place among the project's agents; a built-in one has none.
    pub found: Option<usize>,
}

#[verifier::ext_equal]
pub struct SlotView {
    pub name: Seq<char>,
    pub found: Option<nat>,
}

impl View for AgentSlot {
    type V = SlotView;

    open spec fn view(&self) -> SlotView {
        SlotView {
            name: self.name@,
            found: match self.found {
                Some(i) => Some(i as nat),
                None => None,
            },
        }
    }
}

/// A session that is put together.
pub struct Setup {
    pub stage: Stage,
    /// The names of the plugins.
    pub plugins: Vec<String>,
    /// The names of the tools, in the order in which they are offered.
    pub tools: Vec<String>,
    pub agents: Vec<AgentSlot>,
    /// Whether a log is written beside the display.
    pub log: bool,
    /// Whether the status is written beside the display.
    pub status: bool,
}

#[verifier::ext_equal]
pub struct SetupView {
    pub stage: Stage,
    pub plugins: Seq<Seq<char>>,
    pub tools: Seq<Seq<char>>,
    pub agents: Seq<SlotView>,
    pub log: bool,
    pub status: bool,
}

impl View for Setup {
    type V = SetupView;

    open spec fn view(&self) -> SetupView {
        SetupView {
            stage: self.stage,
            plugins: views(self.plugins@),
            tools: views(self.tools@),
            agents: views(self.agents@),
            log: self.log,
            status: self.status,
        }
    }
}

/// The tools that every session has.
pub open spec fn base_tools() -> Seq<Seq<char>> {
    seq![
        "read_file"@,
        "write_file"@,
        "edit_file"@,
        "delete_file"@,
        "bash"@,
        "glob"@,
        "grep"@,
        "ls"@,
        "git_diff"@,
        "git_log"@,
        "git_status"@,
        "git_commit"@,
        "web_fetch"@,
    ]
}

/// The tools that are added last.
pub open spec fn agent_tools() -> Seq<Seq<char>> {
    seq!["agent"@, "todo_write"@, "list_agents"@, "agent_output"@, "agent_stop"@]
}

/// The agents that come with the program.
pub open spec fn builtin_slots(names: Seq<Seq<char>>) -> Seq<SlotView> {
    Seq::new(names.len(), |i: int| SlotView { name: names[i], found: None })
}

/// The position of the agent with this name from `i` on.
pub open spec fn slot_at(slots: Seq<SlotView>, name: Seq<char>, i: int) -> Option<int>
    decreases slots.len() - i,
{
    if i < 0 || i >= slots.len() {
        None
    } else if slots[i].name == name {
        Some(i)
    } else {
        slot_at(slots, name, i + 1)
    }
}

/// The agents with one of the project: it takes the place of the one with its
/// name, or stands at the end.
pub open spec fn with_agent(slots: Seq<SlotView>, name: Seq<char>, found: nat) -> Seq<SlotView> {
    let slot = SlotView { name, found: Some(found) };
    match slot_at(slots, name, 0) {
        Some(i) => slots.update(i, slot),
        None => slots.push(slot),
    }
}

/// The agents with those of the project.
pub open spec fn with_agents(slots: Seq<SlotView>, names: Seq<Seq<char>>) -> Seq<SlotView>
    decreases names.len(),
{
    if names.len() == 0 {
        slots
    } else {
        with_agent(
            with_agents(slots, names.drop_last()),
            names.last(),
            (names.len() - 1) as nat,
        )
    }
}

/// What is said of a number of things that were loaded.
pub open spec fn loaded_text(n: nat, what: Seq<char>) -> Option<Seq<char>> {
    if n == 0 {
        None
    } else {
        Some("loaded "@ + decimal(n) + what)
    }
}

/// The session and what is said when tools were loaded.
pub open spec fn tools_loaded(
    s: SetupView,
    r: Result<Seq<Seq<char>>, Seq<char>>,
    what: Seq<char>,
    failed: Seq<char>,
) -> (SetupView, Result<Option<Seq<char>>, Seq<char>>) {
    match r {
        Ok(names) => (
            SetupView { tools: s.tools + names, ..s },
            Ok(loaded_text(names.len(), what)),
        ),
        Err(e) => (s, Err(failed + e)),
    }
}

/// The session before anything is loaded.
pub open spec fn at_start(builtin_agents: Seq<Seq<char>>) -> SetupView {
    SetupView {
        stage: Stage::Plugins,
        plugins: Seq::empty(),
        tools: base_tools(),
        agents: builtin_slots(builtin_agents),
        log: false,
        status: false,
    }
}

/// Whether an event tells of the part that was asked for.
pub open spec fn fits(stage: Stage, e: SetupEventView) -> bool {
    match (stage, e) {
        (Stage::Plugins, SetupEventView::Plugins(_)) => true,
        (Stage::Hooks, SetupEventView::Hooks { .. }) => true,
        (Stage::SearchKey, SetupEventView::SearchKey(_)) => true,
        (Stage::Skills, SetupEventView::Skills(_)) => true,
        (Stage::WasmTools, SetupEventView::WasmTools(_)) => true,
        (Stage::McpTools, SetupEventView::McpTools(_)) => true,
        (Stage::PluginMcpTools(_), SetupEventView::PluginMcpTools(_)) => true,
        (Stage::LogFile, SetupEventView::LogFile(_)) => true,
        (Stage::StatusFile, SetupEventView::StatusFile(_)) => true,
        (Stage::Subagents, SetupEventView::Subagents(_)) => true,
        _ => false,
    }
}

/// What is loaded after the part that was asked for.
pub open spec fn next_stage(s: SetupView) -> Stage {
    match s.stage {
        Stage::Plugins => Stage::Hooks,
        Stage::Hooks => Stage::SearchKey,
        Stage::SearchKey => Stage::Skills,
        Stage::Skills => Stage::WasmTools,
        Stage::WasmTools => Stage::McpTools,
        Stage::McpTools => if s.plugins.len() > 0 {
            Stage::PluginMcpTools(0)
        } else {
            Stage::LogFile
        },
        Stage::PluginMcpTools(i) => if i + 1 < s.plugins.len() {
            Stage::PluginMcpTools((i + 1) as usize)
        } else {
            Stage::LogFile
        },
        Stage::LogFile => Stage::StatusFile,
        Stage::StatusFile => Stage::Subagents,
        Stage::Subagents => Stage::Done,
        Stage::Done => Stage::Done,
        Stage::Failed => Stage::Failed,
    }
}

/// The plugin whose servers are asked for.
pub open spec fn current_plugin(s: SetupView) -> Seq<char> {
    match s.stage {
        Stage::PluginMcpTools(i) => if i < s.plugins.len() {
            s.plugins[i as int]
        } else {
            Seq::empty()
        },
        _ => Seq::empty(),
    }
}

/// What becomes of a session when it is told of a part: an event that tells of
/// another part than was asked for changes nothing; after a failure nothing is
/// asked for any more.
pub open spec fn setup_step(s: SetupView, e: SetupEventView) -> (
    SetupView,
    Result<Option<Seq<char>>, Seq<char>>,
) {
    if fits(s.stage, e) {
        let (t, r) = taken_in(s, e);
        (
            SetupView {
                stage: if r is Ok {
                    next_stage(s)
                } else {
                    Stage::Failed
                },
                ..t
            },
            r,
        )
    } else {
        (s, Ok(None))
    }
}

/// What becomes of a session with a part that was loaded: the session, and what
/// is said, or why the start ends.
pub open spec fn taken_in(s: SetupView, e: SetupEventView) -> (
    SetupView,
    Result<Option<Seq<char>>, Seq<char>>,
) {
    match e {
        SetupEventView::Plugins(Ok(names)) => (
            SetupView { plugins: names, ..s },
            Ok(
                match loaded_text(names.len(), " plugin(s) from .agent/plugins/: "@) {
                    Some(t) => Some(t + join(names, ", "@)),
                    None => None,
                },
            ),
        ),
        SetupEventView::Plugins(Err(e)) => (s, Err("failed to load plugins: "@ + e)),
        SetupEventView::Hooks { project, failure } => (
            s,
            match failure {
                Some(e) => Err("failed to load hooks: "@ + e),
                None => Ok(
                    if project {
                        Some("loaded hooks from .agent/"@)
                    } else {
                        None
                    },
                ),
            },
        ),
        SetupEventView::SearchKey(has) => (
            if has {
                SetupView { tools: s.tools.push("web_search"@), ..s }
            } else {
                s
            },
            Ok(None),
        ),
        SetupEventView::Skills(Ok(n)) => (
            if n > 0 {
                SetupView { tools: s.tools.push("skill"@), ..s }
            } else {
                s
            },
            Ok(loaded_text(n, " skill(s) from .agent/skills/ and plugins/"@)),
        ),
        SetupEventView::Skills(Err(e)) => (s, Err("failed to load skills: "@ + e)),
        SetupEventView::WasmTools(r) => tools_loaded(
            s,
            r,
            " wasm plugin tool(s) from .agent/tools/"@,
            "failed to load wasm plugins: "@,
        ),
        SetupEventView::McpTools(r) => tools_loaded(
            s,
            r,
            " mcp tool(s) from .agent/mcp.toml"@,
            "failed to load mcp servers: "@,
        ),
        SetupEventView::PluginMcpTools(r) => tools_loaded(
            s,
            r,
            " mcp tool(s) from plugin '"@ + current_plugin(s) + "'"@,
            "failed to load mcp servers for plugin '"@ + current_plugin(s) + "': "@,
        ),
        SetupEventView::LogFile(None) => (s, Ok(None)),
        SetupEventView::LogFile(Some(f)) => match f.failure {
            None => (SetupView { log: true, ..s }, Ok(Some("logging to "@ + f.path))),
            Some(e) => (s, Ok(Some("failed to open log file "@ + f.path + ": "@ + e))),
        },
        SetupEventView::StatusFile(None) => (s, Ok(None)),
        SetupEventView::StatusFile(Some(path)) => (
            SetupView { status: true, ..s },
            Ok(Some("writing status to "@ + path)),
        ),
        SetupEventView::Subagents(Ok(names)) => (
            SetupView {
                agents: with_agents(s.agents, names),
                tools: s.tools + agent_tools(),
                ..s
            },
            Ok(loaded_text(names.len(), " subagent(s) from .agent/agents/"@)),
        ),
        SetupEventView::Subagents(Err(e)) => (s, Err("failed to load subagents: "@ + e)),
    }
}

/// The view of what is said, or of why the start ends.
pub open spec fn reply_view(r: Result<Option<String>, String>) -> Result<
    Option<Seq<char>>,
    Seq<char>,
> {
    match r {
        Ok(n) => Ok(opt_view(n)),
        Err(e) => Err(e@),
    }
}

fn failed(what: &str, e: &String) -> (r: Result<Option<String>, String>)
    ensures
        reply_view(r) == Err::<Option<Seq<char>>, Seq<char>>(what@ + e@),
{
    let mut m = what.to_owned();
    m.append(e.as_str());
    Err(m)
}

fn loaded(n: usize, what: &str) -> (r: Option<String>)
    ensures
        opt_view(r) == loaded_text(n as nat, what@),
{
    if n == 0 {
        None
    } else {
        let mut m = "loaded ".to_owned();
        m.append(decimal_text(n as u64).as_str());
        m.append(what);
        Some(m)
    }
}

impl Setup {
    /// The session before anything is loaded.
    pub fn new(builtin_agents: &Vec<String>) -> (r: Setup)
        ensures
            r@ == at_start(views(builtin_agents@)),
    {
        let mut tools: Vec<String> = Vec::new();
        tools.push("read_file".to_owned());
        tools.push("write_file".to_owned());
        tools.push("edit_file".to_owned());
        tools.push("delete_file".to_owned());
        tools.push("bash".to_owned());
        tools.push("glob".to_owned());
        tools.push("grep".to_owned());
        tools.push("ls".to_owned());
        tools.push("git_diff".to_owned());
        tools.push("git_log".to_owned());
        tools.push("git_status".to_owned());
        tools.push("git_commit".to_owned());
        tools.push("web_fetch".to_owned());
        assert(views(tools@) =~= base_tools());
        let mut agents: Vec<AgentSlot> = Vec::new();
        let ghost wanted = builtin_slots(views(builtin_agents@));
        assert(wanted.take(0) =~= views(agents@));
        for i in 0..builtin_agents.len()
            invariant
                wanted == builtin_slots(views(builtin_agents@)),
                views(agents@) == wanted.take(i as int),
        {
            agents.push(AgentSlot { name: builtin_agents[i].clone(), found: None });
            assert(wanted.take(i + 1) =~= wanted.take(i as int).push(wanted[i as int]));
        }
        assert(wanted.take(wanted.len() as int) == wanted);
        Setup {
            stage: Stage::Plugins,
            plugins: Vec::new(),
            tools,
            agents,
            log: false,
            status: false,
        }
    }

    /// The plugin whose servers are asked for.
    pub fn plugin(&self) -> (r: String)
        ensures
            r@ == current_plugin(self@),
    {
        match self.stage {
            Stage::PluginMcpTools(i) => if i < self.plugins.len() {
                self.plugins[i].clone()
            } else {
                String::new()
            },
            _ => String::new(),
        }
    }

    fn following(&self) -> (r: Stage)
        ensures
            r == next_stage(self@),
    {
        match self.stage {
            Stage::Plugins => Stage::Hooks,
            Stage::Hooks => Stage::SearchKey,
            Stage::SearchKey => Stage::Skills,
            Stage::Skills => Stage::WasmTools,
            Stage::WasmTools => Stage::McpTools,
            Stage::McpTools => if self.plugins.len() > 0 {
                Stage::PluginMcpTools(0)
            } else {
                Stage::LogFile
            },
            Stage::PluginMcpTools(i) => if i < self.plugins.len() && i + 1 < self.plugins.len() {
                Stage::PluginMcpTools(i + 1)
            } else {
                Stage::LogFile
            },
            Stage::LogFile => Stage::StatusFile,
            Stage::StatusFile => Stage::Subagents,
            Stage::Subagents => Stage::Done,
            Stage::Done => Stage::Done,
            Stage::Failed => Stage::Failed,
        }
    }

    fn asked_for(&self, event: &SetupEvent) -> (r: bool)
        ensures
            r == fits(self@.stage, event@),
    {
        match (self.stage, event) {
            (Stage::Plugins, SetupEvent::Plugins(_)) => true,
            (Stage::Hooks, SetupEvent::Hooks { .. }) => true,
            (Stage::SearchKey, SetupEvent::SearchKey(_)) => true,
            (Stage::Skills, SetupEvent::Skills(_)) => true,
            (Stage::WasmTools, SetupEvent::WasmTools(_)) => true,
            (Stage::McpTools, SetupEvent::McpTools(_)) => true,
            (Stage::PluginMcpTools(_), SetupEvent::PluginMcpTools(_)) => true,
            (Stage::LogFile, SetupEvent::LogFile(_)) => true,
            (Stage::StatusFile, SetupEvent::StatusFile(_)) => true,
            (Stage::Subagents, SetupEvent::Subagents(_)) => true,
            _ => false,
        }
    }

    fn find_agent(&self, name: &str) -> (r: Option<usize>)
        ensures
            match r {
                Some(i) => i < self.agents@.len() && slot_at(self@.agents, name@, 0) == Some(
                    i as int,
                ),
                None => slot_at(self@.agents, name@, 0) is None,
            },
    {
        let ghost all = views(self.agents@);
        let n: usize = self.agents.len();
        let mut i: usize = 0;
        while i < n
            invariant
                n == self.agents@.len(),
                i <= n,
                all == views(self.agents@),
                slot_at(all, name@, 0) == slot_at(all, name@, i as int),
            decreases n - i,
        {
            if same(self.agents[i].name.as_str(), name) {
                assert(all[i as int].name == name@);
                return Some(i);
            }
            assert(all[i as int].name != name@);
            i += 1;
        }
        None
    }

    fn add_agents(&mut self, names: &Vec<String>)
        ensures
            final(self)@ == (SetupView {
                agents: with_agents(old(self)@.agents, views(names@)),
                ..old(self)@
            }),
    {
        let ghost all = views(names@);
        let ghost before = self@;
        assert(all.take(0) =~= Seq::empty());
        for i in 0..names.len()
            invariant
                all == views(names@),
                self@ == (SetupView {
                    agents: with_agents(before.agents, all.take(i as int)),
                    ..before
                }),
        {
            assert(all.take(i + 1).drop_last() == all.take(i as int));
            let slot = AgentSlot { name: names[i].clone(), found: Some(i) };
            match self.find_agent(names[i].as_str()) {
                Some(k) => {
                    self.agents[k] = slot;
                },
                None => {
                    self.agents.push(slot);
                },
            }
        }
        assert(all.take(all.len() as int) == all);
    }

    fn add_tools(
        &mut self,
        result: Result<Vec<String>, String>,
        what: &str,
        failure: &str,
    ) -> (r: Result<Option<String>, String>)
        ensures
            (final(self)@, reply_view(r)) == tools_loaded(
                old(self)@,
                names_view(result),
                what@,
                failure@,
            ),
    {
        match result {
            Ok(names) => {
                let mut names = names;
                let n: usize = names.len();
                self.tools.append(&mut names);
                Ok(loaded(n, what))
            },
            Err(e) => failed(failure, &e),
        }
    }

    /// Takes in what came of loading a part. Gives what is said, or why the
    /// start ends.
    pub fn on(&mut self, event: SetupEvent) -> (r: Result<Option<String>, String>)
        ensures
            (final(self)@, reply_view(r)) == setup_step(old(self)@, event@),
    {
        if !self.asked_for(&event) {
            return Ok(None);
        }
        let next = self.following();
        let r = self.take_in(event);
        self.stage = match r {
            Ok(_) => next,
            Err(_) => Stage::Failed,
        };
        r
    }

    fn take_in(&mut self, event: SetupEvent) -> (r: Result<Option<String>, String>)
        ensures
            (final(self)@, reply_view(r)) == taken_in(old(self)@, event@),
    {
        match event {
            SetupEvent::Plugins(Ok(names)) => {
                let said = match loaded(names.len(), " plugin(s) from .agent/plugins/: ") {
                    Some(t) => {
                        let mut t = t;
                        t.append(joined(&names, ", ").as_str());
                        Some(t)
                    },
                    None => None,
                };
                self.plugins = names;
                Ok(said)
            },
            SetupEvent::Plugins(Err(e)) => failed("failed to load plugins: ", &e),
            SetupEvent::Hooks { project, result } => match result {
                Err(e) => failed("failed to load hooks: ", &e),
                Ok(_) => {
                    if project {
                        Ok(Some("loaded hooks from .agent/".to_owned()))
                    } else {
                        Ok(None)
                    }
                },
            },
            SetupEvent::SearchKey(has) => {
                if has {
                    self.tools.push("web_search".to_owned());
                }
                Ok(None)
            },
            SetupEvent::Skills(Ok(n)) => {
                if n > 0 {
                    self.tools.push("skill".to_owned());
                }
                Ok(loaded(n, " skill(s) from .agent/skills/ and plugins/"))
            },
            SetupEvent::Skills(Err(e)) => failed("failed to load skills: ", &e),
            SetupEvent::WasmTools(result) => self.add_tools(
                result,
                " wasm plugin tool(s) from .agent/tools/",
                "failed to load wasm plugins: ",
            ),
            SetupEvent::McpTools(result) => self.add_tools(
                result,
                " mcp tool(s) from .agent/mcp.toml",
                "failed to load mcp servers: ",
            ),
            SetupEvent::PluginMcpTools(result) => {
                let plugin = self.plugin();
                let mut what = " mcp tool(s) from plugin '".to_owned();
                what.append(plugin.as_str());
                what.append("'");
                let mut failure = "failed to load mcp servers for plugin '".to_owned();
                failure.append(plugin.as_str());
                failure.append("': ");
                self.add_tools(result, what.as_str(), failure.as_str())
            },
            SetupEvent::LogFile(None) => Ok(None),
            SetupEvent::LogFile(Some(f)) => match f.result {
                Ok(_) => {
                    self.log = true;
                    let mut m = "logging to ".to_owned();
                    m.append(f.path.as_str());
                    Ok(Some(m))
                },
                Err(e) => {
                    let mut m = "failed to open log file ".to_owned();
                    m.append(f.path.as_str());
                    m.append(": ");
                    m.append(e.as_str());
                    Ok(Some(m))
                },
            },
            SetupEvent::StatusFile(None) => Ok(None),
            SetupEvent::StatusFile(Some(path)) => {
                self.status = true;
                let mut m = "writing status to ".to_owned();
                m.append(path.as_str());
                Ok(Some(m))
            },
            SetupEvent::Subagents(Ok(names)) => {
                self.add_agents(&names);
                let ghost before = views(self.tools@);
                self.tools.push("agent".to_owned());
                self.tools.push("todo_write".to_owned());
                self.tools.push("list_agents".to_owned());
                self.tools.push("agent_output".to_owned());
                self.tools.push("agent_stop".to_owned());
                assert(views(self.tools@) =~= before + agent_tools());
                Ok(loaded(names.len(), " subagent(s) from .agent/agents/"))
            },
            SetupEvent::Subagents(Err(e)) => failed("failed to load subagents: ", &e),
        }
    }

    /// Whether more than the display is told of the progress.
    pub fn has_several_reporters(&self) -> (r: bool)
        ensures
            r == (self@.log || self@.status),
    {
        self.log || self.status
    }
}

/// No two agents have the same name.
pub open spec fn distinct_names(slots: Seq<SlotView>) -> bool {
    forall|i: int, j: int|
        0 <= i < j < slots.len() ==> (#[trigger] slots[i]).name != (#[trigger] slots[j]).name
}

/// The agents that count: the last of the project's agents with each name, and
/// those that were there whose names none of them has.
pub open spec fn is_counted(slots: Seq<SlotView>, names: Seq<Seq<char>>, slot: SlotView) -> bool {
    if names.contains(slot.name) {
        slot.found matches Some(f) && f < names.len() && names[f as int] == slot.name && forall|
            i: int,
        |
            f < i < names.len() ==> #[trigger] names[i] != slot.name
    } else {
        slots.contains(slot)
    }
}

proof fn lemma_slot_at(slots: Seq<SlotView>, name: Seq<char>, i: int)
    requires
        0 <= i <= slots.len(),
    ensures
        match slot_at(slots, name, i) {
            Some(k) => i <= k < slots.len() && slots[k].name == name,
            None => forall|k: int| i <= k < slots.len() ==> (#[trigger] slots[k]).name != name,
        },
    decreases slots.len() - i,
{
    if i < slots.len() && slots[i].name != name {
        lemma_slot_at(slots, name, i + 1);
    }
}

/// An agent of the project replaces the built-in one of its name: names stay
/// distinct, each agent of the project is there, unless a later one has its
/// name, the built-in ones of other names are there as before, and there is no
/// other agent.
pub proof fn law_project_agents_override(slots: Seq<SlotView>, names: Seq<Seq<char>>)
    requires
        distinct_names(slots),
    ensures
        distinct_names(with_agents(slots, names)),
        forall|slot: SlotView|
            with_agents(slots, names).contains(slot) <==> is_counted(slots, names, slot),
    decreases names.len(),
{
    if names.len() > 0 {
        let front = names.drop_last();
        let name = names.last();
        let new = SlotView { name, found: Some((names.len() - 1) as nat) };
        law_project_agents_override(slots, front);
        let before = with_agents(slots, front);
        let after = with_agents(slots, names);
        lemma_slot_at(before, name, 0);
        assert(names[names.len() - 1] == name);
        let at: int = match slot_at(before, name, 0) {
            Some(k) => k,
            None => before.len() as int,
        };
        assert(after[at] == new);
        assert forall|k: int| 0 <= k < after.len() && k != at implies after[k] == before[k]
            && before[k].name != name by {}
        assert forall|slot: SlotView| after.contains(slot) <==> is_counted(
            slots,
            names,
            slot,
        ) by {
            if slot.name == name {
                if after.contains(slot) {
                    let k = choose|k: int| 0 <= k < after.len() && after[k] == slot;
                    assert(k == at);
                }
            } else {
                if after.contains(slot) {
                    let k = choose|k: int| 0 <= k < after.len() && after[k] == slot;
                    assert(before[k] == slot);
                }
                if before.contains(slot) {
                    let k = choose|k: int| 0 <= k < before.len() && before[k] == slot;
                    assert(after[k] == slot);
                }
                assert(after.contains(slot) <==> before.contains(slot));
                assert(is_counted(slots, front, slot) <==> is_counted(slots, names, slot)) by {
                    assert forall|i: int| 0 <= i < front.len() implies front[i] == names[i] by {}
                    if names.contains(slot.name) {
                        let k = choose|k: int| 0 <= k < names.len() && names[k] == slot.name;
                        assert(front[k] == slot.name);
                    }
                    if front.contains(slot.name) {
                        let k = choose|k: int| 0 <= k < front.len() && front[k] == slot.name;
                        assert(names[k] == slot.name);
                    }
                }
            }
        }
    }
}

// ---------------------------------------------------------------------------
// A start as a whole
// ---------------------------------------------------------------------------

/// The session after it was told of parts, one after the other.
pub open spec fn told(s: SetupView, es: Seq<SetupEventView>) -> SetupView
    decreases es.len(),
{
    if es.len() == 0 {
        s
    } else {
        setup_step(told(s, es.drop_last()), es.last()).0
    }
}

/// Whether each part was the one that was asked for, and none failed.
pub open spec fn goes_well(s: SetupView, es: Seq<SetupEventView>) -> bool
    decreases es.len(),
{
    es.len() == 0 || (goes_well(s, es.drop_last()) && fits(
        told(s, es.drop_last()).stage,
        es.last(),
    ) && setup_step(told(s, es.drop_last()), es.last()).1 is Ok)
}

/// The tools that a part brings.
pub open spec fn brought(e: SetupEventView) -> Seq<Seq<char>> {
    match e {
        SetupEventView::SearchKey(true) => seq!["web_search"@],
        SetupEventView::Skills(Ok(n)) => if n > 0 {
            seq!["skill"@]
        } else {
            Seq::empty()
        },
        SetupEventView::WasmTools(Ok(names)) => names,
        SetupEventView::McpTools(Ok(names)) => names,
        SetupEventView::PluginMcpTools(Ok(names)) => names,
        SetupEventView::Subagents(Ok(_)) => agent_tools(),
        _ => Seq::empty(),
    }
}

/// The tools that parts bring, in their order.
pub open spec fn all_brought(es: Seq<SetupEventView>) -> Seq<Seq<char>>
    decreases es.len(),
{
    if es.len() == 0 {
        Seq::empty()
    } else {
        all_brought(es.drop_last()) + brought(es.last())
    }
}

/// The tools of a session are those that every session has, and behind them
/// what the parts bring, in the order in which they are asked for.
pub proof fn law_tools_in_loading_order(builtin: Seq<Seq<char>>, es: Seq<SetupEventView>)
    requires
        goes_well(at_start(builtin), es),
    ensures
        told(at_start(builtin), es).tools == base_tools() + all_brought(es),
    decreases es.len(),
{
    let s = at_start(builtin);
    if es.len() == 0 {
        assert(base_tools() + all_brought(es) =~= base_tools());
    } else {
        law_tools_in_loading_order(builtin, es.drop_last());
        let before = told(s, es.drop_last());
        assert(before.tools + brought(es.last()) =~= base_tools() + all_brought(es));
        match es.last() {
            SetupEventView::SearchKey(true) => {
                assert(before.tools.push("web_search"@) =~= before.tools + seq!["web_search"@]);
            },
            SetupEventView::Skills(Ok(n)) => {
                assert(before.tools.push("skill"@) =~= before.tools + seq!["skill"@]);
                assert(before.tools =~= before.tools + Seq::empty());
            },
            _ => {
                assert(before.tools =~= before.tools + Seq::empty());
            },
        }
    }
}

/// The number of a stage in the order of loading; the servers of all plugins
/// stand for one.
pub open spec fn rank(stage: Stage) -> int {
    match stage {
        Stage::Plugins => 0,
        Stage::Hooks => 1,
        Stage::SearchKey => 2,
        Stage::Skills => 3,
        Stage::WasmTools => 4,
        Stage::McpTools => 5,
        Stage::PluginMcpTools(_) => 6,
        Stage::LogFile => 7,
        Stage::StatusFile => 8,
        Stage::Subagents => 9,
        Stage::Done => 10,
        Stage::Failed => 11,
    }
}

/// What was passed is never asked for again, and a start that failed stays
/// that way: whatever it is told changes nothing.
pub proof fn law_setup_goes_forward(s: SetupView, e: SetupEventView)
    ensures
        rank(s.stage) <= rank(setup_step(s, e).0.stage),
        setup_step(s, e).1 is Err <==> setup_step(s, e).0.stage == Stage::Failed && s.stage
            != Stage::Failed,
        s.stage == Stage::Failed || s.stage == Stage::Done ==> setup_step(s, e).0 == s,
{
}

/// A tool without a key for it is never offered.
pub proof fn law_no_search_without_key(s: SetupView)
    ensures
        setup_step(s, SetupEventView::SearchKey(false)).0.tools == s.tools,
{
}

} // verus!
