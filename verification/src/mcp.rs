//! Tools that servers offer.
use vstd::prelude::*;

use crate::json::{Json, JsonTree};
use crate::manifest::{manifest_error_text, ManifestError};
use crate::message::{OutcomeView, ToolExecOutcome, ToolSpec, ToolSpecView};
use crate::model::{group_views, opt_view, views};
use crate::text::{join, joined, starts_with};
use crate::tool::{error, failure};

verus! {

broadcast use group_views;

/// A server to be started.
pub struct ServerConfig {
    pub name: String,
    pub command: String,
    pub args: Vec<String>,
    /// Variables of its environment, with their values.
    pub env: Vec<(String, String)>,
}

/// The servers of a project.
pub struct Manifest {
    pub servers: Vec<ServerConfig>,
}

impl Default for Manifest {
    /// No servers.
    fn default() -> (r: Manifest)
        ensures
            r.servers@.len() == 0,
    {
        Manifest { servers: Vec::new() }
    }
}

/// Where the start of the servers failed.
pub enum McpToolError {
    /// The servers are not known.
    Manifest(ManifestError),
    /// The command could not be started.
    Spawn { name: String, command: String, reason: String },
    /// The server did not come up.
    Initialize { name: String, reason: String },
    /// The server did not tell its tools.
    ListTools { name: String, reason: String },
}

/// The message of an error.
pub open spec fn mcp_error_text(e: McpToolError) -> Seq<char> {
    match e {
        McpToolError::Manifest(m) => manifest_error_text(m),
        McpToolError::Spawn { name, command, reason } => "mcp server \""@ + name@
            + "\" failed to start `"@ + command@ + "`: "@ + reason@,
        McpToolError::Initialize { name, reason } => "mcp server \""@ + name@
            + "\" failed to initialize: "@ + reason@,
        McpToolError::ListTools { name, reason } => "mcp server \""@ + name@
            + "\" failed to list tools: "@ + reason@,
    }
}

impl McpToolError {
    /// The message of the error.
    pub fn message(&self) -> (r: String)
        ensures
            r@ == mcp_error_text(*self),
    {
        let mut r = "mcp server \"".to_owned();
        match self {
            McpToolError::Manifest(m) => {
                return m.message();
            },
            McpToolError::Spawn { name, command, reason } => {
                r.append(name.as_str());
                r.append("\" failed to start `");
                r.append(command.as_str());
                r.append("`: ");
                r.append(reason.as_str());
            },
            McpToolError::Initialize { name, reason } => {
                r.append(name.as_str());
                r.append("\" failed to initialize: ");
                r.append(reason.as_str());
            },
            McpToolError::ListTools { name, reason } => {
                r.append(name.as_str());
                r.append("\" failed to list tools: ");
                r.append(reason.as_str());
            },
        }
        r
    }
}

/// A tool as its server describes it.
pub struct RemoteTool {
    pub name: String,
    pub description: Option<String>,
    pub input_schema: Json,
}

#[verifier::ext_equal]
pub struct RemoteToolView {
    pub name: Seq<char>,
    pub description: Option<Seq<char>>,
    pub input_schema: JsonTree,
}

impl View for RemoteTool {
    type V = RemoteToolView;

    open spec fn view(&self) -> RemoteToolView {
        RemoteToolView {
            name: self.name@,
            description: opt_view(self.description),
            input_schema: self.input_schema@,
        }
    }
}

/// The name of a server's tool, which tells tools of different servers apart.
pub open spec fn qualified(server: Seq<char>, tool: Seq<char>) -> Seq<char> {
    "mcp__"@ + server + "__"@ + tool
}

/// A server's tool as it is offered.
pub open spec fn offered(server: Seq<char>, t: RemoteToolView) -> ToolSpecView {
    ToolSpecView {
        name: qualified(server, t.name),
        description: match t.description {
            Some(d) => d,
            None => Seq::empty(),
        },
        parameters: t.input_schema,
    }
}

/// The tools of a server as they are offered.
pub open spec fn all_offered(server: Seq<char>, tools: Seq<RemoteToolView>) -> Seq<ToolSpecView> {
    Seq::new(tools.len(), |i: int| offered(server, tools[i]))
}

/// The tools of a server as they are offered.
pub fn server_tools(server: &str, tools: &Vec<RemoteTool>) -> (r: Vec<ToolSpec>)
    ensures
        views(r@) == all_offered(server@, views(tools@)),
{
    let ghost wanted = all_offered(server@, views(tools@));
    let mut r: Vec<ToolSpec> = Vec::new();
    assert(wanted.take(0) =~= views(r@));
    for i in 0..tools.len()
        invariant
            wanted == all_offered(server@, views(tools@)),
            views(r@) == wanted.take(i as int),
    {
        let tool = &tools[i];
        let mut name = "mcp__".to_owned();
        name.append(server);
        name.append("__");
        name.append(tool.name.as_str());
        let description = match &tool.description {
            Some(d) => d.clone(),
            None => String::new(),
        };
        let offer = ToolSpec { name, description, parameters: tool.input_schema.copy() };
        assert(offer@ == wanted[i as int]);
        r.push(offer);
        assert(wanted.take(i + 1) =~= wanted.take(i as int).push(wanted[i as int]));
    }
    assert(wanted.take(wanted.len() as int) == wanted);
    r
}

/// What a call of a server's tool gave.
pub enum CallEnd {
    /// The texts of the answer; without a word on it, it is no error.
    Answer { texts: Vec<String>, is_error: Option<bool> },
    /// The call failed.
    Failed(String),
}

/// The outcome of a call.
pub open spec fn call_outcome(remote_name: Seq<char>, end: CallEnd) -> OutcomeView {
    match end {
        CallEnd::Answer { texts, is_error } => OutcomeView {
            content: join(views(texts@), "\n"@),
            is_error: is_error == Some(true),
            metadata: JsonTree::Null,
        },
        CallEnd::Failed(e) => failure("mcp call to \""@ + remote_name + "\" failed: "@ + e@),
    }
}

/// The outcome of a call.
pub fn outcome_of_call(remote_name: &str, end: &CallEnd) -> (r: ToolExecOutcome)
    ensures
        r@ == call_outcome(remote_name@, *end),
{
    match end {
        CallEnd::Answer { texts, is_error } => ToolExecOutcome {
            content: joined(texts, "\n"),
            is_error: match is_error {
                Some(b) => *b,
                None => false,
            },
            metadata: Json::Null,
        },
        CallEnd::Failed(e) => {
            let mut m = "mcp call to \"".to_owned();
            m.append(remote_name);
            m.append("\" failed: ");
            m.append(e.as_str());
            error(m)
        },
    }
}

/// Tools of one server have different names where the server tells them apart.
pub proof fn law_tools_of_a_server_stay_apart(server: Seq<char>, a: Seq<char>, b: Seq<char>)
    requires
        a != b,
    ensures
        qualified(server, a) != qualified(server, b),
{
    let p = "mcp__"@ + server + "__"@;
    if qualified(server, a) == qualified(server, b) {
        assert(a =~= (p + a).skip(p.len() as int));
        assert(b =~= (p + b).skip(p.len() as int));
    }
}

/// Whether a server's name goes on from another one in such a way that tools of
/// the two can have the same name.
pub open spec fn runs_into(server: Seq<char>, other: Seq<char>) -> bool {
    other == server + "_"@ || starts_with(other, server + "__"@)
}

proof fn lemma_shorter_server(s: Seq<char>, a: Seq<char>, t: Seq<char>, b: Seq<char>)
    requires
        s.len() < t.len(),
        qualified(s, a) == qualified(t, b),
    ensures
        runs_into(s, t),
{
    reveal_strlit("_");
    reveal_strlit("__");
    reveal_strlit("mcp__");
    let left = qualified(s, a);
    let right = qualified(t, b);
    let n = s.len() as int;
    assert forall|i: int| 0 <= i < n implies t[i] == s[i] by {
        assert(left[5 + i] == s[i]);
        assert(right[5 + i] == t[i]);
    }
    assert(left[5 + n] == '_' && left[6 + n] == '_');
    assert(right[5 + n] == t[n]);
    if t.len() == n + 1 {
        assert(t =~= s + "_"@);
    } else {
        assert(right[6 + n] == t[n + 1]);
        assert(t.subrange(0, n + 2) =~= s + "__"@);
    }
}

/// Tools of different servers have different names, unless the name of one
/// server is that of the other followed by one underscore, or by two and more.
pub proof fn law_tools_of_servers_stay_apart(
    s: Seq<char>,
    a: Seq<char>,
    t: Seq<char>,
    b: Seq<char>,
)
    requires
        s != t,
        !runs_into(s, t),
        !runs_into(t, s),
    ensures
        qualified(s, a) != qualified(t, b),
{
    if qualified(s, a) == qualified(t, b) {
        if s.len() < t.len() {
            lemma_shorter_server(s, a, t, b);
        } else if t.len() < s.len() {
            lemma_shorter_server(t, b, s, a);
        } else {
            reveal_strlit("mcp__");
            assert forall|i: int| 0 <= i < s.len() implies s[i] == t[i] by {
                assert(qualified(s, a)[5 + i] == s[i]);
                assert(qualified(t, b)[5 + i] == t[i]);
            }
            assert(s =~= t);
        }
    }
}

} // verus!
