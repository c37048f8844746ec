//! The tool that finds files by a pattern.
use vstd::prelude::*;

use crate::json::{entry, group_pairs, number_tree, Json, JsonTree};
use crate::message::{OutcomeView, ToolExecOutcome};
use crate::model::{group_views, views};
use crate::order::{in_order, sort_texts};
use crate::text::{join, joined};
use crate::tool::{property, property_tree, schema, schema_tree};

verus! {

broadcast use {group_pairs, group_views};

/// The tool that finds files by a pattern.
pub struct GlobTool;

/// What is told of the paths that match.
pub open spec fn glob_outcome(found: Seq<Seq<char>>) -> OutcomeView {
    OutcomeView {
        content: if found.len() == 0 {
            "no matches"@
        } else {
            join(in_order(found, false), "\n"@)
        },
        is_error: false,
        metadata: JsonTree::Object(seq![("count"@, number_tree(found.len() as u64))]),
    }
}

impl GlobTool {
    /// The name of the tool.
    pub fn name(&self) -> (r: &'static str)
        ensures
            r@ == "glob"@,
    {
        "glob"
    }

    /// What the tool does.
    pub fn description(&self) -> (r: &'static str)
        ensures
            r@
                == "Finds files matching a glob pattern (e.g. \"**/*.rs\"), relative to the working directory."@,
    {
        "Finds files matching a glob pattern (e.g. \"**/*.rs\"), relative to the working directory."
    }

    /// The arguments of the tool.
    pub fn parameters_schema(&self) -> (r: Json)
        ensures
            r@ == schema_tree(
                seq![
                    (
                        "pattern"@,
                        property_tree("string"@, "Glob pattern, e.g. \"src/**/*.rs\""@),
                    ),
                ],
                seq!["pattern"@],
            ),
    {
        let mut m: Vec<(String, Json)> = Vec::new();
        m.push(property("pattern", "string", "Glob pattern, e.g. \"src/**/*.rs\""));
        let mut required: Vec<String> = Vec::new();
        required.push("pattern".to_owned());
        assert(views(required@) =~= seq!["pattern"@]);
        schema(m, &required)
    }

    /// What is told of the paths that match, relative to the working directory.
    pub fn outcome(&self, found: Vec<String>) -> (r: ToolExecOutcome)
        ensures
            r@ == glob_outcome(views(found@)),
    {
        let n: usize = found.len();
        let mut m: Vec<(String, Json)> = Vec::new();
        m.push(entry("count", Json::number(n as u64)));
        let metadata = Json::object(m);
        assert(metadata@->Object_0 =~= glob_outcome(views(found@)).metadata->Object_0);
        let content = if n == 0 {
            "no matches".to_owned()
        } else {
            joined(&sort_texts(found, false), "\n")
        };
        ToolExecOutcome { content, is_error: false, metadata }
    }
}

} // verus!
