//! The tool that writes a file.
use vstd::prelude::*;

use crate::json::{entry, group_pairs, number_tree, pairs, Json, JsonTree};
use crate::message::{OutcomeView, ToolExecOutcome};
use crate::model::{group_views, views};
use crate::suggest::byte_len;
use crate::text::{decimal, decimal_text};
use crate::tool::{property, property_tree, schema, schema_tree};

verus! {

broadcast use {group_pairs, group_views};

/// The tool that writes a file.
pub struct WriteFileTool;

/// What is told of a file that was written.
pub open spec fn write_outcome(path: Seq<char>, bytes: usize) -> OutcomeView {
    OutcomeView {
        content: "wrote "@ + decimal(bytes as nat) + " bytes to "@ + path,
        is_error: false,
        metadata: JsonTree::Object(seq![("bytes_written"@, number_tree(bytes as u64))]),
    }
}

/// The arguments of the tool.
pub open spec fn write_properties() -> Seq<(Seq<char>, JsonTree)> {
    seq![
        (
            "path"@,
            property_tree(
                "string"@,
                "File path, absolute or relative to the working directory"@,
            ),
        ),
        ("content"@, property_tree("string"@, "Full file content to write"@)),
    ]
}

impl WriteFileTool {
    /// The name of the tool.
    pub fn name(&self) -> (r: &'static str)
        ensures
            r@ == "write_file"@,
    {
        "write_file"
    }

    /// What the tool does.
    pub fn description(&self) -> (r: &'static str)
        ensures
            r@
                == "Creates or overwrites a file with the given content, creating parent directories as needed."@,
    {
        "Creates or overwrites a file with the given content, creating parent directories as needed."
    }

    /// The arguments of the tool.
    pub fn parameters_schema(&self) -> (r: Json)
        ensures
            r@ == schema_tree(
                write_properties(),
                seq!["path"@, "content"@],
            ),
    {
        let mut m: Vec<(String, Json)> = Vec::new();
        m.push(
            property("path", "string", "File path, absolute or relative to the working directory"),
        );
        m.push(property("content", "string", "Full file content to write"));
        let mut required: Vec<String> = Vec::new();
        required.push("path".to_owned());
        required.push("content".to_owned());
        assert(views(required@) =~= seq!["path"@, "content"@]);
        assert(pairs(m@) =~= write_properties());
        schema(m, &required)
    }

    /// What is told of a file that was written.
    pub fn outcome(&self, path: &str, content: &str) -> (r: ToolExecOutcome)
        ensures
            r@ == write_outcome(path@, byte_len(content@)),
    {
        let n: usize = content.len();
        let mut text = "wrote ".to_owned();
        text.append(decimal_text(n as u64).as_str());
        text.append(" bytes to ");
        text.append(path);
        let mut m: Vec<(String, Json)> = Vec::new();
        m.push(entry("bytes_written", Json::number(n as u64)));
        let metadata = Json::object(m);
        assert(metadata@->Object_0 =~= write_outcome(path@, n).metadata->Object_0);
        ToolExecOutcome { content: text, is_error: false, metadata }
    }
}

} // verus!
