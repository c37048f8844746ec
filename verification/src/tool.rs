//! What tools have in common.
use vstd::prelude::*;

use crate::json::{
    entry, group_pairs, pairs, text_array, text_value, Json, JsonTree,
};
use crate::message::{OutcomeView, ToolExecOutcome};
use crate::model::{group_views, views};

verus! {

broadcast use {group_pairs, group_views};

/// The outcome of a tool that could not do its work.
pub open spec fn failure(message: Seq<char>) -> OutcomeView {
    OutcomeView { content: message, is_error: true, metadata: JsonTree::Null }
}

/// The outcome of a tool that could not do its work.
pub fn error(message: String) -> (r: ToolExecOutcome)
    ensures
        r@ == failure(message@),
{
    ToolExecOutcome { content: message, is_error: true, metadata: Json::Null }
}

/// What a tool says where its arguments are wrong.
pub fn invalid_arguments(reason: &str) -> (r: ToolExecOutcome)
    ensures
        r@ == failure("invalid arguments: "@ + reason@),
{
    let mut m = "invalid arguments: ".to_owned();
    m.append(reason);
    error(m)
}

/// What a tool says where something with a file failed.
pub fn failed_on(what: &str, path: &str, reason: &str) -> (r: ToolExecOutcome)
    ensures
        r@ == failure("failed to "@ + what@ + " "@ + path@ + ": "@ + reason@),
{
    let mut m = "failed to ".to_owned();
    m.append(what);
    m.append(" ");
    m.append(path);
    m.append(": ");
    m.append(reason);
    error(m)
}

/// The schema of an argument.
pub open spec fn property_tree(kind: Seq<char>, description: Seq<char>) -> JsonTree {
    JsonTree::Object(
        seq![("type"@, JsonTree::Str(kind)), ("description"@, JsonTree::Str(description))],
    )
}

/// The schema of an argument, under its name.
pub fn property(name: &str, kind: &str, description: &str) -> (r: (String, Json))
    ensures
        r.0@ == name@,
        r.1@ == property_tree(kind@, description@),
{
    let mut m: Vec<(String, Json)> = Vec::new();
    m.push(entry("type", text_value(kind)));
    m.push(entry("description", text_value(description)));
    let r = Json::object(m);
    assert(r@->Object_0 =~= property_tree(kind@, description@)->Object_0);
    entry(name, r)
}

/// The schema of arguments.
pub open spec fn schema_tree(
    properties: Seq<(Seq<char>, JsonTree)>,
    required: Seq<Seq<char>>,
) -> JsonTree {
    let head = seq![
        ("type"@, JsonTree::Str("object"@)),
        ("properties"@, JsonTree::Object(properties)),
    ];
    JsonTree::Object(
        if required.len() == 0 {
            head
        } else {
            head.push(("required"@, text_array(required)))
        },
    )
}

/// The schema of arguments.
pub fn schema(properties: Vec<(String, Json)>, required: &Vec<String>) -> (r: Json)
    ensures
        r@ == schema_tree(pairs(properties@), views(required@)),
{
    let mut m: Vec<(String, Json)> = Vec::new();
    m.push(entry("type", text_value("object")));
    m.push(entry("properties", Json::object(properties)));
    if required.len() > 0 {
        m.push(entry("required", Json::texts(required)));
    }
    let r = Json::object(m);
    assert(r@->Object_0 =~= schema_tree(pairs(properties@), views(required@))->Object_0);
    r
}

} // verus!
