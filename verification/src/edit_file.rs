//! The tool that replaces text in a file.
use vstd::prelude::*;

use crate::diff::{count_of, diff_files, line_changes, unified_diff, LineChange, CONTEXT_LINES};
use crate::json::{entry, group_pairs, number_tree, pairs, text_value, Json, JsonTree};
use crate::message::{OutcomeView, ToolExecOutcome};
use crate::model::{group_views, views};
use crate::replace::{count_occurrences, occurrences, replace_first, replaced};
use crate::text::{decimal, decimal_text};
use crate::tool::{error, failure, property, property_tree, schema, schema_tree};

verus! {

broadcast use {group_pairs, group_views};

/// The tool that replaces text in a file.
pub struct EditFileTool;

/// What an edit comes to before anything is written.
pub enum EditPlan {
    /// This is to be written.
    Write { content: String, occurrences: usize },
    /// This is the outcome.
    Refuse(ToolExecOutcome),
}

#[verifier::ext_equal]
pub enum EditPlanView {
    Write { content: Seq<char>, occurrences: nat },
    Refuse(OutcomeView),
}

impl View for EditPlan {
    type V = EditPlanView;

    open spec fn view(&self) -> EditPlanView {
        match self {
            EditPlan::Write { content, occurrences } => EditPlanView::Write {
                content: content@,
                occurrences: *occurrences as nat,
            },
            EditPlan::Refuse(o) => EditPlanView::Refuse(o@),
        }
    }
}

/// What an edit of a file with this content comes to: the text must be there,
/// and only once unless all occurrences are meant.
pub open spec fn edit_plan(
    path: Seq<char>,
    content: Seq<char>,
    from: Seq<char>,
    to: Seq<char>,
    replace_all: bool,
) -> EditPlanView {
    let n = occurrences(content, from);
    if n == 0 {
        EditPlanView::Refuse(failure("old_string not found in "@ + path))
    } else if n > 1 && !replace_all {
        EditPlanView::Refuse(
            failure(
                "old_string matches "@ + decimal(n) + " times in "@ + path
                    + " -- pass replace_all: true, or narrow old_string to a unique match"@,
            ),
        )
    } else {
        EditPlanView::Write {
            content: replaced(
                content,
                from,
                to,
                if replace_all {
                    n
                } else {
                    1
                },
            ),
            occurrences: n,
        }
    }
}

/// What is told of an edit that was written.
pub open spec fn edit_outcome(
    path: Seq<char>,
    label: Seq<char>,
    n: usize,
    before: Seq<char>,
    after: Seq<char>,
) -> OutcomeView {
    OutcomeView {
        content: "replaced "@ + decimal(n as nat) + " occurrence(s) in "@ + path,
        is_error: false,
        metadata: JsonTree::Object(
            seq![
                ("occurrences"@, number_tree(n as u64)),
                (
                    "diff"@,
                    JsonTree::Str(
                        unified_diff(
                            before,
                            after,
                            CONTEXT_LINES,
                            "a/"@ + label,
                            "b/"@ + label,
                        ),
                    ),
                ),
                (
                    "additions"@,
                    number_tree(count_of(line_changes(before, after), LineChange::Added) as u64),
                ),
                (
                    "deletions"@,
                    number_tree(count_of(line_changes(before, after), LineChange::Removed) as u64),
                ),
            ],
        ),
    }
}

/// The arguments of the tool.
pub open spec fn edit_properties() -> Seq<(Seq<char>, JsonTree)> {
    seq![
        (
            "path"@,
            property_tree(
                "string"@,
                "File path, absolute or relative to the working directory"@,
            ),
        ),
        ("old_string"@, property_tree("string"@, "Exact text to replace"@)),
        ("new_string"@, property_tree("string"@, "Replacement text"@)),
        (
            "replace_all"@,
            property_tree(
                "boolean"@,
                "Replace every occurrence instead of requiring exactly one (default false)"@,
            ),
        ),
    ]
}

impl EditFileTool {
    /// The name of the tool.
    pub fn name(&self) -> (r: &'static str)
        ensures
            r@ == "edit_file"@,
    {
        "edit_file"
    }

    /// What the tool does.
    pub fn description(&self) -> (r: &'static str)
        ensures
            r@
                == "Replaces `old_string` with `new_string` in a file. `old_string` must match exactly once unless `replace_all` is true."@,
    {
        "Replaces `old_string` with `new_string` in a file. `old_string` must match exactly once unless `replace_all` is true."
    }

    /// The arguments of the tool.
    pub fn parameters_schema(&self) -> (r: Json)
        ensures
            r@ == schema_tree(
                edit_properties(),
                seq!["path"@, "old_string"@, "new_string"@],
            ),
    {
        let mut m: Vec<(String, Json)> = Vec::new();
        m.push(
            property("path", "string", "File path, absolute or relative to the working directory"),
        );
        m.push(property("old_string", "string", "Exact text to replace"));
        m.push(property("new_string", "string", "Replacement text"));
        m.push(
            property(
                "replace_all",
                "boolean",
                "Replace every occurrence instead of requiring exactly one (default false)",
            ),
        );
        let mut required: Vec<String> = Vec::new();
        required.push("path".to_owned());
        required.push("old_string".to_owned());
        required.push("new_string".to_owned());
        assert(views(required@) =~= seq!["path"@, "old_string"@, "new_string"@]);
        assert(pairs(m@) =~= edit_properties());
        schema(m, &required)
    }

    /// What an edit of the file at `path` with this content comes to.
    pub fn plan(
        &self,
        path: &str,
        content: &str,
        old_string: &str,
        new_string: &str,
        replace_all: bool,
    ) -> (r: EditPlan)
        requires
            content@.len() < usize::MAX,
        ensures
            r@ == edit_plan(path@, content@, old_string@, new_string@, replace_all),
    {
        let n: usize = count_occurrences(content, old_string);
        if n == 0 {
            let mut m = "old_string not found in ".to_owned();
            m.append(path);
            return EditPlan::Refuse(error(m));
        }
        if n > 1 && !replace_all {
            let mut m = "old_string matches ".to_owned();
            m.append(decimal_text(n as u64).as_str());
            m.append(" times in ");
            m.append(path);
            m.append(" -- pass replace_all: true, or narrow old_string to a unique match");
            return EditPlan::Refuse(error(m));
        }
        let limit: usize = if replace_all {
            n
        } else {
            1
        };
        EditPlan::Write {
            content: replace_first(content, old_string, new_string, limit),
            occurrences: n,
        }
    }

    /// What is told of an edit that was written. `label` is the path as it was
    /// given.
    pub fn outcome(
        &self,
        path: &str,
        label: &str,
        occurrences: usize,
        before: &str,
        after: &str,
    ) -> (r: ToolExecOutcome)
        ensures
            r@ == edit_outcome(path@, label@, occurrences, before@, after@),
    {
        let diff = diff_files(label, before, after);
        let mut content = "replaced ".to_owned();
        content.append(decimal_text(occurrences as u64).as_str());
        content.append(" occurrence(s) in ");
        content.append(path);
        let mut m: Vec<(String, Json)> = Vec::new();
        m.push(entry("occurrences", Json::number(occurrences as u64)));
        m.push(entry("diff", text_value(diff.unified.as_str())));
        m.push(entry("additions", Json::number(diff.additions as u64)));
        m.push(entry("deletions", Json::number(diff.deletions as u64)));
        let metadata = Json::object(m);
        assert(metadata@->Object_0 =~= edit_outcome(
            path@,
            label@,
            occurrences,
            before@,
            after@,
        ).metadata->Object_0);
        ToolExecOutcome { content, is_error: false, metadata }
    }
}

/// An edit is written exactly if the text is there, and no more than once
/// unless all occurrences are meant; it then replaces every occurrence that
/// there is.
pub proof fn law_edit_is_refused_unless_clear(
    path: Seq<char>,
    content: Seq<char>,
    from: Seq<char>,
    to: Seq<char>,
    replace_all: bool,
)
    ensures
        edit_plan(path, content, from, to, replace_all) is Write <==> (occurrences(content, from)
            == 1 || (occurrences(content, from) > 1 && replace_all)),
        edit_plan(path, content, from, to, replace_all) matches EditPlanView::Write {
            content: after,
            occurrences: n,
        } ==> n == occurrences(content, from) && after == replaced(content, from, to, n),
{
}

} // verus!
