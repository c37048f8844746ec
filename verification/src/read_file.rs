//! The tool that reads a file.
use vstd::prelude::*;

use crate::json::{group_pairs, pairs, Json, JsonTree};
use crate::message::{OutcomeView, ToolExecOutcome};
use crate::model::{copy_range, group_views, views};
use crate::text::{join, joined, lines, lines_of};
use crate::tool::{property, property_tree, schema, schema_tree};

verus! {

broadcast use {group_pairs, group_views};

/// The tool that reads a file.
pub struct ReadFileTool;

/// The lines from the one numbered `start` to the one numbered `end`; counting
/// starts at one, and the ends of the file bound both.
pub open spec fn line_range(content: Seq<char>, start: Option<usize>, end: Option<usize>) -> Seq<
    char,
> {
    if start is None && end is None {
        content
    } else {
        let ls = lines(content);
        let first = match start {
            Some(n) if n > 1 => n as int,
            _ => 1,
        };
        let last = match end {
            Some(n) if n < ls.len() => n as int,
            _ => ls.len() as int,
        };
        if first > last {
            Seq::empty()
        } else {
            join(ls.subrange(first - 1, last), "\n"@)
        }
    }
}

/// The arguments of the tool.
pub open spec fn read_properties() -> Seq<(Seq<char>, JsonTree)> {
    seq![
        (
            "path"@,
            property_tree(
                "string"@,
                "File path, absolute or relative to the working directory"@,
            ),
        ),
        (
            "start_line"@,
            property_tree("integer"@, "1-indexed first line to read (optional)"@),
        ),
        (
            "end_line"@,
            property_tree(
                "integer"@,
                "1-indexed last line to read, inclusive (optional)"@,
            ),
        ),
    ]
}

impl ReadFileTool {
    /// The name of the tool.
    pub fn name(&self) -> (r: &'static str)
        ensures
            r@ == "read_file"@,
    {
        "read_file"
    }

    /// What the tool does.
    pub fn description(&self) -> (r: &'static str)
        ensures
            r@
                == "Reads a file's contents, optionally restricted to a 1-indexed inclusive line range."@,
    {
        "Reads a file's contents, optionally restricted to a 1-indexed inclusive line range."
    }

    /// The arguments of the tool.
    pub fn parameters_schema(&self) -> (r: Json)
        ensures
            r@ == schema_tree(
                read_properties(),
                seq!["path"@],
            ),
    {
        let mut m: Vec<(String, Json)> = Vec::new();
        m.push(
            property("path", "string", "File path, absolute or relative to the working directory"),
        );
        m.push(property("start_line", "integer", "1-indexed first line to read (optional)"));
        m.push(
            property("end_line", "integer", "1-indexed last line to read, inclusive (optional)"),
        );
        let mut required: Vec<String> = Vec::new();
        required.push("path".to_owned());
        assert(views(required@) =~= seq!["path"@]);
        assert(pairs(m@) =~= read_properties());
        schema(m, &required)
    }

    /// What is told of a file with this content.
    pub fn outcome(&self, content: String, start_line: Option<usize>, end_line: Option<usize>) -> (r:
        ToolExecOutcome)
        ensures
            r@ == (OutcomeView {
                content: line_range(content@, start_line, end_line),
                is_error: false,
                metadata: JsonTree::Null,
            }),
    {
        if start_line.is_none() && end_line.is_none() {
            return ToolExecOutcome { content, is_error: false, metadata: Json::Null };
        }
        let ls = lines_of(content.as_str());
        let n: usize = ls.len();
        let first: usize = match start_line {
            Some(k) => if k > 1 {
                k
            } else {
                1
            },
            None => 1,
        };
        let last: usize = match end_line {
            Some(k) => if k < n {
                k
            } else {
                n
            },
            None => n,
        };
        let shown = if first > last {
            String::new()
        } else {
            joined(&copy_range(&ls, first - 1, last), "\n")
        };
        assert(shown@ =~= line_range(content@, start_line, end_line));
        ToolExecOutcome { content: shown, is_error: false, metadata: Json::Null }
    }
}

/// Leaving out the start is naming the first line, leaving out the end is naming
/// the last one or any behind it.
pub proof fn law_missing_ends_are_those_of_the_file(
    content: Seq<char>,
    start: Option<usize>,
    end: Option<usize>,
    last: usize,
)
    requires
        last >= lines(content).len(),
    ensures
        end is Some ==> line_range(content, None, end) == line_range(content, Some(1), end),
        start is Some ==> line_range(content, start, None) == line_range(
            content,
            start,
            Some(last),
        ),
        line_range(content, None, None) == content,
{
}

/// The lines that are read from the `k`-th to the `n`-th are those, in their
/// order and no others: from the `k`-th on, all the lines of the file but its
/// first `k - 1`; up to the `n`-th, the first `n`.
pub proof fn law_range_is_the_lines_between(content: Seq<char>, k: usize, n: usize)
    requires
        1 <= k <= n <= lines(content).len(),
    ensures
        line_range(content, Some(k), None) == join(lines(content).skip(k - 1), "\n"@),
        line_range(content, None, Some(n)) == join(lines(content).take(n as int), "\n"@),
        line_range(content, Some(k), Some(n)) == join(
            Seq::new((n - k + 1) as nat, |i: int| lines(content)[k - 1 + i]),
            "\n"@,
        ),
        line_range(content, Some(k), Some(k)) == lines(content)[k - 1],
{
    let ls = lines(content);
    assert(ls.subrange(k - 1, ls.len() as int) =~= ls.skip(k - 1));
    assert(ls.subrange(0, n as int) =~= ls.take(n as int));
    assert(ls.subrange(k - 1, n as int) =~= Seq::new(
        (n - k + 1) as nat,
        |i: int| ls[k - 1 + i],
    ));
    assert(ls.subrange(k - 1, k as int) =~= seq![ls[k - 1]]);
    reveal_with_fuel(join, 2);
}

/// Two ranges that meet are the range from the first to the last of their lines.
pub proof fn law_adjacent_ranges_join(content: Seq<char>, k: usize, m: usize, n: usize)
    requires
        1 <= k <= m < n <= lines(content).len(),
    ensures
        line_range(content, Some(k), Some(n)) == line_range(content, Some(k), Some(m)) + "\n"@
            + line_range(content, Some((m + 1) as usize), Some(n)),
{
    let ls = lines(content);
    let a = ls.subrange(k - 1, m as int);
    let b = ls.subrange(m as int, n as int);
    assert(ls.subrange(k - 1, n as int) =~= a + b);
    crate::text_laws::law_join_of_both(a, b, "\n"@);
}

/// A range that starts behind its end, or behind the file, has no text.
pub proof fn law_empty_range_has_no_text(content: Seq<char>, k: usize, n: usize)
    requires
        k > n || k > lines(content).len(),
        k > 1,
    ensures
        line_range(content, Some(k), Some(n)).len() == 0,
{
}

} // verus!
