//! The difference between two versions of a file.
use vstd::prelude::*;

verus! {

/// What happened to a line.
#[derive(Clone, Copy, Debug, PartialEq, Eq, Structural)]
pub enum LineChange {
    Kept,
    Added,
    Removed,
}

/// The lines around a change that a diff shows.
pub const CONTEXT_LINES: usize = 3;

/// The changes, line by line, that `similar::TextDiff` finds between two texts.
pub uninterp spec fn line_changes(old_text: Seq<char>, new_text: Seq<char>) -> Seq<LineChange>;

/// The unified diff that `similar::TextDiff` gives of two texts, with some
/// lines of context and the two labels of its header.
pub uninterp spec fn unified_diff(
    old_text: Seq<char>,
    new_text: Seq<char>,
    context: usize,
    old_label: Seq<char>,
    new_label: Seq<char>,
) -> Seq<char>;

/// `similar::TextDiff::from_lines` and `iter_all_changes`: the tag of each
/// change. The two texts alone decide it.
#[verifier::external_body]
fn changes_between(old_text: &str, new_text: &str) -> (r: Vec<LineChange>)
    ensures
        r@ == line_changes(old_text@, new_text@),
{
    similar::TextDiff::from_lines(old_text, new_text)
        .iter_all_changes()
        .map(|c| match c.tag() {
            similar::ChangeTag::Equal => LineChange::Kept,
            similar::ChangeTag::Insert => LineChange::Added,
            similar::ChangeTag::Delete => LineChange::Removed,
        })
        .collect()
}

/// `similar::TextDiff::from_lines` and `unified_diff` with `context_radius` and
/// `header`, as text. The arguments alone decide it. The number of lines of
/// context must be one that can be doubled.
#[verifier::external_body]
fn unified_between(
    old_text: &str,
    new_text: &str,
    context: usize,
    old_label: &str,
    new_label: &str,
) -> (r: String)
    requires
        context <= usize::MAX / 2,
    ensures
        r@ == unified_diff(old_text@, new_text@, context, old_label@, new_label@),
{
    similar::TextDiff::from_lines(old_text, new_text)
        .unified_diff()
        .context_radius(context)
        .header(old_label, new_label)
        .to_string()
}

/// A diff, with the number of lines that were added and removed.
pub struct FileDiff {
    pub unified: String,
    pub additions: usize,
    pub deletions: usize,
}

/// How often a change occurs.
pub open spec fn count_of(changes: Seq<LineChange>, what: LineChange) -> nat
    decreases changes.len(),
{
    if changes.len() == 0 {
        0
    } else {
        count_of(changes.drop_last(), what) + (if changes.last() == what {
            1nat
        } else {
            0
        })
    }
}

/// The number of lines that were added and removed.
pub fn count_changes(changes: &Vec<LineChange>) -> (r: (usize, usize))
    ensures
        r.0 == count_of(changes@, LineChange::Added),
        r.1 == count_of(changes@, LineChange::Removed),
{
    let mut additions: usize = 0;
    let mut deletions: usize = 0;
    for i in 0..changes.len()
        invariant
            additions <= i,
            deletions <= i,
            additions == count_of(changes@.take(i as int), LineChange::Added),
            deletions == count_of(changes@.take(i as int), LineChange::Removed),
    {
        assert(changes@.take(i + 1).drop_last() == changes@.take(i as int));
        match changes[i] {
            LineChange::Added => {
                additions += 1;
            },
            LineChange::Removed => {
                deletions += 1;
            },
            LineChange::Kept => {},
        }
    }
    assert(changes@.take(changes@.len() as int) == changes@);
    (additions, deletions)
}

/// The diff of a file at `path` between two contents.
pub fn diff_files(path: &str, old_text: &str, new_text: &str) -> (r: FileDiff)
    ensures
        r.unified@ == unified_diff(
            old_text@,
            new_text@,
            CONTEXT_LINES,
            "a/"@ + path@,
            "b/"@ + path@,
        ),
        r.additions == count_of(line_changes(old_text@, new_text@), LineChange::Added),
        r.deletions == count_of(line_changes(old_text@, new_text@), LineChange::Removed),
{
    let mut old_label = "a/".to_owned();
    old_label.append(path);
    let mut new_label = "b/".to_owned();
    new_label.append(path);
    let unified = unified_between(
        old_text,
        new_text,
        CONTEXT_LINES,
        old_label.as_str(),
        new_label.as_str(),
    );
    let changes = changes_between(old_text, new_text);
    let (additions, deletions) = count_changes(&changes);
    FileDiff { unified, additions, deletions }
}

/// Each line of either version is counted once: what is kept, added and removed
/// together is all there is.
pub proof fn law_counts_cover_all_changes(changes: Seq<LineChange>)
    ensures
        count_of(changes, LineChange::Kept) + count_of(changes, LineChange::Added) + count_of(
            changes,
            LineChange::Removed,
        ) == changes.len(),
    decreases changes.len(),
{
    if changes.len() > 0 {
        law_counts_cover_all_changes(changes.drop_last());
    }
}

} // verus!
