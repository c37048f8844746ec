//! The tool that lists a directory.
use vstd::prelude::*;

use crate::json::{entry, group_pairs, number_tree, pairs, Json, JsonTree};
use crate::mentions::{join_path, path_join};
use crate::message::{OutcomeView, ToolExecOutcome};
use crate::model::{group_views, opt_view, views};
use crate::order::{comes_before, lemma_precedes_is_an_order, precedes};
use crate::text::{join, joined};
use crate::tool::{property, property_tree, schema, schema_tree};

verus! {

broadcast use {group_pairs, group_views};

/// The number of entries that are listed.
pub const MAX_ENTRIES: usize = 500;

/// How deep a recursive listing goes where nothing else is asked.
pub const DEFAULT_MAX_DEPTH: u32 = 3;

/// The tool that lists a directory.
pub struct LsTool;

/// Something that was found on the way through a directory.
pub struct Walked {
    /// Its path, relative to the working directory.
    pub relative: String,
    /// How deep it lies; what stands directly in the directory has depth one,
    /// and the directory itself has depth zero.
    pub depth: usize,
    pub is_dir: bool,
}

#[verifier::ext_equal]
pub struct WalkedView {
    pub relative: Seq<char>,
    pub depth: nat,
    pub is_dir: bool,
}

impl View for Walked {
    type V = WalkedView;

    open spec fn view(&self) -> WalkedView {
        WalkedView { relative: self.relative@, depth: self.depth as nat, is_dir: self.is_dir }
    }
}

/// The depth to which a directory is listed.
pub open spec fn depth_limit(recursive: bool, max_depth: Option<u32>) -> u32 {
    if recursive {
        match max_depth {
            Some(d) => d,
            None => DEFAULT_MAX_DEPTH,
        }
    } else {
        1
    }
}

/// Whether an entry stands before another: directories first, then by path.
pub open spec fn listed_before(a: WalkedView, b: WalkedView) -> bool {
    if a.is_dir != b.is_dir {
        a.is_dir
    } else {
        precedes(a.relative, b.relative, true)
    }
}

/// An entry put into an ordered list, behind those that do not come after it.
pub open spec fn insert_entry(s: Seq<WalkedView>, x: WalkedView) -> Seq<WalkedView>
    decreases s.len(),
{
    if s.len() == 0 || !listed_before(x, s.last()) {
        s.push(x)
    } else {
        insert_entry(s.drop_last(), x).push(s.last())
    }
}

/// Entries in the order in which they are listed.
pub open spec fn listing_order(s: Seq<WalkedView>) -> Seq<WalkedView>
    decreases s.len(),
{
    if s.len() == 0 {
        Seq::empty()
    } else {
        insert_entry(listing_order(s.drop_last()), s.last())
    }
}

/// What was found, without the directory itself.
pub open spec fn below_root(walked: Seq<WalkedView>) -> Seq<WalkedView>
    decreases walked.len(),
{
    if walked.len() == 0 {
        Seq::empty()
    } else if walked.last().depth == 0 {
        below_root(walked.drop_last())
    } else {
        below_root(walked.drop_last()).push(walked.last())
    }
}

/// As many of the first entries as are listed.
pub open spec fn first_entries(s: Seq<WalkedView>) -> Seq<WalkedView> {
    if s.len() > MAX_ENTRIES {
        s.take(MAX_ENTRIES as int)
    } else {
        s
    }
}

/// The entries that are listed: the first ones that were found below the
/// directory, in order.
pub open spec fn listed(walked: Seq<WalkedView>) -> Seq<WalkedView> {
    listing_order(first_entries(below_root(walked)))
}

/// Two blanks for each level.
pub open spec fn indent(depth: nat) -> Seq<char>
    decreases depth,
{
    if depth == 0 {
        Seq::empty()
    } else {
        indent((depth - 1) as nat) + "  "@
    }
}

/// The line of an entry.
pub open spec fn entry_line(e: WalkedView) -> Seq<char> {
    indent(
        if e.depth == 0 {
            0
        } else {
            (e.depth - 1) as nat
        },
    ) + e.relative + (if e.is_dir {
        "/"@
    } else {
        Seq::empty()
    })
}

/// The lines of some entries.
pub open spec fn entry_lines(s: Seq<WalkedView>) -> Seq<Seq<char>> {
    Seq::new(s.len(), |i: int| entry_line(s[i]))
}

/// What is told of a directory in which this was found.
pub open spec fn ls_outcome(walked: Seq<WalkedView>) -> OutcomeView {
    let entries = listed(walked);
    OutcomeView {
        content: if entries.len() == 0 {
            "(empty)"@
        } else {
            join(entry_lines(entries), "\n"@)
        },
        is_error: false,
        metadata: JsonTree::Object(
            seq![
                ("count"@, number_tree(entries.len() as u64)),
                ("truncated"@, JsonTree::Bool(entries.len() >= MAX_ENTRIES)),
            ],
        ),
    }
}

fn insert_walked(v: &mut Vec<Walked>, x: Walked)
    ensures
        views(final(v)@) == insert_entry(views(old(v)@), x@),
{
    let ghost all = views(v@);
    let mut i: usize = v.len();
    assert(all.take(all.len() as int) == all);
    assert(insert_entry(all, x@) + all.skip(all.len() as int) =~= insert_entry(all, x@));
    while i > 0 && is_listed_before(&x, &v[i - 1])
        invariant
            i <= v@.len(),
            all == views(v@),
            insert_entry(all, x@) == insert_entry(all.take(i as int), x@) + all.skip(i as int),
        decreases i,
    {
        assert(all.take(i as int).drop_last() == all.take(i - 1));
        assert(all.take(i as int).last() == all[i - 1]);
        assert(insert_entry(all.take(i - 1), x@).push(all[i - 1]) + all.skip(i as int)
            =~= insert_entry(all.take(i - 1), x@) + all.skip(i - 1));
        i -= 1;
    }
    assert(i > 0 ==> all.take(i as int).last() == all[i - 1]);
    v.insert(i, x);
    assert(views(v@) =~= all.take(i as int).push(x@) + all.skip(i as int));
}

fn is_listed_before(a: &Walked, b: &Walked) -> (r: bool)
    ensures
        r == listed_before(a@, b@),
{
    if a.is_dir != b.is_dir {
        a.is_dir
    } else {
        comes_before(a.relative.as_str(), b.relative.as_str(), true)
    }
}

/// The entries that are listed, of those that were found.
pub fn list(walked: Vec<Walked>) -> (r: Vec<Walked>)
    ensures
        views(r@) == listed(views(walked@)),
{
    let ghost all = views(walked@);
    let ghost items = walked@;
    let mut r: Vec<Walked> = Vec::new();
    let mut count: usize = 0;
    for x in it: walked
        invariant
            it.seq() == items,
            all == views(items),
            count == first_entries(below_root(all.take(it.index() as int))).len(),
            views(r@) == listing_order(first_entries(below_root(all.take(it.index() as int)))),
    {
        let ghost i = it.index() as int;
        let ghost before = below_root(all.take(i));
        assert(all.take(i + 1).drop_last() == all.take(i));
        assert(all.take(i + 1).last() == x@);
        if x.depth > 0 {
            if count < MAX_ENTRIES {
                assert(before.push(x@).drop_last() == before);
                insert_walked(&mut r, x);
                count += 1;
            } else {
                assert(first_entries(before.push(x@)) =~= first_entries(before));
            }
        }
    }
    assert(all.take(all.len() as int) == all);
    r
}

fn line_of_entry(e: &Walked) -> (r: String)
    ensures
        r@ == entry_line(e@),
{
    let mut r = String::new();
    let n: usize = if e.depth == 0 {
        0
    } else {
        e.depth - 1
    };
    for i in 0..n
        invariant
            r@ == indent(i as nat),
    {
        r.append("  ");
    }
    r.append(e.relative.as_str());
    if e.is_dir {
        r.append("/");
    }
    assert(r@ =~= entry_line(e@));
    r
}

/// The arguments of the tool.
pub open spec fn ls_properties() -> Seq<(Seq<char>, JsonTree)> {
    seq![
        (
            "path"@,
            property_tree(
                "string"@,
                "Directory to list, relative to the working directory (default: \".\")"@,
            ),
        ),
        (
            "recursive"@,
            property_tree(
                "boolean"@,
                "List subdirectories recursively, tree-style (default false)"@,
            ),
        ),
        (
            "max_depth"@,
            property_tree("integer"@, "Max recursion depth when recursive is true (default 3)"@),
        ),
        (
            "show_hidden"@,
            property_tree("boolean"@, "Include dotfiles/dotdirs (default false)"@),
        ),
    ]
}

impl LsTool {
    /// The name of the tool.
    pub fn name(&self) -> (r: &'static str)
        ensures
            r@ == "ls"@,
    {
        "ls"
    }

    /// What the tool does.
    pub fn description(&self) -> (r: &'static str)
        ensures
            r@
                == "Lists files and directories, honoring .gitignore. Non-recursive by default; set \"recursive\" for a tree view. Returns up to 500 entries."@,
    {
        "Lists files and directories, honoring .gitignore. Non-recursive by default; set \"recursive\" for a tree view. Returns up to 500 entries."
    }

    /// The arguments of the tool.
    pub fn parameters_schema(&self) -> (r: Json)
        ensures
            r@ == schema_tree(ls_properties(), Seq::empty()),
    {
        let mut m: Vec<(String, Json)> = Vec::new();
        m.push(
            property(
                "path",
                "string",
                "Directory to list, relative to the working directory (default: \".\")",
            ),
        );
        m.push(
            property(
                "recursive",
                "boolean",
                "List subdirectories recursively, tree-style (default false)",
            ),
        );
        m.push(
            property(
                "max_depth",
                "integer",
                "Max recursion depth when recursive is true (default 3)",
            ),
        );
        m.push(property("show_hidden", "boolean", "Include dotfiles/dotdirs (default false)"));
        assert(pairs(m@) =~= ls_properties());
        let required: Vec<String> = Vec::new();
        schema(m, &required)
    }

    /// The directory to be listed.
    pub fn root(&self, working_dir: &str, path: &Option<String>) -> (r: String)
        ensures
            r@ == path_join(
                working_dir@,
                match opt_view(*path) {
                    Some(p) => p,
                    None => "."@,
                },
            ),
    {
        match path {
            Some(p) => join_path(working_dir, p.as_str()),
            None => join_path(working_dir, "."),
        }
    }

    /// The depth to which a directory is listed.
    pub fn max_depth(&self, recursive: bool, max_depth: Option<u32>) -> (r: u32)
        ensures
            r == depth_limit(recursive, max_depth),
    {
        if recursive {
            match max_depth {
                Some(d) => d,
                None => DEFAULT_MAX_DEPTH,
            }
        } else {
            1
        }
    }

    /// What is told of a directory in which this was found.
    pub fn outcome(&self, walked: Vec<Walked>) -> (r: ToolExecOutcome)
        ensures
            r@ == ls_outcome(views(walked@)),
    {
        let ghost found = views(walked@);
        let entries = list(walked);
        let ghost all = views(entries@);
        let n: usize = entries.len();
        let mut ls: Vec<String> = Vec::new();
        assert(entry_lines(all).take(0) =~= views(ls@));
        for i in 0..n
            invariant
                n == entries@.len(),
                all == views(entries@),
                views(ls@) == entry_lines(all).take(i as int),
        {
            ls.push(line_of_entry(&entries[i]));
            assert(entry_lines(all).take(i + 1) =~= entry_lines(all).take(i as int).push(
                entry_line(all[i as int]),
            ));
        }
        assert(entry_lines(all).take(n as int) =~= entry_lines(all));
        let content = if n == 0 {
            "(empty)".to_owned()
        } else {
            joined(&ls, "\n")
        };
        let mut m: Vec<(String, Json)> = Vec::new();
        m.push(entry("count", Json::number(n as u64)));
        m.push(entry("truncated", Json::Bool(n >= MAX_ENTRIES)));
        let metadata = Json::object(m);
        assert(metadata@->Object_0 =~= ls_outcome(found).metadata->Object_0);
        ToolExecOutcome { content, is_error: false, metadata }
    }
}

/// Whether no entry stands behind one that it comes before.
pub open spec fn in_listing_order(s: Seq<WalkedView>) -> bool {
    forall|i: int, j: int|
        0 <= i < j < s.len() ==> !listed_before(#[trigger] s[j], #[trigger] s[i])
}

proof fn lemma_listed_before(a: WalkedView, b: WalkedView, c: WalkedView)
    ensures
        !listed_before(a, a),
        listed_before(a, b) ==> !listed_before(b, a),
        !listed_before(b, a) && !listed_before(c, b) ==> !listed_before(c, a),
{
    let (x, y, z) = (a.relative, b.relative, c.relative);
    lemma_precedes_is_an_order(x, y, z, true);
    lemma_precedes_is_an_order(z, x, y, true);
    lemma_precedes_is_an_order(y, z, x, true);
    lemma_precedes_is_an_order(z, y, x, true);
    lemma_precedes_is_an_order(x, z, y, true);
}

proof fn lemma_insert_entry(s: Seq<WalkedView>, x: WalkedView)
    requires
        in_listing_order(s),
    ensures
        in_listing_order(insert_entry(s, x)),
        insert_entry(s, x).to_multiset() == s.to_multiset().insert(x),
        insert_entry(s, x).len() == s.len() + 1,
    decreases s.len(),
{
    broadcast use vstd::seq_lib::group_to_multiset_ensures;

    let r = insert_entry(s, x);
    if s.len() == 0 || !listed_before(x, s.last()) {
        assert forall|i: int, j: int| 0 <= i < j < r.len() implies !listed_before(
            #[trigger] r[j],
            #[trigger] r[i],
        ) by {
            if j == s.len() {
                lemma_listed_before(s[i], s.last(), x);
                if i < s.len() - 1 {
                    assert(!listed_before(s[s.len() - 1], s[i]));
                }
            }
        }
    } else {
        lemma_insert_entry(s.drop_last(), x);
        let t = insert_entry(s.drop_last(), x);
        assert(s =~= s.drop_last().push(s.last()));
        assert forall|i: int, j: int| 0 <= i < j < r.len() implies !listed_before(
            #[trigger] r[j],
            #[trigger] r[i],
        ) by {
            if j == r.len() - 1 {
                lemma_listed_before(x, s.last(), x);
                assert(t.to_multiset().contains(t[i]));
                assert(s.drop_last().to_multiset().insert(x).contains(t[i]));
                if t[i] != x {
                    assert(s.drop_last().to_multiset().contains(t[i]));
                    assert(s.drop_last().contains(t[i]));
                    let k = choose|k: int| 0 <= k < s.drop_last().len() && s.drop_last()[k] == t[i];
                    assert(!listed_before(s[s.len() - 1], s[k]));
                }
            }
        }
    }
}

/// A listing has what was found below the directory, up to its limit, with
/// directories first and each part in the order of paths.
pub proof fn law_listing_is_ordered(walked: Seq<WalkedView>)
    ensures
        in_listing_order(listed(walked)),
        listed(walked).len() <= MAX_ENTRIES,
        listed(walked).to_multiset() == first_entries(below_root(walked)).to_multiset(),
        below_root(walked).len() <= MAX_ENTRIES ==> first_entries(below_root(walked))
            == below_root(walked),
{
    lemma_listing_order(first_entries(below_root(walked)));
}

proof fn lemma_listing_order(s: Seq<WalkedView>)
    ensures
        in_listing_order(listing_order(s)),
        listing_order(s).to_multiset() == s.to_multiset(),
        listing_order(s).len() == s.len(),
    decreases s.len(),
{
    broadcast use vstd::seq_lib::group_to_multiset_ensures;

    if s.len() > 0 {
        lemma_listing_order(s.drop_last());
        lemma_insert_entry(listing_order(s.drop_last()), s.last());
        assert(s =~= s.drop_last().push(s.last()));
    } else {
        assert(listing_order(s) =~= s);
    }
}

} // verus!
