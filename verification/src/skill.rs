//! Skills: instructions that the model loads when it needs them.
use vstd::prelude::*;

use crate::json::{
    entry, group_pairs, pairs, text_array, text_member, text_value, Json, JsonTree,
};
use crate::message::{OutcomeView, ToolExecOutcome};
use crate::model::{group_views, opt_view, views};
use crate::text::{
    chars_of, cut_once, find_from, index_from, join, joined, lines, lines_of, same, split_once,
    strip_prefix, text_range, trim, trim_end_char, trimmed, trimmed_end_char, without_prefix,
};
use crate::tool::{error, failure, schema_tree};

verus! {

broadcast use {group_pairs, group_views};

/// A skill.
pub struct Skill {
    pub name: String,
    pub description: String,
    /// The instructions.
    pub body: String,
}

#[verifier::ext_equal]
pub struct SkillView {
    pub name: Seq<char>,
    pub description: Seq<char>,
    pub body: Seq<char>,
}

impl View for Skill {
    type V = SkillView;

    open spec fn view(&self) -> SkillView {
        SkillView { name: self.name@, description: self.description@, body: self.body@ }
    }
}

/// Why skills could not be loaded.
pub enum SkillLoadError {
    /// A file could not be read: its path and the reason.
    Io(String, String),
    MissingFrontmatter(String),
    MissingField(String, String),
    DuplicateName { name: String, first: String, second: String },
}

#[verifier::ext_equal]
pub enum SkillErrorView {
    Io(Seq<char>, Seq<char>),
    MissingFrontmatter(Seq<char>),
    MissingField(Seq<char>, Seq<char>),
    DuplicateName { name: Seq<char>, first: Seq<char>, second: Seq<char> },
}

impl View for SkillLoadError {
    type V = SkillErrorView;

    open spec fn view(&self) -> SkillErrorView {
        match self {
            SkillLoadError::Io(p, e) => SkillErrorView::Io(p@, e@),
            SkillLoadError::MissingFrontmatter(p) => SkillErrorView::MissingFrontmatter(p@),
            SkillLoadError::MissingField(p, f) => SkillErrorView::MissingField(p@, f@),
            SkillLoadError::DuplicateName { name, first, second } =>
                SkillErrorView::DuplicateName { name: name@, first: first@, second: second@ },
        }
    }
}

/// The message of an error.
pub open spec fn skill_error_text(e: SkillErrorView) -> Seq<char> {
    match e {
        SkillErrorView::Io(path, reason) => "failed to read skills directory "@ + path + ": "@
            + reason,
        SkillErrorView::MissingFrontmatter(path) => "skill file "@ + path
            + " is missing '---' delimited frontmatter"@,
        SkillErrorView::MissingField(path, field) => "skill file "@ + path
            + " frontmatter is missing required field '"@ + field + "'"@,
        SkillErrorView::DuplicateName { name, first, second } => "duplicate skill name '"@ + name
            + "' in "@ + first + " and "@ + second + " -- skill names must be unique"@,
    }
}

impl SkillLoadError {
    /// The message of the error.
    pub fn message(&self) -> (r: String)
        ensures
            r@ == skill_error_text(self@),
    {
        match self {
            SkillLoadError::Io(path, reason) => {
                let mut r = "failed to read skills directory ".to_owned();
                r.append(path.as_str());
                r.append(": ");
                r.append(reason.as_str());
                r
            },
            SkillLoadError::MissingFrontmatter(path) => {
                let mut r = "skill file ".to_owned();
                r.append(path.as_str());
                r.append(" is missing '---' delimited frontmatter");
                r
            },
            SkillLoadError::MissingField(path, field) => {
                let mut r = "skill file ".to_owned();
                r.append(path.as_str());
                r.append(" frontmatter is missing required field '");
                r.append(field.as_str());
                r.append("'");
                r
            },
            SkillLoadError::DuplicateName { name, first, second } => {
                let mut r = "duplicate skill name '".to_owned();
                r.append(name.as_str());
                r.append("' in ");
                r.append(first.as_str());
                r.append(" and ");
                r.append(second.as_str());
                r.append(" -- skill names must be unique");
                r
            },
        }
    }
}

// ---------------------------------------------------------------------------
// Reading a skill
// ---------------------------------------------------------------------------

/// `s` without the leading occurrences of `c`.
pub open spec fn trim_start_char(s: Seq<char>, c: char) -> Seq<char>
    decreases s.len(),
{
    if s.len() > 0 && s[0] == c {
        trim_start_char(s.skip(1), c)
    } else {
        s
    }
}

fn trimmed_start_char(s: &str, c: char) -> (r: String)
    ensures
        r@ == trim_start_char(s@, c),
{
    let v = chars_of(s);
    let mut i: usize = 0;
    assert(v@.skip(0) == v@);
    while i < v.len() && v[i] == c
        invariant
            i <= v@.len(),
            trim_start_char(v@, c) == trim_start_char(v@.skip(i as int), c),
        decreases v@.len() - i,
    {
        assert(v@.skip(i as int).skip(1) == v@.skip(i + 1));
        i += 1;
    }
    assert(v@.subrange(i as int, v@.len() as int) == v@.skip(i as int));
    text_range(&v, i, v.len())
}

/// The value of a field, without blanks and quotes around it.
pub open spec fn unquoted(v: Seq<char>) -> Seq<char> {
    let a = trim(v);
    let b = trim_end_char(trim_start_char(a, '"'), '"');
    trim_end_char(trim_start_char(b, '\''), '\'')
}

fn without_quotes(v: &str) -> (r: String)
    ensures
        r@ == unquoted(v@),
{
    let a = trimmed(v);
    let b = trimmed_end_char(trimmed_start_char(a.as_str(), '"').as_str(), '"');
    trimmed_end_char(trimmed_start_char(b.as_str(), '\'').as_str(), '\'')
}

/// The value of a field in some lines; the last one counts.
pub open spec fn field_in(ls: Seq<Seq<char>>, key: Seq<char>) -> Option<Seq<char>>
    decreases ls.len(),
{
    if ls.len() == 0 {
        None
    } else {
        match split_once(ls.last(), ":"@) {
            Some((k, v)) if trim(k) == key => Some(unquoted(v)),
            _ => field_in(ls.drop_last(), key),
        }
    }
}

fn find_field(ls: &Vec<String>, key: &str) -> (r: Option<String>)
    ensures
        opt_view(r) == field_in(views(ls@), key@),
{
    let ghost all = views(ls@);
    let mut found: Option<String> = None;
    for i in 0..ls.len()
        invariant
            all == views(ls@),
            opt_view(found) == field_in(all.take(i as int), key@),
    {
        assert(all.take(i + 1).drop_last() == all.take(i as int));
        if let Some((k, v)) = cut_once(ls[i].as_str(), ":") {
            if same(trimmed(k.as_str()).as_str(), key) {
                found = Some(without_quotes(v.as_str()));
            }
        }
    }
    assert(all.take(all.len() as int) == all);
    found
}

/// A text without a byte order mark.
pub open spec fn without_mark(s: Seq<char>) -> Seq<char> {
    match strip_prefix(s, "\u{feff}"@) {
        Some(rest) => rest,
        None => s,
    }
}

/// What follows the line that opens the frontmatter.
pub open spec fn after_opening(s: Seq<char>) -> Option<Seq<char>> {
    match strip_prefix(s, "---\n"@) {
        Some(rest) => Some(rest),
        None => strip_prefix(s, "---\r\n"@),
    }
}

/// The body behind the dashes that close the frontmatter at a position.
pub open spec fn body_from(s: Seq<char>, end: int) -> Seq<char> {
    trim(s.skip(end + "\n---"@.len()))
}

/// The view of a result.
pub open spec fn skill_result(r: Result<Skill, SkillLoadError>) -> Result<
    SkillView,
    SkillErrorView,
> {
    match r {
        Ok(s) => Ok(s@),
        Err(e) => Err(e@),
    }
}

/// The skill in a file: fields between two lines of dashes, and the body.
pub open spec fn skill_in(path: Seq<char>, raw: Seq<char>) -> Result<SkillView, SkillErrorView> {
    match after_opening(without_mark(raw)) {
        None => Err(SkillErrorView::MissingFrontmatter(path)),
        Some(rest) => match find_from(rest, "\n---"@, 0) {
            None => Err(SkillErrorView::MissingFrontmatter(path)),
            Some(end) => {
                let ls = lines(rest.take(end));
                match field_in(ls, "name"@) {
                    None => Err(SkillErrorView::MissingField(path, "name"@)),
                    Some(name) => match field_in(ls, "description"@) {
                        None => Err(SkillErrorView::MissingField(path, "description"@)),
                        Some(description) => Ok(
                            SkillView { name, description, body: body_from(rest, end) },
                        ),
                    },
                }
            },
        },
    }
}

/// Reads the skill in a file.
pub fn parse_skill(path: &str, raw: &str) -> (r: Result<Skill, SkillLoadError>)
    ensures
        skill_result(r) == skill_in(path@, raw@),
{
    let text = match without_prefix(raw, "\u{feff}") {
        Some(rest) => rest,
        None => raw.to_owned(),
    };
    let rest = match without_prefix(text.as_str(), "---\n") {
        Some(rest) => rest,
        None => match without_prefix(text.as_str(), "---\r\n") {
            Some(rest) => rest,
            None => {
                return Err(SkillLoadError::MissingFrontmatter(path.to_owned()));
            },
        },
    };
    let v = chars_of(rest.as_str());
    let close = chars_of("\n---");
    let end: usize = match index_from(&v, &close, 0) {
        Some(k) => k,
        None => {
            return Err(SkillLoadError::MissingFrontmatter(path.to_owned()));
        },
    };
    let head = text_range(&v, 0, end);
    assert(head@ == rest@.take(end as int));
    let n: usize = v.len();
    let tail = text_range(&v, end + close.len(), n);
    assert(tail@ == rest@.skip(end + close@.len()));
    let ls = lines_of(head.as_str());
    let name = match find_field(&ls, "name") {
        Some(name) => name,
        None => {
            return Err(SkillLoadError::MissingField(path.to_owned(), "name".to_owned()));
        },
    };
    let description = match find_field(&ls, "description") {
        Some(d) => d,
        None => {
            return Err(SkillLoadError::MissingField(path.to_owned(), "description".to_owned()));
        },
    };
    Ok(Skill { name, description, body: trimmed(tail.as_str()) })
}

// ---------------------------------------------------------------------------
// Loading skills
// ---------------------------------------------------------------------------

/// A file that should hold a skill.
pub struct SkillFile {
    pub path: String,
    /// What it holds, or why that could not be read.
    pub content: Result<String, String>,
}

#[verifier::ext_equal]
pub struct SkillFileView {
    pub path: Seq<char>,
    pub content: Result<Seq<char>, Seq<char>>,
}

impl View for SkillFile {
    type V = SkillFileView;

    open spec fn view(&self) -> SkillFileView {
        SkillFileView {
            path: self.path@,
            content: match self.content {
                Ok(s) => Ok(s@),
                Err(e) => Err(e@),
            },
        }
    }
}

/// The skill in a file that was read, or why there is none.
pub open spec fn skill_of(f: SkillFileView) -> Result<SkillView, SkillErrorView> {
    match f.content {
        Ok(raw) => skill_in(f.path, raw),
        Err(e) => Err(SkillErrorView::Io(f.path, e)),
    }
}

/// The position of the skill with this name from `i` on.
pub open spec fn skill_at(skills: Seq<SkillView>, name: Seq<char>, i: int) -> Option<int>
    decreases skills.len() - i,
{
    if i < 0 || i >= skills.len() {
        None
    } else if skills[i].name == name {
        Some(i)
    } else {
        skill_at(skills, name, i + 1)
    }
}

/// The skills in some files, or the first thing that is wrong with them.
pub open spec fn skills_in(files: Seq<SkillFileView>) -> Result<Seq<SkillView>, SkillErrorView>
    decreases files.len(),
{
    if files.len() == 0 {
        Ok(Seq::empty())
    } else {
        match skills_in(files.drop_last()) {
            Err(e) => Err(e),
            Ok(skills) => match skill_of(files.last()) {
                Err(e) => Err(e),
                Ok(skill) => match skill_at(skills, skill.name, 0) {
                    Some(i) => Err(
                        SkillErrorView::DuplicateName {
                            name: skill.name,
                            first: files[i].path,
                            second: files.last().path,
                        },
                    ),
                    None => Ok(skills.push(skill)),
                },
            },
        }
    }
}

proof fn lemma_first_failure(files: Seq<SkillFileView>, n: int)
    requires
        0 <= n <= files.len(),
        skills_in(files.take(n)) is Err,
    ensures
        skills_in(files) == skills_in(files.take(n)),
    decreases files.len() - n,
{
    if n < files.len() {
        assert(files.take(n + 1).drop_last() == files.take(n));
        lemma_first_failure(files, n + 1);
    } else {
        assert(files.take(n) == files);
    }
}

fn find_skill(skills: &Vec<Skill>, name: &str) -> (r: Option<usize>)
    ensures
        match r {
            Some(i) => i < skills@.len() && skill_at(views(skills@), name@, 0) == Some(i as int),
            None => skill_at(views(skills@), name@, 0) is None,
        },
{
    let ghost all = views(skills@);
    let n: usize = skills.len();
    let mut i: usize = 0;
    while i < n
        invariant
            n == skills@.len(),
            i <= n,
            all == views(skills@),
            skill_at(all, name@, 0) == skill_at(all, name@, i as int),
        decreases n - i,
    {
        if same(skills[i].name.as_str(), name) {
            assert(all[i as int].name == name@);
            return Some(i);
        }
        assert(all[i as int].name != name@);
        i += 1;
    }
    None
}

/// The skills in some files, which come in the order of their paths.
pub fn load_skills(files: &Vec<SkillFile>) -> (r: Result<Vec<Skill>, SkillLoadError>)
    ensures
        match r {
            Ok(skills) => skills_in(views(files@)) == Ok::<Seq<SkillView>, SkillErrorView>(
                views(skills@),
            ),
            Err(e) => skills_in(views(files@)) == Err::<Seq<SkillView>, SkillErrorView>(e@),
        },
{
    let ghost all = views(files@);
    let mut skills: Vec<Skill> = Vec::new();
    for i in 0..files.len()
        invariant
            all == views(files@),
            skills@.len() == i,
            skills_in(all.take(i as int)) == Ok::<Seq<SkillView>, SkillErrorView>(views(skills@)),
    {
        assert(all.take(i + 1).drop_last() == all.take(i as int));
        assert(all.take(i + 1).last() == files@[i as int]@);
        let parsed = match &files[i].content {
            Ok(raw) => parse_skill(files[i].path.as_str(), raw.as_str()),
            Err(e) => Err(SkillLoadError::Io(files[i].path.clone(), e.clone())),
        };
        assert(skill_result(parsed) == skill_of(all[i as int]));
        match parsed {
            Err(e) => {
                proof {
                    lemma_first_failure(all, i + 1);
                }
                return Err(e);
            },
            Ok(skill) => {
                if let Some(k) = find_skill(&skills, skill.name.as_str()) {
                    assert(all.take(i + 1)[k as int] == files@[k as int]@);
                    proof {
                        lemma_first_failure(all, i + 1);
                    }
                    return Err(
                        SkillLoadError::DuplicateName {
                            name: skill.name,
                            first: files[k].path.clone(),
                            second: files[i].path.clone(),
                        },
                    );
                }
                skills.push(skill);
            },
        }
    }
    assert(all.take(all.len() as int) == all);
    Ok(skills)
}

proof fn lemma_skill_at(skills: Seq<SkillView>, name: Seq<char>, i: int)
    requires
        0 <= i <= skills.len(),
        skill_at(skills, name, i) is None,
    ensures
        forall|k: int| i <= k < skills.len() ==> (#[trigger] skills[k]).name != name,
    decreases skills.len() - i,
{
    if i < skills.len() {
        lemma_skill_at(skills, name, i + 1);
    }
}

/// Skills that were loaded have names of their own, and there is one for each
/// file.
pub proof fn law_skill_names_are_unique(files: Seq<SkillFileView>)
    requires
        skills_in(files) is Ok,
    ensures
        skills_in(files)->Ok_0.len() == files.len(),
        forall|i: int, j: int|
            0 <= i < j < files.len() ==> (#[trigger] skills_in(files)->Ok_0[i]).name != (
            #[trigger] skills_in(files)->Ok_0[j]).name,
    decreases files.len(),
{
    if files.len() > 0 {
        law_skill_names_are_unique(files.drop_last());
        let front = skills_in(files.drop_last())->Ok_0;
        lemma_skill_at(front, skill_of(files.last())->Ok_0.name, 0);
    }
}

// ---------------------------------------------------------------------------
// The tool
// ---------------------------------------------------------------------------

/// The tool that loads a skill.
pub struct SkillTool {
    skills: Vec<Skill>,
    description: String,
}

#[verifier::ext_equal]
pub struct SkillToolView {
    pub skills: Seq<SkillView>,
    /// What the tool says about itself.
    pub description: Seq<char>,
}

impl View for SkillTool {
    type V = SkillToolView;

    closed spec fn view(&self) -> SkillToolView {
        SkillToolView { skills: views(self.skills@), description: self.description@ }
    }
}

/// The lines that list some skills.
pub open spec fn skill_lines(skills: Seq<SkillView>) -> Seq<Seq<char>> {
    Seq::new(skills.len(), |i: int| "- "@ + skills[i].name + ": "@ + skills[i].description)
}

/// What the tool says about itself: each skill with its short description.
pub open spec fn tool_text(skills: Seq<SkillView>) -> Seq<char> {
    if skills.len() == 0 {
        "Loads the full instructions for a named project skill."@
    } else {
        "Loads the full instructions for a named project skill. Call this before attempting a task that matches one of the skills below -- the short description alone is not enough to act on, load the skill body first.\n\nAvailable skills:\n"@
            + join(skill_lines(skills), "\n"@)
    }
}

/// The names of some skills.
pub open spec fn skill_names(skills: Seq<SkillView>) -> Seq<Seq<char>> {
    Seq::new(skills.len(), |i: int| skills[i].name)
}

/// What calling the tool gives.
pub open spec fn skill_outcome(skills: Seq<SkillView>, arguments: JsonTree) -> OutcomeView {
    match text_member(arguments, "name"@) {
        None => failure("missing required argument 'name'"@),
        Some(name) => match skill_at(skills, name, 0) {
            Some(i) => OutcomeView {
                content: skills[i].body,
                is_error: false,
                metadata: JsonTree::Null,
            },
            None => failure(
                "unknown skill '"@ + name + "' -- available: "@ + join(skill_names(skills), ", "@),
            ),
        },
    }
}

/// The argument of the tool.
pub open spec fn skill_property(skills: Seq<SkillView>) -> JsonTree {
    JsonTree::Object(
        seq![
            ("type"@, JsonTree::Str("string"@)),
            ("description"@, JsonTree::Str("Name of the skill to load"@)),
            ("enum"@, text_array(skill_names(skills))),
        ],
    )
}

fn names_of(skills: &Vec<Skill>) -> (r: Vec<String>)
    ensures
        views(r@) == skill_names(views(skills@)),
{
    let ghost wanted = skill_names(views(skills@));
    let mut r: Vec<String> = Vec::new();
    assert(wanted.take(0) =~= views(r@));
    for i in 0..skills.len()
        invariant
            wanted == skill_names(views(skills@)),
            views(r@) == wanted.take(i as int),
    {
        r.push(skills[i].name.clone());
        assert(wanted.take(i + 1) =~= wanted.take(i as int).push(wanted[i as int]));
    }
    assert(wanted.take(wanted.len() as int) == wanted);
    r
}

impl SkillTool {
    /// The tool for some skills.
    pub fn new(skills: Vec<Skill>) -> (r: SkillTool)
        ensures
            r@ == (SkillToolView {
                skills: views(skills@),
                description: tool_text(views(skills@)),
            }),
    {
        let ghost all = views(skills@);
        let n: usize = skills.len();
        if n == 0 {
            return SkillTool {
                skills,
                description: "Loads the full instructions for a named project skill.".to_owned(),
            };
        }
        let mut ls: Vec<String> = Vec::new();
        assert(skill_lines(all).take(0) =~= views(ls@));
        for i in 0..n
            invariant
                n == skills@.len(),
                all == views(skills@),
                views(ls@) == skill_lines(all).take(i as int),
        {
            let mut line = "- ".to_owned();
            line.append(skills[i].name.as_str());
            line.append(": ");
            line.append(skills[i].description.as_str());
            ls.push(line);
            assert(skill_lines(all).take(i + 1) =~= skill_lines(all).take(i as int).push(
                skill_lines(all)[i as int],
            ));
        }
        assert(skill_lines(all).take(n as int) =~= skill_lines(all));
        let mut description =
            "Loads the full instructions for a named project skill. Call this before attempting a task that matches one of the skills below -- the short description alone is not enough to act on, load the skill body first.\n\nAvailable skills:\n".to_owned();
        description.append(joined(&ls, "\n").as_str());
        SkillTool { skills, description }
    }

    /// The name of the tool.
    pub fn name(&self) -> (r: &'static str)
        ensures
            r@ == "skill"@,
    {
        "skill"
    }

    /// What the tool does, and the skills there are.
    pub fn description(&self) -> (r: &str)
        ensures
            r@ == self@.description,
    {
        self.description.as_str()
    }

    /// The arguments of the tool.
    pub fn parameters_schema(&self) -> (r: Json)
        ensures
            r@ == schema_tree(seq![("name"@, skill_property(self@.skills))], seq!["name"@]),
    {
        let mut p: Vec<(String, Json)> = Vec::new();
        p.push(entry("type", text_value("string")));
        p.push(entry("description", text_value("Name of the skill to load")));
        p.push(entry("enum", Json::texts(&names_of(&self.skills))));
        let property = Json::object(p);
        assert(property@->Object_0 =~= skill_property(self@.skills)->Object_0);
        let mut m: Vec<(String, Json)> = Vec::new();
        m.push(entry("name", property));
        let mut required: Vec<String> = Vec::new();
        required.push("name".to_owned());
        assert(views(required@) =~= seq!["name"@]);
        assert(pairs(m@) =~= seq![("name"@, skill_property(self@.skills))]);
        crate::tool::schema(m, &required)
    }

    /// Loads the skill that the arguments name.
    pub fn execute(&self, arguments: &Json) -> (r: ToolExecOutcome)
        ensures
            r@ == skill_outcome(self@.skills, arguments@),
    {
        let name = match arguments.get_text("name") {
            Some(n) => n,
            None => {
                return error("missing required argument 'name'".to_owned());
            },
        };
        match find_skill(&self.skills, name.as_str()) {
            Some(i) => ToolExecOutcome {
                content: self.skills[i].body.clone(),
                is_error: false,
                metadata: Json::Null,
            },
            None => {
                let mut m = "unknown skill '".to_owned();
                m.append(name.as_str());
                m.append("' -- available: ");
                m.append(joined(&names_of(&self.skills), ", ").as_str());
                error(m)
            },
        }
    }
}

} // verus!
