//! Commands that start with a slash.
use vstd::prelude::*;

use crate::mentions::{
    complete_at_mention, completions, keep_prefixed, mention_hint, mention_token, with_prefix,
    at_mention_hint, at_mention_token, Candidate, CandidateView, Entry, EntryView,
};
use crate::model::{group_views, views};
use crate::suggest::byte_len;
use crate::text::{
    chars_of, contains, cut_once, has, join, joined, same, split_once, strip_prefix, text_range,
    trim, trimmed, without_prefix,
};

verus! {

broadcast use group_views;

/// The names of the commands.
pub open spec fn command_names() -> Seq<Seq<char>> {
    seq![
        "help"@,
        "model"@,
        "models"@,
        "clear"@,
        "status"@,
        "thinking"@,
        "todo"@,
        "undo"@,
    ]
}

/// The names of the commands.
pub fn slash_commands() -> (r: Vec<String>)
    ensures
        views(r@) == command_names(),
{
    let mut r: Vec<String> = Vec::new();
    r.push("help".to_owned());
    r.push("model".to_owned());
    r.push("models".to_owned());
    r.push("clear".to_owned());
    r.push("status".to_owned());
    r.push("thinking".to_owned());
    r.push("todo".to_owned());
    r.push("undo".to_owned());
    assert(views(r@) =~= command_names());
    r
}

/// The commands that start with what was typed behind the slash; none where the
/// line is no command or its name is complete.
pub open spec fn commands_for(line: Seq<char>) -> Option<Seq<Seq<char>>> {
    match strip_prefix(line, "/"@) {
        Some(typed) => if contains(typed, " "@) {
            None
        } else {
            Some(with_prefix(command_names(), typed))
        },
        None => None,
    }
}

/// The commands that match what was typed, with the cursor at the byte offset
/// `pos`: none unless it is at the end.
pub fn matching_slash_commands(line: &str, pos: usize) -> (r: Option<Vec<String>>)
    ensures
        match r {
            Some(m) => pos == byte_len(line@) && commands_for(line@) == Some(views(m@)),
            None => pos != byte_len(line@) || commands_for(line@) is None,
        },
{
    if pos != line.len() {
        return None;
    }
    match without_prefix(line, "/") {
        Some(typed) => if has(typed.as_str(), " ") {
            None
        } else {
            Some(keep_prefixed(&slash_commands(), typed.as_str()))
        },
        None => None,
    }
}

/// The completions of the arguments of `/model`: what was typed of the last
/// one, and the names that start with it.
pub open spec fn model_args(line: Seq<char>, models: Seq<Seq<char>>) -> Option<
    (Seq<char>, Seq<Seq<char>>),
> {
    match strip_prefix(line, "/model "@) {
        Some(rest) => match split_once(rest, " "@) {
            Some((provider, typed)) => if provider == "ollama"@ && with_prefix(
                models,
                typed,
            ).len() > 0 {
                Some((typed, with_prefix(models, typed)))
            } else {
                None
            },
            None => if with_prefix(seq!["ollama"@], rest).len() > 0 {
                Some((rest, with_prefix(seq!["ollama"@], rest)))
            } else {
                None
            },
        },
        None => None,
    }
}

/// What was typed of an argument, and the names that complete it.
pub struct ArgMatches {
    pub typed: String,
    pub matches: Vec<String>,
}

/// The completions of the arguments of `/model`, with the cursor at the byte
/// offset `pos`: none unless it is at the end.
pub fn matching_model_args(line: &str, pos: usize, known_models: &Vec<String>) -> (r: Option<
    ArgMatches,
>)
    ensures
        match r {
            Some(m) => pos == byte_len(line@) && model_args(line@, views(known_models@)) == Some(
                (m.typed@, views(m.matches@)),
            ),
            None => pos != byte_len(line@) || model_args(line@, views(known_models@)) is None,
        },
{
    if pos != line.len() {
        return None;
    }
    let rest = match without_prefix(line, "/model ") {
        Some(rest) => rest,
        None => {
            return None;
        },
    };
    if let Some((provider, typed)) = cut_once(rest.as_str(), " ") {
        if !same(provider.as_str(), "ollama") {
            return None;
        }
        let matches = keep_prefixed(known_models, typed.as_str());
        assert(matches@.len() == with_prefix(views(known_models@), typed@).len());
        return if matches.len() > 0 {
            Some(ArgMatches { typed, matches })
        } else {
            None
        };
    }
    let mut providers: Vec<String> = Vec::new();
    providers.push("ollama".to_owned());
    assert(views(providers@) =~= seq!["ollama"@]);
    let matches = keep_prefixed(&providers, rest.as_str());
    assert(matches@.len() == with_prefix(seq!["ollama"@], rest@).len());
    if matches.len() > 0 {
        Some(ArgMatches { typed: rest, matches })
    } else {
        None
    }
}

// ---------------------------------------------------------------------------
// Completion
// ---------------------------------------------------------------------------

/// The completion to a command.
pub open spec fn command_candidate(name: Seq<char>) -> CandidateView {
    CandidateView { display: "/"@ + name, replacement: "/"@ + name + " "@ }
}

/// The completion to an argument.
pub open spec fn arg_candidate(name: Seq<char>) -> CandidateView {
    CandidateView { display: name, replacement: name + " "@ }
}

/// Where a completion starts, as the part of the line that it keeps.
pub enum CompletionStart {
    /// It replaces the whole line.
    Line,
    /// It replaces this many bytes before the cursor.
    Typed(usize),
    /// It replaces the word from this offset on.
    Word(usize),
    /// There is nothing to replace.
    Nothing,
}

/// The completions of a line at the end of what was typed: commands, then the
/// arguments of `/model`, then mentions.
pub open spec fn line_completions(
    line: Seq<char>,
    pos: usize,
    models: Seq<Seq<char>>,
    entries: Seq<EntryView>,
) -> (CompletionStart, Seq<CandidateView>) {
    if pos == byte_len(line) && commands_for(line) is Some {
        (
            CompletionStart::Line,
            commands_for(line)->Some_0.map_values(|n: Seq<char>| command_candidate(n)),
        )
    } else if pos == byte_len(line) && model_args(line, models) is Some {
        (
            CompletionStart::Typed(byte_len(model_args(line, models)->Some_0.0)),
            model_args(line, models)->Some_0.1.map_values(|n: Seq<char>| arg_candidate(n)),
        )
    } else {
        match mention_token(line, pos as nat) {
            Some((start, prefix)) => (
                CompletionStart::Word(start as usize),
                completions(prefix, entries),
            ),
            None => (CompletionStart::Nothing, Seq::empty()),
        }
    }
}

/// The completions of a line at a byte offset. The entries are those of the
/// directory that the mention under the cursor names, if there is one.
pub fn complete_line(
    line: &str,
    pos: usize,
    known_models: &Vec<String>,
    entries: &Vec<Entry>,
) -> (r: (CompletionStart, Vec<Candidate>))
    ensures
        (r.0, views(r.1@)) == line_completions(
            line@,
            pos,
            views(known_models@),
            views(entries@),
        ),
{
    if let Some(matches) = matching_slash_commands(line, pos) {
        let mut candidates: Vec<Candidate> = Vec::new();
        for i in 0..matches.len()
            invariant
                candidates@.len() == i,
                forall|k: int|
                    0 <= k < i ==> (#[trigger] candidates@[k])@ == command_candidate(
                        matches@[k]@,
                    ),
        {
            let mut display = "/".to_owned();
            display.append(matches[i].as_str());
            let mut replacement = display.clone();
            replacement.append(" ");
            candidates.push(Candidate { display, replacement });
        }
        assert(views(candidates@) =~= views(matches@).map_values(
            |n: Seq<char>| command_candidate(n),
        ));
        return (CompletionStart::Line, candidates);
    }
    if let Some(args) = matching_model_args(line, pos, known_models) {
        let mut candidates: Vec<Candidate> = Vec::new();
        let matches = &args.matches;
        for i in 0..matches.len()
            invariant
                candidates@.len() == i,
                forall|k: int|
                    0 <= k < i ==> (#[trigger] candidates@[k])@ == arg_candidate(matches@[k]@),
        {
            let mut replacement = matches[i].clone();
            replacement.append(" ");
            candidates.push(Candidate { display: matches[i].clone(), replacement });
        }
        assert(views(candidates@) =~= views(matches@).map_values(
            |n: Seq<char>| arg_candidate(n),
        ));
        return (CompletionStart::Typed(args.typed.as_str().len()), candidates);
    }
    if let Some((start, prefix)) = at_mention_token(line, pos) {
        return (CompletionStart::Word(start), complete_at_mention(prefix.as_str(), entries));
    }
    let none: Vec<Candidate> = Vec::new();
    (CompletionStart::Nothing, none)
}

// ---------------------------------------------------------------------------
// Hints
// ---------------------------------------------------------------------------

/// A hint behind the cursor: what is shown, and how many bytes of it complete
/// the line.
pub struct SlashCommandHint {
    pub display: String,
    pub completion_len: usize,
}

/// The hint for names of which one may be completed: the rest of the only one,
/// or all of them.
pub open spec fn name_hint(
    typed: Seq<char>,
    names: Seq<Seq<char>>,
    listed: Seq<Seq<char>>,
) -> Option<(Seq<char>, usize)> {
    if names.len() == 0 {
        None
    } else if names.len() == 1 {
        let suffix = names[0].skip(typed.len() as int);
        if suffix.len() > 0 {
            Some((suffix, byte_len(suffix)))
        } else {
            None
        }
    } else {
        Some(("  "@ + join(listed, "  "@), 0))
    }
}

/// The hint behind the cursor.
pub open spec fn line_hint(
    line: Seq<char>,
    pos: usize,
    models: Seq<Seq<char>>,
    entries: Seq<EntryView>,
) -> Option<(Seq<char>, usize)> {
    if pos != byte_len(line) {
        None
    } else if commands_for(line) is Some {
        let names = commands_for(line)->Some_0;
        name_hint(line.skip(1), names, names.map_values(|n: Seq<char>| "/"@ + n))
    } else if model_args(line, models) is Some {
        let (typed, names) = model_args(line, models)->Some_0;
        name_hint(typed, names, names)
    } else {
        match mention_token(line, pos as nat) {
            Some((_, prefix)) => mention_hint(prefix, completions(prefix, entries)),
            None => None,
        }
    }
}

fn hint_for_names(typed: &str, names: &Vec<String>, listed: &Vec<String>) -> (r: Option<
    SlashCommandHint,
>)
    requires
        forall|i: int|
            0 <= i < names@.len() ==> typed@.len() <= (#[trigger] views(names@)[i]).len(),
    ensures
        match r {
            Some(h) => name_hint(typed@, views(names@), views(listed@)) == Some(
                (h.display@, h.completion_len),
            ),
            None => name_hint(typed@, views(names@), views(listed@)) is None,
        },
{
    if names.len() == 0 {
        return None;
    }
    if names.len() == 1 {
        let v = chars_of(names[0].as_str());
        let n: usize = typed.unicode_len();
        assert(views(names@)[0] == v@);
        let suffix = text_range(&v, n, v.len());
        assert(suffix@ == v@.skip(n as int));
        if suffix.as_str().unicode_len() == 0 {
            return None;
        }
        let completion_len: usize = suffix.as_str().len();
        return Some(SlashCommandHint { display: suffix, completion_len });
    }
    let mut display = "  ".to_owned();
    display.append(joined(listed, "  ").as_str());
    Some(SlashCommandHint { display, completion_len: 0 })
}

/// Names that were kept for their prefix are as long as it.
proof fn lemma_with_prefix_len(names: Seq<Seq<char>>, prefix: Seq<char>)
    ensures
        forall|i: int|
            0 <= i < with_prefix(names, prefix).len() ==> prefix.len() <= (
            #[trigger] with_prefix(names, prefix)[i]).len(),
    decreases names.len(),
{
    if names.len() > 0 {
        lemma_with_prefix_len(names.drop_last(), prefix);
        let rest = with_prefix(names.drop_last(), prefix);
        assert forall|i: int| 0 <= i < with_prefix(names, prefix).len() implies prefix.len() <= (
        #[trigger] with_prefix(names, prefix)[i]).len() by {
            if i < rest.len() {
                assert(with_prefix(names, prefix)[i] == rest[i]);
            }
        }
    }
}

/// The hint behind the cursor at a byte offset. The entries are those of the
/// directory that the mention under the cursor names, if there is one.
pub fn hint_for_line(
    line: &str,
    pos: usize,
    known_models: &Vec<String>,
    entries: &Vec<Entry>,
) -> (r: Option<SlashCommandHint>)
    ensures
        match r {
            Some(h) => line_hint(line@, pos, views(known_models@), views(entries@)) == Some(
                (h.display@, h.completion_len),
            ),
            None => line_hint(line@, pos, views(known_models@), views(entries@)) is None,
        },
{
    if pos != line.len() {
        return None;
    }
    if let Some(names) = matching_slash_commands(line, pos) {
        let typed = match without_prefix(line, "/") {
            Some(typed) => typed,
            None => "".to_owned(),
        };
        proof {
            reveal_strlit("/");
            lemma_with_prefix_len(command_names(), typed@);
        }
        let mut listed: Vec<String> = Vec::new();
        for i in 0..names.len()
            invariant
                listed@.len() == i,
                forall|k: int| 0 <= k < i ==> (#[trigger] listed@[k])@ == "/"@ + names@[k]@,
        {
            let mut s = "/".to_owned();
            s.append(names[i].as_str());
            listed.push(s);
        }
        assert(views(listed@) =~= views(names@).map_values(|n: Seq<char>| "/"@ + n));
        return hint_for_names(typed.as_str(), &names, &listed);
    }
    if let Some(args) = matching_model_args(line, pos, known_models) {
        proof {
            lemma_with_prefix_len(views(known_models@), args.typed@);
            lemma_with_prefix_len(seq!["ollama"@], args.typed@);
        }
        return hint_for_names(args.typed.as_str(), &args.matches, &args.matches);
    }
    if let Some((_, prefix)) = at_mention_token(line, pos) {
        return match at_mention_hint(prefix.as_str(), entries) {
            Some((display, completion_len)) => Some(SlashCommandHint { display, completion_len }),
            None => None,
        };
    }
    None
}

// ---------------------------------------------------------------------------
// What a command does
// ---------------------------------------------------------------------------

/// A command of the user.
pub enum SlashCommand {
    Help,
    ShowModel,
    /// Switch to a provider, and perhaps to one of its models.
    SetModel { provider: String, model: Option<String> },
    Models,
    Clear,
    Status,
    Thinking,
    Todo,
    Undo,
    Unknown(String),
}

#[verifier::ext_equal]
pub enum SlashCommandView {
    Help,
    ShowModel,
    SetModel { provider: Seq<char>, model: Option<Seq<char>> },
    Models,
    Clear,
    Status,
    Thinking,
    Todo,
    Undo,
    Unknown(Seq<char>),
}

impl View for SlashCommand {
    type V = SlashCommandView;

    open spec fn view(&self) -> SlashCommandView {
        match self {
            SlashCommand::Help => SlashCommandView::Help,
            SlashCommand::ShowModel => SlashCommandView::ShowModel,
            SlashCommand::SetModel { provider, model } => SlashCommandView::SetModel {
                provider: provider@,
                model: crate::model::opt_view(*model),
            },
            SlashCommand::Models => SlashCommandView::Models,
            SlashCommand::Clear => SlashCommandView::Clear,
            SlashCommand::Status => SlashCommandView::Status,
            SlashCommand::Thinking => SlashCommandView::Thinking,
            SlashCommand::Todo => SlashCommandView::Todo,
            SlashCommand::Undo => SlashCommandView::Undo,
            SlashCommand::Unknown(s) => SlashCommandView::Unknown(s@),
        }
    }
}

/// A text in two parts at the first space; the second may be empty.
pub open spec fn head_and_rest(s: Seq<char>) -> (Seq<char>, Seq<char>) {
    match split_once(s, " "@) {
        Some(p) => p,
        None => (s, Seq::empty()),
    }
}

fn split_head(s: &str) -> (r: (String, String))
    ensures
        (r.0@, r.1@) == head_and_rest(s@),
{
    match cut_once(s, " ") {
        Some(p) => p,
        None => (s.to_owned(), String::new()),
    }
}

/// The provider and model that `/model` names.
pub open spec fn model_choice(rest: Seq<char>) -> SlashCommandView {
    let (provider, model) = head_and_rest(rest);
    SlashCommandView::SetModel {
        provider,
        model: if trim(model).len() > 0 {
            Some(trim(model))
        } else {
            None
        },
    }
}

/// The command that a line without its slash means.
pub open spec fn command_of(input: Seq<char>) -> SlashCommandView {
    let (name, arguments) = head_and_rest(input);
    let rest = trim(arguments);
    if name == "help"@ {
        SlashCommandView::Help
    } else if name == "model"@ {
        if rest.len() > 0 {
            model_choice(rest)
        } else {
            SlashCommandView::ShowModel
        }
    } else if name == "clear"@ {
        SlashCommandView::Clear
    } else if name == "status"@ {
        SlashCommandView::Status
    } else if name == "thinking"@ {
        SlashCommandView::Thinking
    } else if name == "todo"@ {
        SlashCommandView::Todo
    } else if name == "undo"@ {
        SlashCommandView::Undo
    } else if name == "models"@ {
        SlashCommandView::Models
    } else {
        SlashCommandView::Unknown(name)
    }
}

/// The command that a line without its slash means.
pub fn parse_slash_command(input: &str) -> (r: SlashCommand)
    ensures
        r@ == command_of(input@),
{
    let (name, arguments) = split_head(input);
    let rest = trimmed(arguments.as_str());
    let n = name.as_str();
    if same(n, "help") {
        SlashCommand::Help
    } else if same(n, "model") {
        if rest.as_str().unicode_len() > 0 {
            let (provider, model) = split_head(rest.as_str());
            let model = trimmed(model.as_str());
            let model = if model.as_str().unicode_len() > 0 {
                Some(model)
            } else {
                None
            };
            SlashCommand::SetModel { provider, model }
        } else {
            SlashCommand::ShowModel
        }
    } else if same(n, "clear") {
        SlashCommand::Clear
    } else if same(n, "status") {
        SlashCommand::Status
    } else if same(n, "thinking") {
        SlashCommand::Thinking
    } else if same(n, "todo") {
        SlashCommand::Todo
    } else if same(n, "undo") {
        SlashCommand::Undo
    } else if same(n, "models") {
        SlashCommand::Models
    } else {
        SlashCommand::Unknown(name)
    }
}

/// What is said of a command that does not exist.
pub fn unknown_command_text(name: &str) -> (r: String)
    ensures
        r@ == "Unknown command '/"@ + name@ + "'. Type /help for a list."@,
{
    let mut r = "Unknown command '/".to_owned();
    r.append(name);
    r.append("'. Type /help for a list.");
    r
}

/// The line of a model in a list: the active one is marked.
pub fn model_line(model: &str, active: &str) -> (r: String)
    ensures
        r@ == "  "@ + model@ + if model@ == active@ {
            "  (active)"@
        } else {
            ""@
        },
{
    let mut r = "  ".to_owned();
    r.append(model);
    if same(model, active) {
        r.append("  (active)");
    } else {
        r.append("");
    }
    r
}

/// Every name that is offered for completion is understood.
pub proof fn law_offered_commands_are_known(i: int)
    requires
        0 <= i < command_names().len(),
    ensures
        !(command_of(command_names()[i]) is Unknown),
{
    let name = command_names()[i];
    reveal_strlit(" ");
    reveal_strlit("help");
    reveal_strlit("model");
    reveal_strlit("models");
    reveal_strlit("clear");
    reveal_strlit("status");
    reveal_strlit("thinking");
    reveal_strlit("todo");
    reveal_strlit("undo");
    assert forall|k: int| !crate::text::occurs_at(name, " "@, k) by {
        if crate::text::occurs_at(name, " "@, k) {
            assert(name.subrange(k, k + 1)[0] == ' ');
            assert(name[k] == ' ');
            assert(false);
        }
    }
    crate::text::lemma_find_from(name, " "@, 0);
    assert(head_and_rest(name).0 == name);
}

} // verus!
