//! What becomes of what the user types: answers, commands, skills, messages.
use vstd::prelude::*;

use crate::ask::{AnswerView, OptionView};
use crate::ask_overlay::{
    answered, chosen, overlay_key, row_text, title_text, with_skipped, OverlayOutcomeView,
    OverlayView,
};
use crate::input_box::KeyCode;
use crate::json::{text_member, JsonTree};
use crate::mailbox::{addressed, MailView};
use crate::mentions::with_prefix;
use crate::skill::{
    field_in, skill_at, skill_in, skill_names, skill_of, skill_outcome, skills_in, tool_text,
    unquoted, SkillErrorView, SkillFileView, SkillView,
};
use crate::slash::{
    command_candidate, command_names, command_of, commands_for, head_and_rest, model_args,
    name_hint, SlashCommandView,
};
use crate::suggest::byte_len;
use crate::text::{
    decimal, find_from, is_white, join, lemma_find_from, lines, occurs_at, split_once, starts_with,
    trim, trim_end_char,
};
use crate::tui::{entered, EnteredView};

verus! {

// ---------------------------------------------------------------------------
// Questions
// ---------------------------------------------------------------------------

/// An answer is recorded under the header of its question; behind the last one
/// all are given back, else the next question is shown afresh.
pub proof fn law_answer_is_recorded(s: OverlayView, selected: Seq<Seq<char>>)
    requires
        s.well_formed(),
    ensures
        ({
            let (t, o) = answered(s, selected);
            let mine = AnswerView { header: s.questions[s.current as int].header, selected };
            &&& t.questions == s.questions
            &&& s.current + 1 == s.questions.len() ==> o == OverlayOutcomeView::Finished(
                s.answers.push(mine),
            )
            &&& s.current + 1 < s.questions.len() ==> {
                &&& o is Continue
                &&& t.answers == s.answers.push(mine)
                &&& t.current == s.current + 1
                &&& t.highlighted == 0
                &&& !t.writing
                &&& t.checked.len() == s.questions[s.current as int + 1].options.len()
                &&& forall|i: int| 0 <= i < t.checked.len() ==> !#[trigger] t.checked[i]
            }
        }),
{
}

/// The chosen options are those that are checked, in their order.
pub proof fn law_checked_options_are_chosen(
    a: Seq<OptionView>,
    ca: Seq<bool>,
    b: Seq<OptionView>,
    cb: Seq<bool>,
    o: OptionView,
    c: bool,
)
    requires
        a.len() == ca.len(),
        b.len() == cb.len(),
    ensures
        chosen(a + b, ca + cb) == chosen(a, ca) + chosen(b, cb),
        chosen(seq![o], seq![c]) == if c {
            seq![o.label]
        } else {
            Seq::empty()
        },
    decreases b.len(),
{
    assert(seq![o].drop_last() =~= Seq::empty());
    reveal_with_fuel(chosen, 2);
    assert(chosen(seq![o], seq![c]) =~= if c {
        seq![o.label]
    } else {
        Seq::empty()
    });
    if b.len() == 0 {
        assert(a + b =~= a);
        assert(ca + cb =~= ca);
        assert(chosen(a, ca) + chosen(b, cb) =~= chosen(a, ca));
    } else {
        law_checked_options_are_chosen(a, ca, b.drop_last(), cb.drop_last(), o, c);
        assert((a + b).drop_last() =~= a + b.drop_last());
        assert((ca + cb).drop_last() =~= ca + cb.drop_last());
        assert(chosen(a + b, ca + cb) =~= chosen(a, ca) + chosen(b, cb));
    }
}

/// The keys for moving go round: behind the options stands the row for an answer
/// in the user's own words, and behind that the first option again.
pub proof fn law_moving_goes_round(s: OverlayView)
    requires
        s.well_formed(),
        !s.writing,
    ensures
        ({
            let n = s.questions[s.current as int].options.len();
            let up = overlay_key(s, KeyCode::Up).0;
            let down = overlay_key(s, KeyCode::Down).0;
            &&& overlay_key(s, KeyCode::Char('k')).0 == up
            &&& overlay_key(s, KeyCode::Char('j')).0 == down
            &&& up == (OverlayView {
                highlighted: if s.highlighted == 0 {
                    n
                } else {
                    (s.highlighted - 1) as nat
                },
                ..s
            })
            &&& down == (OverlayView {
                highlighted: if s.highlighted == n {
                    0
                } else {
                    s.highlighted + 1
                },
                ..s
            })
            &&& overlay_key(up, KeyCode::Down).0 == s
            &&& overlay_key(down, KeyCode::Up).0 == s
        }),
{
}

/// Enter picks the marked option, all checked ones where several may be chosen,
/// or starts an answer in the user's own words.
pub proof fn law_enter_picks(s: OverlayView)
    requires
        s.well_formed(),
        !s.writing,
    ensures
        ({
            let q = s.questions[s.current as int];
            let r = overlay_key(s, KeyCode::Enter);
            &&& s.highlighted == q.options.len() ==> r.0.writing && r.0.text_buffer.len() == 0
                && r.1 is Continue && r.0.answers == s.answers
            &&& s.highlighted < q.options.len() && !q.multi_select ==> r == answered(
                s,
                seq![q.options[s.highlighted as int].label],
            )
            &&& s.highlighted < q.options.len() && q.multi_select && (exists|i: int|
                0 <= i < s.checked.len() && #[trigger] s.checked[i]) ==> r == answered(
                s,
                chosen(q.options, s.checked),
            )
            &&& s.highlighted < q.options.len() && q.multi_select && (forall|i: int|
                0 <= i < s.checked.len() ==> !#[trigger] s.checked[i]) ==> r.0 == s && r.1
                is Continue
        }),
{
    if exists|i: int| 0 <= i < s.checked.len() && #[trigger] s.checked[i] {
        let i = choose|i: int| 0 <= i < s.checked.len() && #[trigger] s.checked[i];
        assert(s.checked[i] == true);
        assert(s.checked.contains(true));
    }
}

/// A digit means the option with that number: it is picked, or checked where
/// several may be chosen. A blank checks the marked option.
pub proof fn law_digit_means_its_option(s: OverlayView, c: char)
    requires
        s.well_formed(),
        !s.writing,
        '1' <= c <= '9',
    ensures
        ({
            let q = s.questions[s.current as int];
            let i = c as int - '1' as int;
            let r = overlay_key(s, KeyCode::Char(c));
            &&& i >= q.options.len() ==> r.0 == s && r.1 is Continue
            &&& i < q.options.len() && !q.multi_select ==> r == answered(
                (OverlayView { highlighted: i as nat, ..s }),
                seq![q.options[i].label],
            )
            &&& i < q.options.len() && q.multi_select ==> r.0.checked == s.checked.update(
                i,
                !s.checked[i],
            ) && r.0.highlighted == i && r.0.answers == s.answers && r.1 is Continue
            &&& q.multi_select && s.highlighted < q.options.len() ==> overlay_key(
                s,
                KeyCode::Char(' '),
            ).0 == (OverlayView {
                checked: s.checked.update(
                    s.highlighted as int,
                    !s.checked[s.highlighted as int],
                ),
                ..s
            })
        }),
{
}

/// Escape answers what is left with a word that it was skipped; while the user
/// writes, it only ends the writing.
pub proof fn law_escape_skips_what_is_left(s: OverlayView)
    requires
        s.well_formed(),
    ensures
        !s.writing ==> (overlay_key(s, KeyCode::Esc).1 matches OverlayOutcomeView::Finished(a)
            && a.len() == s.questions.len() && (forall|i: int|
            0 <= i < s.current ==> #[trigger] a[i] == s.answers[i]) && forall|i: int|
            s.current <= i < a.len() ==> (#[trigger] a[i]).header == s.questions[i].header
                && a[i].selected == seq!["(skipped)"@]),
        s.writing ==> overlay_key(s, KeyCode::Esc).0 == (OverlayView {
            writing: false,
            text_buffer: Seq::empty(),
            ..s
        }) && overlay_key(s, KeyCode::Esc).1 is Continue,
{
    let a = with_skipped(s);
    assert forall|i: int| s.current <= i < a.len() implies (#[trigger] a[i]).header
        == s.questions[i].header && a[i].selected == seq!["(skipped)"@] by {
        assert(s.questions.skip(s.current as int)[i - s.current] == s.questions[i]);
    }
}

/// What the user writes is the answer, character by character; a blank one is
/// not taken.
pub proof fn law_written_answer_is_taken(s: OverlayView, c: char)
    requires
        s.well_formed(),
        s.writing,
    ensures
        overlay_key(s, KeyCode::Char(c)).0 == (OverlayView {
            text_buffer: s.text_buffer.push(c),
            ..s
        }),
        overlay_key(overlay_key(s, KeyCode::Char(c)).0, KeyCode::Backspace).0 == s,
        trim(s.text_buffer).len() == 0 ==> overlay_key(s, KeyCode::Enter).0 == s && overlay_key(
            s,
            KeyCode::Enter,
        ).1 is Continue,
        trim(s.text_buffer).len() > 0 ==> overlay_key(s, KeyCode::Enter) == answered(
            (OverlayView { text_buffer: Seq::empty(), ..s }),
            seq![s.text_buffer],
        ),
{
    assert(s.text_buffer.push(c).drop_last() =~= s.text_buffer);
}

/// A row shows its mark, its number from one on, and what it stands for.
pub proof fn law_row_shows_its_option(
    s: OverlayView,
    i: nat,
    label: Seq<char>,
    description: Seq<char>,
)
    requires
        s.well_formed(),
        i <= s.questions[s.current as int].options.len(),
    ensures
        title_text(s) == " Question "@ + decimal(s.current + 1) + " of "@ + decimal(
            s.questions.len(),
        ) + " "@,
        ({
            let q = s.questions[s.current as int];
            let mark = if q.multi_select && i < q.options.len() {
                if s.checked[i as int] {
                    "[x] "@
                } else {
                    "[ ] "@
                }
            } else if s.highlighted == i {
                "❯ "@
            } else {
                "  "@
            };
            &&& description.len() == 0 ==> row_text(s, i, label, description) == mark + decimal(
                i + 1,
            ) + ". "@ + label
            &&& description.len() > 0 ==> row_text(s, i, label, description) == mark + decimal(
                i + 1,
            ) + ". "@ + label + " -- "@ + description
        }),
{
}

// ---------------------------------------------------------------------------
// Commands
// ---------------------------------------------------------------------------

/// What is entered is trimmed; a word to leave leaves, what starts with a slash
/// is a command, and all else is a task.
pub proof fn law_line_is_a_task_or_a_command(line: Seq<char>, rest: Seq<char>)
    ensures
        trim(line).len() == 0 ==> entered(line) == EnteredView::Nothing,
        trim(line) == "exit"@ || trim(line) == "quit"@ ==> entered(line) == EnteredView::Leave,
        trim(line) == seq!['/'] + rest ==> entered(line) == EnteredView::Command(rest),
        trim(line).len() > 0 && trim(line)[0] != '/' && trim(line) != "exit"@ && trim(line)
            != "quit"@ ==> entered(line) == EnteredView::Task(trim(line)),
{
    reveal_strlit("exit");
    reveal_strlit("quit");
    reveal_strlit("/");
    assert("/"@ =~= seq!['/']);
    assert("exit"@.len() == 4 && "quit"@.len() == 4 && "exit"@[0] == 'e' && "quit"@[0] == 'q');
    let s = trim(line);
    if s == seq!['/'] + rest {
        assert(s[0] == '/');
        assert(s.take(1) =~= "/"@);
        assert(s.skip(1) =~= rest);
    }
    if starts_with(s, "/"@) {
        assert(s.take(1)[0] == '/');
    }
}

proof fn lemma_split_at(a: Seq<char>, c: char, b: Seq<char>, pat: Seq<char>)
    requires
        pat == seq![c],
        forall|i: int| 0 <= i < a.len() ==> #[trigger] a[i] != c,
    ensures
        split_once(a + seq![c] + b, pat) == Some((a, b)),
        split_once(a, pat) is None,
{
    let s = a + seq![c] + b;
    let n = a.len() as int;
    lemma_find_from(s, pat, 0);
    lemma_find_from(a, pat, 0);
    assert(s.subrange(n, n + 1) =~= pat);
    assert(occurs_at(s, pat, n));
    if let Some(k) = find_from(s, pat, 0) {
        if k < n {
            assert(s.subrange(k, k + 1)[0] == c);
            assert(s[k] == a[k]);
        }
    }
    if let Some(k) = find_from(a, pat, 0) {
        assert(a.subrange(k, k + 1)[0] == c);
    }
    assert(s.take(n) =~= a);
    assert(s.skip(n + 1) =~= b);
}

/// The name of a command ends at the first blank; what follows are its arguments.
pub proof fn law_name_ends_at_the_blank(name: Seq<char>, rest: Seq<char>)
    requires
        forall|i: int| 0 <= i < name.len() ==> #[trigger] name[i] != ' ',
    ensures
        head_and_rest(name + seq![' '] + rest) == (name, rest),
        head_and_rest(name) == (name, Seq::<char>::empty()),
{
    reveal_strlit(" ");
    assert(" "@ =~= seq![' ']);
    lemma_split_at(name, ' ', rest, " "@);
}

proof fn lemma_command_names_differ()
    ensures
        forall|i: int, j: int|
            0 <= i < j < 8 ==> #[trigger] command_names()[i] != #[trigger] command_names()[j],
{
    reveal_strlit("help");
    reveal_strlit("model");
    reveal_strlit("models");
    reveal_strlit("clear");
    reveal_strlit("status");
    reveal_strlit("thinking");
    reveal_strlit("todo");
    reveal_strlit("undo");
    assert("help"@.len() == 4 && "model"@.len() == 5 && "models"@.len() == 6 && "clear"@.len() == 5
        && "status"@.len() == 6 && "thinking"@.len() == 8 && "todo"@.len() == 4 && "undo"@.len()
        == 4);
    assert("help"@[0] == 'h' && "todo"@[0] == 't' && "undo"@[0] == 'u');
    assert("model"@[0] == 'm' && "clear"@[0] == 'c');
    assert("models"@[0] == 'm' && "status"@[0] == 's');
    let c = command_names();
    assert(c[0] == "help"@ && c[1] == "model"@ && c[2] == "models"@ && c[3] == "clear"@ && c[4]
        == "status"@ && c[5] == "thinking"@ && c[6] == "todo"@ && c[7] == "undo"@);
}

/// Each command does what its name says; a name that is not one of them is
/// unknown.
pub proof fn law_command_does_what_it_says(input: Seq<char>)
    ensures
        ({
            let name = head_and_rest(input).0;
            let rest = trim(head_and_rest(input).1);
            let c = command_of(input);
            &&& name == "help"@ ==> c == SlashCommandView::Help
            &&& name == "models"@ ==> c == SlashCommandView::Models
            &&& name == "clear"@ ==> c == SlashCommandView::Clear
            &&& name == "status"@ ==> c == SlashCommandView::Status
            &&& name == "thinking"@ ==> c == SlashCommandView::Thinking
            &&& name == "todo"@ ==> c == SlashCommandView::Todo
            &&& name == "undo"@ ==> c == SlashCommandView::Undo
            &&& name == "model"@ && rest.len() == 0 ==> c == SlashCommandView::ShowModel
            &&& name == "model"@ && rest.len() > 0 ==> {
                let (provider, model) = head_and_rest(rest);
                c == (SlashCommandView::SetModel {
                    provider,
                    model: if trim(model).len() == 0 {
                        None
                    } else {
                        Some(trim(model))
                    },
                })
            }
            &&& !command_names().contains(name) ==> c == SlashCommandView::Unknown(name)
        }),
{
    lemma_command_names_differ();
    let c = command_names();
    let name = head_and_rest(input).0;
    assert(c[0] == "help"@ && c[1] == "model"@ && c[2] == "models"@ && c[3] == "clear"@ && c[4]
        == "status"@ && c[5] == "thinking"@ && c[6] == "todo"@ && c[7] == "undo"@);
    assert(c[0] != c[1] && c[0] != c[2] && c[0] != c[3] && c[0] != c[4] && c[0] != c[5] && c[0]
        != c[6] && c[0] != c[7]);
    assert(c[1] != c[2] && c[1] != c[3] && c[1] != c[4] && c[1] != c[5] && c[1] != c[6] && c[1]
        != c[7]);
    assert(c[2] != c[3] && c[2] != c[4] && c[2] != c[5] && c[2] != c[6] && c[2] != c[7]);
    assert(c[3] != c[4] && c[3] != c[5] && c[3] != c[6] && c[3] != c[7]);
    assert(c[4] != c[5] && c[4] != c[6] && c[4] != c[7]);
    assert(c[5] != c[6] && c[5] != c[7]);
    assert(c[6] != c[7]);
    if !c.contains(name) {
        assert(forall|i: int| 0 <= i < c.len() ==> #[trigger] c[i] != name);
    }
}

/// The commands that complete a line are those that start with what stands behind
/// its slash; a blank ends that. What takes the place of the line ends in a blank.
pub proof fn law_commands_complete_a_line(typed: Seq<char>, name: Seq<char>, line: Seq<char>)
    ensures
        (forall|i: int| 0 <= i < typed.len() ==> #[trigger] typed[i] != ' ') ==> commands_for(
            seq!['/'] + typed,
        ) == Some(with_prefix(command_names(), typed)),
        (exists|i: int| 0 <= i < typed.len() && #[trigger] typed[i] == ' ') ==> commands_for(
            seq!['/'] + typed,
        ) is None,
        line.len() == 0 || line[0] != '/' ==> commands_for(line) is None,
        command_candidate(name).display == "/"@ + name,
        command_candidate(name).replacement == "/"@ + name + " "@,
{
    reveal_strlit("/");
    reveal_strlit(" ");
    assert("/"@ =~= seq!['/']);
    assert(" "@ =~= seq![' ']);
    let s = seq!['/'] + typed;
    assert(s.take(1) =~= "/"@);
    assert(s.skip(1) =~= typed);
    if exists|i: int| 0 <= i < typed.len() && #[trigger] typed[i] == ' ' {
        let i = choose|i: int| 0 <= i < typed.len() && #[trigger] typed[i] == ' ';
        assert(typed.subrange(i, i + 1) =~= " "@);
        assert(occurs_at(typed, " "@, i));
    } else {
        assert forall|i: int| !#[trigger] occurs_at(typed, " "@, i) by {
            if occurs_at(typed, " "@, i) {
                assert(typed.subrange(i, i + 1)[0] == ' ');
            }
        }
    }
    if starts_with(line, "/"@) {
        assert(line.take(1)[0] == '/');
    }
}

/// Behind the command for models, the provider is completed, and behind that its
/// models.
pub proof fn law_models_complete_a_line(typed: Seq<char>, models: Seq<Seq<char>>)
    ensures
        (forall|i: int| 0 <= i < typed.len() ==> #[trigger] typed[i] != ' ') ==> model_args(
            "/model "@ + typed,
            models,
        ) == if with_prefix(seq!["ollama"@], typed).len() > 0 {
            Some((typed, with_prefix(seq!["ollama"@], typed)))
        } else {
            None
        },
        model_args("/model "@ + ("ollama"@ + seq![' '] + typed), models) == if with_prefix(
            models,
            typed,
        ).len() > 0 {
            Some((typed, with_prefix(models, typed)))
        } else {
            None
        },
{
    reveal_strlit(" ");
    reveal_strlit("ollama");
    assert(" "@ =~= seq![' ']);
    let n = "/model "@.len() as int;
    let a = "/model "@ + typed;
    assert(a.take(n) =~= "/model "@);
    assert(a.skip(n) =~= typed);
    let rest = "ollama"@ + seq![' '] + typed;
    let b = "/model "@ + rest;
    assert(b.take(n) =~= "/model "@);
    assert(b.skip(n) =~= rest);
    assert("ollama"@ =~= seq!['o', 'l', 'l', 'a', 'm', 'a']);
    lemma_split_at("ollama"@, ' ', typed, " "@);
    if forall|i: int| 0 <= i < typed.len() ==> #[trigger] typed[i] != ' ' {
        lemma_split_at(typed, ' ', typed, " "@);
    }
}

/// The only name that fits is hinted at by what is left of it; several are
/// listed.
pub proof fn law_name_is_hinted_at(
    typed: Seq<char>,
    rest: Seq<char>,
    names: Seq<Seq<char>>,
    listed: Seq<Seq<char>>,
)
    ensures
        name_hint(typed, seq![typed + rest], listed) == if rest.len() > 0 {
            Some((rest, byte_len(rest)))
        } else {
            None
        },
        names.len() > 1 ==> (name_hint(typed, names, listed) matches Some((text, n)) && n == 0
            && text == "  "@ + join(listed, "  "@)),
        names.len() == 0 ==> name_hint(typed, names, listed) is None,
{
    assert((typed + rest).skip(typed.len() as int) =~= rest);
}

// ---------------------------------------------------------------------------
// Skills
// ---------------------------------------------------------------------------

/// Of the lines that name a field the last counts.
pub proof fn law_last_field_counts(a: Seq<Seq<char>>, b: Seq<Seq<char>>, key: Seq<char>)
    ensures
        field_in(a + b, key) == match field_in(b, key) {
            Some(v) => Some(v),
            None => field_in(a, key),
        },
    decreases b.len(),
{
    if b.len() == 0 {
        assert(a + b =~= a);
    } else {
        law_last_field_counts(a, b.drop_last(), key);
        assert((a + b).drop_last() =~= a + b.drop_last());
        assert((a + b).last() == b.last());
    }
}

/// A field is a name before a colon, and what stands behind it.
pub proof fn law_field_is_behind_its_colon(k: Seq<char>, v: Seq<char>, key: Seq<char>)
    requires
        forall|i: int| 0 <= i < k.len() ==> #[trigger] k[i] != ':',
    ensures
        field_in(seq![k + seq![':'] + v], key) == if trim(k) == key {
            Some(unquoted(v))
        } else {
            None
        },
        field_in(seq![k], key) is None,
{
    reveal_strlit(":");
    assert(":"@ =~= seq![':']);
    lemma_split_at(k, ':', v, ":"@);
    assert(seq![k].drop_last() =~= Seq::empty());
    assert(seq![k + seq![':'] + v].drop_last() =~= Seq::empty());
    reveal_with_fuel(field_in, 2);
}

#[verifier::spinoff_prover]
#[verifier::rlimit(50)]
proof fn lemma_trim_keeps(s: Seq<char>)
    requires
        s.len() > 0,
        !is_white(s[0]),
        !is_white(s.last()),
    ensures
        trim(s) == s,
{
    crate::text_laws::law_trimming_takes_white_space_only(s);
    let (i, j) = choose|i: int, j: int|
        0 <= i <= j <= s.len() && #[trigger] s.subrange(i, j) == trim(s) && (forall|k: int|
            0 <= k < i ==> is_white(#[trigger] s[k])) && (forall|k: int|
            j <= k < s.len() ==> is_white(#[trigger] s[k]));
    if i > 0 {
        assert(is_white(s[0]));
    }
    if j < s.len() {
        assert(is_white(s[s.len() - 1]));
    }
    assert(s.subrange(0, s.len() as int) =~= s);
}

/// A value is what stands between its quotes.
pub proof fn law_value_is_between_its_quotes(v: Seq<char>)
    requires
        v.len() > 0,
        !is_white(v[0]),
        !is_white(v.last()),
        v[0] != '"',
        v[0] != '\'',
        v.last() != '"',
        v.last() != '\'',
    ensures
        unquoted(v) == v,
        unquoted(seq!['"'] + v + seq!['"']) == v,
        unquoted(seq!['\''] + v + seq!['\'']) == v,
{
    lemma_trim_keeps(v);
    lemma_unquote(v, '"');
    lemma_unquote(v, '\'');
    crate::text_laws::law_usual_white_space('"');
    crate::text_laws::law_usual_white_space('\'');
    let a = seq!['"'] + v + seq!['"'];
    let b = seq!['\''] + v + seq!['\''];
    lemma_trim_keeps(a);
    lemma_trim_keeps(b);
    lemma_other_quote(b, '"');
    lemma_other_quote(v, '"');
    lemma_other_quote(v, '\'');
}

proof fn lemma_other_quote(s: Seq<char>, c: char)
    requires
        s.len() > 0,
        s[0] != c,
        s.last() != c,
    ensures
        trim_end_char(crate::skill::trim_start_char(s, c), c) == s,
{
}

#[verifier::spinoff_prover]
proof fn lemma_unquote(v: Seq<char>, c: char)
    requires
        v.len() > 0,
        v[0] != c,
        v.last() != c,
    ensures
        trim_end_char(crate::skill::trim_start_char(seq![c] + v + seq![c], c), c) == v,
{
    let s = seq![c] + v + seq![c];
    let t = v + seq![c];
    assert(s[0] == c);
    assert(s.skip(1) =~= t);
    assert(t[0] == v[0]);
    assert(crate::skill::trim_start_char(t, c) == t);
    assert(crate::skill::trim_start_char(s, c) == t);
    assert(t.last() == c);
    assert(t.drop_last() =~= v);
    assert(trim_end_char(v, c) == v);
    assert(trim_end_char(t, c) == v);
}

/// A skill is a block between lines of hyphens, which names and describes it, and
/// behind it the instructions.
pub proof fn law_skill_is_read(path: Seq<char>, front: Seq<char>, body: Seq<char>)
    requires
        forall|k: int|
            0 <= k < front.len() ==> !#[trigger] occurs_at(
                front + "\n---"@ + body,
                "\n---"@,
                k,
            ),
    ensures
        ({
            let raw = "---\n"@ + (front + "\n---"@ + body);
            let name = field_in(lines(front), "name"@);
            let description = field_in(lines(front), "description"@);
            skill_in(path, raw) == match (name, description) {
                (Some(name), Some(description)) => Ok::<SkillView, SkillErrorView>(
                    SkillView { name, description, body: trim(body) },
                ),
                (None, _) => Err(SkillErrorView::MissingField(path, "name"@)),
                (_, None) => Err(SkillErrorView::MissingField(path, "description"@)),
            }
        }),
{
    reveal_strlit("---\n");
    reveal_strlit("\u{feff}");
    let rest = front + "\n---"@ + body;
    let raw = "---\n"@ + rest;
    let n = front.len() as int;
    let m = "\n---"@.len() as int;
    let h = "---\n"@.len() as int;
    assert("---\n"@[0] == '-');
    assert(raw[0] == '-');
    if starts_with(raw, "\u{feff}"@) {
        assert(raw.take(1)[0] == "\u{feff}"@[0]);
    }
    assert(raw.take(h) =~= "---\n"@);
    assert(raw.skip(h) =~= rest);
    lemma_find_from(rest, "\n---"@, 0);
    assert(rest.subrange(n, n + m) =~= "\n---"@);
    assert(occurs_at(rest, "\n---"@, n));
    assert(find_from(rest, "\n---"@, 0) == Some(n));
    assert(rest.take(n) =~= front);
    assert(rest.skip(n + m) =~= body);
}

/// Skills are loaded one file after the other; the first that is wrong is the
/// error.
pub proof fn law_first_wrong_skill_is_the_error(files: Seq<SkillFileView>, f: SkillFileView)
    ensures
        skills_in(files) matches Err(e) ==> skills_in(files.push(f)) == Err::<
            Seq<SkillView>,
            SkillErrorView,
        >(e),
        skills_in(files) is Ok ==> (skill_of(f) matches Err(e) ==> skills_in(files.push(f)) == Err::<
            Seq<SkillView>,
            SkillErrorView,
        >(e)),
        skills_in(files) matches Ok(skills) ==> (skill_of(f) matches Ok(s) ==> ((forall|i: int|
            0 <= i < skills.len() ==> (#[trigger] skills[i]).name != s.name) ==> skills_in(
            files.push(f),
        ) == Ok::<Seq<SkillView>, SkillErrorView>(skills.push(s)))),
        f.content matches Err(e) ==> skill_of(f) == Err::<SkillView, SkillErrorView>(
            SkillErrorView::Io(f.path, e),
        ),
{
    assert(files.push(f).drop_last() =~= files);
    if let Ok(skills) = skills_in(files) {
        if let Ok(s) = skill_of(f) {
            lemma_skill_at(skills, s.name, 0);
        }
    }
}

proof fn lemma_skill_at(skills: Seq<SkillView>, name: Seq<char>, i: int)
    requires
        0 <= i,
    ensures
        match skill_at(skills, name, i) {
            Some(k) => i <= k < skills.len() && skills[k].name == name && forall|j: int|
                i <= j < k ==> (#[trigger] skills[j]).name != name,
            None => forall|j: int| i <= j < skills.len() ==> (#[trigger] skills[j]).name != name,
        },
    decreases skills.len() - i,
{
    if i < skills.len() && skills[i].name != name {
        lemma_skill_at(skills, name, i + 1);
    }
}

/// A skill that is asked for by its name gives its instructions; any other name
/// is an error that lists the skills.
pub proof fn law_skill_gives_its_instructions(
    skills: Seq<SkillView>,
    arguments: JsonTree,
    k: int,
)
    ensures
        0 <= k < skills.len() && text_member(arguments, "name"@) == Some(skills[k].name) && (forall|
            j: int,
        |
            0 <= j < k ==> (#[trigger] skills[j]).name != skills[k].name) ==> skill_outcome(
            skills,
            arguments,
        ).content == skills[k].body && !skill_outcome(skills, arguments).is_error,
        text_member(arguments, "name"@) matches Some(name) ==> ((forall|j: int|
            0 <= j < skills.len() ==> (#[trigger] skills[j]).name != name) ==> skill_outcome(
            skills,
            arguments,
        ).is_error && skill_outcome(skills, arguments).content == "unknown skill '"@ + name
            + "' -- available: "@ + join(skill_names(skills), ", "@)),
        text_member(arguments, "name"@) is None ==> skill_outcome(skills, arguments).is_error
            && skill_outcome(skills, arguments).content == "missing required argument 'name'"@,
        skill_names(skills).len() == skills.len(),
        forall|j: int|
            0 <= j < skills.len() ==> #[trigger] skill_names(skills)[j] == skills[j].name,
{
    if let Some(name) = text_member(arguments, "name"@) {
        lemma_skill_at(skills, name, 0);
    }
}

/// The tool for skills tells each skill with its description.
pub proof fn law_skill_tool_lists_the_skills(skills: Seq<SkillView>)
    ensures
        skills.len() == 0 ==> tool_text(skills)
            == "Loads the full instructions for a named project skill."@,
        skills.len() > 0 ==> tool_text(skills)
            == "Loads the full instructions for a named project skill. Call this before attempting a task that matches one of the skills below -- the short description alone is not enough to act on, load the skill body first.\n\nAvailable skills:\n"@
            + join(
            Seq::new(
                skills.len(),
                |i: int| "- "@ + skills[i].name + ": "@ + skills[i].description,
            ),
            "\n"@,
        ),
{
    assert(crate::skill::skill_lines(skills) =~= Seq::new(
        skills.len(),
        |i: int| "- "@ + skills[i].name + ": "@ + skills[i].description,
    ));
}

// ---------------------------------------------------------------------------
// Messages between agents
// ---------------------------------------------------------------------------

/// What is taken for a name are the messages to it, in their order; the others
/// stay, in theirs.
pub proof fn law_mail_is_for_its_addressee(
    a: Seq<MailView>,
    b: Seq<MailView>,
    m: MailView,
    name: Seq<char>,
)
    ensures
        addressed(a + b, name, true) == addressed(a, name, true) + addressed(b, name, true),
        addressed(a + b, name, false) == addressed(a, name, false) + addressed(b, name, false),
        m.to == name ==> addressed(seq![m], name, true) == seq![m] && addressed(
            seq![m],
            name,
            false,
        ).len() == 0,
        m.to != name ==> addressed(seq![m], name, true).len() == 0 && addressed(
            seq![m],
            name,
            false,
        ) == seq![m],
    decreases b.len(),
{
    assert(seq![m].drop_last() =~= Seq::empty());
    reveal_with_fuel(addressed, 2);
    assert(Seq::<MailView>::empty().push(m) =~= seq![m]);
    if b.len() == 0 {
        assert(a + b =~= a);
        assert(addressed(a, name, true) + addressed(b, name, true) =~= addressed(a, name, true));
        assert(addressed(a, name, false) + addressed(b, name, false) =~= addressed(a, name, false));
    } else {
        law_mail_is_for_its_addressee(a, b.drop_last(), m, name);
        assert((a + b).drop_last() =~= a + b.drop_last());
        assert(addressed(a + b, name, true) =~= addressed(a, name, true) + addressed(
            b,
            name,
            true,
        ));
        assert(addressed(a + b, name, false) =~= addressed(a, name, false) + addressed(
            b,
            name,
            false,
        ));
    }
}

/// A mark for the order of bytes before a skill makes no difference, and its lines
/// may end in the other way.
pub proof fn law_skill_may_start_with_a_mark(path: Seq<char>, raw: Seq<char>, rest: Seq<char>)
    requires
        raw.len() > 0,
        raw[0] != '\u{feff}',
    ensures
        skill_in(path, seq!['\u{feff}'] + raw) == skill_in(path, raw),
        skill_in(path, "---\r\n"@ + rest) == skill_in(path, "---\n"@ + rest),
{
    reveal_strlit("\u{feff}");
    reveal_strlit("---\n");
    reveal_strlit("---\r\n");
    assert("\u{feff}"@ =~= seq!['\u{feff}']);
    let s = seq!['\u{feff}'] + raw;
    assert(s.take(1) =~= "\u{feff}"@);
    assert(s.skip(1) =~= raw);
    if starts_with(raw, "\u{feff}"@) {
        assert(raw.take(1)[0] == '\u{feff}');
    }
    let a = "---\r\n"@ + rest;
    let b = "---\n"@ + rest;
    assert("---\r\n"@[0] == '-' && "---\n"@[0] == '-');
    assert(a[0] == '-' && b[0] == '-');
    if starts_with(a, "\u{feff}"@) {
        assert(a.take(1)[0] == '\u{feff}');
    }
    if starts_with(b, "\u{feff}"@) {
        assert(b.take(1)[0] == '\u{feff}');
    }
    assert("---\r\n"@.len() == 5 && "---\n"@.len() == 4);
    assert("---\r\n"@[3] == '\r' && "---\n"@[3] == '\n');
    assert(a.take(5) =~= "---\r\n"@);
    assert(a.skip(5) =~= rest);
    assert(b.take(4) =~= "---\n"@);
    assert(b.skip(4) =~= rest);
    if starts_with(a, "---\n"@) {
        assert(a.take(4)[3] == '\n');
        assert(a[3] == '\r');
    }
}

/// What does not open with a line of hyphens, or does not close that block, is no
/// skill.
pub proof fn law_skill_needs_its_block(path: Seq<char>, raw: Seq<char>, rest: Seq<char>)
    ensures
        raw.len() > 0 && raw[0] != '-' && raw[0] != '\u{feff}' ==> skill_in(path, raw) == Err::<
            SkillView,
            SkillErrorView,
        >(SkillErrorView::MissingFrontmatter(path)),
        (forall|k: int| !#[trigger] occurs_at(rest, "\n---"@, k)) ==> skill_in(
            path,
            "---\n"@ + rest,
        ) == Err::<SkillView, SkillErrorView>(SkillErrorView::MissingFrontmatter(path)),
{
    reveal_strlit("\u{feff}");
    reveal_strlit("---\n");
    reveal_strlit("---\r\n");
    assert("---\n"@[0] == '-' && "---\r\n"@[0] == '-');
    assert("\u{feff}"@ =~= seq!['\u{feff}']);
    if starts_with(raw, "\u{feff}"@) {
        assert(raw.take(1)[0] == '\u{feff}');
    }
    if starts_with(raw, "---\n"@) {
        assert(raw.take(4)[0] == '-');
    }
    if starts_with(raw, "---\r\n"@) {
        assert(raw.take(5)[0] == '-');
    }
    let b = "---\n"@ + rest;
    assert(b[0] == '-');
    if starts_with(b, "\u{feff}"@) {
        assert(b.take(1)[0] == '\u{feff}');
    }
    assert(b.take(4) =~= "---\n"@);
    assert(b.skip(4) =~= rest);
    lemma_find_from(rest, "\n---"@, 0);
}

} // verus!
