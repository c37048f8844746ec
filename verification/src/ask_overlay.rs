//! The panel in which the user answers questions.
use vstd::prelude::*;

use crate::ansi::{plain, Color, Line, SpanView, Style};
use crate::ask::{AnswerView, AskAnswer, AskQuestion, OptionView, QuestionView};
use crate::input_box::{panel, panel_style, Key, KeyCode};
use crate::layout::{centered, centered_in, Rect};
use crate::model::{group_views, views};
use crate::text::{decimal, decimal_text, trim, trimmed};

verus! {

broadcast use group_views;

/// What a key did to the panel.
pub enum AskOverlayOutcome {
    Continue,
    /// All questions are answered.
    Finished(Vec<AskAnswer>),
}

#[verifier::ext_equal]
pub enum OverlayOutcomeView {
    Continue,
    Finished(Seq<AnswerView>),
}

impl View for AskOverlayOutcome {
    type V = OverlayOutcomeView;

    open spec fn view(&self) -> OverlayOutcomeView {
        match self {
            AskOverlayOutcome::Continue => OverlayOutcomeView::Continue,
            AskOverlayOutcome::Finished(a) => OverlayOutcomeView::Finished(views(a@)),
        }
    }
}

/// Where the user is in a list of questions.
pub struct AskOverlayState {
    questions: Vec<AskQuestion>,
    current: usize,
    highlighted: usize,
    checked: Vec<bool>,
    writing: bool,
    text_buffer: Vec<char>,
    answers: Vec<AskAnswer>,
}

#[verifier::ext_equal]
pub struct OverlayView {
    pub questions: Seq<QuestionView>,
    /// The question that is shown.
    pub current: nat,
    /// The row that is marked: an option, or the one behind them for an answer
    /// in the user's own words.
    pub highlighted: nat,
    /// The options that are chosen, where several may be.
    pub checked: Seq<bool>,
    /// Whether the user writes an answer.
    pub writing: bool,
    pub text_buffer: Seq<char>,
    pub answers: Seq<AnswerView>,
}

impl View for AskOverlayState {
    type V = OverlayView;

    closed spec fn view(&self) -> OverlayView {
        OverlayView {
            questions: views(self.questions@),
            current: self.current as nat,
            highlighted: self.highlighted as nat,
            checked: self.checked@,
            writing: self.writing,
            text_buffer: self.text_buffer@,
            answers: views(self.answers@),
        }
    }
}

impl OverlayView {
    /// A question is shown, a row of it is marked, and those before it are
    /// answered, each with something.
    pub open spec fn well_formed(self) -> bool {
        &&& self.current < self.questions.len()
        &&& forall|i: int| 0 <= i < self.questions.len() ==> (
        #[trigger] self.questions[i]).options.len() < usize::MAX
        &&& self.highlighted <= self.questions[self.current as int].options.len()
        &&& self.checked.len() == self.questions[self.current as int].options.len()
        &&& self.answers.len() == self.current
        &&& forall|i: int|
            0 <= i < self.current ==> (#[trigger] self.answers[i]).header
                == self.questions[i].header && self.answers[i].selected.len() > 0
    }

    /// The question that is shown.
    pub open spec fn question(self) -> QuestionView {
        self.questions[self.current as int]
    }
}

/// The labels of the chosen options.
pub open spec fn chosen(options: Seq<OptionView>, checked: Seq<bool>) -> Seq<Seq<char>>
    decreases options.len(),
{
    if options.len() == 0 || checked.len() == 0 {
        Seq::empty()
    } else {
        let rest = chosen(options.drop_last(), checked.drop_last());
        if checked.last() {
            rest.push(options.last().label)
        } else {
            rest
        }
    }
}

proof fn lemma_something_chosen(options: Seq<OptionView>, checked: Seq<bool>)
    requires
        options.len() == checked.len(),
        checked.contains(true),
    ensures
        chosen(options, checked).len() > 0,
    decreases options.len(),
{
    let i = choose|i: int| 0 <= i < checked.len() && checked[i] == true;
    if !checked.last() {
        assert(checked.drop_last()[i] == true);
        lemma_something_chosen(options.drop_last(), checked.drop_last());
    }
}

/// No option chosen.
pub open spec fn unchecked(n: nat) -> Seq<bool> {
    Seq::new(n, |i: int| false)
}

/// The answer is taken and the next question shown; behind the last one the
/// answers are given out.
pub open spec fn answered(s: OverlayView, selected: Seq<Seq<char>>) -> (
    OverlayView,
    OverlayOutcomeView,
) {
    let answers = s.answers.push(AnswerView { header: s.question().header, selected });
    let next = s.current + 1;
    if next == s.questions.len() {
        (
            OverlayView { answers: Seq::empty(), current: next, ..s },
            OverlayOutcomeView::Finished(answers),
        )
    } else {
        (
            OverlayView {
                answers,
                current: next,
                highlighted: 0,
                checked: unchecked(s.questions[next as int].options.len()),
                writing: false,
                ..s
            },
            OverlayOutcomeView::Continue,
        )
    }
}

/// What stands for the answer to a question that was passed over.
pub open spec fn skipped(q: QuestionView) -> AnswerView {
    AnswerView { header: q.header, selected: seq!["(skipped)"@] }
}

/// What stands for the answers to some questions that were passed over.
pub open spec fn all_skipped(qs: Seq<QuestionView>) -> Seq<AnswerView> {
    Seq::new(qs.len(), |i: int| skipped(qs[i]))
}

/// The answers when the remaining questions are passed over.
pub open spec fn with_skipped(s: OverlayView) -> Seq<AnswerView> {
    s.answers + all_skipped(s.questions.skip(s.current as int))
}

/// The option that a digit stands for.
pub open spec fn digit_choice(c: char) -> Option<nat> {
    if '1' <= c <= '9' {
        Some((c as u32 - '1' as u32) as nat)
    } else {
        None
    }
}

/// The state with one option chosen or no longer chosen.
pub open spec fn toggled(s: OverlayView, i: nat) -> OverlayView {
    OverlayView { checked: s.checked.update(i as int, !s.checked[i as int]), ..s }
}

/// What a key does in the list of options.
pub open spec fn list_key(s: OverlayView, code: KeyCode) -> (OverlayView, OverlayOutcomeView) {
    let n = s.question().options.len();
    let stay = OverlayOutcomeView::Continue;
    match code {
        KeyCode::Esc => (
            OverlayView { answers: Seq::empty(), current: s.questions.len(), ..s },
            OverlayOutcomeView::Finished(with_skipped(s)),
        ),
        KeyCode::Enter => if s.highlighted == n {
            (OverlayView { writing: true, text_buffer: Seq::empty(), ..s }, stay)
        } else if s.question().multi_select {
            if s.checked.contains(true) {
                answered(s, chosen(s.question().options, s.checked))
            } else {
                (s, stay)
            }
        } else {
            answered(s, seq![s.question().options[s.highlighted as int].label])
        },
        _ => if code == KeyCode::Up || code == KeyCode::Char('k') {
            (
                OverlayView {
                    highlighted: if s.highlighted == 0 {
                        n
                    } else {
                        (s.highlighted - 1) as nat
                    },
                    ..s
                },
                stay,
            )
        } else if code == KeyCode::Down || code == KeyCode::Char('j') {
            (
                OverlayView {
                    highlighted: if s.highlighted == n {
                        0
                    } else {
                        s.highlighted + 1
                    },
                    ..s
                },
                stay,
            )
        } else if code == KeyCode::Char(' ') && s.question().multi_select && s.highlighted < n {
            (toggled(s, s.highlighted), stay)
        } else {
            match code {
                KeyCode::Char(c) => match digit_choice(c) {
                    Some(i) => if i >= n {
                        (s, stay)
                    } else if s.question().multi_select {
                        (toggled(OverlayView { highlighted: i, ..s }, i), stay)
                    } else {
                        answered(
                            OverlayView { highlighted: i, ..s },
                            seq![s.question().options[i as int].label],
                        )
                    },
                    None => (s, stay),
                },
                _ => (s, stay),
            }
        },
    }
}

/// What a key does while the user writes an answer. It is the whole answer,
/// whatever options were chosen before.
pub open spec fn writing_key(s: OverlayView, code: KeyCode) -> (OverlayView, OverlayOutcomeView) {
    let stay = OverlayOutcomeView::Continue;
    match code {
        KeyCode::Esc => (OverlayView { writing: false, text_buffer: Seq::empty(), ..s }, stay),
        KeyCode::Backspace => (
            OverlayView {
                text_buffer: if s.text_buffer.len() > 0 {
                    s.text_buffer.drop_last()
                } else {
                    s.text_buffer
                },
                ..s
            },
            stay,
        ),
        KeyCode::Char(c) => (OverlayView { text_buffer: s.text_buffer.push(c), ..s }, stay),
        KeyCode::Enter => if trim(s.text_buffer).len() == 0 {
            (s, stay)
        } else {
            answered(
                OverlayView { text_buffer: Seq::empty(), ..s },
                seq![s.text_buffer],
            )
        },
        _ => (s, stay),
    }
}

/// What a key does.
pub open spec fn overlay_key(s: OverlayView, code: KeyCode) -> (OverlayView, OverlayOutcomeView) {
    if s.writing {
        writing_key(s, code)
    } else {
        list_key(s, code)
    }
}

fn none_checked(n: usize) -> (r: Vec<bool>)
    ensures
        r@ == unchecked(n as nat),
{
    let mut r: Vec<bool> = Vec::new();
    for i in 0..n
        invariant
            r@.len() == i,
            forall|k: int| 0 <= k < i ==> r@[k] == false,
    {
        r.push(false);
    }
    assert(r@ =~= unchecked(n as nat));
    r
}

impl AskOverlayState {
    /// The panel at the first of some questions.
    pub fn new(questions: Vec<AskQuestion>) -> (r: AskOverlayState)
        requires
            questions@.len() > 0,
            forall|i: int|
                0 <= i < questions@.len() ==> (#[trigger] views(questions@)[i]).options.len()
                    < usize::MAX,
        ensures
            r@ == (OverlayView {
                questions: views(questions@),
                current: 0,
                highlighted: 0,
                checked: unchecked(questions@[0].options@.len()),
                writing: false,
                text_buffer: Seq::empty(),
                answers: Seq::empty(),
            }),
            r@.well_formed(),
    {
        let checked = none_checked(questions[0].options.len());
        AskOverlayState {
            questions,
            current: 0,
            highlighted: 0,
            checked,
            writing: false,
            text_buffer: Vec::new(),
            answers: Vec::new(),
        }
    }

    /// The question that is shown.
    pub fn current_question(&self) -> (r: &AskQuestion)
        requires
            self@.well_formed(),
        ensures
            r@ == self@.question(),
    {
        &self.questions[self.current]
    }

    /// The number of rows: the options, and one for the user's own words.
    pub fn row_count(&self) -> (r: usize)
        requires
            self@.well_formed(),
        ensures
            r == self@.question().options.len() + 1,
    {
        let n: usize = self.questions[self.current].options.len();
        assert(self@.questions[self.current as int].options.len() == n);
        n + 1
    }

    /// The labels of the chosen options.
    pub fn checked_labels(&self) -> (r: Vec<String>)
        requires
            self@.well_formed(),
        ensures
            views(r@) == chosen(self@.question().options, self@.checked),
    {
        let options = &self.questions[self.current].options;
        let ghost os = views(options@);
        let ghost cs = self.checked@;
        let mut r: Vec<String> = Vec::new();
        for i in 0..options.len()
            invariant
                os == views(options@),
                cs == self.checked@,
                cs.len() == os.len(),
                views(r@) == chosen(os.take(i as int), cs.take(i as int)),
        {
            assert(os.take(i + 1).drop_last() == os.take(i as int));
            assert(cs.take(i + 1).drop_last() == cs.take(i as int));
            if self.checked[i] {
                r.push(options[i].label.clone());
            }
        }
        assert(os.take(os.len() as int) == os);
        assert(cs.take(cs.len() as int) == cs);
        r
    }

    fn push_answer_and_advance(&mut self, selected: Vec<String>) -> (r: AskOverlayOutcome)
        requires
            old(self)@.well_formed(),
            selected@.len() > 0,
        ensures
            (final(self)@, r@) == answered(old(self)@, views(selected@)),
            r is Continue ==> final(self)@.well_formed(),
    {
        let header = self.questions[self.current].header.clone();
        let ghost before = views(self.answers@);
        let answer = AskAnswer { header, selected };
        let ghost a = answer@;
        self.answers.push(answer);
        assert(views(self.answers@) == before.push(a));
        let n: usize = self.questions.len();
        self.current = self.current + 1;
        if self.current == n {
            let mut answers: Vec<AskAnswer> = Vec::new();
            std::mem::swap(&mut answers, &mut self.answers);
            return AskOverlayOutcome::Finished(answers);
        }
        self.highlighted = 0;
        self.checked = none_checked(self.questions[self.current].options.len());
        self.writing = false;
        AskOverlayOutcome::Continue
    }

    /// Answers with one option.
    pub fn select_option(&mut self, idx: usize) -> (r: AskOverlayOutcome)
        requires
            old(self)@.well_formed(),
            idx < old(self)@.question().options.len(),
        ensures
            (final(self)@, r@) == answered(
                old(self)@,
                seq![old(self)@.question().options[idx as int].label],
            ),
            r is Continue ==> final(self)@.well_formed(),
    {
        let label = self.questions[self.current].options[idx].label.clone();
        let ghost l = label@;
        let mut selected: Vec<String> = Vec::new();
        selected.push(label);
        assert(views(selected@) =~= seq![l]);
        assert(l == self@.question().options[idx as int].label);
        self.push_answer_and_advance(selected)
    }

    /// Answers with the chosen options, of which there is one at least.
    fn finish_multi_select(&mut self) -> (r: AskOverlayOutcome)
        requires
            old(self)@.well_formed(),
            old(self)@.checked.contains(true),
        ensures
            (final(self)@, r@) == answered(
                old(self)@,
                chosen(old(self)@.question().options, old(self)@.checked),
            ),
            r is Continue ==> final(self)@.well_formed(),
    {
        let selected = self.checked_labels();
        proof {
            lemma_something_chosen(self@.question().options, self@.checked);
        }
        self.push_answer_and_advance(selected)
    }

    /// Passes over the question that is shown and all behind it.
    pub fn skip_remaining(&mut self) -> (r: Vec<AskAnswer>)
        requires
            old(self)@.well_formed(),
        ensures
            views(r@) == with_skipped(old(self)@),
            final(self)@ == (OverlayView {
                answers: Seq::empty(),
                current: old(self)@.questions.len(),
                ..old(self)@
            }),
    {
        let ghost start = self.current as int;
        let ghost before = views(self.answers@);
        let ghost qs = views(self.questions@);
        let ghost tail = all_skipped(qs.skip(start));
        let n: usize = self.questions.len();
        let mut answers: Vec<AskAnswer> = Vec::new();
        std::mem::swap(&mut answers, &mut self.answers);
        assert(before + tail.take(0) =~= before);
        for i in self.current..n
            invariant
                n == self.questions@.len(),
                0 <= start <= n,
                qs == views(self.questions@),
                tail == all_skipped(qs.skip(start)),
                views(answers@) == before + tail.take(i - start),
                start <= i,
        {
            let header = self.questions[i].header.clone();
            let mut selected: Vec<String> = Vec::new();
            selected.push("(skipped)".to_owned());
            assert(views(selected@) =~= seq!["(skipped)"@]);
            let answer = AskAnswer { header, selected };
            assert(answer@ == tail[i - start]);
            let ghost so_far = views(answers@);
            answers.push(answer);
            assert(views(answers@) == so_far.push(tail[i - start]));
            assert(before + tail.take(i - start + 1) =~= (before + tail.take(i - start)).push(
                tail[i - start],
            ));
        }
        assert(tail.take(tail.len() as int) == tail);
        self.current = n;
        answers
    }

    fn any_checked(&self) -> (r: bool)
        ensures
            r == self@.checked.contains(true),
    {
        for i in 0..self.checked.len()
            invariant
                forall|k: int| 0 <= k < i ==> self.checked@[k] == false,
        {
            if self.checked[i] {
                assert(self.checked@[i as int] == true);
                return true;
            }
        }
        false
    }

    fn toggle(&mut self, i: usize)
        requires
            i < old(self)@.checked.len(),
        ensures
            final(self)@ == toggled(old(self)@, i as nat),
    {
        let flipped = !self.checked[i];
        self.checked[i] = flipped;
    }

    fn handle_list_key(&mut self, code: KeyCode) -> (r: AskOverlayOutcome)
        requires
            old(self)@.well_formed(),
        ensures
            (final(self)@, r@) == list_key(old(self)@, code),
            r is Continue ==> final(self)@.well_formed(),
    {
        let n: usize = self.questions[self.current].options.len();
        let multi = self.questions[self.current].multi_select;
        assert(n == self@.question().options.len());
        match code {
            KeyCode::Esc => {
                return AskOverlayOutcome::Finished(self.skip_remaining());
            },
            KeyCode::Enter => {
                if self.highlighted == n {
                    self.writing = true;
                    self.text_buffer = Vec::new();
                    return AskOverlayOutcome::Continue;
                }
                if multi {
                    return if self.any_checked() {
                        self.finish_multi_select()
                    } else {
                        AskOverlayOutcome::Continue
                    };
                }
                return self.select_option(self.highlighted);
            },
            _ => {},
        }
        if code == KeyCode::Up || code == KeyCode::Char('k') {
            self.highlighted = if self.highlighted == 0 {
                n
            } else {
                self.highlighted - 1
            };
        } else if code == KeyCode::Down || code == KeyCode::Char('j') {
            self.highlighted = if self.highlighted == n {
                0
            } else {
                self.highlighted + 1
            };
        } else if code == KeyCode::Char(' ') && multi && self.highlighted < n {
            self.toggle(self.highlighted);
        } else if let KeyCode::Char(c) = code {
            if '1' <= c && c <= '9' {
                let i: usize = (c as u32 - '1' as u32) as usize;
                if i < n {
                    self.highlighted = i;
                    if multi {
                        self.toggle(i);
                    } else {
                        return self.select_option(i);
                    }
                }
            }
        }
        AskOverlayOutcome::Continue
    }

    fn handle_text_input_key(&mut self, code: KeyCode) -> (r: AskOverlayOutcome)
        requires
            old(self)@.well_formed(),
        ensures
            (final(self)@, r@) == writing_key(old(self)@, code),
            r is Continue ==> final(self)@.well_formed(),
    {
        match code {
            KeyCode::Esc => {
                self.writing = false;
                self.text_buffer = Vec::new();
            },
            KeyCode::Backspace => {
                let n: usize = self.text_buffer.len();
                if n > 0 {
                    self.text_buffer.truncate(n - 1);
                    assert(self.text_buffer@ =~= old(self).text_buffer@.drop_last());
                }
            },
            KeyCode::Char(c) => {
                self.text_buffer.push(c);
            },
            KeyCode::Enter => {
                let text = crate::text::text_of(&self.text_buffer);
                if trimmed(text.as_str()).as_str().unicode_len() > 0 {
                    self.text_buffer = Vec::new();
                    let ghost answer = text@;
                    let mut selected: Vec<String> = Vec::new();
                    selected.push(text);
                    assert(views(selected@) =~= seq![answer]);
                    return self.push_answer_and_advance(selected);
                }
            },
            _ => {},
        }
        AskOverlayOutcome::Continue
    }

    /// Handles a key.
    pub fn handle_key(&mut self, key: Key) -> (r: AskOverlayOutcome)
        requires
            old(self)@.well_formed(),
        ensures
            (final(self)@, r@) == overlay_key(old(self)@, key.code),
            r is Continue ==> final(self)@.well_formed(),
    {
        if self.writing {
            self.handle_text_input_key(key.code)
        } else {
            self.handle_list_key(key.code)
        }
    }
}

/// When the panel is left, every question has been answered once, in order, and
/// no answer is empty.
pub proof fn law_every_question_is_answered(s: OverlayView, code: KeyCode)
    requires
        s.well_formed(),
        overlay_key(s, code).1 is Finished,
    ensures
        ({
            let answers = overlay_key(s, code).1->Finished_0;
            &&& answers.len() == s.questions.len()
            &&& forall|i: int|
                0 <= i < answers.len() ==> (#[trigger] answers[i]).header == s.questions[i].header
                    && answers[i].selected.len() > 0
        }),
{
    if s.checked.contains(true) {
        lemma_something_chosen(s.question().options, s.checked);
    }
    let answers = overlay_key(s, code).1->Finished_0;
    assert forall|i: int| 0 <= i < answers.len() implies (#[trigger] answers[i]).header
        == s.questions[i].header && answers[i].selected.len() > 0 by {
        if i < s.current {
            assert(answers[i] == s.answers[i]);
        }
    }
}

// ---------------------------------------------------------------------------
// How the panel is drawn
// ---------------------------------------------------------------------------

/// The title of the panel.
pub open spec fn title_text(s: OverlayView) -> Seq<char> {
    " Question "@ + decimal(s.current + 1) + " of "@ + decimal(s.questions.len()) + " "@
}

/// The mark before a row.
pub open spec fn row_mark(s: OverlayView, i: nat) -> Seq<char> {
    if s.question().multi_select && i < s.checked.len() {
        if s.checked[i as int] {
            "[x] "@
        } else {
            "[ ] "@
        }
    } else if i == s.highlighted {
        "❯ "@
    } else {
        "  "@
    }
}

/// The text of a row.
pub open spec fn row_text(
    s: OverlayView,
    i: nat,
    label: Seq<char>,
    description: Seq<char>,
) -> Seq<char> {
    let head = row_mark(s, i) + decimal(i + 1) + ". "@ + label;
    if description.len() == 0 {
        head
    } else {
        head + " -- "@ + description
    }
}

/// The style of a row.
pub open spec fn row_style(s: OverlayView, i: nat, color: bool) -> Style {
    if color && i == s.highlighted {
        Style { bold: true, fg: Some(Color::Yellow), ..panel_style(color) }
    } else {
        panel_style(color)
    }
}

/// The row of an option, or of the user's own words.
pub open spec fn row_line(s: OverlayView, i: nat, color: bool) -> Seq<SpanView> {
    let options = s.question().options;
    let (label, description) = if i < options.len() {
        (options[i as int].label, options[i as int].description)
    } else {
        ("Other"@, "type your own answer"@)
    };
    seq![SpanView { content: row_text(s, i, label, description), style: row_style(s, i, color) }]
}

/// A line of one text in the style of the panel.
pub open spec fn panel_line(text: Seq<char>, style: Style) -> Seq<SpanView> {
    seq![SpanView { content: text, style }]
}

/// What the keys do.
pub open spec fn key_help(s: OverlayView) -> Seq<char> {
    if s.writing {
        "Enter confirm · Esc back"@
    } else if s.question().multi_select {
        "↑↓ move · Space toggle · 1-9 jump · Enter confirm · Esc skip"@
    } else {
        "↑↓ move · 1-9 select · Enter select · Esc skip"@
    }
}

/// The lines between the question and the help.
pub open spec fn body_lines(s: OverlayView, color: bool) -> Seq<Seq<SpanView>> {
    if s.writing {
        seq![panel_line("> "@ + s.text_buffer + "_"@, panel_style(color))]
    } else {
        Seq::new(s.question().options.len() + 1, |i: int| row_line(s, i as nat, color))
    }
}

/// The lines of the panel.
pub open spec fn panel_lines(s: OverlayView, color: bool) -> Seq<Seq<SpanView>> {
    let style = panel_style(color);
    seq![
        panel_line(s.question().header, Style { bold: true, ..style }),
        panel_line(s.question().question, style),
        panel_line(Seq::empty(), plain()),
    ] + body_lines(s, color) + seq![
        panel_line(Seq::empty(), plain()),
        panel_line(key_help(s), Style { dim: true, ..style }),
    ]
}

/// The area of the panel on a screen.
pub open spec fn modal_of(area: Rect) -> Rect {
    let height = if area.height < 2 {
        0
    } else {
        area.height - 2
    };
    centered_in(
        area,
        70,
        if height < 60 {
            height as u16
        } else {
            60
        },
    )
}

/// The area of the panel on a screen.
pub fn modal(area: Rect) -> (r: Rect)
    requires
        area.fits(),
    ensures
        r == modal_of(area),
{
    let height: u16 = if area.height < 2 {
        0
    } else {
        area.height - 2
    };
    centered(
        area,
        70,
        if height < 60 {
            height
        } else {
            60
        },
    )
}

impl AskOverlayState {
    /// The title of the panel.
    pub fn title(&self) -> (r: String)
        requires
            self@.well_formed(),
        ensures
            r@ == title_text(self@),
    {
        let n: usize = self.questions.len();
        let mut r = " Question ".to_owned();
        r.append(decimal_text(self.current as u64 + 1).as_str());
        r.append(" of ");
        r.append(decimal_text(n as u64).as_str());
        r.append(" ");
        r
    }

    /// The row of an option, or of the user's own words.
    pub fn option_line(&self, idx: usize, color: bool) -> (r: Line)
        requires
            self@.well_formed(),
            idx <= self@.question().options.len(),
        ensures
            r@ == row_line(self@, idx as nat, color),
    {
        let question = &self.questions[self.current];
        assert(question.options@.len() == self@.question().options.len());
        let n: usize = question.options.len();
        let marked = idx == self.highlighted;
        let mark = if question.multi_select && idx < self.checked.len() {
            if self.checked[idx] {
                "[x] "
            } else {
                "[ ] "
            }
        } else if marked {
            "❯ "
        } else {
            "  "
        };
        let base = panel(color);
        let style = if color && marked {
            Style { bold: true, fg: Some(Color::Yellow), ..base }
        } else {
            base
        };
        let mut text = mark.to_owned();
        text.append(decimal_text(idx as u64 + 1).as_str());
        text.append(". ");
        if idx < n {
            let option = &question.options[idx];
            assert(option@ == self@.question().options[idx as int]);
            text.append(option.label.as_str());
            if option.description.as_str().unicode_len() > 0 {
                text.append(" -- ");
                text.append(option.description.as_str());
            }
        } else {
            proof {
                reveal_strlit("type your own answer");
            }
            text.append("Other");
            text.append(" -- ");
            text.append("type your own answer");
        }
        Line::styled(text, style)
    }

    /// The lines of the panel.
    pub fn lines(&self, color: bool) -> (r: Vec<Line>)
        requires
            self@.well_formed(),
        ensures
            views(r@) == panel_lines(self@, color),
    {
        let question = &self.questions[self.current];
        let ghost s = self@;
        assert(question@ == s.question());
        let style = panel(color);
        let mut r: Vec<Line> = Vec::new();
        r.push(Line::styled(question.header.clone(), Style { bold: true, ..style }));
        r.push(Line::styled(question.question.clone(), style));
        r.push(Line::styled(String::new(), Style::default()));
        let ghost head = views(r@);
        assert(head =~= seq![
            panel_line(s.question().header, Style { bold: true, ..style }),
            panel_line(s.question().question, style),
            panel_line(Seq::empty(), plain()),
        ]);
        let ghost body = body_lines(s, color);
        if self.writing {
            let mut text = "> ".to_owned();
            text.append(crate::text::text_of(&self.text_buffer).as_str());
            text.append("_");
            r.push(Line::styled(text, style));
            assert(views(r@) =~= head + body);
        } else {
            let n: usize = question.options.len();
            assert(head + body.take(0) =~= head);
            for i in 0..n
                invariant
                    s == self@,
                    s.well_formed(),
                    !s.writing,
                    n == s.question().options.len(),
                    body == body_lines(s, color),
                    views(r@) == head + body.take(i as int),
            {
                let ghost so_far = views(r@);
                r.push(self.option_line(i, color));
                assert(views(r@) == so_far.push(body[i as int]));
                assert(head + body.take(i + 1) =~= (head + body.take(i as int)).push(
                    body[i as int],
                ));
            }
            let ghost so_far = views(r@);
            r.push(self.option_line(n, color));
            assert(views(r@) == so_far.push(body[n as int]));
            assert(views(r@) =~= head + body);
        }
        let ghost upper = views(r@);
        r.push(Line::styled(String::new(), Style::default()));
        let help = if self.writing {
            "Enter confirm · Esc back"
        } else if question.multi_select {
            "↑↓ move · Space toggle · 1-9 jump · Enter confirm · Esc skip"
        } else {
            "↑↓ move · 1-9 select · Enter select · Esc skip"
        };
        r.push(Line::styled(help.to_owned(), Style { dim: true, ..style }));
        assert(views(r@) =~= upper + seq![
            panel_line(Seq::empty(), plain()),
            panel_line(key_help(s), Style { dim: true, ..style }),
        ]);
        r
    }
}

} // verus!
