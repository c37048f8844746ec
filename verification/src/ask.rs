//! Questions to the user.
use vstd::prelude::*;

use crate::model::views;

verus! {


/// An answer that is offered.
pub struct AskOption {
    pub label: String,
    pub description: String,
}

/// A question.
pub struct AskQuestion {
    pub header: String,
    pub question: String,
    pub options: Vec<AskOption>,
    /// Whether several options may be chosen.
    pub multi_select: bool,
}

/// The labels that were chosen, or what the user wrote.
pub struct AskAnswer {
    pub header: String,
    pub selected: Vec<String>,
}

#[verifier::ext_equal]
pub struct OptionView {
    pub label: Seq<char>,
    pub description: Seq<char>,
}

#[verifier::ext_equal]
pub struct QuestionView {
    pub header: Seq<char>,
    pub question: Seq<char>,
    pub options: Seq<OptionView>,
    pub multi_select: bool,
}

#[verifier::ext_equal]
pub struct AnswerView {
    pub header: Seq<char>,
    pub selected: Seq<Seq<char>>,
}

impl View for AskOption {
    type V = OptionView;

    open spec fn view(&self) -> OptionView {
        OptionView { label: self.label@, description: self.description@ }
    }
}

impl View for AskQuestion {
    type V = QuestionView;

    open spec fn view(&self) -> QuestionView {
        QuestionView {
            header: self.header@,
            question: self.question@,
            options: views(self.options@),
            multi_select: self.multi_select,
        }
    }
}

impl View for AskAnswer {
    type V = AnswerView;

    open spec fn view(&self) -> AnswerView {
        AnswerView { header: self.header@, selected: views(self.selected@) }
    }
}

} // verus!
