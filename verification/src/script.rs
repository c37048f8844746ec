//! What an engine for `mq` scripts is to do, and what its answers mean.
//!
//! A script may read files and the clock, and it may fail, end the program or
//! never come back. So the engine stands outside; here is which steps it is
//! given, and what is made of the values that come out.
use vstd::prelude::*;

use crate::json::{value_contents, Json, JsonTree};
use crate::model::{group_views, views};

verus! {

broadcast use group_views;

/// A step of an engine.
pub enum ScriptStep {
    /// Modules are looked for in this directory.
    SearchDir(String),
    /// A value is put under a name.
    Define { name: String, value: Json },
    /// The module of this name is loaded.
    Module(String),
    /// Code is evaluated without an input.
    Eval(String),
}

#[verifier::ext_equal]
pub enum StepView {
    SearchDir(Seq<char>),
    Define { name: Seq<char>, value: JsonTree },
    Module(Seq<char>),
    Eval(Seq<char>),
}

impl View for ScriptStep {
    type V = StepView;

    open spec fn view(&self) -> StepView {
        match self {
            ScriptStep::SearchDir(dir) => StepView::SearchDir(dir@),
            ScriptStep::Define { name, value } => StepView::Define { name: name@, value: value@ },
            ScriptStep::Module(name) => StepView::Module(name@),
            ScriptStep::Eval(code) => StepView::Eval(code@),
        }
    }
}

/// The steps that evaluate code with a value under a name.
pub open spec fn evaluating(name: Seq<char>, value: JsonTree, code: Seq<char>) -> Seq<StepView> {
    seq![StepView::Define { name, value }, StepView::Eval(code)]
}

/// The steps that evaluate code with a value under a name.
pub fn eval_steps(name: &str, value: &Json, code: &str) -> (r: Vec<ScriptStep>)
    ensures
        views(r@) == evaluating(name@, value@, code@),
{
    let mut r: Vec<ScriptStep> = Vec::new();
    r.push(ScriptStep::Define { name: name.to_owned(), value: value.copy() });
    r.push(ScriptStep::Eval(code.to_owned()));
    assert(views(r@) =~= evaluating(name@, value@, code@));
    r
}

/// A value of a script.
#[verifier::external_type_specification]
#[verifier::external_body]
pub struct ExRuntimeValue(mq_lang::RuntimeValue);

/// What `mq_lang::RuntimeValue::to_json_value` gives for a value.
pub uninterp spec fn runtime_json(value: mq_lang::RuntimeValue) -> JsonTree;

/// The texts of the items of a value that is a list.
pub uninterp spec fn runtime_items(value: mq_lang::RuntimeValue) -> Option<Seq<Seq<char>>>;

/// A value as JSON (`mq_lang::RuntimeValue::to_json_value`).
#[verifier::external_body]
fn json_value(value: &mq_lang::RuntimeValue) -> (r: serde_json::Value)
    ensures
        value_contents(r) == runtime_json(*value),
{
    value.clone().to_json_value()
}

/// The items of an `mq_lang::RuntimeValue::Array` as texts (`to_string`), or
/// nothing for any other value.
#[verifier::external_body]
fn array_items(value: &mq_lang::RuntimeValue) -> (r: Option<Vec<String>>)
    ensures
        texts_view(r) == runtime_items(*value),
{
    match value {
        mq_lang::RuntimeValue::Array(items) => Some(items.iter().map(|v| v.to_string()).collect()),
        _ => None,
    }
}

/// What an evaluation gave: its values, or the text of the error.
pub type Evaluation = Result<Vec<mq_lang::RuntimeValue>, String>;

/// The texts of a list, if there is one.
pub open spec fn texts_view(v: Option<Vec<String>>) -> Option<Seq<Seq<char>>> {
    match v {
        Some(texts) => Some(views(texts@)),
        None => None,
    }
}

/// The first value that an evaluation gave, as JSON; where there is none, null.
pub open spec fn json_of(r: Evaluation) -> Result<JsonTree, Seq<char>> {
    match r {
        Ok(v) => Ok(
            if v@.len() > 0 {
                runtime_json(v@[0])
            } else {
                JsonTree::Null
            },
        ),
        Err(e) => Err(e@),
    }
}

/// The texts of the first value that an evaluation gave, if that is a list.
pub open spec fn items_of(r: Evaluation) -> Result<Option<Seq<Seq<char>>>, Seq<char>> {
    match r {
        Ok(v) => Ok(
            if v@.len() > 0 {
                runtime_items(v@[0])
            } else {
                None
            },
        ),
        Err(e) => Err(e@),
    }
}

/// The first value that an evaluation gave, as JSON.
pub fn as_json(result: Evaluation) -> (r: Result<Json, String>)
    ensures
        match r {
            Ok(j) => json_of(result) == Ok::<JsonTree, Seq<char>>(j@),
            Err(e) => json_of(result) == Err::<JsonTree, Seq<char>>(e@),
        },
{
    match result {
        Ok(values) => {
            if values.len() > 0 {
                Ok(Json::from_value(&json_value(&values[0])))
            } else {
                Ok(Json::Null)
            }
        },
        Err(e) => Err(e),
    }
}

/// The texts of the first value that an evaluation gave, if that is a list.
pub fn as_items(result: Evaluation) -> (r: Result<Option<Vec<String>>, String>)
    ensures
        match r {
            Ok(v) => items_of(result) == Ok::<_, Seq<char>>(texts_view(v)),
            Err(e) => items_of(result) == Err::<Option<Seq<Seq<char>>>, _>(e@),
        },
{
    match result {
        Ok(values) => {
            if values.len() > 0 {
                Ok(array_items(&values[0]))
            } else {
                Ok(None)
            }
        },
        Err(e) => Err(e),
    }
}

} // verus!
