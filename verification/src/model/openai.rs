//! What goes to the language model and what comes back.

use crate::model::paper::texts;
use vstd::prelude::*;

verus! {

/// The language models that can be asked.
#[allow(dead_code)]
#[allow(non_camel_case_types)]
#[derive(Clone, Copy, Debug, PartialEq, Eq, Structural)]
pub enum Engine {
    Gpt3_5Turbo,
    Gpt4,
}

impl Engine {
    /// The name under which the service knows the model.
    pub open spec fn spec_name(self) -> Seq<char> {
        match self {
            Engine::Gpt3_5Turbo => "gpt-3.5-turbo"@,
            Engine::Gpt4 => "gpt-4"@,
        }
    }

    /// The name under which the service knows the model.
    pub fn name(&self) -> (r: &'static str)
        ensures
            r@ == self.spec_name(),
    {
        match self {
            Engine::Gpt3_5Turbo => "gpt-3.5-turbo",
            Engine::Gpt4 => "gpt-4",
        }
    }

    /// The name as an owned string.
    pub fn to_string(&self) -> (r: String)
        ensures
            r@ == self.spec_name(),
    {
        self.name().to_owned()
    }
}

/// A paper retold: its title and its content, one sentence to an entry.
#[derive(Debug, Clone, PartialEq, Eq)]
pub struct PaperSummaryModel {
    pub title: String,
    pub summary: Vec<String>,
}

/// A summary as plain values.
pub struct PaperSummaryView {
    pub title: Seq<char>,
    pub summary: Seq<Seq<char>>,
}

impl View for PaperSummaryModel {
    type V = PaperSummaryView;

    open spec fn view(&self) -> PaperSummaryView {
        PaperSummaryView { title: self.title@, summary: texts(self.summary@) }
    }
}

/// One of the answers that the service offers to a request: why it ended, the
/// arguments of the function that it asks to have called, if any, and its text.
#[derive(Debug, Clone, PartialEq, Eq)]
pub struct ChatChoice {
    pub finish_reason: Option<String>,
    pub function_arguments: Option<String>,
    pub content: Option<String>,
}

} // verus!
