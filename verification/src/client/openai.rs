//! Asking the language model to retell a paper: what is sent, and which of the
//! answers counts.

use crate::model::config::Config;
use crate::model::openai::{ChatChoice, Engine};
use crate::model::paper::{on_one_line, PaperModel};
use std::sync::Arc;
use vstd::prelude::*;
use vstd::string::StringExecFns;

verus! {

/// The most tokens that an answer may take.
pub const MAX_TOKENS: u16 = 1024;

/// Why no summary came out of the answers.
#[derive(Clone, Copy, Debug, PartialEq, Eq, Structural)]
pub enum SummaryError {
    /// None of the answers asks for the function to be called.
    NoFunctionCall,
}

/// What the model is told about its part.
pub open spec fn system_prompt() -> Seq<char> {
    "You are a teacher with expertise in information education and technology.\nDo not write in English."@
}

/// What the model is asked to do with a paper.
pub open spec fn task_prompt() -> Seq<char> {
    "Explain the following a paper in simple, plain, jargon-free Japanese.\nThe output should be specified formatted."@
}

/// The text of the request on a paper with this title and abstract: the part of
/// the model, the task, and the paper, its title and its abstract each on one
/// line.
pub open spec fn user_message(title: Seq<char>, summary: Seq<char>) -> Seq<char> {
    system_prompt() + task_prompt() + "\ntitle:"@ + on_one_line(title) + "\nsummary:"@
        + on_one_line(summary)
}

/// A request for the summary of one paper.
#[derive(Debug, Clone, PartialEq, Eq)]
pub struct SummaryRequest {
    pub model: String,
    pub max_tokens: u16,
    pub system: String,
    pub user: String,
}

/// The answer at `i` ended because the model asks for the function to be called,
/// and carries the arguments of that call.
pub open spec fn calls_function(choices: Seq<ChatChoice>, i: int) -> bool {
    &&& 0 <= i < choices.len()
    &&& choices[i].finish_reason is Some
    &&& choices[i].finish_reason->0@ == "function_call"@
    &&& choices[i].function_arguments is Some
}

/// The language-model client, as far as it computes.
pub struct OpenAiClient {
    pub config: Arc<Config>,
}

impl OpenAiClient {
    pub fn new(config: Arc<Config>) -> (r: Self)
        ensures
            r.config == config,
    {
        Self { config }
    }

    /// The request that asks `engine` to retell `paper`. Title and abstract go
    /// into it with every line break turned into a space.
    pub fn summary_request(&self, paper: &PaperModel, engine: &Engine) -> (r: SummaryRequest)
        ensures
            r.model@ == engine.spec_name(),
            r.max_tokens == MAX_TOKENS,
            r.system@ == system_prompt(),
            r.user@ == user_message(paper.title@, paper.summary@),
    {
        let system: &str =
            "You are a teacher with expertise in information education and technology.\nDo not write in English.";
        let mut user = String::from_str(system);
        user.append(
            "Explain the following a paper in simple, plain, jargon-free Japanese.\nThe output should be specified formatted.",
        );
        let tidied = paper.tidied();
        user.append("\ntitle:");
        user.append(tidied.title.as_str());
        user.append("\nsummary:");
        user.append(tidied.summary.as_str());
        SummaryRequest {
            model: engine.to_string(),
            max_tokens: MAX_TOKENS,
            system: String::from_str(system),
            user,
        }
    }

    /// The arguments of the first answer that asks for the function to be
    /// called; they hold the summary. Without such an answer there is none.
    pub fn summarize_paper(&self, choices: &Vec<ChatChoice>) -> (r: Result<String, SummaryError>)
        ensures
            r is Err <==> forall|i: int| !calls_function(choices@, i),
            match r {
                Ok(arguments) => exists|i: int|
                    calls_function(choices@, i) && arguments@
                        == choices@[i].function_arguments->0@ && forall|j: int|
                        0 <= j < i ==> !calls_function(choices@, j),
                Err(error) => error == SummaryError::NoFunctionCall,
            },
    {
        let wanted = String::from_str("function_call");
        let mut i: usize = 0;
        while i < choices.len()
            invariant
                i <= choices@.len(),
                wanted@ == "function_call"@,
                forall|j: int| 0 <= j < i ==> !calls_function(choices@, j),
            decreases choices@.len() - i,
        {
            let choice = &choices[i];
            if let Some(reason) = &choice.finish_reason {
                if *reason == wanted {
                    if let Some(arguments) = &choice.function_arguments {
                        assert(calls_function(choices@, i as int));
                        return Ok(arguments.clone());
                    }
                }
            }
            i += 1;
        }
        Err(SummaryError::NoFunctionCall)
    }
}

} // verus!
