//! A plain exchange with the language model: one text goes out, the texts of all
//! answers come back as one.

use crate::model::config::Config;
use crate::model::openai::{ChatChoice, Engine};
use std::sync::Arc;
use vstd::prelude::*;
use vstd::string::StringExecFns;

verus! {

/// The most tokens that an answer may take.
pub const MAX_TOKENS: u16 = 1024;

/// What the model is told about its part.
pub open spec fn system_prompt() -> Seq<char> {
    "You are a helpful assistant."@
}

/// A request that hands one text to the model.
#[derive(Debug, Clone, PartialEq, Eq)]
pub struct ChatRequest {
    pub model: String,
    pub max_tokens: u16,
    pub system: String,
    pub user: String,
}

/// The texts of the first `n` answers, one after the other. An answer without
/// text adds nothing.
pub open spec fn sentence(choices: Seq<ChatChoice>, n: nat) -> Seq<char>
    decreases n,
{
    if n == 0 {
        Seq::empty()
    } else {
        sentence(choices, (n - 1) as nat) + match choices[n - 1].content {
            Some(text) => text@,
            None => Seq::empty(),
        }
    }
}

/// The chat client, as far as it computes.
pub struct OpenAiClient {
    pub config: Arc<Config>,
}

impl OpenAiClient {
    pub fn new(config: Arc<Config>) -> (r: Self)
        ensures
            r.config == config,
    {
        Self { config }
    }

    /// The request that hands `text` to the model.
    pub fn chat_request(&self, text: String) -> (r: ChatRequest)
        ensures
            r.model@ == Engine::Gpt3_5Turbo.spec_name(),
            r.max_tokens == MAX_TOKENS,
            r.system@ == system_prompt(),
            r.user@ == text@,
    {
        ChatRequest {
            model: Engine::Gpt3_5Turbo.to_string(),
            max_tokens: MAX_TOKENS,
            system: String::from_str("You are a helpful assistant."),
            user: text,
        }
    }

    /// What the model said: the texts of all answers, in their order, as one.
    pub fn chat(&self, choices: &Vec<ChatChoice>) -> (r: String)
        ensures
            r@ == sentence(choices@, choices@.len()),
    {
        let mut said = String::new();
        let mut i: usize = 0;
        while i < choices.len()
            invariant
                i <= choices@.len(),
                said@ == sentence(choices@, i as nat),
            decreases choices@.len() - i,
        {
            if let Some(text) = &choices[i].content {
                said.append(text.as_str());
            }
            i += 1;
        }
        said
    }
}

} // verus!
