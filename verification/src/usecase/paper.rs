//! The paper flow: search, then one unit of work for each paper, all of them run
//! to their end before the batch is judged.

use crate::client::arxiv::ArxivClient;
use crate::client::openai::OpenAiClient;
use crate::client::slack::SlackClient;
use crate::model::openai::Engine;
use crate::model::paper::PaperModel;
use std::sync::Arc;
use vstd::prelude::*;

verus! {

/// The failure of a batch: the error of the first unit, in the order of the
/// items, that failed. What other units failed with is not kept.
#[derive(Debug, PartialEq, Eq)]
pub struct BatchError<E> {
    pub index: usize,
    pub error: E,
}

/// The unit at `i` is the first that failed.
pub open spec fn first_failure<E>(outcomes: Seq<Result<(), E>>, i: int) -> bool {
    &&& 0 <= i < outcomes.len()
    &&& outcomes[i] is Err
    &&& forall|j: int| 0 <= j < i ==> (#[trigger] outcomes[j]) is Ok
}

/// Where exactly one unit failed, that unit is the first failure and the only one.
pub proof fn lemma_single_failure<E>(outcomes: Seq<Result<(), E>>, k: int)
    requires
        0 <= k < outcomes.len(),
        outcomes[k] is Err,
        forall|i: int| 0 <= i < outcomes.len() && i != k ==> (#[trigger] outcomes[i]) is Ok,
    ensures
        first_failure(outcomes, k),
        forall|i: int| first_failure(outcomes, i) ==> i == k,
{
}

/// Judges a batch by the outcomes of its units, which are given in the order of
/// the items: it succeeded where every unit did; else it failed with the error
/// of the first unit that failed.
pub fn join_outcomes<E>(outcomes: Vec<Result<(), E>>) -> (r: Result<(), BatchError<E>>)
    ensures
        r is Ok <==> forall|i: int| 0 <= i < outcomes@.len() ==> (#[trigger] outcomes@[i]) is Ok,
        r is Err ==> first_failure(outcomes@, r->Err_0.index as int) && outcomes@[r->Err_0.index as int]
            == Err::<(), E>(r->Err_0.error),
{
    let ghost all = outcomes@;
    let mut units = outcomes;
    let mut i: usize = 0;
    while i < units.len()
        invariant
            all == outcomes@,
            units@ == all,
            i <= all.len(),
            forall|j: int| 0 <= j < i ==> (#[trigger] all[j]) is Ok,
        decreases all.len() - i,
    {
        if units[i].is_err() {
            match units.swap_remove(i) {
                Err(error) => {
                    assert(first_failure(all, i as int));
                    return Err(BatchError { index: i, error });
                },
                Ok(_) => {},
            }
        }
        i += 1;
    }
    Ok(())
}

/// `outcomes` are what `pipeline` made of `items`, one outcome for each item and
/// in the same order.
pub open spec fn outcomes_of<T, E, F: Fn(&T) -> Result<(), E>>(
    pipeline: F,
    items: Seq<T>,
    outcomes: Seq<Result<(), E>>,
) -> bool {
    &&& outcomes.len() == items.len()
    &&& forall|i: int| 0 <= i < items.len() ==> call_ensures(pipeline, (&items[i],), #[trigger] outcomes[i])
}

/// Runs `pipeline` once on every item, one after the other and whatever the
/// earlier ones came to, and judges the batch only when all have run: a failure
/// stops no other unit, and what a unit has done stays done.
pub fn run_all<T, E, F: Fn(&T) -> Result<(), E>>(items: &Vec<T>, pipeline: F) -> (r: Result<
    (),
    BatchError<E>,
>)
    requires
        forall|i: int| 0 <= i < items@.len() ==> call_requires(pipeline, (&#[trigger] items@[i],)),
    ensures
        exists|outcomes: Seq<Result<(), E>>|
            {
                &&& #[trigger] outcomes_of(pipeline, items@, outcomes)
                &&& r is Ok <==> forall|i: int|
                    0 <= i < outcomes.len() ==> (#[trigger] outcomes[i]) is Ok
                &&& r is Err ==> first_failure(outcomes, r->Err_0.index as int)
                    && outcomes[r->Err_0.index as int] == Err::<(), E>(r->Err_0.error)
            },
{
    let mut outcomes: Vec<Result<(), E>> = Vec::new();
    let mut i: usize = 0;
    while i < items.len()
        invariant
            i <= items@.len(),
            outcomes@.len() == i,
            forall|k: int| 0 <= k < items@.len() ==> call_requires(pipeline, (&#[trigger] items@[k],)),
            forall|k: int| 0 <= k < i ==> call_ensures(pipeline, (&items@[k],), #[trigger] outcomes@[k]),
        decreases items@.len() - i,
    {
        let outcome = pipeline(&items[i]);
        outcomes.push(outcome);
        i += 1;
    }
    assert(outcomes_of(pipeline, items@, outcomes@));
    join_outcomes(outcomes)
}

/// What happened, as far as the paper flow has to decide on it.
#[derive(Debug, PartialEq, Eq)]
pub enum PaperEvent<E> {
    /// The search gave these papers, already chosen and tidied.
    Found(Vec<PaperModel>),
    /// Every unit of the batch has come to its end, with these outcomes in the
    /// order of the papers.
    Joined(Vec<Result<(), E>>),
}

/// What the paper flow does next.
#[derive(Debug, PartialEq, Eq)]
pub enum PaperAction<E> {
    /// Start one unit for each paper: have `engine` retell it, then post it.
    FanOut { papers: Vec<PaperModel>, engine: Engine },
    /// Say that no paper was found, and end well.
    NothingFound,
    /// End with this result.
    Finish(Result<(), BatchError<E>>),
}

/// The paper flow.
pub struct PaperUsecase {
    pub slack_client: Arc<SlackClient>,
    pub arxiv_client: Arc<ArxivClient>,
    pub openai_client: Arc<OpenAiClient>,
}

impl PaperUsecase {
    pub fn new(
        slack_client: Arc<SlackClient>,
        arxiv_client: Arc<ArxivClient>,
        openai_client: Arc<OpenAiClient>,
    ) -> (r: Self)
        ensures
            r.slack_client == slack_client,
            r.arxiv_client == arxiv_client,
            r.openai_client == openai_client,
    {
        Self { slack_client, arxiv_client, openai_client }
    }

    /// Decides the next step of the flow. Papers that were found are handed out,
    /// one unit each, to be retold by GPT-4; where none was found the flow ends
    /// well. Once the units are joined the flow ends as the batch did.
    pub fn notify_paper<E>(&self, event: PaperEvent<E>) -> (r: PaperAction<E>)
        ensures
            match event {
                PaperEvent::Found(papers) => if papers@.len() == 0 {
                    r is NothingFound
                } else {
                    r == (PaperAction::<E>::FanOut { papers, engine: Engine::Gpt4 })
                },
                PaperEvent::Joined(outcomes) => {
                    &&& r is Finish
                    &&& r->Finish_0 is Ok <==> forall|i: int|
                        0 <= i < outcomes@.len() ==> (#[trigger] outcomes@[i]) is Ok
                    &&& r->Finish_0 is Err ==> first_failure(
                        outcomes@,
                        r->Finish_0->Err_0.index as int,
                    ) && outcomes@[r->Finish_0->Err_0.index as int] == Err::<(), E>(
                        r->Finish_0->Err_0.error,
                    )
                },
            },
    {
        match event {
            PaperEvent::Found(papers) => {
                if papers.is_empty() {
                    PaperAction::NothingFound
                } else {
                    PaperAction::FanOut { papers, engine: Engine::Gpt4 }
                }
            },
            PaperEvent::Joined(outcomes) => PaperAction::Finish(join_outcomes(outcomes)),
        }
    }
}

} // verus!
