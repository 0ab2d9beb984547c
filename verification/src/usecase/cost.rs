//! The daily cost report.

use crate::client::bigquery::{
    billed_on, cost_row_of, filed_under, month_window_of, report_from, BigqueryClient, CostError,
};
use crate::client::slack::SlackClient;
use crate::model::gcp_cost::{month_sum, BillingRow, MonthWindow, ServiceToCostReportMap};
use crate::model::time::{day_number, day_of, Instant, SECONDS_PER_DAY};
use std::sync::Arc;
use vstd::prelude::*;

verus! {

/// The flow that reports what the day before the run cost.
pub struct CostUsecase {
    pub slack_client: Arc<SlackClient>,
    pub bigquery_client: Arc<BigqueryClient>,
}

/// The day to report on at `now`: the one before the day that holds `now`.
pub open spec fn day_to_report(now: Instant) -> int {
    day_of(now.secs as int) - 1
}

/// What to ask the billing export for: the rows of the month `window`, to report
/// on `target_day`, which starts at the second `start_of_target_date`.
#[derive(Clone, Copy, Debug, PartialEq, Eq, Structural)]
pub struct CostQuery {
    pub window: MonthWindow,
    pub target_day: i64,
    pub start_of_target_date: i64,
}

/// What happened, as far as the cost flow has to decide on it.
#[derive(Debug, PartialEq, Eq)]
pub enum CostEvent {
    /// The run started at this instant.
    Started(Instant),
    /// The billing export answered `query` with these rows.
    Rows { query: CostQuery, billed: Vec<BillingRow> },
}

/// What the cost flow does next.
#[derive(Debug, PartialEq, Eq)]
pub enum CostAction {
    /// Ask the billing export.
    Query(CostQuery),
    /// Post the report on the day, with the sum of the month so far.
    Post { report: ServiceToCostReportMap, month_total: i128, query: CostQuery },
    /// Give up with this error.
    Fail(CostError),
}

/// The query of a run that started at `now`.
pub open spec fn query_at(now: Instant) -> Result<CostQuery, CostError> {
    let target_day = day_to_report(now);
    let start = (target_day * 86_400) as i64;
    match month_window_of(start) {
        Ok(window) => Ok(CostQuery { window, target_day: target_day as i64, start_of_target_date: start }),
        Err(error) => Err(error),
    }
}

impl CostUsecase {
    pub fn new(slack_client: Arc<SlackClient>, bigquery_client: Arc<BigqueryClient>) -> (r: Self)
        ensures
            r.slack_client == slack_client,
            r.bigquery_client == bigquery_client,
    {
        Self { slack_client, bigquery_client }
    }

    /// Decides the next step of the flow. At the start it names the day before
    /// the run as the day to report on, and asks for the rows of its month. When
    /// the rows have come it has the report made and posted. What fails on the
    /// way ends the flow.
    pub fn notify_daily_cost(&self, event: CostEvent) -> (r: CostAction)
        requires
            event matches CostEvent::Started(now) ==> now.secs >= i64::MIN + 2 * 86_400,
        ensures
            match event {
                CostEvent::Started(now) => match query_at(now) {
                    Ok(query) => r == CostAction::Query(query) && query.window.wf(),
                    Err(error) => r == CostAction::Fail(error),
                },
                CostEvent::Rows { query, billed } => {
                    let rows = billed@.map_values(|b: BillingRow| cost_row_of(b));
                    let readable = forall|i: int|
                        0 <= i < billed@.len() ==> filed_under(#[trigger] billed@[i]) is Some;
                    match r {
                        CostAction::Post { report, month_total, query: asked } => {
                            &&& readable
                            &&& billed_on(rows, query.window, query.target_day as int)
                            &&& asked == query
                            &&& report.wf()
                            &&& forall|service: Seq<char>| #[trigger]
                                report.entry(service) == report_from(
                                    rows,
                                    query.window,
                                    query.target_day as int,
                                    service,
                                )
                            &&& month_total == month_sum(rows, query.window)
                        },
                        CostAction::Fail(CostError::MalformedInput { index }) => index
                            < billed@.len() && filed_under(billed@[index as int]) is None
                            && forall|j: int|
                            0 <= j < index ==> filed_under(#[trigger] billed@[j]) is Some,
                        CostAction::Fail(CostError::MissingData) => readable && !billed_on(
                            rows,
                            query.window,
                            query.target_day as int,
                        ),
                        _ => false,
                    }
                },
            },
    {
        match event {
            CostEvent::Started(now) => {
                let target_day: i64 = day_number(now.secs) - 1;
                let start: i64 = target_day * SECONDS_PER_DAY;
                match self.bigquery_client.month_window(start) {
                    Ok(window) => CostAction::Query(
                        CostQuery { window, target_day, start_of_target_date: start },
                    ),
                    Err(error) => CostAction::Fail(error),
                }
            },
            CostEvent::Rows { query, billed } => {
                match self.bigquery_client.get_cost(&billed, query.window, query.target_day) {
                    Ok((report, month_total)) => CostAction::Post { report, month_total, query },
                    Err(error) => CostAction::Fail(error),
                }
            },
        }
    }
}

} // verus!
