//! Billing rows into a cost table, and a cost table into a day-over-day report.

use crate::model::gcp_cost::{
    abs, cell_count, cell_of, cell_sum, cost_magnitude, feeds, lemma_magnitude_pair,
    lemma_magnitude_prefix, magnitude,
    month_sum, rows_view, CostReport, CostRow, CostRowView, CostTable, DiffRate, MonthWindow,
    ServiceReport, ServiceToCostReportMap,
};
use crate::model::calendar::{
    civil_month, civil_with_day, civil_with_month, civil_with_year, civil_year, month_of,
    naive_datetime_secs, parse_naive_datetime, with_day, with_month, with_year, year_of,
};
use crate::model::config::Config;
use crate::model::gcp_cost::BillingRow;
use crate::model::time::{day_number, day_of};
use std::sync::Arc;
use vstd::prelude::*;
use vstd::seq_lib::lemma_fold_left_permutation;

verus! {

/// Why no cost report could be made.
#[derive(Clone, Copy, Debug, PartialEq, Eq, Structural)]
pub enum CostError {
    /// The row at `index` is filed under a day that cannot be read.
    MalformedInput { index: usize },
    /// The month of the day to report on has no first day that can be named.
    StartOfMonth,
    /// The month after that of the day to report on cannot be named.
    InvalidMonth,
    /// The table holds no cost at all for the day to report on.
    MissingData,
}

/// Why a row of an answer gave no value.
#[derive(Clone, Copy, Debug, PartialEq, Eq, Structural)]
pub enum CellError {
    /// The row has no cells, or none at `index`, or the cell there holds no text.
    Missing { index: usize },
}

/// The text of the cell at `index` of a row of an answer. A row may come without
/// cells, and a cell without text; either way there is no value to take.
pub fn cell_text(cells: &Option<Vec<Option<String>>>, index: usize) -> (r: Result<String, CellError>)
    ensures
        r is Err <==> (cells is None || index >= cells->0@.len() || cells->0@[index as int] is None),
        r is Ok ==> r->Ok_0@ == cells->0@[index as int]->0@,
        r is Err ==> r->Err_0 == (CellError::Missing { index }),
{
    match cells {
        Some(row) => {
            if index < row.len() {
                match &row[index] {
                    Some(text) => Ok(text.clone()),
                    None => Err(CellError::Missing { index }),
                }
            } else {
                Err(CellError::Missing { index })
            }
        },
        None => Err(CellError::Missing { index }),
    }
}

/// How the billing export writes the start of a day.
pub open spec fn partition_time_format() -> Seq<char> {
    "%Y-%m-%dT%H:%M:%S"@
}

/// The day that a billing row is filed under, where its text can be read.
pub open spec fn filed_under(row: BillingRow) -> Option<int> {
    match naive_datetime_secs(row.partition_time@, partition_time_format()) {
        Some(secs) => Some(day_of(secs as int)),
        None => None,
    }
}

/// The cost row that a billing row with a readable day stands for.
pub open spec fn cost_row_of(row: BillingRow) -> CostRowView {
    CostRowView { day: filed_under(row)->0, service: row.service@, amount: row.amount as int }
}

/// Reads the day of every billing row. One row with a day that cannot be read
/// makes the whole reading fail, with the place of the first such row.
pub fn read_rows(billed: &Vec<BillingRow>) -> (r: Result<Vec<CostRow>, CostError>)
    ensures
        r is Err <==> exists|i: int| 0 <= i < billed@.len() && filed_under(billed@[i]) is None,
        match r {
            Ok(rows) => rows_view(rows@) == billed@.map_values(|b: BillingRow| cost_row_of(b)),
            Err(error) => exists|index: usize|
                error == (CostError::MalformedInput { index }) && index < billed@.len()
                    && filed_under(billed@[index as int]) is None && forall|j: int|
                    0 <= j < index ==> filed_under(#[trigger] billed@[j]) is Some,
        },
{
    let mut rows: Vec<CostRow> = Vec::new();
    let mut i: usize = 0;
    while i < billed.len()
        invariant
            i <= billed@.len(),
            rows@.len() == i,
            forall|j: int| 0 <= j < i ==> filed_under(#[trigger] billed@[j]) is Some,
            forall|j: int| 0 <= j < i ==> (#[trigger] rows@[j])@ == cost_row_of(billed@[j]),
        decreases billed@.len() - i,
    {
        let row = &billed[i];
        match parse_naive_datetime(row.partition_time.as_str(), "%Y-%m-%dT%H:%M:%S") {
            Ok(secs) => {
                rows.push(
                    CostRow {
                        day: day_number(secs),
                        service: row.service.clone(),
                        amount: row.amount,
                    },
                );
            },
            Err(_) => {
                return Err(CostError::MalformedInput { index: i });
            },
        }
        i += 1;
    }
    assert(rows_view(rows@) =~= billed@.map_values(|b: BillingRow| cost_row_of(b)));
    Ok(rows)
}

/// The second at which the month after month `month` begins, given the second
/// `start` at which that month begins: the same day in the month that follows,
/// which for December is January of the year after.
pub open spec fn start_of_next_month(start: i64, month: u32) -> Option<i64> {
    if month < 12 {
        civil_with_month(start, (month + 1) as u32)
    } else {
        match (civil_with_month(start, 1), civil_year(start)) {
            (Some(january), Some(year)) => if year < i32::MAX {
                civil_with_year(january, (year + 1) as i32)
            } else {
                None
            },
            _ => None,
        }
    }
}

/// The month that holds the second `target`, as a window of days: from the first
/// day of that month up to the first day of the month that follows, across the
/// turn of the year too. Where the calendar cannot name one of the two days
/// there is no window.
pub open spec fn month_window_of(target: i64) -> Result<MonthWindow, CostError> {
    match civil_with_day(target, 1) {
        None => Err(CostError::StartOfMonth),
        Some(start) => match civil_month(start) {
            None => Err(CostError::StartOfMonth),
            Some(month) => match start_of_next_month(start, month) {
                None => Err(CostError::InvalidMonth),
                Some(next) => month_between(start, next),
            },
        },
    }
}

/// The window of days from the day of the second `start` up to the day of the
/// second `next`, which has to be a later day.
pub open spec fn month_between(start: i64, next: i64) -> Result<MonthWindow, CostError> {
    if day_of(start as int) < day_of(next as int) {
        Ok(MonthWindow { start: day_of(start as int) as i64, end: day_of(next as int) as i64 })
    } else {
        Err(CostError::InvalidMonth)
    }
}

/// The window of days between two seconds, the first of one month and the first
/// of the next.
pub fn month_from_bounds(start: i64, next: i64) -> (r: Result<MonthWindow, CostError>)
    ensures
        r == month_between(start, next),
        r is Ok ==> r->Ok_0.wf(),
{
    match MonthWindow::new(day_number(start), day_number(next)) {
        Some(window) => Ok(window),
        None => Err(CostError::InvalidMonth),
    }
}

/// Taking one more row into account changes count and sum by that row alone.
pub proof fn lemma_one_more_row(
    rows: Seq<CostRowView>,
    i: int,
    window: MonthWindow,
    day: int,
    service: Seq<char>,
)
    requires
        0 <= i < rows.len(),
    ensures
        cell_count(rows.take(i + 1), window, day, service) == cell_count(
            rows.take(i),
            window,
            day,
            service,
        ) + if feeds(rows[i], window, day, service) {
            1nat
        } else {
            0nat
        },
        cell_sum(rows.take(i + 1), window, day, service) == cell_sum(
            rows.take(i),
            window,
            day,
            service,
        ) + if feeds(rows[i], window, day, service) {
            rows[i].amount
        } else {
            0
        },
        month_sum(rows.take(i + 1), window) == month_sum(rows.take(i), window) + if window.covers(
            rows[i].day,
        ) {
            rows[i].amount
        } else {
            0
        },
{
    assert(rows.take(i + 1).drop_last() =~= rows.take(i));
}

/// A cell that no row counts towards sums to nothing.
pub proof fn lemma_no_row_no_sum(
    rows: Seq<CostRowView>,
    window: MonthWindow,
    day: int,
    service: Seq<char>,
)
    requires
        cell_count(rows, window, day, service) == 0,
    ensures
        cell_sum(rows, window, day, service) == 0,
    decreases rows.len(),
{
    if rows.len() > 0 {
        lemma_no_row_no_sum(rows.drop_last(), window, day, service);
    }
}

/// What one row adds to the count of a cell.
pub open spec fn count_step(window: MonthWindow, day: int, service: Seq<char>) -> spec_fn(
    nat,
    CostRowView,
) -> nat {
    |count: nat, row: CostRowView|
        if feeds(row, window, day, service) {
            count + 1
        } else {
            count
        }
}

/// What one row adds to the sum of a cell.
pub open spec fn sum_step(window: MonthWindow, day: int, service: Seq<char>) -> spec_fn(
    int,
    CostRowView,
) -> int {
    |sum: int, row: CostRowView|
        if feeds(row, window, day, service) {
            sum + row.amount
        } else {
            sum
        }
}

/// What one row adds to the sum of the month.
pub open spec fn month_step(window: MonthWindow) -> spec_fn(int, CostRowView) -> int {
    |sum: int, row: CostRowView|
        if window.covers(row.day) {
            sum + row.amount
        } else {
            sum
        }
}

/// Count and sums are what comes of taking the rows in one by one.
pub proof fn lemma_sums_are_folds(
    rows: Seq<CostRowView>,
    window: MonthWindow,
    day: int,
    service: Seq<char>,
)
    ensures
        cell_count(rows, window, day, service) == rows.fold_left(
            0nat,
            count_step(window, day, service),
        ),
        cell_sum(rows, window, day, service) == rows.fold_left(0int, sum_step(window, day, service)),
        month_sum(rows, window) == rows.fold_left(0int, month_step(window)),
    decreases rows.len(),
{
    if rows.len() > 0 {
        lemma_sums_are_folds(rows.drop_last(), window, day, service);
    }
}

/// Grouping does not depend on the order of the rows: two vectors that hold
/// the same rows, each as often as the other, give the same cell for every day
/// and service, and the same sum of the month.
pub proof fn lemma_aggregate_order_insensitive(
    rows: Seq<CostRowView>,
    reordered: Seq<CostRowView>,
    window: MonthWindow,
    day: int,
    service: Seq<char>,
)
    requires
        rows.to_multiset() == reordered.to_multiset(),
    ensures
        cell_of(rows, window, day, service) == cell_of(reordered, window, day, service),
        month_sum(rows, window) == month_sum(reordered, window),
{
    lemma_sums_are_folds(rows, window, day, service);
    lemma_sums_are_folds(reordered, window, day, service);
    lemma_fold_left_permutation(rows, reordered, count_step(window, day, service), 0nat);
    lemma_fold_left_permutation(rows, reordered, sum_step(window, day, service), 0int);
    lemma_fold_left_permutation(rows, reordered, month_step(window), 0int);
}

/// Groups `rows` by day and service and sums the amounts of each group, leaving out
/// every row whose day lies outside `window`. Beside the table it returns the sum
/// of all rows that were taken in, whatever their service.
pub fn aggregate(rows: &Vec<CostRow>, window: MonthWindow) -> (r: (CostTable, i128))
    ensures
        r.0.wf(),
        forall|day: int, service: Seq<char>| #[trigger]
            r.0.cost(day, service) == cell_of(rows_view(rows@), window, day, service),
        r.1 == month_sum(rows_view(rows@), window),
{
    let ghost all = rows_view(rows@);
    let mut table = CostTable::new();
    let mut total: i128 = 0;
    let mut i: usize = 0;
    while i < rows.len()
        invariant
            i <= rows@.len(),
            all == rows_view(rows@),
            table.wf(),
            magnitude(table.cells@) <= i * 0x8000_0000_0000_0000,
            abs(total as int) <= i * 0x8000_0000_0000_0000,
            total == month_sum(all.take(i as int), window),
            forall|day: int, service: Seq<char>| #[trigger]
                table.cost(day, service) == cell_of(all.take(i as int), window, day, service),
        decreases rows@.len() - i,
    {
        let row = &rows[i];
        let ghost before = table;
        assert(all[i as int] == row@);
        if window.contains(row.day) {
            table.add(row.day, &row.service, row.amount);
            total = total + (row.amount as i128);
        }
        proof {
            lemma_one_more_row(all, i as int, window, 0, Seq::empty());
            assert forall|day: int, service: Seq<char>| #[trigger]
                table.cost(day, service) == cell_of(
                    all.take(i as int + 1),
                    window,
                    day,
                    service,
                ) by {
                lemma_one_more_row(all, i as int, window, day, service);
                assert(before.cost(day, service) == cell_of(
                    all.take(i as int),
                    window,
                    day,
                    service,
                ));
                if cell_count(all.take(i as int), window, day, service) == 0 {
                    lemma_no_row_no_sum(all.take(i as int), window, day, service);
                }
            }
        }
        i += 1;
    }
    assert(all.take(rows@.len() as int) =~= all);
    (table, total)
}

/// The report on `service` for `target_day`: none where the service was not billed
/// on that day, else its cost held against its cost on the day before.
pub open spec fn report_of(table: CostTable, target_day: int, service: Seq<char>) -> Option<
    crate::model::gcp_cost::CostReportView,
> {
    match table.cost(target_day, service) {
        Some(cost) => Some(CostReport::comparing(cost, table.cost(target_day - 1, service))),
        None => None,
    }
}

/// The report on one service that cost `cost` on the day reported on and
/// `reference` the day before, if anything.
pub fn compare(cost: i128, reference: Option<i128>) -> (r: CostReport)
    requires
        reference is Some ==> i128::MIN <= cost - reference->0 <= i128::MAX,
    ensures
        r.wf(),
        r@ == CostReport::comparing(
            cost as int,
            match reference {
                Some(before) => Some(before as int),
                None => None,
            },
        ),
{
    match reference {
        Some(before) => CostReport {
            diff_rate: if before != 0 {
                Some(DiffRate { cost, reference: before })
            } else {
                None
            },
            diff_cost: cost - before,
            cost,
        },
        None => CostReport { diff_rate: None, diff_cost: cost, cost },
    }
}

/// Compares `target_day` with the day before it, service by service. Only the
/// services billed on `target_day` are reported on. A table without any cost for
/// `target_day` gives no report but the error `MissingData`.
pub fn diff(table: &CostTable, target_day: i64) -> (r: Result<ServiceToCostReportMap, CostError>)
    requires
        table.wf(),
    ensures
        r is Err <==> !table.has_day(target_day as int),
        r is Err ==> r->Err_0 == CostError::MissingData,
        r is Ok ==> r->Ok_0.wf(),
        r is Ok ==> forall|service: Seq<char>| #[trigger]
            r->Ok_0.entry(service) == report_of(*table, target_day as int, service),
{
    if !table.contains_day(target_day) {
        return Err(CostError::MissingData);
    }
    let day_before: Option<i64> = target_day.checked_sub(1);
    let mut report = ServiceToCostReportMap { entries: Vec::new() };
    assert(cost_magnitude(report.entries@) == 0 && magnitude(table.cells@.take(0)) == 0);
    let ghost mut origin: Seq<int> = Seq::empty();
    let mut k: usize = 0;
    while k < table.cells.len()
        invariant
            table.wf(),
            k <= table.cells@.len(),
            day_before == if target_day > i64::MIN {
                Some((target_day - 1) as i64)
            } else {
                None
            },
            report.wf(),
            cost_magnitude(report.entries@) <= magnitude(table.cells@.take(k as int)),
            origin.len() == report.entries@.len(),
            forall|j: int|
                0 <= j < origin.len() ==> 0 <= #[trigger] origin[j] < k && table.cells@[origin[j]].day
                    == target_day && table.cells@[origin[j]].service@
                    == report.entries@[j].service@ && Some(report.entries@[j].report@) == report_of(
                    *table,
                    target_day as int,
                    report.entries@[j].service@,
                ),
            forall|c: int|
                0 <= c < k && (#[trigger] table.cells@[c]).day == target_day ==> exists|j: int|
                    0 <= j < origin.len() && #[trigger] origin[j] == c,
        decreases table.cells@.len() - k,
    {
        proof {
            assert(table.cells@.take(k + 1).drop_last() =~= table.cells@.take(k as int));
            lemma_magnitude_prefix(table.cells@, k + 1);
        }
        if table.cells[k].day == target_day {
            let cell = &table.cells[k];
            let reference: Option<i128> = match day_before {
                Some(day) => match table.find(day, &cell.service) {
                    Some(b) => {
                        proof {
                            table.lemma_cost_at(b as int);
                            lemma_magnitude_pair(table.cells@, k as int, b as int);
                        }
                        Some(table.cells[b].amount)
                    },
                    None => None,
                },
                None => None,
            };
            proof {
                table.lemma_cost_at(k as int);
                if day_before is None {
                    if table.has_cell(target_day - 1, cell.service@) {
                        let c = choose|c: int|
                            0 <= c < table.cells@.len() && (#[trigger] table.cells@[c]).is_at(
                                target_day - 1,
                                cell.service@,
                            );
                        assert(false);
                    }
                }
                assert(match reference {
                    Some(before) => Some(before as int),
                    None => None,
                } == table.cost(target_day - 1, cell.service@));
            }
            let entry = ServiceReport {
                service: cell.service.clone(),
                report: compare(cell.amount, reference),
            };
            proof {
                assert forall|j: int| 0 <= j < origin.len() implies (
                #[trigger] report.entries@[j]).service@ != entry.service@ by {
                    let c = origin[j];
                    assert(!table.cells@[c].is_at(
                        table.cells@[k as int].day as int,
                        table.cells@[k as int].service@,
                    ));
                }
            }
            proof {
                assert(report.entries@.push(entry).drop_last() =~= report.entries@);
            }
            report.entries.push(entry);
            proof {
                let ghost earlier = origin;
                origin = origin.push(k as int);
                assert forall|c: int|
                    0 <= c < k + 1 && (#[trigger] table.cells@[c]).day
                        == target_day implies exists|j: int|
                    0 <= j < origin.len() && #[trigger] origin[j] == c by {
                    if c < k {
                        let j = choose|j: int| 0 <= j < earlier.len() && #[trigger] earlier[j] == c;
                        assert(origin[j] == c);
                    } else {
                        assert(origin[origin.len() - 1] == c);
                    }
                }
            }
        }
        k += 1;
    }
    proof {
        assert forall|service: Seq<char>| #[trigger]
            report.entry(service) == report_of(*table, target_day as int, service) by {
            if report.has(service) {
                let j = choose|j: int|
                    0 <= j < report.entries@.len() && (#[trigger] report.entries@[j]).service@
                        == service;
                report.lemma_entry_at(j);
                assert(0 <= origin[j] < k);
            } else if table.has_cell(target_day as int, service) {
                let c = choose|c: int|
                    0 <= c < table.cells@.len() && (#[trigger] table.cells@[c]).is_at(
                        target_day as int,
                        service,
                    );
                let j = choose|j: int| 0 <= j < origin.len() && #[trigger] origin[j] == c;
                assert(report.entries@[j].service@ == service);
                assert(false);
            }
        }
    }
    Ok(report)
}

/// What a cost report is made of: the table of the month and the day to report on.
pub open spec fn report_from(
    rows: Seq<CostRowView>,
    window: MonthWindow,
    target_day: int,
    service: Seq<char>,
) -> Option<crate::model::gcp_cost::CostReportView> {
    match cell_of(rows, window, target_day, service) {
        Some(cost) => Some(
            CostReport::comparing(cost, cell_of(rows, window, target_day - 1, service)),
        ),
        None => None,
    }
}

/// Some row within `window` is filed under `day`.
pub open spec fn billed_on(rows: Seq<CostRowView>, window: MonthWindow, day: int) -> bool {
    exists|service: Seq<char>| cell_count(rows, window, day, service) > 0
}

/// The billing client, as far as it computes: it holds the settings, names the
/// month to ask for, and turns the rows that came back into a report.
pub struct BigqueryClient {
    pub config: Arc<Config>,
}

impl BigqueryClient {
    pub fn new(config: Arc<Config>) -> (r: Self)
        ensures
            r.config == config,
    {
        Self { config }
    }

    /// The month of the day that starts at the second `start_of_target_date`, as
    /// the window of days to ask the billing export for: from the first of the
    /// month up to the first of the next, which for December is the first of
    /// January.
    pub fn month_window(&self, start_of_target_date: i64) -> (r: Result<MonthWindow, CostError>)
        ensures
            r == month_window_of(start_of_target_date),
            r is Ok ==> r->Ok_0.wf(),
    {
        let start = match with_day(start_of_target_date, 1) {
            Some(start) => start,
            None => {
                return Err(CostError::StartOfMonth);
            },
        };
        let month = match month_of(start) {
            Some(month) => month,
            None => {
                return Err(CostError::StartOfMonth);
            },
        };
        match Self::next_month(start, month) {
            Some(next) => month_from_bounds(start, next),
            None => Err(CostError::InvalidMonth),
        }
    }

    /// The second at which the month after month `month` begins, given the
    /// second `start` at which that month begins. After December comes January
    /// of the next year.
    pub fn next_month(start: i64, month: u32) -> (r: Option<i64>)
        ensures
            r == start_of_next_month(start, month),
    {
        if month < 12 {
            with_month(start, month + 1)
        } else {
            let january = with_month(start, 1);
            let year = year_of(start);
            match (january, year) {
                (Some(january), Some(year)) => {
                    if year < i32::MAX {
                        with_year(january, year + 1)
                    } else {
                        None
                    }
                },
                _ => None,
            }
        }
    }

    /// Makes the report on `target_day` from the rows that the billing export
    /// gave for the month `window`: every service billed on that day, with its
    /// cost and how it compares with the day before, and beside the report the
    /// sum of the month so far. Fails where a row's day cannot be read, and
    /// where no row at all is filed under `target_day`.
    pub fn get_cost(&self, billed: &Vec<BillingRow>, window: MonthWindow, target_day: i64) -> (r:
        Result<(ServiceToCostReportMap, i128), CostError>)
        ensures
            match r {
                Ok((report, month_total)) => {
                    let rows = billed@.map_values(|b: BillingRow| cost_row_of(b));
                    &&& forall|i: int| 0 <= i < billed@.len() ==> filed_under(#[trigger] billed@[i]) is Some
                    &&& billed_on(rows, window, target_day as int)
                    &&& report.wf()
                    &&& forall|service: Seq<char>| #[trigger]
                        report.entry(service) == report_from(rows, window, target_day as int, service)
                    &&& month_total == month_sum(rows, window)
                },
                Err(CostError::MalformedInput { index }) => index < billed@.len() && filed_under(
                    billed@[index as int],
                ) is None && forall|j: int| 0 <= j < index ==> filed_under(#[trigger] billed@[j]) is Some,
                Err(CostError::MissingData) => {
                    let rows = billed@.map_values(|b: BillingRow| cost_row_of(b));
                    &&& forall|i: int| 0 <= i < billed@.len() ==> filed_under(#[trigger] billed@[i]) is Some
                    &&& !billed_on(rows, window, target_day as int)
                },
                Err(_) => false,
            },
    {
        let rows = match read_rows(billed) {
            Ok(rows) => rows,
            Err(error) => {
                return Err(error);
            },
        };
        let (table, month_total) = aggregate(&rows, window);
        proof {
            lemma_days_of_table(table, rows_view(rows@), window, target_day as int);
        }
        match diff(&table, target_day) {
            Ok(report) => Ok((report, month_total)),
            Err(error) => Err(error),
        }
    }
}

/// A table holds a day exactly where some row within the window is filed under it.
pub proof fn lemma_days_of_table(
    table: CostTable,
    rows: Seq<CostRowView>,
    window: MonthWindow,
    day: int,
)
    requires
        forall|d: int, service: Seq<char>| #[trigger]
            table.cost(d, service) == cell_of(rows, window, d, service),
    ensures
        table.has_day(day) == billed_on(rows, window, day),
{
    if table.has_day(day) {
        let k = choose|k: int| 0 <= k < table.cells@.len() && (#[trigger] table.cells@[k]).day == day;
        let service = table.cells@[k].service@;
        assert(table.cells@[k].is_at(day, service));
        assert(table.cost(day, service) is Some);
        assert(cell_count(rows, window, day, service) > 0);
    }
    if billed_on(rows, window, day) {
        let service = choose|service: Seq<char>| cell_count(rows, window, day, service) > 0;
        assert(table.cost(day, service) is Some);
        let k = choose|k: int|
            0 <= k < table.cells@.len() && (#[trigger] table.cells@[k]).is_at(day, service);
        assert(table.cells@[k].day == day);
    }
}

} // verus!
