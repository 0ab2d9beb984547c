//! Billing rows, the table that groups them, and the day-over-day report.

use vstd::prelude::*;

verus! {

/// The largest magnitude that the cells of one table can reach together: as many
/// rows as a vector can hold, each as large as a row's amount can be.
pub open spec fn magnitude_limit() -> int {
    0xFFFF_FFFF_FFFF_FFFFint * 0x8000_0000_0000_0000int
}

pub open spec fn abs(x: int) -> int {
    if x < 0 {
        -x
    } else {
        x
    }
}

/// One billing fact: on `day` (counted in days since 1970-01-01) the service
/// `service` cost `amount`, in the smallest unit that the caller counts in.
#[derive(Debug, Clone, PartialEq, Eq)]
pub struct CostRow {
    pub day: i64,
    pub service: String,
    pub amount: i64,
}

/// One row as the billing export hands it over: the service, the amount and the
/// start of the day that the row is filed under, written as date and time of day.
#[derive(Debug, Clone, PartialEq, Eq)]
pub struct BillingRow {
    pub service: String,
    pub amount: i64,
    pub partition_time: String,
}

/// What a row says, as plain values.
pub struct CostRowView {
    pub day: int,
    pub service: Seq<char>,
    pub amount: int,
}

impl View for CostRow {
    type V = CostRowView;

    open spec fn view(&self) -> CostRowView {
        CostRowView { day: self.day as int, service: self.service@, amount: self.amount as int }
    }
}

/// The views of a vector of rows, in order.
pub open spec fn rows_view(rows: Seq<CostRow>) -> Seq<CostRowView> {
    rows.map_values(|r: CostRow| r@)
}

/// The days of one month: from its first day up to, and without, the first day of
/// the next.
#[derive(Clone, Copy, Debug, PartialEq, Eq, Structural)]
pub struct MonthWindow {
    pub start: i64,
    pub end: i64,
}

impl MonthWindow {
    pub open spec fn wf(self) -> bool {
        self.start < self.end
    }

    /// `start <= day < end`.
    pub open spec fn covers(self, day: int) -> bool {
        self.start <= day < self.end
    }

    pub open spec fn between(start: i64, end: i64) -> Option<MonthWindow> {
        if start < end {
            Some(MonthWindow { start, end })
        } else {
            None
        }
    }

    pub fn new(start: i64, end: i64) -> (r: Option<MonthWindow>)
        ensures
            r == Self::between(start, end),
            r is Some ==> r->0.wf(),
    {
        if start < end {
            Some(MonthWindow { start, end })
        } else {
            None
        }
    }

    pub fn contains(&self, day: i64) -> (r: bool)
        ensures
            r == self.covers(day as int),
    {
        self.start <= day && day < self.end
    }
}

/// Whether `row` counts towards the cell of `service` on `day` within `window`.
pub open spec fn feeds(row: CostRowView, window: MonthWindow, day: int, service: Seq<char>) -> bool {
    window.covers(row.day) && row.day == day && row.service == service
}

/// How many of `rows` count towards the cell of `service` on `day`.
pub open spec fn cell_count(
    rows: Seq<CostRowView>,
    window: MonthWindow,
    day: int,
    service: Seq<char>,
) -> nat
    decreases rows.len(),
{
    if rows.len() == 0 {
        0
    } else {
        cell_count(rows.drop_last(), window, day, service) + if feeds(
            rows.last(),
            window,
            day,
            service,
        ) {
            1nat
        } else {
            0nat
        }
    }
}

/// The sum of the amounts of those of `rows` that count towards the cell of
/// `service` on `day`.
pub open spec fn cell_sum(
    rows: Seq<CostRowView>,
    window: MonthWindow,
    day: int,
    service: Seq<char>,
) -> int
    decreases rows.len(),
{
    if rows.len() == 0 {
        0
    } else {
        cell_sum(rows.drop_last(), window, day, service) + if feeds(
            rows.last(),
            window,
            day,
            service,
        ) {
            rows.last().amount
        } else {
            0
        }
    }
}

/// The cell of `service` on `day` in the table of `rows`: absent where no row
/// counts towards it, else the sum of those that do.
pub open spec fn cell_of(
    rows: Seq<CostRowView>,
    window: MonthWindow,
    day: int,
    service: Seq<char>,
) -> Option<int> {
    if cell_count(rows, window, day, service) > 0 {
        Some(cell_sum(rows, window, day, service))
    } else {
        None
    }
}

/// The sum of the amounts of those of `rows` whose day lies in `window`, whatever
/// their service.
pub open spec fn month_sum(rows: Seq<CostRowView>, window: MonthWindow) -> int
    decreases rows.len(),
{
    if rows.len() == 0 {
        0
    } else {
        month_sum(rows.drop_last(), window) + if window.covers(rows.last().day) {
            rows.last().amount
        } else {
            0
        }
    }
}

/// One cell of the table: what `service` cost on `day`, all rows summed.
#[derive(Debug, Clone, PartialEq, Eq)]
pub struct CostCell {
    pub day: i64,
    pub service: String,
    pub amount: i128,
}

impl CostCell {
    pub open spec fn is_at(self, day: int, service: Seq<char>) -> bool {
        self.day == day && self.service@ == service
    }
}

/// The magnitudes of the cells, added up.
pub open spec fn magnitude(cells: Seq<CostCell>) -> int
    decreases cells.len(),
{
    if cells.len() == 0 {
        0
    } else {
        magnitude(cells.drop_last()) + abs(cells.last().amount as int)
    }
}

/// No two of the cells share day and service.
pub open spec fn distinct(cells: Seq<CostCell>) -> bool {
    forall|i: int, j: int|
        0 <= i < j < cells.len() ==> !(#[trigger] cells[i]).is_at(
            (#[trigger] cells[j]).day as int,
            cells[j].service@,
        )
}

/// Appending a cell adds its magnitude.
pub proof fn lemma_magnitude_push(cells: Seq<CostCell>, cell: CostCell)
    ensures
        magnitude(cells.push(cell)) == magnitude(cells) + abs(cell.amount as int),
{
    assert(cells.push(cell).drop_last() =~= cells);
}

/// Replacing the cell at `k` exchanges its magnitude for that of the new cell.
pub proof fn lemma_magnitude_update(cells: Seq<CostCell>, k: int, cell: CostCell)
    requires
        0 <= k < cells.len(),
    ensures
        magnitude(cells.update(k, cell)) == magnitude(cells) - abs(cells[k].amount as int) + abs(
            cell.amount as int,
        ),
    decreases cells.len(),
{
    let updated = cells.update(k, cell);
    if k == cells.len() - 1 {
        assert(updated.drop_last() =~= cells.drop_last());
    } else {
        lemma_magnitude_update(cells.drop_last(), k, cell);
        assert(updated.drop_last() =~= cells.drop_last().update(k, cell));
    }
}

/// The first `k` cells weigh no more than all of them.
pub proof fn lemma_magnitude_prefix(cells: Seq<CostCell>, k: int)
    requires
        0 <= k <= cells.len(),
    ensures
        0 <= magnitude(cells.take(k)) <= magnitude(cells),
    decreases cells.len(),
{
    if k == cells.len() {
        assert(cells.take(k) =~= cells);
        if k > 0 {
            lemma_magnitude_prefix(cells.drop_last(), k - 1);
        }
    } else {
        lemma_magnitude_prefix(cells.drop_last(), k);
        assert(cells.take(k) =~= cells.drop_last().take(k));
    }
}

/// No magnitude is negative, and two different cells together stay within the
/// magnitude of the whole.
pub proof fn lemma_magnitude_pair(cells: Seq<CostCell>, i: int, j: int)
    requires
        0 <= i < cells.len(),
        0 <= j < cells.len(),
    ensures
        0 <= magnitude(cells),
        abs(cells[i].amount as int) <= magnitude(cells),
        i != j ==> abs(cells[i].amount as int) + abs(cells[j].amount as int) <= magnitude(cells),
    decreases cells.len(),
{
    let rest = cells.drop_last();
    let last = cells.len() - 1;
    if rest.len() == 0 {
        assert(magnitude(rest) == 0);
    } else if i < last && j < last {
        lemma_magnitude_pair(rest, i, j);
    } else if i < last {
        lemma_magnitude_pair(rest, i, i);
    } else if j < last {
        lemma_magnitude_pair(rest, j, j);
    } else {
        lemma_magnitude_pair(rest, 0, 0);
    }
}

/// Day by day and service by service, the summed cost. No day and service
/// has two cells.
#[derive(Debug, Clone, PartialEq, Eq)]
pub struct CostTable {
    pub cells: Vec<CostCell>,
}

impl CostTable {
    /// No two cells share day and service, and the magnitudes stay within the limit.
    pub open spec fn wf(self) -> bool {
        distinct(self.cells@) && magnitude(self.cells@) <= magnitude_limit()
    }

    /// Whether the table holds any cost for `day`.
    pub open spec fn has_day(self, day: int) -> bool {
        exists|k: int| 0 <= k < self.cells@.len() && (#[trigger] self.cells@[k]).day == day
    }

    pub open spec fn has_cell(self, day: int, service: Seq<char>) -> bool {
        exists|k: int| 0 <= k < self.cells@.len() && (#[trigger] self.cells@[k]).is_at(day, service)
    }

    /// The cost of `service` on `day`, where the table holds one.
    pub open spec fn cost(self, day: int, service: Seq<char>) -> Option<int> {
        if self.has_cell(day, service) {
            let k = choose|k: int|
                0 <= k < self.cells@.len() && (#[trigger] self.cells@[k]).is_at(day, service);
            Some(self.cells@[k].amount as int)
        } else {
            None
        }
    }

    /// The table as a map from day to the map from service to cost.
    pub open spec fn view(self) -> Map<int, Map<Seq<char>, int>> {
        Map::new(
            |day: int| self.has_day(day),
            |day: int|
                Map::new(
                    |service: Seq<char>| self.has_cell(day, service),
                    |service: Seq<char>| self.cost(day, service)->0,
                ),
        )
    }

    /// The table without any cell.
    pub fn new() -> (r: CostTable)
        ensures
            r.wf(),
            r.cells@.len() == 0,
            forall|day: int| !r.has_day(day),
            forall|day: int, service: Seq<char>| r.cost(day, service) is None,
    {
        let r = CostTable { cells: Vec::new() };
        assert(magnitude(r.cells@) == 0);
        r
    }

    /// Where the cell of `service` on `day` stands, if there is one.
    pub fn find(&self, day: i64, service: &String) -> (r: Option<usize>)
        ensures
            match r {
                Some(k) => k < self.cells@.len() && self.cells@[k as int].is_at(day as int, service@),
                None => !self.has_cell(day as int, service@),
            },
    {
        let mut k: usize = 0;
        while k < self.cells.len()
            invariant
                k <= self.cells@.len(),
                forall|c: int| 0 <= c < k ==> !(#[trigger] self.cells@[c]).is_at(day as int, service@),
            decreases self.cells@.len() - k,
        {
            if self.cells[k].day == day && self.cells[k].service == *service {
                return Some(k);
            }
            k += 1;
        }
        None
    }

    /// The cost of `service` on `day`, where the table holds one.
    pub fn lookup(&self, day: i64, service: &String) -> (r: Option<i128>)
        requires
            self.wf(),
        ensures
            r is Some == self.cost(day as int, service@) is Some,
            r is Some ==> r->0 as int == self.cost(day as int, service@)->0,
    {
        match self.find(day, service) {
            Some(k) => {
                proof {
                    self.lemma_cost_at(k as int);
                }
                Some(self.cells[k].amount)
            },
            None => None,
        }
    }

    /// Whether the table holds any cost for `day`.
    pub fn contains_day(&self, day: i64) -> (r: bool)
        ensures
            r == self.has_day(day as int),
    {
        let mut k: usize = 0;
        while k < self.cells.len()
            invariant
                k <= self.cells@.len(),
                forall|c: int| 0 <= c < k ==> (#[trigger] self.cells@[c]).day != day,
            decreases self.cells@.len() - k,
        {
            if self.cells[k].day == day {
                return true;
            }
            k += 1;
        }
        false
    }

    /// Adds `amount` to the cell of `service` on `day`, which it opens where the
    /// table has none yet. Every other cell stays as it is.
    pub fn add(&mut self, day: i64, service: &String, amount: i64)
        requires
            old(self).wf(),
            magnitude(old(self).cells@) + abs(amount as int) <= magnitude_limit(),
        ensures
            final(self).wf(),
            magnitude(final(self).cells@) <= magnitude(old(self).cells@) + abs(amount as int),
            forall|d: int, s: Seq<char>|
                #[trigger] final(self).cost(d, s) == if d == day && s == service@ {
                    Some(
                        match old(self).cost(d, s) {
                            Some(before) => before + amount,
                            None => amount as int,
                        },
                    )
                } else {
                    old(self).cost(d, s)
                },
            forall|d: int| #[trigger] final(self).has_day(d) == (old(self).has_day(d) || d == day),
    {
        let ghost before = *self;
        match self.find(day, service) {
            Some(k) => {
                proof {
                    lemma_magnitude_pair(self.cells@, k as int, k as int);
                }
                let cell = CostCell {
                    day,
                    service: service.clone(),
                    amount: self.cells[k].amount + (amount as i128),
                };
                proof {
                    lemma_magnitude_update(self.cells@, k as int, cell);
                }
                self.cells.set(k, cell);
                proof {
                    let after = *self;
                    assert(forall|c: int|
                        0 <= c < after.cells@.len() ==> (#[trigger] after.cells@[c]).day
                            == before.cells@[c].day && after.cells@[c].service@
                            == before.cells@[c].service@);
                    assert(distinct(after.cells@));
                    assert forall|d: int| #[trigger]
                        after.has_day(d) == (before.has_day(d) || d == day) by {
                        if before.has_day(d) {
                            let c = choose|c: int|
                                0 <= c < before.cells@.len() && (#[trigger] before.cells@[c]).day
                                    == d;
                            assert(after.cells@[c].day == d);
                        }
                        if d == day {
                            assert(after.cells@[k as int].day == d);
                        }
                        if after.has_day(d) {
                            let c = choose|c: int|
                                0 <= c < after.cells@.len() && (#[trigger] after.cells@[c]).day == d;
                            assert(before.cells@[c].day == d);
                        }
                    }
                    assert forall|d: int, s: Seq<char>| #[trigger]
                        after.cost(d, s) == if d == day && s == service@ {
                            Some(
                                match before.cost(d, s) {
                                    Some(sum) => sum + amount,
                                    None => amount as int,
                                },
                            )
                        } else {
                            before.cost(d, s)
                        } by {
                        if before.has_cell(d, s) {
                            let c = choose|c: int|
                                0 <= c < before.cells@.len() && (#[trigger] before.cells@[c]).is_at(
                                    d,
                                    s,
                                );
                            before.lemma_cost_at(c);
                            before.lemma_cost_at(k as int);
                            assert(after.cells@[c].is_at(d, s));
                            after.lemma_cost_at(c);
                        } else {
                            if after.has_cell(d, s) {
                                let c = choose|c: int|
                                    0 <= c < after.cells@.len() && (#[trigger] after.cells@[c]).is_at(
                                        d,
                                        s,
                                    );
                                assert(before.cells@[c].is_at(d, s));
                            }
                            assert(before.cells@[k as int].is_at(day as int, service@));
                        }
                    }
                }
            },
            None => {
                let cell = CostCell { day, service: service.clone(), amount: amount as i128 };
                proof {
                    lemma_magnitude_push(self.cells@, cell);
                }
                self.cells.push(cell);
                proof {
                    let after = *self;
                    let last = before.cells@.len() as int;
                    assert(forall|c: int|
                        0 <= c < last ==> (#[trigger] after.cells@[c]) == before.cells@[c]);
                    assert(after.cells@[last].is_at(day as int, service@));
                    assert(distinct(after.cells@)) by {
                        assert forall|i: int, j: int| 0 <= i < j < after.cells@.len() implies !(
                        #[trigger] after.cells@[i]).is_at(
                            (#[trigger] after.cells@[j]).day as int,
                            after.cells@[j].service@,
                        ) by {
                            if j < last {
                                assert(!before.cells@[i].is_at(
                                    before.cells@[j].day as int,
                                    before.cells@[j].service@,
                                ));
                            } else {
                                assert(!before.cells@[i].is_at(day as int, service@));
                            }
                        }
                    }
                    assert forall|d: int| #[trigger]
                        after.has_day(d) == (before.has_day(d) || d == day) by {
                        if before.has_day(d) {
                            let c = choose|c: int|
                                0 <= c < before.cells@.len() && (#[trigger] before.cells@[c]).day
                                    == d;
                            assert(after.cells@[c].day == d);
                        }
                        if d == day {
                            assert(after.cells@[last].day == d);
                        }
                        if after.has_day(d) {
                            let c = choose|c: int|
                                0 <= c < after.cells@.len() && (#[trigger] after.cells@[c]).day == d;
                            if c < last {
                                assert(before.cells@[c].day == d);
                            }
                        }
                    }
                    assert forall|d: int, s: Seq<char>| #[trigger]
                        after.cost(d, s) == if d == day && s == service@ {
                            Some(
                                match before.cost(d, s) {
                                    Some(sum) => sum + amount,
                                    None => amount as int,
                                },
                            )
                        } else {
                            before.cost(d, s)
                        } by {
                        if d == day && s == service@ {
                            after.lemma_cost_at(last);
                        } else if before.has_cell(d, s) {
                            let c = choose|c: int|
                                0 <= c < before.cells@.len() && (#[trigger] before.cells@[c]).is_at(
                                    d,
                                    s,
                                );
                            before.lemma_cost_at(c);
                            assert(after.cells@[c].is_at(d, s));
                            after.lemma_cost_at(c);
                        } else if after.has_cell(d, s) {
                            let c = choose|c: int|
                                0 <= c < after.cells@.len() && (#[trigger] after.cells@[c]).is_at(
                                    d,
                                    s,
                                );
                            assert(c < last);
                            assert(before.cells@[c].is_at(d, s));
                        }
                    }
                }
            },
        }
    }

    /// In a well-formed table the cell found at `k` is the cost of its day and service.
    pub proof fn lemma_cost_at(self, k: int)
        requires
            distinct(self.cells@),
            0 <= k < self.cells@.len(),
        ensures
            self.cost(self.cells@[k].day as int, self.cells@[k].service@) == Some(
                self.cells@[k].amount as int,
            ),
            self.has_cell(self.cells@[k].day as int, self.cells@[k].service@),
            self.has_day(self.cells@[k].day as int),
    {
        let day = self.cells@[k].day as int;
        let service = self.cells@[k].service@;
        assert(self.cells@[k].is_at(day, service));
        let c = choose|c: int|
            0 <= c < self.cells@.len() && (#[trigger] self.cells@[c]).is_at(day, service);
        if c < k {
            assert(!self.cells@[c].is_at(self.cells@[k].day as int, self.cells@[k].service@));
        } else if k < c {
            assert(!self.cells@[k].is_at(self.cells@[c].day as int, self.cells@[c].service@));
        }
    }
}

/// A day's cost held against the cost of the day before, as the ratio of the two.
/// The ratio is 1 where nothing changed.
#[derive(Clone, Copy, Debug, PartialEq, Eq, Structural)]
pub struct DiffRate {
    /// The numerator: the cost of the day reported on.
    pub cost: i128,
    /// The denominator: the cost of the day before, never zero.
    pub reference: i128,
}

/// What one service cost on the day reported on, and how that compares with the
/// day before.
#[derive(Clone, Copy, Debug, PartialEq, Eq, Structural)]
pub struct CostReport {
    /// Absent where the day before has no cost for the service, or a cost of zero.
    pub diff_rate: Option<DiffRate>,
    pub diff_cost: i128,
    pub cost: i128,
}

impl CostReport {
    /// The rate's denominator is not zero.
    pub open spec fn wf(self) -> bool {
        self.diff_rate is Some ==> self.diff_rate->0.reference != 0
    }

    /// The report on a service that cost `cost`, after `reference` the day before.
    pub open spec fn comparing(cost: int, reference: Option<int>) -> CostReportView {
        CostReportView {
            cost,
            diff_cost: match reference {
                Some(before) => cost - before,
                None => cost,
            },
            diff_rate: match reference {
                Some(before) => if before != 0 {
                    Some((cost, before))
                } else {
                    None
                },
                None => None,
            },
        }
    }
}

/// A report in unbounded integers; the rate is the pair of cost and reference.
pub struct CostReportView {
    pub cost: int,
    pub diff_cost: int,
    pub diff_rate: Option<(int, int)>,
}

impl View for CostReport {
    type V = CostReportView;

    open spec fn view(&self) -> CostReportView {
        CostReportView {
            cost: self.cost as int,
            diff_cost: self.diff_cost as int,
            diff_rate: match self.diff_rate {
                Some(rate) => Some((rate.cost as int, rate.reference as int)),
                None => None,
            },
        }
    }
}

/// The report on one service.
#[derive(Debug, Clone, PartialEq, Eq)]
pub struct ServiceReport {
    pub service: String,
    pub report: CostReport,
}

/// The magnitudes of the costs that the reports name, added up.
pub open spec fn cost_magnitude(entries: Seq<ServiceReport>) -> int
    decreases entries.len(),
{
    if entries.len() == 0 {
        0
    } else {
        cost_magnitude(entries.drop_last()) + abs(entries.last().report.cost as int)
    }
}

/// The costs that the reports name, added up.
pub open spec fn cost_sum(entries: Seq<ServiceReport>) -> int
    decreases entries.len(),
{
    if entries.len() == 0 {
        0
    } else {
        cost_sum(entries.drop_last()) + entries.last().report.cost
    }
}

/// A sum of costs is no larger than the sum of their magnitudes.
pub proof fn lemma_cost_sum_bounded(entries: Seq<ServiceReport>)
    ensures
        abs(cost_sum(entries)) <= cost_magnitude(entries),
    decreases entries.len(),
{
    if entries.len() > 0 {
        lemma_cost_sum_bounded(entries.drop_last());
    }
}

/// The first `k` reports weigh no more than all of them.
pub proof fn lemma_cost_magnitude_prefix(entries: Seq<ServiceReport>, k: int)
    requires
        0 <= k <= entries.len(),
    ensures
        0 <= cost_magnitude(entries.take(k)) <= cost_magnitude(entries),
    decreases entries.len(),
{
    if k == entries.len() {
        assert(entries.take(k) =~= entries);
        if k > 0 {
            lemma_cost_magnitude_prefix(entries.drop_last(), k - 1);
        }
    } else {
        lemma_cost_magnitude_prefix(entries.drop_last(), k);
        assert(entries.take(k) =~= entries.drop_last().take(k));
    }
}

/// The reports of one day, one for each service that was billed on it.
#[derive(Debug, Clone, PartialEq, Eq)]
pub struct ServiceToCostReportMap {
    pub entries: Vec<ServiceReport>,
}

impl ServiceToCostReportMap {
    /// No service has two reports, every report is well formed, and the costs
    /// stay within the limit of a table.
    pub open spec fn wf(self) -> bool {
        &&& forall|i: int, j: int|
            0 <= i < j < self.entries@.len() ==> (#[trigger] self.entries@[i]).service@ != (
            #[trigger] self.entries@[j]).service@
        &&& forall|i: int| 0 <= i < self.entries@.len() ==> (#[trigger] self.entries@[i]).report.wf()
        &&& cost_magnitude(self.entries@) <= magnitude_limit()
    }

    /// What the day cost, all services together.
    pub open spec fn total(self) -> int {
        cost_sum(self.entries@)
    }

    /// What the day cost, all services together.
    pub fn total_cost(&self) -> (r: i128)
        requires
            self.wf(),
        ensures
            r == self.total(),
    {
        let mut sum: i128 = 0;
        let mut i: usize = 0;
        while i < self.entries.len()
            invariant
                self.wf(),
                i <= self.entries@.len(),
                sum == cost_sum(self.entries@.take(i as int)),
            decreases self.entries@.len() - i,
        {
            proof {
                assert(self.entries@.take(i + 1).drop_last() =~= self.entries@.take(i as int));
                lemma_cost_sum_bounded(self.entries@.take(i + 1));
                lemma_cost_magnitude_prefix(self.entries@, i + 1);
            }
            sum = sum + self.entries[i].report.cost;
            i += 1;
        }
        assert(self.entries@.take(self.entries@.len() as int) =~= self.entries@);
        sum
    }

    pub open spec fn has(self, service: Seq<char>) -> bool {
        exists|k: int| 0 <= k < self.entries@.len() && (#[trigger] self.entries@[k]).service@ == service
    }

    /// The report on `service`, where there is one.
    pub open spec fn entry(self, service: Seq<char>) -> Option<CostReportView> {
        if self.has(service) {
            let k = choose|k: int|
                0 <= k < self.entries@.len() && (#[trigger] self.entries@[k]).service@ == service;
            Some(self.entries@[k].report@)
        } else {
            None
        }
    }

    /// The reports as a map from service to report.
    pub open spec fn view(self) -> Map<Seq<char>, CostReportView> {
        Map::new(|service: Seq<char>| self.has(service), |service: Seq<char>| self.entry(service)->0)
    }

    /// In a well-formed map the entry at `k` is the report on its service.
    pub proof fn lemma_entry_at(self, k: int)
        requires
            self.wf(),
            0 <= k < self.entries@.len(),
        ensures
            self.entry(self.entries@[k].service@) == Some(self.entries@[k].report@),
    {
        let service = self.entries@[k].service@;
        let c = choose|c: int|
            0 <= c < self.entries@.len() && (#[trigger] self.entries@[c]).service@ == service;
        if c < k {
            assert(self.entries@[c].service@ != self.entries@[k].service@);
        } else if k < c {
            assert(self.entries@[k].service@ != self.entries@[c].service@);
        }
    }

    pub fn len(&self) -> (r: usize)
        ensures
            r == self.entries@.len(),
    {
        self.entries.len()
    }

    /// The report on `service`, where there is one.
    pub fn get(&self, service: &String) -> (r: Option<CostReport>)
        requires
            self.wf(),
        ensures
            match r {
                Some(report) => self.entry(service@) == Some(report@) && report.wf(),
                None => self.entry(service@) is None,
            },
    {
        let mut k: usize = 0;
        while k < self.entries.len()
            invariant
                self.wf(),
                k <= self.entries@.len(),
                forall|c: int| 0 <= c < k ==> (#[trigger] self.entries@[c]).service@ != service@,
            decreases self.entries@.len() - k,
        {
            if self.entries[k].service == *service {
                proof {
                    self.lemma_entry_at(k as int);
                }
                return Some(self.entries[k].report);
            }
            k += 1;
        }
        None
    }
}

} // verus!
