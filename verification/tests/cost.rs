use notifier::client::bigquery::{
    aggregate, cell_text, compare, diff, month_from_bounds, read_rows, BigqueryClient, CellError,
    CostError,
};
use notifier::model::config::Config;
use notifier::model::gcp_cost::{
    BillingRow, CostReport, CostRow, CostTable, DiffRate, MonthWindow, ServiceToCostReportMap,
};
use notifier::model::time::Instant;
use notifier::usecase::cost::{CostAction, CostEvent, CostQuery, CostUsecase};
use notifier::client::slack::SlackClient;
use std::sync::Arc;

fn row(day: i64, service: &str, amount: i64) -> CostRow {
    CostRow { day, service: service.to_string(), amount }
}

fn billed(time: &str, service: &str, amount: i64) -> BillingRow {
    BillingRow { service: service.to_string(), amount, partition_time: time.to_string() }
}

fn config() -> Arc<Config> {
    Arc::new(Config {
        cmd: "notify_daily_cost".to_string(),
        arxiv_query: "llm".to_string(),
        openai_api_key: "key".to_string(),
        slack_bot_token: "token".to_string(),
        slack_channel: "#cost".to_string(),
        platform: "local".to_string(),
        gcp_credential_path: None,
        gcp_project_id: "my-project".to_string(),
        gcp_bigquery_cost_table: "billing.export".to_string(),
    })
}

fn client() -> BigqueryClient {
    BigqueryClient::new(config())
}

fn july() -> MonthWindow {
    MonthWindow::new(19_539, 19_570).unwrap()
}

fn get(report: &ServiceToCostReportMap, service: &str) -> Option<CostReport> {
    report.get(&service.to_string())
}

fn ratio(rate: DiffRate) -> f64 {
    rate.cost as f64 / rate.reference as f64
}

#[test]
fn aggregate_groups_by_day_and_service() {
    let day1 = 19_557;
    let day2 = 19_558;
    let rows = vec![row(day1, "A", 10), row(day1, "A", 5), row(day1, "B", 3), row(day2, "A", 7)];
    let (table, total) = aggregate(&rows, july());
    assert_eq!(total, 25);
    assert_eq!(table.lookup(day1, &"A".to_string()), Some(15));
    assert_eq!(table.lookup(day1, &"B".to_string()), Some(3));
    assert_eq!(table.lookup(day2, &"A".to_string()), Some(7));
    assert_eq!(table.lookup(day2, &"B".to_string()), None);
    assert_eq!(table.cells.len(), 3);
    assert!(table.contains_day(day1));
    assert!(table.contains_day(day2));
    assert!(!table.contains_day(day2 + 1));
}

#[test]
fn aggregate_leaves_out_rows_outside_the_month() {
    let rows = vec![
        row(19_538, "A", 100),
        row(19_539, "A", 1),
        row(19_569, "A", 2),
        row(19_570, "A", 200),
    ];
    let (table, total) = aggregate(&rows, july());
    assert_eq!(total, 3);
    assert_eq!(table.lookup(19_538, &"A".to_string()), None);
    assert_eq!(table.lookup(19_539, &"A".to_string()), Some(1));
    assert_eq!(table.lookup(19_569, &"A".to_string()), Some(2));
    assert_eq!(table.lookup(19_570, &"A".to_string()), None);
    assert!(!table.contains_day(19_538));
    assert!(!table.contains_day(19_570));
}

#[test]
fn aggregate_does_not_depend_on_the_order_of_the_rows() {
    let rows = vec![row(1, "A", 10), row(1, "B", 3), row(2, "A", 7), row(1, "A", 5)];
    let mut turned = rows.clone();
    turned.reverse();
    let window = MonthWindow::new(1, 3).unwrap();
    let (table, total) = aggregate(&rows, window);
    let (other, other_total) = aggregate(&turned, window);
    assert_eq!(total, other_total);
    for day in 1..3 {
        for service in ["A", "B"] {
            assert_eq!(
                table.lookup(day, &service.to_string()),
                other.lookup(day, &service.to_string())
            );
        }
    }
}

#[test]
fn aggregate_of_nothing_is_an_empty_table() {
    let (table, total) = aggregate(&vec![], july());
    assert_eq!(total, 0);
    assert_eq!(table, CostTable { cells: vec![] });
}

#[test]
fn aggregate_sums_amounts_of_either_sign_and_any_size() {
    let rows = vec![
        row(1, "A", i64::MAX),
        row(1, "A", i64::MAX),
        row(1, "A", -5),
        row(1, "B", i64::MIN),
        row(1, "B", i64::MIN),
    ];
    let (table, total) = aggregate(&rows, MonthWindow::new(1, 2).unwrap());
    assert_eq!(table.lookup(1, &"A".to_string()), Some(2 * (i64::MAX as i128) - 5));
    assert_eq!(table.lookup(1, &"B".to_string()), Some(2 * (i64::MIN as i128)));
    assert_eq!(total, 2 * (i64::MAX as i128) - 5 + 2 * (i64::MIN as i128));
}

#[test]
fn diff_compares_with_the_day_before() {
    let rows = vec![row(10, "A", 100), row(11, "A", 120)];
    let (table, _) = aggregate(&rows, MonthWindow::new(1, 32).unwrap());
    let report = diff(&table, 11).unwrap();
    assert_eq!(report.len(), 1);
    let a = get(&report, "A").unwrap();
    assert_eq!(a.cost, 120);
    assert_eq!(a.diff_cost, 20);
    assert_eq!(a.diff_rate, Some(DiffRate { cost: 120, reference: 100 }));
    assert_eq!(ratio(a.diff_rate.unwrap()), 1.2);
}

#[test]
fn diff_has_no_rate_against_a_cost_of_zero() {
    let rows = vec![row(10, "A", 0), row(11, "A", 120)];
    let (table, _) = aggregate(&rows, MonthWindow::new(1, 32).unwrap());
    let a = get(&diff(&table, 11).unwrap(), "A").unwrap();
    assert_eq!(a, CostReport { diff_rate: None, diff_cost: 120, cost: 120 });
}

#[test]
fn diff_has_no_rate_where_the_day_before_is_absent() {
    let rows = vec![row(11, "A", 120)];
    let (table, _) = aggregate(&rows, MonthWindow::new(1, 32).unwrap());
    let a = get(&diff(&table, 11).unwrap(), "A").unwrap();
    assert_eq!(a, CostReport { diff_rate: None, diff_cost: 120, cost: 120 });
}

#[test]
fn diff_has_no_rate_for_a_service_new_on_the_day() {
    let rows = vec![row(10, "A", 100), row(11, "A", 50), row(11, "B", 8)];
    let (table, _) = aggregate(&rows, MonthWindow::new(1, 32).unwrap());
    let report = diff(&table, 11).unwrap();
    assert_eq!(
        get(&report, "A"),
        Some(CostReport {
            diff_rate: Some(DiffRate { cost: 50, reference: 100 }),
            diff_cost: -50,
            cost: 50
        })
    );
    assert_eq!(get(&report, "B"), Some(CostReport { diff_rate: None, diff_cost: 8, cost: 8 }));
}

#[test]
fn diff_leaves_out_services_billed_only_the_day_before() {
    let rows = vec![row(10, "A", 100), row(10, "Gone", 9), row(11, "A", 120)];
    let (table, _) = aggregate(&rows, MonthWindow::new(1, 32).unwrap());
    let report = diff(&table, 11).unwrap();
    assert_eq!(report.len(), 1);
    assert_eq!(get(&report, "Gone"), None);
}

#[test]
fn diff_fails_on_a_day_without_rows() {
    let rows = vec![row(10, "A", 10)];
    let (table, _) = aggregate(&rows, MonthWindow::new(1, 32).unwrap());
    assert_eq!(diff(&table, 11), Err(CostError::MissingData));
    assert_eq!(diff(&CostTable::new(), 11), Err(CostError::MissingData));
}

#[test]
fn diff_on_the_first_day_that_can_be_counted() {
    let rows = vec![row(i64::MIN, "A", 4)];
    let (table, _) = aggregate(&rows, MonthWindow::new(i64::MIN, 0).unwrap());
    let a = get(&diff(&table, i64::MIN).unwrap(), "A").unwrap();
    assert_eq!(a, CostReport { diff_rate: None, diff_cost: 4, cost: 4 });
}

#[test]
fn diff_of_the_largest_costs_does_not_overflow() {
    let rows = vec![row(1, "A", i64::MIN), row(2, "A", i64::MAX)];
    let (table, _) = aggregate(&rows, MonthWindow::new(1, 3).unwrap());
    let a = get(&diff(&table, 2).unwrap(), "A").unwrap();
    assert_eq!(a.diff_cost, i64::MAX as i128 - i64::MIN as i128);
}

#[test]
fn compare_gives_cost_difference_and_rate() {
    assert_eq!(
        compare(120, Some(100)),
        CostReport {
            diff_rate: Some(DiffRate { cost: 120, reference: 100 }),
            diff_cost: 20,
            cost: 120
        }
    );
    assert_eq!(compare(120, Some(0)), CostReport { diff_rate: None, diff_cost: 120, cost: 120 });
    assert_eq!(compare(120, None), CostReport { diff_rate: None, diff_cost: 120, cost: 120 });
    assert_eq!(
        compare(0, Some(5)),
        CostReport { diff_rate: Some(DiffRate { cost: 0, reference: 5 }), diff_cost: -5, cost: 0 }
    );
}

#[test]
fn month_window_is_half_open() {
    let window = july();
    assert!(window.contains(19_539));
    assert!(window.contains(19_569));
    assert!(!window.contains(19_570));
    assert!(!window.contains(19_538));
    assert_eq!(MonthWindow::new(5, 5), None);
    assert_eq!(MonthWindow::new(6, 5), None);
}

#[test]
fn month_window_runs_from_the_first_to_the_first_of_the_next_month() {
    assert_eq!(client().month_window(1_689_811_200), Ok(MonthWindow { start: 19_539, end: 19_570 }));
    assert_eq!(client().month_window(1_688_169_600), Ok(MonthWindow { start: 19_539, end: 19_570 }));
}

#[test]
fn month_window_of_a_leap_february() {
    assert_eq!(client().month_window(1_709_164_800), Ok(MonthWindow { start: 19_754, end: 19_783 }));
}

#[test]
fn month_window_of_a_day_in_december_runs_to_the_first_of_january() {
    assert_eq!(client().month_window(1_702_598_400), Ok(MonthWindow { start: 19_692, end: 19_723 }));
    assert_eq!(client().month_window(1_701_388_800), Ok(MonthWindow { start: 19_692, end: 19_723 }));
    assert_eq!(client().month_window(1_703_980_800), Ok(MonthWindow { start: 19_692, end: 19_723 }));
}

#[test]
fn month_window_of_january_starts_on_the_first_of_the_year() {
    assert_eq!(client().month_window(1_704_067_200), Ok(MonthWindow { start: 19_723, end: 19_754 }));
}

#[test]
fn next_month_steps_over_the_turn_of_the_year() {
    assert_eq!(BigqueryClient::next_month(1_701_388_800, 12), Some(1_704_067_200));
    assert_eq!(BigqueryClient::next_month(1_688_169_600, 7), Some(1_690_848_000));
    assert_eq!(BigqueryClient::next_month(1_704_067_200, 1), Some(1_706_745_600));
    assert_eq!(BigqueryClient::next_month(i64::MAX, 12), None);
}

#[test]
fn get_cost_reports_on_a_day_in_december() {
    let start_of_target_date = 1_733_788_800;
    let window = client().month_window(start_of_target_date).unwrap();
    assert_eq!(window, MonthWindow { start: 20_058, end: 20_089 });
    let rows = vec![billed("2024-12-10T00:00:00", "A", 120)];
    let (report, total) = client().get_cost(&rows, window, 20_067).unwrap();
    assert_eq!(total, 120);
    assert_eq!(report.len(), 1);
    assert_eq!(get(&report, "A"), Some(CostReport { diff_rate: None, diff_cost: 120, cost: 120 }));
}

#[test]
fn cell_text_takes_the_text_of_a_cell() {
    let row = Some(vec![Some("Compute".to_string()), None, Some("1.5".to_string())]);
    assert_eq!(cell_text(&row, 0), Ok("Compute".to_string()));
    assert_eq!(cell_text(&row, 2), Ok("1.5".to_string()));
    assert_eq!(cell_text(&row, 1), Err(CellError::Missing { index: 1 }));
    assert_eq!(cell_text(&row, 3), Err(CellError::Missing { index: 3 }));
    assert_eq!(cell_text(&None, 0), Err(CellError::Missing { index: 0 }));
    assert_eq!(cell_text(&Some(vec![]), 0), Err(CellError::Missing { index: 0 }));
}

#[test]
fn month_window_of_a_second_beyond_the_calendar_cannot_be_named() {
    assert_eq!(client().month_window(i64::MAX), Err(CostError::StartOfMonth));
}

#[test]
fn month_from_bounds_needs_a_later_day() {
    assert_eq!(
        month_from_bounds(1_688_169_600, 1_690_848_000),
        Ok(MonthWindow { start: 19_539, end: 19_570 })
    );
    assert_eq!(month_from_bounds(1_688_169_600, 1_688_169_600 + 5), Err(CostError::InvalidMonth));
    assert_eq!(month_from_bounds(1_690_848_000, 1_688_169_600), Err(CostError::InvalidMonth));
}

#[test]
fn read_rows_takes_the_day_from_the_partition_time() {
    let rows = read_rows(&vec![
        billed("2023-07-20T00:00:00", "A", 5),
        billed("2023-07-19T00:00:00", "B", -2),
    ])
    .unwrap();
    assert_eq!(rows, vec![row(19_558, "A", 5), row(19_557, "B", -2)]);
}

#[test]
fn read_rows_fails_on_the_first_unreadable_day() {
    let rows = vec![
        billed("2023-07-20T00:00:00", "A", 5),
        billed("2023-07-20", "B", 1),
        billed("", "C", 1),
    ];
    assert_eq!(read_rows(&rows), Err(CostError::MalformedInput { index: 1 }));
}

#[test]
fn get_cost_reports_on_the_target_day() {
    let rows = vec![
        billed("2023-07-19T00:00:00", "A", 100),
        billed("2023-07-20T00:00:00", "A", 70),
        billed("2023-07-20T00:00:00", "A", 50),
        billed("2023-07-20T00:00:00", "B", 3),
        billed("2023-06-30T00:00:00", "A", 1_000),
    ];
    let (report, total) = client().get_cost(&rows, july(), 19_558).unwrap();
    assert_eq!(total, 223);
    assert_eq!(report.len(), 2);
    assert_eq!(
        get(&report, "A"),
        Some(CostReport {
            diff_rate: Some(DiffRate { cost: 120, reference: 100 }),
            diff_cost: 20,
            cost: 120
        })
    );
    assert_eq!(get(&report, "B"), Some(CostReport { diff_rate: None, diff_cost: 3, cost: 3 }));
    assert_eq!(report.total_cost(), 123);
}

#[test]
fn get_cost_fails_without_rows_for_the_target_day() {
    let rows = vec![billed("2023-07-19T00:00:00", "A", 100)];
    assert_eq!(client().get_cost(&rows, july(), 19_558), Err(CostError::MissingData));
    assert_eq!(client().get_cost(&vec![], july(), 19_558), Err(CostError::MissingData));
}

#[test]
fn get_cost_fails_on_an_unreadable_day() {
    let rows = vec![billed("20230720", "A", 100)];
    assert_eq!(
        client().get_cost(&rows, july(), 19_558),
        Err(CostError::MalformedInput { index: 0 })
    );
}

fn usecase() -> CostUsecase {
    CostUsecase::new(Arc::new(SlackClient::new(config())), Arc::new(client()))
}

#[test]
fn cost_flow_asks_for_the_month_of_the_day_before_the_run() {
    let action = usecase().notify_daily_cost(CostEvent::Started(Instant::new(1_689_875_978, 3)));
    assert_eq!(
        action,
        CostAction::Query(CostQuery {
            window: MonthWindow { start: 19_539, end: 19_570 },
            target_day: 19_557,
            start_of_target_date: 1_689_724_800,
        })
    );
}

#[test]
fn cost_flow_on_the_first_of_a_month_reports_on_the_month_before() {
    let action = usecase().notify_daily_cost(CostEvent::Started(Instant::new(1_690_848_000, 0)));
    assert_eq!(
        action,
        CostAction::Query(CostQuery {
            window: MonthWindow { start: 19_539, end: 19_570 },
            target_day: 19_569,
            start_of_target_date: 1_690_761_600,
        })
    );
}

#[test]
fn cost_flow_in_december_asks_for_the_month_up_to_the_first_of_january() {
    let action = usecase().notify_daily_cost(CostEvent::Started(Instant::new(1_702_598_400, 0)));
    assert_eq!(
        action,
        CostAction::Query(CostQuery {
            window: MonthWindow { start: 19_692, end: 19_723 },
            target_day: 19_705,
            start_of_target_date: 1_702_512_000,
        })
    );
}

#[test]
fn cost_flow_on_new_years_day_reports_on_december() {
    let action = usecase().notify_daily_cost(CostEvent::Started(Instant::new(1_704_067_200, 0)));
    assert_eq!(
        action,
        CostAction::Query(CostQuery {
            window: MonthWindow { start: 19_692, end: 19_723 },
            target_day: 19_722,
            start_of_target_date: 1_703_980_800,
        })
    );
}

#[test]
fn cost_flow_fails_where_the_calendar_has_no_date() {
    let action = usecase().notify_daily_cost(CostEvent::Started(Instant::new(i64::MAX, 0)));
    assert_eq!(action, CostAction::Fail(CostError::StartOfMonth));
}

#[test]
fn cost_flow_posts_the_report_made_of_the_rows() {
    let query = CostQuery { window: july(), target_day: 19_558, start_of_target_date: 1_689_811_200 };
    let rows = vec![billed("2023-07-19T00:00:00", "A", 100), billed("2023-07-20T00:00:00", "A", 120)];
    match usecase().notify_daily_cost(CostEvent::Rows { query, billed: rows }) {
        CostAction::Post { report, month_total, query: asked } => {
            assert_eq!(asked, query);
            assert_eq!(month_total, 220);
            assert_eq!(get(&report, "A").unwrap().diff_cost, 20);
        }
        other => panic!("no report: {:?}", other),
    }
}

#[test]
fn cost_flow_fails_where_the_day_has_no_rows() {
    let query = CostQuery { window: july(), target_day: 19_558, start_of_target_date: 1_689_811_200 };
    let rows = vec![billed("2023-07-19T00:00:00", "A", 100)];
    assert_eq!(
        usecase().notify_daily_cost(CostEvent::Rows { query, billed: rows }),
        CostAction::Fail(CostError::MissingData)
    );
}
