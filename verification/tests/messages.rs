use notifier::client::bigquery::{aggregate, diff};
use notifier::client::openai::{OpenAiClient, SummaryError};
use notifier::client::slack::{insert_field, CostField, SlackClient};
use notifier::model::config::{
    load_config, Command, Config, ConfigError, Environment, Variable,
};
use notifier::model::gcp_cost::{CostReport, CostRow, DiffRate, MonthWindow};
use notifier::model::openai::{ChatChoice, Engine, PaperSummaryModel};
use notifier::model::paper::PaperModel;
use std::sync::Arc;

fn config() -> Arc<Config> {
    Arc::new(Config {
        cmd: "notify_paper".to_string(),
        arxiv_query: "llm".to_string(),
        openai_api_key: "key".to_string(),
        slack_bot_token: "token".to_string(),
        slack_channel: "#news".to_string(),
        platform: "cloud-run-7".to_string(),
        gcp_credential_path: None,
        gcp_project_id: "my-project".to_string(),
        gcp_bigquery_cost_table: "billing.export".to_string(),
    })
}

fn paper() -> PaperModel {
    PaperModel {
        url: "http://arxiv.org/abs/1".to_string(),
        published: "2023-07-20T00:00:00Z".to_string(),
        title: "On Things".to_string(),
        summary: "Things are studied.".to_string(),
        authors: vec!["A".to_string()],
    }
}

fn choice(reason: Option<&str>, arguments: Option<&str>, content: Option<&str>) -> ChatChoice {
    ChatChoice {
        finish_reason: reason.map(|s| s.to_string()),
        function_arguments: arguments.map(|s| s.to_string()),
        content: content.map(|s| s.to_string()),
    }
}

fn full_environment() -> Environment {
    Environment {
        cmd: Some("notify_daily_cost".to_string()),
        arxiv_query: Some("rust".to_string()),
        openai_api_key: Some("key".to_string()),
        slack_bot_token: Some("token".to_string()),
        slack_channel: Some("#cost".to_string()),
        cloud_run_execution: Some("run-1".to_string()),
        google_application_credentials: Some("/tmp/cred.json".to_string()),
        gcp_project_id: Some("project".to_string()),
        gcp_bigquery_cost_table: Some("table".to_string()),
    }
}

#[test]
fn engine_names() {
    assert_eq!(Engine::Gpt3_5Turbo.name(), "gpt-3.5-turbo");
    assert_eq!(Engine::Gpt4.name(), "gpt-4");
    assert_eq!(Engine::Gpt4.to_string(), "gpt-4");
    assert_eq!(Engine::Gpt3_5Turbo.to_string(), "gpt-3.5-turbo");
}

#[test]
fn summary_request_holds_prompts_and_paper() {
    let request = OpenAiClient::new(config()).summary_request(&paper(), &Engine::Gpt4);
    assert_eq!(request.model, "gpt-4");
    assert_eq!(request.max_tokens, 1024);
    assert_eq!(
        request.system,
        "You are a teacher with expertise in information education and technology.\nDo not write in English."
    );
    assert_eq!(
        request.user,
        "You are a teacher with expertise in information education and technology.\nDo not write in English.Explain the following a paper in simple, plain, jargon-free Japanese.\nThe output should be specified formatted.\ntitle:On Things\nsummary:Things are studied."
    );
}

#[test]
fn summary_request_puts_title_and_abstract_on_one_line() {
    let mut broken = paper();
    broken.title = "On\nThings".to_string();
    broken.summary = "Things\nare studied.\n".to_string();
    let request = OpenAiClient::new(config()).summary_request(&broken, &Engine::Gpt4);
    assert!(request.user.ends_with("\ntitle:On Things\nsummary:Things are studied. "));
}

#[test]
fn paper_message_is_headed_by_the_title_on_one_line() {
    let mut broken = paper();
    broken.title = "On\nThings\n".to_string();
    let answer = PaperSummaryModel { title: "T\nT".to_string(), summary: vec!["a\nb".to_string()] };
    let message = SlackClient::new(config()).post_message(&broken, &answer, &Engine::Gpt4);
    assert_eq!(message.title, "On Things ");
    assert_eq!(message.text, "*T\nT*\n \u{2022} a\nb\n");
}

#[test]
fn summary_is_taken_from_the_first_function_call() {
    let choices = vec![
        choice(Some("stop"), Some("{\"no\":1}"), Some("text")),
        choice(Some("function_call"), None, None),
        choice(None, Some("{\"no\":2}"), None),
        choice(Some("function_call"), Some("{\"title\":\"x\",\"summary\":[]}"), None),
        choice(Some("function_call"), Some("{\"later\":true}"), None),
    ];
    assert_eq!(
        OpenAiClient::new(config()).summarize_paper(&choices),
        Ok("{\"title\":\"x\",\"summary\":[]}".to_string())
    );
}

#[test]
fn no_function_call_no_summary() {
    let client = OpenAiClient::new(config());
    assert_eq!(client.summarize_paper(&vec![]), Err(SummaryError::NoFunctionCall));
    let choices = vec![choice(Some("stop"), Some("{}"), None), choice(Some("function_call"), None, None)];
    assert_eq!(client.summarize_paper(&choices), Err(SummaryError::NoFunctionCall));
}

#[test]
fn chat_joins_the_texts_of_all_answers() {
    let client = notifier::client::openapi::OpenAiClient::new(config());
    let choices = vec![
        choice(None, None, Some("Hello")),
        choice(None, None, None),
        choice(None, None, Some(", world")),
    ];
    assert_eq!(client.chat(&choices), "Hello, world");
    assert_eq!(client.chat(&vec![]), "");
}

#[test]
fn chat_request_hands_the_text_to_gpt_3_5() {
    let client = notifier::client::openapi::OpenAiClient::new(config());
    let request = client.chat_request("What is Verus?".to_string());
    assert_eq!(request.model, "gpt-3.5-turbo");
    assert_eq!(request.max_tokens, 1024);
    assert_eq!(request.system, "You are a helpful assistant.");
    assert_eq!(request.user, "What is Verus?");
}

#[test]
fn paper_message_lists_the_summary_as_bullets() {
    let answer = PaperSummaryModel {
        title: "About things".to_string(),
        summary: vec!["One.".to_string(), "Two.".to_string()],
    };
    let message = SlackClient::new(config()).post_message(&paper(), &answer, &Engine::Gpt4);
    assert_eq!(message.channel, "#news");
    assert_eq!(message.color, "#3560a6");
    assert_eq!(message.title, "On Things");
    assert_eq!(message.title_link, "http://arxiv.org/abs/1");
    assert_eq!(message.text, "*About things*\n \u{2022} One.\n \u{2022} Two.\n");
    assert_eq!(message.footer, "Powered by gpt-4  / Running on cloud-run-7\n");
}

#[test]
fn paper_message_without_sentences_is_the_title_alone() {
    let answer = PaperSummaryModel { title: "T".to_string(), summary: vec![] };
    let message = SlackClient::new(config()).post_message(&paper(), &answer, &Engine::Gpt3_5Turbo);
    assert_eq!(message.text, "*T*\n");
    assert_eq!(message.footer, "Powered by gpt-3.5-turbo  / Running on cloud-run-7\n");
}

fn report_of_day_two() -> notifier::model::gcp_cost::ServiceToCostReportMap {
    let rows = vec![
        CostRow { day: 1, service: "Compute".to_string(), amount: 100 },
        CostRow { day: 2, service: "Storage".to_string(), amount: 30 },
        CostRow { day: 2, service: "BigQuery".to_string(), amount: 7 },
        CostRow { day: 2, service: "Compute".to_string(), amount: 120 },
        CostRow { day: 2, service: "App Engine".to_string(), amount: 1 },
        CostRow { day: 2, service: "compute".to_string(), amount: 2 },
    ];
    let (table, _) = aggregate(&rows, MonthWindow::new(1, 3).unwrap());
    diff(&table, 2).unwrap()
}

#[test]
fn cost_fields_stand_in_the_order_of_the_names() {
    let fields = SlackClient::new(config()).cost_fields(&report_of_day_two());
    let titles: Vec<&str> = fields.iter().map(|f| f.title.as_str()).collect();
    assert_eq!(titles, vec!["App Engine", "BigQuery", "Compute", "Storage", "compute"]);
    assert_eq!(
        fields[2].report,
        CostReport {
            diff_rate: Some(DiffRate { cost: 120, reference: 100 }),
            diff_cost: 20,
            cost: 120
        }
    );
    assert_eq!(fields[3].report, CostReport { diff_rate: None, diff_cost: 30, cost: 30 });
}

#[test]
fn a_beginning_stands_before_the_whole() {
    let report = CostReport { diff_rate: None, diff_cost: 0, cost: 0 };
    let mut fields = vec![CostField { title: "ab".to_string(), report }];
    assert_eq!(insert_field(&mut fields, CostField { title: "a".to_string(), report }), 0);
    assert_eq!(insert_field(&mut fields, CostField { title: "abc".to_string(), report }), 2);
    assert_eq!(insert_field(&mut fields, CostField { title: "\u{e9}".to_string(), report }), 3);
    assert_eq!(insert_field(&mut fields, CostField { title: "z".to_string(), report }), 3);
    let titles: Vec<&str> = fields.iter().map(|f| f.title.as_str()).collect();
    assert_eq!(titles, vec!["a", "ab", "abc", "z", "\u{e9}"]);
}

#[test]
fn cost_message_holds_totals_and_texts() {
    let message = SlackClient::new(config()).post_daily_cost(&report_of_day_two(), 260);
    assert_eq!(message.channel, "#news");
    assert_eq!(message.color, "#cdcdcd");
    assert_eq!(message.title, "*Cost Report*");
    assert_eq!(message.project, "Project:  my-project");
    assert_eq!(message.monthly_total, 260);
    assert_eq!(message.daily_total, 160);
    assert_eq!(message.fields.len(), 5);
    assert_eq!(message.fields[0].title, "App Engine");
    assert_eq!(
        message.remark,
        "\n_\u{203b} Cost from 09:00 JST to 09:00 JST the following day (compared to the previous day)._"
    );
    assert_eq!(message.footer, "Data sourced from billing.export / Running on cloud-run-7\n");
}

#[test]
fn config_takes_the_values_of_the_environment() {
    let config = load_config(full_environment()).unwrap();
    assert_eq!(config.cmd, "notify_daily_cost");
    assert_eq!(config.arxiv_query, "rust");
    assert_eq!(config.openai_api_key, "key");
    assert_eq!(config.slack_bot_token, "token");
    assert_eq!(config.slack_channel, "#cost");
    assert_eq!(config.platform, "run-1");
    assert_eq!(config.gcp_credential_path, Some("/tmp/cred.json".to_string()));
    assert_eq!(config.gcp_project_id, "project");
    assert_eq!(config.gcp_bigquery_cost_table, "table");
}

#[test]
fn config_has_defaults_for_query_platform_and_credentials() {
    let mut env = full_environment();
    env.arxiv_query = None;
    env.cloud_run_execution = None;
    env.google_application_credentials = None;
    let config = load_config(env).unwrap();
    assert_eq!(config.arxiv_query, "llm OR \"generative ai\" OR \"visual recognition\"");
    assert_eq!(config.platform, "UNKNOWN");
    assert_eq!(config.gcp_credential_path, None);
}

#[test]
fn config_names_the_first_variable_that_is_missing() {
    let mut env = full_environment();
    env.gcp_bigquery_cost_table = None;
    assert_eq!(
        load_config(env.clone()),
        Err(ConfigError::Missing(Variable::GcpBigqueryCostTable))
    );
    env.gcp_project_id = None;
    assert_eq!(load_config(env.clone()), Err(ConfigError::Missing(Variable::GcpProjectId)));
    env.slack_channel = None;
    assert_eq!(load_config(env.clone()), Err(ConfigError::Missing(Variable::SlackChannel)));
    env.slack_bot_token = None;
    assert_eq!(load_config(env.clone()), Err(ConfigError::Missing(Variable::SlackBotToken)));
    env.openai_api_key = None;
    assert_eq!(load_config(env.clone()), Err(ConfigError::Missing(Variable::OpenaiApiKey)));
    env.cmd = None;
    assert_eq!(load_config(env), Err(ConfigError::Missing(Variable::Cmd)));
}

#[test]
fn variables_have_their_names() {
    assert_eq!(Variable::Cmd.name(), "CMD");
    assert_eq!(Variable::ArxivQuery.name(), "ARXIV_QUERY");
    assert_eq!(Variable::OpenaiApiKey.name(), "OPENAI_API_KEY");
    assert_eq!(Variable::SlackBotToken.name(), "SLACK_BOT_TOKEN");
    assert_eq!(Variable::SlackChannel.name(), "SLACK_CHANNEL");
    assert_eq!(Variable::CloudRunExecution.name(), "CLOUD_RUN_EXECUTION");
    assert_eq!(Variable::GoogleApplicationCredentials.name(), "GOOGLE_APPLICATION_CREDENTIALS");
    assert_eq!(Variable::GcpProjectId.name(), "GCP_PROJECT_ID");
    assert_eq!(Variable::GcpBigqueryCostTable.name(), "GCP_BIGQUERY_COST_TABLE");
}

#[test]
fn command_is_told_by_its_name() {
    let mut config = load_config(full_environment()).unwrap();
    assert_eq!(config.command(), Some(Command::NotifyDailyCost));
    config.cmd = "notify_paper".to_string();
    assert_eq!(config.command(), Some(Command::NotifyPaper));
    config.cmd = "notify".to_string();
    assert_eq!(config.command(), None);
    config.cmd = "".to_string();
    assert_eq!(config.command(), None);
}
