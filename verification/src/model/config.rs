//! The settings of one run, and how they are made from the variables of the
//! environment.

use vstd::prelude::*;
use vstd::string::StringExecFns;

verus! {

/// What a run is told from outside: the command, the search query, the keys and
/// the places to read from and to write to.
#[derive(Debug, Clone, PartialEq, Eq)]
pub struct Config {
    pub cmd: String,
    pub arxiv_query: String,
    pub openai_api_key: String,
    pub slack_bot_token: String,
    pub slack_channel: String,
    pub platform: String,
    pub gcp_credential_path: Option<String>,
    pub gcp_project_id: String,
    pub gcp_bigquery_cost_table: String,
}

/// The variables that a run reads. A run cannot do without those that have no
/// default.
#[derive(Clone, Copy, Debug, PartialEq, Eq, Structural)]
pub enum Variable {
    Cmd,
    ArxivQuery,
    OpenaiApiKey,
    SlackBotToken,
    SlackChannel,
    CloudRunExecution,
    GoogleApplicationCredentials,
    GcpProjectId,
    GcpBigqueryCostTable,
}

impl Variable {
    /// The name of the variable in the environment.
    pub open spec fn spec_name(self) -> Seq<char> {
        match self {
            Variable::Cmd => "CMD"@,
            Variable::ArxivQuery => "ARXIV_QUERY"@,
            Variable::OpenaiApiKey => "OPENAI_API_KEY"@,
            Variable::SlackBotToken => "SLACK_BOT_TOKEN"@,
            Variable::SlackChannel => "SLACK_CHANNEL"@,
            Variable::CloudRunExecution => "CLOUD_RUN_EXECUTION"@,
            Variable::GoogleApplicationCredentials => "GOOGLE_APPLICATION_CREDENTIALS"@,
            Variable::GcpProjectId => "GCP_PROJECT_ID"@,
            Variable::GcpBigqueryCostTable => "GCP_BIGQUERY_COST_TABLE"@,
        }
    }

    /// The name of the variable in the environment.
    pub fn name(&self) -> (r: &'static str)
        ensures
            r@ == self.spec_name(),
    {
        match self {
            Variable::Cmd => "CMD",
            Variable::ArxivQuery => "ARXIV_QUERY",
            Variable::OpenaiApiKey => "OPENAI_API_KEY",
            Variable::SlackBotToken => "SLACK_BOT_TOKEN",
            Variable::SlackChannel => "SLACK_CHANNEL",
            Variable::CloudRunExecution => "CLOUD_RUN_EXECUTION",
            Variable::GoogleApplicationCredentials => "GOOGLE_APPLICATION_CREDENTIALS",
            Variable::GcpProjectId => "GCP_PROJECT_ID",
            Variable::GcpBigqueryCostTable => "GCP_BIGQUERY_COST_TABLE",
        }
    }
}

/// The values of the variables as they were read, each absent where the
/// environment does not hold it.
#[derive(Debug, Clone, PartialEq, Eq)]
pub struct Environment {
    pub cmd: Option<String>,
    pub arxiv_query: Option<String>,
    pub openai_api_key: Option<String>,
    pub slack_bot_token: Option<String>,
    pub slack_channel: Option<String>,
    pub cloud_run_execution: Option<String>,
    pub google_application_credentials: Option<String>,
    pub gcp_project_id: Option<String>,
    pub gcp_bigquery_cost_table: Option<String>,
}

/// Why no settings could be made.
#[derive(Clone, Copy, Debug, PartialEq, Eq, Structural)]
pub enum ConfigError {
    /// The environment lacks this variable, which has no default.
    Missing(Variable),
}

/// The search query of a run that is told none.
pub open spec fn default_query() -> Seq<char> {
    "llm OR \"generative ai\" OR \"visual recognition\""@
}

/// The platform of a run that is told none.
pub open spec fn default_platform() -> Seq<char> {
    "UNKNOWN"@
}

/// The first of the variables without a default that `env` lacks, in the order
/// in which they are asked for.
pub open spec fn first_missing(env: Environment) -> Option<Variable> {
    if env.cmd is None {
        Some(Variable::Cmd)
    } else if env.openai_api_key is None {
        Some(Variable::OpenaiApiKey)
    } else if env.slack_bot_token is None {
        Some(Variable::SlackBotToken)
    } else if env.slack_channel is None {
        Some(Variable::SlackChannel)
    } else if env.gcp_project_id is None {
        Some(Variable::GcpProjectId)
    } else if env.gcp_bigquery_cost_table is None {
        Some(Variable::GcpBigqueryCostTable)
    } else {
        None
    }
}

/// The text of `value`, or `default` where there is no value.
pub open spec fn text_or(value: Option<String>, default: Seq<char>) -> Seq<char> {
    match value {
        Some(text) => text@,
        None => default,
    }
}

/// Makes the settings of a run from the variables that were read. A variable
/// without a default that is absent is an error; of several, the first one asked
/// for is named.
pub fn load_config(env: Environment) -> (r: Result<Config, ConfigError>)
    ensures
        match r {
            Ok(config) => {
                &&& first_missing(env) is None
                &&& config.cmd@ == env.cmd->0@
                &&& config.arxiv_query@ == text_or(env.arxiv_query, default_query())
                &&& config.openai_api_key@ == env.openai_api_key->0@
                &&& config.slack_bot_token@ == env.slack_bot_token->0@
                &&& config.slack_channel@ == env.slack_channel->0@
                &&& config.platform@ == text_or(env.cloud_run_execution, default_platform())
                &&& config.gcp_credential_path == env.google_application_credentials
                &&& config.gcp_project_id@ == env.gcp_project_id->0@
                &&& config.gcp_bigquery_cost_table@ == env.gcp_bigquery_cost_table->0@
            },
            Err(ConfigError::Missing(variable)) => first_missing(env) == Some(variable),
        },
{
    let cmd = match env.cmd {
        Some(text) => text,
        None => {
            return Err(ConfigError::Missing(Variable::Cmd));
        },
    };
    let arxiv_query = match env.arxiv_query {
        Some(text) => text,
        None => String::from_str("llm OR \"generative ai\" OR \"visual recognition\""),
    };
    let openai_api_key = match env.openai_api_key {
        Some(text) => text,
        None => {
            return Err(ConfigError::Missing(Variable::OpenaiApiKey));
        },
    };
    let slack_bot_token = match env.slack_bot_token {
        Some(text) => text,
        None => {
            return Err(ConfigError::Missing(Variable::SlackBotToken));
        },
    };
    let slack_channel = match env.slack_channel {
        Some(text) => text,
        None => {
            return Err(ConfigError::Missing(Variable::SlackChannel));
        },
    };
    let platform = match env.cloud_run_execution {
        Some(text) => text,
        None => String::from_str("UNKNOWN"),
    };
    let gcp_project_id = match env.gcp_project_id {
        Some(text) => text,
        None => {
            return Err(ConfigError::Missing(Variable::GcpProjectId));
        },
    };
    let gcp_bigquery_cost_table = match env.gcp_bigquery_cost_table {
        Some(text) => text,
        None => {
            return Err(ConfigError::Missing(Variable::GcpBigqueryCostTable));
        },
    };
    Ok(
        Config {
            cmd,
            arxiv_query,
            openai_api_key,
            slack_bot_token,
            slack_channel,
            platform,
            gcp_credential_path: env.google_application_credentials,
            gcp_project_id,
            gcp_bigquery_cost_table,
        },
    )
}

/// The flows that a run can be told to take.
#[derive(Clone, Copy, Debug, PartialEq, Eq, Structural)]
pub enum Command {
    NotifyPaper,
    NotifyDailyCost,
}

impl Command {
    /// The command that `cmd` names, if any.
    pub open spec fn named(cmd: Seq<char>) -> Option<Command> {
        if cmd == "notify_paper"@ {
            Some(Command::NotifyPaper)
        } else if cmd == "notify_daily_cost"@ {
            Some(Command::NotifyDailyCost)
        } else {
            None
        }
    }
}

impl Config {
    /// The flow that the settings ask for; nothing where `cmd` names none.
    pub fn command(&self) -> (r: Option<Command>)
        ensures
            r == Command::named(self.cmd@),
    {
        if self.cmd == String::from_str("notify_paper") {
            Some(Command::NotifyPaper)
        } else if self.cmd == String::from_str("notify_daily_cost") {
            Some(Command::NotifyDailyCost)
        } else {
            None
        }
    }
}

} // verus!
