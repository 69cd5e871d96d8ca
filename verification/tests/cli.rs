use std::sync::Mutex;

use chrono::{TimeZone, Utc};
use ullage::cards::Severity;
use ullage::cli::{
    free_text_argument, AccountCommand, AuthCommand, AuthMethodArg, Cli, ColorMode, Command,
    DaemonCommand, DeviceCommand, OutputFormat, ProbeArgs, ProviderCommand, ShowArgs,
};
use ullage::dispatch::{
    after_parse_failure, execute_with, next_request_id, Conclusion, ControlClient, ParseFailure,
};
use ullage::document::{Block, Cell, CellValue, Style};
use ullage::error::{PartialFailure, ProviderError, QueryOutcome};
use ullage::errors::{ClientError, ExitCode, RunOutput, ServiceAction};
use ullage::protocol::{
    Account, AccountError, AccountId, AccountStatusPayload, AuthChallenge, AuthMethod, AuthState,
    ControlCommand, ControlError, ControlRequest, ControlResponse, ControlResult,
    CredentialBackendId, DaemonStatusPayload, DevicePayload, PairCodePayload, ProbePayload,
    SanitizedErrorPayload, SnapshotPayload, CONTROL_PROTOCOL_VERSION,
};
use ullage::provider::{ProviderDescriptor, ProviderId, RegistryError};
use ullage::reading::{wording, Figure};
use ullage::render::{human_result, render_snapshots, MetricFilterChoice, RenderView, Rendered};
use ullage::summary::{summarize, RemainingRatio, SummaryRow, SummaryValue};
use ullage::table::{
    draw_document, summary_cells, DrawnBlock, DrawnCell, DrawnPair, Palette, SummaryCells,
};
use ullage::usage::{
    Amount, MeasurementUnit, SubscriptionUsage, Timestamp, UsageMeasurement, UsageWindow,
    UsageWindowKind,
};

const VERSION: &str = "0.1.6";

/// The time every test runs at: 2026-08-27T12:00:00Z.
const NOW: Timestamp = Timestamp {
    seconds: 1_787_832_000,
    nanos: 0,
};

fn at(year: i32, month: u32, day: u32, hour: u32, minute: u32, second: u32) -> Timestamp {
    let time = Utc
        .with_ymd_and_hms(year, month, day, hour, minute, second)
        .unwrap();
    Timestamp {
        seconds: time.timestamp(),
        nanos: 0,
    }
}

fn later(time: Timestamp, seconds: i64) -> Timestamp {
    Timestamp {
        seconds: time.seconds + seconds,
        nanos: time.nanos,
    }
}

fn amount(value: f64) -> Amount {
    Amount {
        bits: value.to_bits(),
    }
}

fn number(amount: &Amount) -> f64 {
    f64::from_bits(amount.bits)
}

type Responder = fn(&ControlRequest) -> Result<ControlResponse, ClientError>;

/// A daemon and a service manager that answer what a test asks for.
struct MockClient {
    responder: Responder,
    requests: Mutex<Vec<ControlCommand>>,
    daemon_result: Mutex<Option<Result<(), ClientError>>>,
    installed: Option<bool>,
}

impl MockClient {
    fn new(responder: Responder) -> Self {
        Self {
            responder,
            requests: Mutex::new(Vec::new()),
            daemon_result: Mutex::new(None),
            installed: None,
        }
    }

    fn with_daemon_result(result: Result<(), ClientError>) -> Self {
        Self {
            responder: |_| unreachable!(),
            requests: Mutex::new(Vec::new()),
            daemon_result: Mutex::new(Some(result)),
            installed: None,
        }
    }

    fn stopped(installed: bool) -> Self {
        Self {
            responder: |_| Err(ClientError::DaemonUnavailable),
            requests: Mutex::new(Vec::new()),
            daemon_result: Mutex::new(None),
            installed: Some(installed),
        }
    }

    fn daemon_result(&self) -> Result<(), ClientError> {
        self.daemon_result
            .lock()
            .unwrap()
            .take()
            .unwrap_or(Err(ClientError::DaemonProcess))
    }
}

impl ControlClient for MockClient {
    fn send(&self, request: &ControlRequest) -> Result<ControlResponse, ClientError> {
        self.requests.lock().unwrap().push(request.command.clone());
        (self.responder)(request)
    }

    fn run_daemon(&self) -> Result<(), ClientError> {
        self.daemon_result()
    }

    fn manage_daemon(&self, _: ServiceAction) -> Result<(), ClientError> {
        self.daemon_result()
    }

    fn daemon_service_installed(&self) -> Result<bool, ClientError> {
        self.installed.ok_or(ClientError::DaemonProcess)
    }
}

struct Arguments<'a> {
    rest: Vec<&'a str>,
    positional: Vec<String>,
    options: Vec<(&'a str, String)>,
    flags: Vec<&'a str>,
}

const VALUE_OPTIONS: [&str; 9] = [
    "--output",
    "--color",
    "--label",
    "--account",
    "--account-label",
    "--redirect-uri",
    "--authorization-code-env",
    "--metric",
    "--method",
];

const FLAGS: [&str; 6] = [
    "--reveal",
    "--raw",
    "--diagnose",
    "--all",
    "--no-wait",
    "--no-metric-filter",
];

impl<'a> Arguments<'a> {
    /// Tells options, flags and positional arguments apart.
    fn read(arguments: &[&'a str]) -> Result<Self, String> {
        let mut read = Arguments {
            rest: arguments.iter().skip(1).rev().copied().collect(),
            positional: Vec::new(),
            options: Vec::new(),
            flags: Vec::new(),
        };
        let mut terminated = false;
        while let Some(argument) = read.rest.pop() {
            if terminated || !argument.starts_with("--") {
                read.positional.push(free_text_argument(argument)?);
            } else if argument == "--" {
                terminated = true;
            } else if let Some(flag) = FLAGS.iter().find(|flag| **flag == argument) {
                read.flags.push(flag);
            } else {
                let (name, inline) = match argument.split_once('=') {
                    Some((name, value)) => (name, Some(value)),
                    None => (argument, None),
                };
                let option = VALUE_OPTIONS
                    .iter()
                    .find(|option| **option == name)
                    .ok_or("error: unexpected argument")?;
                let value = inline
                    .or_else(|| read.rest.pop())
                    .ok_or("error: a value is required")?;
                read.options.push((option, free_text_argument(value)?));
            }
        }
        Ok(read)
    }

    fn flag(&self, name: &str) -> bool {
        self.flags.contains(&name)
    }

    fn option(&self, name: &str) -> Option<String> {
        self.options
            .iter()
            .find(|(option, _)| *option == name)
            .map(|(_, value)| value.clone())
    }

    /// The positional argument at a place behind the names of the command.
    fn needed(&self, place: usize) -> Result<String, String> {
        self.positional
            .get(place)
            .cloned()
            .ok_or("error: a required argument was not provided".into())
    }
}

fn account_command(read: &Arguments<'_>) -> Result<AccountCommand, String> {
    Ok(match read.needed(1)?.as_str() {
        "add" => AccountCommand::Add {
            provider: read.needed(2)?,
            label: read.option("--label"),
        },
        "list" => AccountCommand::List,
        "show" => AccountCommand::Show {
            account: read.needed(2)?,
        },
        "enable" => AccountCommand::Enable {
            account: read.needed(2)?,
        },
        "disable" => AccountCommand::Disable {
            account: read.needed(2)?,
        },
        "label" => AccountCommand::Label {
            account: read.needed(2)?,
            label: read.positional.get(3).cloned(),
        },
        "metrics" => AccountCommand::Metrics {
            account: read.needed(2)?,
            metrics: read.positional[3..].to_vec(),
        },
        "remove" => AccountCommand::Remove {
            account: read.needed(2)?,
        },
        _ => return Err("error: unrecognized subcommand".into()),
    })
}

fn auth_command(read: &Arguments<'_>) -> Result<AuthCommand, String> {
    let account = || {
        read.option("--account")
            .ok_or("error: --account is required".to_owned())
    };
    Ok(match read.needed(1)?.as_str() {
        "login" => {
            let method = match read.option("--method").as_deref() {
                None => None,
                Some("browser-oauth") => Some(AuthMethodArg::BrowserOauth),
                Some("device-code") => Some(AuthMethodArg::DeviceCode),
                Some("api-token") => Some(AuthMethodArg::ApiToken),
                Some("session-import") => Some(AuthMethodArg::SessionImport),
                Some(_) => return Err("error: invalid value for --method".into()),
            };
            let provider = read.positional.get(2).cloned();
            let account = read.option("--account");
            if account.is_some() && provider.is_none() {
                return Err("error: <PROVIDER_ID> is required".into());
            }
            AuthCommand::Login {
                provider,
                account,
                method,
            }
        }
        "complete" => AuthCommand::Complete {
            provider: read.needed(2)?,
            account: account()?,
            flow_id: read.needed(3)?,
            redirect_uri: read.option("--redirect-uri"),
            authorization_code_env: "ULLAGE_AUTH_CODE".into(),
        },
        "status" => AuthCommand::Status {
            provider: read.needed(2)?,
            account: account()?,
        },
        "logout" => AuthCommand::Logout {
            provider: read.needed(2)?,
            account: account()?,
            account_label: read.option("--account-label"),
        },
        _ => return Err("error: unrecognized subcommand".into()),
    })
}

fn parsed_command(read: &Arguments<'_>) -> Result<Command, String> {
    Ok(match read.needed(0)?.as_str() {
        "daemon" => Command::Daemon {
            command: match read.needed(1)?.as_str() {
                "install" => DaemonCommand::Install,
                "start" => DaemonCommand::Start,
                "stop" => DaemonCommand::Stop,
                "run" => DaemonCommand::Run,
                "status" => DaemonCommand::Status,
                "uninstall" => DaemonCommand::Uninstall,
                _ => return Err("error: unrecognized subcommand".into()),
            },
        },
        "provider" => Command::Provider {
            command: ProviderCommand::List,
        },
        "account" => Command::Account {
            command: account_command(read)?,
        },
        "auth" => Command::Auth {
            command: auth_command(read)?,
        },
        "probe" => Command::Probe(ProbeArgs {
            account: read.needed(1)?,
            wait: !read.flag("--no-wait"),
        }),
        "show" => {
            let account = read.positional.get(1).cloned();
            if account.is_some() == read.flag("--all") || read.positional.len() > 2 {
                return Err("error: pass <ACCOUNT_ID> or --all".into());
            }
            Command::Show(ShowArgs {
                account,
                all: read.flag("--all"),
                metric: read
                    .options
                    .iter()
                    .filter(|(option, _)| *option == "--metric")
                    .map(|(_, value)| value.clone())
                    .collect(),
                no_metric_filter: read.flag("--no-metric-filter"),
            })
        }
        "device" => Command::Device {
            command: match read.needed(1)?.as_str() {
                "pair" => DeviceCommand::Pair,
                "list" => DeviceCommand::List,
                "revoke" => DeviceCommand::Revoke {
                    device_id: read.needed(2)?,
                },
                _ => return Err("error: unrecognized subcommand".into()),
            },
        },
        _ => return Err("error: unrecognized subcommand".into()),
    })
}

/// The invocation that a command line asks for.
fn parse(arguments: &[&str]) -> Result<Cli, ParseFailure> {
    if arguments.contains(&"--help") {
        return Err(ParseFailure::Shown("Usage: ullage <COMMAND>\n".into()));
    }
    let parsed = || -> Result<Cli, String> {
        let read = Arguments::read(arguments)?;
        let output = match read.option("--output").as_deref() {
            None | Some("table") => OutputFormat::Table,
            Some("json") => OutputFormat::Json,
            Some("pretty-json") => OutputFormat::PrettyJson,
            Some(_) => return Err("error: invalid value for --output".into()),
        };
        let color = match read.option("--color").as_deref() {
            None | Some("auto") => ColorMode::Auto,
            Some("always") => ColorMode::Always,
            Some("never") => ColorMode::Never,
            Some(_) => return Err("error: invalid value for --color".into()),
        };
        Ok(Cli {
            output,
            color,
            reveal: read.flag("--reveal"),
            raw: read.flag("--raw"),
            diagnose: read.flag("--diagnose"),
            command: parsed_command(&read)?,
        })
    };
    parsed().map_err(ParseFailure::Rejected)
}

/// A number as the tables show it.
fn number_text(amount: &Amount) -> String {
    format!("{}", number(amount))
}

fn drawn_cell(cell: &Cell) -> DrawnCell {
    match &cell.value {
        CellValue::Text(text) => DrawnCell {
            text: text.clone(),
            style: cell.style,
            right: false,
        },
        CellValue::Used { used, limit } => {
            let spent = match limit {
                Some(limit) if number(limit) > 0.0 => number(used) / number(limit),
                _ => 0.0,
            };
            DrawnCell {
                text: number_text(used),
                style: if spent >= 0.9 {
                    Style::Error
                } else {
                    cell.style
                },
                right: true,
            }
        }
        CellValue::Limit(limit) => DrawnCell {
            text: match limit {
                Some(limit) => number_text(limit),
                None => "-".into(),
            },
            style: cell.style,
            right: true,
        },
    }
}

fn remaining_ratio(row: &SummaryRow) -> Option<f64> {
    match &row.remaining_ratio {
        Some(RemainingRatio::OfHundred { used }) => {
            Some((100.0 - number(used)).clamp(0.0, 100.0) / 100.0)
        }
        Some(RemainingRatio::OfLimit { used, limit }) => {
            Some(((number(limit) - number(used)) / number(limit)).clamp(0.0, 1.0))
        }
        None => None,
    }
}

fn figure_text(figure: &Figure) -> String {
    match figure {
        Figure::Nothing => String::new(),
        Figure::Left { used } => format!("{:.0}%", (100.0 - number(used)).clamp(0.0, 100.0)),
        Figure::Percent { used } => format!("{:.0}%", number(used).max(0.0)),
        Figure::Money {
            amount,
            limit,
            code,
        } => match limit {
            Some(limit) => format!("{:.2}/{:.2} {code}", number(amount), number(limit)),
            None => format!("{:.2} {code}", number(amount)),
        },
        Figure::Count { used, limit } => match limit {
            Some(limit) => format!("{}/{}", number(used), number(limit)),
            None => number_text(used),
        },
    }
}

fn summary_line(row: &SummaryRow, now: &Timestamp) -> SummaryCells {
    let progress = remaining_ratio(row).map(|ratio| {
        let severity = if ratio <= 0.1 {
            Severity::Critical
        } else if ratio <= 0.25 {
            Severity::Low
        } else {
            Severity::Ample
        };
        ((ratio * 10.0).round() as usize, severity)
    });
    summary_cells(row, figure_text(&wording(row).figure), progress, now)
}

/// The blocks of a document with their numbers written out.
fn written_out(blocks: &[Block], now: &Timestamp) -> Vec<DrawnBlock> {
    blocks
        .iter()
        .map(|block| match block {
            Block::Header(title) => DrawnBlock::Header(title.clone()),
            Block::Line { text, style } => DrawnBlock::Line {
                text: text.clone(),
                style: *style,
            },
            Block::Pairs(pairs) => DrawnBlock::Pairs(
                pairs
                    .iter()
                    .map(|pair| DrawnPair {
                        key: pair.key.into(),
                        cell: drawn_cell(&pair.cell),
                    })
                    .collect(),
            ),
            Block::Table { columns, rows } => DrawnBlock::Table {
                columns: columns.iter().map(|column| (*column).to_owned()).collect(),
                rows: rows
                    .iter()
                    .map(|row| row.iter().map(drawn_cell).collect())
                    .collect(),
            },
            Block::Rows(rows) => {
                DrawnBlock::Rows(rows.iter().map(|row| summary_line(row, now)).collect())
            }
            Block::Break => DrawnBlock::Break,
        })
        .collect()
}

/// What a rendered answer prints. JSON stands here as the value that is
/// serialized.
fn printed(rendered: Rendered, color: ColorMode) -> RunOutput {
    match rendered {
        Rendered::Failed(output) => output,
        Rendered::Json {
            result,
            pretty,
            stderr,
            code,
        } => RunOutput {
            stdout: if pretty {
                format!("{result:#?}\n")
            } else {
                format!("{result:?}\n")
            },
            stderr,
            code,
        },
        Rendered::Document {
            blocks,
            stderr,
            code,
        } => RunOutput {
            stdout: draw_document(
                &written_out(&blocks, &NOW),
                Palette::resolve(color, false, None),
            ),
            stderr,
            code,
        },
    }
}

fn rendered_by(cli: &Cli, client: &MockClient) -> Rendered {
    let id = next_request_id(1, client.requests.lock().unwrap().len() as u64);
    match execute_with(cli, client, || NOW, &None, false, &id, VERSION) {
        Conclusion::Print(rendered) => rendered,
        Conclusion::Login { .. } | Conclusion::OpenView(_) => unreachable!(),
    }
}

fn run_from<'a>(arguments: impl IntoIterator<Item = &'a str>, client: &MockClient) -> RunOutput {
    let arguments: Vec<&str> = arguments.into_iter().collect();
    match parse(&arguments) {
        Ok(cli) => printed(rendered_by(&cli, client), cli.color),
        Err(failure) => {
            let arguments = arguments.iter().map(|text| (*text).to_owned()).collect();
            after_parse_failure(&arguments, failure)
        }
    }
}

/// The value that is serialized as JSON, and how.
struct JsonAnswer {
    result: ControlResult,
    pretty: bool,
    stderr: String,
    code: ExitCode,
}

fn json_from<'a>(
    arguments: impl IntoIterator<Item = &'a str>,
    client: &MockClient,
) -> JsonAnswer {
    let arguments: Vec<&str> = arguments.into_iter().collect();
    let Ok(cli) = parse(&arguments) else {
        panic!("{arguments:?} do not parse");
    };
    match rendered_by(&cli, client) {
        Rendered::Json {
            result,
            pretty,
            stderr,
            code,
        } => JsonAnswer {
            result,
            pretty,
            stderr,
            code,
        },
        Rendered::Failed(output) => panic!("{arguments:?} failed: {}", output.stderr),
        Rendered::Document { .. } => panic!("{arguments:?} give no JSON"),
    }
}

fn response(request: &ControlRequest, result: ControlResult) -> ControlResponse {
    ControlResponse {
        version: CONTROL_PROTOCOL_VERSION,
        request_id: request.request_id.clone(),
        result,
        diagnostic: None,
        daemon_version: Some(VERSION.to_owned()),
    }
}

fn empty_usage() -> SubscriptionUsage {
    SubscriptionUsage {
        provider: ProviderId::new("grok"),
        account_label: Some("person@example.test".into()),
        plan: Some("pro".into()),
        subscription_expires_at: None,
        observed_at: at(2026, 8, 27, 12, 0, 0),
        windows: Vec::new(),
    }
}

fn snapshot(account_id: &str, usage: QueryOutcome<SubscriptionUsage>) -> SnapshotPayload {
    SnapshotPayload {
        account_id: account_id.into(),
        usage,
        last_success_at: at(2026, 8, 27, 12, 0, 0),
        stale: false,
        last_error: None,
        last_error_at: None,
        metrics: Vec::new(),
    }
}

fn snapshot_result(request: &ControlRequest) -> Result<ControlResponse, ClientError> {
    Ok(response(
        request,
        ControlResult::Snapshots(vec![snapshot(
            "primary",
            QueryOutcome::Complete {
                data: empty_usage(),
            },
        )]),
    ))
}

fn account_list_result(request: &ControlRequest) -> Result<ControlResponse, ClientError> {
    Ok(response(
        request,
        ControlResult::Accounts(vec![Account {
            id: AccountId::new("primary"),
            provider: ProviderId::new("grok"),
            label: None,
            enabled: true,
            metrics: Vec::new(),
        }]),
    ))
}

fn percent(name: &str, used: f64) -> UsageMeasurement {
    UsageMeasurement {
        name: name.into(),
        used: amount(used),
        limit: Some(amount(100.0)),
        unit: MeasurementUnit::Percent,
    }
}

fn summarizable_usage() -> SubscriptionUsage {
    let mut usage = empty_usage();
    usage.observed_at = NOW;
    usage.windows = vec![
        UsageWindow {
            window: UsageWindowKind::FiveHours,
            resets_at: Some(later(NOW, 238 * 60)),
            measurements: vec![percent("included_usage", 3.0)],
        },
        UsageWindow {
            window: UsageWindowKind::Other {
                id: "seven_day_opus".into(),
                label: "Weekly Opus".into(),
            },
            resets_at: Some(later(NOW, 8130 * 60)),
            measurements: vec![percent("included_usage", 11.0)],
        },
    ];
    usage
}

fn summary_result(request: &ControlRequest) -> Result<ControlResponse, ClientError> {
    Ok(response(
        request,
        ControlResult::Snapshots(vec![snapshot(
            "primary",
            QueryOutcome::Complete {
                data: summarizable_usage(),
            },
        )]),
    ))
}

fn line_starting_with<'a>(stdout: &'a str, prefix: &str) -> &'a str {
    stdout
        .lines()
        .find(|line| line.starts_with(prefix))
        .unwrap_or_else(|| panic!("no line starting with {prefix:?}:\n{stdout}"))
}

fn partial_profile_incompatible(
    request: &ControlRequest,
) -> Result<ControlResponse, ClientError> {
    Ok(response(
        request,
        ControlResult::Snapshots(vec![snapshot(
            "primary",
            QueryOutcome::Partial {
                data: summarizable_usage(),
                failures: vec![PartialFailure {
                    scope: "profile".into(),
                    message: "provider protocol response is incompatible".into(),
                }],
            },
        )]),
    ))
}

#[test]
fn maps_the_complete_command_surface_to_control_requests() {
    fn responder(request: &ControlRequest) -> Result<ControlResponse, ClientError> {
        let result = match &request.command {
            ControlCommand::DaemonStatus => ControlResult::DaemonStatus(DaemonStatusPayload {
                shutting_down: false,
                accounts: Vec::new(),
                credential_backend: CredentialBackendId::LinuxSecretService,
            }),
            ControlCommand::ListProviders => ControlResult::Providers(Vec::new()),
            ControlCommand::AddAccount { provider, label } => ControlResult::Account(Account {
                id: AccountId::new("account-1"),
                provider: provider.clone(),
                label: label.clone(),
                enabled: true,
                metrics: Vec::new(),
            }),
            ControlCommand::ListAccounts => ControlResult::Accounts(Vec::new()),
            ControlCommand::ShowAccount { account } => ControlResult::Account(Account {
                id: account.clone(),
                provider: ProviderId::new("grok"),
                label: None,
                enabled: true,
                metrics: Vec::new(),
            }),
            ControlCommand::SetAccountEnabled { account, enabled } => {
                ControlResult::Account(Account {
                    id: account.clone(),
                    provider: ProviderId::new("grok"),
                    label: None,
                    enabled: *enabled,
                    metrics: Vec::new(),
                })
            }
            ControlCommand::SetAccountLabel { account, label } => ControlResult::Account(Account {
                id: account.clone(),
                provider: ProviderId::new("grok"),
                label: label.clone(),
                enabled: true,
                metrics: Vec::new(),
            }),
            ControlCommand::SetAccountMetrics { account, metrics } => {
                ControlResult::Account(Account {
                    id: account.clone(),
                    provider: ProviderId::new("grok"),
                    label: None,
                    enabled: true,
                    metrics: metrics.clone(),
                })
            }
            ControlCommand::RemoveAccount { .. } | ControlCommand::Logout { .. } => {
                ControlResult::Ack
            }
            ControlCommand::StartAuth { .. } => ControlResult::AuthChallenge(AuthChallenge {
                flow_id: "flow-secret".into(),
                method: AuthMethod::BrowserOAuth,
                verification_uri: Some("https://example.test/login".into()),
                user_code: Some("secret-code".into()),
                expires_at: None,
                input: None,
            }),
            ControlCommand::AuthStatus { .. } | ControlCommand::CompleteAuth { .. } => {
                ControlResult::AuthState(AuthState::NotAuthenticated)
            }
            ControlCommand::Probe {
                account_id,
                wait: true,
            } => ControlResult::Probe(ProbePayload {
                account_id: account_id.clone(),
                usage: QueryOutcome::Complete {
                    data: empty_usage(),
                },
                metrics: Vec::new(),
            }),
            ControlCommand::Probe { wait: false, .. } => ControlResult::Ack,
            ControlCommand::Show { .. } => ControlResult::Snapshots(Vec::new()),
            ControlCommand::CreatePairCode => ControlResult::PairCode(PairCodePayload {
                code: "ABC-DEF".into(),
                expires_at: at(2026, 9, 1, 12, 5, 0),
            }),
            ControlCommand::ListDevices => ControlResult::Devices(Vec::new()),
            ControlCommand::RevokeDevice { .. } => ControlResult::Ack,
        };
        Ok(response(request, result))
    }

    let client = MockClient::new(responder);
    let commands: &[&[&str]] = &[
        &["ullage", "daemon", "status"],
        &["ullage", "provider", "list"],
        &["ullage", "account", "add", "grok", "--label", "work"],
        &["ullage", "account", "list"],
        &["ullage", "account", "show", "account-1"],
        &["ullage", "account", "enable", "account-1"],
        &["ullage", "account", "disable", "account-1"],
        &["ullage", "account", "label", "account-1", "work"],
        &["ullage", "account", "label", "account-1"],
        &["ullage", "account", "remove", "account-1"],
        &["ullage", "device", "pair"],
        &["ullage", "device", "list"],
        &["ullage", "device", "revoke", "DEVICE123456"],
        &[
            "ullage",
            "auth",
            "login",
            "grok",
            "--account",
            "account-1",
            "--method",
            "browser-oauth",
        ],
        &[
            "ullage",
            "auth",
            "complete",
            "grok",
            "--account",
            "account-1",
            "flow-secret",
            "--redirect-uri",
            "https://platform.example.test/oauth/code/callback",
        ],
        &[
            "ullage",
            "auth",
            "status",
            "grok",
            "--account",
            "account-1",
        ],
        &[
            "ullage",
            "auth",
            "logout",
            "grok",
            "--account",
            "account-1",
        ],
        &["ullage", "probe", "account-1"],
        &["ullage", "show", "account-1"],
        &["ullage", "show", "--all"],
    ];

    for command in commands {
        let output = run_from(command.iter().copied(), &client);
        assert_eq!(
            output.code,
            ExitCode::Success,
            "{command:?}: {}",
            output.stderr
        );
    }

    let requests = client.requests.lock().unwrap();
    assert!(
        requests
            .iter()
            .any(|request| matches!(request, ControlCommand::Probe { wait: true, .. }))
    );
    assert!(requests.iter().any(|request| matches!(
        request,
        ControlCommand::Show {
            account_id: Some(_)
        }
    )));
    assert!(
        requests
            .iter()
            .any(|request| matches!(request, ControlCommand::Show { account_id: None }))
    );
}

#[test]
fn warns_when_the_running_daemon_is_older_than_the_cli() {
    fn older_daemon(request: &ControlRequest) -> Result<ControlResponse, ClientError> {
        let mut response = response(request, ControlResult::Providers(Vec::new()));
        response.daemon_version = Some("0.0.1".into());
        Ok(response)
    }

    let output = run_from(
        ["ullage", "provider", "list"],
        &MockClient::new(older_daemon),
    );
    assert_eq!(output.code, ExitCode::Success);
    assert!(output.stderr.contains("warning"), "{}", output.stderr);
    assert!(output.stderr.contains("0.0.1"), "{}", output.stderr);
    assert!(
        output.stderr.contains("daemon install"),
        "{}",
        output.stderr
    );
}

#[test]
fn warns_when_the_daemon_predates_version_reporting() {
    fn legacy_daemon(request: &ControlRequest) -> Result<ControlResponse, ClientError> {
        let mut response = response(request, ControlResult::Providers(Vec::new()));
        response.daemon_version = None;
        Ok(response)
    }

    let output = run_from(
        ["ullage", "provider", "list"],
        &MockClient::new(legacy_daemon),
    );
    assert_eq!(output.code, ExitCode::Success);
    assert!(output.stderr.contains("warning"), "{}", output.stderr);
    assert!(
        output.stderr.contains("daemon install"),
        "{}",
        output.stderr
    );
}

#[test]
fn stays_silent_when_the_daemon_matches_or_exceeds_the_cli() {
    fn current_daemon(request: &ControlRequest) -> Result<ControlResponse, ClientError> {
        Ok(response(request, ControlResult::Providers(Vec::new())))
    }

    fn newer_daemon(request: &ControlRequest) -> Result<ControlResponse, ClientError> {
        let mut response = response(request, ControlResult::Providers(Vec::new()));
        response.daemon_version = Some("999.0.0".into());
        Ok(response)
    }

    for client in [
        MockClient::new(current_daemon),
        MockClient::new(newer_daemon),
    ] {
        let output = run_from(["ullage", "provider", "list"], &client);
        assert_eq!(output.code, ExitCode::Success);
        assert!(!output.stderr.contains("warning"), "{}", output.stderr);
    }
}

#[test]
fn probe_can_trigger_without_waiting() {
    let client = MockClient::new(|request| Ok(response(request, ControlResult::Ack)));
    let output = run_from(["ullage", "probe", "primary", "--no-wait"], &client);

    assert_eq!(output.code, ExitCode::Success);
    assert!(matches!(
        client.requests.lock().unwrap()[0],
        ControlCommand::Probe { wait: false, .. }
    ));
}

#[test]
fn compact_json_is_a_stable_snapshot() {
    let client = MockClient::new(snapshot_result);
    let json = json_from(["ullage", "--output", "json", "show", "primary"], &client);

    assert_eq!(json.code, ExitCode::Success);
    assert!(!json.pretty);
    assert_eq!(
        json.result,
        ControlResult::Snapshots(vec![SnapshotPayload {
            account_id: "primary".into(),
            usage: QueryOutcome::Complete {
                data: SubscriptionUsage {
                    provider: ProviderId::new("grok"),
                    account_label: Some("[redacted]".into()),
                    plan: Some("pro".into()),
                    subscription_expires_at: None,
                    observed_at: at(2026, 8, 27, 12, 0, 0),
                    windows: Vec::new(),
                },
            },
            last_success_at: at(2026, 8, 27, 12, 0, 0),
            stale: false,
            last_error: None,
            last_error_at: None,
            metrics: Vec::new(),
        }])
    );
}

#[test]
fn pretty_json_is_multiline_and_round_trips() {
    let client = MockClient::new(snapshot_result);
    let pretty = json_from(
        ["ullage", "--output", "pretty-json", "show", "--all"],
        &client,
    );
    let compact = json_from(["ullage", "--output", "json", "show", "--all"], &client);

    assert_eq!(pretty.code, ExitCode::Success);
    assert!(pretty.pretty);
    assert!(matches!(pretty.result, ControlResult::Snapshots(_)));
    assert_eq!(pretty.result, compact.result);
}

#[test]
fn partial_success_has_data_and_a_distinct_exit_code() {
    fn responder(request: &ControlRequest) -> Result<ControlResponse, ClientError> {
        Ok(response(
            request,
            ControlResult::Snapshots(vec![snapshot(
                "primary",
                QueryOutcome::Partial {
                    data: empty_usage(),
                    failures: vec![PartialFailure {
                        scope: "secret-scope".into(),
                        message: "sensitive detail".into(),
                    }],
                },
            )]),
        ))
    }
    let raw = run_from(
        ["ullage", "--raw", "show", "--all"],
        &MockClient::new(responder),
    );

    assert_eq!(raw.code, ExitCode::Partial);
    assert!(raw.stdout.contains("1 partial result(s)"), "{}", raw.stdout);
    assert!(!raw.stdout.contains("sensitive detail"));

    let output = run_from(["ullage", "show", "--all"], &MockClient::new(responder));

    assert_eq!(output.code, ExitCode::Partial);
    assert!(
        output.stdout.contains("! 1 item(s) unavailable"),
        "{}",
        output.stdout
    );
    assert!(!output.stdout.contains("sensitive detail"));

    for format in ["json", "pretty-json"] {
        let output = run_from(
            ["ullage", "--output", format, "show", "--all"],
            &MockClient::new(responder),
        );
        assert_eq!(output.code, ExitCode::Partial);
        assert!(!output.stdout.contains("person@example.test"));
        assert!(!output.stdout.contains("secret-scope"));
        assert!(!output.stdout.contains("sensitive detail"));
        assert!(output.stdout.contains("[redacted]"));
    }
}

#[test]
fn rejects_partial_results_without_failures() {
    fn empty_failures(request: &ControlRequest) -> Result<ControlResponse, ClientError> {
        Ok(response(
            request,
            ControlResult::Snapshots(vec![snapshot(
                "primary",
                QueryOutcome::Partial {
                    data: empty_usage(),
                    failures: Vec::new(),
                },
            )]),
        ))
    }

    let output = run_from(
        ["ullage", "show", "--all"],
        &MockClient::new(empty_failures),
    );
    assert_eq!(output.code, ExitCode::ProtocolError);
    assert!(output.stderr.contains("invalid_daemon_response"));
}

#[test]
fn maps_auth_network_and_daemon_failures_to_stable_exit_codes() {
    fn auth(request: &ControlRequest) -> Result<ControlResponse, ClientError> {
        Ok(response(
            request,
            ControlResult::Error(ControlError::Provider(
                ProviderError::AuthenticationInvalid {
                    message: "/private/user/path".into(),
                },
            )),
        ))
    }
    fn network(request: &ControlRequest) -> Result<ControlResponse, ClientError> {
        Ok(response(
            request,
            ControlResult::Error(ControlError::Provider(ProviderError::Network {
                message: "person@example.test".into(),
            })),
        ))
    }
    fn unavailable(_: &ControlRequest) -> Result<ControlResponse, ClientError> {
        Err(ClientError::DaemonUnavailable)
    }

    let auth_output = run_from(
        ["ullage", "--output", "json", "probe", "primary"],
        &MockClient::new(auth),
    );
    let network_output = run_from(
        ["ullage", "--output", "json", "probe", "primary"],
        &MockClient::new(network),
    );
    let daemon_output = run_from(
        ["ullage", "--output", "json", "show", "primary"],
        &MockClient::new(unavailable),
    );

    assert_eq!(auth_output.code, ExitCode::AuthenticationInvalid);
    assert_eq!(network_output.code, ExitCode::NetworkFailure);
    assert_eq!(daemon_output.code, ExitCode::DaemonUnavailable);
    assert_eq!(
        auth_output.stderr,
        "{\"status\":\"error\",\"error\":{\"kind\":\"authentication_invalid\"}}\n"
    );
    assert!(!auth_output.stderr.contains("/private"));
    assert!(!network_output.stderr.contains('@'));
}

#[test]
fn rejects_business_results_the_daemon_cannot_produce() {
    fn disabled_add(request: &ControlRequest) -> Result<ControlResponse, ClientError> {
        let ControlCommand::AddAccount { provider, label } = &request.command else {
            unreachable!();
        };
        Ok(response(
            request,
            ControlResult::Account(Account {
                id: AccountId::new("account-1"),
                provider: provider.clone(),
                label: label.clone(),
                enabled: false,
                metrics: Vec::new(),
            }),
        ))
    }
    fn account_error(request: &ControlRequest) -> Result<ControlResponse, ClientError> {
        Ok(response(
            request,
            ControlResult::Error(ControlError::Account(AccountError::NotFound(
                AccountId::new("primary"),
            ))),
        ))
    }
    fn provider_error(request: &ControlRequest) -> Result<ControlResponse, ClientError> {
        Ok(response(
            request,
            ControlResult::Error(ControlError::Provider(ProviderError::Network {
                message: "redacted by the CLI".into(),
            })),
        ))
    }
    fn registry_error(request: &ControlRequest) -> Result<ControlResponse, ClientError> {
        Ok(response(
            request,
            ControlResult::Error(ControlError::Registry(
                RegistryError::NotFound(ProviderId::new("grok")),
            )),
        ))
    }
    fn timeout_error(request: &ControlRequest) -> Result<ControlResponse, ClientError> {
        Ok(response(
            request,
            ControlResult::Error(ControlError::Timeout),
        ))
    }
    fn storage_error(request: &ControlRequest) -> Result<ControlResponse, ClientError> {
        Ok(response(
            request,
            ControlResult::Error(ControlError::Storage),
        ))
    }
    fn bare_usage(request: &ControlRequest) -> Result<ControlResponse, ClientError> {
        Ok(response(
            request,
            ControlResult::Usage(QueryOutcome::Complete {
                data: empty_usage(),
            }),
        ))
    }

    let cases: &[(Responder, &[&str])] = &[
        (disabled_add, &["ullage", "account", "add", "grok"]),
        (account_error, &["ullage", "probe", "primary"]),
        (account_error, &["ullage", "show", "primary"]),
        (provider_error, &["ullage", "account", "add", "grok"]),
        (provider_error, &["ullage", "show", "primary"]),
        (provider_error, &["ullage", "probe", "primary", "--no-wait"]),
        (registry_error, &["ullage", "probe", "primary", "--no-wait"]),
        (timeout_error, &["ullage", "probe", "primary", "--no-wait"]),
        (storage_error, &["ullage", "probe", "primary", "--no-wait"]),
        (bare_usage, &["ullage", "probe", "primary"]),
    ];
    for (responder, arguments) in cases {
        let output = run_from(arguments.iter().copied(), &MockClient::new(*responder));
        assert_eq!(output.code, ExitCode::ProtocolError, "{arguments:?}");
        assert!(output.stderr.contains("invalid_daemon_response"));
    }
}

#[test]
fn account_mutation_storage_errors_keep_the_storage_contract() {
    fn responder(request: &ControlRequest) -> Result<ControlResponse, ClientError> {
        Ok(response(
            request,
            ControlResult::Error(ControlError::Storage),
        ))
    }
    let client = MockClient::new(responder);
    for command in [
        vec!["ullage", "--output", "json", "account", "add", "cursor"],
        vec![
            "ullage",
            "--output",
            "json",
            "account",
            "enable",
            "account-1",
        ],
        vec![
            "ullage",
            "--output",
            "json",
            "account",
            "disable",
            "account-1",
        ],
    ] {
        let output = run_from(command, &client);
        assert_eq!(output.code, ExitCode::Failure);
        assert!(output.stderr.contains("\"kind\":\"storage\""));
    }
}

#[test]
fn invalid_auth_status_has_a_distinct_exit_code_and_redacted_reason() {
    fn responder(request: &ControlRequest) -> Result<ControlResponse, ClientError> {
        Ok(response(
            request,
            ControlResult::AuthState(AuthState::Invalid {
                reason: "person@example.test secret-token".into(),
                account_key: None,
            }),
        ))
    }

    let output = run_from(
        [
            "ullage",
            "--output",
            "json",
            "auth",
            "status",
            "grok",
            "--account",
            "primary",
        ],
        &MockClient::new(responder),
    );

    assert_eq!(output.code, ExitCode::AuthenticationInvalid);
    assert!(output.stdout.contains("[redacted]"));
    assert!(!output.stdout.contains("person@example.test"));
    assert!(!output.stdout.contains("secret-token"));
}

#[test]
fn diagnose_surfaces_invalid_auth_state_detail() {
    const DETAIL: &str = "oauth exchange 400: invalid_grant";

    fn responder(request: &ControlRequest) -> Result<ControlResponse, ClientError> {
        Ok(response(
            request,
            ControlResult::AuthState(AuthState::Invalid {
                reason: DETAIL.into(),
                account_key: None,
            }),
        ))
    }

    let json = run_from(
        [
            "ullage",
            "--diagnose",
            "--output",
            "json",
            "auth",
            "status",
            "grok",
            "--account",
            "primary",
        ],
        &MockClient::new(responder),
    );
    assert_eq!(json.code, ExitCode::AuthenticationInvalid);
    assert!(json.stdout.contains(DETAIL), "{}", json.stdout);

    let table = run_from(
        [
            "ullage",
            "--diagnose",
            "auth",
            "status",
            "grok",
            "--account",
            "primary",
        ],
        &MockClient::new(responder),
    );
    assert_eq!(table.code, ExitCode::AuthenticationInvalid);
    assert!(table.stderr.contains(DETAIL), "{}", table.stderr);
}

#[test]
fn errors_honor_the_selected_output_format() {
    fn unavailable(_: &ControlRequest) -> Result<ControlResponse, ClientError> {
        Err(ClientError::DaemonUnavailable)
    }
    let table = run_from(["ullage", "show", "primary"], &MockClient::new(unavailable));
    let pretty = run_from(
        ["ullage", "--output", "pretty-json", "show", "primary"],
        &MockClient::new(unavailable),
    );
    let usage = run_from(
        ["ullage", "--output", "json", "show"],
        &MockClient::new(unavailable),
    );

    assert!(table.stderr.contains("error: daemon_unavailable\n"));
    assert!(table.stderr.contains("hint: start the daemon"));
    assert!(pretty.stderr.contains("\n  \"status\": \"error\""));
    assert!(pretty.stderr.contains("\"hint\":"));
    assert!(usage.stderr.contains("\"kind\":\"usage\""));
    assert!(usage.stderr.contains("\"message\":"));
    assert!(!usage.stderr.contains("\"hint\":"));
}

#[test]
fn rejects_mismatched_and_forged_responses() {
    fn wrong_id(request: &ControlRequest) -> Result<ControlResponse, ClientError> {
        let mut response = response(request, ControlResult::Ack);
        response.request_id = "other".into();
        Ok(response)
    }
    fn wrong_variant(request: &ControlRequest) -> Result<ControlResponse, ClientError> {
        Ok(response(request, ControlResult::Ack))
    }

    for client in [MockClient::new(wrong_id), MockClient::new(wrong_variant)] {
        let output = run_from(["ullage", "show", "primary"], &client);
        assert_eq!(output.code, ExitCode::ProtocolError);
        assert!(output.stderr.contains("invalid_daemon_response"));
    }
}

#[test]
fn unexpected_diagnostics_are_rejected_and_opt_in_is_honoured() {
    const DETAIL: &str = "oauth exchange 400: invalid_grant";

    fn auth_error() -> ControlResult {
        ControlResult::Error(ControlError::Provider(
            ProviderError::AuthenticationInvalid {
                message: "provider authentication is invalid".into(),
            },
        ))
    }

    fn with_detail(request: &ControlRequest) -> Result<ControlResponse, ClientError> {
        let mut response = response(request, auth_error());
        response.diagnostic = Some(DETAIL.into());
        Ok(response)
    }
    fn diagnostic_on_success(request: &ControlRequest) -> Result<ControlResponse, ClientError> {
        let mut response = response(
            request,
            ControlResult::AuthState(AuthState::Authenticated {
                account_label: None,
                expires_at: None,
                account_key: None,
            }),
        );
        response.diagnostic = Some(DETAIL.into());
        Ok(response)
    }

    let rejected = run_from(
        ["ullage", "auth", "status", "grok", "--account", "primary"],
        &MockClient::new(with_detail),
    );
    assert_eq!(rejected.code, ExitCode::ProtocolError);
    assert!(rejected.stderr.contains("invalid_daemon_response"));
    assert!(!rejected.stderr.contains(DETAIL));

    let shown = run_from(
        [
            "ullage",
            "--diagnose",
            "auth",
            "status",
            "grok",
            "--account",
            "primary",
        ],
        &MockClient::new(with_detail),
    );
    assert_eq!(shown.code, ExitCode::AuthenticationInvalid);
    assert!(
        shown.stderr.contains("authentication_invalid"),
        "{}",
        shown.stderr
    );
    assert!(shown.stderr.contains(DETAIL), "{}", shown.stderr);

    fn leak_on_show(request: &ControlRequest) -> Result<ControlResponse, ClientError> {
        assert!(request.diagnostics);
        let mut response = response(
            request,
            ControlResult::Error(ControlError::AccountNotFound {
                account_id: "primary".into(),
            }),
        );
        response.diagnostic = Some(DETAIL.into());
        Ok(response)
    }
    let show = run_from(
        ["ullage", "--diagnose", "show", "primary"],
        &MockClient::new(leak_on_show),
    );
    assert_eq!(show.code, ExitCode::ProtocolError);
    assert!(show.stderr.contains("invalid_daemon_response"));
    assert!(!show.stderr.contains(DETAIL));

    fn leak_on_snapshot(request: &ControlRequest) -> Result<ControlResponse, ClientError> {
        let mut response = response(
            request,
            ControlResult::Snapshots(vec![snapshot(
                "primary",
                QueryOutcome::Complete {
                    data: empty_usage(),
                },
            )]),
        );
        response.diagnostic = Some(DETAIL.into());
        Ok(response)
    }
    let snapshot = run_from(
        ["ullage", "--diagnose", "show", "primary"],
        &MockClient::new(leak_on_snapshot),
    );
    assert_eq!(snapshot.code, ExitCode::ProtocolError);
    assert!(snapshot.stderr.contains("invalid_daemon_response"));
    assert!(!snapshot.stderr.contains(DETAIL));

    let success = run_from(
        [
            "ullage",
            "--diagnose",
            "auth",
            "status",
            "grok",
            "--account",
            "primary",
        ],
        &MockClient::new(diagnostic_on_success),
    );
    assert_eq!(success.code, ExitCode::ProtocolError);
    assert!(success.stderr.contains("invalid_daemon_response"));
    assert!(!success.stderr.contains(DETAIL));
}

#[test]
fn diagnose_surfaces_probe_provider_error_detail() {
    const DETAIL: &str = "oauth exchange 400: invalid_grant";

    fn probe_error() -> ControlResult {
        ControlResult::Error(ControlError::Provider(
            ProviderError::AuthenticationInvalid {
                message: "provider authentication is invalid".into(),
            },
        ))
    }

    fn with_detail(request: &ControlRequest) -> Result<ControlResponse, ClientError> {
        assert!(request.diagnostics);
        let mut response = response(request, probe_error());
        response.diagnostic = Some(DETAIL.into());
        Ok(response)
    }
    fn without_detail(request: &ControlRequest) -> Result<ControlResponse, ClientError> {
        assert!(!request.diagnostics);
        Ok(response(request, probe_error()))
    }
    fn unexpected_detail(request: &ControlRequest) -> Result<ControlResponse, ClientError> {
        assert!(!request.diagnostics);
        let mut response = response(request, probe_error());
        response.diagnostic = Some(DETAIL.into());
        Ok(response)
    }

    let table = run_from(
        ["ullage", "--diagnose", "probe", "primary"],
        &MockClient::new(with_detail),
    );
    assert_eq!(table.code, ExitCode::AuthenticationInvalid);
    assert_eq!(
        table.stderr,
        format!("error: authentication_invalid\ndetail: {DETAIL}\n")
    );

    let json = run_from(
        [
            "ullage",
            "--diagnose",
            "--output",
            "json",
            "probe",
            "primary",
        ],
        &MockClient::new(with_detail),
    );
    assert_eq!(json.code, ExitCode::AuthenticationInvalid);
    assert!(json.stderr.contains("\"kind\":\"authentication_invalid\""));
    assert!(
        json.stderr.contains(&format!("\"detail\":\"{DETAIL}\"")),
        "{}",
        json.stderr
    );

    let hidden = run_from(
        ["ullage", "probe", "primary"],
        &MockClient::new(without_detail),
    );
    assert_eq!(hidden.code, ExitCode::AuthenticationInvalid);
    assert_eq!(hidden.stderr, "error: authentication_invalid\n");
    assert!(!hidden.stderr.contains(DETAIL));

    let rejected = run_from(
        ["ullage", "probe", "primary"],
        &MockClient::new(unexpected_detail),
    );
    assert_eq!(rejected.code, ExitCode::ProtocolError);
    assert!(rejected.stderr.contains("invalid_daemon_response"));
    assert!(!rejected.stderr.contains(DETAIL));
}

#[test]
fn unknown_accounts_have_a_stable_error() {
    fn responder(request: &ControlRequest) -> Result<ControlResponse, ClientError> {
        let error = match &request.command {
            ControlCommand::Probe { .. } | ControlCommand::Show { .. } => {
                ControlError::AccountNotFound {
                    account_id: "missing".into(),
                }
            }
            _ => ControlError::Account(AccountError::NotFound(AccountId::new("missing"))),
        };
        Ok(response(request, ControlResult::Error(error)))
    }
    let client = MockClient::new(responder);
    let commands: &[&[&str]] = &[
        &["ullage", "--output", "json", "account", "show", "missing"],
        &["ullage", "--output", "json", "account", "enable", "missing"],
        &[
            "ullage", "--output", "json", "account", "disable", "missing",
        ],
        &["ullage", "--output", "json", "probe", "missing"],
        &[
            "ullage",
            "--output",
            "json",
            "probe",
            "missing",
            "--no-wait",
        ],
        &["ullage", "--output", "json", "show", "missing"],
    ];

    for command in commands {
        let output = run_from(command.iter().copied(), &client);
        assert_eq!(output.code, ExitCode::Failure);
        assert!(output.stderr.contains("\"kind\":\"account_not_found\""));
    }
}

#[test]
fn rejects_results_for_a_different_account_or_provider() {
    fn responder(request: &ControlRequest) -> Result<ControlResponse, ClientError> {
        let result = match &request.command {
            ControlCommand::AddAccount { .. }
            | ControlCommand::ShowAccount { .. }
            | ControlCommand::SetAccountEnabled { .. } => ControlResult::Account(Account {
                id: AccountId::new("other"),
                provider: ProviderId::new("other-provider"),
                label: None,
                enabled: true,
                metrics: Vec::new(),
            }),
            ControlCommand::Probe { .. } => ControlResult::Probe(ProbePayload {
                account_id: "other".into(),
                usage: QueryOutcome::Complete {
                    data: empty_usage(),
                },
                metrics: Vec::new(),
            }),
            ControlCommand::Show { .. } => ControlResult::Snapshots(vec![snapshot(
                "other",
                QueryOutcome::Complete {
                    data: empty_usage(),
                },
            )]),
            _ => unreachable!(),
        };
        Ok(response(request, result))
    }
    let client = MockClient::new(responder);
    let commands: &[&[&str]] = &[
        &["ullage", "account", "add", "grok"],
        &["ullage", "account", "show", "primary"],
        &["ullage", "account", "enable", "primary"],
        &["ullage", "account", "disable", "primary"],
        &["ullage", "probe", "primary"],
        &["ullage", "show", "primary"],
    ];

    for command in commands {
        let output = run_from(command.iter().copied(), &client);
        assert_eq!(output.code, ExitCode::ProtocolError, "{command:?}");
    }
}

#[test]
fn rejects_an_added_account_with_a_different_label() {
    fn responder(request: &ControlRequest) -> Result<ControlResponse, ClientError> {
        let ControlCommand::AddAccount { provider, .. } = &request.command else {
            unreachable!();
        };
        Ok(response(
            request,
            ControlResult::Account(Account {
                id: AccountId::new("primary"),
                provider: provider.clone(),
                label: Some("personal".into()),
                enabled: true,
                metrics: Vec::new(),
            }),
        ))
    }

    let output = run_from(
        ["ullage", "account", "add", "grok", "--label", "work"],
        &MockClient::new(responder),
    );

    assert_eq!(output.code, ExitCode::ProtocolError);
    assert!(output.stderr.contains("invalid_daemon_response"));
}

#[test]
fn rejects_duplicate_snapshots_for_single_and_all_queries() {
    fn responder(request: &ControlRequest) -> Result<ControlResponse, ClientError> {
        let primary = || {
            snapshot(
                "primary",
                QueryOutcome::Complete {
                    data: empty_usage(),
                },
            )
        };
        Ok(response(
            request,
            ControlResult::Snapshots(vec![primary(), primary()]),
        ))
    }

    for command in [
        &["ullage", "show", "primary"][..],
        &["ullage", "show", "--all"][..],
    ] {
        let output = run_from(command.iter().copied(), &MockClient::new(responder));
        assert_eq!(output.code, ExitCode::ProtocolError);
        assert!(output.stderr.contains("invalid_daemon_response"));
    }
}

#[test]
fn rejects_duplicate_ids_in_list_and_daemon_status_results() {
    fn responder(request: &ControlRequest) -> Result<ControlResponse, ClientError> {
        let result = match &request.command {
            ControlCommand::ListProviders => {
                let provider = ProviderDescriptor {
                    id: ProviderId::new("grok"),
                    display_name: "Grok".into(),
                    capabilities: Vec::new(),
                };
                ControlResult::Providers(vec![provider.clone(), provider])
            }
            ControlCommand::ListAccounts => {
                let account = || Account {
                    id: AccountId::new("primary"),
                    provider: ProviderId::new("grok"),
                    label: None,
                    enabled: true,
                    metrics: Vec::new(),
                };
                ControlResult::Accounts(vec![account(), account()])
            }
            ControlCommand::DaemonStatus => {
                let account = || AccountStatusPayload {
                    account_id: "primary".into(),
                    provider: ProviderId::new("grok"),
                    enabled: true,
                    in_flight: false,
                    consecutive_failures: 0,
                    next_probe_at: None,
                    has_snapshot: false,
                    stale: false,
                    last_error: None,
                };
                ControlResult::DaemonStatus(DaemonStatusPayload {
                    shutting_down: false,
                    accounts: vec![account(), account()],
                    credential_backend: CredentialBackendId::LinuxSecretService,
                })
            }
            _ => unreachable!(),
        };
        Ok(response(request, result))
    }

    for command in [
        &["ullage", "provider", "list"][..],
        &["ullage", "account", "list"][..],
        &["ullage", "daemon", "status"][..],
    ] {
        let output = run_from(command.iter().copied(), &MockClient::new(responder));
        assert_eq!(output.code, ExitCode::ProtocolError);
        assert!(output.stderr.contains("invalid_daemon_response"));
    }
}

#[test]
fn rejects_impossible_snapshot_and_status_state_combinations() {
    fn responder(request: &ControlRequest) -> Result<ControlResponse, ClientError> {
        let result = match &request.command {
            ControlCommand::DaemonStatus => ControlResult::DaemonStatus(DaemonStatusPayload {
                shutting_down: false,
                accounts: vec![AccountStatusPayload {
                    account_id: "primary".into(),
                    provider: ProviderId::new("grok"),
                    enabled: true,
                    in_flight: false,
                    consecutive_failures: 1,
                    next_probe_at: None,
                    has_snapshot: false,
                    stale: true,
                    last_error: Some(SanitizedErrorPayload::Network),
                }],
                credential_backend: CredentialBackendId::LinuxSecretService,
            }),
            ControlCommand::Show {
                account_id: Some(_),
            } => ControlResult::Snapshots(vec![SnapshotPayload {
                last_error: Some(SanitizedErrorPayload::Network),
                last_error_at: Some(at(2026, 8, 27, 12, 1, 0)),
                metrics: Vec::new(),
                ..snapshot(
                    "primary",
                    QueryOutcome::Complete {
                        data: empty_usage(),
                    },
                )
            }]),
            ControlCommand::Show { account_id: None } => {
                ControlResult::Snapshots(vec![SnapshotPayload {
                    stale: true,
                    last_error: Some(SanitizedErrorPayload::Network),
                    last_error_at: None,
                    metrics: Vec::new(),
                    ..snapshot(
                        "primary",
                        QueryOutcome::Complete {
                            data: empty_usage(),
                        },
                    )
                }])
            }
            _ => unreachable!(),
        };
        Ok(response(request, result))
    }

    for command in [
        &["ullage", "daemon", "status"][..],
        &["ullage", "show", "primary"][..],
        &["ullage", "show", "--all"][..],
    ] {
        let output = run_from(command.iter().copied(), &MockClient::new(responder));
        assert_eq!(output.code, ExitCode::ProtocolError);
        assert!(output.stderr.contains("invalid_daemon_response"));
    }
}

#[test]
fn rejects_terminal_controls_in_daemon_results_for_human_and_json_output() {
    fn bidi(request: &ControlRequest) -> Result<ControlResponse, ClientError> {
        Ok(response(
            request,
            ControlResult::Providers(vec![ProviderDescriptor {
                id: ProviderId::new("grok"),
                display_name: "safe\u{202e}txt".into(),
                capabilities: Vec::new(),
            }]),
        ))
    }
    fn c1(request: &ControlRequest) -> Result<ControlResponse, ClientError> {
        Ok(response(
            request,
            ControlResult::Providers(vec![ProviderDescriptor {
                id: ProviderId::new("grok"),
                display_name: "safe\u{009b}txt".into(),
                capabilities: Vec::new(),
            }]),
        ))
    }

    let cases: &[(Responder, &[&str], char)] = &[
        (bidi, &["ullage", "provider", "list"], '\u{202e}'),
        (
            bidi,
            &["ullage", "--output", "pretty-json", "provider", "list"],
            '\u{202e}',
        ),
        (
            c1,
            &["ullage", "--output", "json", "provider", "list"],
            '\u{009b}',
        ),
        (
            c1,
            &["ullage", "--output", "pretty-json", "provider", "list"],
            '\u{009b}',
        ),
    ];
    for (responder, command, control) in cases {
        let output = run_from(command.iter().copied(), &MockClient::new(*responder));
        assert_eq!(output.code, ExitCode::ProtocolError);
        assert!(output.stderr.contains("invalid_daemon_response"));
        assert!(!output.stdout.contains(*control));
        assert!(!output.stderr.contains(*control));
    }
}

#[test]
fn rejects_unsafe_controls_in_command_arguments_before_sending() {
    for label in ["safe\u{202e}txt", "safe\u{009b}txt"] {
        let client = MockClient::new(|_| unreachable!());
        let output = run_from(
            ["ullage", "account", "add", "grok", "--label", label],
            &client,
        );

        assert_eq!(output.code, ExitCode::Usage);
        assert!(output.stderr.contains("error: usage\n"));
        assert!(output.stderr.contains("--label"));
        assert!(!output.stderr.contains(label));
        assert!(client.requests.lock().unwrap().is_empty());
    }
}

#[test]
fn reveal_never_exposes_error_details_in_json_output() {
    fn partial(request: &ControlRequest) -> Result<ControlResponse, ClientError> {
        Ok(response(
            request,
            ControlResult::Snapshots(vec![snapshot(
                "primary",
                QueryOutcome::Partial {
                    data: empty_usage(),
                    failures: vec![PartialFailure {
                        scope: "secret-scope".into(),
                        message: "secret-partial".into(),
                    }],
                },
            )]),
        ))
    }
    fn stale(request: &ControlRequest) -> Result<ControlResponse, ClientError> {
        Ok(response(
            request,
            ControlResult::Snapshots(vec![SnapshotPayload {
                stale: true,
                last_error: Some(SanitizedErrorPayload::Network),
                last_error_at: Some(at(2026, 8, 27, 12, 1, 0)),
                metrics: Vec::new(),
                ..snapshot(
                    "primary",
                    QueryOutcome::Complete {
                        data: empty_usage(),
                    },
                )
            }]),
        ))
    }
    fn invalid(request: &ControlRequest) -> Result<ControlResponse, ClientError> {
        Ok(response(
            request,
            ControlResult::AuthState(AuthState::Invalid {
                reason: "secret-auth".into(),
                account_key: None,
            }),
        ))
    }

    let cases: &[(Responder, &[&str])] = &[
        (partial, &["show", "--all"]),
        (stale, &["show", "primary"]),
        (
            invalid,
            &["auth", "status", "grok", "--account", "primary"],
        ),
    ];
    for format in ["json", "pretty-json"] {
        for (responder, command) in cases {
            let mut arguments = vec!["ullage", "--output", format, "--reveal"];
            arguments.extend_from_slice(command);
            let output = run_from(arguments, &MockClient::new(*responder));
            for secret in ["secret-scope", "secret-partial", "secret-auth"] {
                assert!(!output.stdout.contains(secret));
            }
        }
    }
}

#[test]
fn rejects_wrong_account_state_and_mismatched_errors() {
    fn responder(request: &ControlRequest) -> Result<ControlResponse, ClientError> {
        let result = match &request.command {
            ControlCommand::SetAccountEnabled { account, enabled } => {
                ControlResult::Account(Account {
                    id: account.clone(),
                    provider: ProviderId::new("grok"),
                    label: None,
                    enabled: !enabled,
                    metrics: Vec::new(),
                })
            }
            ControlCommand::ShowAccount { .. } => ControlResult::Error(ControlError::Account(
                AccountError::NotFound(AccountId::new("other")),
            )),
            ControlCommand::DaemonStatus => ControlResult::Error(ControlError::Account(
                AccountError::NotFound(AccountId::new("primary")),
            )),
            ControlCommand::AddAccount { .. } => ControlResult::Error(ControlError::Registry(
                RegistryError::NotFound(ProviderId::new("other-provider")),
            )),
            _ => unreachable!(),
        };
        Ok(response(request, result))
    }
    let client = MockClient::new(responder);
    let commands: &[&[&str]] = &[
        &["ullage", "account", "enable", "primary"],
        &["ullage", "account", "disable", "primary"],
        &["ullage", "account", "show", "primary"],
        &["ullage", "daemon", "status"],
        &["ullage", "account", "add", "grok"],
    ];

    for command in commands {
        let output = run_from(command.iter().copied(), &client);
        assert_eq!(output.code, ExitCode::ProtocolError, "{command:?}");
    }
}

#[test]
fn rejects_registry_duplicate_and_accepts_a_provider_negotiated_auth_method() {
    fn duplicate(request: &ControlRequest) -> Result<ControlResponse, ClientError> {
        Ok(response(
            request,
            ControlResult::Error(ControlError::Registry(
                RegistryError::Duplicate(ProviderId::new("grok")),
            )),
        ))
    }
    fn negotiated_method(request: &ControlRequest) -> Result<ControlResponse, ClientError> {
        Ok(response(
            request,
            ControlResult::AuthChallenge(AuthChallenge {
                flow_id: "flow".into(),
                method: AuthMethod::BrowserOAuth,
                verification_uri: None,
                user_code: None,
                expires_at: None,
                input: None,
            }),
        ))
    }

    let duplicate_output = run_from(
        ["ullage", "account", "add", "grok"],
        &MockClient::new(duplicate),
    );
    let method_output = run_from(
        [
            "ullage",
            "auth",
            "login",
            "grok",
            "--account",
            "primary",
            "--method",
            "device-code",
        ],
        &MockClient::new(negotiated_method),
    );

    assert_eq!(duplicate_output.code, ExitCode::ProtocolError);
    assert_eq!(method_output.code, ExitCode::Success);
}

#[test]
fn accepts_registry_not_found_from_a_probe() {
    fn responder(request: &ControlRequest) -> Result<ControlResponse, ClientError> {
        Ok(response(
            request,
            ControlResult::Error(ControlError::Registry(
                RegistryError::NotFound(ProviderId::new("missing")),
            )),
        ))
    }

    let output = run_from(
        ["ullage", "--output", "json", "probe", "primary"],
        &MockClient::new(responder),
    );

    assert_eq!(output.code, ExitCode::Failure);
    assert!(output.stderr.contains("provider_registry_error"));
    assert!(!output.stderr.contains("invalid_daemon_response"));
}

#[test]
fn authentication_uri_is_hidden_unless_revealed() {
    fn responder(request: &ControlRequest) -> Result<ControlResponse, ClientError> {
        Ok(response(
            request,
            ControlResult::AuthChallenge(AuthChallenge {
                flow_id: "flow".into(),
                method: AuthMethod::BrowserOAuth,
                verification_uri: Some("https://example.test/login?state=sensitive".into()),
                user_code: None,
                expires_at: None,
                input: None,
            }),
        ))
    }
    let client = MockClient::new(responder);
    for format in ["table", "json", "pretty-json"] {
        let output = run_from(
            [
                "ullage",
                "--output",
                format,
                "auth",
                "login",
                "grok",
                "--account",
                "primary",
            ],
            &client,
        );
        assert_eq!(output.code, ExitCode::Success);
        assert!(output.stdout.contains("[redacted]"));
        assert!(!output.stdout.contains("state=sensitive"));
    }
    let revealed = run_from(
        [
            "ullage",
            "--output",
            "json",
            "--reveal",
            "auth",
            "login",
            "grok",
            "--account",
            "primary",
        ],
        &client,
    );
    assert!(revealed.stdout.contains("state=sensitive"));
}

#[test]
fn rejects_c0_controls_in_forged_account_results_for_every_output_format() {
    fn responder(request: &ControlRequest) -> Result<ControlResponse, ClientError> {
        Ok(response(
            request,
            ControlResult::Accounts(vec![Account {
                id: AccountId::new("unsafe\u{1b}[31m"),
                provider: ProviderId::new("grok"),
                label: Some("person@example.test".into()),
                enabled: true,
                metrics: Vec::new(),
            }]),
        ))
    }
    for arguments in [
        &["ullage", "--output", "table", "account", "list"][..],
        &["ullage", "--output", "json", "account", "list"][..],
        &["ullage", "--output", "pretty-json", "account", "list"][..],
    ] {
        let output = run_from(arguments.iter().copied(), &MockClient::new(responder));
        assert_eq!(output.code, ExitCode::ProtocolError);
        assert!(output.stderr.contains("invalid_daemon_response"));
        assert!(!output.stdout.contains("example.test"));
        assert!(!output.stdout.contains('\u{1b}'));
        assert!(!output.stderr.contains('\u{1b}'));
    }
}

#[test]
fn authentication_values_cannot_inject_terminal_controls() {
    fn responder(request: &ControlRequest) -> Result<ControlResponse, ClientError> {
        Ok(response(
            request,
            ControlResult::AuthChallenge(AuthChallenge {
                flow_id: "\u{1b}[31mflow".into(),
                method: AuthMethod::DeviceCode,
                verification_uri: Some("https://example.test/login".into()),
                user_code: Some("\u{1b}[31mcode".into()),
                expires_at: None,
                input: None,
            }),
        ))
    }
    let client = MockClient::new(responder);
    let hidden = run_from(
        ["ullage", "auth", "login", "grok", "--account", "primary"],
        &client,
    );
    let revealed = run_from(
        [
            "ullage",
            "--reveal",
            "auth",
            "login",
            "grok",
            "--account",
            "primary",
        ],
        &client,
    );

    assert_eq!(hidden.code, ExitCode::ProtocolError);
    assert_eq!(revealed.code, ExitCode::ProtocolError);
    assert!(hidden.stdout.is_empty());
    assert!(revealed.stdout.is_empty());
    assert!(!hidden.stdout.contains('\u{1b}'));
    assert!(!revealed.stdout.contains('\u{1b}'));
    assert!(!hidden.stderr.contains('\u{1b}'));
    assert!(!revealed.stderr.contains('\u{1b}'));
}

#[test]
fn daemon_run_uses_the_runtime_and_usage_errors_are_distinct() {
    let run = run_from(
        ["ullage", "daemon", "run"],
        &MockClient::with_daemon_result(Ok(())),
    );
    let usage = run_from(["ullage", "show"], &MockClient::with_daemon_result(Ok(())));

    assert_eq!(run.code, ExitCode::Success);
    assert_eq!(usage.code, ExitCode::Usage);
}

#[test]
fn daemon_run_honors_json_output() {
    let json = json_from(
        ["ullage", "--output", "json", "daemon", "run"],
        &MockClient::with_daemon_result(Ok(())),
    );

    assert_eq!(json.code, ExitCode::Success);
    assert!(!json.pretty);
    assert_eq!(json.result, ControlResult::Ack);
    assert_eq!(json.stderr, "");
}

#[test]
fn device_pair_supports_every_output_format() {
    fn responder(request: &ControlRequest) -> Result<ControlResponse, ClientError> {
        assert_eq!(request.command, ControlCommand::CreatePairCode);
        Ok(response(
            request,
            ControlResult::PairCode(PairCodePayload {
                code: "ABC-DEF".into(),
                expires_at: at(2026, 9, 1, 12, 5, 0),
            }),
        ))
    }

    let client = MockClient::new(responder);
    let table = run_from(["ullage", "--color", "never", "device", "pair"], &client);
    assert_eq!(table.code, ExitCode::Success);
    assert!(table.stdout.contains("CODE        ABC-DEF\n"));
    assert!(
        table
            .stdout
            .contains("EXPIRES_AT  2026-09-01T12:05:00+00:00\n")
    );
    assert!(table.stdout.contains("HTTP API address"));
    assert!(table.stdout.contains("one-time"));
    assert!(table.stdout.contains("300 seconds"));
    assert!(table.stdout.contains("new code invalidates it"));

    for format in ["json", "pretty-json"] {
        let json = json_from(["ullage", "--output", format, "device", "pair"], &client);
        assert_eq!(json.code, ExitCode::Success, "{format}");
        assert_eq!(json.pretty, format == "pretty-json");
        assert_eq!(
            json.result,
            ControlResult::PairCode(PairCodePayload {
                code: "ABC-DEF".into(),
                expires_at: at(2026, 9, 1, 12, 5, 0),
            })
        );
    }
}

#[test]
fn device_list_supports_every_output_format_without_tokens() {
    fn responder(request: &ControlRequest) -> Result<ControlResponse, ClientError> {
        assert_eq!(request.command, ControlCommand::ListDevices);
        let now = NOW;
        Ok(response(
            request,
            ControlResult::Devices(vec![DevicePayload {
                id: "DEVICE123456".into(),
                name: "client-host".into(),
                created_at: later(now, -2 * 3600),
                last_seen_at: later(now, -3 * 60),
            }]),
        ))
    }

    let client = MockClient::new(responder);
    for format in ["table", "json", "pretty-json"] {
        let output = run_from(
            [
                "ullage", "--output", format, "--color", "never", "device", "list",
            ],
            &client,
        );
        assert_eq!(output.code, ExitCode::Success, "{format}");
        assert!(output.stdout.contains("DEVICE123456"), "{format}");
        assert!(output.stdout.contains("client-host"), "{format}");
        let lower = output.stdout.to_ascii_lowercase();
        assert!(!lower.contains("token"), "{format}: {}", output.stdout);
        assert!(!lower.contains("hash"), "{format}: {}", output.stdout);
    }

    let table = run_from(["ullage", "--color", "never", "device", "list"], &client);
    assert!(
        table
            .stdout
            .contains("| DEVICE ID    | NAME        | CREATED   | LAST SEEN |"),
        "{}",
        table.stdout
    );
    assert!(table.stdout.contains("2h00m ago"));
    assert!(table.stdout.contains("3m ago"));
}

#[test]
fn device_list_empty_state_matches_other_list_tables() {
    fn responder(request: &ControlRequest) -> Result<ControlResponse, ClientError> {
        Ok(response(request, ControlResult::Devices(Vec::new())))
    }

    let output = run_from(
        ["ullage", "--color", "never", "device", "list"],
        &MockClient::new(responder),
    );
    assert_eq!(output.code, ExitCode::Success);
    assert_eq!(
        output.stdout,
        [
            "+-----------+------+---------+-----------+\n",
            "| DEVICE ID | NAME | CREATED | LAST SEEN |\n",
            "+-----------+------+---------+-----------+\n",
            "+-----------+------+---------+-----------+\n",
        ]
        .concat()
    );
}

#[test]
fn device_revoke_supports_every_output_format_and_not_found() {
    fn revoked(request: &ControlRequest) -> Result<ControlResponse, ClientError> {
        assert_eq!(
            request.command,
            ControlCommand::RevokeDevice {
                device_id: "DEVICE123456".into(),
            }
        );
        Ok(response(request, ControlResult::Ack))
    }
    fn missing(request: &ControlRequest) -> Result<ControlResponse, ClientError> {
        Ok(response(
            request,
            ControlResult::Error(ControlError::DeviceNotFound {
                device_id: "MISSING12345".into(),
            }),
        ))
    }

    for format in ["table", "json", "pretty-json"] {
        let output = run_from(
            [
                "ullage",
                "--output",
                format,
                "device",
                "revoke",
                "DEVICE123456",
            ],
            &MockClient::new(revoked),
        );
        assert_eq!(output.code, ExitCode::Success, "{format}");
        if format == "table" {
            assert!(output.stdout.contains("ok"));
        } else {
            let json = json_from(
                [
                    "ullage",
                    "--output",
                    format,
                    "device",
                    "revoke",
                    "DEVICE123456",
                ],
                &MockClient::new(revoked),
            );
            assert_eq!(json.result, ControlResult::Ack, "{format}");
        }

        let output = run_from(
            [
                "ullage",
                "--output",
                format,
                "device",
                "revoke",
                "MISSING12345",
            ],
            &MockClient::new(missing),
        );
        assert_eq!(output.code, ExitCode::Failure, "{format}");
        assert!(output.stderr.contains("device_not_found"), "{format}");
    }
}

#[test]
fn daemon_service_commands_use_the_local_service_manager() {
    for command in ["install", "start", "stop", "uninstall"] {
        let output = run_from(
            ["ullage", "daemon", command],
            &MockClient::with_daemon_result(Ok(())),
        );
        assert_eq!(output.code, ExitCode::Success, "{command}");
        assert_eq!(output.stdout, "ok\n", "{command}");
    }

    let failure = run_from(
        ["ullage", "daemon", "install"],
        &MockClient::with_daemon_result(Err(ClientError::DaemonProcess)),
    );
    assert_eq!(failure.code, ExitCode::Failure);
    assert_eq!(failure.stderr, "error: daemon_service_failed\n");
}

#[test]
fn daemon_status_distinguishes_stopped_and_not_installed_services() {
    for (installed, expected) in [
        (true, "STATUS   stopped\nSERVICE  installed\n"),
        (false, "STATUS   stopped\nSERVICE  not-installed\n"),
    ] {
        let output = run_from(
            ["ullage", "--color", "never", "daemon", "status"],
            &MockClient::stopped(installed),
        );
        assert_eq!(output.code, ExitCode::Success);
        assert_eq!(output.stdout, expected);
    }

    let json = run_from(
        ["ullage", "--output", "json", "daemon", "status"],
        &MockClient::stopped(true),
    );
    assert_eq!(
        json.stdout,
        "{\"service\":\"installed\",\"status\":\"stopped\"}\n"
    );
}

#[test]
fn daemon_status_reports_the_credential_backend_in_table_and_json() {
    fn responder(request: &ControlRequest) -> Result<ControlResponse, ClientError> {
        Ok(response(
            request,
            ControlResult::DaemonStatus(DaemonStatusPayload {
                shutting_down: false,
                accounts: Vec::new(),
                credential_backend: CredentialBackendId::FileFallback,
            }),
        ))
    }
    let client = MockClient::new(responder);
    let table = run_from(["ullage", "--color", "never", "daemon", "status"], &client);
    assert_eq!(table.code, ExitCode::Success);
    assert_eq!(
        table.stdout,
        "STATUS              running\nACCOUNTS            0\nACTIVE_PROBES       0\nCREDENTIAL_BACKEND  file_fallback\n"
    );

    let json = json_from(["ullage", "--output", "json", "daemon", "status"], &client);
    assert_eq!(json.code, ExitCode::Success);
    assert!(!json.pretty);
    assert_eq!(
        json.result,
        ControlResult::DaemonStatus(DaemonStatusPayload {
            shutting_down: false,
            accounts: Vec::new(),
            credential_backend: CredentialBackendId::FileFallback,
        })
    );
    assert!(!json.stderr.contains("invalid_daemon_response"));
}

#[test]
fn usage_errors_do_not_echo_untrusted_arguments() {
    let output = run_from(
        [
            "ullage",
            "auth",
            "login",
            "grok",
            "--account",
            "primary",
            "--method",
            "person@example.test\u{1b}\nsecret-token",
        ],
        &MockClient::with_daemon_result(Ok(())),
    );

    assert_eq!(output.code, ExitCode::Usage);
    assert!(output.stderr.contains("--method"));
    assert!(!output.stderr.contains("person@example.test"));
    assert!(!output.stderr.contains("secret-token"));
    assert!(!output.stderr.contains('\u{1b}'));
}

#[test]
fn unknown_flag_with_control_chars_uses_static_hint() {
    let output = run_from(
        ["ullage", "--not-a-real-flag", "safe\u{1b}txt"],
        &MockClient::with_daemon_result(Ok(())),
    );
    assert_eq!(output.code, ExitCode::Usage);
    assert!(
        output
            .stderr
            .contains("a command argument contains disallowed control characters")
    );
    assert!(!output.stderr.contains("--not-a-real-flag"));
}

#[test]
fn boolean_flag_does_not_own_following_positional_control_chars() {
    let output = run_from(
        ["ullage", "show", "--all", "bad\u{1b}txt"],
        &MockClient::with_daemon_result(Ok(())),
    );
    assert_eq!(output.code, ExitCode::Usage);
    assert!(
        output
            .stderr
            .contains("a command argument contains disallowed control characters")
    );
    assert!(!output.stderr.contains("--all"));
}

#[test]
fn inline_flag_assignment_control_chars_name_the_option() {
    let output = run_from(
        [
            "ullage",
            "auth",
            "login",
            "grok",
            "--account",
            "primary",
            "--method=bad\u{1b}txt",
        ],
        &MockClient::with_daemon_result(Ok(())),
    );
    assert_eq!(output.code, ExitCode::Usage);
    assert!(output.stderr.contains("--method"));
    assert!(!output.stderr.contains("bad"));
}

#[test]
fn option_terminator_makes_later_tokens_positional_for_control_reject() {
    let output = run_from(
        ["ullage", "show", "--", "--method=bad\u{1b}txt"],
        &MockClient::with_daemon_result(Ok(())),
    );
    assert_eq!(output.code, ExitCode::Usage);
    assert!(
        output
            .stderr
            .contains("a command argument contains disallowed control characters")
    );
    assert!(!output.stderr.contains("--method"));
}

#[test]
fn unknown_option_after_value_flag_uses_generic_control_hint() {
    let output = run_from(
        [
            "ullage",
            "auth",
            "login",
            "grok",
            "--account",
            "primary",
            "--method",
            "--not-real\u{1b}txt",
        ],
        &MockClient::with_daemon_result(Ok(())),
    );
    assert_eq!(output.code, ExitCode::Usage);
    assert!(
        output
            .stderr
            .contains("a command argument contains disallowed control characters")
    );
    assert!(!output.stderr.contains("--method"));
}

#[test]
fn output_inference_stops_at_the_option_terminator() {
    let output = run_from(
        ["ullage", "show", "--", "--output", "json"],
        &MockClient::with_daemon_result(Ok(())),
    );

    assert_eq!(output.code, ExitCode::Usage);
    assert!(output.stderr.starts_with("error:"));
    assert!(!output.stderr.starts_with('{'));
}

#[test]
fn reveal_is_an_explicit_opt_in_for_sensitive_json_values() {
    let client = MockClient::new(snapshot_result);
    let output = run_from(
        ["ullage", "--output", "json", "--reveal", "show", "primary"],
        &client,
    );

    assert_eq!(output.code, ExitCode::Success);
    assert!(output.stdout.contains("person@example.test"));
    assert!(!output.stdout.contains("[redacted]"));
}

#[test]
fn table_preserves_dynamic_window_and_unit_identifiers() {
    fn responder(request: &ControlRequest) -> Result<ControlResponse, ClientError> {
        let mut usage = empty_usage();
        usage.windows.push(UsageWindow {
            window: UsageWindowKind::Other {
                id: "rolling_30d".into(),
                label: "Rolling 30 days".into(),
            },
            resets_at: None,
            measurements: vec![UsageMeasurement {
                name: "spend".into(),
                used: amount(4.5),
                limit: Some(amount(20.0)),
                unit: MeasurementUnit::Currency { code: "USD".into() },
            }],
        });
        Ok(response(
            request,
            ControlResult::Snapshots(vec![snapshot(
                "primary",
                QueryOutcome::Complete { data: usage },
            )]),
        ))
    }
    let output = run_from(
        ["ullage", "--raw", "show", "primary"],
        &MockClient::new(responder),
    );

    assert_eq!(output.code, ExitCode::Success);
    assert!(output.stdout.contains("other:rolling_30d"));
    assert!(output.stdout.contains("currency:USD"));
}

#[test]
fn help_is_successful_without_contacting_the_daemon() {
    let output = run_from(
        ["ullage", "--help"],
        &MockClient::with_daemon_result(Ok(())),
    );

    assert_eq!(output.code, ExitCode::Success);
    assert!(output.stdout.contains("Usage:"));
    assert!(output.stderr.is_empty());
}

#[test]
fn output_format_default_is_table() {
    assert_eq!(OutputFormat::default(), OutputFormat::Table);
}

#[test]
fn color_mode_default_is_auto() {
    assert_eq!(
        ColorMode::default(),
        ColorMode::Auto
    );
}

#[test]
fn account_list_table_uses_ascii_borders_and_alignment() {
    let output = run_from(
        ["ullage", "--color", "never", "account", "list"],
        &MockClient::new(account_list_result),
    );
    assert_eq!(output.code, ExitCode::Success);
    assert_eq!(
        output.stdout,
        [
            "+---------+----------+-------+---------+---------+\n",
            "| ACCOUNT | PROVIDER | LABEL | ENABLED | METRICS |\n",
            "+---------+----------+-------+---------+---------+\n",
            "| primary | grok     | -     | true    | -       |\n",
            "+---------+----------+-------+---------+---------+\n",
        ]
        .concat()
    );
    assert!(!output.stdout.contains('\u{1b}'));
    assert!(!output.stderr.contains('\u{1b}'));
}

#[test]
fn show_header_aligns_account_and_usage_keys_in_one_paragraph() {
    let output = run_from(
        ["ullage", "--color", "never", "--raw", "show", "primary"],
        &MockClient::new(snapshot_result),
    );
    assert_eq!(output.code, ExitCode::Success);
    assert!(
        output.stdout.starts_with("==== grok ====\n"),
        "{}",
        output.stdout
    );
    assert!(
        !output
            .stdout
            .lines()
            .any(|line| { line.starts_with("ACCOUNT") && !line.starts_with("ACCOUNT_LABEL") }),
        "ACCOUNT key-value row should be replaced by the section header:\n{}",
        output.stdout
    );
    let status = output
        .stdout
        .lines()
        .find(|line| line.starts_with("STATUS"))
        .unwrap();
    let label = output
        .stdout
        .lines()
        .find(|line| line.starts_with("ACCOUNT_LABEL"))
        .unwrap();
    let status_value = status.find("current").unwrap();
    let label_value = label.find("[redacted]").unwrap();
    assert_eq!(
        status_value, label_value,
        "show header values should share one column:\n{}",
        output.stdout
    );
    assert!(
        output
            .stdout
            .contains("| WINDOW | MEASUREMENT | USED | LIMIT | UNIT | RESETS_AT |"),
        "{}",
        output.stdout
    );
}

#[test]
fn show_separates_multiple_accounts_with_section_headers() {
    fn responder(request: &ControlRequest) -> Result<ControlResponse, ClientError> {
        let mut secondary = empty_usage();
        secondary.provider = ProviderId::new("cursor");
        Ok(response(
            request,
            ControlResult::Snapshots(vec![
                snapshot(
                    "primary",
                    QueryOutcome::Complete {
                        data: empty_usage(),
                    },
                ),
                SnapshotPayload {
                    account_id: "secondary".into(),
                    usage: QueryOutcome::Partial {
                        data: secondary,
                        failures: vec![PartialFailure {
                            scope: "secret-scope".into(),
                            message: "sensitive detail".into(),
                        }],
                    },
                    last_success_at: at(2026, 8, 27, 12, 0, 0),
                    stale: true,
                    last_error: Some(SanitizedErrorPayload::Network),
                    last_error_at: Some(at(2026, 8, 27, 12, 1, 0)),
                    metrics: Vec::new(),
                },
            ]),
        ))
    }
    let output = run_from(
        ["ullage", "--color", "never", "--raw", "show", "--all"],
        &MockClient::new(responder),
    );
    assert_eq!(output.code, ExitCode::Partial, "{}", output.stderr);
    let stdout = output.stdout.as_str();
    let primary = stdout.find("==== grok ====").expect(stdout);
    let secondary = stdout.find("==== cursor ====").expect(stdout);
    assert!(primary < secondary, "{stdout}");
    assert!(stdout.contains("==== grok ====\nSTATUS"), "{stdout}");
    assert!(stdout.contains("\n\n==== cursor ===="), "{stdout}");
    let warning = stdout.find("WARNING").expect(stdout);
    let last_error = stdout.find("LAST_ERROR").expect(stdout);
    assert!(secondary < warning, "{stdout}");
    assert!(warning < last_error, "{stdout}");
    assert!(!stdout[..secondary].contains("WARNING"), "{stdout}");
    assert!(!stdout[..secondary].contains("LAST_ERROR"), "{stdout}");
    assert!(!stdout.contains("sensitive detail"), "{stdout}");
}

#[test]
fn show_section_header_is_colored_only_when_color_is_always() {
    let colored = run_from(
        ["ullage", "--color", "always", "--raw", "show", "primary"],
        &MockClient::new(snapshot_result),
    );
    let plain = run_from(
        ["ullage", "--color", "never", "--raw", "show", "primary"],
        &MockClient::new(snapshot_result),
    );
    assert_eq!(colored.code, ExitCode::Success);
    assert_eq!(plain.code, ExitCode::Success);
    assert!(
        colored
            .stdout
            .contains("\u{1b}[1;36m==== grok ====\u{1b}[0m"),
        "{}",
        colored.stdout
    );
    assert!(!plain.stdout.contains('\u{1b}'), "{}", plain.stdout);
    assert!(
        plain.stdout.starts_with("==== grok ====\n"),
        "{}",
        plain.stdout
    );
}

#[test]
fn color_always_emits_ansi_on_table_output() {
    let output = run_from(
        ["ullage", "--color", "always", "account", "list"],
        &MockClient::new(account_list_result),
    );
    assert_eq!(output.code, ExitCode::Success);
    assert!(output.stdout.contains('\u{1b}'));
    assert!(output.stdout.contains("[redacted]") || output.stdout.contains("primary"));
    assert!(output.stdout.contains("\u{1b}[1;36m"), "{}", output.stdout);
    assert!(output.stdout.contains("\u{1b}[2m"), "{}", output.stdout);
}

#[test]
fn json_output_never_contains_ansi_even_with_color_always() {
    let client = MockClient::new(snapshot_result);
    let plain = json_from(["ullage", "--output", "json", "show", "primary"], &client);
    let colored = json_from(
        [
            "ullage", "--color", "always", "--output", "json", "show", "primary",
        ],
        &client,
    );
    let pretty = json_from(
        [
            "ullage",
            "--color",
            "always",
            "--output",
            "pretty-json",
            "show",
            "primary",
        ],
        &client,
    );
    assert_eq!(plain.result, colored.result);
    assert_eq!(plain.result, pretty.result);
    assert!(!plain.pretty && !colored.pretty && pretty.pretty);
    assert!(!format!("{:?}", colored.result).contains("\\u{1b}"));
    assert!(!format!("{:?}", pretty.result).contains("\\u{1b}"));
}

#[test]
fn cjk_provider_names_keep_ascii_table_borders_aligned() {
    fn responder(request: &ControlRequest) -> Result<ControlResponse, ClientError> {
        Ok(response(
            request,
            ControlResult::Providers(vec![ProviderDescriptor {
                id: ProviderId::new("grok"),
                display_name: "中文名称".into(),
                capabilities: Vec::new(),
            }]),
        ))
    }
    let output = run_from(
        ["ullage", "--color", "never", "provider", "list"],
        &MockClient::new(responder),
    );
    assert_eq!(output.code, ExitCode::Success);
    let lines: Vec<&str> = output.stdout.lines().collect();
    assert_eq!(lines.len(), 5, "{}", output.stdout);
    let border_cols = lines[0].chars().count();
    let data = lines[3];
    assert!(data.contains("中文名称"), "{data}");
    assert_eq!(
        data.chars().count() + 4,
        border_cols,
        "CJK double-width should match the ASCII border:\n{}",
        output.stdout
    );
}

#[test]
fn used_at_ninety_percent_is_colored_red_when_color_is_always() {
    fn responder(request: &ControlRequest) -> Result<ControlResponse, ClientError> {
        let mut usage = empty_usage();
        usage.windows.push(UsageWindow {
            window: UsageWindowKind::Weekly,
            resets_at: None,
            measurements: vec![UsageMeasurement {
                name: "spend".into(),
                used: amount(90.0),
                limit: Some(amount(100.0)),
                unit: MeasurementUnit::Credits,
            }],
        });
        Ok(response(
            request,
            ControlResult::Snapshots(vec![snapshot(
                "primary",
                QueryOutcome::Complete { data: usage },
            )]),
        ))
    }
    let colored = run_from(
        ["ullage", "--color", "always", "--raw", "show", "primary"],
        &MockClient::new(responder),
    );
    let plain = run_from(
        ["ullage", "--color", "never", "--raw", "show", "primary"],
        &MockClient::new(responder),
    );
    assert!(colored.stdout.contains("\u{1b}[31m"), "{}", colored.stdout);
    assert!(!plain.stdout.contains('\u{1b}'));
    assert!(plain.stdout.contains("90"));
}

#[test]
fn color_always_does_not_color_json_error_envelopes() {
    let output = run_from(
        ["ullage", "--color", "always", "--output", "json", "show"],
        &MockClient::with_daemon_result(Ok(())),
    );
    assert_eq!(output.code, ExitCode::Usage);
    assert!(!output.stdout.contains('\u{1b}'));
    assert!(!output.stderr.contains('\u{1b}'));
    assert!(output.stderr.contains("\"kind\":\"usage\""));
}

#[test]
fn json_parse_errors_include_message_without_hint() {
    let output = run_from(
        ["ullage", "--output", "json", "show"],
        &MockClient::with_daemon_result(Ok(())),
    );
    assert_eq!(output.code, ExitCode::Usage);
    assert!(output.stderr.contains("\"kind\":\"usage\""));
    assert!(output.stderr.contains("\"message\":"));
    assert!(!output.stderr.contains("\"hint\":"));
    assert!(!output.stderr.contains('\u{1b}'));
}

#[test]
fn runtime_error_hints_are_static() {
    fn registry_error(request: &ControlRequest) -> Result<ControlResponse, ClientError> {
        Ok(response(
            request,
            ControlResult::Error(ControlError::Registry(
                RegistryError::NotFound(ProviderId::new("missing")),
            )),
        ))
    }
    fn account_error(request: &ControlRequest) -> Result<ControlResponse, ClientError> {
        Ok(response(
            request,
            ControlResult::Error(ControlError::AccountNotFound {
                account_id: "missing".into(),
            }),
        ))
    }
    fn selector_error(request: &ControlRequest) -> Result<ControlResponse, ClientError> {
        Ok(response(
            request,
            ControlResult::Error(ControlError::AccountSelectorNotFound {
                provider: ProviderId::new("chatgpt"),
                account_label: Some("work".into()),
            }),
        ))
    }
    fn unavailable(_: &ControlRequest) -> Result<ControlResponse, ClientError> {
        Err(ClientError::DaemonUnavailable)
    }

    let table = run_from(
        ["ullage", "account", "add", "missing"],
        &MockClient::new(registry_error),
    );
    assert!(table.stderr.contains("provider_registry_error"));
    assert!(
        table
            .stderr
            .contains("hint: pass a compiled-in provider id")
    );

    let account = run_from(
        ["ullage", "show", "missing"],
        &MockClient::new(account_error),
    );
    assert!(account.stderr.contains("account_not_found"));
    assert!(account.stderr.contains("hint: pass a stable account id"));

    let selector = run_from(
        ["ullage", "probe", "primary"],
        &MockClient::new(selector_error),
    );
    assert!(selector.stderr.contains("account_selector_not_found"));
    assert!(selector.stderr.contains("hint: pass a stable account id"));

    let daemon = run_from(["ullage", "show", "primary"], &MockClient::new(unavailable));
    assert!(daemon.stderr.contains("daemon_unavailable"));
    assert!(daemon.stderr.contains("hint: start the daemon"));

    let json = run_from(
        ["ullage", "--output", "json", "show", "primary"],
        &MockClient::new(unavailable),
    );
    assert!(json.stderr.contains("\"kind\":\"daemon_unavailable\""));
    assert!(json.stderr.contains("\"hint\":"));
    assert!(!json.stderr.contains('\u{1b}'));
}

#[test]
fn show_defaults_to_a_readable_summary_with_a_trailing_progress_bar() {
    let output = run_from(
        ["ullage", "--color", "never", "show", "primary"],
        &MockClient::new(summary_result),
    );

    assert_eq!(output.code, ExitCode::Success);
    let stdout = output.stdout.as_str();
    assert!(stdout.starts_with("==== grok - pro ====\n"), "{stdout}");
    assert!(
        stdout.lines().nth(1).unwrap().starts_with("5h "),
        "{stdout}"
    );

    let five_hours = line_starting_with(stdout, "5h ");
    assert!(five_hours.contains("remains 97%"), "{stdout}");
    assert!(five_hours.contains("-  3h -"), "{stdout}");
    assert!(five_hours.ends_with("[##########]"), "{stdout}");

    let opus = line_starting_with(stdout, "Weekly Opus");
    assert!(opus.contains("remains 89%"), "{stdout}");
    assert!(opus.contains("--*****"), "{stdout}");
    assert!(opus.ends_with("[-#########]"), "{stdout}");

    assert!(!stdout.contains('\u{1b}'), "{stdout}");
    for hidden in ["PROVIDER", "ACCOUNT_LABEL", "OBSERVED_AT", "EXPIRES_AT"] {
        assert!(
            !stdout.lines().any(|line| line.starts_with(hidden)),
            "{hidden} should not appear in the summary view:\n{stdout}"
        );
    }
    assert!(!stdout.contains("| WINDOW |"), "{stdout}");
}

#[test]
fn show_raw_restores_the_provider_table() {
    let output = run_from(
        ["ullage", "--color", "never", "--raw", "show", "primary"],
        &MockClient::new(summary_result),
    );

    assert_eq!(output.code, ExitCode::Success);
    let stdout = output.stdout.as_str();
    assert!(stdout.starts_with("==== grok ====\nSTATUS"), "{stdout}");
    let header = line_starting_with(stdout, "| WINDOW ");
    for column in ["MEASUREMENT", "USED", "LIMIT", "UNIT", "RESETS_AT"] {
        assert!(header.contains(column), "{stdout}");
    }
    assert!(stdout.contains("| five_hours "), "{stdout}");
    assert!(stdout.contains("| other:seven_day_opus "), "{stdout}");
    assert!(!stdout.contains('█'), "{stdout}");
    assert!(!stdout.contains("[########"), "{stdout}");
    assert!(!stdout.contains("remains"), "{stdout}");
}

#[test]
fn raw_is_a_no_op_for_json_and_pretty_json_output() {
    for format in ["json", "pretty-json"] {
        let plain = run_from(
            ["ullage", "--output", format, "show", "primary"],
            &MockClient::new(snapshot_result),
        );
        let raw = run_from(
            ["ullage", "--output", format, "--raw", "show", "primary"],
            &MockClient::new(snapshot_result),
        );
        assert_eq!(plain.stdout, raw.stdout, "{format} output changed");
        assert_eq!(plain.code, raw.code);
        assert!(!plain.stdout.contains('█'), "{}", plain.stdout);
        assert!(!plain.stdout.contains("[########"), "{}", plain.stdout);
    }
}

#[test]
fn the_summary_reports_partial_results_and_keeps_the_partial_exit_code() {
    fn responder(request: &ControlRequest) -> Result<ControlResponse, ClientError> {
        Ok(response(
            request,
            ControlResult::Snapshots(vec![snapshot(
                "primary",
                QueryOutcome::Partial {
                    data: summarizable_usage(),
                    failures: vec![PartialFailure {
                        scope: "secret-scope".into(),
                        message: "sensitive detail".into(),
                    }],
                },
            )]),
        ))
    }
    let output = run_from(
        ["ullage", "--color", "never", "show", "primary"],
        &MockClient::new(responder),
    );

    assert_eq!(output.code, ExitCode::Partial);
    assert!(
        output.stdout.contains(
            "! 1 item(s) unavailable (--raw for raw data, --diagnose for error details)\n"
        ),
        "{}",
        output.stdout
    );
    assert!(
        !output.stdout.contains("sensitive detail"),
        "{}",
        output.stdout
    );
}

#[test]
fn diagnose_surfaces_partial_failure_scope_and_category() {
    let hidden = run_from(
        ["ullage", "--color", "never", "show", "primary"],
        &MockClient::new(partial_profile_incompatible),
    );
    assert_eq!(hidden.code, ExitCode::Partial);
    assert!(hidden.stdout.contains("[redacted]") || hidden.stdout.contains("unavailable"));
    assert!(
        !hidden
            .stdout
            .contains("profile: provider protocol response is incompatible"),
        "{}",
        hidden.stdout
    );

    let shown = run_from(
        [
            "ullage",
            "--color",
            "never",
            "--diagnose",
            "show",
            "primary",
        ],
        &MockClient::new(partial_profile_incompatible),
    );
    assert_eq!(shown.code, ExitCode::Partial);
    assert!(
        shown
            .stdout
            .contains("profile: provider protocol response is incompatible"),
        "{}",
        shown.stdout
    );

    let failures = |json: JsonAnswer| match json.result {
        ControlResult::Snapshots(mut snapshots) => match snapshots.remove(0).usage {
            QueryOutcome::Partial { failures, .. } => failures,
            QueryOutcome::Complete { .. } => panic!("the snapshot is complete"),
        },
        other => panic!("{other:?} holds no snapshots"),
    };

    let json_hidden = json_from(
        ["ullage", "--output", "json", "show", "primary"],
        &MockClient::new(partial_profile_incompatible),
    );
    assert_eq!(json_hidden.code, ExitCode::Partial);
    assert_eq!(
        failures(json_hidden),
        [PartialFailure {
            scope: "[redacted]".into(),
            message: "[redacted]".into(),
        }]
    );

    let json_shown = json_from(
        [
            "ullage",
            "--diagnose",
            "--output",
            "json",
            "show",
            "primary",
        ],
        &MockClient::new(partial_profile_incompatible),
    );
    assert_eq!(json_shown.code, ExitCode::Partial);
    assert_eq!(
        failures(json_shown),
        [PartialFailure {
            scope: "profile".into(),
            message: "provider protocol response is incompatible".into(),
        }]
    );
}

#[test]
fn diagnose_surfaces_partial_failures_on_probe() {
    fn responder(request: &ControlRequest) -> Result<ControlResponse, ClientError> {
        Ok(response(
            request,
            ControlResult::Probe(ProbePayload {
                account_id: "primary".into(),
                usage: QueryOutcome::Partial {
                    data: summarizable_usage(),
                    failures: vec![PartialFailure {
                        scope: "usage".into(),
                        message: "provider network request failed".into(),
                    }],
                },
                metrics: Vec::new(),
            }),
        ))
    }
    let hidden = run_from(
        ["ullage", "--color", "never", "probe", "primary"],
        &MockClient::new(responder),
    );
    assert_eq!(hidden.code, ExitCode::Partial);
    assert!(
        !hidden
            .stdout
            .contains("usage: provider network request failed"),
        "{}",
        hidden.stdout
    );

    let shown = run_from(
        [
            "ullage",
            "--color",
            "never",
            "--diagnose",
            "probe",
            "primary",
        ],
        &MockClient::new(responder),
    );
    assert_eq!(shown.code, ExitCode::Partial);
    assert!(
        shown
            .stdout
            .contains("usage: provider network request failed"),
        "{}",
        shown.stdout
    );
}

#[test]
fn diagnose_does_not_print_ansi_from_partial_failure_scope() {
    fn responder(request: &ControlRequest) -> Result<ControlResponse, ClientError> {
        Ok(response(
            request,
            ControlResult::Snapshots(vec![snapshot(
                "primary",
                QueryOutcome::Partial {
                    data: summarizable_usage(),
                    failures: vec![PartialFailure {
                        scope: "profile\u{1b}[31m".into(),
                        message: "provider protocol response is incompatible".into(),
                    }],
                },
            )]),
        ))
    }
    let output = run_from(
        [
            "ullage",
            "--color",
            "never",
            "--diagnose",
            "show",
            "primary",
        ],
        &MockClient::new(responder),
    );
    assert_eq!(output.code, ExitCode::Partial);
    assert!(!output.stdout.contains('\u{1b}'), "{}", output.stdout);
    assert!(!output.stderr.contains('\u{1b}'), "{}", output.stderr);
    assert!(
        output
            .stdout
            .contains("[redacted]: provider protocol response is incompatible"),
        "{}",
        output.stdout
    );
}

#[test]
fn a_stale_snapshot_is_still_called_out_in_the_summary() {
    fn responder(request: &ControlRequest) -> Result<ControlResponse, ClientError> {
        let mut payload = snapshot(
            "primary",
            QueryOutcome::Complete {
                data: summarizable_usage(),
            },
        );
        payload.stale = true;
        payload.last_error = Some(SanitizedErrorPayload::Network);
        payload.last_error_at = Some(at(2026, 8, 27, 12, 1, 0));
        Ok(response(request, ControlResult::Snapshots(vec![payload])))
    }
    let output = run_from(
        ["ullage", "--color", "never", "show", "primary"],
        &MockClient::new(responder),
    );

    assert!(
        output.stdout.contains("! stale snapshot"),
        "{}",
        output.stdout
    );
}

#[test]
fn a_reached_limit_survives_the_hidden_status_booleans() {
    fn responder(request: &ControlRequest) -> Result<ControlResponse, ClientError> {
        let mut usage = summarizable_usage();
        usage.windows[0].measurements.push(UsageMeasurement {
            name: "limit_reached".into(),
            used: amount(1.0),
            limit: Some(amount(1.0)),
            unit: MeasurementUnit::Other {
                id: "boolean".into(),
                label: "Boolean".into(),
            },
        });
        Ok(response(
            request,
            ControlResult::Snapshots(vec![snapshot(
                "primary",
                QueryOutcome::Complete { data: usage },
            )]),
        ))
    }
    let output = run_from(
        ["ullage", "--color", "never", "show", "primary"],
        &MockClient::new(responder),
    );

    assert!(
        output.stdout.contains("! limit reached\n"),
        "{}",
        output.stdout
    );
    assert!(
        !output.stdout.contains("limit reached  "),
        "the boolean row itself stays in raw output:\n{}",
        output.stdout
    );
}

#[test]
fn an_expiring_subscription_shows_a_single_expiry_line() {
    fn responder(request: &ControlRequest) -> Result<ControlResponse, ClientError> {
        let mut usage = summarizable_usage();
        usage.subscription_expires_at = Some(at(2026, 12, 1, 8, 30, 0));
        Ok(response(
            request,
            ControlResult::Snapshots(vec![snapshot(
                "primary",
                QueryOutcome::Complete { data: usage },
            )]),
        ))
    }
    let output = run_from(
        ["ullage", "--color", "never", "show", "primary"],
        &MockClient::new(responder),
    );

    assert!(
        output.stdout.contains("\nexpires 2026-12-01\n"),
        "{}",
        output.stdout
    );
    let plain = run_from(
        ["ullage", "--color", "never", "show", "primary"],
        &MockClient::new(summary_result),
    );
    assert!(!plain.stdout.contains("expires"), "{}", plain.stdout);
}

#[test]
fn a_low_balance_colors_only_the_progress_bar() {
    fn responder(request: &ControlRequest) -> Result<ControlResponse, ClientError> {
        let mut usage = summarizable_usage();
        usage.windows[0].measurements[0].used = amount(95.0);
        usage.windows[1].measurements[0].used = amount(80.0);
        Ok(response(
            request,
            ControlResult::Snapshots(vec![snapshot(
                "primary",
                QueryOutcome::Complete { data: usage },
            )]),
        ))
    }
    let colored = run_from(
        ["ullage", "--color", "always", "show", "primary"],
        &MockClient::new(responder),
    );
    let plain = run_from(
        ["ullage", "--color", "never", "show", "primary"],
        &MockClient::new(responder),
    );

    assert!(
        colored.stdout.contains("\u{1b}[31m[---------#]\u{1b}[0m"),
        "{}",
        colored.stdout
    );
    assert!(
        colored.stdout.contains("\u{1b}[33m[--------##]\u{1b}[0m"),
        "{}",
        colored.stdout
    );
    assert!(!plain.stdout.contains('\u{1b}'), "{}", plain.stdout);
}

#[test]
fn hostile_provider_strings_never_reach_the_summary_renderer() {
    fn responder(request: &ControlRequest) -> Result<ControlResponse, ClientError> {
        let mut usage = summarizable_usage();
        usage.windows[1].window = UsageWindowKind::Other {
            id: "evil".into(),
            label: "boss\n==== grok - forged ====".into(),
        };
        usage.windows[1].measurements[0].name = "spend\r##########".into();
        Ok(response(
            request,
            ControlResult::Snapshots(vec![snapshot(
                "primary",
                QueryOutcome::Complete { data: usage },
            )]),
        ))
    }
    let output = run_from(
        ["ullage", "--color", "never", "show", "primary"],
        &MockClient::new(responder),
    );

    assert_eq!(output.code, ExitCode::ProtocolError);
    assert!(output.stdout.is_empty(), "{}", output.stdout);
    assert!(!output.stderr.contains("forged"), "{}", output.stderr);
    assert!(!output.stderr.contains('\r'), "{}", output.stderr);
}

#[test]
fn raw_never_widens_what_the_summary_redacts() {
    for arguments in [
        vec!["ullage", "--color", "never", "--raw", "show", "primary"],
        vec!["ullage", "--color", "never", "show", "primary"],
    ] {
        let hidden = run_from(arguments.clone(), &MockClient::new(summary_result));
        assert!(
            !hidden.stdout.contains("person@example.test"),
            "{:?}\n{}",
            arguments,
            hidden.stdout
        );

        let mut revealing = arguments.clone();
        revealing.insert(1, "--reveal");
        let revealed = run_from(revealing, &MockClient::new(summary_result));
        assert_eq!(
            revealed.stdout.contains("person@example.test"),
            arguments.contains(&"--raw"),
            "the account label is a raw-table field either way:\n{}",
            revealed.stdout
        );
    }
}

#[test]
fn a_summary_without_readable_rows_falls_back_to_the_raw_table() {
    fn responder(request: &ControlRequest) -> Result<ControlResponse, ClientError> {
        let mut usage = empty_usage();
        usage.windows.push(UsageWindow {
            window: UsageWindowKind::FiveHours,
            resets_at: None,
            measurements: vec![UsageMeasurement {
                name: "allowed".into(),
                used: amount(1.0),
                limit: Some(amount(1.0)),
                unit: MeasurementUnit::Other {
                    id: "boolean".into(),
                    label: "Boolean".into(),
                },
            }],
        });
        Ok(response(
            request,
            ControlResult::Snapshots(vec![snapshot(
                "primary",
                QueryOutcome::Complete { data: usage },
            )]),
        ))
    }
    let output = run_from(
        ["ullage", "--color", "never", "show", "primary"],
        &MockClient::new(responder),
    );

    let stdout = output.stdout.as_str();
    assert!(
        stdout.contains("! no summarized metrics available; showing raw data\n"),
        "{stdout}"
    );
    let header = line_starting_with(stdout, "| WINDOW ");
    assert!(header.contains("MEASUREMENT"), "{stdout}");
    assert!(stdout.contains("| allowed "), "{stdout}");
}

#[test]
fn the_raw_fallback_still_carries_stale_partial_and_limit_notices() {
    fn responder(request: &ControlRequest) -> Result<ControlResponse, ClientError> {
        let mut usage = empty_usage();
        usage.windows.push(UsageWindow {
            window: UsageWindowKind::FiveHours,
            resets_at: None,
            measurements: vec![
                UsageMeasurement {
                    name: "allowed".into(),
                    used: amount(0.0),
                    limit: Some(amount(1.0)),
                    unit: MeasurementUnit::Other {
                        id: "boolean".into(),
                        label: "Boolean".into(),
                    },
                },
                UsageMeasurement {
                    name: "has_credits".into(),
                    used: amount(1.0),
                    limit: Some(amount(1.0)),
                    unit: MeasurementUnit::Other {
                        id: "boolean".into(),
                        label: "Boolean".into(),
                    },
                },
            ],
        });
        Ok(response(
            request,
            ControlResult::Snapshots(vec![SnapshotPayload {
                account_id: "primary".into(),
                usage: QueryOutcome::Partial {
                    data: usage,
                    failures: vec![PartialFailure {
                        scope: "secret-scope".into(),
                        message: "sensitive detail".into(),
                    }],
                },
                last_success_at: at(2026, 8, 27, 12, 0, 0),
                stale: true,
                last_error: Some(SanitizedErrorPayload::Network),
                last_error_at: Some(at(2026, 8, 27, 12, 1, 0)),
                metrics: Vec::new(),
            }]),
        ))
    }
    let output = run_from(
        ["ullage", "--color", "never", "show", "primary"],
        &MockClient::new(responder),
    );

    assert_eq!(output.code, ExitCode::Partial);
    let stdout = output.stdout.as_str();
    assert!(
        stdout.contains("! no summarized metrics available; showing raw data\n"),
        "{stdout}"
    );
    assert!(stdout.contains("| allowed "), "{stdout}");
    assert!(stdout.contains("! stale snapshot"), "{stdout}");
    assert!(stdout.contains("! limit reached\n"), "{stdout}");
    assert!(stdout.contains("! 1 item(s) unavailable"), "{stdout}");
    assert!(stdout.contains("LAST_ERROR"), "{stdout}");
    assert!(!stdout.contains("sensitive detail"), "{stdout}");
}

#[test]
fn a_window_reporting_only_a_switched_off_flag_still_shows_that_state() {
    fn responder(request: &ControlRequest) -> Result<ControlResponse, ClientError> {
        let mut usage = summarizable_usage();
        usage.windows.push(UsageWindow {
            window: UsageWindowKind::Other {
                id: "on_demand".into(),
                label: "On-demand usage".into(),
            },
            resets_at: None,
            measurements: vec![UsageMeasurement {
                name: "enabled".into(),
                used: amount(0.0),
                limit: Some(amount(1.0)),
                unit: MeasurementUnit::Other {
                    id: "boolean".into(),
                    label: "Enabled".into(),
                },
            }],
        });
        Ok(response(
            request,
            ControlResult::Snapshots(vec![snapshot(
                "primary",
                QueryOutcome::Complete { data: usage },
            )]),
        ))
    }
    let output = run_from(
        ["ullage", "--color", "never", "show", "primary"],
        &MockClient::new(responder),
    );

    let status = line_starting_with(&output.stdout, "On-demand usage");
    assert!(status.contains("status"), "{}", output.stdout);
    assert!(status.contains("disabled"), "{}", output.stdout);
}

#[test]
fn probe_shares_the_summary_view_and_its_raw_escape_hatch() {
    fn responder(request: &ControlRequest) -> Result<ControlResponse, ClientError> {
        Ok(response(
            request,
            ControlResult::Probe(ProbePayload {
                account_id: "primary".into(),
                usage: QueryOutcome::Complete {
                    data: summarizable_usage(),
                },
                metrics: Vec::new(),
            }),
        ))
    }
    let summary = run_from(
        ["ullage", "--color", "never", "probe", "primary"],
        &MockClient::new(responder),
    );
    let raw = run_from(
        ["ullage", "--color", "never", "--raw", "probe", "primary"],
        &MockClient::new(responder),
    );

    assert!(
        summary.stdout.starts_with("==== grok - pro ====\n"),
        "{}",
        summary.stdout
    );
    assert!(summary.stdout.contains("remains 97%"), "{}", summary.stdout);
    assert!(raw.stdout.starts_with("PROVIDER"), "{}", raw.stdout);
    let header = line_starting_with(&raw.stdout, "| WINDOW ");
    for column in ["MEASUREMENT", "USED", "LIMIT", "UNIT", "RESETS_AT"] {
        assert!(header.contains(column), "{}", raw.stdout);
    }
    assert!(!raw.stdout.contains('█'), "{}", raw.stdout);
}

#[test]
fn raw_table_output_is_byte_stable() {
    fn responder(request: &ControlRequest) -> Result<ControlResponse, ClientError> {
        let mut usage = empty_usage();
        usage.windows.push(UsageWindow {
            window: UsageWindowKind::FiveHours,
            resets_at: Some(at(2026, 8, 27, 15, 57, 0)),
            measurements: vec![UsageMeasurement {
                name: "included_usage".into(),
                used: amount(3.0),
                limit: Some(amount(100.0)),
                unit: MeasurementUnit::Percent,
            }],
        });
        Ok(response(
            request,
            ControlResult::Snapshots(vec![snapshot(
                "primary",
                QueryOutcome::Complete { data: usage },
            )]),
        ))
    }
    let output = run_from(
        ["ullage", "--color", "never", "--raw", "show", "primary"],
        &MockClient::new(responder),
    );

    assert_eq!(output.code, ExitCode::Success);
    assert_eq!(
        output.stdout,
        [
            "==== grok ====\n",
            "STATUS         current\n",
            "PROVIDER       grok\n",
            "ACCOUNT_LABEL  [redacted]\n",
            "PLAN           pro\n",
            "OBSERVED_AT    2026-08-27T12:00:00+00:00\n",
            "EXPIRES_AT     -\n",
            "+------------+----------------+------+-------+---------+---------------------------+\n",
            "| WINDOW     | MEASUREMENT    | USED | LIMIT | UNIT    | RESETS_AT                 |\n",
            "+------------+----------------+------+-------+---------+---------------------------+\n",
            "| five_hours | included_usage |    3 |   100 | percent | 2026-08-27T15:57:00+00:00 |\n",
            "+------------+----------------+------+-------+---------+---------------------------+\n",
        ]
        .concat()
    );
}

fn bare_usage(provider: &str) -> SubscriptionUsage {
    SubscriptionUsage {
        provider: ProviderId::new(provider),
        account_label: None,
        plan: None,
        subscription_expires_at: None,
        observed_at: at(2026, 8, 27, 12, 0, 0),
        windows: Vec::new(),
    }
}

fn bare_snapshot(account_id: &str, provider: &str) -> SnapshotPayload {
    snapshot(
        account_id,
        QueryOutcome::Complete {
            data: bare_usage(provider),
        },
    )
}

/// The snapshots as they are printed without colours.
fn shown_snapshots(
    snapshots: Vec<SnapshotPayload>,
    reveal: bool,
    raw: bool,
    diagnose: bool,
) -> String {
    let choice = MetricFilterChoice::Persisted;
    let blocks = render_snapshots(&snapshots, reveal, raw, diagnose, &choice, &NOW);
    draw_document(
        &written_out(&blocks, &NOW),
        Palette::resolve(ColorMode::Never, false, None),
    )
}

#[test]
fn snapshot_headers_redact_control_characters_in_ids() {
    let output = shown_snapshots(
        vec![
            bare_snapshot(
                "good\r==== ACCOUNT evil (x) ====\u{1b}[31m",
                "grok\n==== ACCOUNT forged (x) ====",
            ),
            bare_snapshot("second", "grok\n==== ACCOUNT forged (x) ===="),
        ],
        false,
        true,
        false,
    );
    assert!(
        output.starts_with("==== [redacted] - [redacted] ====\n"),
        "{output}"
    );
    assert_eq!(
        output.lines().filter(|line| line.contains("====")).count(),
        2,
        "{output}"
    );
    assert!(!output.contains("evil"), "{output}");
    assert!(!output.contains("forged"), "{output}");
    assert!(!output.contains('\u{1b}'), "{output}");
    assert!(!output.contains('\r'), "{output}");
}

#[test]
fn snapshot_headers_read_provider_from_partial_outcomes() {
    let snapshots = vec![SnapshotPayload {
        account_id: "primary".into(),
        usage: QueryOutcome::Partial {
            data: bare_usage("cursor"),
            failures: Vec::new(),
        },
        last_success_at: at(2026, 8, 27, 12, 0, 0),
        stale: false,
        last_error: None,
        last_error_at: None,
        metrics: Vec::new(),
    }];
    let output = shown_snapshots(
        snapshots,
        false,
        true,
        false,
    );
    assert!(output.starts_with("==== cursor ====\n"), "{output}");
}

#[test]
fn summary_headers_redact_control_characters_in_ids_and_plans() {
    let mut data = bare_usage("grok\n==== ACCOUNT forged (x) ====");
    data.plan = Some("pro\u{1b}[31m".into());
    let output = shown_snapshots(
        vec![SnapshotPayload {
            account_id: "good\r==== ACCOUNT evil (x) ====".into(),
            usage: QueryOutcome::Complete { data },
            last_success_at: at(2026, 8, 27, 12, 0, 0),
            stale: false,
            last_error: None,
            last_error_at: None,
            metrics: Vec::new(),
        }],
        false,
        false,
        false,
    );
    assert!(
        output.starts_with("==== [redacted] - [redacted] ====\n"),
        "{output}"
    );
    assert_eq!(
        output.lines().filter(|line| line.contains("====")).count(),
        1,
        "{output}"
    );
    assert!(!output.contains("evil"), "{output}");
    assert!(!output.contains("forged"), "{output}");
    assert!(!output.contains('\u{1b}'), "{output}");
    assert!(!output.contains('\r'), "{output}");
}

#[test]
fn summary_headers_omit_an_absent_plan() {
    let output = shown_snapshots(
        vec![bare_snapshot("primary", "grok")],
        false,
        false,
        false,
    );
    assert!(output.starts_with("==== grok ====\n"), "{output}");
}

#[test]
fn snapshots_group_accounts_by_provider() {
    let output = shown_snapshots(
        vec![
            bare_snapshot("first", "grok"),
            bare_snapshot("solo", "cursor"),
            bare_snapshot("second", "grok"),
        ],
        false,
        false,
        false,
    );
    let first = output.find("==== grok - first ====").unwrap();
    let second = output.find("==== grok - second ====").unwrap();
    let solo = output.find("==== cursor ====").unwrap();
    assert!(first < second && second < solo, "{output}");
}

#[test]
fn headers_name_the_account_only_when_a_provider_repeats() {
    let output = shown_snapshots(
        vec![
            bare_snapshot("first", "grok"),
            bare_snapshot("second", "grok"),
            bare_snapshot("solo", "cursor"),
        ],
        false,
        false,
        false,
    );
    assert!(output.contains("==== grok - first ====\n"), "{output}");
    assert!(output.contains("==== grok - second ====\n"), "{output}");
    assert!(output.contains("==== cursor ====\n"), "{output}");
}

#[test]
fn a_snapshot_without_summarizable_data_falls_back_to_the_raw_table() {
    let output = shown_snapshots(
        vec![bare_snapshot("primary", "grok")],
        false,
        false,
        false,
    );
    assert!(
        output.contains("! no summarized metrics available; showing raw data\n"),
        "{output}"
    );
    assert!(output.contains("| WINDOW | MEASUREMENT |"), "{output}");
}

#[test]
fn diagnose_redacts_control_characters_in_partial_failure_scope() {
    let snapshots = vec![SnapshotPayload {
        account_id: "primary".into(),
        usage: QueryOutcome::Partial {
            data: bare_usage("grok"),
            failures: vec![PartialFailure {
                scope: "profile\u{1b}[31m".into(),
                message: "provider protocol response is incompatible".into(),
            }],
        },
        last_success_at: at(2026, 8, 27, 12, 0, 0),
        stale: false,
        last_error: None,
        last_error_at: None,
        metrics: Vec::new(),
    }];
    let output = shown_snapshots(
        snapshots,
        false,
        false,
        true,
    );
    assert!(!output.contains('\u{1b}'), "{output}");
    assert!(!output.contains("[31m"), "{output}");
    assert!(output.contains("[redacted]"), "{output}");
}

#[test]
fn grok_format_credits_percent_renders_remaining_ratio_and_progress_bar() {
    let mut usage = bare_usage("test");
    usage.observed_at = at(2026, 8, 30, 6, 0, 0);
    usage.windows = vec![UsageWindow {
        window: UsageWindowKind::Weekly,
        resets_at: Some(Timestamp {
            seconds: at(2026, 9, 4, 1, 18, 4).seconds,
            nanos: 90_314_000,
        }),
        measurements: vec![
            percent("weekly_pool", 61.0),
            percent("product:GrokBuild", 61.0),
        ],
    }];
    let summary = summarize(&usage);

    assert_eq!(summary.rows[0].window, "weekly");
    assert_eq!(summary.rows[0].metric, "usage");
    assert_eq!(figure_text(&wording(&summary.rows[0]).figure), "39%");
    assert!(matches!(
        summary.rows[0].value,
        SummaryValue::Remains { .. }
    ));
    assert_eq!(remaining_ratio(&summary.rows[0]), Some(0.39));
    assert_eq!(summary.rows[1].metric, "GrokBuild");
    assert_eq!(figure_text(&wording(&summary.rows[1]).figure), "39%");
    assert_eq!(remaining_ratio(&summary.rows[1]), Some(0.39));

    let now = at(2026, 8, 30, 6, 0, 0);
    let rendered = draw_document(
        &written_out(&[Block::Rows(summary.rows)], &now),
        Palette::resolve(ColorMode::Never, false, None),
    );
    assert!(
        rendered.contains("remains") && rendered.contains("39%"),
        "remaining percent missing from rendered summary: {rendered:?}"
    );
    assert!(
        rendered.contains('[') && rendered.contains('#') && rendered.contains(']'),
        "progress bar missing from rendered summary: {rendered:?}"
    );
}

/// A client that only sends.
struct BareClient;

impl ControlClient for BareClient {
    fn send(&self, _: &ControlRequest) -> Result<ControlResponse, ClientError> {
        Err(ClientError::DaemonUnavailable)
    }
}

#[test]
fn a_client_that_only_sends_manages_nothing() {
    for (command, kind) in [
        (DaemonCommand::Run, "daemon_process_failed"),
        (DaemonCommand::Install, "daemon_service_failed"),
        (DaemonCommand::Status, "daemon_unavailable"),
    ] {
        let cli = Cli {
            output: OutputFormat::Table,
            color: ColorMode::Never,
            reveal: false,
            raw: false,
            diagnose: false,
            command: Command::Daemon { command },
        };
        let conclusion = execute_with(&cli, &BareClient, || NOW, &None, false, "id", VERSION);
        assert!(matches!(
            conclusion,
            Conclusion::Print(Rendered::Failed(output)) if output.stderr.contains(kind)
        ));
    }
}

#[test]
fn every_table_has_a_cell_for_each_column() {
    let account = || Account {
        id: AccountId::new("primary"),
        provider: ProviderId::new("grok"),
        label: None,
        enabled: true,
        metrics: Vec::new(),
    };
    let results = [
        ControlResult::Providers(vec![ProviderDescriptor {
            id: ProviderId::new("grok"),
            display_name: "Grok".into(),
            capabilities: Vec::new(),
        }]),
        ControlResult::Accounts(vec![account(), account()]),
        ControlResult::Account(account()),
        ControlResult::Devices(vec![DevicePayload {
            id: "DEVICE123456".into(),
            name: "client-host".into(),
            created_at: NOW,
            last_seen_at: NOW,
        }]),
        ControlResult::Snapshots(vec![snapshot(
            "primary",
            QueryOutcome::Complete {
                data: summarizable_usage(),
            },
        )]),
    ];
    for result in results {
        let blocks = human_result(&result, false, true, false, &RenderView::persisted(), &NOW);
        let mut tables = 0;
        for block in &blocks {
            if let Block::Table { columns, rows } = block {
                tables += 1;
                assert!(!rows.is_empty(), "{result:?}");
                assert!(rows.iter().all(|row| row.len() == columns.len()), "{result:?}");
            }
        }
        assert_eq!(tables, 1, "{result:?}");
    }
}
