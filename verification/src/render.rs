//! Human-readable rendering of control results.
//!
//! Every text is made safe before it is put into the document, so provider
//! strings can never smuggle terminal controls into the output.

pub mod laws;

use vstd::prelude::*;
use vstd::string::StringExecFns;

use crate::cli::OutputFormat;
use crate::clock;
use crate::document;
use crate::document::{
    push_block, push_cell, push_line, push_pair, push_row, Block, BlockView, Cell, CellView, Pair,
    PairView, Style,
};
use crate::error::{PartialFailure, QueryOutcome};
use crate::errors;
use crate::errors::{ExitCode, RunOutput};
use crate::identity;
use crate::protocol::{
    Account, AccountStatusPayload, AuthChallenge, AuthMethod, AuthState, ControlResult,
    CredentialBackendId, DaemonStatusPayload, DevicePayload, PairCodePayload, ProbePayload,
    SnapshotPayload,
};
use crate::provider::{Capability, ProviderDescriptor};
use crate::redact;
use crate::redact::{display_sensitive, sanitize_cell};
use crate::summary;
use crate::summary::filter;
use crate::summary::filter::{summarize_under, MetricFilter, MetricFilterMode};
use crate::summary::{summarize, UsageSummary};
use crate::text;
use crate::usage::{
    MeasurementUnit, SubscriptionUsage, Timestamp, UsageMeasurement, UsageWindow, UsageWindowKind,
};
use crate::validate::clone_texts;

verus! {

/// Which metric filter the readable summary applies to stored snapshots.
#[derive(Debug)]
pub enum MetricFilterChoice {
    /// Apply each account's persisted filter as a hide list; the default for
    /// `show` and `probe`.
    Persisted,
    /// Apply one filter as a keep list to every account: `--metric` or
    /// `--no-metric-filter`.
    Explicit(MetricFilter),
}

impl Default for MetricFilterChoice {
    fn default() -> (result: Self)
        ensures
            result is Persisted,
    {
        MetricFilterChoice::Persisted
    }
}

/// A metric filter resolved for one account: the names plus the polarity of
/// the entry that supplied them.
///
/// `--metric` and `--no-metric-filter` resolve to a keep list, the persisted
/// `account.metrics` value to a hide list.
#[derive(Debug)]
pub struct ResolvedMetricFilter {
    pub filter: MetricFilter,
    pub mode: MetricFilterMode,
}

/// The names of the filter the daemon stored for an account; none where the
/// stored value is not one a filter accepts.
pub open spec fn saved_names(saved: Seq<Seq<char>>) -> Seq<Seq<char>> {
    if crate::validate::acceptable(saved) {
        filter::normalized(saved)
    } else {
        Seq::empty()
    }
}

/// The filter the daemon stored for an account.
///
/// Stored names are validated when they are written and when the configuration
/// loads; an unexpected value leaves the filter inactive rather than panicking
/// while rendering.
pub fn persisted_metric_filter(saved: &Vec<String>) -> (result: MetricFilter)
    ensures
        result@ == saved_names(filter::text_views(saved@)),
{
    match MetricFilter::new(clone_texts(saved)) {
        Ok(filter) => filter,
        Err(_) => MetricFilter::default(),
    }
}

/// The names a choice applies to an account with those stored names.
pub open spec fn chosen_names(choice: MetricFilterChoice, saved: Seq<String>) -> Seq<Seq<char>> {
    match choice {
        MetricFilterChoice::Explicit(filter) => filter@,
        MetricFilterChoice::Persisted => saved_names(filter::text_views(saved)),
    }
}

/// Whether a choice keeps or hides what it names.
pub open spec fn chosen_mode(choice: MetricFilterChoice) -> MetricFilterMode {
    match choice {
        MetricFilterChoice::Explicit(_) => MetricFilterMode::Keep,
        MetricFilterChoice::Persisted => MetricFilterMode::Hide,
    }
}

impl MetricFilterChoice {
    /// The filter for an account with those stored names.
    pub fn for_saved(&self, saved: &Vec<String>) -> (result: ResolvedMetricFilter)
        ensures
            result.filter@ == chosen_names(*self, saved@),
            result.mode == chosen_mode(*self),
    {
        match self {
            MetricFilterChoice::Explicit(filter) => ResolvedMetricFilter::explicit(
                filter.clone(),
            ),
            MetricFilterChoice::Persisted => ResolvedMetricFilter::persisted(saved),
        }
    }
}

impl ResolvedMetricFilter {
    /// One filter for every account, applied as a keep list.
    pub fn explicit(filter: MetricFilter) -> (result: Self)
        ensures
            result.filter@ == filter@,
            result.mode == MetricFilterMode::Keep,
    {
        ResolvedMetricFilter { filter, mode: MetricFilterMode::Keep }
    }

    /// The persisted per-account filter, applied as a hide list.
    pub fn persisted(saved: &Vec<String>) -> (result: Self)
        ensures
            result.filter@ == saved_names(filter::text_views(saved@)),
            result.mode == MetricFilterMode::Hide,
    {
        ResolvedMetricFilter {
            filter: persisted_metric_filter(saved),
            mode: MetricFilterMode::Hide,
        }
    }

    /// The readable summary for one account under this filter.
    pub fn summarize(&self, usage: &SubscriptionUsage) -> (result: UsageSummary)
        ensures
            summary::row_views(result.rows@) == filter::rows_under(
                summary::report_rows(usage.windows@),
                self.filter@,
                self.mode,
            ),
            result.limit_reached == summary::any_limit_hit(usage.windows@),
            result.observed_at == usage.observed_at,
            result.expires_at == usage.subscription_expires_at,
    {
        summarize_under(usage, &self.filter, self.mode)
    }

    /// The normalized names, in first-seen order.
    pub fn names(&self) -> (result: &[String])
        ensures
            filter::text_views(result@) == self.filter@,
    {
        self.filter.names()
    }
}

/// The readable-view choices that one command resolved before rendering.
#[derive(Debug)]
pub struct RenderView {
    pub metric_choice: MetricFilterChoice,
    /// True only for the account views that own the metric filter.
    pub account_with_metrics: bool,
}

impl RenderView {
    /// Persisted filters and the mutation account table: the login flow view.
    pub fn persisted() -> (result: Self)
        ensures
            result.metric_choice is Persisted,
            !result.account_with_metrics,
    {
        RenderView { metric_choice: MetricFilterChoice::Persisted, account_with_metrics: false }
    }
}

/// The name of a capability.
pub open spec fn capability_text(capability: Capability) -> Seq<char> {
    match capability {
        Capability::Authentication => "authentication"@,
        Capability::AuthenticationStatus => "authentication_status"@,
        Capability::Logout => "logout"@,
        Capability::UsageQuery => "usage_query"@,
        Capability::SubscriptionExpiry => "subscription_expiry"@,
        Capability::WorkspaceSelection => "workspace_selection"@,
        Capability::Other(id) => "other:"@ + redact::cell_text(id@),
    }
}

/// The name of a capability.
pub fn capability_name(capability: &Capability) -> (result: String)
    ensures
        result@ == capability_text(*capability),
{
    match capability {
        Capability::Authentication => "authentication".to_owned(),
        Capability::AuthenticationStatus => "authentication_status".to_owned(),
        Capability::Logout => "logout".to_owned(),
        Capability::UsageQuery => "usage_query".to_owned(),
        Capability::SubscriptionExpiry => "subscription_expiry".to_owned(),
        Capability::WorkspaceSelection => "workspace_selection".to_owned(),
        Capability::Other(id) => text::join2("other:", sanitize_cell(id.as_str())),
    }
}

/// The name of a sign-in method.
pub open spec fn method_text(method: AuthMethod) -> Seq<char> {
    match method {
        AuthMethod::BrowserOAuth => "browser_oauth"@,
        AuthMethod::DeviceCode => "device_code"@,
        AuthMethod::ApiToken => "api_token"@,
        AuthMethod::SessionImport => "session_import"@,
        AuthMethod::Other(id) => "other:"@ + redact::cell_text(id@),
    }
}

/// The name of a sign-in method.
pub fn auth_method_name(method: &AuthMethod) -> (result: String)
    ensures
        result@ == method_text(*method),
{
    match method {
        AuthMethod::BrowserOAuth => "browser_oauth".to_owned(),
        AuthMethod::DeviceCode => "device_code".to_owned(),
        AuthMethod::ApiToken => "api_token".to_owned(),
        AuthMethod::SessionImport => "session_import".to_owned(),
        AuthMethod::Other(id) => text::join2("other:", sanitize_cell(id.as_str())),
    }
}

/// The identifier of a window.
pub open spec fn window_text(window: UsageWindowKind) -> Seq<char> {
    match window {
        UsageWindowKind::FiveHours => "five_hours"@,
        UsageWindowKind::Weekly => "weekly"@,
        UsageWindowKind::Monthly => "monthly"@,
        UsageWindowKind::Other { id, .. } => "other:"@ + redact::cell_text(id@),
    }
}

/// The identifier of a window.
pub fn window_name(window: &UsageWindowKind) -> (result: String)
    ensures
        result@ == window_text(*window),
{
    match window {
        UsageWindowKind::FiveHours => "five_hours".to_owned(),
        UsageWindowKind::Weekly => "weekly".to_owned(),
        UsageWindowKind::Monthly => "monthly".to_owned(),
        UsageWindowKind::Other { id, .. } => text::join2("other:", sanitize_cell(id.as_str())),
    }
}

/// The identifier of a unit.
pub open spec fn unit_text(unit: MeasurementUnit) -> Seq<char> {
    match unit {
        MeasurementUnit::Requests => "requests"@,
        MeasurementUnit::Tokens => "tokens"@,
        MeasurementUnit::Percent => "percent"@,
        MeasurementUnit::Credits => "credits"@,
        MeasurementUnit::Currency { code } => "currency:"@ + redact::cell_text(code@),
        MeasurementUnit::Other { id, .. } => "other:"@ + redact::cell_text(id@),
    }
}

/// The identifier of a unit.
pub fn unit_name(unit: &MeasurementUnit) -> (result: String)
    ensures
        result@ == unit_text(*unit),
{
    match unit {
        MeasurementUnit::Requests => "requests".to_owned(),
        MeasurementUnit::Tokens => "tokens".to_owned(),
        MeasurementUnit::Percent => "percent".to_owned(),
        MeasurementUnit::Credits => "credits".to_owned(),
        MeasurementUnit::Currency { code } => text::join2("currency:", sanitize_cell(code.as_str())),
        MeasurementUnit::Other { id, .. } => text::join2("other:", sanitize_cell(id.as_str())),
    }
}

/// The identifier of a credential store.
pub open spec fn backend_text(backend: CredentialBackendId) -> Seq<char> {
    match backend {
        CredentialBackendId::LinuxSecretService => "linux_secret_service"@,
        CredentialBackendId::MacosKeychain => "macos_keychain"@,
        CredentialBackendId::WindowsCredentialManager => "windows_credential_manager"@,
        CredentialBackendId::FileFallback => "file_fallback"@,
    }
}

fn backend_name(backend: CredentialBackendId) -> (result: &'static str)
    ensures
        result@ == backend_text(backend),
{
    match backend {
        CredentialBackendId::LinuxSecretService => "linux_secret_service",
        CredentialBackendId::MacosKeychain => "macos_keychain",
        CredentialBackendId::WindowsCredentialManager => "windows_credential_manager",
        CredentialBackendId::FileFallback => "file_fallback",
    }
}

/// The texts of the values, as a person reads a yes or no.
pub open spec fn boolean_text(value: bool) -> Seq<char> {
    if value {
        "true"@
    } else {
        "false"@
    }
}

fn boolean_name(value: bool) -> (result: &'static str)
    ensures
        result@ == boolean_text(value),
{
    if value {
        "true"
    } else {
        "false"
    }
}

/// What is shown of an optional text that only `--reveal` shows.
pub open spec fn sensitive_option(value: Option<String>, reveal: bool) -> Seq<char> {
    match value {
        Some(value) => redact::sensitive_text(value@, reveal),
        None => "-"@,
    }
}

fn display_sensitive_option(value: &Option<String>, reveal: bool) -> (result: String)
    ensures
        result@ == sensitive_option(*value, reveal),
{
    match value {
        Some(value) => display_sensitive(value.as_str(), reveal),
        None => "-".to_owned(),
    }
}

/// The stored metric names on one line.
pub open spec fn metrics_text(metrics: Seq<String>) -> Seq<char> {
    if metrics.len() == 0 {
        "-"@
    } else {
        text::joined(filter::text_views(metrics), ", "@)
    }
}

/// The stored metric names on one line.
pub fn metrics_cell(metrics: &Vec<String>) -> (result: String)
    ensures
        result@ == metrics_text(metrics@),
{
    if metrics.is_empty() {
        "-".to_owned()
    } else {
        text::join(metrics, ", ")
    }
}

/// How many of the accounts are being probed.
pub open spec fn active_probes(accounts: Seq<AccountStatusPayload>) -> nat
    decreases accounts.len(),
{
    if accounts.len() == 0 {
        0
    } else {
        active_probes(accounts.drop_last()) + if accounts.last().in_flight {
            1nat
        } else {
            0
        }
    }
}

fn count_active_probes(accounts: &Vec<AccountStatusPayload>) -> (result: usize)
    ensures
        result == active_probes(accounts@),
{
    let mut count: usize = 0;
    let mut index: usize = 0;
    assert(accounts@.take(0) =~= Seq::empty());
    while index < accounts.len()
        invariant
            index <= accounts@.len(),
            count <= index,
            count == active_probes(accounts@.take(index as int)),
        decreases accounts.len() - index,
    {
        assert(accounts@.take(index + 1).drop_last() == accounts@.take(index as int));
        if accounts[index].in_flight {
            count = count + 1;
        }
        index = index + 1;
    }
    assert(accounts@.take(index as int) == accounts@);
    count
}

/// What is shown about the daemon.
pub open spec fn status_pairs(status: DaemonStatusPayload) -> Seq<PairView> {
    seq![
        document::pair(
            "STATUS"@,
            if status.shutting_down {
                document::text_cell("stopping"@, Style::Warning)
            } else {
                document::plain_cell("running"@)
            },
        ),
        document::pair(
            "ACCOUNTS"@,
            document::plain_cell(text::decimal_digits(status.accounts@.len())),
        ),
        document::pair(
            "ACTIVE_PROBES"@,
            document::plain_cell(text::decimal_digits(active_probes(status.accounts@))),
        ),
        document::pair(
            "CREDENTIAL_BACKEND"@,
            document::plain_cell(backend_text(status.credential_backend)),
        ),
    ]
}

/// What is shown about the daemon.
pub fn render_daemon_status(status: &DaemonStatusPayload) -> (result: Block)
    ensures
        result@ == BlockView::Pairs(status_pairs(*status)),
{
    let mut pairs: Vec<Pair> = Vec::new();
    let state = if status.shutting_down {
        Cell::styled("stopping", Style::Warning)
    } else {
        Cell::new("running")
    };
    push_pair(&mut pairs, "STATUS", state);
    push_pair(
        &mut pairs,
        "ACCOUNTS",
        Cell::new(text::decimal(status.accounts.len() as u64).as_str()),
    );
    push_pair(
        &mut pairs,
        "ACTIVE_PROBES",
        Cell::new(text::decimal(count_active_probes(&status.accounts) as u64).as_str()),
    );
    push_pair(
        &mut pairs,
        "CREDENTIAL_BACKEND",
        Cell::new(backend_name(status.credential_backend)),
    );
    assert(document::pair_views(pairs@) =~= status_pairs(*status));
    Block::Pairs(pairs)
}

/// What is shown about a service that does not run.
pub open spec fn stopped_pairs(installed: bool) -> Seq<PairView> {
    seq![
        document::pair("STATUS"@, document::text_cell("stopped"@, Style::Error)),
        document::pair(
            "SERVICE"@,
            document::plain_cell(
                if installed {
                    "installed"@
                } else {
                    "not-installed"@
                },
            ),
        ),
    ]
}

/// What a stopped service is printed as: a document, or the JSON text.
pub enum StoppedService {
    Document(Block),
    Json(String),
}

/// What is told of a daemon that does not run.
pub open spec fn stopped_service_is(
    installed: bool,
    format: OutputFormat,
    result: StoppedService,
) -> bool {
    match format {
        OutputFormat::Table => result matches StoppedService::Document(block) && block@
            == BlockView::Pairs(stopped_pairs(installed)),
        OutputFormat::Json => result matches StoppedService::Json(json) && json@
            == if installed {
            "{\"service\":\"installed\",\"status\":\"stopped\"}\n"@
        } else {
            "{\"service\":\"not_installed\",\"status\":\"stopped\"}\n"@
        },
        OutputFormat::PrettyJson => result matches StoppedService::Json(json) && json@
            == if installed {
            "{\n  \"service\": \"installed\",\n  \"status\": \"stopped\"\n}\n"@
        } else {
            "{\n  \"service\": \"not_installed\",\n  \"status\": \"stopped\"\n}\n"@
        },
    }
}

/// What is printed about a service that does not run. The command still
/// succeeds.
pub fn render_stopped_service(installed: bool, format: OutputFormat) -> (result: StoppedService)
    ensures
        stopped_service_is(installed, format, result),
{
    match format {
        OutputFormat::Table => {
            let mut pairs: Vec<Pair> = Vec::new();
            push_pair(&mut pairs, "STATUS", Cell::styled("stopped", Style::Error));
            let service = if installed {
                "installed"
            } else {
                "not-installed"
            };
            push_pair(&mut pairs, "SERVICE", Cell::new(service));
            assert(document::pair_views(pairs@) =~= stopped_pairs(installed));
            StoppedService::Document(Block::Pairs(pairs))
        },
        OutputFormat::Json => if installed {
            StoppedService::Json("{\"service\":\"installed\",\"status\":\"stopped\"}\n".to_owned())
        } else {
            StoppedService::Json(
                "{\"service\":\"not_installed\",\"status\":\"stopped\"}\n".to_owned(),
            )
        },
        OutputFormat::PrettyJson => if installed {
            StoppedService::Json(
                "{\n  \"service\": \"installed\",\n  \"status\": \"stopped\"\n}\n".to_owned(),
            )
        } else {
            StoppedService::Json(
                "{\n  \"service\": \"not_installed\",\n  \"status\": \"stopped\"\n}\n".to_owned(),
            )
        },
    }
}

/// An empty list of blocks.
fn no_blocks() -> (result: Vec<Block>)
    ensures
        document::block_views(result@) == Seq::<BlockView>::empty(),
{
    let result: Vec<Block> = Vec::new();
    assert(document::block_views(result@) =~= Seq::empty());
    result
}

/// An empty list of pairs.
fn no_pairs() -> (result: Vec<Pair>)
    ensures
        document::pair_views(result@) == Seq::<PairView>::empty(),
{
    let result: Vec<Pair> = Vec::new();
    assert(document::pair_views(result@) =~= Seq::empty());
    result
}

/// An empty list of cells.
fn no_cells() -> (result: Vec<Cell>)
    ensures
        document::cell_views(result@) == Seq::<CellView>::empty(),
{
    let result: Vec<Cell> = Vec::new();
    assert(document::cell_views(result@) =~= Seq::empty());
    result
}

/// An empty list of rows.
fn no_rows() -> (result: Vec<Vec<Cell>>)
    ensures
        document::grid_views(result@) == Seq::<Seq<CellView>>::empty(),
{
    let result: Vec<Vec<Cell>> = Vec::new();
    assert(document::grid_views(result@) =~= Seq::empty());
    result
}

/// The names of the capabilities, in order.
pub open spec fn capability_texts(capabilities: Seq<Capability>) -> Seq<Seq<char>> {
    capabilities.map_values(|capability: Capability| capability_text(capability))
}

fn capability_names(capabilities: &Vec<Capability>) -> (result: Vec<String>)
    ensures
        filter::text_views(result@) == capability_texts(capabilities@),
{
    let mut result: Vec<String> = Vec::new();
    let mut index: usize = 0;
    while index < capabilities.len()
        invariant
            index <= capabilities@.len(),
            result@.len() == index,
            forall|i: int|
                0 <= i < index ==> (#[trigger] result@[i])@ == capability_text(capabilities@[i]),
        decreases capabilities.len() - index,
    {
        result.push(capability_name(&capabilities[index]));
        index = index + 1;
    }
    assert(filter::text_views(result@) =~= capability_texts(capabilities@));
    result
}

/// The row of a provider.
pub open spec fn provider_row(provider: ProviderDescriptor) -> Seq<CellView> {
    seq![
        document::plain_cell(provider.id@),
        document::plain_cell(provider.display_name@),
        document::plain_cell(text::joined(capability_texts(provider.capabilities@), ","@)),
    ]
}

/// The table of providers.
pub open spec fn providers_table(providers: Seq<ProviderDescriptor>) -> BlockView {
    BlockView::Table {
        columns: seq!["PROVIDER"@, "NAME"@, "CAPABILITIES"@],
        rows: providers.map_values(|provider: ProviderDescriptor| provider_row(provider)),
    }
}

fn render_providers(providers: &Vec<ProviderDescriptor>) -> (result: Block)
    ensures
        result@ == providers_table(providers@),
{
    let mut rows = no_rows();
    let mut index: usize = 0;
    while index < providers.len()
        invariant
            index <= providers@.len(),
            document::grid_views(rows@) == providers@.take(index as int).map_values(
                |provider: ProviderDescriptor| provider_row(provider),
            ),
        decreases providers.len() - index,
    {
        let provider = &providers[index];
        let mut cells = no_cells();
        push_cell(&mut cells, Cell::new(provider.id.as_str()));
        push_cell(&mut cells, Cell::new(provider.display_name.as_str()));
        let capabilities = capability_names(&provider.capabilities);
        push_cell(&mut cells, Cell::new(text::join(&capabilities, ",").as_str()));
        assert(document::cell_views(cells@) =~= provider_row(*provider));
        push_row(&mut rows, cells);
        index = index + 1;
        assert(providers@.take(index as int).map_values(
            |provider: ProviderDescriptor| provider_row(provider),
        ) =~= providers@.take(index - 1).map_values(
            |provider: ProviderDescriptor| provider_row(provider),
        ).push(provider_row(*provider)));
    }
    assert(providers@.take(index as int) == providers@);
    let columns: Vec<&'static str> = vec!["PROVIDER", "NAME", "CAPABILITIES"];
    assert(document::column_views(columns@) =~= seq!["PROVIDER"@, "NAME"@, "CAPABILITIES"@]);
    Block::Table { columns, rows }
}

/// The row of an account in the list of accounts.
pub open spec fn account_row(account: Account, reveal: bool) -> Seq<CellView> {
    seq![
        document::plain_cell(account.id@),
        document::plain_cell(account.provider@),
        document::plain_cell(sensitive_option(account.label, reveal)),
        document::plain_cell(boolean_text(account.enabled)),
        document::plain_cell(metrics_text(account.metrics@)),
    ]
}

/// The table of accounts.
pub open spec fn accounts_table(accounts: Seq<Account>, reveal: bool) -> BlockView {
    BlockView::Table {
        columns: seq!["ACCOUNT"@, "PROVIDER"@, "LABEL"@, "ENABLED"@, "METRICS"@],
        rows: accounts.map_values(|account: Account| account_row(account, reveal)),
    }
}

/// The table of accounts.
pub fn render_accounts(accounts: &Vec<Account>, reveal: bool) -> (result: Block)
    ensures
        result@ == accounts_table(accounts@, reveal),
{
    let mut rows = no_rows();
    let mut index: usize = 0;
    while index < accounts.len()
        invariant
            index <= accounts@.len(),
            document::grid_views(rows@) == accounts@.take(index as int).map_values(
                |account: Account| account_row(account, reveal),
            ),
        decreases accounts.len() - index,
    {
        let account = &accounts[index];
        let mut cells = no_cells();
        push_cell(&mut cells, Cell::new(account.id.as_str()));
        push_cell(&mut cells, Cell::new(account.provider.as_str()));
        push_cell(&mut cells, label_cell(account, reveal));
        push_cell(&mut cells, Cell::new(boolean_name(account.enabled)));
        push_cell(&mut cells, Cell::new(metrics_cell(&account.metrics).as_str()));
        assert(document::cell_views(cells@) =~= account_row(*account, reveal));
        push_row(&mut rows, cells);
        index = index + 1;
        assert(accounts@.take(index as int).map_values(
            |account: Account| account_row(account, reveal),
        ) =~= accounts@.take(index - 1).map_values(
            |account: Account| account_row(account, reveal),
        ).push(account_row(*account, reveal)));
    }
    assert(accounts@.take(index as int) == accounts@);
    let columns: Vec<&'static str> = vec!["ACCOUNT", "PROVIDER", "LABEL", "ENABLED", "METRICS"];
    assert(document::column_views(columns@) =~= seq![
        "ACCOUNT"@,
        "PROVIDER"@,
        "LABEL"@,
        "ENABLED"@,
        "METRICS"@,
    ]);
    Block::Table { columns, rows }
}

fn label_cell(account: &Account, reveal: bool) -> (result: Cell)
    ensures
        result@ == document::plain_cell(sensitive_option(account.label, reveal)),
{
    Cell::new(display_sensitive_option(&account.label, reveal).as_str())
}

/// The single-row table that account mutations print.
pub open spec fn changed_account_table(account: Account, reveal: bool) -> BlockView {
    BlockView::Table {
        columns: seq!["ACCOUNT"@, "PROVIDER"@, "LABEL"@, "ENABLED"@],
        rows: seq![
            seq![
                document::plain_cell(account.id@),
                document::plain_cell(account.provider@),
                document::plain_cell(sensitive_option(account.label, reveal)),
                document::plain_cell(boolean_text(account.enabled)),
            ],
        ],
    }
}

/// The single-row table that account mutations print.
pub fn render_legacy_account(account: &Account, reveal: bool) -> (result: Block)
    ensures
        result@ == changed_account_table(*account, reveal),
{
    let mut cells = no_cells();
    push_cell(&mut cells, Cell::new(account.id.as_str()));
    push_cell(&mut cells, Cell::new(account.provider.as_str()));
    push_cell(&mut cells, label_cell(account, reveal));
    push_cell(&mut cells, Cell::new(boolean_name(account.enabled)));
    let ghost row = document::cell_views(cells@);
    let mut rows = no_rows();
    push_row(&mut rows, cells);
    let columns: Vec<&'static str> = vec!["ACCOUNT", "PROVIDER", "LABEL", "ENABLED"];
    assert(document::column_views(columns@) =~= seq![
        "ACCOUNT"@,
        "PROVIDER"@,
        "LABEL"@,
        "ENABLED"@,
    ]);
    assert(row =~= seq![
        document::plain_cell(account.id@),
        document::plain_cell(account.provider@),
        document::plain_cell(sensitive_option(account.label, reveal)),
        document::plain_cell(boolean_text(account.enabled)),
    ]);
    assert(document::grid_views(rows@) =~= seq![row]);
    Block::Table { columns, rows }
}

/// One account as key-value rows.
pub open spec fn account_pairs(account: Account, reveal: bool) -> Seq<PairView> {
    seq![
        document::pair("ACCOUNT"@, document::plain_cell(account.id@)),
        document::pair("PROVIDER"@, document::plain_cell(account.provider@)),
        document::pair("LABEL"@, document::plain_cell(sensitive_option(account.label, reveal))),
        document::pair("ENABLED"@, document::plain_cell(boolean_text(account.enabled))),
        document::pair("METRICS"@, document::plain_cell(metrics_text(account.metrics@))),
    ]
}

/// One account as key-value rows, so the stored metric filter has its own line.
pub fn render_account(account: &Account, reveal: bool) -> (result: Block)
    ensures
        result@ == BlockView::Pairs(account_pairs(*account, reveal)),
{
    let mut pairs = no_pairs();
    push_pair(&mut pairs, "ACCOUNT", Cell::new(account.id.as_str()));
    push_pair(&mut pairs, "PROVIDER", Cell::new(account.provider.as_str()));
    push_pair(&mut pairs, "LABEL", label_cell(account, reveal));
    push_pair(&mut pairs, "ENABLED", Cell::new(boolean_name(account.enabled)));
    push_pair(&mut pairs, "METRICS", Cell::new(metrics_cell(&account.metrics).as_str()));
    assert(document::pair_views(pairs@) =~= account_pairs(*account, reveal));
    Block::Pairs(pairs)
}

/// The row of a device.
pub open spec fn device_row(device: DevicePayload, now: Timestamp) -> Seq<CellView> {
    seq![
        document::plain_cell(device.id@),
        document::plain_cell(device.name@),
        document::plain_cell(clock::ago(device.created_at, now)),
        document::plain_cell(clock::ago(device.last_seen_at, now)),
    ]
}

/// The table of devices.
pub open spec fn devices_table(devices: Seq<DevicePayload>, now: Timestamp) -> BlockView {
    BlockView::Table {
        columns: seq!["DEVICE ID"@, "NAME"@, "CREATED"@, "LAST SEEN"@],
        rows: devices.map_values(|device: DevicePayload| device_row(device, now)),
    }
}

/// The table of devices.
pub fn render_devices(devices: &Vec<DevicePayload>, now: &Timestamp) -> (result: Block)
    ensures
        result@ == devices_table(devices@, *now),
{
    let mut rows = no_rows();
    let mut index: usize = 0;
    while index < devices.len()
        invariant
            index <= devices@.len(),
            document::grid_views(rows@) == devices@.take(index as int).map_values(
                |device: DevicePayload| device_row(device, *now),
            ),
        decreases devices.len() - index,
    {
        let device = &devices[index];
        let mut cells = no_cells();
        push_cell(&mut cells, Cell::new(device.id.as_str()));
        push_cell(&mut cells, Cell::new(device.name.as_str()));
        push_cell(&mut cells, Cell::new(clock::relative_past(&device.created_at, now).as_str()));
        push_cell(&mut cells, Cell::new(clock::relative_past(&device.last_seen_at, now).as_str()));
        assert(document::cell_views(cells@) =~= device_row(*device, *now));
        push_row(&mut rows, cells);
        index = index + 1;
        assert(devices@.take(index as int).map_values(
            |device: DevicePayload| device_row(device, *now),
        ) =~= devices@.take(index - 1).map_values(
            |device: DevicePayload| device_row(device, *now),
        ).push(device_row(*device, *now)));
    }
    assert(devices@.take(index as int) == devices@);
    let columns: Vec<&'static str> = vec!["DEVICE ID", "NAME", "CREATED", "LAST SEEN"];
    assert(document::column_views(columns@) =~= seq![
        "DEVICE ID"@,
        "NAME"@,
        "CREATED"@,
        "LAST SEEN"@,
    ]);
    Block::Table { columns, rows }
}

/// What is shown about a pair code.
pub open spec fn pair_code_pairs(pair_code: PairCodePayload) -> Seq<PairView> {
    seq![
        document::pair("CODE"@, document::plain_cell(pair_code.code@)),
        document::pair(
            "EXPIRES_AT"@,
            document::plain_cell(
                clock::rfc3339(pair_code.expires_at.seconds, pair_code.expires_at.nanos),
            ),
        ),
        document::pair(
            "NEXT"@,
            document::plain_cell("Enter the HTTP API address and this code in the client."@),
        ),
        document::pair(
            "NOTE"@,
            document::plain_cell(
                "This code is one-time, expires after 300 seconds, and a new code invalidates it."@,
            ),
        ),
    ]
}

/// What is shown about a pair code.
pub fn render_pair_code(pair_code: &PairCodePayload) -> (result: Block)
    ensures
        result@ == BlockView::Pairs(pair_code_pairs(*pair_code)),
{
    let mut pairs = no_pairs();
    push_pair(&mut pairs, "CODE", Cell::new(pair_code.code.as_str()));
    push_pair(
        &mut pairs,
        "EXPIRES_AT",
        Cell::new(clock::timestamp_text(&pair_code.expires_at).as_str()),
    );
    push_pair(
        &mut pairs,
        "NEXT",
        Cell::new("Enter the HTTP API address and this code in the client."),
    );
    push_pair(
        &mut pairs,
        "NOTE",
        Cell::new(
            "This code is one-time, expires after 300 seconds, and a new code invalidates it.",
        ),
    );
    assert(document::pair_views(pairs@) =~= pair_code_pairs(*pair_code));
    Block::Pairs(pairs)
}

/// What is shown about a sign-in that waits.
pub open spec fn challenge_pairs(challenge: AuthChallenge, reveal: bool) -> Seq<PairView> {
    seq![
        document::pair("AUTH"@, document::plain_cell("pending"@)),
        document::pair("METHOD"@, document::plain_cell(method_text(challenge.method))),
        document::pair(
            "FLOW"@,
            document::plain_cell(redact::sensitive_text(challenge.flow_id@, reveal)),
        ),
        document::pair(
            "URI"@,
            document::plain_cell(sensitive_option(challenge.verification_uri, reveal)),
        ),
        document::pair(
            "CODE"@,
            document::plain_cell(sensitive_option(challenge.user_code, reveal)),
        ),
    ]
}

fn render_challenge(challenge: &AuthChallenge, reveal: bool) -> (result: Block)
    ensures
        result@ == BlockView::Pairs(challenge_pairs(*challenge, reveal)),
{
    let mut pairs = no_pairs();
    push_pair(&mut pairs, "AUTH", Cell::new("pending"));
    push_pair(&mut pairs, "METHOD", Cell::new(auth_method_name(&challenge.method).as_str()));
    push_pair(
        &mut pairs,
        "FLOW",
        Cell::new(display_sensitive(challenge.flow_id.as_str(), reveal).as_str()),
    );
    push_pair(
        &mut pairs,
        "URI",
        Cell::new(display_sensitive_option(&challenge.verification_uri, reveal).as_str()),
    );
    push_pair(
        &mut pairs,
        "CODE",
        Cell::new(display_sensitive_option(&challenge.user_code, reveal).as_str()),
    );
    assert(document::pair_views(pairs@) =~= challenge_pairs(*challenge, reveal));
    Block::Pairs(pairs)
}

/// The name of a sign-in state.
pub open spec fn state_text(state: AuthState) -> Seq<char> {
    match state {
        AuthState::NotAuthenticated => "not_authenticated"@,
        AuthState::Pending { .. } => "pending"@,
        AuthState::Authenticated { .. } => "authenticated"@,
        AuthState::Invalid { .. } => "invalid"@,
    }
}

fn render_auth_state(state: &AuthState) -> (result: Block)
    ensures
        result@ == BlockView::Pairs(
            seq![document::pair("AUTH"@, document::plain_cell(state_text(*state)))],
        ),
{
    let name = match state {
        AuthState::NotAuthenticated => "not_authenticated",
        AuthState::Pending { .. } => "pending",
        AuthState::Authenticated { .. } => "authenticated",
        AuthState::Invalid { .. } => "invalid",
    };
    let mut pairs = no_pairs();
    push_pair(&mut pairs, "AUTH", Cell::new(name));
    assert(document::pair_views(pairs@) =~= seq![
        document::pair("AUTH"@, document::plain_cell(state_text(*state))),
    ]);
    Block::Pairs(pairs)
}

/// The raw row of a measurement.
pub open spec fn measurement_row(
    window: UsageWindow,
    measurement: UsageMeasurement,
) -> Seq<CellView> {
    seq![
        document::plain_cell(window_text(window.window)),
        document::plain_cell(measurement.name@),
        CellView {
            value: document::CellValueView::Used {
                used: measurement.used,
                limit: measurement.limit,
            },
            style: Style::Plain,
        },
        CellView {
            value: document::CellValueView::Limit(measurement.limit),
            style: Style::Plain,
        },
        document::plain_cell(unit_text(measurement.unit)),
        document::plain_cell(clock::optional_timestamp(window.resets_at)),
    ]
}

/// The raw rows of a window, one per measurement.
pub open spec fn window_grid(window: UsageWindow, count: int) -> Seq<Seq<CellView>> {
    Seq::new(count as nat, |i: int| measurement_row(window, window.measurements@[i]))
}

/// The raw rows of a report, window by window.
pub open spec fn usage_grid(windows: Seq<UsageWindow>) -> Seq<Seq<CellView>>
    decreases windows.len(),
{
    if windows.len() == 0 {
        Seq::empty()
    } else {
        usage_grid(windows.drop_last()) + window_grid(
            windows.last(),
            windows.last().measurements@.len() as int,
        )
    }
}

/// The pairs of a report, after the ones that lead.
pub open spec fn usage_pairs(
    usage: SubscriptionUsage,
    reveal: bool,
    leading: Seq<PairView>,
) -> Seq<PairView> {
    leading + seq![
        document::pair("PROVIDER"@, document::plain_cell(usage.provider@)),
        document::pair(
            "ACCOUNT_LABEL"@,
            document::plain_cell(sensitive_option(usage.account_label, reveal)),
        ),
        document::pair(
            "PLAN"@,
            document::plain_cell(
                match usage.plan {
                    Some(plan) => plan@,
                    None => Seq::empty(),
                },
            ),
        ),
        document::pair(
            "OBSERVED_AT"@,
            document::plain_cell(
                clock::rfc3339(usage.observed_at.seconds, usage.observed_at.nanos),
            ),
        ),
        document::pair(
            "EXPIRES_AT"@,
            document::plain_cell(clock::optional_timestamp(usage.subscription_expires_at)),
        ),
    ]
}

/// The table of every measurement of a report.
pub open spec fn usage_table(usage: SubscriptionUsage) -> BlockView {
    BlockView::Table {
        columns: seq![
            "WINDOW"@,
            "MEASUREMENT"@,
            "USED"@,
            "LIMIT"@,
            "UNIT"@,
            "RESETS_AT"@,
        ],
        rows: usage_grid(usage.windows@),
    }
}

fn push_window_rows(rows: &mut Vec<Vec<Cell>>, window: &UsageWindow)
    ensures
        document::grid_views(final(rows)@) == document::grid_views(old(rows)@) + window_grid(
            *window,
            window.measurements@.len() as int,
        ),
{
    let mut index: usize = 0;
    assert(document::grid_views(old(rows)@) + window_grid(*window, 0) =~= document::grid_views(
        old(rows)@,
    ));
    while index < window.measurements.len()
        invariant
            index <= window.measurements@.len(),
            document::grid_views(rows@) == document::grid_views(old(rows)@) + window_grid(
                *window,
                index as int,
            ),
        decreases window.measurements.len() - index,
    {
        let measurement = &window.measurements[index];
        let mut cells = no_cells();
        push_cell(&mut cells, Cell::new(window_name(&window.window).as_str()));
        push_cell(&mut cells, Cell::new(measurement.name.as_str()));
        push_cell(&mut cells, Cell::used(measurement.used, measurement.limit));
        push_cell(&mut cells, Cell::limit(measurement.limit));
        push_cell(&mut cells, Cell::new(unit_name(&measurement.unit).as_str()));
        push_cell(
            &mut cells,
            Cell::new(clock::optional_timestamp_text(&window.resets_at).as_str()),
        );
        assert(document::cell_views(cells@) =~= measurement_row(*window, *measurement));
        push_row(rows, cells);
        index = index + 1;
        assert(window_grid(*window, index as int) =~= window_grid(*window, index - 1).push(
            measurement_row(*window, *measurement),
        ));
        assert(document::grid_views(rows@) =~= document::grid_views(old(rows)@) + window_grid(
            *window,
            index as int,
        ));
    }
}

/// The raw view of a report: its pairs and the table of its measurements.
pub fn render_usage(
    blocks: &mut Vec<Block>,
    usage: &SubscriptionUsage,
    reveal: bool,
    leading: Vec<Pair>,
)
    ensures
        document::block_views(final(blocks)@) == document::block_views(old(blocks)@).push(
            BlockView::Pairs(usage_pairs(*usage, reveal, document::pair_views(leading@))),
        ).push(usage_table(*usage)),
{
    let ghost first = document::pair_views(leading@);
    let mut pairs = leading;
    push_pair(&mut pairs, "PROVIDER", Cell::new(usage.provider.as_str()));
    push_pair(
        &mut pairs,
        "ACCOUNT_LABEL",
        Cell::new(display_sensitive_option(&usage.account_label, reveal).as_str()),
    );
    let plan = match &usage.plan {
        Some(plan) => plan.clone(),
        None => String::new(),
    };
    push_pair(&mut pairs, "PLAN", Cell::new(plan.as_str()));
    push_pair(
        &mut pairs,
        "OBSERVED_AT",
        Cell::new(clock::timestamp_text(&usage.observed_at).as_str()),
    );
    push_pair(
        &mut pairs,
        "EXPIRES_AT",
        Cell::new(clock::optional_timestamp_text(&usage.subscription_expires_at).as_str()),
    );
    assert(document::pair_views(pairs@) =~= usage_pairs(*usage, reveal, first));
    push_block(blocks, Block::Pairs(pairs));

    let mut rows = no_rows();
    let mut index: usize = 0;
    assert(usage.windows@.take(0) =~= Seq::empty());
    while index < usage.windows.len()
        invariant
            index <= usage.windows@.len(),
            document::grid_views(rows@) == usage_grid(usage.windows@.take(index as int)),
        decreases usage.windows.len() - index,
    {
        assert(usage.windows@.take(index + 1).drop_last() == usage.windows@.take(index as int));
        push_window_rows(&mut rows, &usage.windows[index]);
        index = index + 1;
    }
    assert(usage.windows@.take(index as int) == usage.windows@);
    let columns: Vec<&'static str> = vec![
        "WINDOW",
        "MEASUREMENT",
        "USED",
        "LIMIT",
        "UNIT",
        "RESETS_AT",
    ];
    assert(document::column_views(columns@) =~= seq![
        "WINDOW"@,
        "MEASUREMENT"@,
        "USED"@,
        "LIMIT"@,
        "UNIT"@,
        "RESETS_AT"@,
    ]);
    push_block(blocks, Block::Table { columns, rows });
}

/// A failure on one line: what it is about and what happened.
pub open spec fn failure_text(failure: PartialFailure) -> Seq<char> {
    failure.scope@ + ": "@ + failure.message@
}

fn failure_line(failure: &PartialFailure) -> (result: String)
    ensures
        result@ == failure_text(*failure),
{
    text::join3(failure.scope.as_str(), ": ", failure.message.as_str())
}

/// The raw lines about the first failures of an outcome.
pub open spec fn failure_pairs(failures: Seq<PartialFailure>, count: int) -> Seq<BlockView> {
    Seq::new(
        count as nat,
        |i: int|
            BlockView::Pairs(
                seq![
                    document::pair(
                        "FAILURE"@,
                        document::text_cell(failure_text(failures[i]), Style::Warning),
                    ),
                ],
            ),
    )
}

/// The raw blocks about what is missing from an outcome.
pub open spec fn missing_blocks(
    outcome: QueryOutcome<SubscriptionUsage>,
    diagnose: bool,
) -> Seq<BlockView> {
    match outcome {
        QueryOutcome::Complete { .. } => Seq::empty(),
        QueryOutcome::Partial { failures, .. } => seq![
            BlockView::Pairs(
                seq![
                    document::pair(
                        "WARNING"@,
                        document::text_cell(
                            text::decimal_digits(failures@.len()) + " partial result(s)"@,
                            Style::Warning,
                        ),
                    ),
                ],
            ),
        ] + if diagnose {
            failure_pairs(failures@, failures@.len() as int)
        } else {
            Seq::empty()
        },
    }
}

/// The raw view of an outcome.
pub open spec fn outcome_blocks(
    outcome: QueryOutcome<SubscriptionUsage>,
    reveal: bool,
    diagnose: bool,
    leading: Seq<PairView>,
) -> Seq<BlockView> {
    seq![
        BlockView::Pairs(usage_pairs(outcome.payload(), reveal, leading)),
        usage_table(outcome.payload()),
    ] + missing_blocks(outcome, diagnose)
}

fn one_pair(key: &'static str, cell: Cell) -> (result: Block)
    ensures
        result@ == BlockView::Pairs(seq![document::pair(key@, cell@)]),
{
    let mut pairs = no_pairs();
    push_pair(&mut pairs, key, cell);
    assert(document::pair_views(pairs@) =~= seq![document::pair(key@, cell@)]);
    Block::Pairs(pairs)
}

fn push_failure_pairs(blocks: &mut Vec<Block>, failures: &Vec<PartialFailure>)
    ensures
        document::block_views(final(blocks)@) == document::block_views(old(blocks)@)
            + failure_pairs(failures@, failures@.len() as int),
{
    let mut index: usize = 0;
    assert(document::block_views(old(blocks)@) + failure_pairs(failures@, 0)
        =~= document::block_views(old(blocks)@));
    while index < failures.len()
        invariant
            index <= failures@.len(),
            document::block_views(blocks@) == document::block_views(old(blocks)@) + failure_pairs(
                failures@,
                index as int,
            ),
        decreases failures.len() - index,
    {
        let cell = Cell::styled(failure_line(&failures[index]).as_str(), Style::Warning);
        push_block(blocks, one_pair("FAILURE", cell));
        index = index + 1;
        assert(document::block_views(blocks@) =~= document::block_views(old(blocks)@)
            + failure_pairs(failures@, index as int));
    }
}

/// The report an outcome holds.
pub fn usage_data(outcome: &QueryOutcome<SubscriptionUsage>) -> (result: &SubscriptionUsage)
    ensures
        *result == outcome.payload(),
{
    match outcome {
        QueryOutcome::Complete { data } => data,
        QueryOutcome::Partial { data, .. } => data,
    }
}

/// The raw view of an outcome.
pub fn render_usage_outcome(
    blocks: &mut Vec<Block>,
    outcome: &QueryOutcome<SubscriptionUsage>,
    reveal: bool,
    diagnose: bool,
    leading: Vec<Pair>,
)
    ensures
        document::block_views(final(blocks)@) == document::block_views(old(blocks)@)
            + outcome_blocks(*outcome, reveal, diagnose, document::pair_views(leading@)),
{
    let ghost first = document::pair_views(leading@);
    render_usage(blocks, usage_data(outcome), reveal, leading);
    if let QueryOutcome::Partial { failures, .. } = outcome {
        let count = text::decimal(failures.len() as u64);
        let warning = text::join2(count.as_str(), " partial result(s)");
        push_block(blocks, one_pair("WARNING", Cell::styled(warning.as_str(), Style::Warning)));
        if diagnose {
            push_failure_pairs(blocks, failures);
        }
    }
    assert(document::block_views(blocks@) =~= document::block_views(old(blocks)@) + outcome_blocks(
        *outcome,
        reveal,
        diagnose,
        first,
    ));
}

/// The lines about the first failures of an outcome in the readable view.
pub open spec fn failure_lines(failures: Seq<PartialFailure>, count: int) -> Seq<BlockView> {
    Seq::new(
        count as nat,
        |i: int| document::line("! "@ + failure_text(failures[i]), Style::Warning),
    )
}

/// The line that counts what is missing.
pub open spec fn unavailable_text(count: nat, diagnose: bool) -> Seq<char> {
    "! "@ + text::decimal_digits(count) + if diagnose {
        " item(s) unavailable"@
    } else {
        " item(s) unavailable (--raw for raw data, --diagnose for error details)"@
    }
}

/// The notices of the readable view: stale data, a reached limit, and what is
/// missing.
pub open spec fn note_blocks(
    limit_reached: bool,
    outcome: QueryOutcome<SubscriptionUsage>,
    stale: bool,
    diagnose: bool,
) -> Seq<BlockView> {
    let about_age = if stale {
        seq![
            document::line("! stale snapshot; the daemon has not refreshed it"@, Style::Warning),
        ]
    } else {
        Seq::empty()
    };
    let about_limit = if limit_reached {
        seq![document::line("! limit reached"@, Style::Error)]
    } else {
        Seq::empty()
    };
    let about_missing = match outcome {
        QueryOutcome::Complete { .. } => Seq::empty(),
        QueryOutcome::Partial { failures, .. } => seq![
            document::line(unavailable_text(failures@.len(), diagnose), Style::Warning),
        ] + if diagnose {
            failure_lines(failures@, failures@.len() as int)
        } else {
            Seq::empty()
        },
    };
    about_age + about_limit + about_missing
}

fn push_failure_lines(blocks: &mut Vec<Block>, failures: &Vec<PartialFailure>)
    ensures
        document::block_views(final(blocks)@) == document::block_views(old(blocks)@)
            + failure_lines(failures@, failures@.len() as int),
{
    let mut index: usize = 0;
    assert(document::block_views(old(blocks)@) + failure_lines(failures@, 0)
        =~= document::block_views(old(blocks)@));
    while index < failures.len()
        invariant
            index <= failures@.len(),
            document::block_views(blocks@) == document::block_views(old(blocks)@) + failure_lines(
                failures@,
                index as int,
            ),
        decreases failures.len() - index,
    {
        let told = text::join2("! ", failure_line(&failures[index]).as_str());
        push_line(blocks, told.as_str(), Style::Warning);
        index = index + 1;
        assert(document::block_views(blocks@) =~= document::block_views(old(blocks)@)
            + failure_lines(failures@, index as int));
    }
}

/// The notices of the readable view.
pub fn render_summary_notes(
    blocks: &mut Vec<Block>,
    limit_reached: bool,
    outcome: &QueryOutcome<SubscriptionUsage>,
    stale: bool,
    diagnose: bool,
)
    ensures
        document::block_views(final(blocks)@) == document::block_views(old(blocks)@) + note_blocks(
            limit_reached,
            *outcome,
            stale,
            diagnose,
        ),
{
    if stale {
        push_line(blocks, "! stale snapshot; the daemon has not refreshed it", Style::Warning);
    }
    if limit_reached {
        push_line(blocks, "! limit reached", Style::Error);
    }
    if let QueryOutcome::Partial { failures, .. } = outcome {
        let count = text::decimal(failures.len() as u64);
        let told = if diagnose {
            text::join3("! ", count.as_str(), " item(s) unavailable")
        } else {
            text::join3(
                "! ",
                count.as_str(),
                " item(s) unavailable (--raw for raw data, --diagnose for error details)",
            )
        };
        push_line(blocks, told.as_str(), Style::Warning);
        if diagnose {
            push_failure_lines(blocks, failures);
        }
    }
    assert(document::block_views(blocks@) =~= document::block_views(old(blocks)@) + note_blocks(
        limit_reached,
        *outcome,
        stale,
        diagnose,
    ));
}

/// The readable view of an outcome.
///
/// Where nothing can be summarized, the raw table takes the place of the rows,
/// but not of the notices: an account with no readable metric can still be
/// stale, partial, or out of quota. A filter that leaves no row keeps the
/// update time and says so; it never falls back to raw output, because the raw
/// table would contradict the filter.
pub open spec fn summary_blocks(
    outcome: QueryOutcome<SubscriptionUsage>,
    stale: bool,
    reveal: bool,
    diagnose: bool,
    now: Timestamp,
    names: Seq<Seq<char>>,
    mode: MetricFilterMode,
) -> Seq<BlockView> {
    let usage = outcome.payload();
    let rows = summary::report_rows(usage.windows@);
    let shown = filter::rows_under(rows, names, mode);
    let notes = note_blocks(summary::any_limit_hit(usage.windows@), outcome, stale, diagnose);
    let updated = document::line("updated "@ + clock::ago(usage.observed_at, now), Style::Dim);
    if rows.len() == 0 {
        seq![
            document::line("! no summarized metrics available; showing raw data"@, Style::Warning),
            BlockView::Pairs(usage_pairs(usage, reveal, Seq::empty())),
            usage_table(usage),
        ] + notes
    } else if shown.len() == 0 {
        seq![
            updated,
            document::line(
                "! no rows match the metric filter: "@ + text::joined(names, ", "@),
                Style::Warning,
            ),
        ] + notes
    } else {
        let expiry = match usage.subscription_expires_at {
            Some(time) => seq![
                document::line(
                    "expires "@ + clock::calendar_date(time.seconds, time.nanos),
                    Style::Plain,
                ),
            ],
            None => Seq::empty(),
        };
        expiry + seq![BlockView::Rows(shown), updated] + notes
    }
}

fn copy_names(names: &[String]) -> (result: Vec<String>)
    ensures
        result@ == names@,
{
    let mut copy: Vec<String> = Vec::new();
    let mut index: usize = 0;
    while index < names.len()
        invariant
            index <= names@.len(),
            copy@ == names@.take(index as int),
        decreases names.len() - index,
    {
        copy.push(names[index].clone());
        index = index + 1;
        assert(names@.take(index as int) == names@.take(index - 1).push(names@[index - 1]));
    }
    assert(names@.take(index as int) == names@);
    copy
}

/// Renders the readable summary body, falling back to the raw table when no
/// measurement survives the mapping.
pub fn render_usage_summary(
    blocks: &mut Vec<Block>,
    outcome: &QueryOutcome<SubscriptionUsage>,
    stale: bool,
    reveal: bool,
    diagnose: bool,
    now: &Timestamp,
    filter: &ResolvedMetricFilter,
)
    ensures
        document::block_views(final(blocks)@) == document::block_views(old(blocks)@)
            + summary_blocks(
            *outcome,
            stale,
            reveal,
            diagnose,
            *now,
            filter.filter@,
            filter.mode,
        ),
{
    let ghost before = document::block_views(blocks@);
    let ghost expected = summary_blocks(
        *outcome,
        stale,
        reveal,
        diagnose,
        *now,
        filter.filter@,
        filter.mode,
    );
    let usage = usage_data(outcome);
    let whole = summarize(usage);
    if whole.is_empty() {
        push_line(
            blocks,
            "! no summarized metrics available; showing raw data",
            Style::Warning,
        );
        render_usage(blocks, usage, reveal, no_pairs());
        render_summary_notes(blocks, whole.limit_reached, outcome, stale, diagnose);
        assert(document::block_views(blocks@) =~= before + expected);
        return;
    }
    let shown = filter.summarize(usage);
    let updated = text::join2(
        "updated ",
        clock::relative_past(&shown.observed_at, now).as_str(),
    );
    if shown.is_empty() {
        let names = text::join(&copy_names(filter.names()), ", ");
        let told = text::join2("! no rows match the metric filter: ", names.as_str());
        push_line(blocks, updated.as_str(), Style::Dim);
        push_line(blocks, told.as_str(), Style::Warning);
        render_summary_notes(blocks, whole.limit_reached, outcome, stale, diagnose);
        assert(document::block_views(blocks@) =~= before + expected);
        return;
    }
    if let Some(expires_at) = &shown.expires_at {
        let told = text::join2("expires ", clock::date_text(expires_at).as_str());
        push_line(blocks, told.as_str(), Style::Plain);
    }
    let limit_reached = shown.limit_reached;
    push_block(blocks, Block::Rows(shown.rows));
    push_line(blocks, updated.as_str(), Style::Dim);
    render_summary_notes(blocks, limit_reached, outcome, stale, diagnose);
    assert(document::block_views(blocks@) =~= before + expected);
}

/// The plan of a report, unless it is blank.
pub open spec fn plan_of(usage: SubscriptionUsage) -> Option<Seq<char>> {
    match usage.plan {
        Some(plan) => if text::trimmed(plan@).len() == 0 {
            None
        } else {
            Some(text::trimmed(plan@))
        },
        None => None,
    }
}

/// The heading of a readable view: provider and plan, and the account where
/// sibling blocks share the provider.
pub open spec fn section_heading(
    account_id: Seq<char>,
    usage: SubscriptionUsage,
    show_account: bool,
) -> Seq<char> {
    let provider = redact::cell_text(usage.provider@);
    let planned = match plan_of(usage) {
        Some(plan) => provider + " - "@ + redact::cell_text(plan),
        None => provider,
    };
    if show_account {
        planned + " - "@ + redact::cell_text(account_id)
    } else {
        planned
    }
}

/// The summary view folds provider and plan into the account heading; the
/// account id joins them only when sibling blocks share the provider.
pub fn account_section_header(
    account_id: &str,
    outcome: &QueryOutcome<SubscriptionUsage>,
    show_account: bool,
) -> (result: Block)
    ensures
        result@ == BlockView::Header(section_heading(account_id@, outcome.payload(), show_account)),
{
    let usage = usage_data(outcome);
    let mut heading = sanitize_cell(usage.provider.as_str()).to_owned();
    if let Some(plan) = &usage.plan {
        let plan = text::trim(plan.as_str());
        if !plan.is_empty() {
            heading.append(" - ");
            heading.append(sanitize_cell(plan));
        }
    }
    if show_account {
        heading.append(" - ");
        heading.append(sanitize_cell(account_id));
    }
    Block::Header(heading)
}

/// The heading of a raw view: the provider, and the account where sibling
/// blocks share the provider.
pub open spec fn raw_heading(
    account_id: Seq<char>,
    provider: Seq<char>,
    show_account: bool,
) -> Seq<char> {
    if show_account {
        redact::cell_text(provider) + " - "@ + redact::cell_text(account_id)
    } else {
        redact::cell_text(provider)
    }
}

/// What is shown about a probe.
pub open spec fn probe_blocks(
    payload: ProbePayload,
    reveal: bool,
    raw: bool,
    diagnose: bool,
    now: Timestamp,
) -> Seq<BlockView> {
    if raw {
        outcome_blocks(payload.usage, reveal, diagnose, Seq::empty())
    } else {
        seq![
            BlockView::Header(
                section_heading(payload.account_id@, payload.usage.payload(), false),
            ),
        ] + summary_blocks(
            payload.usage,
            false,
            reveal,
            diagnose,
            now,
            saved_names(filter::text_views(payload.metrics@)),
            MetricFilterMode::Hide,
        )
    }
}

/// What is shown about a probe.
pub fn render_probe(
    payload: &ProbePayload,
    reveal: bool,
    raw: bool,
    diagnose: bool,
    now: &Timestamp,
) -> (result: Vec<Block>)
    ensures
        document::block_views(result@) == probe_blocks(*payload, reveal, raw, diagnose, *now),
{
    let mut blocks = no_blocks();
    if raw {
        render_usage_outcome(&mut blocks, &payload.usage, reveal, diagnose, no_pairs());
        assert(document::block_views(blocks@) =~= probe_blocks(
            *payload,
            reveal,
            raw,
            diagnose,
            *now,
        ));
        return blocks;
    }
    let filter = ResolvedMetricFilter::persisted(&payload.metrics);
    push_block(
        &mut blocks,
        account_section_header(payload.account_id.as_str(), &payload.usage, false),
    );
    render_usage_summary(&mut blocks, &payload.usage, false, reveal, diagnose, now, &filter);
    assert(document::block_views(blocks@) =~= probe_blocks(*payload, reveal, raw, diagnose, *now));
    blocks
}

/// The provider a snapshot is of.
pub open spec fn provider_of(snapshot: SnapshotPayload) -> Seq<char> {
    snapshot.usage.payload().provider@
}

/// What is shown about one snapshot.
pub open spec fn snapshot_blocks(
    snapshot: SnapshotPayload,
    show_account: bool,
    reveal: bool,
    raw: bool,
    diagnose: bool,
    choice: MetricFilterChoice,
    now: Timestamp,
) -> Seq<BlockView> {
    let body = if raw {
        seq![
            BlockView::Header(
                raw_heading(snapshot.account_id@, provider_of(snapshot), show_account),
            ),
        ] + outcome_blocks(
            snapshot.usage,
            reveal,
            diagnose,
            seq![
                document::pair(
                    "STATUS"@,
                    if snapshot.stale {
                        document::text_cell("stale"@, Style::Warning)
                    } else {
                        document::plain_cell("current"@)
                    },
                ),
            ],
        )
    } else {
        seq![
            BlockView::Header(
                section_heading(snapshot.account_id@, snapshot.usage.payload(), show_account),
            ),
        ] + summary_blocks(
            snapshot.usage,
            snapshot.stale,
            reveal,
            diagnose,
            now,
            chosen_names(choice, snapshot.metrics@),
            chosen_mode(choice),
        )
    };
    body + if snapshot.last_error is Some {
        seq![
            BlockView::Pairs(
                seq![
                    document::pair(
                        "LAST_ERROR"@,
                        document::text_cell(redact::REDACTED@, Style::Error),
                    ),
                ],
            ),
        ]
    } else {
        Seq::empty()
    }
}

fn render_snapshot(
    blocks: &mut Vec<Block>,
    snapshot: &SnapshotPayload,
    show_account: bool,
    reveal: bool,
    raw: bool,
    diagnose: bool,
    choice: &MetricFilterChoice,
    now: &Timestamp,
)
    ensures
        document::block_views(final(blocks)@) == document::block_views(old(blocks)@)
            + snapshot_blocks(*snapshot, show_account, reveal, raw, diagnose, *choice, *now),
{
    let ghost before = document::block_views(blocks@);
    if raw {
        let provider = usage_data(&snapshot.usage).provider.as_str();
        let mut heading = sanitize_cell(provider).to_owned();
        if show_account {
            heading.append(" - ");
            heading.append(sanitize_cell(snapshot.account_id.as_str()));
        }
        push_block(blocks, Block::Header(heading));
        let status = if snapshot.stale {
            Cell::styled("stale", Style::Warning)
        } else {
            Cell::new("current")
        };
        let mut leading = no_pairs();
        push_pair(&mut leading, "STATUS", status);
        assert(document::pair_views(leading@) =~= seq![document::pair("STATUS"@, status@)]);
        render_usage_outcome(blocks, &snapshot.usage, reveal, diagnose, leading);
    } else {
        let filter = choice.for_saved(&snapshot.metrics);
        push_block(
            blocks,
            account_section_header(snapshot.account_id.as_str(), &snapshot.usage, show_account),
        );
        render_usage_summary(
            blocks,
            &snapshot.usage,
            snapshot.stale,
            reveal,
            diagnose,
            now,
            &filter,
        );
    }
    if snapshot.last_error.is_some() {
        push_block(
            blocks,
            one_pair("LAST_ERROR", Cell::styled(redact::REDACTED, Style::Error)),
        );
    }
    assert(document::block_views(blocks@) =~= before + snapshot_blocks(
        *snapshot,
        show_account,
        reveal,
        raw,
        diagnose,
        *choice,
        *now,
    ));
}

/// Two of the snapshots are of that provider.
pub open spec fn provider_repeats(snapshots: Seq<SnapshotPayload>, provider: Seq<char>) -> bool {
    exists|i: int, j: int|
        0 <= i < j < snapshots.len() && provider_of(#[trigger] snapshots[i]) == provider
            && provider_of(#[trigger] snapshots[j]) == provider
}

fn provider_is_shared(snapshots: &Vec<SnapshotPayload>, provider: &str) -> (result: bool)
    ensures
        result == provider_repeats(snapshots@, provider@),
{
    let mut found: Option<usize> = None;
    let mut index: usize = 0;
    while index < snapshots.len()
        invariant
            index <= snapshots@.len(),
            match found {
                Some(place) => place < index && provider_of(snapshots@[place as int]) == provider@,
                None => true,
            },
            forall|i: int|
                0 <= i < index && found != Some(i as usize) ==> provider_of(
                    #[trigger] snapshots@[i],
                ) != provider@,
        decreases snapshots.len() - index,
    {
        let other = usage_data(&snapshots[index].usage).provider.as_str();
        if text::same_text(other, provider) {
            match found {
                Some(place) => {
                    assert(provider_of(snapshots@[place as int]) == provider_of(
                        snapshots@[index as int],
                    ));
                    return true;
                },
                None => {
                    found = Some(index);
                },
            }
        }
        index = index + 1;
    }
    false
}

/// No earlier snapshot is of the same provider.
pub open spec fn first_of_provider(snapshots: Seq<SnapshotPayload>, place: int) -> bool {
    forall|i: int|
        0 <= i < place ==> provider_of(#[trigger] snapshots[i]) != provider_of(snapshots[place])
}

/// The places below `count` of the snapshots of that provider, in order.
pub open spec fn places_of(
    snapshots: Seq<SnapshotPayload>,
    provider: Seq<char>,
    count: int,
) -> Seq<int>
    decreases count,
{
    if count <= 0 {
        Seq::empty()
    } else {
        let before = places_of(snapshots, provider, count - 1);
        if provider_of(snapshots[count - 1]) == provider {
            before.push(count - 1)
        } else {
            before
        }
    }
}

/// The order in which snapshots are shown, going through the first `count`:
/// providers in the order they first appear, and the accounts of each together.
pub open spec fn grouped_places(snapshots: Seq<SnapshotPayload>, count: int) -> Seq<int>
    decreases count,
{
    if count <= 0 {
        Seq::empty()
    } else {
        let before = grouped_places(snapshots, count - 1);
        if first_of_provider(snapshots, count - 1) {
            before + places_of(
                snapshots,
                provider_of(snapshots[count - 1]),
                snapshots.len() as int,
            )
        } else {
            before
        }
    }
}

/// The places of a list, as mathematical integers.
pub open spec fn place_views(places: Seq<usize>) -> Seq<int> {
    places.map_values(|place: usize| place as int)
}

fn is_first_of_provider(snapshots: &Vec<SnapshotPayload>, place: usize) -> (result: bool)
    requires
        place < snapshots@.len(),
    ensures
        result == first_of_provider(snapshots@, place as int),
{
    let provider = usage_data(&snapshots[place].usage).provider.as_str();
    let mut index: usize = 0;
    while index < place
        invariant
            index <= place < snapshots@.len(),
            provider@ == provider_of(snapshots@[place as int]),
            forall|i: int| 0 <= i < index ==> provider_of(#[trigger] snapshots@[i]) != provider@,
        decreases place - index,
    {
        if text::same_text(usage_data(&snapshots[index].usage).provider.as_str(), provider) {
            assert(provider_of(snapshots@[index as int]) == provider_of(snapshots@[place as int]));
            return false;
        }
        index = index + 1;
    }
    true
}

fn push_places(places: &mut Vec<usize>, snapshots: &Vec<SnapshotPayload>, provider: &str)
    requires
        forall|i: int| 0 <= i < old(places)@.len() ==> #[trigger] old(places)@[i] < snapshots@.len(),
    ensures
        place_views(final(places)@) == place_views(old(places)@) + places_of(
            snapshots@,
            provider@,
            snapshots@.len() as int,
        ),
        forall|i: int|
            0 <= i < final(places)@.len() ==> #[trigger] final(places)@[i] < snapshots@.len(),
{
    let mut index: usize = 0;
    assert(place_views(old(places)@) + places_of(snapshots@, provider@, 0) =~= place_views(
        old(places)@,
    ));
    while index < snapshots.len()
        invariant
            index <= snapshots@.len(),
            place_views(places@) == place_views(old(places)@) + places_of(
                snapshots@,
                provider@,
                index as int,
            ),
            forall|i: int| 0 <= i < places@.len() ==> #[trigger] places@[i] < snapshots@.len(),
        decreases snapshots.len() - index,
    {
        if text::same_text(usage_data(&snapshots[index].usage).provider.as_str(), provider) {
            let ghost before = places@;
            places.push(index);
            assert(place_views(places@) =~= place_views(before).push(index as int));
        }
        index = index + 1;
        assert(place_views(places@) =~= place_views(old(places)@) + places_of(
            snapshots@,
            provider@,
            index as int,
        ));
    }
}

fn display_order(snapshots: &Vec<SnapshotPayload>) -> (result: Vec<usize>)
    ensures
        place_views(result@) == grouped_places(snapshots@, snapshots@.len() as int),
        forall|i: int| 0 <= i < result@.len() ==> #[trigger] result@[i] < snapshots@.len(),
{
    let mut places: Vec<usize> = Vec::new();
    let mut index: usize = 0;
    assert(place_views(places@) =~= Seq::empty());
    while index < snapshots.len()
        invariant
            index <= snapshots@.len(),
            place_views(places@) == grouped_places(snapshots@, index as int),
            forall|i: int| 0 <= i < places@.len() ==> #[trigger] places@[i] < snapshots@.len(),
        decreases snapshots.len() - index,
    {
        if is_first_of_provider(snapshots, index) {
            push_places(
                &mut places,
                snapshots,
                usage_data(&snapshots[index].usage).provider.as_str(),
            );
        }
        index = index + 1;
    }
    places
}

/// What is shown about the snapshots at those places, with an empty line
/// between each two.
pub open spec fn listed_blocks(
    snapshots: Seq<SnapshotPayload>,
    places: Seq<int>,
    reveal: bool,
    raw: bool,
    diagnose: bool,
    choice: MetricFilterChoice,
    now: Timestamp,
) -> Seq<BlockView>
    decreases places.len(),
{
    if places.len() == 0 {
        Seq::empty()
    } else {
        let before = listed_blocks(
            snapshots,
            places.drop_last(),
            reveal,
            raw,
            diagnose,
            choice,
            now,
        );
        let gap = if places.len() > 1 {
            seq![BlockView::Break]
        } else {
            Seq::empty()
        };
        let snapshot = snapshots[places.last()];
        before + gap + snapshot_blocks(
            snapshot,
            provider_repeats(snapshots, provider_of(snapshot)),
            reveal,
            raw,
            diagnose,
            choice,
            now,
        )
    }
}

/// What is shown about snapshots: the accounts of each provider together. The
/// account id only earns a place in the heading when more than one account
/// shares the same provider.
pub open spec fn snapshots_blocks(
    snapshots: Seq<SnapshotPayload>,
    reveal: bool,
    raw: bool,
    diagnose: bool,
    choice: MetricFilterChoice,
    now: Timestamp,
) -> Seq<BlockView> {
    listed_blocks(
        snapshots,
        grouped_places(snapshots, snapshots.len() as int),
        reveal,
        raw,
        diagnose,
        choice,
        now,
    )
}

/// What is shown about snapshots.
pub fn render_snapshots(
    snapshots: &Vec<SnapshotPayload>,
    reveal: bool,
    raw: bool,
    diagnose: bool,
    choice: &MetricFilterChoice,
    now: &Timestamp,
) -> (result: Vec<Block>)
    ensures
        document::block_views(result@) == snapshots_blocks(
            snapshots@,
            reveal,
            raw,
            diagnose,
            *choice,
            *now,
        ),
{
    let order = display_order(snapshots);
    let ghost places = place_views(order@);
    let mut blocks = no_blocks();
    let mut index: usize = 0;
    assert(places.take(0) =~= Seq::empty());
    while index < order.len()
        invariant
            places == place_views(order@),
            forall|i: int| 0 <= i < order@.len() ==> #[trigger] order@[i] < snapshots@.len(),
            index <= order@.len(),
            document::block_views(blocks@) == listed_blocks(
                snapshots@,
                places.take(index as int),
                reveal,
                raw,
                diagnose,
                *choice,
                *now,
            ),
        decreases order.len() - index,
    {
        proof {
            assert(places.take(index + 1).drop_last() == places.take(index as int));
            assert(places.take(index + 1).last() == order@[index as int] as int);
        }
        let ghost before = document::block_views(blocks@);
        if index > 0 {
            push_block(&mut blocks, Block::Break);
        }
        let snapshot = &snapshots[order[index]];
        let shared = provider_is_shared(
            snapshots,
            usage_data(&snapshot.usage).provider.as_str(),
        );
        render_snapshot(&mut blocks, snapshot, shared, reveal, raw, diagnose, choice, now);
        index = index + 1;
        assert(document::block_views(blocks@) =~= listed_blocks(
            snapshots@,
            places.take(index as int),
            reveal,
            raw,
            diagnose,
            *choice,
            *now,
        ));
    }
    assert(places.take(index as int) == places);
    blocks
}

/// What is shown about an answer that is neither a refusal nor a protocol
/// mismatch.
pub open spec fn human_blocks(
    result: ControlResult,
    reveal: bool,
    raw: bool,
    diagnose: bool,
    view: RenderView,
    now: Timestamp,
) -> Seq<BlockView> {
    match result {
        ControlResult::DaemonStatus(status) => seq![BlockView::Pairs(status_pairs(status))],
        ControlResult::Providers(providers) => seq![providers_table(providers@)],
        ControlResult::Accounts(accounts) => seq![accounts_table(accounts@, reveal)],
        ControlResult::Account(account) => if view.account_with_metrics {
            seq![BlockView::Pairs(account_pairs(account, reveal))]
        } else {
            seq![changed_account_table(account, reveal)]
        },
        ControlResult::Probe(payload) => probe_blocks(payload, reveal, raw, diagnose, now),
        ControlResult::Snapshots(snapshots) => snapshots_blocks(
            snapshots@,
            reveal,
            raw,
            diagnose,
            view.metric_choice,
            now,
        ),
        ControlResult::AuthChallenge(challenge) => seq![
            BlockView::Pairs(challenge_pairs(challenge, reveal)),
        ],
        ControlResult::AuthState(state) => seq![
            BlockView::Pairs(
                seq![document::pair("AUTH"@, document::plain_cell(state_text(state)))],
            ),
        ],
        ControlResult::PairCode(pair_code) => seq![BlockView::Pairs(pair_code_pairs(pair_code))],
        ControlResult::Devices(devices) => seq![devices_table(devices@, now)],
        ControlResult::Ack => seq![document::line("ok"@, Style::Plain)],
        _ => Seq::empty(),
    }
}

fn single(block: Block) -> (result: Vec<Block>)
    ensures
        document::block_views(result@) == seq![block@],
{
    let mut blocks = no_blocks();
    push_block(&mut blocks, block);
    assert(document::block_views(blocks@) =~= seq![block@]);
    blocks
}

/// What is shown about an answer that is neither a refusal nor a protocol
/// mismatch.
pub fn human_result(
    result: &ControlResult,
    reveal: bool,
    raw: bool,
    diagnose: bool,
    view: &RenderView,
    now: &Timestamp,
) -> (blocks: Vec<Block>)
    ensures
        document::block_views(blocks@) == human_blocks(*result, reveal, raw, diagnose, *view, *now),
{
    match result {
        ControlResult::DaemonStatus(status) => single(render_daemon_status(status)),
        ControlResult::Providers(providers) => single(render_providers(providers)),
        ControlResult::Accounts(accounts) => single(render_accounts(accounts, reveal)),
        ControlResult::Account(account) => if view.account_with_metrics {
            single(render_account(account, reveal))
        } else {
            single(render_legacy_account(account, reveal))
        },
        ControlResult::Probe(payload) => render_probe(payload, reveal, raw, diagnose, now),
        ControlResult::Snapshots(snapshots) => render_snapshots(
            snapshots,
            reveal,
            raw,
            diagnose,
            &view.metric_choice,
            now,
        ),
        ControlResult::AuthChallenge(challenge) => single(render_challenge(challenge, reveal)),
        ControlResult::AuthState(state) => single(render_auth_state(state)),
        ControlResult::PairCode(pair_code) => single(render_pair_code(pair_code)),
        ControlResult::Devices(devices) => single(render_devices(devices, now)),
        ControlResult::Ack => {
            let mut blocks = no_blocks();
            push_line(&mut blocks, "ok", Style::Plain);
            assert(document::block_views(blocks@) =~= seq![document::line("ok"@, Style::Plain)]);
            blocks
        },
        _ => no_blocks(),
    }
}

/// An answer made ready to print.
pub enum Rendered {
    /// A failure, printed as it stands.
    Failed(RunOutput),
    /// The answer as JSON, already redacted.
    Json { result: ControlResult, pretty: bool, stderr: String, code: ExitCode },
    /// The answer as a document.
    Document { blocks: Vec<Block>, stderr: String, code: ExitCode },
}

/// The reason of an invalid sign-in, where it was asked for and may be
/// displayed.
pub open spec fn invalid_detail(result: ControlResult, diagnose: bool) -> Option<Seq<char>> {
    match result {
        ControlResult::AuthState(AuthState::Invalid { reason, .. }) => if diagnose
            && !identity::unsafe_text(reason@) {
            Some(reason@)
        } else {
            None
        },
        _ => None,
    }
}

/// What goes to the error stream beside an answer: a table tells there why a
/// sign-in is invalid, which JSON does on its own.
pub open spec fn side_text(
    result: ControlResult,
    diagnose: bool,
    format: OutputFormat,
) -> Seq<char> {
    match invalid_detail(result, diagnose) {
        Some(detail) => if format == OutputFormat::Table {
            "detail: "@ + detail + "\n"@
        } else {
            Seq::empty()
        },
        None => Seq::empty(),
    }
}

/// The answer is made ready to print that way: an error envelope for a refusal
/// or a protocol mismatch, the redacted answer for JSON, or the document for
/// tables.
pub open spec fn renders(
    result: ControlResult,
    format: OutputFormat,
    reveal: bool,
    raw: bool,
    diagnose: bool,
    view: RenderView,
    now: Timestamp,
    rendered: Rendered,
) -> bool {
    match result {
        ControlResult::Error(error) => rendered matches Rendered::Failed(output)
            && errors::output_is(
            output,
            Seq::empty(),
            errors::error_text(
                errors::kind_of(error),
                format,
                None,
                errors::hint_for_refusal(error),
            ),
            errors::code_of(result),
        ),
        ControlResult::ProtocolMismatch { .. } => rendered matches Rendered::Failed(output)
            && errors::output_is(
            output,
            Seq::empty(),
            errors::error_text(
                "protocol_mismatch"@,
                format,
                None,
                errors::hint_for("protocol_mismatch"@),
            ),
            ExitCode::ProtocolError,
        ),
        _ => match format {
            OutputFormat::Table => rendered matches Rendered::Document { blocks, stderr, code }
                && document::block_views(blocks@) == human_blocks(
                result,
                reveal,
                raw,
                diagnose,
                view,
                now,
            ) && stderr@ == side_text(result, diagnose, format) && code == errors::code_of(result),
            _ => rendered matches Rendered::Json { result: printed, pretty, stderr, code }
                && json_printed(result, reveal, diagnose, printed) && pretty == (format
                == OutputFormat::PrettyJson) && stderr@ == side_text(result, diagnose, format)
                && code == errors::code_of(result),
        },
    }
}

/// What is printed of an answer as JSON: without details unless they were asked
/// for, and without what only `--reveal` shows.
pub open spec fn json_printed(
    result: ControlResult,
    reveal: bool,
    diagnose: bool,
    printed: ControlResult,
) -> bool {
    exists|told: ControlResult|
        #[trigger] redact::details_hidden(result, diagnose, told) && if reveal {
            printed == told
        } else {
            redact::values_hidden(told, printed)
        }
}

/// The one entry point that makes a control result ready to print.
pub fn render_result(
    result: ControlResult,
    format: OutputFormat,
    reveal: bool,
    raw: bool,
    diagnose: bool,
    view: &RenderView,
    now: &Timestamp,
) -> (rendered: Rendered)
    ensures
        renders(result, format, reveal, raw, diagnose, *view, *now, rendered),
{
    let code = errors::result_exit_code(&result);
    if let ControlResult::Error(error) = &result {
        return Rendered::Failed(
            errors::error_output_with_options(
                code,
                errors::control_error_kind(error),
                format,
                None,
                errors::error_hint_for_control(error),
            ),
        );
    }
    if let ControlResult::ProtocolMismatch { .. } = &result {
        return Rendered::Failed(
            errors::error_output(ExitCode::ProtocolError, "protocol_mismatch", format),
        );
    }
    let mut stderr = String::new();
    if let ControlResult::AuthState(AuthState::Invalid { reason, .. }) = &result {
        if diagnose && !identity::has_unsafe_character(reason.as_str()) {
            stderr = errors::with_diagnostic("", reason.as_str(), format);
            proof {
                reveal_strlit("");
                assert(Seq::<char>::empty() + "detail: "@ == "detail: "@);
                assert(stderr@ =~= side_text(result, diagnose, format));
            }
        }
    }
    match format {
        OutputFormat::Table => Rendered::Document {
            blocks: human_result(&result, reveal, raw, diagnose, view, now),
            stderr,
            code,
        },
        OutputFormat::Json | OutputFormat::PrettyJson => {
            let mut printed = result;
            redact::redact_error_details(&mut printed, diagnose);
            let ghost told = printed;
            if !reveal {
                redact::redact_revealable_values(&mut printed);
            }
            let pretty = matches!(format, OutputFormat::PrettyJson);
            assert(redact::details_hidden(result, diagnose, told));
            Rendered::Json { result: printed, pretty, stderr, code }
        },
    }
}

proof fn places_are_of_the_provider(
    snapshots: Seq<SnapshotPayload>,
    provider: Seq<char>,
    count: int,
)
    requires
        0 <= count <= snapshots.len(),
    ensures
        forall|i: int|
            #[trigger] places_of(snapshots, provider, count).contains(i) <==> (0 <= i < count
                && provider_of(snapshots[i]) == provider),
        places_of(snapshots, provider, count).no_duplicates(),
    decreases count,
{
    if count > 0 {
        places_are_of_the_provider(snapshots, provider, count - 1);
        let before = places_of(snapshots, provider, count - 1);
        let places = places_of(snapshots, provider, count);
        if provider_of(snapshots[count - 1]) == provider {
            assert(places == before.push(count - 1));
            assert forall|i: int|
                #[trigger] places.contains(i) <==> (0 <= i < count && provider_of(snapshots[i])
                    == provider) by {
                if places.contains(i) {
                    let at = choose|at: int| 0 <= at < places.len() && places[at] == i;
                    if at < before.len() {
                        assert(before[at] == i);
                        assert(before.contains(i));
                    }
                }
                assert(before.contains(i) <==> (0 <= i < count - 1 && provider_of(snapshots[i])
                    == provider));
                if i == count - 1 {
                    assert(places[before.len() as int] == i);
                }
                if before.contains(i) {
                    let at = choose|at: int| 0 <= at < before.len() && before[at] == i;
                    assert(places[at] == i);
                }
            }
            assert(!before.contains(count - 1));
            assert forall|a: int, b: int|
                0 <= a < places.len() && 0 <= b < places.len() && a != b implies places[a]
                != places[b] by {
                if a < before.len() && b < before.len() {
                    assert(before[a] != before[b]);
                }
                if a < before.len() {
                    assert(before.contains(before[a]));
                }
                if b < before.len() {
                    assert(before.contains(before[b]));
                }
            }
        }
    }
}

proof fn some_first(snapshots: Seq<SnapshotPayload>, place: int) -> (first: int)
    requires
        0 <= place < snapshots.len(),
    ensures
        0 <= first <= place,
        first_of_provider(snapshots, first),
        provider_of(snapshots[first]) == provider_of(snapshots[place]),
    decreases place,
{
    if first_of_provider(snapshots, place) {
        place
    } else {
        let earlier = choose|i: int|
            0 <= i < place && provider_of(#[trigger] snapshots[i]) == provider_of(
                snapshots[place],
            );
        some_first(snapshots, earlier)
    }
}

proof fn grouped_places_hold(snapshots: Seq<SnapshotPayload>, count: int)
    requires
        0 <= count <= snapshots.len(),
    ensures
        forall|i: int|
            #[trigger] grouped_places(snapshots, count).contains(i) <==> (0 <= i < snapshots.len()
                && grouped_by(snapshots, count, i)),
        grouped_places(snapshots, count).no_duplicates(),
    decreases count,
{
    if count > 0 {
        grouped_places_hold(snapshots, count - 1);
        let before = grouped_places(snapshots, count - 1);
        let after = grouped_places(snapshots, count);
        let provider = provider_of(snapshots[count - 1]);
        let more = places_of(snapshots, provider, snapshots.len() as int);
        places_are_of_the_provider(snapshots, provider, snapshots.len() as int);
        if first_of_provider(snapshots, count - 1) {
            assert(after == before + more);
            assert forall|i: int|
                #[trigger] after.contains(i) <==> (0 <= i < snapshots.len() && grouped_by(
                    snapshots,
                    count,
                    i,
                )) by {
                if after.contains(i) {
                    let at = choose|at: int| 0 <= at < after.len() && after[at] == i;
                    if at < before.len() {
                        assert(before.contains(before[at]));
                        let j = choose|j: int|
                            0 <= j < count - 1 && first_of_provider(snapshots, j) && provider_of(
                                #[trigger] snapshots[j],
                            ) == provider_of(snapshots[i]);
                        assert(grouped_by(snapshots, count, i));
                    } else {
                        assert(more.contains(more[at - before.len()]));
                        assert(provider_of(snapshots[count - 1]) == provider_of(snapshots[i]));
                        assert(grouped_by(snapshots, count, i));
                    }
                }
                if 0 <= i < snapshots.len() && grouped_by(snapshots, count, i) {
                    let j = choose|j: int|
                        0 <= j < count && first_of_provider(snapshots, j) && provider_of(
                            #[trigger] snapshots[j],
                        ) == provider_of(snapshots[i]);
                    if j == count - 1 {
                        assert(more.contains(i));
                        let at = choose|at: int| 0 <= at < more.len() && more[at] == i;
                        assert(after[before.len() + at] == i);
                    } else {
                        assert(grouped_by(snapshots, count - 1, i));
                        assert(before.contains(i));
                        let at = choose|at: int| 0 <= at < before.len() && before[at] == i;
                        assert(after[at] == i);
                    }
                }
            }
            assert forall|a: int, b: int|
                0 <= a < after.len() && 0 <= b < after.len() && a != b implies after[a]
                != after[b] by {
                if a < before.len() && b >= before.len() {
                    assert(before.contains(after[a]) && more.contains(after[b]));
                } else if b < before.len() && a >= before.len() {
                    assert(before.contains(after[b]) && more.contains(after[a]));
                } else if a < before.len() {
                    assert(before[a] != before[b]);
                } else {
                    assert(more[a - before.len()] != more[b - before.len()]);
                }
            }
        } else {
            let earlier = some_first(snapshots, count - 1);
            assert forall|i: int| grouped_by(snapshots, count, i) implies grouped_by(
                snapshots,
                count - 1,
                i,
            ) by {
                let j = choose|j: int|
                    0 <= j < count && first_of_provider(snapshots, j) && provider_of(
                        #[trigger] snapshots[j],
                    ) == provider_of(snapshots[i]);
                assert(j != count - 1);
            }
            assert forall|i: int| grouped_by(snapshots, count - 1, i) implies grouped_by(
                snapshots,
                count,
                i,
            ) by {
                let j = choose|j: int|
                    0 <= j < count - 1 && first_of_provider(snapshots, j) && provider_of(
                        #[trigger] snapshots[j],
                    ) == provider_of(snapshots[i]);
            }
        }
    }
}

/// The first snapshot of the same provider is among the first `count`.
pub open spec fn grouped_by(snapshots: Seq<SnapshotPayload>, count: int, place: int) -> bool {
    exists|j: int|
        0 <= j < count && first_of_provider(snapshots, j) && provider_of(#[trigger] snapshots[j])
            == provider_of(snapshots[place])
}

/// Grouping shows every snapshot, and none twice.
pub proof fn every_snapshot_is_shown_once(snapshots: Seq<SnapshotPayload>)
    ensures
        forall|i: int|
            0 <= i < snapshots.len() <==> #[trigger] grouped_places(
                snapshots,
                snapshots.len() as int,
            ).contains(i),
        grouped_places(snapshots, snapshots.len() as int).no_duplicates(),
{
    let count = snapshots.len() as int;
    grouped_places_hold(snapshots, count);
    assert forall|i: int|
        0 <= i < snapshots.len() <==> #[trigger] grouped_places(snapshots, count).contains(i) by {
        if 0 <= i < snapshots.len() {
            let first = some_first(snapshots, i);
            assert(provider_of(snapshots[first]) == provider_of(snapshots[i]));
            assert(grouped_by(snapshots, count, i));
        }
    }
}

} // verus!
