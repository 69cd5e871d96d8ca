//! What the client and the daemon say to each other.

use vstd::prelude::*;

use crate::error::{ProviderError, QueryOutcome};
use crate::provider::{ProviderDescriptor, ProviderId, ProviderWorkspace, RegistryError};
use crate::usage::{SubscriptionUsage, Timestamp};

verus! {

/// The version of the control protocol this client speaks.
pub const CONTROL_PROTOCOL_VERSION: u32 = 1;

/// Names an account of the daemon.
#[derive(Debug, PartialEq, Eq)]
pub struct AccountId(String);

impl View for AccountId {
    type V = Seq<char>;

    closed spec fn view(&self) -> Seq<char> {
        self.0@
    }
}

impl Clone for AccountId {
    fn clone(&self) -> (result: Self)
        ensures
            result == *self,
    {
        AccountId(self.0.clone())
    }
}

impl AccountId {
    /// The account of that name.
    pub fn new(value: &str) -> (result: Self)
        ensures
            result@ == value@,
    {
        AccountId(value.to_owned())
    }

    /// The id's text.
    pub fn as_str(&self) -> (result: &str)
        ensures
            result@ == self@,
    {
        self.0.as_str()
    }
}

/// An account the daemon keeps.
#[derive(Debug, PartialEq, Eq)]
pub struct Account {
    pub id: AccountId,
    pub provider: ProviderId,
    pub label: Option<String>,
    pub enabled: bool,
    /// The display names of the rows the account hides.
    pub metrics: Vec<String>,
}

/// How a person proves who they are to a provider.
#[derive(Clone, Debug, PartialEq, Eq)]
pub enum AuthMethod {
    BrowserOAuth,
    DeviceCode,
    ApiToken,
    SessionImport,
    Other(String),
}

/// What a sign-in asks a person to enter.
#[derive(Debug, PartialEq, Eq)]
pub struct AuthInputRequest {
    pub description: String,
    pub secret: bool,
}

/// A sign-in that waits for a person.
#[derive(Debug, PartialEq, Eq)]
pub struct AuthChallenge {
    pub flow_id: String,
    pub method: AuthMethod,
    pub verification_uri: Option<String>,
    pub user_code: Option<String>,
    pub expires_at: Option<Timestamp>,
    pub input: Option<AuthInputRequest>,
}

/// Whether an account is signed in.
#[derive(Debug, PartialEq, Eq)]
pub enum AuthState {
    NotAuthenticated,
    Pending { flow_id: String, expires_at: Option<Timestamp> },
    Authenticated {
        account_label: Option<String>,
        expires_at: Option<Timestamp>,
        /// A digest of the identity, which is all anything compares.
        account_key: Option<String>,
    },
    Invalid { reason: String, account_key: Option<String> },
}

/// Asks for a sign-in to begin.
#[derive(Clone, Debug, PartialEq, Eq)]
pub struct AuthStartRequest {
    pub method: Option<AuthMethod>,
    pub redirect_uri: Option<String>,
}

/// Hands in what a sign-in waited for.
#[derive(Clone, Debug, PartialEq, Eq)]
pub struct AuthCompleteRequest {
    pub flow_id: String,
    pub authorization_code: Option<String>,
    pub redirect_uri: Option<String>,
}

/// Asks for an account to be signed out.
#[derive(Clone, Debug, PartialEq, Eq)]
pub struct LogoutRequest {
    pub account_label: Option<String>,
}

/// What the client asks the daemon to do.
#[derive(Clone, Debug, PartialEq, Eq)]
#[allow(inconsistent_fields)]
pub enum ControlCommand {
    DaemonStatus,
    ListProviders,
    CreatePairCode,
    ListDevices,
    RevokeDevice { device_id: String },
    AddAccount { provider: ProviderId, label: Option<String> },
    ListAccounts,
    ShowAccount { account: AccountId },
    SetAccountEnabled { account: AccountId, enabled: bool },
    SetAccountLabel { account: AccountId, label: Option<String> },
    SetAccountMetrics { account: AccountId, metrics: Vec<String> },
    RemoveAccount { account: AccountId },
    StartAuth { provider: ProviderId, account: AccountId, request: AuthStartRequest },
    AuthStatus { provider: ProviderId, account: AccountId },
    CompleteAuth { provider: ProviderId, account: AccountId, request: AuthCompleteRequest },
    Logout { provider: ProviderId, account: AccountId, request: LogoutRequest },
    Probe { account_id: String, wait: bool },
    Show { account_id: Option<String> },
}

impl ControlCommand {
    /// The command may ask the daemon for details of what failed.
    pub open spec fn diagnosable(self) -> bool {
        ||| self is StartAuth
        ||| self is AuthStatus
        ||| self is CompleteAuth
        ||| self is Logout
        ||| self is Probe
        ||| self is Show
    }

    /// Whether the command may ask the daemon for details of what failed.
    pub fn accepts_diagnostics(&self) -> (result: bool)
        ensures
            result == self.diagnosable(),
    {
        matches!(
            self,
            ControlCommand::StartAuth { .. } | ControlCommand::AuthStatus { .. }
                | ControlCommand::CompleteAuth { .. } | ControlCommand::Logout { .. }
                | ControlCommand::Probe { .. } | ControlCommand::Show { .. }
        )
    }
}

/// One request on the control channel.
#[derive(Debug, PartialEq, Eq)]
pub struct ControlRequest {
    pub version: u32,
    pub request_id: String,
    pub command: ControlCommand,
    pub diagnostics: bool,
}

/// Why the daemon's account store refused.
#[derive(Debug, PartialEq, Eq)]
pub enum AccountError {
    NotFound(AccountId),
    Duplicate(AccountId),
}

/// Why the daemon refused a command.
#[derive(Debug, PartialEq, Eq)]
pub enum ControlError {
    Account(AccountError),
    Provider(ProviderError),
    Registry(RegistryError),
    AccountNotFound { account_id: String },
    AccountSelectorNotFound { provider: ProviderId, account_label: Option<String> },
    DeviceNotFound { device_id: String },
    Timeout,
    Cancelled,
    Storage,
    InvalidAccountMetrics,
    InvalidRequest,
    UnsupportedCommand,
}

/// Where the daemon keeps credentials.
#[derive(Clone, Copy, Debug, PartialEq, Eq, Structural)]
pub enum CredentialBackendId {
    LinuxSecretService,
    MacosKeychain,
    WindowsCredentialManager,
    FileFallback,
}

/// The category of the last failure of an account, without any text.
#[derive(Clone, Copy, Debug, PartialEq, Eq, Structural)]
pub enum SanitizedErrorPayload {
    AuthenticationInvalid,
    RateLimited,
    Network,
    ProtocolIncompatible,
    UnsupportedCapability,
    Timeout,
    Internal,
}

/// What the daemon says about one account.
#[derive(Debug, PartialEq, Eq)]
pub struct AccountStatusPayload {
    pub account_id: String,
    pub provider: ProviderId,
    pub enabled: bool,
    pub in_flight: bool,
    pub consecutive_failures: u32,
    pub next_probe_at: Option<Timestamp>,
    pub has_snapshot: bool,
    pub stale: bool,
    pub last_error: Option<SanitizedErrorPayload>,
}

/// What the daemon says about itself.
#[derive(Debug, PartialEq, Eq)]
pub struct DaemonStatusPayload {
    pub shutting_down: bool,
    pub accounts: Vec<AccountStatusPayload>,
    pub credential_backend: CredentialBackendId,
}

/// A one-time code that pairs a device.
#[derive(Debug, PartialEq, Eq)]
pub struct PairCodePayload {
    pub code: String,
    pub expires_at: Timestamp,
}

/// A paired device.
#[derive(Debug, PartialEq, Eq)]
pub struct DevicePayload {
    pub id: String,
    pub name: String,
    pub created_at: Timestamp,
    pub last_seen_at: Timestamp,
}

/// What a probe found.
#[derive(Debug, PartialEq)]
pub struct ProbePayload {
    pub account_id: String,
    pub usage: QueryOutcome<SubscriptionUsage>,
    pub metrics: Vec<String>,
}

/// What the daemon stored of an account's usage.
#[derive(Debug, PartialEq)]
pub struct SnapshotPayload {
    pub account_id: String,
    pub usage: QueryOutcome<SubscriptionUsage>,
    pub last_success_at: Timestamp,
    pub stale: bool,
    pub last_error: Option<SanitizedErrorPayload>,
    pub last_error_at: Option<Timestamp>,
    pub metrics: Vec<String>,
}

/// What the daemon answers.
#[derive(Debug, PartialEq)]
pub enum ControlResult {
    DaemonStatus(DaemonStatusPayload),
    PairCode(PairCodePayload),
    Devices(Vec<DevicePayload>),
    Providers(Vec<ProviderDescriptor>),
    Workspaces(Vec<ProviderWorkspace>),
    Workspace(ProviderWorkspace),
    Usage(QueryOutcome<SubscriptionUsage>),
    AuthChallenge(AuthChallenge),
    AuthState(AuthState),
    Accounts(Vec<Account>),
    Account(Account),
    Probe(ProbePayload),
    Snapshots(Vec<SnapshotPayload>),
    Ack,
    Error(ControlError),
    ProtocolMismatch { supported_version: u32 },
}

/// One answer on the control channel.
#[derive(Debug, PartialEq)]
pub struct ControlResponse {
    pub version: u32,
    pub request_id: String,
    pub result: ControlResult,
    pub diagnostic: Option<String>,
    pub daemon_version: Option<String>,
}

} // verus!
