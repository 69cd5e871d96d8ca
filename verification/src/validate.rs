//! Which wire command a command line sends, and which answers are trusted.
//!
//! A daemon reply is trusted only when it answers the command that was sent:
//! for every command this module says which parameters are unsafe, which wire
//! command it becomes, and which results and refusals legitimately answer it.

use vstd::prelude::*;

use crate::cli::{
    AccountCommand, AuthCommand, AuthMethodArg, Command, DaemonCommand, DeviceCommand, ProbeArgs,
};
use crate::error::QueryOutcome;
use crate::identity;
use crate::inspect;
use crate::protocol::{
    Account, AccountError, AccountId, AccountStatusPayload, AuthCompleteRequest, AuthMethod,
    AuthStartRequest, ControlCommand, ControlError, ControlResult, DaemonStatusPayload,
    DevicePayload, LogoutRequest, PairCodePayload, SnapshotPayload,
};
use crate::provider::{ProviderDescriptor, ProviderId, RegistryError};
use crate::summary::filter;
use crate::summary::filter::MetricFilter;
use crate::text;
use crate::usage::{clone_optional_text, SubscriptionUsage};

verus! {

/// The text of an optional string.
pub open spec fn optional_view(text: Option<String>) -> Option<Seq<char>> {
    match text {
        Some(text) => Some(text@),
        None => None,
    }
}

/// The text of an optional string slice.
pub open spec fn label_view(label: Option<&'static str>) -> Option<Seq<char>> {
    match label {
        Some(label) => Some(label@),
        None => None,
    }
}

/// Whether two optional texts are the same.
fn same_optional(left: &Option<String>, right: &Option<String>) -> (result: bool)
    ensures
        result == (optional_view(*left) == optional_view(*right)),
{
    match (left, right) {
        (Some(left), Some(right)) => text::same_text(left.as_str(), right.as_str()),
        (None, None) => true,
        _ => false,
    }
}

/// The label, where the text holds an unsafe character.
pub open spec fn field_label(text: Seq<char>, label: Seq<char>) -> Option<Seq<char>> {
    if identity::unsafe_text(text) {
        Some(label)
    } else {
        None
    }
}

/// The label, where the optional text is there and holds an unsafe character.
pub open spec fn option_label(text: Option<String>, label: Seq<char>) -> Option<Seq<char>> {
    match text {
        Some(text) => field_label(text@, label),
        None => None,
    }
}

/// The label, where one of the texts holds an unsafe character.
pub open spec fn list_label(texts: Seq<String>, label: Seq<char>) -> Option<Seq<char>> {
    if inspect::any_unsafe(texts) {
        Some(label)
    } else {
        None
    }
}

/// The first label that is there.
pub open spec fn first_label(
    first: Option<Seq<char>>,
    second: Option<Seq<char>>,
) -> Option<Seq<char>> {
    match first {
        Some(label) => Some(label),
        None => second,
    }
}

/// `Some(label)` when `value` carries a control character, else `None`.
pub fn unsafe_field(value: &str, label: &'static str) -> (result: Option<&'static str>)
    ensures
        label_view(result) == field_label(value@, label@),
{
    if identity::has_unsafe_character(value) {
        Some(label)
    } else {
        None
    }
}

/// Same check for an optional field.
pub fn unsafe_option(value: &Option<String>, label: &'static str) -> (result: Option<&'static str>)
    ensures
        label_view(result) == option_label(*value, label@),
{
    match value {
        Some(value) => unsafe_field(value.as_str(), label),
        None => None,
    }
}

fn unsafe_list(values: &Vec<String>, label: &'static str) -> (result: Option<&'static str>)
    ensures
        label_view(result) == list_label(values@, label@),
{
    let mut index: usize = 0;
    while index < values.len()
        invariant
            index <= values@.len(),
            forall|i: int| 0 <= i < index ==> !identity::unsafe_text((#[trigger] values@[i])@),
        decreases values.len() - index,
    {
        if identity::has_unsafe_character(values[index].as_str()) {
            assert(identity::unsafe_text(values@[index as int]@));
            return Some(label);
        }
        index = index + 1;
    }
    None
}

fn or_label(first: Option<&'static str>, second: Option<&'static str>) -> (result: Option<
    &'static str,
>)
    ensures
        label_view(result) == first_label(label_view(first), label_view(second)),
{
    match first {
        Some(label) => Some(label),
        None => second,
    }
}

/// The account a command is about.
pub open spec fn account_of(command: AccountCommand) -> Seq<char> {
    match command {
        AccountCommand::Show { account } => account@,
        AccountCommand::Enable { account } => account@,
        AccountCommand::Disable { account } => account@,
        AccountCommand::Label { account, .. } => account@,
        AccountCommand::Metrics { account, .. } => account@,
        AccountCommand::Remove { account } => account@,
        AccountCommand::Add { .. } | AccountCommand::List => Seq::empty(),
    }
}

/// The account a command is about, for the commands that take one.
pub fn account_field(command: &AccountCommand) -> (result: &str)
    requires
        !(command is Add),
        !(command is List),
    ensures
        result@ == account_of(*command),
{
    match command {
        AccountCommand::Show { account }
        | AccountCommand::Enable { account }
        | AccountCommand::Disable { account }
        | AccountCommand::Remove { account } => account.as_str(),
        AccountCommand::Label { account, .. } => account.as_str(),
        AccountCommand::Metrics { account, .. } => account.as_str(),
        AccountCommand::Add { .. } | AccountCommand::List => "",
    }
}

/// The first free-text parameter that holds an unsafe character.
///
/// `code` is what the environment variable holds that the command names for
/// the authorization code, where it is set.
pub open spec fn unsafe_parameter(command: Command, code: Option<String>) -> Option<Seq<char>> {
    match command {
        Command::Daemon { .. } | Command::Provider { .. } | Command::Tui(_) => None,
        Command::Device { command: DeviceCommand::Revoke { device_id } } => field_label(
            device_id@,
            "DEVICE_ID"@,
        ),
        Command::Device { .. } => None,
        Command::Account { command } => match command {
            AccountCommand::Add { provider, label } => first_label(
                field_label(provider@, "PROVIDER_ID"@),
                option_label(label, "--label"@),
            ),
            AccountCommand::List => None,
            AccountCommand::Label { account, label } => first_label(
                field_label(account@, "ACCOUNT_ID"@),
                option_label(label, "ACCOUNT_LABEL"@),
            ),
            AccountCommand::Metrics { account, metrics } => first_label(
                field_label(account@, "ACCOUNT_ID"@),
                list_label(metrics@, "METRIC"@),
            ),
            _ => field_label(account_of(command), "ACCOUNT_ID"@),
        },
        Command::Auth { command } => match command {
            AuthCommand::Login { provider, account, .. } => first_label(
                option_label(provider, "PROVIDER_ID"@),
                option_label(account, "--account"@),
            ),
            AuthCommand::Status { provider, account } => first_label(
                field_label(provider@, "PROVIDER_ID"@),
                field_label(account@, "--account"@),
            ),
            AuthCommand::Complete {
                provider,
                account,
                flow_id,
                redirect_uri,
                authorization_code_env,
            } => first_label(
                field_label(provider@, "PROVIDER_ID"@),
                first_label(
                    field_label(account@, "--account"@),
                    first_label(
                        field_label(flow_id@, "FLOW_ID"@),
                        first_label(
                            option_label(redirect_uri, "--redirect-uri"@),
                            first_label(
                                field_label(authorization_code_env@, "--authorization-code-env"@),
                                option_label(code, "authorization_code_env"@),
                            ),
                        ),
                    ),
                ),
            ),
            AuthCommand::Logout { provider, account, account_label } => first_label(
                field_label(provider@, "PROVIDER_ID"@),
                first_label(
                    field_label(account@, "--account"@),
                    option_label(account_label, "--account-label"@),
                ),
            ),
        },
        Command::Probe(args) => field_label(args.account@, "ACCOUNT_ID"@),
        Command::Show(args) => first_label(
            option_label(args.account, "ACCOUNT_ID"@),
            list_label(args.metric@, "--metric"@),
        ),
    }
}

/// Names the first free-text field holding an unsafe control character.
///
/// A command line that was parsed is already clean; this repeats the check so
/// that a command built in another way cannot smuggle control characters to the
/// daemon either. `code` is what the environment variable holds that the
/// command names for the authorization code, where it is set.
pub fn unsafe_control_param_name(command: &Command, code: &Option<String>) -> (result: Option<
    &'static str,
>)
    ensures
        label_view(result) == unsafe_parameter(*command, *code),
{
    match command {
        Command::Daemon { .. } | Command::Provider { .. } | Command::Tui(_) => None,
        Command::Device { command } => match command {
            DeviceCommand::Revoke { device_id } => unsafe_field(device_id.as_str(), "DEVICE_ID"),
            _ => None,
        },
        Command::Account { command } => match command {
            AccountCommand::Add { provider, label } => or_label(
                unsafe_field(provider.as_str(), "PROVIDER_ID"),
                unsafe_option(label, "--label"),
            ),
            AccountCommand::List => None,
            AccountCommand::Label { account, label } => or_label(
                unsafe_field(account.as_str(), "ACCOUNT_ID"),
                unsafe_option(label, "ACCOUNT_LABEL"),
            ),
            AccountCommand::Metrics { account, metrics } => or_label(
                unsafe_field(account.as_str(), "ACCOUNT_ID"),
                unsafe_list(metrics, "METRIC"),
            ),
            _ => unsafe_field(account_field(command), "ACCOUNT_ID"),
        },
        Command::Auth { command } => match command {
            AuthCommand::Login { provider, account, .. } => or_label(
                unsafe_option(provider, "PROVIDER_ID"),
                unsafe_option(account, "--account"),
            ),
            AuthCommand::Status { provider, account } => or_label(
                unsafe_field(provider.as_str(), "PROVIDER_ID"),
                unsafe_field(account.as_str(), "--account"),
            ),
            AuthCommand::Complete {
                provider,
                account,
                flow_id,
                redirect_uri,
                authorization_code_env,
            } => or_label(
                unsafe_field(provider.as_str(), "PROVIDER_ID"),
                or_label(
                    unsafe_field(account.as_str(), "--account"),
                    or_label(
                        unsafe_field(flow_id.as_str(), "FLOW_ID"),
                        or_label(
                            unsafe_option(redirect_uri, "--redirect-uri"),
                            or_label(
                                unsafe_field(
                                    authorization_code_env.as_str(),
                                    "--authorization-code-env",
                                ),
                                unsafe_option(code, "authorization_code_env"),
                            ),
                        ),
                    ),
                ),
            ),
            AuthCommand::Logout { provider, account, account_label } => or_label(
                unsafe_field(provider.as_str(), "PROVIDER_ID"),
                or_label(
                    unsafe_field(account.as_str(), "--account"),
                    unsafe_option(account_label, "--account-label"),
                ),
            ),
        },
        Command::Probe(args) => unsafe_field(args.account.as_str(), "ACCOUNT_ID"),
        Command::Show(args) => or_label(
            unsafe_option(&args.account, "ACCOUNT_ID"),
            unsafe_list(&args.metric, "--metric"),
        ),
    }
}

/// A copy of a list of texts.
pub fn clone_texts(texts: &Vec<String>) -> (result: Vec<String>)
    ensures
        result@ == texts@,
{
    let mut result: Vec<String> = Vec::new();
    let mut index: usize = 0;
    while index < texts.len()
        invariant
            index <= texts@.len(),
            result@ == texts@.take(index as int),
        decreases texts.len() - index,
    {
        result.push(texts[index].clone());
        index = index + 1;
        assert(texts@.take(index as int) == texts@.take(index - 1).push(texts@[index - 1]));
    }
    assert(texts@.take(index as int) == texts@);
    result
}

/// A filter accepts the names.
pub open spec fn acceptable(names: Seq<Seq<char>>) -> bool {
    names.len() <= filter::MAX_METRIC_NAMES && filter::first_problem(names) is None
}

/// The names as a filter stores them, or as they are where no filter would.
pub open spec fn stored_names(names: Seq<Seq<char>>) -> Seq<Seq<char>> {
    if acceptable(names) {
        filter::normalized(names)
    } else {
        names
    }
}

/// The names a validated filter stores: trimmed and deduplicated.
pub fn normalized_metric_names(names: &Vec<String>) -> (result: Vec<String>)
    ensures
        filter::text_views(result@) == stored_names(filter::text_views(names@)),
{
    match MetricFilter::new(clone_texts(names)) {
        Ok(filter) => {
            let kept = filter.names();
            let mut result: Vec<String> = Vec::new();
            let mut index: usize = 0;
            while index < kept.len()
                invariant
                    index <= kept@.len(),
                    result@ == kept@.take(index as int),
                decreases kept.len() - index,
            {
                result.push(kept[index].clone());
                index = index + 1;
                assert(kept@.take(index as int) == kept@.take(index - 1).push(kept@[index - 1]));
            }
            assert(kept@.take(index as int) == kept@);
            result
        },
        Err(_) => clone_texts(names),
    }
}

/// The command goes to the daemon: it is neither managed locally nor the
/// interactive sign-in.
pub open spec fn dispatched(command: Command) -> bool {
    match command {
        Command::Daemon { command } => command is Status,
        Command::Auth { command: AuthCommand::Login { provider, account, .. } } => provider is Some
            && account is Some,
        _ => true,
    }
}

/// The sign-in method asked for by that name.
pub open spec fn wire_method(method: Option<AuthMethodArg>) -> Option<AuthMethod> {
    match method {
        Some(method) => Some(crate::cli::method_of(method)),
        None => None,
    }
}

/// The wire command that the command line becomes.
pub open spec fn wire_command(
    command: Command,
    code: Option<String>,
    wire: ControlCommand,
) -> bool {
    match command {
        Command::Daemon { .. } => wire is DaemonStatus,
        Command::Provider { .. } => wire is ListProviders,
        Command::Device { command } => match command {
            DeviceCommand::Pair => wire is CreatePairCode,
            DeviceCommand::List => wire is ListDevices,
            DeviceCommand::Revoke { device_id } => wire == (ControlCommand::RevokeDevice {
                device_id,
            }),
        },
        Command::Account { command } => match command {
            AccountCommand::Add { provider, label } => wire matches ControlCommand::AddAccount {
                provider: id,
                label: given,
            } && id@ == provider@ && given == label,
            AccountCommand::List => wire is ListAccounts,
            AccountCommand::Show { account } => wire matches ControlCommand::ShowAccount {
                account: id,
            } && id@ == account@,
            AccountCommand::Enable { account } => wire matches ControlCommand::SetAccountEnabled {
                account: id,
                enabled,
            } && id@ == account@ && enabled,
            AccountCommand::Disable { account } => wire matches ControlCommand::SetAccountEnabled {
                account: id,
                enabled,
            } && id@ == account@ && !enabled,
            AccountCommand::Label { account, label } => wire matches
                ControlCommand::SetAccountLabel { account: id, label: given } && id@ == account@
                && given == label,
            AccountCommand::Metrics { account, metrics } => wire matches
                ControlCommand::SetAccountMetrics { account: id, metrics: names } && id@ == account@
                && filter::text_views(names@) == stored_names(filter::text_views(metrics@)),
            AccountCommand::Remove { account } => wire matches ControlCommand::RemoveAccount {
                account: id,
            } && id@ == account@,
        },
        Command::Auth { command } => match command {
            AuthCommand::Login { provider, account, method } => wire matches
                ControlCommand::StartAuth { provider: id, account: owner, request } && Some(id@)
                == optional_view(provider) && Some(owner@) == optional_view(account)
                && request.method == wire_method(method) && request.redirect_uri is None,
            AuthCommand::Status { provider, account } => wire matches ControlCommand::AuthStatus {
                provider: id,
                account: owner,
            } && id@ == provider@ && owner@ == account@,
            AuthCommand::Complete { provider, account, flow_id, redirect_uri, .. } => wire matches
                ControlCommand::CompleteAuth { provider: id, account: owner, request } && id@
                == provider@ && owner@ == account@ && request.flow_id == flow_id
                && request.authorization_code == code && request.redirect_uri == redirect_uri,
            AuthCommand::Logout { provider, account, account_label } => wire matches
                ControlCommand::Logout { provider: id, account: owner, request } && id@ == provider@
                && owner@ == account@ && request.account_label == account_label,
        },
        Command::Probe(args) => wire == (ControlCommand::Probe {
            account_id: args.account,
            wait: args.wait,
        }),
        Command::Show(args) => wire == (ControlCommand::Show { account_id: args.account }),
        Command::Tui(_) => wire matches ControlCommand::Show { account_id } && account_id is None,
    }
}

/// The wire command `command` sends to the daemon. `code` is what the
/// environment variable holds that the command names for the authorization
/// code, where it is set.
pub fn to_control_command(command: &Command, code: &Option<String>) -> (result: ControlCommand)
    requires
        dispatched(*command),
    ensures
        wire_command(*command, *code, result),
{
    match command {
        Command::Daemon { .. } => ControlCommand::DaemonStatus,
        Command::Provider { .. } => ControlCommand::ListProviders,
        Command::Device { command } => match command {
            DeviceCommand::Pair => ControlCommand::CreatePairCode,
            DeviceCommand::List => ControlCommand::ListDevices,
            DeviceCommand::Revoke { device_id } => ControlCommand::RevokeDevice {
                device_id: device_id.clone(),
            },
        },
        Command::Account { command } => match command {
            AccountCommand::Add { provider, label } => ControlCommand::AddAccount {
                provider: ProviderId::new(provider.as_str()),
                label: clone_optional_text(label),
            },
            AccountCommand::List => ControlCommand::ListAccounts,
            AccountCommand::Show { account } => ControlCommand::ShowAccount {
                account: AccountId::new(account.as_str()),
            },
            AccountCommand::Enable { account } => ControlCommand::SetAccountEnabled {
                account: AccountId::new(account.as_str()),
                enabled: true,
            },
            AccountCommand::Disable { account } => ControlCommand::SetAccountEnabled {
                account: AccountId::new(account.as_str()),
                enabled: false,
            },
            AccountCommand::Label { account, label } => ControlCommand::SetAccountLabel {
                account: AccountId::new(account.as_str()),
                label: clone_optional_text(label),
            },
            AccountCommand::Metrics { account, metrics } => ControlCommand::SetAccountMetrics {
                account: AccountId::new(account.as_str()),
                metrics: normalized_metric_names(metrics),
            },
            AccountCommand::Remove { account } => ControlCommand::RemoveAccount {
                account: AccountId::new(account.as_str()),
            },
        },
        Command::Auth { command } => match command {
            AuthCommand::Login { provider, account, method } => {
                let provider = match provider {
                    Some(provider) => provider.as_str(),
                    None => "",
                };
                let account = match account {
                    Some(account) => account.as_str(),
                    None => "",
                };
                let method = match method {
                    Some(method) => Some(AuthMethod::from(*method)),
                    None => None,
                };
                ControlCommand::StartAuth {
                    provider: ProviderId::new(provider),
                    account: AccountId::new(account),
                    request: AuthStartRequest { method, redirect_uri: None },
                }
            },
            AuthCommand::Status { provider, account } => ControlCommand::AuthStatus {
                provider: ProviderId::new(provider.as_str()),
                account: AccountId::new(account.as_str()),
            },
            AuthCommand::Complete { provider, account, flow_id, redirect_uri, .. } => {
                ControlCommand::CompleteAuth {
                    provider: ProviderId::new(provider.as_str()),
                    account: AccountId::new(account.as_str()),
                    request: AuthCompleteRequest {
                        flow_id: flow_id.clone(),
                        authorization_code: clone_optional_text(code),
                        redirect_uri: clone_optional_text(redirect_uri),
                    },
                }
            },
            AuthCommand::Logout { provider, account, account_label } => ControlCommand::Logout {
                provider: ProviderId::new(provider.as_str()),
                account: AccountId::new(account.as_str()),
                request: LogoutRequest { account_label: clone_optional_text(account_label) },
            },
        },
        Command::Probe(args) => ControlCommand::Probe {
            account_id: args.account.clone(),
            wait: args.wait,
        },
        Command::Show(args) => ControlCommand::Show {
            account_id: clone_optional_text(&args.account),
        },
        Command::Tui(_) => ControlCommand::Show { account_id: None },
    }
}

/// A complete outcome, or a partial one that says what is missing.
pub open spec fn valid_outcome(outcome: QueryOutcome<SubscriptionUsage>) -> bool {
    outcome matches QueryOutcome::Partial { failures, .. } ==> failures@.len() > 0
}

/// Whether the outcome is complete, or partial and says what is missing.
pub fn usage_outcome_is_valid(outcome: &QueryOutcome<SubscriptionUsage>) -> (result: bool)
    ensures
        result == valid_outcome(*outcome),
{
    match outcome {
        QueryOutcome::Complete { .. } => true,
        QueryOutcome::Partial { failures, .. } => !failures.is_empty(),
    }
}

/// A snapshot whose parts agree: exactly a stale one carries a last error and
/// its time.
pub open spec fn valid_snapshot(snapshot: SnapshotPayload) -> bool {
    &&& valid_outcome(snapshot.usage)
    &&& snapshot.last_error is Some == snapshot.stale
    &&& snapshot.last_error_at is Some == snapshot.stale
}

/// Whether the parts of a snapshot agree with each other.
pub fn snapshot_is_valid(snapshot: &SnapshotPayload) -> (result: bool)
    ensures
        result == valid_snapshot(*snapshot),
{
    usage_outcome_is_valid(&snapshot.usage) && if snapshot.stale {
        snapshot.last_error.is_some() && snapshot.last_error_at.is_some()
    } else {
        snapshot.last_error.is_none() && snapshot.last_error_at.is_none()
    }
}

/// At most one snapshot, and it is a valid one of the account.
pub open spec fn match_request(snapshots: Seq<SnapshotPayload>, requested: Seq<char>) -> bool {
    &&& snapshots.len() <= 1
    &&& forall|i: int|
        0 <= i < snapshots.len() ==> (#[trigger] snapshots[i]).account_id@ == requested
            && valid_snapshot(snapshots[i])
}

/// Whether the snapshots answer a request for one account.
pub fn snapshots_match(snapshots: &Vec<SnapshotPayload>, requested: &str) -> (result: bool)
    ensures
        result == match_request(snapshots@, requested@),
{
    if snapshots.len() > 1 {
        return false;
    }
    if snapshots.len() == 1 {
        let good = text::same_text(snapshots[0].account_id.as_str(), requested)
            && snapshot_is_valid(&snapshots[0]);
        assert(match_request(snapshots@, requested@) ==> snapshots@[0].account_id@ == requested@
            && valid_snapshot(snapshots@[0]));
        return good;
    }
    true
}

/// Valid snapshots, no two of the same account.
pub open spec fn unique_snapshots(snapshots: Seq<SnapshotPayload>) -> bool {
    &&& forall|i: int| 0 <= i < snapshots.len() ==> valid_snapshot(#[trigger] snapshots[i])
    &&& forall|i: int, j: int|
        0 <= i < j < snapshots.len() ==> (#[trigger] snapshots[i]).account_id@ != (
        #[trigger] snapshots[j]).account_id@
}

/// Whether the snapshots are valid and no two are of the same account.
pub fn snapshots_are_unique(snapshots: &Vec<SnapshotPayload>) -> (result: bool)
    ensures
        result == unique_snapshots(snapshots@),
{
    let mut index: usize = 0;
    while index < snapshots.len()
        invariant
            index <= snapshots@.len(),
            forall|i: int| 0 <= i < index ==> valid_snapshot(#[trigger] snapshots@[i]),
            forall|i: int, j: int|
                0 <= i < index && i < j < snapshots@.len() ==> (
                #[trigger] snapshots@[i]).account_id@ != (#[trigger] snapshots@[j]).account_id@,
        decreases snapshots.len() - index,
    {
        if !snapshot_is_valid(&snapshots[index]) {
            assert(!valid_snapshot(snapshots@[index as int]));
            return false;
        }
        let mut other: usize = index + 1;
        while other < snapshots.len()
            invariant
                index < other <= snapshots@.len(),
                forall|j: int|
                    index < j < other ==> snapshots@[index as int].account_id@ != (
                    #[trigger] snapshots@[j]).account_id@,
            decreases snapshots.len() - other,
        {
            if text::same_text(
                snapshots[index].account_id.as_str(),
                snapshots[other].account_id.as_str(),
            ) {
                assert(snapshots@[index as int].account_id@ == snapshots@[other as int].account_id@);
                return false;
            }
            other = other + 1;
        }
        index = index + 1;
    }
    true
}

/// The characters of a pair code: the digits without `0` and `1`, and the capital
/// letters without `I`, `L`, `O` and `U`.
pub open spec fn pair_code_character(character: char) -> bool {
    ||| '2' <= character <= '9'
    ||| 'A' <= character <= 'Z' && character != 'I' && character != 'L' && character != 'O'
        && character != 'U'
}

/// Three code characters, a hyphen and three more.
pub open spec fn valid_pair_code(code: Seq<char>) -> bool {
    &&& code.len() == 7
    &&& code[3] == '-'
    &&& forall|i: int| 0 <= i < 7 && i != 3 ==> pair_code_character(#[trigger] code[i])
}

/// Whether the pair code has the form every pair code has.
pub fn pair_code_is_valid(pair_code: &PairCodePayload) -> (result: bool)
    ensures
        result == valid_pair_code(pair_code.code@),
{
    let code: Vec<char> = text::characters(pair_code.code.as_str());
    if code.len() != 7 || code[3] != '-' {
        return false;
    }
    let mut index: usize = 0;
    while index < 7
        invariant
            code@ == pair_code.code@,
            code@.len() == 7,
            code@[3] == '-',
            index <= 7,
            forall|i: int| 0 <= i < index && i != 3 ==> pair_code_character(#[trigger] code@[i]),
        decreases 7 - index,
    {
        let character: char = code[index];
        let accepted = ('2' <= character && character <= '9') || ('A' <= character && character
            <= 'Z' && character != 'I' && character != 'L' && character != 'O' && character != 'U');
        if index != 3 && !accepted {
            assert(!pair_code_character(code@[index as int]));
            return false;
        }
        index = index + 1;
    }
    true
}

/// Only accounts with a snapshot are stale, and no account is listed twice.
pub open spec fn well_formed_status(accounts: Seq<AccountStatusPayload>) -> bool {
    &&& forall|i: int|
        0 <= i < accounts.len() ==> ((#[trigger] accounts[i]).stale ==> accounts[i].has_snapshot)
    &&& forall|i: int, j: int|
        0 <= i < j < accounts.len() ==> (#[trigger] accounts[i]).account_id@ != (
        #[trigger] accounts[j]).account_id@
}

/// The payload checks a `DaemonStatus` reply must pass to be trusted, shared
/// by the response validator and the readiness probe.
pub fn daemon_status_payload_is_well_formed(status: &DaemonStatusPayload) -> (result: bool)
    ensures
        result == well_formed_status(status.accounts@),
{
    let accounts = &status.accounts;
    let mut index: usize = 0;
    while index < accounts.len()
        invariant
            accounts@ == status.accounts@,
            index <= accounts@.len(),
            forall|i: int|
                0 <= i < index ==> ((#[trigger] accounts@[i]).stale ==> accounts@[i].has_snapshot),
            forall|i: int, j: int|
                0 <= i < index && i < j < accounts@.len() ==> (#[trigger] accounts@[i]).account_id@
                    != (#[trigger] accounts@[j]).account_id@,
        decreases accounts.len() - index,
    {
        if accounts[index].stale && !accounts[index].has_snapshot {
            assert(accounts@[index as int].stale);
            return false;
        }
        let mut other: usize = index + 1;
        while other < accounts.len()
            invariant
                accounts@ == status.accounts@,
                index < other <= accounts@.len(),
                forall|j: int|
                    index < j < other ==> accounts@[index as int].account_id@ != (
                    #[trigger] accounts@[j]).account_id@,
            decreases accounts.len() - other,
        {
            if text::same_text(
                accounts[index].account_id.as_str(),
                accounts[other].account_id.as_str(),
            ) {
                assert(accounts@[index as int].account_id@ == accounts@[other as int].account_id@);
                return false;
            }
            other = other + 1;
        }
        index = index + 1;
    }
    true
}

/// No provider is listed twice.
pub open spec fn unique_providers(providers: Seq<ProviderDescriptor>) -> bool {
    forall|i: int, j: int|
        0 <= i < j < providers.len() ==> (#[trigger] providers[i]).id@ != (
        #[trigger] providers[j]).id@
}

fn providers_are_unique(providers: &Vec<ProviderDescriptor>) -> (result: bool)
    ensures
        result == unique_providers(providers@),
{
    let mut index: usize = 0;
    while index < providers.len()
        invariant
            index <= providers@.len(),
            forall|i: int, j: int|
                0 <= i < index && i < j < providers@.len() ==> (#[trigger] providers@[i]).id@ != (
                #[trigger] providers@[j]).id@,
        decreases providers.len() - index,
    {
        let mut other: usize = index + 1;
        while other < providers.len()
            invariant
                index < other <= providers@.len(),
                forall|j: int|
                    index < j < other ==> providers@[index as int].id@ != (
                    #[trigger] providers@[j]).id@,
            decreases providers.len() - other,
        {
            if text::same_text(providers[index].id.as_str(), providers[other].id.as_str()) {
                assert(providers@[index as int].id@ == providers@[other as int].id@);
                return false;
            }
            other = other + 1;
        }
        index = index + 1;
    }
    true
}

/// No account is listed twice.
pub open spec fn unique_accounts(accounts: Seq<Account>) -> bool {
    forall|i: int, j: int|
        0 <= i < j < accounts.len() ==> (#[trigger] accounts[i]).id@ != (#[trigger] accounts[j]).id@
}

fn accounts_are_unique(accounts: &Vec<Account>) -> (result: bool)
    ensures
        result == unique_accounts(accounts@),
{
    let mut index: usize = 0;
    while index < accounts.len()
        invariant
            index <= accounts@.len(),
            forall|i: int, j: int|
                0 <= i < index && i < j < accounts@.len() ==> (#[trigger] accounts@[i]).id@ != (
                #[trigger] accounts@[j]).id@,
        decreases accounts.len() - index,
    {
        let mut other: usize = index + 1;
        while other < accounts.len()
            invariant
                index < other <= accounts@.len(),
                forall|j: int|
                    index < j < other ==> accounts@[index as int].id@ != (
                    #[trigger] accounts@[j]).id@,
            decreases accounts.len() - other,
        {
            if text::same_text(accounts[index].id.as_str(), accounts[other].id.as_str()) {
                assert(accounts@[index as int].id@ == accounts@[other as int].id@);
                return false;
            }
            other = other + 1;
        }
        index = index + 1;
    }
    true
}

/// A device with an id and a name that was not seen before it existed.
pub open spec fn valid_device(device: DevicePayload) -> bool {
    &&& device.id@.len() > 0
    &&& device.name@.len() > 0
    &&& !device.last_seen_at.earlier_than(device.created_at)
}

/// Valid devices, none listed twice.
pub open spec fn valid_devices(devices: Seq<DevicePayload>) -> bool {
    &&& forall|i: int| 0 <= i < devices.len() ==> valid_device(#[trigger] devices[i])
    &&& forall|i: int, j: int|
        0 <= i < j < devices.len() ==> (#[trigger] devices[i]).id@ != (#[trigger] devices[j]).id@
}

fn devices_are_valid(devices: &Vec<DevicePayload>) -> (result: bool)
    ensures
        result == valid_devices(devices@),
{
    let mut index: usize = 0;
    while index < devices.len()
        invariant
            index <= devices@.len(),
            forall|i: int| 0 <= i < index ==> valid_device(#[trigger] devices@[i]),
            forall|i: int, j: int|
                0 <= i < index && i < j < devices@.len() ==> (#[trigger] devices@[i]).id@ != (
                #[trigger] devices@[j]).id@,
        decreases devices.len() - index,
    {
        let device = &devices[index];
        if device.id.as_str().is_empty() || device.name.as_str().is_empty()
            || device.last_seen_at.is_before(&device.created_at) {
            assert(!valid_device(devices@[index as int]));
            return false;
        }
        let mut other: usize = index + 1;
        while other < devices.len()
            invariant
                index < other <= devices@.len(),
                forall|j: int|
                    index < j < other ==> devices@[index as int].id@ != (#[trigger] devices@[j]).id@,
            decreases devices.len() - other,
        {
            if text::same_text(devices[index].id.as_str(), devices[other].id.as_str()) {
                assert(devices@[index as int].id@ == devices@[other as int].id@);
                return false;
            }
            other = other + 1;
        }
        index = index + 1;
    }
    true
}

/// The text of an optional string is the given one.
fn optional_is(text: &Option<String>, expected: &str) -> (result: bool)
    ensures
        result == (optional_view(*text) == Some(expected@)),
{
    match text {
        Some(text) => text::same_text(text.as_str(), expected),
        None => false,
    }
}

/// The names of an account are the given ones.
fn same_names(left: &Vec<String>, right: &Vec<String>) -> (result: bool)
    ensures
        result == (filter::text_views(left@) == filter::text_views(right@)),
{
    let ghost first = filter::text_views(left@);
    let ghost second = filter::text_views(right@);
    if left.len() != right.len() {
        assert(first.len() != second.len());
        return false;
    }
    let mut index: usize = 0;
    while index < left.len()
        invariant
            first == filter::text_views(left@),
            second == filter::text_views(right@),
            index <= left@.len() == right@.len(),
            forall|i: int| 0 <= i < index ==> first[i] == second[i],
        decreases left.len() - index,
    {
        if !text::same_text(left[index].as_str(), right[index].as_str()) {
            assert(first[index as int] != second[index as int]);
            return false;
        }
        index = index + 1;
    }
    assert(first =~= second);
    true
}

/// The result, which is neither a refusal nor a protocol mismatch, answers the
/// command.
pub open spec fn result_answers(command: Command, result: ControlResult) -> bool {
    match command {
        Command::Daemon { command } => command is Status
            && (result matches ControlResult::DaemonStatus(status) && well_formed_status(
            status.accounts@,
        )),
        Command::Provider { .. } => result matches ControlResult::Providers(providers)
            && unique_providers(providers@),
        Command::Device { command } => match command {
            DeviceCommand::Pair => result matches ControlResult::PairCode(code) && valid_pair_code(
                code.code@,
            ),
            DeviceCommand::List => result matches ControlResult::Devices(devices) && valid_devices(
                devices@,
            ),
            DeviceCommand::Revoke { .. } => result is Ack,
        },
        Command::Account { command } => match command {
            AccountCommand::Add { provider, label } => result matches ControlResult::Account(
                account,
            ) && account.provider@ == provider@ && optional_view(account.label) == optional_view(
                label,
            ) && account.enabled,
            AccountCommand::List => result matches ControlResult::Accounts(accounts)
                && unique_accounts(accounts@),
            AccountCommand::Show { account } => result matches ControlResult::Account(found)
                && found.id@ == account@,
            AccountCommand::Enable { account } => result matches ControlResult::Account(found)
                && found.id@ == account@ && found.enabled,
            AccountCommand::Disable { account } => result matches ControlResult::Account(found)
                && found.id@ == account@ && !found.enabled,
            AccountCommand::Label { account, label } => result matches ControlResult::Account(found)
                && found.id@ == account@ && optional_view(found.label) == optional_view(label),
            AccountCommand::Metrics { account, metrics } => result matches ControlResult::Account(
                found,
            ) && found.id@ == account@ && filter::text_views(found.metrics@) == stored_names(
                filter::text_views(metrics@),
            ),
            AccountCommand::Remove { .. } => result is Ack,
        },
        Command::Auth { command } => match command {
            AuthCommand::Login { .. } => result is AuthChallenge,
            AuthCommand::Status { .. } => result is AuthState,
            AuthCommand::Complete { .. } => result is AuthState,
            AuthCommand::Logout { .. } => result is Ack,
        },
        Command::Probe(args) => if args.wait {
            result matches ControlResult::Probe(payload) && payload.account_id@ == args.account@
                && valid_outcome(payload.usage)
        } else {
            result is Ack
        },
        Command::Show(args) => result matches ControlResult::Snapshots(snapshots)
            && match args.account {
            Some(requested) => match_request(snapshots@, requested@),
            None => unique_snapshots(snapshots@),
        },
        Command::Tui(_) => result matches ControlResult::Snapshots(snapshots) && unique_snapshots(
            snapshots@,
        ),
    }
}

/// The account of the refusal is the one the command is about.
pub open spec fn names_own_account(command: AccountCommand, error: ControlError) -> bool {
    error matches ControlError::Account(AccountError::NotFound(account)) && account@ == account_of(
        command,
    )
}

/// The provider the sign-in command names, where it names one.
pub open spec fn auth_provider(command: AuthCommand) -> Option<Seq<char>> {
    match command {
        AuthCommand::Login { provider, .. } => optional_view(provider),
        AuthCommand::Status { provider, .. } => Some(provider@),
        AuthCommand::Complete { provider, .. } => Some(provider@),
        AuthCommand::Logout { provider, .. } => Some(provider@),
    }
}

/// The account the sign-in command names, where it names one.
pub open spec fn auth_account(command: AuthCommand) -> Option<Seq<char>> {
    match command {
        AuthCommand::Login { account, .. } => optional_view(account),
        AuthCommand::Status { account, .. } => Some(account@),
        AuthCommand::Complete { account, .. } => Some(account@),
        AuthCommand::Logout { account, .. } => Some(account@),
    }
}

/// A refusal a sign-in command may receive: a provider failure, or one that
/// names the request's own provider or account.
pub open spec fn auth_refusal(command: AuthCommand, error: ControlError) -> bool {
    match error {
        ControlError::Provider(_) => true,
        ControlError::Account(AccountError::NotFound(account)) => auth_account(command) == Some(
            account@,
        ),
        ControlError::Registry(RegistryError::NotFound(provider)) => auth_provider(command) == Some(
            provider@,
        ),
        ControlError::Registry(RegistryError::InstanceUnavailable(provider)) => auth_provider(
            command,
        ) == Some(provider@),
        ControlError::Registry(RegistryError::InstanceFailed { provider, .. }) => auth_provider(
            command,
        ) == Some(provider@),
        _ => false,
    }
}

/// A refusal a probe may receive: one that waits crosses provider and registry
/// boundaries that fire-and-forget probes never wait for.
pub open spec fn probe_refusal(args: ProbeArgs, error: ControlError) -> bool {
    match error {
        ControlError::AccountNotFound { account_id } => args.account@ == account_id@,
        ControlError::AccountSelectorNotFound { .. } => true,
        ControlError::Cancelled => true,
        ControlError::Provider(_) => args.wait,
        ControlError::Registry(error) => args.wait && (error is NotFound || error
            is InstanceUnavailable || error is InstanceFailed),
        ControlError::Timeout => args.wait,
        ControlError::Storage => args.wait,
        _ => false,
    }
}

/// The refusal legitimately answers the command.
pub open spec fn refusal_answers(command: Command, error: ControlError) -> bool {
    match command {
        Command::Daemon { .. } | Command::Provider { .. } => false,
        Command::Device { command } => match command {
            DeviceCommand::Pair => error is Storage,
            DeviceCommand::List => error is Storage,
            DeviceCommand::Revoke { device_id } => error is Storage || (error matches
                ControlError::DeviceNotFound { device_id: missing } && missing@ == device_id@),
        },
        Command::Account { command } => match command {
            AccountCommand::Add { provider, .. } => {
                ||| error is Storage
                ||| error matches ControlError::Account(AccountError::Duplicate(_))
                ||| error matches ControlError::Registry(RegistryError::NotFound(missing))
                    && missing@ == provider@
            },
            AccountCommand::List => false,
            AccountCommand::Show { .. } => names_own_account(command, error),
            AccountCommand::Enable { .. } => error is Storage || names_own_account(command, error),
            AccountCommand::Disable { .. } => error is Storage || names_own_account(command, error),
            AccountCommand::Label { .. } => {
                ||| error is Storage
                ||| error matches ControlError::Account(AccountError::Duplicate(_))
                ||| names_own_account(command, error)
            },
            AccountCommand::Metrics { .. } => error is Storage || error is InvalidAccountMetrics
                || names_own_account(command, error),
            AccountCommand::Remove { .. } => error is Storage || error is Cancelled
                || names_own_account(command, error),
        },
        Command::Auth { command } => auth_refusal(command, error),
        Command::Probe(args) => probe_refusal(args, error),
        Command::Show(args) => error matches ControlError::AccountNotFound { account_id }
            && optional_view(args.account) == Some(account_id@),
        Command::Tui(_) => false,
    }
}

/// The answer is well formed and answers the command.
///
/// No answer with an unsafe character does; a protocol mismatch answers every
/// command.
pub open spec fn answers(command: Command, result: ControlResult) -> bool {
    !inspect::unsafe_result(result) && match result {
        ControlResult::ProtocolMismatch { .. } => true,
        ControlResult::Error(error) => refusal_answers(command, error),
        _ => result_answers(command, result),
    }
}

fn is_answer(command: &Command, result: &ControlResult) -> (found: bool)
    ensures
        found == result_answers(*command, *result),
{
    match command {
        Command::Daemon { command } => match (command, result) {
            (DaemonCommand::Status, ControlResult::DaemonStatus(status)) => {
                daemon_status_payload_is_well_formed(status)
            },
            _ => false,
        },
        Command::Provider { .. } => match result {
            ControlResult::Providers(providers) => providers_are_unique(providers),
            _ => false,
        },
        Command::Device { command } => match (command, result) {
            (DeviceCommand::Pair, ControlResult::PairCode(code)) => pair_code_is_valid(code),
            (DeviceCommand::List, ControlResult::Devices(devices)) => devices_are_valid(devices),
            (DeviceCommand::Revoke { .. }, ControlResult::Ack) => true,
            _ => false,
        },
        Command::Account { command } => is_account_answer(command, result),
        Command::Auth { command } => match (command, result) {
            (AuthCommand::Login { .. }, ControlResult::AuthChallenge(_)) => true,
            (AuthCommand::Status { .. }, ControlResult::AuthState(_)) => true,
            (AuthCommand::Complete { .. }, ControlResult::AuthState(_)) => true,
            (AuthCommand::Logout { .. }, ControlResult::Ack) => true,
            _ => false,
        },
        Command::Probe(args) => match result {
            ControlResult::Probe(payload) => args.wait && text::same_text(
                payload.account_id.as_str(),
                args.account.as_str(),
            ) && usage_outcome_is_valid(&payload.usage),
            ControlResult::Ack => !args.wait,
            _ => false,
        },
        Command::Show(args) => match result {
            ControlResult::Snapshots(snapshots) => match &args.account {
                Some(requested) => snapshots_match(snapshots, requested.as_str()),
                None => snapshots_are_unique(snapshots),
            },
            _ => false,
        },
        Command::Tui(_) => match result {
            ControlResult::Snapshots(snapshots) => snapshots_are_unique(snapshots),
            _ => false,
        },
    }
}

fn is_account_answer(command: &AccountCommand, result: &ControlResult) -> (found: bool)
    ensures
        found == result_answers((Command::Account { command: *command }), *result),
{
    match command {
        AccountCommand::List => match result {
            ControlResult::Accounts(accounts) => accounts_are_unique(accounts),
            _ => false,
        },
        AccountCommand::Remove { .. } => matches!(result, ControlResult::Ack),
        _ => {
            let found = match result {
                ControlResult::Account(found) => found,
                _ => {
                    return false;
                },
            };
            match command {
                AccountCommand::Add { provider, label } => text::same_text(
                    found.provider.as_str(),
                    provider.as_str(),
                ) && same_optional(&found.label, label) && found.enabled,
                AccountCommand::Enable { account } => text::same_text(
                    found.id.as_str(),
                    account.as_str(),
                ) && found.enabled,
                AccountCommand::Disable { account } => text::same_text(
                    found.id.as_str(),
                    account.as_str(),
                ) && !found.enabled,
                AccountCommand::Label { account, label } => text::same_text(
                    found.id.as_str(),
                    account.as_str(),
                ) && same_optional(&found.label, label),
                AccountCommand::Metrics { account, metrics } => text::same_text(
                    found.id.as_str(),
                    account.as_str(),
                ) && same_names(&found.metrics, &normalized_metric_names(metrics)),
                AccountCommand::Show { account } => text::same_text(
                    found.id.as_str(),
                    account.as_str(),
                ),
                _ => false,
            }
        },
    }
}

/// Whether the refusal names the account this command is about.
pub fn error_names_own_account(command: &AccountCommand, error: &ControlError) -> (result: bool)
    requires
        !(command is Add),
        !(command is List),
    ensures
        result == names_own_account(*command, *error),
{
    match error {
        ControlError::Account(AccountError::NotFound(account)) => text::same_text(
            account.as_str(),
            account_field(command),
        ),
        _ => false,
    }
}

/// Whether the refusal names a provider this sign-in command was invoked with.
pub fn error_names_own_provider(command: &AuthCommand, provider: &ProviderId) -> (result: bool)
    ensures
        result == (auth_provider(*command) == Some(provider@)),
{
    match command {
        AuthCommand::Login { provider: requested, .. } => optional_is(requested, provider.as_str()),
        AuthCommand::Status { provider: requested, .. } => text::same_text(
            requested.as_str(),
            provider.as_str(),
        ),
        AuthCommand::Complete { provider: requested, .. } => text::same_text(
            requested.as_str(),
            provider.as_str(),
        ),
        AuthCommand::Logout { provider: requested, .. } => text::same_text(
            requested.as_str(),
            provider.as_str(),
        ),
    }
}

/// Whether a sign-in command may receive the refusal.
pub fn auth_error(command: &AuthCommand, error: &ControlError) -> (result: bool)
    ensures
        result == auth_refusal(*command, *error),
{
    match error {
        ControlError::Provider(_) => true,
        ControlError::Account(AccountError::NotFound(account)) => match command {
            AuthCommand::Login { account: requested, .. } => optional_is(
                requested,
                account.as_str(),
            ),
            AuthCommand::Complete { account: requested, .. } => text::same_text(
                requested.as_str(),
                account.as_str(),
            ),
            AuthCommand::Status { account: requested, .. } => text::same_text(
                requested.as_str(),
                account.as_str(),
            ),
            AuthCommand::Logout { account: requested, .. } => text::same_text(
                requested.as_str(),
                account.as_str(),
            ),
        },
        ControlError::Registry(RegistryError::NotFound(provider)) => error_names_own_provider(
            command,
            provider,
        ),
        ControlError::Registry(RegistryError::InstanceUnavailable(provider)) => {
            error_names_own_provider(command, provider)
        },
        ControlError::Registry(RegistryError::InstanceFailed { provider, .. }) => {
            error_names_own_provider(command, provider)
        },
        _ => false,
    }
}

/// Whether a probe may receive the refusal.
pub fn probe_error(args: &ProbeArgs, error: &ControlError) -> (result: bool)
    ensures
        result == probe_refusal(*args, *error),
{
    match error {
        ControlError::AccountNotFound { account_id } => text::same_text(
            args.account.as_str(),
            account_id.as_str(),
        ),
        ControlError::AccountSelectorNotFound { .. } => true,
        ControlError::Cancelled => true,
        ControlError::Provider(_) => args.wait,
        ControlError::Registry(error) => args.wait && matches!(
            error,
            RegistryError::NotFound(_) | RegistryError::InstanceUnavailable(_)
                | RegistryError::InstanceFailed { .. }
        ),
        ControlError::Timeout => args.wait,
        ControlError::Storage => args.wait,
        _ => false,
    }
}

fn is_refusal(command: &Command, error: &ControlError) -> (found: bool)
    ensures
        found == refusal_answers(*command, *error),
{
    let storage = matches!(error, ControlError::Storage);
    match command {
        Command::Daemon { .. } | Command::Provider { .. } => false,
        Command::Device { command } => match command {
            DeviceCommand::Pair => storage,
            DeviceCommand::List => storage,
            DeviceCommand::Revoke { device_id } => match error {
                ControlError::DeviceNotFound { device_id: missing } => text::same_text(
                    device_id.as_str(),
                    missing.as_str(),
                ),
                _ => storage,
            },
        },
        Command::Account { command } => {
            let duplicate = matches!(error, ControlError::Account(AccountError::Duplicate(_)));
            match command {
                AccountCommand::Add { provider, .. } => match error {
                    ControlError::Registry(RegistryError::NotFound(missing)) => text::same_text(
                        missing.as_str(),
                        provider.as_str(),
                    ),
                    _ => storage || duplicate,
                },
                AccountCommand::List => false,
                AccountCommand::Show { .. } => error_names_own_account(command, error),
                AccountCommand::Enable { .. } => storage || error_names_own_account(command, error),
                AccountCommand::Disable { .. } => storage || error_names_own_account(
                    command,
                    error,
                ),
                AccountCommand::Label { .. } => storage || duplicate || error_names_own_account(
                    command,
                    error,
                ),
                AccountCommand::Metrics { .. } => storage || matches!(
                    error,
                    ControlError::InvalidAccountMetrics
                ) || error_names_own_account(command, error),
                AccountCommand::Remove { .. } => storage || matches!(error, ControlError::Cancelled)
                    || error_names_own_account(command, error),
            }
        },
        Command::Auth { command } => auth_error(command, error),
        Command::Probe(args) => probe_error(args, error),
        Command::Show(args) => match error {
            ControlError::AccountNotFound { account_id } => optional_is(
                &args.account,
                account_id.as_str(),
            ),
            _ => false,
        },
        Command::Tui(_) => false,
    }
}

/// Whether `result` is a well-formed, command-shaped answer. Unsafe control
/// characters anywhere in the payload already fail it; a protocol mismatch
/// answers every command.
pub fn response_matches_command(command: &Command, result: &ControlResult) -> (found: bool)
    ensures
        found == answers(*command, *result),
{
    if inspect::result_contains_unsafe_control(result) {
        return false;
    }
    match result {
        ControlResult::ProtocolMismatch { .. } => true,
        ControlResult::Error(error) => is_refusal(command, error),
        _ => is_answer(command, result),
    }
}

/// Nothing the daemon says about a command that is managed locally is trusted,
/// but a protocol mismatch.
pub proof fn local_commands_trust_no_answer(command: DaemonCommand, result: ControlResult)
    requires
        !(command is Status),
    ensures
        answers((Command::Daemon { command }), result) ==> result is ProtocolMismatch,
{
}

/// A trusted answer holds no character that may not be displayed, whatever the
/// command was.
pub proof fn trusted_answers_are_safe(command: Command, result: ControlResult)
    requires
        answers(command, result),
    ensures
        !inspect::unsafe_result(result),
{
}

/// Sending what the command line says and getting the account back as it was
/// asked for is a trusted answer to a change of its metrics.
pub proof fn stored_metrics_are_a_trusted_answer(
    account: String,
    metrics: Vec<String>,
    found: Account,
)
    requires
        found.id@ == account@,
        filter::text_views(found.metrics@) == stored_names(filter::text_views(metrics@)),
        !inspect::unsafe_account(found),
    ensures
        answers(
            (Command::Account { command: AccountCommand::Metrics { account, metrics } }),
            ControlResult::Account(found),
        ),
{
}

} // verus!
