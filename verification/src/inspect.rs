//! Looks through a daemon's answer for characters that may not be displayed.

use vstd::prelude::*;

use crate::error::{PartialFailure, ProviderError, QueryOutcome};
use crate::identity;
use crate::protocol::{
    Account, AccountError, AccountStatusPayload, AuthChallenge, AuthInputRequest, AuthMethod,
    AuthState, ControlError, ControlResult, DevicePayload, ProbePayload, SnapshotPayload,
};
use crate::provider::{Capability, ProviderDescriptor, ProviderWorkspace, RegistryError};
use crate::usage::{
    MeasurementUnit, SubscriptionUsage, UsageMeasurement, UsageWindow, UsageWindowKind,
};

verus! {

/// The optional text is there and holds an unsafe character.
pub open spec fn unsafe_optional(text: Option<String>) -> bool {
    text matches Some(text) && identity::unsafe_text(text@)
}

/// Whether the optional text is there and holds an unsafe character.
pub fn optional_is_unsafe(text: &Option<String>) -> (result: bool)
    ensures
        result == unsafe_optional(*text),
{
    match text {
        Some(text) => identity::has_unsafe_character(text.as_str()),
        None => false,
    }
}

/// One of the texts holds an unsafe character.
pub open spec fn any_unsafe(texts: Seq<String>) -> bool {
    exists|i: int| 0 <= i < texts.len() && identity::unsafe_text((#[trigger] texts[i])@)
}

fn some_text_unsafe(texts: &Vec<String>) -> (result: bool)
    ensures
        result == any_unsafe(texts@),
{
    let mut index: usize = 0;
    while index < texts.len()
        invariant
            index <= texts@.len(),
            forall|i: int| 0 <= i < index ==> !identity::unsafe_text((#[trigger] texts@[i])@),
        decreases texts.len() - index,
    {
        if identity::has_unsafe_character(texts[index].as_str()) {
            assert(identity::unsafe_text(texts@[index as int]@));
            return true;
        }
        index = index + 1;
    }
    false
}

/// A text of the account holds an unsafe character.
pub open spec fn unsafe_account(account: Account) -> bool {
    ||| identity::unsafe_text(account.id@)
    ||| identity::unsafe_text(account.provider@)
    ||| unsafe_optional(account.label)
    ||| any_unsafe(account.metrics@)
}

fn account_is_unsafe(account: &Account) -> (result: bool)
    ensures
        result == unsafe_account(*account),
{
    identity::has_unsafe_character(account.id.as_str()) || identity::has_unsafe_character(
        account.provider.as_str(),
    ) || optional_is_unsafe(&account.label) || some_text_unsafe(&account.metrics)
}

/// A text of the method holds an unsafe character.
pub open spec fn unsafe_method(method: AuthMethod) -> bool {
    method matches AuthMethod::Other(name) && identity::unsafe_text(name@)
}

fn method_is_unsafe(method: &AuthMethod) -> (result: bool)
    ensures
        result == unsafe_method(*method),
{
    match method {
        AuthMethod::Other(name) => identity::has_unsafe_character(name.as_str()),
        _ => false,
    }
}

/// A text of the input request holds an unsafe character.
pub open spec fn unsafe_input(input: Option<AuthInputRequest>) -> bool {
    input matches Some(input) && identity::unsafe_text(input.description@)
}

fn input_is_unsafe(input: &Option<AuthInputRequest>) -> (result: bool)
    ensures
        result == unsafe_input(*input),
{
    match input {
        Some(input) => identity::has_unsafe_character(input.description.as_str()),
        None => false,
    }
}

/// A text of the challenge holds an unsafe character.
pub open spec fn unsafe_challenge(challenge: AuthChallenge) -> bool {
    ||| identity::unsafe_text(challenge.flow_id@)
    ||| unsafe_method(challenge.method)
    ||| unsafe_optional(challenge.verification_uri)
    ||| unsafe_optional(challenge.user_code)
    ||| unsafe_input(challenge.input)
}

fn challenge_is_unsafe(challenge: &AuthChallenge) -> (result: bool)
    ensures
        result == unsafe_challenge(*challenge),
{
    identity::has_unsafe_character(challenge.flow_id.as_str()) || method_is_unsafe(
        &challenge.method,
    ) || optional_is_unsafe(&challenge.verification_uri) || optional_is_unsafe(&challenge.user_code)
        || input_is_unsafe(&challenge.input)
}

/// A text of the sign-in state holds an unsafe character.
pub open spec fn unsafe_auth_state(state: AuthState) -> bool {
    match state {
        AuthState::NotAuthenticated => false,
        AuthState::Pending { flow_id, .. } => identity::unsafe_text(flow_id@),
        AuthState::Authenticated { account_label, account_key, .. } => unsafe_optional(
            account_label,
        ) || unsafe_optional(account_key),
        AuthState::Invalid { reason, account_key } => identity::unsafe_text(reason@)
            || unsafe_optional(account_key),
    }
}

fn auth_state_is_unsafe(state: &AuthState) -> (result: bool)
    ensures
        result == unsafe_auth_state(*state),
{
    match state {
        AuthState::NotAuthenticated => false,
        AuthState::Pending { flow_id, .. } => identity::has_unsafe_character(flow_id.as_str()),
        AuthState::Authenticated { account_label, account_key, .. } => optional_is_unsafe(
            account_label,
        ) || optional_is_unsafe(account_key),
        AuthState::Invalid { reason, account_key } => identity::has_unsafe_character(
            reason.as_str(),
        ) || optional_is_unsafe(account_key),
    }
}

/// A text of the capability holds an unsafe character.
pub open spec fn unsafe_capability(capability: Capability) -> bool {
    capability matches Capability::Other(name) && identity::unsafe_text(name@)
}

/// A text of the descriptor holds an unsafe character.
pub open spec fn unsafe_descriptor(descriptor: ProviderDescriptor) -> bool {
    ||| identity::unsafe_text(descriptor.id@)
    ||| identity::unsafe_text(descriptor.display_name@)
    ||| exists|i: int|
        0 <= i < descriptor.capabilities@.len() && unsafe_capability(
            #[trigger] descriptor.capabilities@[i],
        )
}

fn descriptor_is_unsafe(descriptor: &ProviderDescriptor) -> (result: bool)
    ensures
        result == unsafe_descriptor(*descriptor),
{
    if identity::has_unsafe_character(descriptor.id.as_str()) || identity::has_unsafe_character(
        descriptor.display_name.as_str(),
    ) {
        return true;
    }
    let mut index: usize = 0;
    while index < descriptor.capabilities.len()
        invariant
            index <= descriptor.capabilities@.len(),
            forall|i: int|
                0 <= i < index ==> !unsafe_capability(#[trigger] descriptor.capabilities@[i]),
        decreases descriptor.capabilities.len() - index,
    {
        let hit = match &descriptor.capabilities[index] {
            Capability::Other(name) => identity::has_unsafe_character(name.as_str()),
            _ => false,
        };
        if hit {
            assert(unsafe_capability(descriptor.capabilities@[index as int]));
            return true;
        }
        index = index + 1;
    }
    false
}

/// A text of the workspace holds an unsafe character.
pub open spec fn unsafe_workspace(workspace: ProviderWorkspace) -> bool {
    identity::unsafe_text(workspace.id@) || unsafe_optional(workspace.label)
}

fn workspace_is_unsafe(workspace: &ProviderWorkspace) -> (result: bool)
    ensures
        result == unsafe_workspace(*workspace),
{
    identity::has_unsafe_character(workspace.id.as_str()) || optional_is_unsafe(&workspace.label)
}

/// A text of the measurement holds an unsafe character.
pub open spec fn unsafe_measurement(measurement: UsageMeasurement) -> bool {
    identity::unsafe_text(measurement.name@) || match measurement.unit {
        MeasurementUnit::Currency { code } => identity::unsafe_text(code@),
        MeasurementUnit::Other { id, label } => identity::unsafe_text(id@)
            || identity::unsafe_text(label@),
        _ => false,
    }
}

fn measurement_is_unsafe(measurement: &UsageMeasurement) -> (result: bool)
    ensures
        result == unsafe_measurement(*measurement),
{
    identity::has_unsafe_character(measurement.name.as_str()) || match &measurement.unit {
        MeasurementUnit::Currency { code } => identity::has_unsafe_character(code.as_str()),
        MeasurementUnit::Other { id, label } => identity::has_unsafe_character(id.as_str())
            || identity::has_unsafe_character(label.as_str()),
        _ => false,
    }
}

/// A text of the window holds an unsafe character.
pub open spec fn unsafe_window(window: UsageWindow) -> bool {
    ||| window.window matches UsageWindowKind::Other { id, label } && (identity::unsafe_text(id@)
        || identity::unsafe_text(label@))
    ||| exists|i: int|
        0 <= i < window.measurements@.len() && unsafe_measurement(
            #[trigger] window.measurements@[i],
        )
}

fn window_is_unsafe(window: &UsageWindow) -> (result: bool)
    ensures
        result == unsafe_window(*window),
{
    let named = match &window.window {
        UsageWindowKind::Other { id, label } => identity::has_unsafe_character(id.as_str())
            || identity::has_unsafe_character(label.as_str()),
        _ => false,
    };
    if named {
        return true;
    }
    let mut index: usize = 0;
    while index < window.measurements.len()
        invariant
            index <= window.measurements@.len(),
            forall|i: int|
                0 <= i < index ==> !unsafe_measurement(#[trigger] window.measurements@[i]),
        decreases window.measurements.len() - index,
    {
        if measurement_is_unsafe(&window.measurements[index]) {
            assert(unsafe_measurement(window.measurements@[index as int]));
            return true;
        }
        index = index + 1;
    }
    false
}

/// A text of the report holds an unsafe character.
pub open spec fn unsafe_usage(usage: SubscriptionUsage) -> bool {
    ||| identity::unsafe_text(usage.provider@)
    ||| unsafe_optional(usage.account_label)
    ||| unsafe_optional(usage.plan)
    ||| exists|i: int| 0 <= i < usage.windows@.len() && unsafe_window(#[trigger] usage.windows@[i])
}

fn usage_is_unsafe(usage: &SubscriptionUsage) -> (result: bool)
    ensures
        result == unsafe_usage(*usage),
{
    if identity::has_unsafe_character(usage.provider.as_str()) || optional_is_unsafe(
        &usage.account_label,
    ) || optional_is_unsafe(&usage.plan) {
        return true;
    }
    let mut index: usize = 0;
    while index < usage.windows.len()
        invariant
            index <= usage.windows@.len(),
            forall|i: int| 0 <= i < index ==> !unsafe_window(#[trigger] usage.windows@[i]),
        decreases usage.windows.len() - index,
    {
        if window_is_unsafe(&usage.windows[index]) {
            assert(unsafe_window(usage.windows@[index as int]));
            return true;
        }
        index = index + 1;
    }
    false
}

/// A text of the failure holds an unsafe character.
pub open spec fn unsafe_failure(failure: PartialFailure) -> bool {
    identity::unsafe_text(failure.scope@) || identity::unsafe_text(failure.message@)
}

/// A text of the outcome holds an unsafe character.
pub open spec fn unsafe_outcome(outcome: QueryOutcome<SubscriptionUsage>) -> bool {
    match outcome {
        QueryOutcome::Complete { data } => unsafe_usage(data),
        QueryOutcome::Partial { data, failures } => unsafe_usage(data) || exists|i: int|
            0 <= i < failures@.len() && unsafe_failure(#[trigger] failures@[i]),
    }
}

fn some_failure_unsafe(failures: &Vec<PartialFailure>) -> (result: bool)
    ensures
        result == exists|i: int| 0 <= i < failures@.len() && unsafe_failure(#[trigger] failures@[i]),
{
    let mut index: usize = 0;
    while index < failures.len()
        invariant
            index <= failures@.len(),
            forall|i: int| 0 <= i < index ==> !unsafe_failure(#[trigger] failures@[i]),
        decreases failures.len() - index,
    {
        if identity::has_unsafe_character(failures[index].scope.as_str())
            || identity::has_unsafe_character(failures[index].message.as_str()) {
            assert(unsafe_failure(failures@[index as int]));
            return true;
        }
        index = index + 1;
    }
    false
}

fn outcome_is_unsafe(outcome: &QueryOutcome<SubscriptionUsage>) -> (result: bool)
    ensures
        result == unsafe_outcome(*outcome),
{
    match outcome {
        QueryOutcome::Complete { data } => usage_is_unsafe(data),
        QueryOutcome::Partial { data, failures } => usage_is_unsafe(data) || some_failure_unsafe(
            failures,
        ),
    }
}

/// A text of the registry's refusal holds an unsafe character.
pub open spec fn unsafe_registry_error(error: RegistryError) -> bool {
    match error {
        RegistryError::Duplicate(id) => identity::unsafe_text(id@),
        RegistryError::NotFound(id) => identity::unsafe_text(id@),
        RegistryError::InvalidId(id) => identity::unsafe_text(id@),
        RegistryError::DescriptorMismatch { registered, actual } => identity::unsafe_text(
            registered@,
        ) || identity::unsafe_text(actual@),
        RegistryError::InstanceFailed { provider, .. } => identity::unsafe_text(provider@),
        RegistryError::InstanceUnavailable(id) => identity::unsafe_text(id@),
    }
}

fn registry_error_is_unsafe(error: &RegistryError) -> (result: bool)
    ensures
        result == unsafe_registry_error(*error),
{
    match error {
        RegistryError::Duplicate(id) => identity::has_unsafe_character(id.as_str()),
        RegistryError::NotFound(id) => identity::has_unsafe_character(id.as_str()),
        RegistryError::InvalidId(id) => identity::has_unsafe_character(id.as_str()),
        RegistryError::DescriptorMismatch { registered, actual } => identity::has_unsafe_character(
            registered.as_str(),
        ) || identity::has_unsafe_character(actual.as_str()),
        RegistryError::InstanceFailed { provider, .. } => identity::has_unsafe_character(
            provider.as_str(),
        ),
        RegistryError::InstanceUnavailable(id) => identity::has_unsafe_character(id.as_str()),
    }
}

/// A text of the refusal holds an unsafe character.
pub open spec fn unsafe_error(error: ControlError) -> bool {
    match error {
        ControlError::Account(AccountError::NotFound(id)) => identity::unsafe_text(id@),
        ControlError::Account(AccountError::Duplicate(id)) => identity::unsafe_text(id@),
        ControlError::Provider(error) => identity::unsafe_text(error.carried_text()),
        ControlError::Registry(error) => unsafe_registry_error(error),
        ControlError::AccountNotFound { account_id } => identity::unsafe_text(account_id@),
        ControlError::AccountSelectorNotFound { provider, account_label } => identity::unsafe_text(
            provider@,
        ) || unsafe_optional(account_label),
        ControlError::DeviceNotFound { device_id } => identity::unsafe_text(device_id@),
        _ => false,
    }
}

fn error_is_unsafe(error: &ControlError) -> (result: bool)
    ensures
        result == unsafe_error(*error),
{
    match error {
        ControlError::Account(AccountError::NotFound(id)) => identity::has_unsafe_character(
            id.as_str(),
        ),
        ControlError::Account(AccountError::Duplicate(id)) => identity::has_unsafe_character(
            id.as_str(),
        ),
        ControlError::Provider(error) => match error {
            ProviderError::AuthenticationInvalid { message } => identity::has_unsafe_character(
                message.as_str(),
            ),
            ProviderError::RateLimited { message, .. } => identity::has_unsafe_character(
                message.as_str(),
            ),
            ProviderError::Network { message } => identity::has_unsafe_character(message.as_str()),
            ProviderError::ProtocolIncompatible { message } => identity::has_unsafe_character(
                message.as_str(),
            ),
            ProviderError::UnsupportedCapability { capability } => identity::has_unsafe_character(
                capability.as_str(),
            ),
        },
        ControlError::Registry(error) => registry_error_is_unsafe(error),
        ControlError::AccountNotFound { account_id } => identity::has_unsafe_character(
            account_id.as_str(),
        ),
        ControlError::AccountSelectorNotFound { provider, account_label } =>
            identity::has_unsafe_character(provider.as_str()) || optional_is_unsafe(account_label),
        ControlError::DeviceNotFound { device_id } => identity::has_unsafe_character(
            device_id.as_str(),
        ),
        _ => false,
    }
}

/// A text of the account's status holds an unsafe character.
pub open spec fn unsafe_status(status: AccountStatusPayload) -> bool {
    identity::unsafe_text(status.account_id@) || identity::unsafe_text(status.provider@)
}

/// A text of the device holds an unsafe character.
pub open spec fn unsafe_device(device: DevicePayload) -> bool {
    identity::unsafe_text(device.id@) || identity::unsafe_text(device.name@)
}

/// A text of the probe holds an unsafe character.
pub open spec fn unsafe_probe(probe: ProbePayload) -> bool {
    ||| identity::unsafe_text(probe.account_id@)
    ||| unsafe_outcome(probe.usage)
    ||| any_unsafe(probe.metrics@)
}

/// A text of the snapshot holds an unsafe character.
pub open spec fn unsafe_snapshot(snapshot: SnapshotPayload) -> bool {
    ||| identity::unsafe_text(snapshot.account_id@)
    ||| unsafe_outcome(snapshot.usage)
    ||| any_unsafe(snapshot.metrics@)
}

fn some_status_unsafe(statuses: &Vec<AccountStatusPayload>) -> (result: bool)
    ensures
        result == exists|i: int| 0 <= i < statuses@.len() && unsafe_status(#[trigger] statuses@[i]),
{
    let mut index: usize = 0;
    while index < statuses.len()
        invariant
            index <= statuses@.len(),
            forall|i: int| 0 <= i < index ==> !unsafe_status(#[trigger] statuses@[i]),
        decreases statuses.len() - index,
    {
        if identity::has_unsafe_character(statuses[index].account_id.as_str())
            || identity::has_unsafe_character(statuses[index].provider.as_str()) {
            assert(unsafe_status(statuses@[index as int]));
            return true;
        }
        index = index + 1;
    }
    false
}

fn some_device_unsafe(devices: &Vec<DevicePayload>) -> (result: bool)
    ensures
        result == exists|i: int| 0 <= i < devices@.len() && unsafe_device(#[trigger] devices@[i]),
{
    let mut index: usize = 0;
    while index < devices.len()
        invariant
            index <= devices@.len(),
            forall|i: int| 0 <= i < index ==> !unsafe_device(#[trigger] devices@[i]),
        decreases devices.len() - index,
    {
        if identity::has_unsafe_character(devices[index].id.as_str())
            || identity::has_unsafe_character(devices[index].name.as_str()) {
            assert(unsafe_device(devices@[index as int]));
            return true;
        }
        index = index + 1;
    }
    false
}

fn some_descriptor_unsafe(descriptors: &Vec<ProviderDescriptor>) -> (result: bool)
    ensures
        result == exists|i: int|
            0 <= i < descriptors@.len() && unsafe_descriptor(#[trigger] descriptors@[i]),
{
    let mut index: usize = 0;
    while index < descriptors.len()
        invariant
            index <= descriptors@.len(),
            forall|i: int| 0 <= i < index ==> !unsafe_descriptor(#[trigger] descriptors@[i]),
        decreases descriptors.len() - index,
    {
        if descriptor_is_unsafe(&descriptors[index]) {
            assert(unsafe_descriptor(descriptors@[index as int]));
            return true;
        }
        index = index + 1;
    }
    false
}

fn some_workspace_unsafe(workspaces: &Vec<ProviderWorkspace>) -> (result: bool)
    ensures
        result == exists|i: int|
            0 <= i < workspaces@.len() && unsafe_workspace(#[trigger] workspaces@[i]),
{
    let mut index: usize = 0;
    while index < workspaces.len()
        invariant
            index <= workspaces@.len(),
            forall|i: int| 0 <= i < index ==> !unsafe_workspace(#[trigger] workspaces@[i]),
        decreases workspaces.len() - index,
    {
        if workspace_is_unsafe(&workspaces[index]) {
            assert(unsafe_workspace(workspaces@[index as int]));
            return true;
        }
        index = index + 1;
    }
    false
}

fn some_account_unsafe(accounts: &Vec<Account>) -> (result: bool)
    ensures
        result == exists|i: int| 0 <= i < accounts@.len() && unsafe_account(#[trigger] accounts@[i]),
{
    let mut index: usize = 0;
    while index < accounts.len()
        invariant
            index <= accounts@.len(),
            forall|i: int| 0 <= i < index ==> !unsafe_account(#[trigger] accounts@[i]),
        decreases accounts.len() - index,
    {
        if account_is_unsafe(&accounts[index]) {
            assert(unsafe_account(accounts@[index as int]));
            return true;
        }
        index = index + 1;
    }
    false
}

fn some_snapshot_unsafe(snapshots: &Vec<SnapshotPayload>) -> (result: bool)
    ensures
        result == exists|i: int|
            0 <= i < snapshots@.len() && unsafe_snapshot(#[trigger] snapshots@[i]),
{
    let mut index: usize = 0;
    while index < snapshots.len()
        invariant
            index <= snapshots@.len(),
            forall|i: int| 0 <= i < index ==> !unsafe_snapshot(#[trigger] snapshots@[i]),
        decreases snapshots.len() - index,
    {
        let snapshot = &snapshots[index];
        if identity::has_unsafe_character(snapshot.account_id.as_str()) || outcome_is_unsafe(
            &snapshot.usage,
        ) || some_text_unsafe(&snapshot.metrics) {
            assert(unsafe_snapshot(snapshots@[index as int]));
            return true;
        }
        index = index + 1;
    }
    false
}

/// Some text of the answer holds an unsafe character.
pub open spec fn unsafe_result(result: ControlResult) -> bool {
    match result {
        ControlResult::DaemonStatus(status) => exists|i: int|
            0 <= i < status.accounts@.len() && unsafe_status(#[trigger] status.accounts@[i]),
        ControlResult::PairCode(code) => identity::unsafe_text(code.code@),
        ControlResult::Devices(devices) => exists|i: int|
            0 <= i < devices@.len() && unsafe_device(#[trigger] devices@[i]),
        ControlResult::Providers(providers) => exists|i: int|
            0 <= i < providers@.len() && unsafe_descriptor(#[trigger] providers@[i]),
        ControlResult::Workspaces(workspaces) => exists|i: int|
            0 <= i < workspaces@.len() && unsafe_workspace(#[trigger] workspaces@[i]),
        ControlResult::Workspace(workspace) => unsafe_workspace(workspace),
        ControlResult::Usage(outcome) => unsafe_outcome(outcome),
        ControlResult::AuthChallenge(challenge) => unsafe_challenge(challenge),
        ControlResult::AuthState(state) => unsafe_auth_state(state),
        ControlResult::Accounts(accounts) => exists|i: int|
            0 <= i < accounts@.len() && unsafe_account(#[trigger] accounts@[i]),
        ControlResult::Account(account) => unsafe_account(account),
        ControlResult::Probe(probe) => unsafe_probe(probe),
        ControlResult::Snapshots(snapshots) => exists|i: int|
            0 <= i < snapshots@.len() && unsafe_snapshot(#[trigger] snapshots@[i]),
        ControlResult::Ack => false,
        ControlResult::Error(error) => unsafe_error(error),
        ControlResult::ProtocolMismatch { .. } => false,
    }
}

/// Whether any text anywhere in the answer holds a character that may not be
/// displayed.
pub fn result_contains_unsafe_control(result: &ControlResult) -> (found: bool)
    ensures
        found == unsafe_result(*result),
{
    match result {
        ControlResult::DaemonStatus(status) => some_status_unsafe(&status.accounts),
        ControlResult::PairCode(code) => identity::has_unsafe_character(code.code.as_str()),
        ControlResult::Devices(devices) => some_device_unsafe(devices),
        ControlResult::Providers(providers) => some_descriptor_unsafe(providers),
        ControlResult::Workspaces(workspaces) => some_workspace_unsafe(workspaces),
        ControlResult::Workspace(workspace) => workspace_is_unsafe(workspace),
        ControlResult::Usage(outcome) => outcome_is_unsafe(outcome),
        ControlResult::AuthChallenge(challenge) => challenge_is_unsafe(challenge),
        ControlResult::AuthState(state) => auth_state_is_unsafe(state),
        ControlResult::Accounts(accounts) => some_account_unsafe(accounts),
        ControlResult::Account(account) => account_is_unsafe(account),
        ControlResult::Probe(probe) => identity::has_unsafe_character(probe.account_id.as_str())
            || outcome_is_unsafe(&probe.usage) || some_text_unsafe(&probe.metrics),
        ControlResult::Snapshots(snapshots) => some_snapshot_unsafe(snapshots),
        ControlResult::Ack => false,
        ControlResult::Error(error) => error_is_unsafe(error),
        ControlResult::ProtocolMismatch { .. } => false,
    }
}

} // verus!
