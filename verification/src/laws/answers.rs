//! Which answers of the daemon are trusted.

use vstd::prelude::*;

use crate::cli::{AccountCommand, AuthCommand, Command, DaemonCommand, DeviceCommand};
use crate::error::QueryOutcome;
use crate::identity;
use crate::inspect;
use crate::laws::choices;
use crate::laws::requests;
use crate::laws::summaries;
use crate::protocol::{
    Account, AccountError, AccountStatusPayload, AuthChallenge, AuthMethod, AuthState,
    ControlError, ControlResult, DaemonStatusPayload, DevicePayload, PairCodePayload,
    SnapshotPayload,
};
use crate::provider::{Capability, ProviderDescriptor, ProviderWorkspace, RegistryError};
use crate::summary::filter;
use crate::usage::{
    MeasurementUnit, SubscriptionUsage, UsageMeasurement, UsageWindow, UsageWindowKind,
};
use crate::validate;

verus! {

/// The text is that one.
pub open spec fn is_given(given: Option<String>, told: Seq<char>) -> bool {
    given matches Some(given) && given@ == told
}

/// The text is one of the list.
pub open spec fn is_listed(given: Seq<String>, told: Seq<char>) -> bool {
    exists|i: int| 0 <= i < given.len() && (#[trigger] given[i])@ == told
}

/// The account tells the text.
pub open spec fn account_tells(account: Account, told: Seq<char>) -> bool {
    account.id@ == told || account.provider@ == told || is_given(account.label, told) || is_listed(
        account.metrics@,
        told,
    )
}

/// The challenge tells the text.
pub open spec fn challenge_tells(challenge: AuthChallenge, told: Seq<char>) -> bool {
    ||| challenge.flow_id@ == told
    ||| challenge.method matches AuthMethod::Other(name) && name@ == told
    ||| is_given(challenge.verification_uri, told)
    ||| is_given(challenge.user_code, told)
    ||| challenge.input matches Some(input) && input.description@ == told
}

/// The sign-in state tells the text.
pub open spec fn state_tells(state: AuthState, told: Seq<char>) -> bool {
    match state {
        AuthState::NotAuthenticated => false,
        AuthState::Pending { flow_id, .. } => flow_id@ == told,
        AuthState::Authenticated { account_label, account_key, .. } => is_given(
            account_label,
            told,
        ) || is_given(account_key, told),
        AuthState::Invalid { reason, account_key } => reason@ == told || is_given(
            account_key,
            told,
        ),
    }
}

/// The provider's description tells the text.
pub open spec fn descriptor_tells(descriptor: ProviderDescriptor, told: Seq<char>) -> bool {
    ||| descriptor.id@ == told
    ||| descriptor.display_name@ == told
    ||| exists|i: int|
        0 <= i < descriptor.capabilities@.len() && ((#[trigger] descriptor.capabilities@[i])
            matches Capability::Other(name) && name@ == told)
}

/// The workspace tells the text.
pub open spec fn workspace_tells(workspace: ProviderWorkspace, told: Seq<char>) -> bool {
    workspace.id@ == told || is_given(workspace.label, told)
}

/// The measurement tells the text.
pub open spec fn measurement_tells(measurement: UsageMeasurement, told: Seq<char>) -> bool {
    ||| measurement.name@ == told
    ||| measurement.unit matches MeasurementUnit::Currency { code } && code@ == told
    ||| measurement.unit matches MeasurementUnit::Other { id, label } && (id@ == told || label@
        == told)
}

/// The window tells the text.
pub open spec fn window_tells(window: UsageWindow, told: Seq<char>) -> bool {
    ||| window.window matches UsageWindowKind::Other { id, label } && (id@ == told || label@
        == told)
    ||| exists|i: int|
        0 <= i < window.measurements@.len() && measurement_tells(
            #[trigger] window.measurements@[i],
            told,
        )
}

/// The report tells the text.
pub open spec fn usage_tells(usage: SubscriptionUsage, told: Seq<char>) -> bool {
    ||| usage.provider@ == told
    ||| is_given(usage.account_label, told)
    ||| is_given(usage.plan, told)
    ||| exists|i: int|
        0 <= i < usage.windows@.len() && window_tells(#[trigger] usage.windows@[i], told)
}

/// The outcome tells the text, in its report or in what is missing.
pub open spec fn outcome_tells(
    outcome: QueryOutcome<SubscriptionUsage>,
    told: Seq<char>,
) -> bool {
    ||| usage_tells(outcome.payload(), told)
    ||| outcome matches QueryOutcome::Partial { failures, .. } && exists|i: int|
        0 <= i < failures@.len() && ((#[trigger] failures@[i]).scope@ == told
            || failures@[i].message@ == told)
}

/// The refusal tells the text.
pub open spec fn error_tells(error: ControlError, told: Seq<char>) -> bool {
    match error {
        ControlError::Account(AccountError::NotFound(id)) => id@ == told,
        ControlError::Account(AccountError::Duplicate(id)) => id@ == told,
        ControlError::Provider(error) => error.carried_text() == told,
        ControlError::Registry(error) => match error {
            RegistryError::Duplicate(id) => id@ == told,
            RegistryError::NotFound(id) => id@ == told,
            RegistryError::InvalidId(id) => id@ == told,
            RegistryError::InstanceUnavailable(id) => id@ == told,
            RegistryError::InstanceFailed { provider, .. } => provider@ == told,
            RegistryError::DescriptorMismatch { registered, actual } => registered@ == told
                || actual@ == told,
        },
        ControlError::AccountNotFound { account_id } => account_id@ == told,
        ControlError::AccountSelectorNotFound { provider, account_label } => provider@ == told
            || is_given(account_label, told),
        ControlError::DeviceNotFound { device_id } => device_id@ == told,
        _ => false,
    }
}

/// The answer tells the text somewhere.
pub open spec fn result_tells(result: ControlResult, told: Seq<char>) -> bool {
    match result {
        ControlResult::DaemonStatus(status) => exists|i: int|
            0 <= i < status.accounts@.len() && ((#[trigger] status.accounts@[i]).account_id@ == told
                || status.accounts@[i].provider@ == told),
        ControlResult::PairCode(code) => code.code@ == told,
        ControlResult::Devices(devices) => exists|i: int|
            0 <= i < devices@.len() && ((#[trigger] devices@[i]).id@ == told || devices@[i].name@
                == told),
        ControlResult::Providers(providers) => exists|i: int|
            0 <= i < providers@.len() && descriptor_tells(#[trigger] providers@[i], told),
        ControlResult::Workspaces(workspaces) => exists|i: int|
            0 <= i < workspaces@.len() && workspace_tells(#[trigger] workspaces@[i], told),
        ControlResult::Workspace(workspace) => workspace_tells(workspace, told),
        ControlResult::Usage(outcome) => outcome_tells(outcome, told),
        ControlResult::AuthChallenge(challenge) => challenge_tells(challenge, told),
        ControlResult::AuthState(state) => state_tells(state, told),
        ControlResult::Accounts(accounts) => exists|i: int|
            0 <= i < accounts@.len() && account_tells(#[trigger] accounts@[i], told),
        ControlResult::Account(account) => account_tells(account, told),
        ControlResult::Probe(probe) => probe.account_id@ == told || outcome_tells(
            probe.usage,
            told,
        ) || is_listed(probe.metrics@, told),
        ControlResult::Snapshots(snapshots) => exists|i: int|
            0 <= i < snapshots@.len() && snapshot_tells(#[trigger] snapshots@[i], told),
        ControlResult::Ack => false,
        ControlResult::Error(error) => error_tells(error, told),
        ControlResult::ProtocolMismatch { .. } => false,
    }
}

/// The snapshot tells the text.
pub open spec fn snapshot_tells(snapshot: SnapshotPayload, told: Seq<char>) -> bool {
    snapshot.account_id@ == told || outcome_tells(snapshot.usage, told) || is_listed(
        snapshot.metrics@,
        told,
    )
}

proof fn obscured_options(given: Option<String>, told: Seq<char>)
    requires
        identity::unsafe_text(told),
    ensures
        is_given(given, told) ==> inspect::unsafe_optional(given),
{
}

proof fn obscured_lists(given: Seq<String>, told: Seq<char>)
    requires
        identity::unsafe_text(told),
    ensures
        is_listed(given, told) ==> inspect::any_unsafe(given),
{
    if is_listed(given, told) {
        let i = choose|i: int| 0 <= i < given.len() && (#[trigger] given[i])@ == told;
        assert(identity::unsafe_text(given[i]@));
    }
}

proof fn obscured_reports(usage: SubscriptionUsage, told: Seq<char>)
    requires
        identity::unsafe_text(told),
        usage_tells(usage, told),
    ensures
        inspect::unsafe_usage(usage),
{
    if exists|i: int|
        0 <= i < usage.windows@.len() && window_tells(#[trigger] usage.windows@[i], told) {
        let i = choose|i: int|
            0 <= i < usage.windows@.len() && window_tells(#[trigger] usage.windows@[i], told);
        let window = usage.windows@[i];
        if exists|j: int|
            0 <= j < window.measurements@.len() && measurement_tells(
                #[trigger] window.measurements@[j],
                told,
            ) {
            let j = choose|j: int|
                0 <= j < window.measurements@.len() && measurement_tells(
                    #[trigger] window.measurements@[j],
                    told,
                );
            assert(inspect::unsafe_measurement(window.measurements@[j]));
        }
        assert(inspect::unsafe_window(usage.windows@[i]));
    }
}

proof fn obscured_outcomes(outcome: QueryOutcome<SubscriptionUsage>, told: Seq<char>)
    requires
        identity::unsafe_text(told),
        outcome_tells(outcome, told),
    ensures
        inspect::unsafe_outcome(outcome),
{
    if usage_tells(outcome.payload(), told) {
        obscured_reports(outcome.payload(), told);
    } else if let QueryOutcome::Partial { failures, .. } = outcome {
        let i = choose|i: int|
            0 <= i < failures@.len() && ((#[trigger] failures@[i]).scope@ == told
                || failures@[i].message@ == told);
        assert(inspect::unsafe_failure(failures@[i]));
    }
}

/// An answer that tells an obscured text anywhere is unsafe.
pub proof fn obscured_texts_make_answers_unsafe(result: ControlResult, told: Seq<char>)
    requires
        result_tells(result, told),
        identity::unsafe_text(told),
    ensures
        inspect::unsafe_result(result),
{
    match result {
        ControlResult::DaemonStatus(status) => {
            let i = choose|i: int|
                0 <= i < status.accounts@.len() && ((#[trigger] status.accounts@[i]).account_id@
                    == told || status.accounts@[i].provider@ == told);
            assert(inspect::unsafe_status(status.accounts@[i]));
        },
        ControlResult::Devices(devices) => {
            let i = choose|i: int|
                0 <= i < devices@.len() && ((#[trigger] devices@[i]).id@ == told
                    || devices@[i].name@ == told);
            assert(inspect::unsafe_device(devices@[i]));
        },
        ControlResult::Providers(providers) => {
            let i = choose|i: int|
                0 <= i < providers@.len() && descriptor_tells(#[trigger] providers@[i], told);
            let descriptor = providers@[i];
            if descriptor.id@ != told && descriptor.display_name@ != told {
                let j = choose|j: int|
                    0 <= j < descriptor.capabilities@.len() && ((
                    #[trigger] descriptor.capabilities@[j]) matches Capability::Other(name)
                        && name@ == told);
                assert(inspect::unsafe_capability(descriptor.capabilities@[j]));
            }
            assert(inspect::unsafe_descriptor(providers@[i]));
        },
        ControlResult::Workspaces(workspaces) => {
            let i = choose|i: int|
                0 <= i < workspaces@.len() && workspace_tells(#[trigger] workspaces@[i], told);
            obscured_options(workspaces@[i].label, told);
            assert(inspect::unsafe_workspace(workspaces@[i]));
        },
        ControlResult::Usage(outcome) => {
            obscured_outcomes(outcome, told);
        },
        ControlResult::Accounts(accounts) => {
            let i = choose|i: int|
                0 <= i < accounts@.len() && account_tells(#[trigger] accounts@[i], told);
            obscured_options(accounts@[i].label, told);
            obscured_lists(accounts@[i].metrics@, told);
            assert(inspect::unsafe_account(accounts@[i]));
        },
        ControlResult::Account(account) => {
            obscured_options(account.label, told);
            obscured_lists(account.metrics@, told);
        },
        ControlResult::Probe(probe) => {
            obscured_lists(probe.metrics@, told);
            if outcome_tells(probe.usage, told) {
                obscured_outcomes(probe.usage, told);
            }
        },
        ControlResult::Snapshots(snapshots) => {
            let i = choose|i: int|
                0 <= i < snapshots@.len() && snapshot_tells(#[trigger] snapshots@[i], told);
            obscured_lists(snapshots@[i].metrics@, told);
            if outcome_tells(snapshots@[i].usage, told) {
                obscured_outcomes(snapshots@[i].usage, told);
            }
            assert(inspect::unsafe_snapshot(snapshots@[i]));
        },
        _ => {},
    }
}

proof fn unsafe_options_tell(given: Option<String>) -> (told: Seq<char>)
    requires
        inspect::unsafe_optional(given),
    ensures
        is_given(given, told),
        identity::unsafe_text(told),
{
    given->0@
}

proof fn unsafe_lists_tell(given: Seq<String>) -> (told: Seq<char>)
    requires
        inspect::any_unsafe(given),
    ensures
        is_listed(given, told),
        identity::unsafe_text(told),
{
    let i = choose|i: int| 0 <= i < given.len() && identity::unsafe_text((#[trigger] given[i])@);
    given[i]@
}

proof fn unsafe_accounts_tell(account: Account) -> (told: Seq<char>)
    requires
        inspect::unsafe_account(account),
    ensures
        account_tells(account, told),
        identity::unsafe_text(told),
{
    if identity::unsafe_text(account.id@) {
        account.id@
    } else if identity::unsafe_text(account.provider@) {
        account.provider@
    } else if inspect::unsafe_optional(account.label) {
        unsafe_options_tell(account.label)
    } else {
        unsafe_lists_tell(account.metrics@)
    }
}

proof fn unsafe_measurements_tell(measurement: UsageMeasurement) -> (told: Seq<char>)
    requires
        inspect::unsafe_measurement(measurement),
    ensures
        measurement_tells(measurement, told),
        identity::unsafe_text(told),
{
    if identity::unsafe_text(measurement.name@) {
        measurement.name@
    } else {
        match measurement.unit {
            MeasurementUnit::Currency { code } => code@,
            MeasurementUnit::Other { id, label } => if identity::unsafe_text(id@) {
                id@
            } else {
                label@
            },
            _ => measurement.name@,
        }
    }
}

proof fn unsafe_windows_tell(window: UsageWindow) -> (told: Seq<char>)
    requires
        inspect::unsafe_window(window),
    ensures
        window_tells(window, told),
        identity::unsafe_text(told),
{
    if exists|i: int|
        0 <= i < window.measurements@.len() && inspect::unsafe_measurement(
            #[trigger] window.measurements@[i],
        ) {
        let i = choose|i: int|
            0 <= i < window.measurements@.len() && inspect::unsafe_measurement(
                #[trigger] window.measurements@[i],
            );
        let told = unsafe_measurements_tell(window.measurements@[i]);
        assert(measurement_tells(window.measurements@[i], told));
        told
    } else {
        match window.window {
            UsageWindowKind::Other { id, label } => if identity::unsafe_text(id@) {
                id@
            } else {
                label@
            },
            _ => Seq::empty(),
        }
    }
}

proof fn unsafe_outcomes_tell(outcome: QueryOutcome<SubscriptionUsage>) -> (told: Seq<char>)
    requires
        inspect::unsafe_outcome(outcome),
    ensures
        outcome_tells(outcome, told),
        identity::unsafe_text(told),
{
    let usage = outcome.payload();
    if inspect::unsafe_usage(usage) {
        if identity::unsafe_text(usage.provider@) {
            usage.provider@
        } else if inspect::unsafe_optional(usage.account_label) {
            unsafe_options_tell(usage.account_label)
        } else if inspect::unsafe_optional(usage.plan) {
            unsafe_options_tell(usage.plan)
        } else {
            let i = choose|i: int|
                0 <= i < usage.windows@.len() && inspect::unsafe_window(
                    #[trigger] usage.windows@[i],
                );
            let told = unsafe_windows_tell(usage.windows@[i]);
            assert(window_tells(usage.windows@[i], told));
            told
        }
    } else {
        let failures = outcome->failures;
        let i = choose|i: int|
            0 <= i < failures@.len() && inspect::unsafe_failure(#[trigger] failures@[i]);
        if identity::unsafe_text(failures@[i].scope@) {
            failures@[i].scope@
        } else {
            failures@[i].message@
        }
    }
}

proof fn unsafe_errors_tell(error: ControlError) -> (told: Seq<char>)
    requires
        inspect::unsafe_error(error),
    ensures
        error_tells(error, told),
        identity::unsafe_text(told),
{
    match error {
        ControlError::Account(AccountError::NotFound(id)) => id@,
        ControlError::Account(AccountError::Duplicate(id)) => id@,
        ControlError::Provider(error) => error.carried_text(),
        ControlError::Registry(error) => match error {
            RegistryError::Duplicate(id) => id@,
            RegistryError::NotFound(id) => id@,
            RegistryError::InvalidId(id) => id@,
            RegistryError::InstanceUnavailable(id) => id@,
            RegistryError::InstanceFailed { provider, .. } => provider@,
            RegistryError::DescriptorMismatch { registered, actual } => if identity::unsafe_text(
                registered@,
            ) {
                registered@
            } else {
                actual@
            },
        },
        ControlError::AccountNotFound { account_id } => account_id@,
        ControlError::AccountSelectorNotFound { provider, account_label } => {
            if identity::unsafe_text(provider@) {
                provider@
            } else {
                account_label->0@
            }
        },
        ControlError::DeviceNotFound { device_id } => device_id@,
        _ => Seq::empty(),
    }
}

/// An unsafe answer tells an obscured text somewhere.
pub proof fn unsafe_answers_tell_an_obscured_text(result: ControlResult) -> (told: Seq<char>)
    requires
        inspect::unsafe_result(result),
    ensures
        result_tells(result, told),
        identity::unsafe_text(told),
{
    match result {
        ControlResult::DaemonStatus(status) => {
            let i = choose|i: int|
                0 <= i < status.accounts@.len() && inspect::unsafe_status(
                    #[trigger] status.accounts@[i],
                );
            if identity::unsafe_text(status.accounts@[i].account_id@) {
                status.accounts@[i].account_id@
            } else {
                status.accounts@[i].provider@
            }
        },
        ControlResult::PairCode(code) => code.code@,
        ControlResult::Devices(devices) => {
            let i = choose|i: int|
                0 <= i < devices@.len() && inspect::unsafe_device(#[trigger] devices@[i]);
            if identity::unsafe_text(devices@[i].id@) {
                devices@[i].id@
            } else {
                devices@[i].name@
            }
        },
        ControlResult::Providers(providers) => {
            let i = choose|i: int|
                0 <= i < providers@.len() && inspect::unsafe_descriptor(#[trigger] providers@[i]);
            let descriptor = providers@[i];
            let told = if identity::unsafe_text(descriptor.id@) {
                descriptor.id@
            } else if identity::unsafe_text(descriptor.display_name@) {
                descriptor.display_name@
            } else {
                let j = choose|j: int|
                    0 <= j < descriptor.capabilities@.len() && inspect::unsafe_capability(
                        #[trigger] descriptor.capabilities@[j],
                    );
                descriptor.capabilities@[j]->Other_0@
            };
            assert(descriptor_tells(providers@[i], told));
            told
        },
        ControlResult::Workspaces(workspaces) => {
            let i = choose|i: int|
                0 <= i < workspaces@.len() && inspect::unsafe_workspace(#[trigger] workspaces@[i]);
            let told = if identity::unsafe_text(workspaces@[i].id@) {
                workspaces@[i].id@
            } else {
                workspaces@[i].label->0@
            };
            assert(workspace_tells(workspaces@[i], told));
            told
        },
        ControlResult::Workspace(workspace) => if identity::unsafe_text(workspace.id@) {
            workspace.id@
        } else {
            workspace.label->0@
        },
        ControlResult::Usage(outcome) => unsafe_outcomes_tell(outcome),
        ControlResult::AuthChallenge(challenge) => {
            if identity::unsafe_text(challenge.flow_id@) {
                challenge.flow_id@
            } else if inspect::unsafe_method(challenge.method) {
                challenge.method->Other_0@
            } else if inspect::unsafe_optional(challenge.verification_uri) {
                unsafe_options_tell(challenge.verification_uri)
            } else if inspect::unsafe_optional(challenge.user_code) {
                unsafe_options_tell(challenge.user_code)
            } else {
                challenge.input->0.description@
            }
        },
        ControlResult::AuthState(state) => match state {
            AuthState::Pending { flow_id, .. } => flow_id@,
            AuthState::Authenticated { account_label, account_key, .. } => {
                if inspect::unsafe_optional(account_label) {
                    unsafe_options_tell(account_label)
                } else {
                    unsafe_options_tell(account_key)
                }
            },
            AuthState::Invalid { reason, account_key } => if identity::unsafe_text(reason@) {
                reason@
            } else {
                unsafe_options_tell(account_key)
            },
            AuthState::NotAuthenticated => Seq::empty(),
        },
        ControlResult::Accounts(accounts) => {
            let i = choose|i: int|
                0 <= i < accounts@.len() && inspect::unsafe_account(#[trigger] accounts@[i]);
            let told = unsafe_accounts_tell(accounts@[i]);
            assert(account_tells(accounts@[i], told));
            told
        },
        ControlResult::Account(account) => unsafe_accounts_tell(account),
        ControlResult::Probe(probe) => {
            if identity::unsafe_text(probe.account_id@) {
                probe.account_id@
            } else if inspect::unsafe_outcome(probe.usage) {
                unsafe_outcomes_tell(probe.usage)
            } else {
                unsafe_lists_tell(probe.metrics@)
            }
        },
        ControlResult::Snapshots(snapshots) => {
            let i = choose|i: int|
                0 <= i < snapshots@.len() && inspect::unsafe_snapshot(#[trigger] snapshots@[i]);
            let snapshot = snapshots@[i];
            let told = if identity::unsafe_text(snapshot.account_id@) {
                snapshot.account_id@
            } else if inspect::unsafe_outcome(snapshot.usage) {
                unsafe_outcomes_tell(snapshot.usage)
            } else {
                unsafe_lists_tell(snapshot.metrics@)
            };
            assert(snapshot_tells(snapshots@[i], told));
            told
        },
        ControlResult::Error(error) => unsafe_errors_tell(error),
        _ => Seq::empty(),
    }
}

/// No two of the texts are the same.
pub open spec fn all_different(names: Seq<Seq<char>>) -> bool {
    forall|i: int, j: int|
        0 <= i < j < names.len() ==> #[trigger] names[i] != #[trigger] names[j]
}

/// A report that says something is missing says what.
pub open spec fn whole(outcome: QueryOutcome<SubscriptionUsage>) -> bool {
    outcome matches QueryOutcome::Partial { failures, .. } ==> failures@.len() > 0
}

/// A snapshot is stale exactly when it has an error, with the time of the error.
pub open spec fn stale_for_a_reason(snapshot: SnapshotPayload) -> bool {
    if snapshot.stale {
        snapshot.last_error is Some && snapshot.last_error_at is Some
    } else {
        snapshot.last_error is None && snapshot.last_error_at is None
    }
}

/// An answer to a question about an account is that account's, in the state that
/// the question asks for; and it is trusted exactly when it is.
pub proof fn accounts_are_answered_about_themselves(command: AccountCommand, found: Account)
    requires
        !inspect::unsafe_account(found),
    ensures
        validate::answers((Command::Account { command }), ControlResult::Account(found)) == (
        match command {
            AccountCommand::Add { provider, label } => found.provider@ == provider@
                && requests::same_text(found.label, label) && found.enabled,
            AccountCommand::List => false,
            AccountCommand::Show { account } => found.id@ == account@,
            AccountCommand::Enable { account } => found.id@ == account@ && found.enabled,
            AccountCommand::Disable { account } => found.id@ == account@ && !found.enabled,
            AccountCommand::Label { account, label } => found.id@ == account@
                && requests::same_text(found.label, label),
            AccountCommand::Metrics { account, metrics } => found.id@ == account@
                && filter::text_views(found.metrics@) == validate::stored_names(
                filter::text_views(metrics@),
            ),
            AccountCommand::Remove { .. } => false,
        }),
{
}

/// The names that are stored are those given where any is unfit, and else every
/// word of them once.
pub proof fn stored_names_are_those_given(names: Seq<Seq<char>>, metric: Seq<char>)
    ensures
        choices::fit(names) ==> (choices::named(validate::stored_names(names), metric)
            == choices::named(names, metric)),
        !choices::fit(names) ==> validate::stored_names(names) == names,
{
    summaries::filters_report_the_first_unfit_name(names, 0);
    if choices::fit(names) {
        let kept = filter::normalized(names);
        crate::summary::laws::accepted_names_are_valid(names);
        crate::summary::laws::valid_names_are_accepted_unchanged(kept);
        choices::filters_have_what_was_named(names, metric);
        choices::filters_have_what_was_named(kept, metric);
    }
}

/// Lists are trusted only for the question that asks for them, and without
/// repetition; an acknowledgement only where there is nothing else to tell; and an
/// answer of another kind never.
pub proof fn questions_have_their_answers(command: Command, result: ControlResult)
    requires
        validate::answers(command, result),
        !(result is Error),
        !(result is ProtocolMismatch),
    ensures
        result matches ControlResult::DaemonStatus(status) ==> command matches Command::Daemon {
            command: DaemonCommand::Status,
        } && all_different(
            status.accounts@.map_values(|account: AccountStatusPayload| account.account_id@),
        ) && forall|i: int|
            0 <= i < status.accounts@.len() ==> ((#[trigger] status.accounts@[i]).stale
                ==> status.accounts@[i].has_snapshot),
        result matches ControlResult::Providers(providers) ==> command is Provider
            && all_different(
            providers@.map_values(|provider: ProviderDescriptor| provider.id@),
        ),
        result matches ControlResult::Accounts(accounts) ==> command matches Command::Account {
            command: AccountCommand::List,
        } && all_different(accounts@.map_values(|account: Account| account.id@)),
        result matches ControlResult::Devices(devices) ==> command matches Command::Device {
            command: DeviceCommand::List,
        } && all_different(devices@.map_values(|device: DevicePayload| device.id@)) && forall|
            i: int,
        |
            0 <= i < devices@.len() ==> (#[trigger] devices@[i]).id@.len() > 0
                && devices@[i].name@.len() > 0 && !devices@[i].last_seen_at.earlier_than(
                devices@[i].created_at,
            ),
        result matches ControlResult::PairCode(code) ==> command matches Command::Device {
            command: DeviceCommand::Pair,
        } && code.code@.len() == 7,
        result matches ControlResult::Snapshots(snapshots) ==> (command is Show || command is Tui)
            && all_different(
            snapshots@.map_values(|snapshot: SnapshotPayload| snapshot.account_id@),
        ) && forall|i: int|
            0 <= i < snapshots@.len() ==> whole((#[trigger] snapshots@[i]).usage)
                && stale_for_a_reason(snapshots@[i]) && (command matches Command::Show(args) ==> (
            args.account matches Some(account) ==> snapshots@[i].account_id@ == account@
                && snapshots@.len() == 1)),
        result matches ControlResult::Probe(probe) ==> command matches Command::Probe(args)
            && args.wait && probe.account_id@ == args.account@ && whole(probe.usage),
        result is AuthChallenge ==> (command matches Command::Auth { command } && command is Login),
        result is AuthState ==> (command matches Command::Auth { command } && (command is Status
            || command is Complete)),
        result is Ack ==> {
            ||| command matches Command::Device { command } && command is Revoke
            ||| command matches Command::Account { command } && command is Remove
            ||| command matches Command::Auth { command } && command is Logout
            ||| command matches Command::Probe(args) && !args.wait
        },
        result is Account ==> command is Account,
        !(result is Usage) && !(result is Workspace) && !(result is Workspaces),
{
}

/// An honest answer is trusted: a safe list without repetition, an acknowledgement
/// of what only needs one, and what a sign-in asks next.
pub proof fn honest_answers_are_trusted(command: Command, result: ControlResult)
    requires
        !inspect::unsafe_result(result),
    ensures
        command is Provider ==> (result matches ControlResult::Providers(providers)
            && all_different(providers@.map_values(|provider: ProviderDescriptor| provider.id@))
            ==> validate::answers(command, result)),
        command matches Command::Account { command: AccountCommand::List } ==> (
        result matches ControlResult::Accounts(accounts) && all_different(
            accounts@.map_values(|account: Account| account.id@),
        ) ==> validate::answers(command, result)),
        command matches Command::Account { command: AccountCommand::Remove { .. } } ==> (result
            is Ack ==> validate::answers(command, result)),
        command matches Command::Device { command: DeviceCommand::Revoke { .. } } ==> (result
            is Ack ==> validate::answers(command, result)),
        command matches Command::Auth { command: AuthCommand::Logout { .. } } ==> (result is Ack
            ==> validate::answers(command, result)),
        command matches Command::Auth { command: AuthCommand::Login { .. } } ==> (result
            is AuthChallenge ==> validate::answers(command, result)),
        command matches Command::Auth { command: AuthCommand::Status { .. } } ==> (result
            is AuthState ==> validate::answers(command, result)),
        command matches Command::Auth { command: AuthCommand::Complete { .. } } ==> (result
            is AuthState ==> validate::answers(command, result)),
        command matches Command::Probe(args) ==> (!args.wait && result is Ack
            ==> validate::answers(command, result)),
        command matches Command::Probe(args) ==> (args.wait ==> (result matches
            ControlResult::Probe(probe) ==> (probe.account_id@ == args.account@ && whole(
            probe.usage,
        ) ==> validate::answers(command, result)))),
        result is ProtocolMismatch ==> validate::answers(command, result),
        command is Show && command->Show_0.account is None || command is Tui ==> (
        result matches ControlResult::Snapshots(snapshots) && all_different(
            snapshots@.map_values(|snapshot: SnapshotPayload| snapshot.account_id@),
        ) && (forall|i: int|
            0 <= i < snapshots@.len() ==> whole((#[trigger] snapshots@[i]).usage)
                && stale_for_a_reason(snapshots@[i])) ==> validate::answers(command, result)),
        command matches Command::Show(args) ==> (args.account matches Some(account) ==> (
        result matches ControlResult::Snapshots(snapshots) ==> ((snapshots@.len() == 0
            || snapshots@.len() == 1 && snapshots@[0].account_id@ == account@ && whole(
            snapshots@[0].usage,
        ) && stale_for_a_reason(snapshots@[0])) ==> validate::answers(command, result)))),
{
    if let ControlResult::Providers(providers) = result {
        let ids = providers@.map_values(|provider: ProviderDescriptor| provider.id@);
        if all_different(ids) {
            assert forall|i: int, j: int| 0 <= i < j < providers@.len() implies (
            #[trigger] providers@[i]).id@ != (#[trigger] providers@[j]).id@ by {
                assert(ids[i] != ids[j]);
            }
        }
    }
    if let ControlResult::Accounts(accounts) = result {
        let ids = accounts@.map_values(|account: Account| account.id@);
        if all_different(ids) {
            assert forall|i: int, j: int| 0 <= i < j < accounts@.len() implies (
            #[trigger] accounts@[i]).id@ != (#[trigger] accounts@[j]).id@ by {
                assert(ids[i] != ids[j]);
            }
        }
    }
    if let ControlResult::Snapshots(snapshots) = result {
        let ids = snapshots@.map_values(|snapshot: SnapshotPayload| snapshot.account_id@);
        if all_different(ids) {
            assert forall|i: int, j: int| 0 <= i < j < snapshots@.len() implies (
            #[trigger] snapshots@[i]).account_id@ != (#[trigger] snapshots@[j]).account_id@ by {
                assert(ids[i] != ids[j]);
            }
        }
    }
}

/// Three characters of a pairing code: digits from two on and capitals, without
/// those that read like others.
pub open spec fn pairing_group(group: Seq<char>) -> bool {
    group.len() == 3 && summaries::plain_word(group) && forall|i: int|
        0 <= i < 3 ==> !('a' <= (#[trigger] group[i]) <= 'z') && group[i] != '0' && group[i] != '1'
            && group[i] != 'I' && group[i] != 'L' && group[i] != 'O' && group[i] != 'U'
}

/// A pairing code is two groups of three characters with a hyphen between.
pub proof fn pairing_codes_are_two_groups_of_three(
    code: Seq<char>,
    first: Seq<char>,
    second: Seq<char>,
)
    ensures
        code == first + seq!['-'] + second && pairing_group(first) && pairing_group(second)
            ==> validate::valid_pair_code(code),
        validate::valid_pair_code(code) ==> code == code.take(3) + seq!['-'] + code.skip(4)
            && pairing_group(code.take(3)) && pairing_group(code.skip(4)),
{
    if validate::valid_pair_code(code) {
        let start = code.take(3);
        let end = code.skip(4);
        assert(code =~= start + seq!['-'] + end);
        assert forall|i: int| 0 <= i < 3 implies validate::pair_code_character(#[trigger] start[i])
            && summaries::letter_or_digit(start[i]) by {
            assert(start[i] == code[i]);
            assert(validate::pair_code_character(code[i]));
        }
        assert forall|i: int| 0 <= i < 3 implies validate::pair_code_character(#[trigger] end[i])
            && summaries::letter_or_digit(end[i]) by {
            assert(end[i] == code[i + 4]);
            assert(validate::pair_code_character(code[i + 4]));
        }
    }
    if code == first + seq!['-'] + second && pairing_group(first) && pairing_group(second) {
        assert forall|i: int| 0 <= i < 7 && i != 3 implies validate::pair_code_character(
            #[trigger] code[i],
        ) by {
            if i < 3 {
                assert(code[i] == first[i]);
                assert(summaries::letter_or_digit(first[i]));
            } else {
                assert(code[i] == second[i - 4]);
                assert(summaries::letter_or_digit(second[i - 4]));
            }
        }
    }
}

/// A refusal is trusted only where the command can be refused so: about the very
/// account, provider or device that was asked for, and for a wait only where one
/// was asked for.
pub proof fn refusals_are_about_what_was_asked(command: Command, error: ControlError)
    requires
        validate::answers(command, ControlResult::Error(error)),
    ensures
        !(command is Daemon) && !(command is Provider) && !(command is Tui),
        !(error is InvalidRequest) && !(error is UnsupportedCommand),
        error is Timeout ==> (command matches Command::Probe(args) && args.wait),
        error is Cancelled ==> command is Probe || (command matches Command::Account { command }
            && command is Remove),
        error is InvalidAccountMetrics ==> (command matches Command::Account { command } && command
            is Metrics),
        error is Storage ==> command is Device || command is Account || (
        command matches Command::Probe(args) && args.wait),
        error is Storage ==> (command matches Command::Account { command } ==> !(command is List)
            && !(command is Show)),
        error matches ControlError::DeviceNotFound { device_id } ==> command matches
            Command::Device { command: DeviceCommand::Revoke { device_id: asked } } && device_id@
            == asked@,
        error matches ControlError::AccountNotFound { account_id } ==> (command matches
            Command::Probe(args) && args.account@ == account_id@) || (command matches Command::Show(
            args,
        ) && args.account is Some && args.account->0@ == account_id@),
        error is AccountSelectorNotFound ==> command is Probe,
        error is Provider ==> command is Auth || (command matches Command::Probe(args)
            && args.wait),
        error matches ControlError::Account(AccountError::Duplicate(_)) ==> command matches
            Command::Account { command } && (command is Add || command is Label),
        error matches ControlError::Account(AccountError::NotFound(account)) ==> {
            ||| command matches Command::Account { command } && !(command is Add) && !(command
                is List) && account@ == validate::account_of(command)
            ||| command matches Command::Auth { command } && validate::auth_account(command)
                == Some(account@)
        },
        error is Registry ==> command is Auth || (command matches Command::Probe(args)
            && args.wait) || (command matches Command::Account { command } && command is Add),
        error matches ControlError::Registry(RegistryError::NotFound(provider)) ==> {
            &&& command matches Command::Auth { command } ==> validate::auth_provider(command)
                == Some(provider@)
            &&& command matches Command::Account {
                command: AccountCommand::Add { provider: asked, .. },
            } ==> provider@ == asked@
        },
        error matches ControlError::Registry(registry) ==> !(registry is Duplicate) && !(registry
            is InvalidId) && !(registry is DescriptorMismatch),
{
}

/// An honest refusal is trusted: that what was asked for is not there, that the
/// store failed on a change, that a provider refused a sign-in, and that a wait
/// ended without a result.
pub proof fn honest_refusals_are_trusted(command: Command, error: ControlError)
    requires
        !inspect::unsafe_error(error),
    ensures
        ({
            let trusted = validate::answers(command, ControlResult::Error(error));
            &&& command is Device && error is Storage ==> trusted
            &&& command matches Command::Device {
                command: DeviceCommand::Revoke { device_id: asked },
            } ==> (error matches ControlError::DeviceNotFound { device_id } ==> (device_id@
                == asked@ ==> trusted))
            &&& command matches Command::Account { command: asked } ==> (error is Storage && !(asked
                is List) && !(asked is Show) ==> trusted)
            &&& command matches Command::Account { command: asked } ==> (error matches
                ControlError::Account(AccountError::NotFound(account)) ==> (!(asked is Add) && !(
            asked is List) && account@ == validate::account_of(asked) ==> trusted))
            &&& command matches Command::Account { command: asked } ==> (error matches
                ControlError::Account(AccountError::Duplicate(_)) ==> (asked is Add || asked
                is Label ==> trusted))
            &&& command matches Command::Account {
                command: AccountCommand::Add { provider: asked, .. },
            } ==> (error matches ControlError::Registry(RegistryError::NotFound(provider)) ==> (
            provider@ == asked@ ==> trusted))
            &&& command matches Command::Account { command: asked } ==> (error
                is InvalidAccountMetrics && asked is Metrics ==> trusted)
            &&& command matches Command::Account { command: asked } ==> (error is Cancelled && asked
                is Remove ==> trusted)
            &&& command is Auth && error is Provider ==> trusted
            &&& command matches Command::Auth { command: asked } ==> (error matches
                ControlError::Account(AccountError::NotFound(account)) ==> (
            validate::auth_account(asked) == Some(account@) ==> trusted))
            &&& command matches Command::Auth { command: asked } ==> (error matches
                ControlError::Registry(RegistryError::NotFound(provider)) ==> (
            validate::auth_provider(asked) == Some(provider@) ==> trusted))
            &&& command matches Command::Auth { command: asked } ==> (error matches
                ControlError::Registry(RegistryError::InstanceUnavailable(provider)) ==> (
            validate::auth_provider(asked) == Some(provider@) ==> trusted))
            &&& command matches Command::Auth { command: asked } ==> (error matches
                ControlError::Registry(RegistryError::InstanceFailed { provider, .. }) ==> (
            validate::auth_provider(asked) == Some(provider@) ==> trusted))
            &&& command matches Command::Probe(args) ==> (error matches
                ControlError::AccountNotFound { account_id } ==> (account_id@ == args.account@
                ==> trusted))
            &&& command is Probe && (error is AccountSelectorNotFound || error is Cancelled)
                ==> trusted
            &&& command matches Command::Probe(args) ==> (args.wait && (error is Provider || error
                is Timeout || error is Storage) ==> trusted)
            &&& command matches Command::Probe(args) ==> (error matches ControlError::Registry(
                registry,
            ) ==> (args.wait && (registry is NotFound || registry is InstanceUnavailable || registry
                is InstanceFailed) ==> trusted))
            &&& command matches Command::Show(args) ==> (error matches
                ControlError::AccountNotFound { account_id } ==> (args.account is Some
                && args.account->0@ == account_id@ ==> trusted))
        }),
{
}

/// The provider and the account of a sign-in command are those it names.
pub proof fn sign_ins_name_provider_and_account(command: AuthCommand)
    ensures
        match command {
            AuthCommand::Login { provider, account, .. } => {
                &&& validate::auth_provider(command) is Some == provider is Some
                &&& provider is Some ==> validate::auth_provider(command) == Some(provider->0@)
                &&& validate::auth_account(command) is Some == account is Some
                &&& account is Some ==> validate::auth_account(command) == Some(account->0@)
            },
            AuthCommand::Status { provider, account } => validate::auth_provider(command) == Some(
                provider@,
            ) && validate::auth_account(command) == Some(account@),
            AuthCommand::Complete { provider, account, .. } => validate::auth_provider(command)
                == Some(provider@) && validate::auth_account(command) == Some(account@),
            AuthCommand::Logout { provider, account, .. } => validate::auth_provider(command)
                == Some(provider@) && validate::auth_account(command) == Some(account@),
        },
{
}

/// The account of an account command is the one it names.
pub proof fn account_commands_name_their_account(command: AccountCommand)
    ensures
        match command {
            AccountCommand::Show { account } => validate::account_of(command) == account@,
            AccountCommand::Enable { account } => validate::account_of(command) == account@,
            AccountCommand::Disable { account } => validate::account_of(command) == account@,
            AccountCommand::Label { account, .. } => validate::account_of(command) == account@,
            AccountCommand::Metrics { account, .. } => validate::account_of(command) == account@,
            AccountCommand::Remove { account } => validate::account_of(command) == account@,
            _ => true,
        },
{
}

/// An honest list of devices, status or pairing code is trusted: one without
/// repetition, of devices with an id and a name that were not seen before they were
/// paired; of accounts that are stale only where they have a snapshot; and of two
/// groups of three.
pub proof fn honest_lists_are_trusted(
    devices: Vec<DevicePayload>,
    status: DaemonStatusPayload,
    code: PairCodePayload,
)
    ensures
        !inspect::unsafe_result(ControlResult::Devices(devices)) && all_different(
            devices@.map_values(|device: DevicePayload| device.id@),
        ) && (forall|i: int|
            0 <= i < devices@.len() ==> (#[trigger] devices@[i]).id@.len() > 0
                && devices@[i].name@.len() > 0 && !devices@[i].last_seen_at.earlier_than(
                devices@[i].created_at,
            )) ==> validate::answers(
            (Command::Device { command: DeviceCommand::List }),
            ControlResult::Devices(devices),
        ),
        !inspect::unsafe_result(ControlResult::DaemonStatus(status)) && all_different(
            status.accounts@.map_values(|account: AccountStatusPayload| account.account_id@),
        ) && (forall|i: int|
            0 <= i < status.accounts@.len() ==> ((#[trigger] status.accounts@[i]).stale
                ==> status.accounts@[i].has_snapshot)) ==> validate::answers(
            (Command::Daemon { command: DaemonCommand::Status }),
            ControlResult::DaemonStatus(status),
        ),
        !inspect::unsafe_result(ControlResult::PairCode(code)) && code.code@.len() == 7
            && code.code@[3] == '-' && pairing_group(code.code@.take(3)) && pairing_group(
            code.code@.skip(4),
        ) ==> validate::answers(
            (Command::Device { command: DeviceCommand::Pair }),
            ControlResult::PairCode(code),
        ),
{
    let ids = devices@.map_values(|device: DevicePayload| device.id@);
    if all_different(ids) {
        assert forall|i: int, j: int| 0 <= i < j < devices@.len() implies (
        #[trigger] devices@[i]).id@ != (#[trigger] devices@[j]).id@ by {
            assert(ids[i] != ids[j]);
        }
    }
    let accounts = status.accounts@.map_values(
        |account: AccountStatusPayload| account.account_id@,
    );
    if all_different(accounts) {
        assert forall|i: int, j: int| 0 <= i < j < status.accounts@.len() implies (
        #[trigger] status.accounts@[i]).account_id@ != (
        #[trigger] status.accounts@[j]).account_id@ by {
            assert(accounts[i] != accounts[j]);
        }
    }
    if code.code@.len() == 7 && code.code@[3] == '-' {
        let first = code.code@.take(3);
        let second = code.code@.skip(4);
        assert(code.code@ =~= first + seq!['-'] + second);
        pairing_codes_are_two_groups_of_three(code.code@, first, second);
    }
}

} // verus!
