//! Keeps secrets and control characters out of what is printed.

use vstd::prelude::*;

use crate::error::{PartialFailure, QueryOutcome};
use crate::identity;
use crate::protocol::{Account, AuthState, ControlResult, SnapshotPayload};
use crate::text;
use crate::usage::SubscriptionUsage;

verus! {

/// What stands in the place of a text that is kept back.
pub const REDACTED: &'static str = "[redacted]";

/// What is left of an escape sequence's text once its final byte is passed.
pub open spec fn after_final_byte(text: Seq<char>) -> Seq<char>
    decreases text.len(),
{
    if text.len() == 0 {
        text
    } else if 0x40 <= text[0] as u32 <= 0x7e {
        text.skip(1)
    } else {
        after_final_byte(text.skip(1))
    }
}

/// What is left of a control string's text once its terminator is passed: BEL,
/// the C1 string terminator, or a backslash behind an escape.
pub open spec fn after_terminator(text: Seq<char>, escaped: bool) -> Seq<char>
    decreases text.len(),
{
    if text.len() == 0 {
        text
    } else if text[0] == '\u{7}' || text[0] == '\u{9c}' || (escaped && text[0] == '\\') {
        text.skip(1)
    } else {
        after_terminator(text.skip(1), text[0] == '\u{1b}')
    }
}

/// The character starts a control string after an escape.
pub open spec fn starts_control_string(character: char) -> bool {
    ||| character == ']'
    ||| character == 'P'
    ||| character == 'X'
    ||| character == '^'
    ||| character == '_'
}

/// Passing a sequence never lengthens the text.
pub proof fn sequences_shrink(text: Seq<char>, escaped: bool)
    ensures
        after_final_byte(text).len() <= text.len(),
        after_terminator(text, escaped).len() <= text.len(),
    decreases text.len(),
{
    if text.len() > 0 {
        sequences_shrink(text.skip(1), text[0] == '\u{1b}');
    }
}

/// The text without escape sequences and without characters that may not be
/// displayed, but with its line breaks. A truncated sequence takes the rest of
/// the text with it.
pub open spec fn sanitized(text: Seq<char>) -> Seq<char>
    decreases text.len(),
{
    if text.len() == 0 {
        Seq::empty()
    } else if text[0] == '\u{1b}' {
        if text.len() > 1 && text[1] == '[' {
            proof {
                sequences_shrink(text.skip(2), false);
            }
            sanitized(after_final_byte(text.skip(2)))
        } else if text.len() > 1 && starts_control_string(text[1]) {
            proof {
                sequences_shrink(text.skip(2), false);
            }
            sanitized(after_terminator(text.skip(2), false))
        } else {
            sanitized(text.skip(1))
        }
    } else if text[0] == '\n' || !identity::unsafe_character(text[0]) {
        seq![text[0]] + sanitized(text.skip(1))
    } else {
        sanitized(text.skip(1))
    }
}

fn skip_to_final_byte(all: &Vec<char>, from: usize) -> (result: usize)
    requires
        from <= all@.len(),
    ensures
        from <= result <= all@.len(),
        all@.skip(result as int) == after_final_byte(all@.skip(from as int)),
{
    let mut index: usize = from;
    while index < all.len()
        invariant
            from <= index <= all@.len(),
            after_final_byte(all@.skip(index as int)) == after_final_byte(all@.skip(from as int)),
        decreases all.len() - index,
    {
        assert(all@.skip(index as int).skip(1) == all@.skip(index + 1));
        let code: u32 = all[index] as u32;
        index = index + 1;
        if 0x40 <= code && code <= 0x7e {
            return index;
        }
    }
    index
}

/// Passes a control string's text through BEL, C1 ST, or ESC \ — whichever
/// comes first — or through end of input when the sequence is truncated.
fn strip_until_string_terminator(all: &Vec<char>, from: usize) -> (result: usize)
    requires
        from <= all@.len(),
    ensures
        from <= result <= all@.len(),
        all@.skip(result as int) == after_terminator(all@.skip(from as int), false),
{
    let mut escaped = false;
    let mut index: usize = from;
    while index < all.len()
        invariant
            from <= index <= all@.len(),
            after_terminator(all@.skip(index as int), escaped) == after_terminator(
                all@.skip(from as int),
                false,
            ),
        decreases all.len() - index,
    {
        assert(all@.skip(index as int).skip(1) == all@.skip(index + 1));
        let character: char = all[index];
        index = index + 1;
        if character == '\u{7}' || character == '\u{9c}' || (escaped && character == '\\') {
            return index;
        }
        escaped = character == '\u{1b}';
    }
    index
}

/// Drops escape sequences and every character that may not be displayed, and
/// keeps line breaks.
pub fn sanitize_cli_text(text: &str) -> (result: String)
    ensures
        result@ == sanitized(text@),
{
    let all: Vec<char> = text::characters(text);
    let mut result = String::new();
    let mut index: usize = 0;
    assert(all@.skip(0) == all@);
    assert(result@ + sanitized(all@.skip(0)) == sanitized(all@));
    while index < all.len()
        invariant
            all@ == text@,
            index <= all@.len(),
            result@ + sanitized(all@.skip(index as int)) == sanitized(all@),
        decreases all.len() - index,
    {
        let ghost rest = all@.skip(index as int);
        let character: char = all[index];
        assert(rest[0] == character);
        assert(rest.skip(1) == all@.skip(index + 1));
        if character == '\u{1b}' {
            if index + 1 < all.len() && all[index + 1] == '[' {
                assert(rest[1] == all@[index + 1]);
                assert(rest.skip(2) == all@.skip(index + 2));
                index = skip_to_final_byte(&all, index + 2);
            } else if index + 1 < all.len() && (all[index + 1] == ']' || all[index + 1] == 'P'
                || all[index + 1] == 'X' || all[index + 1] == '^' || all[index + 1] == '_') {
                assert(rest[1] == all@[index + 1]);
                assert(rest.skip(2) == all@.skip(index + 2));
                index = strip_until_string_terminator(&all, index + 2);
            } else {
                assert(rest.len() > 1 ==> rest[1] == all@[index + 1]);
                index = index + 1;
            }
        } else {
            if character == '\n' || !identity::is_unsafe_identity_character(character) {
                assert(result@ + (seq![character] + sanitized(rest.skip(1))) == result@.push(
                    character,
                ) + sanitized(rest.skip(1)));
                result.push(character);
            }
            index = index + 1;
        }
    }
    assert(sanitized(all@.skip(index as int)) == Seq::<char>::empty());
    result
}

/// The characters that may stand in output: line breaks and what may be
/// displayed.
pub open spec fn printable(text: Seq<char>) -> bool {
    forall|i: int|
        0 <= i < text.len() ==> (#[trigger] text[i]) == '\n' || !identity::unsafe_character(text[i])
}

/// What is left after sanitizing holds no escape, no control and no
/// bidirectional character but line breaks.
pub proof fn sanitized_text_is_printable(text: Seq<char>)
    ensures
        printable(sanitized(text)),
    decreases text.len(),
{
    if text.len() > 0 {
        if text[0] == '\u{1b}' {
            if text.len() > 1 {
                sequences_shrink(text.skip(2), false);
                sanitized_text_is_printable(after_final_byte(text.skip(2)));
                sanitized_text_is_printable(after_terminator(text.skip(2), false));
            }
            sanitized_text_is_printable(text.skip(1));
        } else {
            sanitized_text_is_printable(text.skip(1));
        }
    }
}

/// Printable text is left as it is.
pub proof fn printable_text_is_kept(text: Seq<char>)
    requires
        printable(text),
    ensures
        sanitized(text) == text,
    decreases text.len(),
{
    if text.len() > 0 {
        assert(text[0] == '\n' || !identity::unsafe_character(text[0]));
        assert(text[0] != '\u{1b}');
        assert forall|i: int| 0 <= i < text.skip(1).len() implies (#[trigger] text.skip(1)[i])
            == '\n' || !identity::unsafe_character(text.skip(1)[i]) by {
            assert(text.skip(1)[i] == text[i + 1]);
        }
        printable_text_is_kept(text.skip(1));
        assert(seq![text[0]] + text.skip(1) =~= text);
    }
}

/// Sanitizing a second time changes nothing.
pub proof fn sanitizing_twice_changes_nothing(text: Seq<char>)
    ensures
        sanitized(sanitized(text)) == sanitized(text),
{
    sanitized_text_is_printable(text);
    printable_text_is_kept(sanitized(text));
}

/// A text with a control character in it.
pub open spec fn holds_control(text: Seq<char>) -> bool {
    exists|i: int| 0 <= i < text.len() && text::control(#[trigger] text[i])
}

/// What a table cell shows of a text: nothing of one with control characters.
pub open spec fn cell_text(value: Seq<char>) -> Seq<char> {
    if holds_control(value) {
        REDACTED@
    } else {
        value
    }
}

/// What a table cell shows of a text: nothing of one with control characters.
pub fn sanitize_cell(value: &str) -> (result: &str)
    ensures
        result@ == cell_text(value@),
{
    let all: Vec<char> = text::characters(value);
    let mut index: usize = 0;
    while index < all.len()
        invariant
            all@ == value@,
            index <= all@.len(),
            forall|i: int| 0 <= i < index ==> !text::control(#[trigger] all@[i]),
        decreases all.len() - index,
    {
        if text::is_control(all[index]) {
            assert(text::control(value@[index as int]));
            return REDACTED;
        }
        index = index + 1;
    }
    value
}

/// A table cell never shows a control character.
pub proof fn cells_hold_no_control(value: Seq<char>)
    ensures
        !holds_control(cell_text(value)),
{
    reveal_strlit("[redacted]");
    assert(REDACTED@ == "[redacted]"@);
    if holds_control(value) {
        assert forall|i: int| 0 <= i < REDACTED@.len() implies !text::control(
            #[trigger] REDACTED@[i],
        ) by {}
    }
}

/// What is shown of a text that only `--reveal` shows.
pub open spec fn sensitive_text(value: Seq<char>, reveal: bool) -> Seq<char> {
    if reveal {
        cell_text(value)
    } else if value.len() == 0 {
        "-"@
    } else {
        REDACTED@
    }
}

/// What is shown of a text that only `--reveal` shows.
pub fn display_sensitive(value: &str, reveal: bool) -> (result: String)
    ensures
        result@ == sensitive_text(value@, reveal),
{
    if reveal {
        sanitize_cell(value).to_owned()
    } else if value.is_empty() {
        "-".to_owned()
    } else {
        REDACTED.to_owned()
    }
}

/// The text is gone, if there was one.
pub open spec fn option_hidden(before: Option<String>, after: Option<String>) -> bool {
    match before {
        Some(_) => after matches Some(text) && text@ == REDACTED@,
        None => after is None,
    }
}

fn hide_option(value: &mut Option<String>)
    ensures
        option_hidden(*old(value), *final(value)),
{
    if value.is_some() {
        *value = Some(REDACTED.to_owned());
    }
}

/// The account with its label hidden.
pub open spec fn account_hidden(before: Account, after: Account) -> bool {
    &&& option_hidden(before.label, after.label)
    &&& after == (Account { label: after.label, ..before })
}

fn redact_account(account: &mut Account)
    ensures
        account_hidden(*old(account), *final(account)),
{
    hide_option(&mut account.label);
}

/// The report with its account label hidden.
pub open spec fn usage_hidden(before: SubscriptionUsage, after: SubscriptionUsage) -> bool {
    &&& option_hidden(before.account_label, after.account_label)
    &&& after == (SubscriptionUsage { account_label: after.account_label, ..before })
}

fn redact_usage(usage: &mut SubscriptionUsage)
    ensures
        usage_hidden(*old(usage), *final(usage)),
{
    hide_option(&mut usage.account_label);
}

/// The outcome with the account label of its report hidden.
pub open spec fn outcome_hidden(
    before: QueryOutcome<SubscriptionUsage>,
    after: QueryOutcome<SubscriptionUsage>,
) -> bool {
    match (before, after) {
        (
            QueryOutcome::Complete { data: old_data },
            QueryOutcome::Complete { data: new_data },
        ) => usage_hidden(old_data, new_data),
        (
            QueryOutcome::Partial { data: old_data, failures: old_failures },
            QueryOutcome::Partial { data: new_data, failures: new_failures },
        ) => usage_hidden(old_data, new_data) && new_failures == old_failures,
        _ => false,
    }
}

fn redact_outcome(outcome: &mut QueryOutcome<SubscriptionUsage>)
    ensures
        outcome_hidden(*old(outcome), *final(outcome)),
{
    match outcome {
        QueryOutcome::Complete { data } => redact_usage(data),
        QueryOutcome::Partial { data, .. } => redact_usage(data),
    }
}

/// The snapshot with the account label of its report hidden.
pub open spec fn snapshot_hidden(before: SnapshotPayload, after: SnapshotPayload) -> bool {
    &&& outcome_hidden(before.usage, after.usage)
    &&& after == (SnapshotPayload { usage: after.usage, ..before })
}

/// The sign-in state with what only `--reveal` shows hidden.
pub open spec fn auth_state_hidden(before: AuthState, after: AuthState) -> bool {
    match before {
        AuthState::Authenticated { account_label, expires_at, account_key } => after matches
            AuthState::Authenticated {
            account_label: shown,
            expires_at: same_expiry,
            account_key: same_key,
        } && option_hidden(account_label, shown) && same_expiry == expires_at && same_key
            == account_key,
        AuthState::Pending { expires_at, .. } => after matches AuthState::Pending {
            flow_id,
            expires_at: same_expiry,
        } && flow_id@ == REDACTED@ && same_expiry == expires_at,
        AuthState::Invalid { .. } | AuthState::NotAuthenticated => after == before,
    }
}

/// The answer with everything hidden that only `--reveal` shows: the labels of
/// accounts and reports, and what a sign-in is recognized by.
pub open spec fn values_hidden(before: ControlResult, after: ControlResult) -> bool {
    match before {
        ControlResult::Accounts(accounts) => after matches ControlResult::Accounts(hidden)
            && hidden@.len() == accounts@.len() && forall|i: int|
            0 <= i < accounts@.len() ==> account_hidden(accounts@[i], #[trigger] hidden@[i]),
        ControlResult::Account(account) => after matches ControlResult::Account(hidden)
            && account_hidden(account, hidden),
        ControlResult::Probe(payload) => after matches ControlResult::Probe(hidden)
            && outcome_hidden(payload.usage, hidden.usage) && hidden == (
        crate::protocol::ProbePayload { usage: hidden.usage, ..payload }),
        ControlResult::Snapshots(snapshots) => after matches ControlResult::Snapshots(hidden)
            && hidden@.len() == snapshots@.len() && forall|i: int|
            0 <= i < snapshots@.len() ==> snapshot_hidden(snapshots@[i], #[trigger] hidden@[i]),
        ControlResult::AuthChallenge(challenge) => after matches ControlResult::AuthChallenge(
            hidden,
        ) && hidden.flow_id@ == REDACTED@ && option_hidden(
            challenge.verification_uri,
            hidden.verification_uri,
        ) && option_hidden(challenge.user_code, hidden.user_code) && hidden == (
        crate::protocol::AuthChallenge {
            flow_id: hidden.flow_id,
            verification_uri: hidden.verification_uri,
            user_code: hidden.user_code,
            ..challenge
        }),
        ControlResult::AuthState(state) => after matches ControlResult::AuthState(hidden)
            && auth_state_hidden(state, hidden),
        _ => after == before,
    }
}

fn hide_accounts(accounts: &mut Vec<Account>)
    ensures
        final(accounts)@.len() == old(accounts)@.len(),
        forall|i: int|
            0 <= i < old(accounts)@.len() ==> account_hidden(
                old(accounts)@[i],
                #[trigger] final(accounts)@[i],
            ),
{
    let mut index: usize = 0;
    while index < accounts.len()
        invariant
            index <= accounts@.len() == old(accounts)@.len(),
            forall|i: int|
                0 <= i < index ==> account_hidden(old(accounts)@[i], #[trigger] accounts@[i]),
            forall|i: int|
                index <= i < accounts@.len() ==> #[trigger] accounts@[i] == old(accounts)@[i],
        decreases accounts.len() - index,
    {
        redact_account(&mut accounts[index]);
        index = index + 1;
    }
}

fn hide_snapshots(snapshots: &mut Vec<SnapshotPayload>)
    ensures
        final(snapshots)@.len() == old(snapshots)@.len(),
        forall|i: int|
            0 <= i < old(snapshots)@.len() ==> snapshot_hidden(
                old(snapshots)@[i],
                #[trigger] final(snapshots)@[i],
            ),
{
    let mut index: usize = 0;
    while index < snapshots.len()
        invariant
            index <= snapshots@.len() == old(snapshots)@.len(),
            forall|i: int|
                0 <= i < index ==> snapshot_hidden(old(snapshots)@[i], #[trigger] snapshots@[i]),
            forall|i: int|
                index <= i < snapshots@.len() ==> #[trigger] snapshots@[i] == old(snapshots)@[i],
        decreases snapshots.len() - index,
    {
        redact_outcome(&mut snapshots[index].usage);
        index = index + 1;
    }
}

/// Hides everything that only `--reveal` shows.
pub fn redact_revealable_values(result: &mut ControlResult)
    ensures
        values_hidden(*old(result), *final(result)),
{
    match result {
        ControlResult::Accounts(accounts) => hide_accounts(accounts),
        ControlResult::Account(account) => redact_account(account),
        ControlResult::Probe(payload) => redact_outcome(&mut payload.usage),
        ControlResult::Snapshots(snapshots) => hide_snapshots(snapshots),
        ControlResult::AuthChallenge(challenge) => {
            challenge.flow_id = REDACTED.to_owned();
            hide_option(&mut challenge.verification_uri);
            hide_option(&mut challenge.user_code);
        },
        ControlResult::AuthState(state) => match state {
            AuthState::Authenticated { account_label, .. } => hide_option(account_label),
            AuthState::Pending { flow_id, .. } => {
                *flow_id = REDACTED.to_owned();
            },
            AuthState::Invalid { .. } => {},
            AuthState::NotAuthenticated => {},
        },
        _ => {},
    }
}

/// The failure with its texts hidden.
pub open spec fn failure_hidden(after: PartialFailure) -> bool {
    after.scope@ == REDACTED@ && after.message@ == REDACTED@
}

/// The outcome with the texts of its failures hidden.
pub open spec fn failures_hidden<T>(before: QueryOutcome<T>, after: QueryOutcome<T>) -> bool {
    match (before, after) {
        (QueryOutcome::Complete { data: left }, QueryOutcome::Complete { data: right }) => left
            == right,
        (
            QueryOutcome::Partial { data: left, failures: shown },
            QueryOutcome::Partial { data: right, failures: hidden },
        ) => left == right && hidden@.len() == shown@.len() && forall|i: int|
            0 <= i < hidden@.len() ==> failure_hidden(#[trigger] hidden@[i]),
        _ => false,
    }
}

fn hide_failures(failures: &mut Vec<PartialFailure>)
    ensures
        final(failures)@.len() == old(failures)@.len(),
        forall|i: int|
            0 <= i < final(failures)@.len() ==> failure_hidden(#[trigger] final(failures)@[i]),
{
    let mut index: usize = 0;
    while index < failures.len()
        invariant
            index <= failures@.len() == old(failures)@.len(),
            forall|i: int| 0 <= i < index ==> failure_hidden(#[trigger] failures@[i]),
        decreases failures.len() - index,
    {
        failures[index].scope = REDACTED.to_owned();
        failures[index].message = REDACTED.to_owned();
        index = index + 1;
    }
}

fn redact_failures<T>(outcome: &mut QueryOutcome<T>)
    ensures
        failures_hidden(*old(outcome), *final(outcome)),
{
    if let QueryOutcome::Partial { failures, .. } = outcome {
        hide_failures(failures);
    }
}

/// The answer with the texts of failures and the reason of an invalid sign-in
/// hidden, unless they were asked for.
pub open spec fn details_hidden(
    before: ControlResult,
    diagnose: bool,
    after: ControlResult,
) -> bool {
    if diagnose {
        after == before
    } else {
        match before {
            ControlResult::Probe(payload) => after matches ControlResult::Probe(hidden)
                && failures_hidden(payload.usage, hidden.usage) && hidden == (
            crate::protocol::ProbePayload { usage: hidden.usage, ..payload }),
            ControlResult::Snapshots(snapshots) => after matches ControlResult::Snapshots(hidden)
                && hidden@.len() == snapshots@.len() && forall|i: int|
                0 <= i < snapshots@.len() ==> snapshot_details_hidden(
                    snapshots@[i],
                    #[trigger] hidden@[i],
                ),
            ControlResult::AuthState(AuthState::Invalid { account_key, .. }) => after matches
                ControlResult::AuthState(AuthState::Invalid { reason, account_key: same_key })
                && reason@ == REDACTED@ && same_key == account_key,
            _ => after == before,
        }
    }
}

/// The snapshot with the texts of its failures hidden.
pub open spec fn snapshot_details_hidden(before: SnapshotPayload, after: SnapshotPayload) -> bool {
    &&& failures_hidden(before.usage, after.usage)
    &&& after == (SnapshotPayload { usage: after.usage, ..before })
}

fn hide_snapshot_details(snapshots: &mut Vec<SnapshotPayload>)
    ensures
        final(snapshots)@.len() == old(snapshots)@.len(),
        forall|i: int|
            0 <= i < old(snapshots)@.len() ==> snapshot_details_hidden(
                old(snapshots)@[i],
                #[trigger] final(snapshots)@[i],
            ),
{
    let mut index: usize = 0;
    while index < snapshots.len()
        invariant
            index <= snapshots@.len() == old(snapshots)@.len(),
            forall|i: int|
                0 <= i < index ==> snapshot_details_hidden(
                    old(snapshots)@[i],
                    #[trigger] snapshots@[i],
                ),
            forall|i: int|
                index <= i < snapshots@.len() ==> #[trigger] snapshots@[i] == old(snapshots)@[i],
        decreases snapshots.len() - index,
    {
        redact_failures(&mut snapshots[index].usage);
        index = index + 1;
    }
}

/// Hides the texts of failures and the reason of an invalid sign-in, unless
/// they were asked for.
pub fn redact_error_details(result: &mut ControlResult, diagnose: bool)
    ensures
        details_hidden(*old(result), diagnose, *final(result)),
{
    if diagnose {
        return;
    }
    match result {
        ControlResult::Probe(payload) => redact_failures(&mut payload.usage),
        ControlResult::Snapshots(snapshots) => hide_snapshot_details(snapshots),
        ControlResult::AuthState(AuthState::Invalid { reason, .. }) => {
            *reason = REDACTED.to_owned();
        },
        _ => {},
    }
}

/// The text, unless it may not be displayed.
pub open spec fn safe_text(before: String, after: String) -> bool {
    if identity::unsafe_text(before@) {
        after@ == REDACTED@
    } else {
        after == before
    }
}

/// The failure with a text that may not be displayed hidden.
pub open spec fn failure_made_safe(before: PartialFailure, after: PartialFailure) -> bool {
    safe_text(before.scope, after.scope) && safe_text(before.message, after.message)
}

/// The outcome with failure texts that may not be displayed hidden.
pub open spec fn failures_made_safe<T>(before: QueryOutcome<T>, after: QueryOutcome<T>) -> bool {
    match (before, after) {
        (QueryOutcome::Complete { data: left }, QueryOutcome::Complete { data: right }) => left
            == right,
        (
            QueryOutcome::Partial { data: left, failures: shown },
            QueryOutcome::Partial { data: right, failures: safe },
        ) => left == right && safe@.len() == shown@.len() && forall|i: int|
            0 <= i < safe@.len() ==> failure_made_safe(shown@[i], #[trigger] safe@[i]),
        _ => false,
    }
}

fn make_failures_safe(failures: &mut Vec<PartialFailure>)
    ensures
        final(failures)@.len() == old(failures)@.len(),
        forall|i: int|
            0 <= i < final(failures)@.len() ==> failure_made_safe(
                old(failures)@[i],
                #[trigger] final(failures)@[i],
            ),
{
    let mut index: usize = 0;
    while index < failures.len()
        invariant
            index <= failures@.len() == old(failures)@.len(),
            forall|i: int|
                0 <= i < index ==> failure_made_safe(old(failures)@[i], #[trigger] failures@[i]),
            forall|i: int|
                index <= i < failures@.len() ==> #[trigger] failures@[i] == old(failures)@[i],
        decreases failures.len() - index,
    {
        if identity::has_unsafe_character(failures[index].scope.as_str()) {
            failures[index].scope = REDACTED.to_owned();
        }
        if identity::has_unsafe_character(failures[index].message.as_str()) {
            failures[index].message = REDACTED.to_owned();
        }
        index = index + 1;
    }
}

fn redact_unsafe_failure_text<T>(outcome: &mut QueryOutcome<T>)
    ensures
        failures_made_safe(*old(outcome), *final(outcome)),
{
    if let QueryOutcome::Partial { failures, .. } = outcome {
        make_failures_safe(failures);
    }
}

/// The snapshot with failure texts that may not be displayed hidden.
pub open spec fn snapshot_made_safe(before: SnapshotPayload, after: SnapshotPayload) -> bool {
    &&& failures_made_safe(before.usage, after.usage)
    &&& after == (SnapshotPayload { usage: after.usage, ..before })
}

/// The answer with failure texts that may not be displayed hidden.
pub open spec fn controls_removed(before: ControlResult, after: ControlResult) -> bool {
    match before {
        ControlResult::Probe(payload) => after matches ControlResult::Probe(safe)
            && failures_made_safe(payload.usage, safe.usage) && safe == (
        crate::protocol::ProbePayload { usage: safe.usage, ..payload }),
        ControlResult::Snapshots(snapshots) => after matches ControlResult::Snapshots(safe)
            && safe@.len() == snapshots@.len() && forall|i: int|
            0 <= i < snapshots@.len() ==> snapshot_made_safe(snapshots@[i], #[trigger] safe@[i]),
        _ => after == before,
    }
}

fn make_snapshots_safe(snapshots: &mut Vec<SnapshotPayload>)
    ensures
        final(snapshots)@.len() == old(snapshots)@.len(),
        forall|i: int|
            0 <= i < old(snapshots)@.len() ==> snapshot_made_safe(
                old(snapshots)@[i],
                #[trigger] final(snapshots)@[i],
            ),
{
    let mut index: usize = 0;
    while index < snapshots.len()
        invariant
            index <= snapshots@.len() == old(snapshots)@.len(),
            forall|i: int|
                0 <= i < index ==> snapshot_made_safe(old(snapshots)@[i], #[trigger] snapshots@[i]),
            forall|i: int|
                index <= i < snapshots@.len() ==> #[trigger] snapshots@[i] == old(snapshots)@[i],
        decreases snapshots.len() - index,
    {
        redact_unsafe_failure_text(&mut snapshots[index].usage);
        index = index + 1;
    }
}

/// Hides failure texts that may not be displayed, so that they do not make the
/// whole answer untrusted.
pub fn sanitize_partial_failure_controls(result: &mut ControlResult)
    ensures
        controls_removed(*old(result), *final(result)),
{
    match result {
        ControlResult::Probe(payload) => redact_unsafe_failure_text(&mut payload.usage),
        ControlResult::Snapshots(snapshots) => make_snapshots_safe(snapshots),
        _ => {},
    }
}

/// The optional text is absent or hidden.
pub open spec fn kept_back(text: Option<String>) -> bool {
    text matches Some(text) ==> text@ == REDACTED@
}

/// Nothing in the answer is left that only `--reveal` shows.
pub open spec fn reveals_nothing(result: ControlResult) -> bool {
    match result {
        ControlResult::Accounts(accounts) => forall|i: int|
            0 <= i < accounts@.len() ==> kept_back((#[trigger] accounts@[i]).label),
        ControlResult::Account(account) => kept_back(account.label),
        ControlResult::Probe(payload) => kept_back(payload.usage.payload().account_label),
        ControlResult::Snapshots(snapshots) => forall|i: int|
            0 <= i < snapshots@.len() ==> kept_back(
                (#[trigger] snapshots@[i]).usage.payload().account_label,
            ),
        ControlResult::AuthChallenge(challenge) => challenge.flow_id@ == REDACTED@ && kept_back(
            challenge.verification_uri,
        ) && kept_back(challenge.user_code),
        ControlResult::AuthState(AuthState::Authenticated { account_label, .. }) => kept_back(
            account_label,
        ),
        ControlResult::AuthState(AuthState::Pending { flow_id, .. }) => flow_id@ == REDACTED@,
        _ => true,
    }
}

/// No text of a failure is left, nor the reason of an invalid sign-in.
pub open spec fn tells_no_details(result: ControlResult) -> bool {
    match result {
        ControlResult::Probe(payload) => payload.usage matches QueryOutcome::Partial {
            failures,
            ..
        } ==> forall|i: int| 0 <= i < failures@.len() ==> failure_hidden(#[trigger] failures@[i]),
        ControlResult::Snapshots(snapshots) => forall|i: int|
            0 <= i < snapshots@.len() ==> ((#[trigger] snapshots@[i]).usage matches
                QueryOutcome::Partial { failures, .. } ==> forall|j: int|
                0 <= j < failures@.len() ==> failure_hidden(#[trigger] failures@[j])),
        ControlResult::AuthState(AuthState::Invalid { reason, .. }) => reason@ == REDACTED@,
        _ => true,
    }
}

/// What is printed without `--reveal` and without `--diagnose` reveals nothing
/// and tells no details.
pub proof fn redacted_answers_keep_secrets(
    result: ControlResult,
    without_details: ControlResult,
    printed: ControlResult,
)
    requires
        details_hidden(result, false, without_details),
        values_hidden(without_details, printed),
    ensures
        reveals_nothing(printed),
        tells_no_details(printed),
{
    match printed {
        ControlResult::Snapshots(hidden) => {
            let middle = without_details->Snapshots_0;
            assert forall|i: int| 0 <= i < hidden@.len() implies kept_back(
                (#[trigger] hidden@[i]).usage.payload().account_label,
            ) && (hidden@[i].usage matches QueryOutcome::Partial { failures, .. } ==> forall|j: int|
                0 <= j < failures@.len() ==> failure_hidden(#[trigger] failures@[j])) by {
                assert(snapshot_hidden(middle@[i], hidden@[i]));
                assert(snapshot_details_hidden(result->Snapshots_0@[i], middle@[i]));
            }
        },
        ControlResult::Accounts(hidden) => {
            let middle = without_details->Accounts_0;
            assert forall|i: int| 0 <= i < hidden@.len() implies kept_back(
                (#[trigger] hidden@[i]).label,
            ) by {
                assert(account_hidden(middle@[i], hidden@[i]));
            }
        },
        _ => {},
    }
}

/// The code of an answer does not depend on what is hidden in it: failures keep
/// their number, and the outcome its kind.
pub proof fn hiding_keeps_the_kind_of_outcome<T>(before: QueryOutcome<T>, after: QueryOutcome<T>)
    requires
        failures_hidden(before, after) || failures_made_safe(before, after),
    ensures
        after is Partial == before is Partial,
        after.payload() == before.payload(),
        before matches QueryOutcome::Partial { failures, .. } ==> (after matches
            QueryOutcome::Partial { failures: hidden, .. } && hidden@.len() == failures@.len()),
{
}

} // verus!
