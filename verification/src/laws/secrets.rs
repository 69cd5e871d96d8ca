//! What is kept back of texts and answers, and what is not.

use vstd::prelude::*;

use crate::document;
use crate::error::QueryOutcome;
use crate::identity;
use crate::protocol::{AuthState, ControlResult};
use crate::redact;
use crate::text;
use crate::usage::SubscriptionUsage;

verus! {

/// A text with a control character in it is shown as `[redacted]`, any other as it
/// is; a cell shows a dash for none.
pub proof fn cells_show_their_text(value: Seq<char>)
    ensures
        (exists|i: int| 0 <= i < value.len() && text::control(#[trigger] value[i]))
            ==> redact::cell_text(value) == "[redacted]"@,
        (forall|i: int| 0 <= i < value.len() ==> !text::control(#[trigger] value[i]))
            ==> redact::cell_text(value) == value,
        value.len() == 0 ==> document::shown_text(value) == "-"@,
        value.len() > 0 ==> document::shown_text(value) == redact::cell_text(value),
{
}

/// A sensitive text that is not revealed tells nothing but whether it is there:
/// any two that are not empty look the same.
pub proof fn sensitive_texts_look_alike(value: Seq<char>, other: Seq<char>)
    ensures
        value.len() > 0 && other.len() > 0 ==> redact::sensitive_text(value, false)
            == redact::sensitive_text(other, false),
        value.len() > 0 ==> redact::sensitive_text(value, false) == "[redacted]"@,
        value.len() == 0 ==> redact::sensitive_text(value, false) == "-"@,
        redact::sensitive_text(value, true) == redact::cell_text(value),
{
}

proof fn final_bytes_are_letters_and_signs(character: char)
    ensures
        0x40 <= character as u32 <= 0x7e <==> '@' <= character <= '~',
{
}

proof fn sequences_end_at_their_final_byte(parameters: Seq<char>, end: char, rest: Seq<char>)
    requires
        forall|i: int|
            0 <= i < parameters.len() ==> !('@' <= (#[trigger] parameters[i]) <= '~'),
        '@' <= end <= '~',
    ensures
        redact::after_final_byte(parameters + seq![end] + rest) == rest,
    decreases parameters.len(),
{
    let whole = parameters + seq![end] + rest;
    if parameters.len() > 0 {
        let tail = parameters.skip(1);
        assert forall|i: int| 0 <= i < tail.len() implies !('@' <= (#[trigger] tail[i]) <= '~') by {
            assert(tail[i] == parameters[i + 1]);
        }
        sequences_end_at_their_final_byte(tail, end, rest);
        assert(whole.skip(1) =~= tail + seq![end] + rest);
        assert(whole[0] == parameters[0]);
        assert(!('@' <= parameters[0] <= '~'));
        final_bytes_are_letters_and_signs(whole[0]);
        assert(redact::after_final_byte(whole) == redact::after_final_byte(whole.skip(1)));
    } else {
        assert(whole[0] == end);
        assert(whole.skip(1) =~= rest);
    }
}

proof fn strings_end_at_their_terminator(body: Seq<char>, rest: Seq<char>, escaped: bool)
    requires
        forall|i: int|
            0 <= i < body.len() ==> (#[trigger] body[i]) != '\u{7}' && body[i] != '\u{9c}'
                && body[i] != '\\',
    ensures
        redact::after_terminator(body + seq!['\u{7}'] + rest, escaped) == rest,
    decreases body.len(),
{
    let whole = body + seq!['\u{7}'] + rest;
    if body.len() > 0 {
        let tail = body.skip(1);
        assert forall|i: int| 0 <= i < tail.len() implies (#[trigger] tail[i]) != '\u{7}' && tail[i]
            != '\u{9c}' && tail[i] != '\\' by {
            assert(tail[i] == body[i + 1]);
        }
        strings_end_at_their_terminator(tail, rest, body[0] == '\u{1b}');
        assert(whole.skip(1) =~= tail + seq!['\u{7}'] + rest);
        assert(whole[0] == body[0]);
    } else {
        assert(whole[0] == '\u{7}');
        assert(whole.skip(1) =~= rest);
    }
}

/// Terminal sequences go out of a text whole, with what they carry: one with a
/// bracket up to its final letter, and a control string up to the bell that ends
/// it. A printable start stays, and any other obscuring character goes out alone.
pub proof fn terminal_sequences_go_out_whole(
    start: Seq<char>,
    parameters: Seq<char>,
    end: char,
    opener: char,
    body: Seq<char>,
    rest: Seq<char>,
)
    requires
        redact::printable(start),
        forall|i: int|
            0 <= i < parameters.len() ==> !('@' <= (#[trigger] parameters[i]) <= '~'),
        '@' <= end <= '~',
        opener == ']' || opener == 'P' || opener == 'X' || opener == '^' || opener == '_',
        forall|i: int|
            0 <= i < body.len() ==> (#[trigger] body[i]) != '\u{7}' && body[i] != '\u{9c}'
                && body[i] != '\\',
    ensures
        redact::sanitized(start + rest) == start + redact::sanitized(rest),
        redact::sanitized(seq!['\u{1b}', '['] + parameters + seq![end] + rest)
            == redact::sanitized(rest),
        redact::sanitized(seq!['\u{1b}', opener] + body + seq!['\u{7}'] + rest)
            == redact::sanitized(rest),
        forall|hidden: char|
            hidden != '\n' && hidden != '\u{1b}' && #[trigger] identity::unsafe_character(hidden)
                ==> redact::sanitized(seq![hidden] + rest) == redact::sanitized(rest),
{
    printable_starts_stay(start, rest);
    let bracketed = seq!['\u{1b}', '['] + parameters + seq![end] + rest;
    assert(bracketed[0] == '\u{1b}' && bracketed[1] == '[');
    assert(bracketed.skip(2) =~= parameters + seq![end] + rest);
    sequences_end_at_their_final_byte(parameters, end, rest);
    let control = seq!['\u{1b}', opener] + body + seq!['\u{7}'] + rest;
    assert(control[0] == '\u{1b}' && control[1] == opener);
    assert(control.skip(2) =~= body + seq!['\u{7}'] + rest);
    strings_end_at_their_terminator(body, rest, false);
    assert forall|hidden: char|
        hidden != '\n' && hidden != '\u{1b}' && #[trigger] identity::unsafe_character(
            hidden,
        ) implies redact::sanitized(seq![hidden] + rest) == redact::sanitized(rest) by {
        let whole = seq![hidden] + rest;
        assert(whole[0] == hidden);
        assert(whole.skip(1) =~= rest);
    }
}

proof fn printable_starts_stay(start: Seq<char>, rest: Seq<char>)
    requires
        redact::printable(start),
    ensures
        redact::sanitized(start + rest) == start + redact::sanitized(rest),
    decreases start.len(),
{
    let whole = start + rest;
    if start.len() > 0 {
        let tail = start.skip(1);
        assert forall|i: int| 0 <= i < tail.len() implies (#[trigger] tail[i]) == '\n'
            || !identity::unsafe_character(tail[i]) by {
            assert(tail[i] == start[i + 1]);
        }
        printable_starts_stay(tail, rest);
        assert(whole[0] == start[0]);
        assert(whole.skip(1) =~= tail + rest);
        assert(identity::unsafe_character('\u{1b}'));
        assert(whole[0] != '\u{1b}');
        assert(seq![start[0]] + (tail + redact::sanitized(rest)) =~= start + redact::sanitized(
            rest,
        ));
    } else {
        assert(whole =~= rest);
        assert(start + redact::sanitized(rest) =~= redact::sanitized(rest));
    }
}

/// The report without its account's label.
pub open spec fn but_for_the_label(before: SubscriptionUsage, after: SubscriptionUsage) -> bool {
    &&& after.provider == before.provider
    &&& after.plan == before.plan
    &&& after.observed_at == before.observed_at
    &&& after.subscription_expires_at == before.subscription_expires_at
    &&& after.windows == before.windows
    &&& after.account_label is Some == before.account_label is Some
}

/// What is kept back is only what is sensitive: of an account its label, of a report
/// the label in it, of a sign-in the flow, the address and the code. All else an
/// answer tells stays, and so does that there is a label.
pub proof fn only_sensitive_values_are_kept_back(before: ControlResult, after: ControlResult)
    requires
        redact::values_hidden(before, after),
    ensures
        before matches ControlResult::Account(account) ==> (after matches ControlResult::Account(
            hidden,
        ) && hidden.id == account.id && hidden.provider == account.provider && hidden.enabled
            == account.enabled && hidden.metrics == account.metrics && hidden.label is Some
            == account.label is Some && (hidden.label is Some ==> hidden.label->0@
            == "[redacted]"@)),
        before matches ControlResult::Accounts(accounts) ==> (after matches ControlResult::Accounts(
            hidden,
        ) && hidden@.len() == accounts@.len() && forall|i: int|
            0 <= i < accounts@.len() ==> (#[trigger] hidden@[i]).id == accounts@[i].id
                && hidden@[i].provider == accounts@[i].provider && hidden@[i].enabled
                == accounts@[i].enabled && hidden@[i].metrics == accounts@[i].metrics && (
            hidden@[i].label is Some ==> hidden@[i].label->0@ == "[redacted]"@)),
        before matches ControlResult::Probe(payload) ==> (after matches ControlResult::Probe(hidden)
            && hidden.account_id == payload.account_id && hidden.metrics == payload.metrics
            && but_for_the_label(payload.usage.payload(), hidden.usage.payload())
            && hidden.usage.missing() == payload.usage.missing() && (
        hidden.usage.payload().account_label is Some ==> hidden.usage.payload().account_label->0@
            == "[redacted]"@)),
        before matches ControlResult::Snapshots(snapshots) ==> (after matches
            ControlResult::Snapshots(hidden) && hidden@.len() == snapshots@.len() && forall|i: int|
            0 <= i < snapshots@.len() ==> (#[trigger] hidden@[i]).account_id
                == snapshots@[i].account_id && hidden@[i].metrics == snapshots@[i].metrics
                && hidden@[i].stale == snapshots@[i].stale && but_for_the_label(
                snapshots@[i].usage.payload(),
                hidden@[i].usage.payload(),
            ) && (hidden@[i].usage.payload().account_label is Some
                ==> hidden@[i].usage.payload().account_label->0@ == "[redacted]"@)),
        before matches ControlResult::AuthChallenge(challenge) ==> (after matches
            ControlResult::AuthChallenge(hidden) && hidden.method == challenge.method
            && hidden.expires_at == challenge.expires_at && hidden.input == challenge.input
            && hidden.flow_id@ == "[redacted]"@ && (hidden.user_code is Some
            ==> hidden.user_code->0@ == "[redacted]"@) && (hidden.verification_uri is Some
            ==> hidden.verification_uri->0@ == "[redacted]"@)),
        before matches ControlResult::AuthState(state) ==> (after matches ControlResult::AuthState(
            hidden,
        ) && match state {
            AuthState::NotAuthenticated => hidden is NotAuthenticated,
            AuthState::Invalid { .. } => hidden == state,
            AuthState::Pending { .. } => hidden is Pending && hidden->Pending_flow_id@
                == "[redacted]"@ && hidden->Pending_expires_at == state->Pending_expires_at,
            AuthState::Authenticated { .. } => hidden is Authenticated
                && hidden->Authenticated_expires_at == state->Authenticated_expires_at && (
            hidden->account_label is Some ==> hidden->account_label->0@ == "[redacted]"@),
        }),
        before is DaemonStatus || before is PairCode || before is Devices || before is Providers
            || before is Workspaces || before is Workspace || before is Usage || before is Ack
            || before is Error || before is ProtocolMismatch ==> after == before,
{
}

/// Details of what failed are kept back unless they were asked for, and then
/// nothing is: without them each failure and each reason reads `[redacted]`, and
/// all else stays.
pub proof fn details_are_told_on_request(
    before: ControlResult,
    diagnose: bool,
    after: ControlResult,
)
    requires
        redact::details_hidden(before, diagnose, after),
    ensures
        diagnose ==> after == before,
        !diagnose ==> (before matches ControlResult::Probe(payload) ==> (after matches
            ControlResult::Probe(hidden) && hidden.account_id == payload.account_id
            && hidden.usage.payload() == payload.usage.payload() && hidden.usage is Partial
            == payload.usage is Partial && (hidden.usage matches QueryOutcome::Partial {
            failures,
            ..
        } ==> forall|i: int|
            0 <= i < failures@.len() ==> (#[trigger] failures@[i]).scope@ == "[redacted]"@
                && failures@[i].message@ == "[redacted]"@))),
        !diagnose ==> (before matches ControlResult::Snapshots(snapshots) ==> (after matches
            ControlResult::Snapshots(hidden) && hidden@.len() == snapshots@.len() && forall|i: int|
            #![trigger hidden@[i]]
            0 <= i < snapshots@.len() ==> hidden@[i].account_id == snapshots@[i].account_id
                && hidden@[i].usage.payload() == snapshots@[i].usage.payload() && (
            hidden@[i].usage matches QueryOutcome::Partial { failures, .. } ==> forall|j: int|
                0 <= j < failures@.len() ==> (#[trigger] failures@[j]).scope@ == "[redacted]"@
                    && failures@[j].message@ == "[redacted]"@))),
        !diagnose ==> (before matches ControlResult::AuthState(AuthState::Invalid {
            account_key,
            ..
        }) ==> (after matches ControlResult::AuthState(AuthState::Invalid {
            reason,
            account_key: same,
        }) && reason@ == "[redacted]"@ && same == account_key)),
        !(before is Probe) && !(before is Snapshots) && !(before is AuthState) ==> after == before,
{
}

/// What the provider says of a failure is made safe before an answer is looked at:
/// an obscured text becomes `[redacted]`, and every other stays as it is.
pub proof fn failures_are_made_safe(before: ControlResult, after: ControlResult)
    requires
        redact::controls_removed(before, after),
    ensures
        !(before is Probe) && !(before is Snapshots) ==> after == before,
        before matches ControlResult::Probe(payload) ==> (after matches ControlResult::Probe(safe)
            && safe.usage.payload() == payload.usage.payload() && safe.account_id
            == payload.account_id && safe.metrics == payload.metrics && (payload.usage matches
            QueryOutcome::Partial { failures, .. } ==> (safe.usage matches QueryOutcome::Partial {
            failures: changed,
            ..
        } && changed@.len() == failures@.len() && forall|i: int|
            #![trigger changed@[i]]
            0 <= i < changed@.len() ==> changed@[i].message@ == (if identity::unsafe_text(
                failures@[i].message@,
            ) {
                "[redacted]"@
            } else {
                failures@[i].message@
            }) && changed@[i].scope@ == (if identity::unsafe_text(failures@[i].scope@) {
                "[redacted]"@
            } else {
                failures@[i].scope@
            })))),
        before matches ControlResult::Snapshots(snapshots) ==> (after matches
            ControlResult::Snapshots(safe) && safe@.len() == snapshots@.len() && forall|i: int|
            #![trigger safe@[i]]
            0 <= i < safe@.len() ==> safe@[i].account_id == snapshots@[i].account_id
                && safe@[i].usage.payload() == snapshots@[i].usage.payload() && safe@[i].stale
                == snapshots@[i].stale && safe@[i].metrics == snapshots@[i].metrics && (
            snapshots@[i].usage matches QueryOutcome::Partial { failures, .. } ==> (
            safe@[i].usage matches QueryOutcome::Partial { failures: changed, .. }
                && changed@.len() == failures@.len() && forall|j: int|
                #![trigger changed@[j]]
                0 <= j < changed@.len() ==> changed@[j].message@ == (if identity::unsafe_text(
                    failures@[j].message@,
                ) {
                    "[redacted]"@
                } else {
                    failures@[j].message@
                }) && changed@[j].scope@ == (if identity::unsafe_text(failures@[j].scope@) {
                    "[redacted]"@
                } else {
                    failures@[j].scope@
                })))),
{
}

} // verus!
