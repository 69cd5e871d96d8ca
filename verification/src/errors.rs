//! Exit codes, error envelopes and hints.

use vstd::prelude::*;
use vstd::string::StringExecFns;

use crate::cli::OutputFormat;
use crate::error::ProviderError;
use crate::protocol::{AccountError, AuthState, ControlError, ControlResult, SnapshotPayload};
use crate::provider::RegistryError;
use crate::redact;
use crate::text;

verus! {

/// What the process reports when it ends.
#[derive(Clone, Copy, Debug, PartialEq, Eq, Structural)]
pub enum ExitCode {
    Success,
    Failure,
    Partial,
    AuthenticationInvalid,
    NetworkFailure,
    DaemonUnavailable,
    ProtocolError,
    Usage,
}

impl ExitCode {
    /// The number the process ends with.
    pub open spec fn number(self) -> i32 {
        match self {
            ExitCode::Success => 0,
            ExitCode::Failure => 1,
            ExitCode::Partial => 2,
            ExitCode::AuthenticationInvalid => 3,
            ExitCode::NetworkFailure => 4,
            ExitCode::DaemonUnavailable => 5,
            ExitCode::ProtocolError => 6,
            ExitCode::Usage => 64,
        }
    }

    /// The number the process ends with.
    pub fn value(&self) -> (result: i32)
        ensures
            result == self.number(),
    {
        match self {
            ExitCode::Success => 0,
            ExitCode::Failure => 1,
            ExitCode::Partial => 2,
            ExitCode::AuthenticationInvalid => 3,
            ExitCode::NetworkFailure => 4,
            ExitCode::DaemonUnavailable => 5,
            ExitCode::ProtocolError => 6,
            ExitCode::Usage => 64,
        }
    }
}

/// No two exit codes share a number.
pub proof fn exit_numbers_differ(left: ExitCode, right: ExitCode)
    ensures
        left.number() == right.number() ==> left == right,
{
}

/// What a finished command leaves behind.
#[derive(Debug, PartialEq, Eq)]
pub struct RunOutput {
    pub stdout: String,
    pub stderr: String,
    pub code: ExitCode,
}

/// The output has those texts and that code.
pub open spec fn output_is(
    output: RunOutput,
    stdout: Seq<char>,
    stderr: Seq<char>,
    code: ExitCode,
) -> bool {
    output.stdout@ == stdout && output.stderr@ == stderr && output.code == code
}

/// Why the daemon could not be asked.
#[derive(Debug)]
pub enum ClientError {
    DaemonUnavailable,
    InvalidResponse,
    /// The configured endpoint is malformed: a relative or otherwise unusable
    /// `ULLAGE_CONTROL_SOCKET` value, reported under its own kind instead of a
    /// protocol failure. (Windows treats a rejected `ULLAGE_CONTROL_PIPE` as
    /// no endpoint and reports `DaemonUnavailable`.)
    InvalidEndpoint,
    DaemonProcess,
    /// Daemon startup or shutdown failed; carries the captured stderr tail or
    /// the reason no tail could be collected.
    DaemonProcessOutput(String),
    /// A daemon still answers on the control endpoint after the service stop.
    DaemonStillRunning,
}

impl ClientError {
    /// The failure's description.
    pub open spec fn described(self) -> Seq<char> {
        match self {
            ClientError::DaemonUnavailable => "daemon unavailable"@,
            ClientError::InvalidResponse => "daemon response was invalid"@,
            ClientError::InvalidEndpoint => "control endpoint is invalid"@,
            ClientError::DaemonProcess => "daemon process failed"@,
            ClientError::DaemonProcessOutput(detail) => "daemon process failed: "@ + detail@,
            ClientError::DaemonStillRunning => "daemon is still running"@,
        }
    }

    /// What a person reads about the failure.
    pub fn message(&self) -> (result: String)
        ensures
            result@ == self.described(),
    {
        match self {
            ClientError::DaemonUnavailable => "daemon unavailable".to_owned(),
            ClientError::InvalidResponse => "daemon response was invalid".to_owned(),
            ClientError::InvalidEndpoint => "control endpoint is invalid".to_owned(),
            ClientError::DaemonProcess => "daemon process failed".to_owned(),
            ClientError::DaemonProcessOutput(detail) => text::join2(
                "daemon process failed: ",
                detail.as_str(),
            ),
            ClientError::DaemonStillRunning => "daemon is still running".to_owned(),
        }
    }
}

/// What to do with the background service.
#[derive(Clone, Copy, Debug, PartialEq, Eq, Structural)]
pub enum ServiceAction {
    Install,
    Start,
    Stop,
    Uninstall,
}

/// One of the snapshots is partial.
pub open spec fn any_partial(snapshots: Seq<SnapshotPayload>) -> bool {
    exists|i: int| 0 <= i < snapshots.len() && (#[trigger] snapshots[i]).usage is Partial
}

/// Whether one of the snapshots is partial.
pub fn some_partial(snapshots: &Vec<SnapshotPayload>) -> (result: bool)
    ensures
        result == any_partial(snapshots@),
{
    let mut index: usize = 0;
    while index < snapshots.len()
        invariant
            index <= snapshots@.len(),
            forall|i: int| 0 <= i < index ==> !((#[trigger] snapshots@[i]).usage is Partial),
        decreases snapshots.len() - index,
    {
        if snapshots[index].usage.is_partial() {
            assert(snapshots@[index as int].usage is Partial);
            return true;
        }
        index = index + 1;
    }
    false
}

/// The code an answer ends the process with.
pub open spec fn code_of(result: ControlResult) -> ExitCode {
    match result {
        ControlResult::Probe(payload) => if payload.usage is Partial {
            ExitCode::Partial
        } else {
            ExitCode::Success
        },
        ControlResult::Snapshots(snapshots) => if any_partial(snapshots@) {
            ExitCode::Partial
        } else {
            ExitCode::Success
        },
        ControlResult::AuthState(AuthState::Invalid { .. }) => ExitCode::AuthenticationInvalid,
        ControlResult::Error(error) => match error {
            ControlError::Provider(ProviderError::AuthenticationInvalid { .. }) =>
                ExitCode::AuthenticationInvalid,
            ControlError::Provider(ProviderError::Network { .. }) => ExitCode::NetworkFailure,
            ControlError::InvalidAccountMetrics => ExitCode::Usage,
            _ => ExitCode::Failure,
        },
        ControlResult::ProtocolMismatch { .. } => ExitCode::ProtocolError,
        _ => ExitCode::Success,
    }
}

/// The code an answer ends the process with.
pub fn result_exit_code(result: &ControlResult) -> (code: ExitCode)
    ensures
        code == code_of(*result),
{
    match result {
        ControlResult::Probe(payload) => if payload.usage.is_partial() {
            ExitCode::Partial
        } else {
            ExitCode::Success
        },
        ControlResult::Snapshots(snapshots) => if some_partial(snapshots) {
            ExitCode::Partial
        } else {
            ExitCode::Success
        },
        ControlResult::AuthState(AuthState::Invalid { .. }) => ExitCode::AuthenticationInvalid,
        ControlResult::Error(error) => match error {
            ControlError::Provider(ProviderError::AuthenticationInvalid { .. }) =>
                ExitCode::AuthenticationInvalid,
            ControlError::Provider(ProviderError::Network { .. }) => ExitCode::NetworkFailure,
            ControlError::InvalidAccountMetrics => ExitCode::Usage,
            _ => ExitCode::Failure,
        },
        ControlResult::ProtocolMismatch { .. } => ExitCode::ProtocolError,
        _ => ExitCode::Success,
    }
}

/// The stable name of a refusal.
pub open spec fn kind_of(error: ControlError) -> Seq<char> {
    match error {
        ControlError::Account(AccountError::NotFound(_)) => "account_not_found"@,
        ControlError::Account(AccountError::Duplicate(_)) => "account_duplicate"@,
        ControlError::Provider(ProviderError::AuthenticationInvalid { .. }) =>
            "authentication_invalid"@,
        ControlError::Provider(ProviderError::RateLimited { .. }) => "rate_limited"@,
        ControlError::Provider(ProviderError::Network { .. }) => "network_failure"@,
        ControlError::Provider(ProviderError::ProtocolIncompatible { .. }) =>
            "provider_protocol_incompatible"@,
        ControlError::Provider(ProviderError::UnsupportedCapability { .. }) =>
            "unsupported_capability"@,
        ControlError::Registry(_) => "provider_registry_error"@,
        ControlError::AccountNotFound { .. } => "account_not_found"@,
        ControlError::AccountSelectorNotFound { .. } => "account_selector_not_found"@,
        ControlError::DeviceNotFound { .. } => "device_not_found"@,
        ControlError::Timeout => "timeout"@,
        ControlError::Cancelled => "cancelled"@,
        ControlError::Storage => "storage"@,
        ControlError::InvalidAccountMetrics => "invalid_account_metrics"@,
        ControlError::InvalidRequest => "invalid_request"@,
        ControlError::UnsupportedCommand => "unsupported_command"@,
    }
}

/// The stable name of a refusal.
pub fn control_error_kind(error: &ControlError) -> (result: &'static str)
    ensures
        result@ == kind_of(*error),
{
    match error {
        ControlError::Account(AccountError::NotFound(_)) => "account_not_found",
        ControlError::Account(AccountError::Duplicate(_)) => "account_duplicate",
        ControlError::Provider(ProviderError::AuthenticationInvalid { .. }) =>
            "authentication_invalid",
        ControlError::Provider(ProviderError::RateLimited { .. }) => "rate_limited",
        ControlError::Provider(ProviderError::Network { .. }) => "network_failure",
        ControlError::Provider(ProviderError::ProtocolIncompatible { .. }) =>
            "provider_protocol_incompatible",
        ControlError::Provider(ProviderError::UnsupportedCapability { .. }) =>
            "unsupported_capability",
        ControlError::Registry(_) => "provider_registry_error",
        ControlError::AccountNotFound { .. } => "account_not_found",
        ControlError::AccountSelectorNotFound { .. } => "account_selector_not_found",
        ControlError::DeviceNotFound { .. } => "device_not_found",
        ControlError::Timeout => "timeout",
        ControlError::Cancelled => "cancelled",
        ControlError::Storage => "storage",
        ControlError::InvalidAccountMetrics => "invalid_account_metrics",
        ControlError::InvalidRequest => "invalid_request",
        ControlError::UnsupportedCommand => "unsupported_command",
    }
}

/// How to start a daemon that does not answer.
pub const DAEMON_HINT: &'static str =
    "start the daemon with `ullage daemon install` then `ullage daemon start`, or run `ullage daemon run` in another terminal";

/// Which provider ids there are.
pub const PROVIDER_HINT: &'static str =
    "pass a compiled-in provider id such as chatgpt, grok, cursor, opencode, devin, codex2api, or sub2api; run `ullage provider list` to see ids";

/// How an account is named.
pub const ACCOUNT_HINT: &'static str =
    "pass a stable account id from `ullage account list`, not a label or display name";

/// How metrics are named.
pub const METRICS_HINT: &'static str =
    "pass display metric names such as `usage` or `Codex`; repeat the flag or argument to name several metrics";

/// What the control endpoint has to be.
pub const ENDPOINT_HINT: &'static str =
    "set ULLAGE_CONTROL_SOCKET (or ULLAGE_CONTROL_PIPE on Windows) to an absolute path for a private socket owned by the current user, or unset it";

/// Why a service cannot be managed while a daemon of its own runs.
pub const STILL_RUNNING_HINT: &'static str =
    "a daemon still answers on the control endpoint; stop it where it was started (`ullage daemon run` terminal or service manager)";

/// What to try about a failure of that kind.
pub open spec fn hint_for(kind: Seq<char>) -> Option<Seq<char>> {
    if kind == "daemon_unavailable"@ {
        Some(DAEMON_HINT@)
    } else if kind == "provider_registry_error"@ {
        Some(PROVIDER_HINT@)
    } else if kind == "account_not_found"@ || kind == "account_selector_not_found"@ {
        Some(ACCOUNT_HINT@)
    } else if kind == "invalid_account_metrics"@ {
        Some(METRICS_HINT@)
    } else if kind == "invalid_control_socket"@ {
        Some(ENDPOINT_HINT@)
    } else {
        None
    }
}

/// What to try about a failure of that kind.
pub fn error_hint(kind: &str) -> (result: Option<&'static str>)
    ensures
        crate::validate::label_view(result) == hint_for(kind@),
{
    if text::same_text(kind, "daemon_unavailable") {
        Some(DAEMON_HINT)
    } else if text::same_text(kind, "provider_registry_error") {
        Some(PROVIDER_HINT)
    } else if text::same_text(kind, "account_not_found") || text::same_text(
        kind,
        "account_selector_not_found",
    ) {
        Some(ACCOUNT_HINT)
    } else if text::same_text(kind, "invalid_account_metrics") {
        Some(METRICS_HINT)
    } else if text::same_text(kind, "invalid_control_socket") {
        Some(ENDPOINT_HINT)
    } else {
        None
    }
}

/// What to try about a refusal.
pub open spec fn hint_for_refusal(error: ControlError) -> Option<Seq<char>> {
    match error {
        ControlError::Registry(RegistryError::NotFound(_)) => Some(PROVIDER_HINT@),
        ControlError::Registry(RegistryError::InstanceUnavailable(_)) => None,
        _ => hint_for(kind_of(error)),
    }
}

/// What to try about a refusal.
pub fn error_hint_for_control(error: &ControlError) -> (result: Option<&'static str>)
    ensures
        crate::validate::label_view(result) == hint_for_refusal(*error),
{
    match error {
        ControlError::Registry(RegistryError::NotFound(_)) => Some(PROVIDER_HINT),
        ControlError::Registry(RegistryError::InstanceUnavailable(_)) => None,
        _ => error_hint(control_error_kind(error)),
    }
}

/// A hexadecimal digit in lower case.
pub open spec fn hex_digit(value: int) -> char {
    if value < 10 {
        ('0' as u32 + value) as char
    } else {
        ('a' as u32 + value - 10) as char
    }
}

/// How a character stands in a JSON string: quotes, backslashes and the
/// characters below the space are escaped, and all others stand for themselves.
pub open spec fn json_character(character: char) -> Seq<char> {
    if character == '"' {
        seq!['\\', '"']
    } else if character == '\\' {
        seq!['\\', '\\']
    } else if character == '\u{8}' {
        seq!['\\', 'b']
    } else if character == '\u{c}' {
        seq!['\\', 'f']
    } else if character == '\n' {
        seq!['\\', 'n']
    } else if character == '\r' {
        seq!['\\', 'r']
    } else if character == '\t' {
        seq!['\\', 't']
    } else if ' ' > character {
        let code = character as int;
        seq!['\\', 'u', '0', '0', hex_digit(code / 16), hex_digit(code % 16)]
    } else {
        seq![character]
    }
}

/// A text between the quotes of a JSON string.
pub open spec fn json_contents(text: Seq<char>) -> Seq<char>
    decreases text.len(),
{
    if text.len() == 0 {
        Seq::empty()
    } else {
        json_contents(text.drop_last()) + json_character(text.last())
    }
}

/// A text as a JSON string.
pub open spec fn json_text(text: Seq<char>) -> Seq<char> {
    seq!['"'] + json_contents(text) + seq!['"']
}

/// Calls `serde_json::to_string` on a string. Claims that it writes the text as
/// a JSON string, with the short escapes where there are any and four
/// hexadecimal digits for the other characters below the space.
#[verifier::external_body]
fn json_string(text: &str) -> (result: String)
    ensures
        result@ == json_text(text@),
{
    serde_json::to_string(text).unwrap_or_default()
}

/// The text with a line break at its end.
pub open spec fn line_ended(text: Seq<char>) -> Seq<char> {
    if text.len() > 0 && text.last() == '\n' {
        text
    } else {
        text.push('\n')
    }
}

fn end_line(text: String) -> (result: String)
    ensures
        result@ == line_ended(text@),
{
    let all: Vec<char> = text::characters(text.as_str());
    let mut text = text;
    if all.len() == 0 || all[all.len() - 1] != '\n' {
        text.push('\n');
    }
    text
}

/// An error as a table shows it: a line for the kind, then the message and the
/// hint, each ended by a line break.
pub open spec fn error_lines(
    kind: Seq<char>,
    message: Option<Seq<char>>,
    hint: Option<Seq<char>>,
) -> Seq<char> {
    let heading = "error: "@ + kind + "\n"@;
    let told = match message {
        Some(message) => line_ended(heading + message),
        None => heading,
    };
    match hint {
        Some(hint) => line_ended(told + "hint: "@ + hint),
        None => told,
    }
}

/// An error as a JSON envelope on one line.
pub open spec fn error_json(
    kind: Seq<char>,
    message: Option<Seq<char>>,
    hint: Option<Seq<char>>,
) -> Seq<char> {
    let head = "{\"status\":\"error\",\"error\":{\"kind\":"@ + json_text(kind);
    let told = match message {
        Some(message) => head + ",\"message\":"@ + json_text(message),
        None => head,
    };
    let hinted = match hint {
        Some(hint) => told + ",\"hint\":"@ + json_text(hint),
        None => told,
    };
    hinted + "}}\n"@
}

/// An error as an indented JSON envelope.
pub open spec fn error_pretty_json(
    kind: Seq<char>,
    message: Option<Seq<char>>,
    hint: Option<Seq<char>>,
) -> Seq<char> {
    let head = "{\n  \"status\": \"error\",\n  \"error\": {\n    \"kind\": "@ + json_text(kind);
    let told = match message {
        Some(message) => head + ",\n    \"message\": "@ + json_text(message),
        None => head,
    };
    let hinted = match hint {
        Some(hint) => told + ",\n    \"hint\": "@ + json_text(hint),
        None => told,
    };
    hinted + "\n  }\n}\n"@
}

/// What is printed about an error in that format.
pub open spec fn error_text(
    kind: Seq<char>,
    format: OutputFormat,
    message: Option<Seq<char>>,
    hint: Option<Seq<char>>,
) -> Seq<char> {
    match format {
        OutputFormat::Table => error_lines(kind, message, hint),
        OutputFormat::Json => error_json(kind, message, hint),
        OutputFormat::PrettyJson => error_pretty_json(kind, message, hint),
    }
}

/// The text of an optional string slice.
pub open spec fn slice_view(text: Option<&str>) -> Option<Seq<char>> {
    match text {
        Some(text) => Some(text@),
        None => None,
    }
}

fn add_member(target: &mut String, label: &str, value: Option<&str>)
    ensures
        final(target)@ == match value {
            Some(value) => old(target)@ + label@ + json_text(value@),
            None => old(target)@,
        },
{
    if let Some(value) = value {
        target.append(label);
        target.append(json_string(value).as_str());
    }
}

/// The output of a command that failed.
pub fn error_output_with_options(
    code: ExitCode,
    kind: &str,
    format: OutputFormat,
    message: Option<&str>,
    hint: Option<&str>,
) -> (result: RunOutput)
    ensures
        output_is(
            result,
            Seq::empty(),
            error_text(kind@, format, slice_view(message), slice_view(hint)),
            code,
        ),
{
    let stderr = match format {
        OutputFormat::Table => {
            let mut stderr = text::join3("error: ", kind, "\n");
            if let Some(message) = message {
                stderr.append(message);
                stderr = end_line(stderr);
            }
            if let Some(hint) = hint {
                stderr.append("hint: ");
                stderr.append(hint);
                stderr = end_line(stderr);
            }
            stderr
        },
        OutputFormat::Json => {
            let mut stderr = text::join2(
                "{\"status\":\"error\",\"error\":{\"kind\":",
                json_string(kind).as_str(),
            );
            add_member(&mut stderr, ",\"message\":", message);
            add_member(&mut stderr, ",\"hint\":", hint);
            stderr.append("}}\n");
            stderr
        },
        OutputFormat::PrettyJson => {
            let mut stderr = text::join2(
                "{\n  \"status\": \"error\",\n  \"error\": {\n    \"kind\": ",
                json_string(kind).as_str(),
            );
            add_member(&mut stderr, ",\n    \"message\": ", message);
            add_member(&mut stderr, ",\n    \"hint\": ", hint);
            stderr.append("\n  }\n}\n");
            stderr
        },
    };
    RunOutput { stdout: String::new(), stderr, code }
}

/// The output of a command that failed, with the hint for failures of that kind.
pub fn error_output(code: ExitCode, kind: &str, format: OutputFormat) -> (result: RunOutput)
    ensures
        output_is(result, Seq::empty(), error_text(kind@, format, None, hint_for(kind@)), code),
{
    error_output_with_options(code, kind, format, None, error_hint(kind))
}

/// No character of the text is below the space, so that it is on one line.
pub open spec fn on_one_line(text: Seq<char>) -> bool {
    forall|i: int| 0 <= i < text.len() ==> #[trigger] text[i] >= ' '
}

proof fn one_line_texts_join(first: Seq<char>, second: Seq<char>)
    requires
        on_one_line(first),
        on_one_line(second),
    ensures
        on_one_line(first + second),
{
    let whole = first + second;
    assert forall|i: int| 0 <= i < whole.len() implies #[trigger] whole[i] >= ' ' by {
        if i < first.len() {
            assert(whole[i] == first[i]);
        } else {
            assert(whole[i] == second[i - first.len()]);
        }
    }
}

proof fn json_characters_are_on_one_line(character: char)
    ensures
        on_one_line(json_character(character)),
{
    if ' ' > character {
        let code = character as int;
        assert(0 <= code < 32);
        assert(code / 16 < 2 && 0 <= code % 16 < 16);
    }
}

/// A JSON string is on one line, whatever the text is.
pub proof fn json_strings_are_on_one_line(text: Seq<char>)
    ensures
        on_one_line(json_contents(text)),
        on_one_line(json_text(text)),
    decreases text.len(),
{
    if text.len() > 0 {
        json_strings_are_on_one_line(text.drop_last());
        json_characters_are_on_one_line(text.last());
        one_line_texts_join(json_contents(text.drop_last()), json_character(text.last()));
    }
    one_line_texts_join(seq!['"'], json_contents(text));
    one_line_texts_join(seq!['"'] + json_contents(text), seq!['"']);
}

/// The compact envelope of an error is one line: whatever its texts hold, no
/// other line break and no terminal control below the space is in it.
pub proof fn envelopes_are_one_line(
    kind: Seq<char>,
    message: Option<Seq<char>>,
    hint: Option<Seq<char>>,
)
    ensures
        error_json(kind, message, hint).len() > 0,
        error_json(kind, message, hint).last() == '\n',
        on_one_line(error_json(kind, message, hint).drop_last()),
{
    reveal_strlit("{\"status\":\"error\",\"error\":{\"kind\":");
    reveal_strlit(",\"message\":");
    reveal_strlit(",\"hint\":");
    reveal_strlit("}}\n");
    let start = "{\"status\":\"error\",\"error\":{\"kind\":"@;
    json_strings_are_on_one_line(kind);
    one_line_texts_join(start, json_text(kind));
    let head = start + json_text(kind);
    let told = match message {
        Some(message) => {
            json_strings_are_on_one_line(message);
            one_line_texts_join(head, ",\"message\":"@);
            one_line_texts_join(head + ",\"message\":"@, json_text(message));
            head + ",\"message\":"@ + json_text(message)
        },
        None => head,
    };
    let hinted = match hint {
        Some(hint) => {
            json_strings_are_on_one_line(hint);
            one_line_texts_join(told, ",\"hint\":"@);
            one_line_texts_join(told + ",\"hint\":"@, json_text(hint));
            told + ",\"hint\":"@ + json_text(hint)
        },
        None => told,
    };
    one_line_texts_join(hinted, seq!['}', '}']);
    assert(error_json(kind, message, hint).drop_last() =~= hinted + seq!['}', '}']);
}

/// The output of a command that prints a text and succeeds.
pub fn success_text(text: &str) -> (result: RunOutput)
    ensures
        output_is(result, text@, Seq::empty(), ExitCode::Success),
{
    RunOutput { stdout: text.to_owned(), stderr: String::new(), code: ExitCode::Success }
}

/// The output for arguments that could not be read.
pub open spec fn parse_error_is(
    message: &str,
    format: OutputFormat,
    result: RunOutput,
) -> bool {
    output_is(
        result,
        Seq::empty(),
        if format == OutputFormat::Table {
            line_ended(redact::sanitized(message@))
        } else {
            error_text("usage"@, format, Some(redact::sanitized(message@)), None)
        },
        ExitCode::Usage,
    )
}

/// The output for a command line that does not parse: the parser's message,
/// sanitized.
pub fn parse_error_output(message: &str, format: OutputFormat) -> (result: RunOutput)
    ensures
        parse_error_is(message, format, result),
{
    let message = redact::sanitize_cli_text(message);
    match format {
        OutputFormat::Table => RunOutput {
            stdout: String::new(),
            stderr: end_line(message),
            code: ExitCode::Usage,
        },
        OutputFormat::Json | OutputFormat::PrettyJson => error_output_with_options(
            ExitCode::Usage,
            "usage",
            format,
            Some(message.as_str()),
            None,
        ),
    }
}

/// What is said about a parameter that holds control characters.
pub open spec fn reject_hint(parameter: Seq<char>) -> Seq<char> {
    if parameter == "authorization_code_env"@ {
        "the environment variable referenced by --authorization-code-env contains disallowed control characters"@
    } else if crate::cli::value_option(parameter) {
        "the "@ + parameter + " argument contains disallowed control characters"@
    } else {
        "a command argument contains disallowed control characters"@
    }
}

/// What is said about a parameter that holds control characters.
pub fn unsafe_control_reject_hint(parameter: &str) -> (result: String)
    ensures
        result@ == reject_hint(parameter@),
{
    if text::same_text(parameter, "authorization_code_env") {
        "the environment variable referenced by --authorization-code-env contains disallowed control characters".to_owned()
    } else if crate::cli::known_value_flag_label(parameter).is_some() {
        text::join3("the ", parameter, " argument contains disallowed control characters")
    } else {
        "a command argument contains disallowed control characters".to_owned()
    }
}

/// The output for an obscured argument.
pub open spec fn unsafe_control_is(
    format: OutputFormat,
    parameter: &str,
    result: RunOutput,
) -> bool {
    output_is(
        result,
        Seq::empty(),
        error_text("usage"@, format, None, Some(reject_hint(parameter@))),
        ExitCode::Usage,
    )
}

/// The output for a parameter that holds control characters.
pub fn unsafe_control_error_output(format: OutputFormat, parameter: &str) -> (result: RunOutput)
    ensures
        unsafe_control_is(format, parameter, result),
{
    let hint = unsafe_control_reject_hint(parameter);
    error_output_with_options(ExitCode::Usage, "usage", format, None, Some(hint.as_str()))
}

/// The compact JSON envelope of an error with the detail in it, as `serde_json`
/// writes objects: the members stand in the order of their names.
pub open spec fn detailed_json(
    kind: Seq<char>,
    message: Option<Seq<char>>,
    hint: Option<Seq<char>>,
    detail: Seq<char>,
) -> Seq<char> {
    let head = "{\"error\":{\"detail\":"@ + json_text(detail);
    let hinted = match hint {
        Some(hint) => head + ",\"hint\":"@ + json_text(hint),
        None => head,
    };
    let named = hinted + ",\"kind\":"@ + json_text(kind);
    let told = match message {
        Some(message) => named + ",\"message\":"@ + json_text(message),
        None => named,
    };
    told + "},\"status\":\"error\"}"@
}

/// The indented JSON envelope of an error with the detail in it.
pub open spec fn detailed_pretty_json(
    kind: Seq<char>,
    message: Option<Seq<char>>,
    hint: Option<Seq<char>>,
    detail: Seq<char>,
) -> Seq<char> {
    let head = "{\n  \"error\": {\n    \"detail\": "@ + json_text(detail);
    let hinted = match hint {
        Some(hint) => head + ",\n    \"hint\": "@ + json_text(hint),
        None => head,
    };
    let named = hinted + ",\n    \"kind\": "@ + json_text(kind);
    let told = match message {
        Some(message) => named + ",\n    \"message\": "@ + json_text(message),
        None => named,
    };
    told + "\n  },\n  \"status\": \"error\"\n}"@
}

/// Where the document is the compact envelope of an error, the encoded one is
/// that envelope with the detail in it.
pub open spec fn detail_is_put(
    document: Seq<char>,
    detail: Seq<char>,
    encoded: Option<Seq<char>>,
) -> bool {
    forall|kind: Seq<char>, message: Option<Seq<char>>, hint: Option<Seq<char>>|
        document == #[trigger] error_json(kind, message, hint) ==> encoded == Some(
            detailed_json(kind, message, hint, detail),
        )
}

/// Where the document is the indented envelope of an error, the encoded one is
/// that envelope with the detail in it.
pub open spec fn detail_is_put_pretty(
    document: Seq<char>,
    detail: Seq<char>,
    encoded: Option<Seq<char>>,
) -> bool {
    forall|kind: Seq<char>, message: Option<Seq<char>>, hint: Option<Seq<char>>|
        document == #[trigger] error_pretty_json(kind, message, hint) ==> encoded == Some(
            detailed_pretty_json(kind, message, hint, detail),
        )
}

/// What is printed about an error together with the provider's error text.
pub open spec fn detailed_error(
    kind: Seq<char>,
    format: OutputFormat,
    message: Option<Seq<char>>,
    hint: Option<Seq<char>>,
    detail: Seq<char>,
) -> Seq<char> {
    match format {
        OutputFormat::Table => error_lines(kind, message, hint) + "detail: "@ + detail + "\n"@,
        OutputFormat::Json => detailed_json(kind, message, hint, detail) + "\n"@,
        OutputFormat::PrettyJson => detailed_pretty_json(kind, message, hint, detail) + "\n"@,
    }
}

/// What `serde_json` writes on one line for a document that it read, after the
/// text was put into the named member of the named object. `None` where it
/// cannot read the document.
pub uninterp spec fn document_with_member(
    document: Seq<char>,
    object: Seq<char>,
    member: Seq<char>,
    text: Seq<char>,
) -> Option<Seq<char>>;

/// Calls `serde_json::from_str`, `serde_json::Map::insert` on the named object,
/// where the document is an object with such a member, and
/// `serde_json::to_string`. Claims that the result depends on the four texts
/// alone, that an empty text is no document, and that the envelope of an error
/// gets the detail as a member, with the members in the order of their names.
#[verifier::external_body]
fn insert_member(document: &str, object: &str, member: &str, text: &str) -> (result: Option<String>)
    ensures
        crate::validate::optional_view(result) == document_with_member(
            document@,
            object@,
            member@,
            text@,
        ),
        document@.len() == 0 ==> result is None,
        object@ == "error"@ && member@ == "detail"@ ==> detail_is_put(
            document@,
            text@,
            crate::validate::optional_view(result),
        ),
{
    let mut value = serde_json::from_str::<serde_json::Value>(document).ok()?;
    if let Some(map) = value.get_mut(object).and_then(serde_json::Value::as_object_mut) {
        map.insert(member.to_owned(), serde_json::Value::String(text.to_owned()));
    }
    serde_json::to_string(&value).ok()
}

/// What `serde_json` writes with indentation for a document that it read, after
/// the text was put into the named member of the named object. `None` where it
/// cannot read the document.
pub uninterp spec fn pretty_document_with_member(
    document: Seq<char>,
    object: Seq<char>,
    member: Seq<char>,
    text: Seq<char>,
) -> Option<Seq<char>>;

/// Calls `serde_json::from_str`, `serde_json::Map::insert` on the named object,
/// where the document is an object with such a member, and
/// `serde_json::to_string_pretty`. Claims that the result depends on the four
/// texts alone, that an empty text is no document, and that the envelope of an
/// error gets the detail as a member, with the members in the order of their
/// names.
#[verifier::external_body]
fn insert_member_pretty(document: &str, object: &str, member: &str, text: &str) -> (result: Option<
    String,
>)
    ensures
        crate::validate::optional_view(result) == pretty_document_with_member(
            document@,
            object@,
            member@,
            text@,
        ),
        document@.len() == 0 ==> result is None,
        object@ == "error"@ && member@ == "detail"@ ==> detail_is_put_pretty(
            document@,
            text@,
            crate::validate::optional_view(result),
        ),
{
    let mut value = serde_json::from_str::<serde_json::Value>(document).ok()?;
    if let Some(map) = value.get_mut(object).and_then(serde_json::Value::as_object_mut) {
        map.insert(member.to_owned(), serde_json::Value::String(text.to_owned()));
    }
    serde_json::to_string_pretty(&value).ok()
}

/// The error output with the detail, given what the JSON encoder made of it.
pub open spec fn detailed(stderr: Seq<char>, encoded: Option<Seq<char>>) -> Seq<char> {
    match encoded {
        Some(encoded) => encoded + "\n"@,
        None => stderr,
    }
}

/// The error output with the detail, where `encoded` is the JSON envelope that
/// already holds it: that envelope on a line, or the output as it was.
pub fn detailed_output(stderr: &str, encoded: Option<String>) -> (result: String)
    ensures
        result@ == detailed(stderr@, crate::validate::optional_view(encoded)),
{
    match encoded {
        Some(encoded) => text::join2(encoded.as_str(), "\n"),
        None => stderr.to_owned(),
    }
}

/// The error output with the provider's error text, in that format.
pub open spec fn diagnosed(stderr: Seq<char>, detail: Seq<char>, format: OutputFormat) -> Seq<
    char,
> {
    match format {
        OutputFormat::Table => stderr + "detail: "@ + detail + "\n"@,
        OutputFormat::Json => detailed(
            stderr,
            document_with_member(stderr, "error"@, "detail"@, detail),
        ),
        OutputFormat::PrettyJson => detailed(
            stderr,
            pretty_document_with_member(stderr, "error"@, "detail"@, detail),
        ),
    }
}

/// Appends provider error text to table stderr, or to a JSON error envelope when
/// one is already present. For an invalid sign-in, JSON keeps the reason on
/// stdout and table writes `detail:` on stderr.
pub fn with_diagnostic(stderr: &str, detail: &str, format: OutputFormat) -> (result: String)
    ensures
        result@ == diagnosed(stderr@, detail@, format),
        stderr@.len() == 0 && format != OutputFormat::Table ==> result@.len() == 0,
        forall|kind: Seq<char>, message: Option<Seq<char>>, hint: Option<Seq<char>>|
            stderr@ == #[trigger] error_text(kind, format, message, hint) ==> result@
                == detailed_error(kind, format, message, hint, detail@),
{
    match format {
        OutputFormat::Table => {
            let mut result = text::join3(stderr, "detail: ", detail);
            result.append("\n");
            result
        },
        OutputFormat::Json => detailed_output(
            stderr,
            insert_member(stderr, "error", "detail", detail),
        ),
        OutputFormat::PrettyJson => detailed_output(
            stderr,
            insert_member_pretty(stderr, "error", "detail", detail),
        ),
    }
}

/// The compact envelope stays one line when the provider's error text joins it,
/// whatever that text holds.
pub proof fn detailed_envelopes_are_one_line(
    kind: Seq<char>,
    message: Option<Seq<char>>,
    hint: Option<Seq<char>>,
    detail: Seq<char>,
)
    ensures
        on_one_line(detailed_json(kind, message, hint, detail)),
{
    reveal_strlit("{\"error\":{\"detail\":");
    reveal_strlit(",\"hint\":");
    reveal_strlit(",\"kind\":");
    reveal_strlit(",\"message\":");
    reveal_strlit("},\"status\":\"error\"}");
    let start = "{\"error\":{\"detail\":"@;
    json_strings_are_on_one_line(detail);
    one_line_texts_join(start, json_text(detail));
    let head = start + json_text(detail);
    let hinted = match hint {
        Some(hint) => {
            json_strings_are_on_one_line(hint);
            one_line_texts_join(head, ",\"hint\":"@);
            one_line_texts_join(head + ",\"hint\":"@, json_text(hint));
            head + ",\"hint\":"@ + json_text(hint)
        },
        None => head,
    };
    json_strings_are_on_one_line(kind);
    one_line_texts_join(hinted, ",\"kind\":"@);
    one_line_texts_join(hinted + ",\"kind\":"@, json_text(kind));
    let named = hinted + ",\"kind\":"@ + json_text(kind);
    let told = match message {
        Some(message) => {
            json_strings_are_on_one_line(message);
            one_line_texts_join(named, ",\"message\":"@);
            one_line_texts_join(named + ",\"message\":"@, json_text(message));
            named + ",\"message\":"@ + json_text(message)
        },
        None => named,
    };
    one_line_texts_join(told, "},\"status\":\"error\"}"@);
}

} // verus!
