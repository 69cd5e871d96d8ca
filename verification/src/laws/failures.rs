//! What a failed command tells, and how it exits.

use vstd::prelude::*;

use crate::cli;
use crate::cli::{AccountCommand, Cli, Command, DaemonCommand, OutputFormat};
use crate::dispatch;
use crate::dispatch::{Conclusion, ControlClient, ParseFailure, Reply, Step};
use crate::document;
use crate::document::{BlockView, CellValueView, CellView, Style};
use crate::errors;
use crate::errors::{ClientError, ExitCode, RunOutput, ServiceAction};
use crate::laws::choices;
use crate::laws::requests;
use crate::laws::summaries;
use crate::protocol::{
    AuthState, ControlError, ControlRequest, ControlResponse, ControlResult,
};
use crate::provider::RegistryError;
use crate::redact;
use crate::render;
use crate::render::{RenderView, Rendered};
use crate::summary::filter;
use crate::usage::Timestamp;
use crate::validate;
use crate::version;

verus! {

/// The process ends with 0 on success, 1 on a failure, 2 on a partial result, 3 on
/// invalid credentials, 4 on a network failure, 5 without a daemon, 6 on a breach of
/// the protocol, and 64 on wrong usage.
pub proof fn exit_numbers_are_fixed(code: ExitCode)
    ensures
        code is Success <==> code.number() == 0,
        code is Failure <==> code.number() == 1,
        code is Partial <==> code.number() == 2,
        code is AuthenticationInvalid <==> code.number() == 3,
        code is NetworkFailure <==> code.number() == 4,
        code is DaemonUnavailable <==> code.number() == 5,
        code is ProtocolError <==> code.number() == 6,
        code is Usage <==> code.number() == 64,
{
}

/// The code that an answer ends with.
pub open spec fn code_after(rendered: Rendered) -> int {
    match rendered {
        Rendered::Failed(output) => output.code.number() as int,
        Rendered::Json { code, .. } => code.number() as int,
        Rendered::Document { code, .. } => code.number() as int,
    }
}

/// An answer ends the process by what it tells: 2 where some report is partial, 3
/// where credentials are invalid, 4 where the provider's network failed, 64 for
/// metrics that are not accepted, 6 for another protocol, 1 for any other refusal,
/// and 0 for all else.
pub proof fn answers_end_by_what_they_tell(
    result: ControlResult,
    format: OutputFormat,
    reveal: bool,
    raw: bool,
    diagnose: bool,
    view: RenderView,
    now: Timestamp,
    rendered: Rendered,
)
    requires
        render::renders(result, format, reveal, raw, diagnose, view, now, rendered),
    ensures
        code_after(rendered) == match result {
            ControlResult::Probe(payload) => if payload.usage is Partial {
                2int
            } else {
                0
            },
            ControlResult::Snapshots(snapshots) => if exists|i: int|
                0 <= i < snapshots@.len() && (#[trigger] snapshots@[i]).usage is Partial {
                2int
            } else {
                0
            },
            ControlResult::AuthState(state) => if state is Invalid {
                3int
            } else {
                0
            },
            ControlResult::Error(error) => match error {
                ControlError::Provider(failure) => if failure is AuthenticationInvalid {
                    3int
                } else if failure is Network {
                    4
                } else {
                    1
                },
                ControlError::InvalidAccountMetrics => 64,
                _ => 1,
            },
            ControlResult::ProtocolMismatch { .. } => 6,
            _ => 0,
        },
        result is Error || result is ProtocolMismatch <==> rendered is Failed,
        !(result is Error) && !(result is ProtocolMismatch) ==> (rendered is Document <==> format
            == OutputFormat::Table),
        rendered matches Rendered::Json { pretty, .. } ==> (pretty <==> format
            == OutputFormat::PrettyJson),
{
}

/// Every refusal has the name of its kind, and only an account that is not there
/// shares its name, with one that an account command does not find.
pub proof fn refusals_go_by_their_kind(error: ControlError)
    ensures
        errors::kind_of(error) == match error {
            ControlError::Account(failure) => if failure is NotFound {
                "account_not_found"@
            } else {
                "account_duplicate"@
            },
            ControlError::AccountNotFound { .. } => "account_not_found"@,
            ControlError::AccountSelectorNotFound { .. } => "account_selector_not_found"@,
            ControlError::DeviceNotFound { .. } => "device_not_found"@,
            ControlError::Registry(_) => "provider_registry_error"@,
            ControlError::Timeout => "timeout"@,
            ControlError::Cancelled => "cancelled"@,
            ControlError::Storage => "storage"@,
            ControlError::InvalidAccountMetrics => "invalid_account_metrics"@,
            ControlError::InvalidRequest => "invalid_request"@,
            ControlError::UnsupportedCommand => "unsupported_command"@,
            ControlError::Provider(failure) => if failure is AuthenticationInvalid {
                "authentication_invalid"@
            } else if failure is RateLimited {
                "rate_limited"@
            } else if failure is Network {
                "network_failure"@
            } else if failure is ProtocolIncompatible {
                "provider_protocol_incompatible"@
            } else {
                "unsupported_capability"@
            },
        },
{
}

/// The five kinds that come with a hint, each with its own.
pub proof fn hints_belong_to_their_kind(kind: Seq<char>)
    ensures
        errors::hint_for("daemon_unavailable"@) == Some(
            "start the daemon with `ullage daemon install` then `ullage daemon start`, or run `ullage daemon run` in another terminal"@,
        ),
        errors::hint_for("provider_registry_error"@) == Some(
            "pass a compiled-in provider id such as chatgpt, grok, cursor, opencode, devin, codex2api, or sub2api; run `ullage provider list` to see ids"@,
        ),
        errors::hint_for("account_not_found"@) == Some(
            "pass a stable account id from `ullage account list`, not a label or display name"@,
        ),
        errors::hint_for("account_selector_not_found"@) == errors::hint_for("account_not_found"@),
        errors::hint_for("invalid_account_metrics"@) == Some(
            "pass display metric names such as `usage` or `Codex`; repeat the flag or argument to name several metrics"@,
        ),
        errors::hint_for("invalid_control_socket"@) == Some(
            "set ULLAGE_CONTROL_SOCKET (or ULLAGE_CONTROL_PIPE on Windows) to an absolute path for a private socket owned by the current user, or unset it"@,
        ),
        errors::hint_for(kind) is Some ==> kind == "daemon_unavailable"@ || kind
            == "provider_registry_error"@ || kind == "account_not_found"@ || kind
            == "account_selector_not_found"@ || kind == "invalid_account_metrics"@ || kind
            == "invalid_control_socket"@,
{
    kinds_differ();
}

proof fn kinds_differ()
    ensures
        "provider_registry_error"@ != "daemon_unavailable"@,
        "account_not_found"@ != "daemon_unavailable"@,
        "account_not_found"@ != "provider_registry_error"@,
        "account_selector_not_found"@ != "daemon_unavailable"@,
        "account_selector_not_found"@ != "provider_registry_error"@,
        "invalid_account_metrics"@ != "daemon_unavailable"@,
        "invalid_account_metrics"@ != "provider_registry_error"@,
        "invalid_account_metrics"@ != "account_not_found"@,
        "invalid_account_metrics"@ != "account_selector_not_found"@,
        "invalid_control_socket"@ != "daemon_unavailable"@,
        "invalid_control_socket"@ != "provider_registry_error"@,
        "invalid_control_socket"@ != "account_not_found"@,
        "invalid_control_socket"@ != "account_selector_not_found"@,
        "invalid_control_socket"@ != "invalid_account_metrics"@,
{
    reveal_strlit("daemon_unavailable");
    reveal_strlit("provider_registry_error");
    reveal_strlit("account_not_found");
    reveal_strlit("account_selector_not_found");
    reveal_strlit("invalid_account_metrics");
    reveal_strlit("invalid_control_socket");
    assert("daemon_unavailable"@[0] == 'd');
    assert("provider_registry_error"@[0] == 'p');
    assert("account_not_found"@[0] == 'a');
    assert("account_selector_not_found"@[0] == 'a');
    assert("invalid_account_metrics"@[0] == 'i' && "invalid_account_metrics"@[8] == 'a');
    assert("invalid_control_socket"@[0] == 'i' && "invalid_control_socket"@[8] == 'c');
}

/// A refusal hints at a wrong account, provider or metric; a provider that cannot
/// be had just now is none, and gets no hint.
pub proof fn refusals_hint_at_what_was_wrong(error: ControlError)
    ensures
        error matches ControlError::Registry(RegistryError::InstanceUnavailable(_))
            ==> errors::hint_for_refusal(error) is None,
        error matches ControlError::Registry(failure) ==> (!(failure is InstanceUnavailable)
            ==> errors::hint_for_refusal(error) == errors::hint_for("provider_registry_error"@)),
        error is AccountNotFound || error is AccountSelectorNotFound
            ==> errors::hint_for_refusal(error) == errors::hint_for("account_not_found"@),
        error matches ControlError::Account(failure) ==> (failure is NotFound
            ==> errors::hint_for_refusal(error) == errors::hint_for("account_not_found"@)),
        error is InvalidAccountMetrics ==> errors::hint_for_refusal(error) == errors::hint_for(
            "invalid_account_metrics"@,
        ),
{
    hints_belong_to_their_kind(errors::kind_of(error));
}

/// An obscured argument is blamed by the name of its option, where it has one.
pub proof fn obscured_arguments_are_blamed_by_name(parameter: Seq<char>)
    ensures
        parameter == "authorization_code_env"@ ==> errors::reject_hint(parameter)
            == "the environment variable referenced by --authorization-code-env contains disallowed control characters"@,
        requests::takes_a_value(parameter) ==> errors::reject_hint(parameter) == "the "@ + parameter
            + " argument contains disallowed control characters"@,
        parameter != "authorization_code_env"@ && !requests::takes_a_value(parameter)
            ==> errors::reject_hint(parameter)
            == "a command argument contains disallowed control characters"@,
{
    requests::value_options_take_a_value(parameter);
    if requests::takes_a_value(parameter) && parameter == "authorization_code_env"@ {
        reveal_strlit("authorization_code_env");
        reveal_strlit("--label");
        reveal_strlit("--account");
        reveal_strlit("--account-label");
        reveal_strlit("--redirect-uri");
        reveal_strlit("--authorization-code-env");
        reveal_strlit("--metric");
        reveal_strlit("--method");
        reveal_strlit("--output");
        reveal_strlit("--color");
        assert(parameter[0] == 'a');
        assert("--label"@[0] == '-' && "--account"@[0] == '-' && "--account-label"@[0] == '-'
            && "--redirect-uri"@[0] == '-' && "--authorization-code-env"@[0] == '-'
            && "--metric"@[0] == '-' && "--method"@[0] == '-' && "--output"@[0] == '-'
            && "--color"@[0] == '-');
    }
}

/// The text ends a line, once.
pub proof fn lines_end_once(target: Seq<char>)
    ensures
        errors::line_ended(target).len() > 0,
        errors::line_ended(target).last() == '\n',
        target.len() > 0 && target.last() == '\n' ==> errors::line_ended(target) == target,
        target.len() == 0 || target.last() != '\n' ==> errors::line_ended(target) == target.push(
            '\n',
        ),
{
}

/// An error reads, line by line, its kind, its message where there is one, and its
/// hint where there is one; as JSON it is an object with the same members in the
/// same order; and a detail follows in a line, or a member, of its own.
pub proof fn errors_tell_kind_message_and_hint(
    kind: Seq<char>,
    message: Seq<char>,
    hint: Seq<char>,
    detail: Seq<char>,
)
    ensures
        errors::error_text(kind, OutputFormat::Table, None, None) == "error: "@ + kind + "\n"@,
        errors::error_text(kind, OutputFormat::Table, Some(message), None) == errors::line_ended(
            "error: "@ + kind + "\n"@ + message,
        ),
        errors::error_text(kind, OutputFormat::Table, None, Some(hint)) == errors::line_ended(
            "error: "@ + kind + "\n"@ + "hint: "@ + hint,
        ),
        errors::error_text(kind, OutputFormat::Table, Some(message), Some(hint))
            == errors::line_ended(
            errors::line_ended("error: "@ + kind + "\n"@ + message) + "hint: "@ + hint,
        ),
        errors::error_text(kind, OutputFormat::Json, None, None)
            == "{\"status\":\"error\",\"error\":{\"kind\":"@ + errors::json_text(kind) + "}}\n"@,
        errors::error_text(kind, OutputFormat::Json, Some(message), Some(hint))
            == "{\"status\":\"error\",\"error\":{\"kind\":"@ + errors::json_text(kind)
            + ",\"message\":"@ + errors::json_text(message) + ",\"hint\":"@ + errors::json_text(
            hint,
        ) + "}}\n"@,
        errors::error_text(kind, OutputFormat::PrettyJson, None, None)
            == "{\n  \"status\": \"error\",\n  \"error\": {\n    \"kind\": "@ + errors::json_text(
            kind,
        ) + "\n  }\n}\n"@,
        errors::error_text(kind, OutputFormat::PrettyJson, Some(message), Some(hint))
            == "{\n  \"status\": \"error\",\n  \"error\": {\n    \"kind\": "@ + errors::json_text(
            kind,
        ) + ",\n    \"message\": "@ + errors::json_text(message) + ",\n    \"hint\": "@
            + errors::json_text(hint) + "\n  }\n}\n"@,
        errors::detailed_error(kind, OutputFormat::Table, None, Some(hint), detail)
            == errors::error_text(kind, OutputFormat::Table, None, Some(hint)) + "detail: "@
            + detail + "\n"@,
        errors::detailed_error(kind, OutputFormat::Json, None, None, detail)
            == "{\"error\":{\"detail\":"@ + errors::json_text(detail) + ",\"kind\":"@
            + errors::json_text(kind) + "},\"status\":\"error\"}"@ + "\n"@,
        errors::detailed_error(kind, OutputFormat::Json, Some(message), Some(hint), detail)
            == "{\"error\":{\"detail\":"@ + errors::json_text(detail) + ",\"hint\":"@
            + errors::json_text(hint) + ",\"kind\":"@ + errors::json_text(kind) + ",\"message\":"@
            + errors::json_text(message) + "},\"status\":\"error\"}"@ + "\n"@,
        errors::detailed_error(kind, OutputFormat::PrettyJson, None, None, detail)
            == "{\n  \"error\": {\n    \"detail\": "@ + errors::json_text(detail)
            + ",\n    \"kind\": "@ + errors::json_text(kind)
            + "\n  },\n  \"status\": \"error\"\n}"@ + "\n"@,
{
}

/// What a client's failure is described as.
pub proof fn client_failures_are_described(error: ClientError)
    ensures
        error.described() == match error {
            ClientError::DaemonUnavailable => "daemon unavailable"@,
            ClientError::InvalidResponse => "daemon response was invalid"@,
            ClientError::InvalidEndpoint => "control endpoint is invalid"@,
            ClientError::DaemonProcess => "daemon process failed"@,
            ClientError::DaemonStillRunning => "daemon is still running"@,
            ClientError::DaemonProcessOutput(detail) => "daemon process failed: "@ + detail@,
        },
{
}

/// The command failed with that number and kind: it printed nothing, and its error
/// is of that kind, with the hint of the kind.
pub open spec fn told_failure(
    rendered: Rendered,
    number: int,
    kind: Seq<char>,
    format: OutputFormat,
) -> bool {
    rendered matches Rendered::Failed(output) && {
        &&& output.stdout@.len() == 0
        &&& output.code.number() == number
        &&& output.stderr@ == errors::error_text(kind, format, None, errors::hint_for(kind))
    }
}

/// The command failed with that number and kind, and told that message.
pub open spec fn told_message(
    rendered: Rendered,
    number: int,
    kind: Seq<char>,
    format: OutputFormat,
    message: Seq<char>,
) -> bool {
    rendered matches Rendered::Failed(output) && {
        &&& output.stdout@.len() == 0
        &&& output.code.number() == number
        &&& output.stderr@ == errors::error_text(kind, format, Some(message), None)
    }
}

/// What a command tells where no answer came: 5 without a daemon, 64 for an
/// endpoint that is not one, 6 for an answer that makes no sense, and 1 where the
/// daemon's process failed, with what it said. Only the question for the daemon's
/// status goes on to ask for its service.
pub proof fn missing_answers_are_told(cli: Cli, error: ClientError, reply: Reply)
    requires
        dispatch::unanswered(cli, error, reply),
    ensures
        reply is AskInstalled <==> error is DaemonUnavailable && (cli.command matches
            Command::Daemon { command: DaemonCommand::Status }),
        reply matches Reply::Print(rendered) ==> match error {
            ClientError::DaemonUnavailable => told_failure(
                rendered,
                5,
                "daemon_unavailable"@,
                cli.output,
            ),
            ClientError::InvalidEndpoint => told_failure(
                rendered,
                64,
                "invalid_control_socket"@,
                cli.output,
            ),
            ClientError::InvalidResponse => told_failure(
                rendered,
                6,
                "invalid_daemon_response"@,
                cli.output,
            ),
            ClientError::DaemonProcess => told_failure(
                rendered,
                1,
                "daemon_process_failed"@,
                cli.output,
            ),
            ClientError::DaemonStillRunning => told_failure(
                rendered,
                1,
                "daemon_process_failed"@,
                cli.output,
            ),
            ClientError::DaemonProcessOutput(detail) => told_message(
                rendered,
                1,
                "daemon_process_failed"@,
                cli.output,
                detail@,
            ),
        },
{
}

/// What running the daemon and managing its service end in: success is
/// acknowledged, and a failure told by its kind, with what the process said, or
/// that a daemon still answers.
pub proof fn runs_and_services_end_as_told(
    cli: Cli,
    outcome: Result<(), ClientError>,
    now: Timestamp,
    run: Rendered,
    managed: Rendered,
)
    requires
        dispatch::run_concluded(cli, outcome, now, run),
        dispatch::manage_concluded(cli, outcome, now, managed),
    ensures
        outcome is Ok ==> code_after(run) == 0 && code_after(managed) == 0 && !(run is Failed) && !(
        managed is Failed),
        outcome matches Err(error) ==> match error {
            ClientError::InvalidEndpoint => told_failure(
                run,
                64,
                "invalid_control_socket"@,
                cli.output,
            ) && told_failure(managed, 64, "invalid_control_socket"@, cli.output),
            ClientError::DaemonProcessOutput(detail) => told_message(
                run,
                1,
                "daemon_process_failed"@,
                cli.output,
                detail@,
            ) && told_failure(managed, 1, "daemon_service_failed"@, cli.output),
            ClientError::DaemonStillRunning => told_failure(
                run,
                1,
                "daemon_process_failed"@,
                cli.output,
            ) && (managed matches Rendered::Failed(output) && output.stdout@.len() == 0
                && output.code.number() == 1 && output.stderr@ == errors::error_text(
                "daemon_service_failed"@,
                cli.output,
                None,
                Some(
                    "a daemon still answers on the control endpoint; stop it where it was started (`ullage daemon run` terminal or service manager)"@,
                ),
            )),
            _ => told_failure(run, 1, "daemon_process_failed"@, cli.output) && told_failure(
                managed,
                1,
                "daemon_service_failed"@,
                cli.output,
            ),
        },
{
}

/// Without a daemon, its status tells whether its service is installed; where even
/// that is unknown, that the daemon is not there.
pub proof fn stopped_services_are_told(
    cli: Cli,
    installed: Result<bool, ClientError>,
    rendered: Rendered,
)
    requires
        dispatch::installed_concluded(cli, installed, rendered),
    ensures
        installed is Err ==> told_failure(rendered, 5, "daemon_unavailable"@, cli.output),
        installed is Ok ==> code_after(rendered) == 0,
        installed is Ok && cli.output == OutputFormat::Json ==> (rendered matches Rendered::Failed(
            output,
        ) && output.stdout@ == if installed->Ok_0 {
            "{\"service\":\"installed\",\"status\":\"stopped\"}\n"@
        } else {
            "{\"service\":\"not_installed\",\"status\":\"stopped\"}\n"@
        }),
        installed is Ok && cli.output == OutputFormat::PrettyJson ==> (rendered matches
            Rendered::Failed(output) && output.stdout@ == if installed->Ok_0 {
            "{\n  \"service\": \"installed\",\n  \"status\": \"stopped\"\n}\n"@
        } else {
            "{\n  \"service\": \"not_installed\",\n  \"status\": \"stopped\"\n}\n"@
        }),
        installed is Ok && cli.output == OutputFormat::Table ==> (rendered matches
            Rendered::Document { blocks, .. } && blocks@.len() == 1 && (blocks@[0]@ matches
            BlockView::Pairs(pairs) && pairs.len() == 2 && pairs[0].key == "STATUS"@
            && pairs[0].cell == (CellView {
            value: CellValueView::Text("stopped"@),
            style: Style::Error,
        }) && pairs[1].key == "SERVICE"@ && pairs[1].cell == (CellView {
            value: CellValueView::Text(
                if installed->Ok_0 {
                    "installed"@
                } else {
                    "not-installed"@
                },
            ),
            style: Style::Plain,
        }))),
{
    hold_no_control();
    if installed is Ok && cli.output == OutputFormat::Table {
        let blocks = rendered->Document_blocks;
        let views = document::block_views(blocks@);
        assert(views.len() == 1);
        assert(views[0] == blocks@[0]@);
    }
}

proof fn hold_no_control()
    ensures
        redact::cell_text("stopped"@) == "stopped"@,
        redact::cell_text("installed"@) == "installed"@,
        redact::cell_text("not-installed"@) == "not-installed"@,
        "stopped"@.len() == 7,
        "installed"@.len() == 9,
        "not-installed"@.len() == 13,
{
    reveal_strlit("stopped");
    reveal_strlit("installed");
    reveal_strlit("not-installed");
}

/// An answer is taken for one exactly when it speaks the protocol's first version,
/// has the number of the request, fits the command, and gives details only where
/// they were wanted, of a refused sign-in or probe, and safe to show.
pub proof fn answers_are_taken_for_one(
    cli: Cli,
    request_id: Seq<char>,
    diagnose: bool,
    response: ControlResponse,
    safe: ControlResult,
)
    ensures
        dispatch::trusted(cli, request_id, diagnose, response, safe) <==> response.version == 1
            && response.request_id@ == request_id && validate::answers(cli.command, safe) && (
        response.diagnostic is Some ==> diagnose && safe is Error && (cli.command is Auth
            || cli.command is Probe) && !crate::identity::unsafe_text(response.diagnostic->0@)),
{
}

/// An answer that is not taken for one is told as a breach of the protocol; one
/// that is, is printed, and only what goes to the error stream is added to.
pub proof fn answers_are_printed_or_refused(
    cli: Cli,
    request_id: Seq<char>,
    diagnose: bool,
    response: ControlResponse,
    client_version: Seq<char>,
    now: Timestamp,
    rendered: Rendered,
)
    requires
        dispatch::concluded(cli, request_id, diagnose, response, client_version, now, rendered),
    ensures
        exists|safe: ControlResult|
            #![trigger redact::controls_removed(response.result, safe)]
            redact::controls_removed(response.result, safe) && if dispatch::trusted(
                cli,
                request_id,
                diagnose,
                response,
                safe,
            ) {
                exists|answer: Rendered|
                    #![trigger dispatch::printed(cli, safe, diagnose, now, answer)]
                    dispatch::printed(cli, safe, diagnose, now, answer) && code_after(rendered)
                        == code_after(answer) && match answer {
                        Rendered::Failed(output) => rendered matches Rendered::Failed(changed)
                            && changed.stdout == output.stdout,
                        Rendered::Json { result, pretty, .. } => rendered matches Rendered::Json {
                            result: same,
                            pretty: as_pretty,
                            ..
                        } && same == result && as_pretty == pretty,
                        Rendered::Document { blocks, .. } => rendered matches Rendered::Document {
                            blocks: same,
                            ..
                        } && same == blocks,
                    }
            } else {
                told_failure(rendered, 6, "invalid_daemon_response"@, cli.output)
            },
{
    let safe = choose|safe: ControlResult|
        #[trigger] redact::controls_removed(response.result, safe) && if dispatch::trusted(
            cli,
            request_id,
            diagnose,
            response,
            safe,
        ) {
            exists|answer: Rendered|
                dispatch::printed(cli, safe, diagnose, now, answer)
                    && #[trigger] dispatch::with_stderr(
                    answer,
                    dispatch::full_stderr(
                        dispatch::stderr_of(answer),
                        safe,
                        response.diagnostic,
                        response.daemon_version,
                        client_version,
                        cli.output,
                    ),
                    rendered,
                )
        } else {
            dispatch::failed(
                rendered,
                ExitCode::ProtocolError,
                "invalid_daemon_response"@,
                cli.output,
            )
        };
    if dispatch::trusted(cli, request_id, diagnose, response, safe) {
        let answer = choose|answer: Rendered|
            dispatch::printed(cli, safe, diagnose, now, answer) && #[trigger] dispatch::with_stderr(
                answer,
                dispatch::full_stderr(
                    dispatch::stderr_of(answer),
                    safe,
                    response.diagnostic,
                    response.daemon_version,
                    client_version,
                    cli.output,
                ),
                rendered,
            );
        assert(dispatch::printed(cli, safe, diagnose, now, answer));
    }
}

/// What goes to the error stream ends with what the answer itself tells there, or
/// with the refusal's detail in its place; before it stands a warning exactly where
/// the daemon is older, which names both versions.
pub proof fn warnings_come_before_what_is_told(
    own: Seq<char>,
    result: ControlResult,
    diagnostic: Option<String>,
    daemon_version: Option<String>,
    client_version: Seq<char>,
    format: OutputFormat,
)
    ensures
        ({
            let full = dispatch::full_stderr(
                own,
                result,
                diagnostic,
                daemon_version,
                client_version,
                format,
            );
            let told = if result is Error && diagnostic is Some {
                errors::detailed_error(
                    errors::kind_of(result->Error_0),
                    format,
                    None,
                    errors::hint_for_refusal(result->Error_0),
                    diagnostic->0@,
                )
            } else {
                own
            };
            let named = match daemon_version {
                Some(reported) => reported@,
                None => "unknown, predates version reporting"@,
            };
            let older = match daemon_version {
                Some(reported) => version::daemon_is_older(Some(reported@), client_version),
                None => version::daemon_is_older(None, client_version),
            };
            &&& !older ==> full == told
            &&& older ==> full == "warning: the running daemon ("@ + named
                + ") is older than this CLI ("@ + client_version
                + "); upgrades and new providers stay invisible until it is restarted\n  upgrade: ullage daemon install"@
                + "\n"@ + told
        }),
{
}

/// Arguments that could not be read are told: an obscured one is blamed in the format
/// that they name, without being repeated; else a help text is printed, and a
/// complaint told with wrong usage, cleaned of all that obscures.
pub proof fn unread_arguments_are_told(
    arguments: &Vec<String>,
    failure: ParseFailure,
    output: RunOutput,
)
    requires
        dispatch::parse_failed(arguments, failure, output),
    ensures
        ({
            let format = cli::requested_format(arguments@, 1);
            let blamed = cli::blame_from(arguments@, 1, false);
            &&& blamed is Some ==> output.stdout@.len() == 0 && output.code.number() == 64
                && output.stderr@ == errors::error_text(
                "usage"@,
                format,
                None,
                Some(errors::reject_hint(blamed->0)),
            )
            &&& blamed is None && failure is Shown ==> output.stdout@ == failure->Shown_0@
                && output.stderr@.len() == 0 && output.code.number() == 0
            &&& blamed is None && failure is Rejected ==> output.stdout@.len() == 0
                && output.code.number() == 64 && output.stderr@ == if format
                == OutputFormat::Table {
                errors::line_ended(redact::sanitized(failure->Rejected_0@))
            } else {
                errors::error_text(
                    "usage"@,
                    format,
                    Some(redact::sanitized(failure->Rejected_0@)),
                    None,
                )
            }
        }),
{
}

/// A command with an obscured parameter, or with metric names that are not fit, is
/// told as wrong usage, with what is wrong, and is never asked of the daemon.
pub proof fn unfit_commands_are_told(
    cli: Cli,
    code: Option<String>,
    environment: bool,
    step: Step,
)
    requires
        dispatch::starts_with(cli, code, environment, step),
    ensures
        requests::first_obscured(requests::parameters(cli.command, code)) matches Some(called)
            ==> told_hint(step, "usage"@, cli.output, errors::reject_hint(called)),
        requests::first_obscured(requests::parameters(cli.command, code)) is None && (
        cli.command matches Command::Show(args) && args.metric@.len() > 0 && !choices::fit(
            filter::text_views(args.metric@),
        )) ==> told_hint(
            step,
            "invalid_account_metrics"@,
            cli.output,
            errors::hint_for("invalid_account_metrics"@)->0,
        ),
        requests::first_obscured(requests::parameters(cli.command, code)) is None && (
        cli.command matches Command::Account {
            command: AccountCommand::Metrics { metrics, .. },
        } && !choices::fit(filter::text_views(metrics@))) ==> told_hint(
            step,
            "invalid_account_metrics"@,
            cli.output,
            errors::hint_for("invalid_account_metrics"@)->0,
        ),
{
    requests::obscured_parameters_are_named(cli.command, code);
    hints_belong_to_their_kind("invalid_account_metrics"@);
    if let Command::Show(args) = cli.command {
        summaries::filters_report_the_first_unfit_name(filter::text_views(args.metric@), 0);
    }
    if let Command::Account { command: AccountCommand::Metrics { metrics, .. } } = cli.command {
        summaries::filters_report_the_first_unfit_name(filter::text_views(metrics@), 0);
    }
}

/// The step ends with wrong usage, of that kind and with that hint.
pub open spec fn told_hint(
    step: Step,
    kind: Seq<char>,
    format: OutputFormat,
    hint: Seq<char>,
) -> bool {
    step matches Step::Finish(output) && output.stdout@.len() == 0 && output.code.number() == 64
        && output.stderr@ == errors::error_text(kind, format, None, Some(hint))
}

/// The names of a command are accepted exactly when they are fit; a command without
/// any has nothing to refuse.
pub proof fn fit_names_are_accepted(command: Command)
    ensures
        dispatch::names_accepted(command) <==> match command {
            Command::Show(args) => args.metric@.len() == 0 || choices::fit(
                filter::text_views(args.metric@),
            ),
            Command::Account { command: AccountCommand::Metrics { metrics, .. } } => choices::fit(
                filter::text_views(metrics@),
            ),
            _ => true,
        },
{
    if let Command::Show(args) = command {
        summaries::filters_report_the_first_unfit_name(filter::text_views(args.metric@), 0);
    }
    if let Command::Account { command: AccountCommand::Metrics { metrics, .. } } = command {
        summaries::filters_report_the_first_unfit_name(filter::text_views(metrics@), 0);
    }
}

/// A complaint about arguments, and about an obscured one, is told as wrong usage.
pub proof fn complaints_are_wrong_usage(
    message: &str,
    parameter: &str,
    format: OutputFormat,
    complaint: RunOutput,
    refusal: RunOutput,
)
    requires
        errors::parse_error_is(message, format, complaint),
        errors::unsafe_control_is(format, parameter, refusal),
    ensures
        complaint.code.number() == 64,
        complaint.stdout@.len() == 0,
        format == OutputFormat::Table ==> complaint.stderr@ == errors::line_ended(
            redact::sanitized(message@),
        ),
        format != OutputFormat::Table ==> complaint.stderr@ == errors::error_text(
            "usage"@,
            format,
            Some(redact::sanitized(message@)),
            None,
        ),
        refusal.code.number() == 64,
        refusal.stdout@.len() == 0,
        refusal.stderr@ == errors::error_text(
            "usage"@,
            format,
            None,
            Some(errors::reject_hint(parameter@)),
        ),
{
}

/// A detail is added to an error in a line of its own; to a JSON document by what
/// the encoder gives, and where that gives nothing, the error stays as it is.
pub proof fn details_are_added(
    stderr: Seq<char>,
    detail: Seq<char>,
    encoded: Option<Seq<char>>,
)
    ensures
        errors::diagnosed(stderr, detail, OutputFormat::Table) == stderr + "detail: "@ + detail
            + "\n"@,
        encoded is None ==> errors::detailed(stderr, encoded) == stderr,
        encoded is Some ==> errors::detailed(stderr, encoded) == encoded->0 + "\n"@,
{
}

/// A JSON text stands between quotes, character by character; quotes, backslashes and
/// controls are escaped, and every other character stands as it is.
pub proof fn json_texts_are_escaped(first: Seq<char>, second: Seq<char>, only: char)
    ensures
        errors::json_text(first) == seq!['"'] + errors::json_contents(first) + seq!['"'],
        errors::json_contents(first + second) == errors::json_contents(first)
            + errors::json_contents(second),
        only == '"' || only == '\\' ==> errors::json_contents(seq![only]) == seq!['\\', only],
        only == '\n' ==> errors::json_contents(seq![only]) == seq!['\\', 'n'],
        only == '\t' ==> errors::json_contents(seq![only]) == seq!['\\', 't'],
        only >= ' ' && only != '"' && only != '\\' ==> errors::json_contents(seq![only]) == seq![
            only,
        ],
        only < ' ' ==> errors::json_contents(seq![only])[0] == '\\',
    decreases second.len(),
{
    let one = seq![only];
    assert(one.drop_last() =~= Seq::<char>::empty());
    assert(errors::json_contents(one.drop_last()) =~= Seq::<char>::empty());
    assert(errors::json_contents(one) =~= errors::json_character(only));
    let whole = first + second;
    if second.len() > 0 {
        json_texts_are_escaped(first, second.drop_last(), only);
        assert(whole.drop_last() =~= first + second.drop_last());
        assert(whole.last() == second.last());
    } else {
        assert(whole =~= first);
    }
    assert(errors::json_contents(whole) =~= errors::json_contents(first) + errors::json_contents(
        second,
    ));
}

/// JSON answers tell all that the answer holds where it is to be revealed, with the
/// details that were asked for; and else all but what is kept back.
pub proof fn json_tells_what_is_revealed(
    result: ControlResult,
    reveal: bool,
    diagnose: bool,
    printed: ControlResult,
)
    requires
        render::json_printed(result, reveal, diagnose, printed),
    ensures
        reveal && diagnose ==> printed == result,
        reveal && !diagnose ==> redact::details_hidden(result, false, printed),
        !reveal && diagnose ==> redact::values_hidden(result, printed),
        !reveal && !diagnose ==> redact::reveals_nothing(printed) && redact::tells_no_details(
            printed,
        ),
{
    let told = choose|told: ControlResult|
        #[trigger] redact::details_hidden(result, diagnose, told) && if reveal {
            printed == told
        } else {
            redact::values_hidden(told, printed)
        };
    if !reveal && !diagnose {
        redact::redacted_answers_keep_secrets(result, told, printed);
    }
}

/// A command to manage the service is handed to the client as it is named, and one
/// to run the daemon runs it.
pub proof fn service_commands_reach_the_client<C: ControlClient, K: Fn() -> Timestamp>(
    cli: Cli,
    code: Option<String>,
    environment: bool,
    client: &C,
    clock: K,
    step: Step,
    request_id: Seq<char>,
    client_version: Seq<char>,
    conclusion: Conclusion,
)
    requires
        dispatch::starts_with(cli, code, environment, step),
        dispatch::follows_through(
            cli,
            client,
            clock,
            step,
            request_id,
            client_version,
            conclusion,
        ),
        cli.command is Daemon,
    ensures
        cli.command matches Command::Daemon { command: DaemonCommand::Start } ==> exists|
            outcome: Result<(), ClientError>,
        |
            call_ensures(C::manage_daemon, (client, ServiceAction::Start), outcome)
                && handed_back(cli, outcome, conclusion),
        cli.command matches Command::Daemon { command: DaemonCommand::Stop } ==> exists|
            outcome: Result<(), ClientError>,
        |
            call_ensures(C::manage_daemon, (client, ServiceAction::Stop), outcome) && handed_back(
                cli,
                outcome,
                conclusion,
            ),
        cli.command matches Command::Daemon { command: DaemonCommand::Install } ==> exists|
            outcome: Result<(), ClientError>,
        |
            call_ensures(C::manage_daemon, (client, ServiceAction::Install), outcome)
                && handed_back(cli, outcome, conclusion),
        cli.command matches Command::Daemon { command: DaemonCommand::Uninstall } ==> exists|
            outcome: Result<(), ClientError>,
        |
            call_ensures(C::manage_daemon, (client, ServiceAction::Uninstall), outcome)
                && handed_back(cli, outcome, conclusion),
{
    requests::obscured_parameters_are_named(cli.command, code);
    if let Step::Manage(action) = step {
        let rendered = conclusion->Print_0;
        let (outcome, now) = choose|outcome: Result<(), ClientError>, now: Timestamp|
            {
                &&& call_ensures(C::manage_daemon, (client, action), outcome)
                &&& clock.ensures((), now)
                &&& #[trigger] dispatch::manage_concluded(cli, outcome, now, rendered)
            };
        assert(call_ensures(C::manage_daemon, (client, action), outcome));
        assert(handed_back(cli, outcome, conclusion));
    }
}

/// The conclusion is what managing the service came to.
pub open spec fn handed_back(
    cli: Cli,
    outcome: Result<(), ClientError>,
    conclusion: Conclusion,
) -> bool {
    conclusion matches Conclusion::Print(rendered) && exists|now: Timestamp| #[trigger]
        dispatch::manage_concluded(cli, outcome, now, rendered)
}

/// A request is sent as it was made, and what is printed is what the client's answer
/// comes to; where none comes, the question for the service is asked of the client
/// where the daemon's status was asked for.
pub proof fn requests_reach_the_client<C: ControlClient, K: Fn() -> Timestamp>(
    cli: Cli,
    client: &C,
    clock: K,
    step: Step,
    request_id: Seq<char>,
    client_version: Seq<char>,
    conclusion: Conclusion,
)
    requires
        dispatch::follows_through(
            cli,
            client,
            clock,
            step,
            request_id,
            client_version,
            conclusion,
        ),
    ensures
        step matches Step::Finish(output) ==> conclusion == Conclusion::Print(
            Rendered::Failed(output),
        ),
        step matches Step::OpenView(args) ==> conclusion == Conclusion::OpenView(args),
        step matches Step::Login { provider, method } ==> conclusion == (Conclusion::Login {
            provider,
            method,
        }),
        step matches Step::Send { command, diagnose } ==> exists|
            request: ControlRequest,
            outcome: Result<ControlResponse, ClientError>,
        |
            request.version == 1 && request.request_id@ == request_id && request.command == command
                && request.diagnostics == diagnose && #[trigger] sent_and_told(
                cli,
                client,
                request,
                outcome,
                client_version,
                conclusion,
            ),
{
    if let Step::Send { command, diagnose } = step {
        let rendered = conclusion->Print_0;
        let (request, outcome, now) = choose|
            request: ControlRequest,
            outcome: Result<ControlResponse, ClientError>,
            now: Timestamp,
        |
            {
                &&& dispatch::carries(request, request_id, command, diagnose)
                &&& clock.ensures((), now)
                &&& #[trigger] dispatch::sent_and_concluded(
                    cli,
                    client,
                    request,
                    outcome,
                    client_version,
                    now,
                    rendered,
                )
            };
        if let Err(error) = outcome {
            let reply = choose|reply: Reply| #[trigger]
                dispatch::unanswered(cli, error, reply) && match reply {
                    Reply::Print(answer) => rendered == answer,
                    Reply::AskInstalled => exists|installed: Result<bool, ClientError>|
                        call_ensures(C::daemon_service_installed, (client,), installed)
                            && #[trigger] dispatch::installed_concluded(cli, installed, rendered),
                };
            assert(dispatch::unanswered(cli, error, reply));
        }
        assert(sent_and_told(cli, client, request, outcome, client_version, conclusion));
    }
}

/// The client was sent that request, and the conclusion is what its outcome comes to.
pub open spec fn sent_and_told<C: ControlClient>(
    cli: Cli,
    client: &C,
    request: ControlRequest,
    outcome: Result<ControlResponse, ClientError>,
    client_version: Seq<char>,
    conclusion: Conclusion,
) -> bool {
    call_ensures(C::send, (client, &request), outcome) && (conclusion matches Conclusion::Print(
        rendered,
    ) && match outcome {
        Ok(response) => exists|now: Timestamp| #[trigger]
            dispatch::concluded(
                cli,
                request.request_id@,
                request.diagnostics,
                response,
                client_version,
                now,
                rendered,
            ),
        Err(error) => dispatch::unanswered(cli, error, Reply::Print(rendered)) || error
            is DaemonUnavailable && (cli.command matches Command::Daemon {
            command: DaemonCommand::Status,
        }) && exists|installed: Result<bool, ClientError>|
            call_ensures(C::daemon_service_installed, (client,), installed)
                && #[trigger] dispatch::installed_concluded(cli, installed, rendered),
    })
}

} // verus!
