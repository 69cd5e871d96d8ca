//! What one invocation does: which outside step it starts with, and what the
//! outcome of that step leads to.

use vstd::prelude::*;
use vstd::string::StringExecFns;

use crate::cli;
use crate::cli::{
    AccountCommand, AuthCommand, AuthMethodArg, Cli, Command, DaemonCommand, OutputFormat, TuiArgs,
};
use crate::document;
use crate::errors;
use crate::errors::{ClientError, ExitCode, RunOutput, ServiceAction};
use crate::identity;
use crate::protocol::{
    ControlCommand, ControlRequest, ControlResponse, ControlResult, CONTROL_PROTOCOL_VERSION,
};
use crate::redact;
use crate::render;
use crate::render::{MetricFilterChoice, RenderView, Rendered, StoppedService};
use crate::summary::filter;
use crate::summary::filter::MetricFilter;
use crate::text;
use crate::usage::{clone_optional_text, Timestamp};
use crate::validate;
use crate::version;

verus! {

/// The outside step an invocation starts with.
pub enum Step {
    /// Nothing is left to do but to print.
    Finish(RunOutput),
    /// Sign in with a person at the terminal.
    Login { provider: Option<String>, method: Option<AuthMethodArg> },
    /// Start a daemon that is no service.
    RunDaemon,
    /// Manage the background service.
    Manage(ServiceAction),
    /// Open the full-screen view.
    OpenView(TuiArgs),
    /// Ask the daemon.
    Send { command: ControlCommand, diagnose: bool },
}

/// The metric names the command line gives, where it gives any.
pub open spec fn given_names(command: Command) -> Option<Seq<Seq<char>>> {
    match command {
        Command::Show(args) => if args.metric@.len() > 0 {
            Some(filter::text_views(args.metric@))
        } else {
            None
        },
        Command::Account { command: AccountCommand::Metrics { metrics, .. } } => Some(
            filter::text_views(metrics@),
        ),
        _ => None,
    }
}

/// The metric names the command line gives are ones a filter accepts.
pub open spec fn names_accepted(command: Command) -> bool {
    given_names(command) matches Some(names) ==> validate::acceptable(names)
}

/// The filter that the command line chooses for the readable summary.
pub open spec fn chooses(command: Command, choice: MetricFilterChoice) -> bool {
    match command {
        Command::Show(args) => if args.metric@.len() > 0 {
            choice matches MetricFilterChoice::Explicit(chosen) && chosen@ == filter::normalized(
                filter::text_views(args.metric@),
            )
        } else if args.no_metric_filter {
            choice matches MetricFilterChoice::Explicit(chosen) && chosen@ == Seq::<
                Seq<char>,
            >::empty()
        } else {
            choice is Persisted
        },
        _ => choice is Persisted,
    }
}

/// Resolves the metric filter for this invocation and rejects invalid names
/// before any control request is built.
pub fn metric_filter_choice(command: &Command) -> (result: Result<MetricFilterChoice, ()>)
    ensures
        match result {
            Ok(choice) => names_accepted(*command) && chooses(*command, choice),
            Err(_) => !names_accepted(*command),
        },
{
    match command {
        Command::Show(args) => {
            if !args.metric.is_empty() {
                return match MetricFilter::new(validate::clone_texts(&args.metric)) {
                    Ok(filter) => Ok(MetricFilterChoice::Explicit(filter)),
                    Err(_) => Err(()),
                };
            }
            if args.no_metric_filter {
                // An inactive filter shows every row, which is what the flag asks for.
                return Ok(MetricFilterChoice::Explicit(MetricFilter::default()));
            }
            Ok(MetricFilterChoice::Persisted)
        },
        Command::Account { command: AccountCommand::Metrics { metrics, .. } } => {
            match MetricFilter::new(validate::clone_texts(metrics)) {
                Ok(_) => Ok(MetricFilterChoice::Persisted),
                Err(_) => Err(()),
            }
        },
        _ => Ok(MetricFilterChoice::Persisted),
    }
}

/// The service action a daemon command asks for.
pub open spec fn service_action(command: DaemonCommand) -> Option<ServiceAction> {
    match command {
        DaemonCommand::Install => Some(ServiceAction::Install),
        DaemonCommand::Start => Some(ServiceAction::Start),
        DaemonCommand::Stop => Some(ServiceAction::Stop),
        DaemonCommand::Uninstall => Some(ServiceAction::Uninstall),
        DaemonCommand::Run | DaemonCommand::Status => None,
    }
}

/// A sign-in that names an account names its provider too, as the command-line
/// schema demands.
pub open spec fn names_provider(command: Command) -> bool {
    command matches Command::Auth { command: AuthCommand::Login { provider, account, .. } }
        ==> account is Some ==> provider is Some
}

/// The step the invocation starts with.
///
/// `code` is what the environment variable holds that the command names for
/// the authorization code, and `environment` tells whether the environment asks
/// for diagnostics.
pub open spec fn starts_with(
    cli: Cli,
    code: Option<String>,
    environment: bool,
    step: Step,
) -> bool {
    match validate::unsafe_parameter(cli.command, code) {
        Some(parameter) => step matches Step::Finish(output) && errors::output_is(
            output,
            Seq::empty(),
            errors::error_text(
                "usage"@,
                cli.output,
                None,
                Some(errors::reject_hint(parameter)),
            ),
            ExitCode::Usage,
        ),
        None => if !names_accepted(cli.command) {
            step matches Step::Finish(output) && errors::output_is(
                output,
                Seq::empty(),
                errors::error_text(
                    "invalid_account_metrics"@,
                    cli.output,
                    None,
                    errors::hint_for("invalid_account_metrics"@),
                ),
                ExitCode::Usage,
            )
        } else {
            match cli.command {
                Command::Auth {
                    command: AuthCommand::Login { provider, account: None, method },
                } => step == (Step::Login { provider, method }),
                Command::Daemon { command: DaemonCommand::Run } => step is RunDaemon,
                Command::Daemon { command } if service_action(command) is Some => step
                    == Step::Manage(service_action(command)->0),
                Command::Tui(args) => step == Step::OpenView(args),
                _ => step matches Step::Send { command, diagnose } && validate::wire_command(
                    cli.command,
                    code,
                    command,
                ) && diagnose == ((cli.diagnose || environment) && command.diagnosable()),
            }
        },
    }
}

/// What the parser says of a command line that it does not take.
pub enum ParseFailure {
    /// A text that was asked for: the help or the version.
    Shown(String),
    /// A message about what is wrong.
    Rejected(String),
}

/// What is printed where the arguments could not be read.
pub open spec fn parse_failed(
    arguments: &Vec<String>,
    failure: ParseFailure,
    result: RunOutput,
) -> bool {
    let format = cli::requested_format(arguments@, 1);
    match cli::blame_from(arguments@, 1, false) {
        Some(parameter) => errors::output_is(
            result,
            Seq::empty(),
            errors::error_text("usage"@, format, None, Some(errors::reject_hint(parameter))),
            ExitCode::Usage,
        ),
        None => match failure {
            ParseFailure::Shown(shown) => errors::output_is(
                result,
                shown@,
                Seq::empty(),
                ExitCode::Success,
            ),
            ParseFailure::Rejected(message) => errors::output_is(
                result,
                Seq::empty(),
                if format == OutputFormat::Table {
                    errors::line_ended(redact::sanitized(message@))
                } else {
                    errors::error_text(
                        "usage"@,
                        format,
                        Some(redact::sanitized(message@)),
                        None,
                    )
                },
                ExitCode::Usage,
            ),
        },
    }
}

/// The output for a command line that the parser does not take. An unsafe
/// character in it is told of before anything of it is repeated.
pub fn after_parse_failure(arguments: &Vec<String>, failure: ParseFailure) -> (result: RunOutput)
    ensures
        parse_failed(arguments, failure, result),
{
    let format = cli::infer_output_format(arguments);
    if let Some(parameter) = cli::unsafe_control_in_raw_arguments(arguments) {
        return errors::unsafe_control_error_output(format, parameter);
    }
    match failure {
        ParseFailure::Shown(shown) => errors::success_text(shown.as_str()),
        ParseFailure::Rejected(message) => errors::parse_error_output(message.as_str(), format),
    }
}

/// Decides which outside step the invocation starts with.
pub fn plan(cli: &Cli, code: &Option<String>, environment: bool) -> (result: Step)
    requires
        names_provider(cli.command),
    ensures
        starts_with(*cli, *code, environment, result),
{
    if let Some(parameter) = validate::unsafe_control_param_name(&cli.command, code) {
        return Step::Finish(errors::unsafe_control_error_output(cli.output, parameter));
    }
    if metric_filter_choice(&cli.command).is_err() {
        return Step::Finish(
            errors::error_output(ExitCode::Usage, "invalid_account_metrics", cli.output),
        );
    }
    match &cli.command {
        Command::Auth { command: AuthCommand::Login { provider, account, method } } => {
            if account.is_none() {
                return Step::Login { provider: clone_optional_text(provider), method: *method };
            }
        },
        Command::Daemon { command } => match command {
            DaemonCommand::Run => {
                return Step::RunDaemon;
            },
            DaemonCommand::Install => {
                return Step::Manage(ServiceAction::Install);
            },
            DaemonCommand::Start => {
                return Step::Manage(ServiceAction::Start);
            },
            DaemonCommand::Stop => {
                return Step::Manage(ServiceAction::Stop);
            },
            DaemonCommand::Uninstall => {
                return Step::Manage(ServiceAction::Uninstall);
            },
            DaemonCommand::Status => {},
        },
        Command::Tui(args) => {
            return Step::OpenView(*args);
        },
        _ => {},
    }
    let command = validate::to_control_command(&cli.command, code);
    let diagnose = (cli.diagnose || environment) && command.accepts_diagnostics();
    Step::Send { command, diagnose }
}

/// The request that carries a command.
pub fn control_request(request_id: &str, command: ControlCommand, diagnose: bool) -> (result:
    ControlRequest)
    ensures
        carries(result, request_id@, command, diagnose),
{
    ControlRequest {
        version: CONTROL_PROTOCOL_VERSION,
        request_id: request_id.to_owned(),
        command,
        diagnostics: diagnose,
    }
}

/// The id of a request: the process and the number of the request in it.
pub open spec fn request_id(process: u32, sequence: u64) -> Seq<char> {
    "cli-"@ + text::decimal_digits(process as nat) + "-"@ + text::decimal_digits(sequence as nat)
}

/// The id of a request: the process and the number of the request in it.
pub fn next_request_id(process: u32, sequence: u64) -> (result: String)
    ensures
        result@ == request_id(process, sequence),
{
    let mut id = text::join3("cli-", text::decimal(process as u64).as_str(), "-");
    id.append(text::decimal(sequence).as_str());
    id
}

/// The command is one of the account views that own the metric filter.
pub open spec fn shows_metrics(command: Command) -> bool {
    command matches Command::Account { command } && (command is Show || command is Metrics)
}

/// The readable view of the command.
pub open spec fn viewed(command: Command, view: RenderView) -> bool {
    chooses(command, view.metric_choice) && view.account_with_metrics == shows_metrics(command)
}

/// The readable-view choices of the command.
///
/// Only the account views that own the metric filter show it: the mutation
/// commands keep their single-row table.
pub fn view_of(command: &Command) -> (result: RenderView)
    requires
        names_accepted(*command),
    ensures
        viewed(*command, result),
{
    let metric_choice = match metric_filter_choice(command) {
        Ok(choice) => choice,
        Err(_) => MetricFilterChoice::Persisted,
    };
    let account_with_metrics = match command {
        Command::Account { command } => matches!(
            command,
            AccountCommand::Show { .. } | AccountCommand::Metrics { .. }
        ),
        _ => false,
    };
    RenderView { metric_choice, account_with_metrics }
}

/// The answer is printed as the command asks for.
pub open spec fn printed(
    cli: Cli,
    result: ControlResult,
    diagnose: bool,
    now: Timestamp,
    rendered: Rendered,
) -> bool {
    exists|view: RenderView|
        #[trigger] viewed(cli.command, view) && render::renders(
            result,
            cli.output,
            cli.reveal,
            cli.raw,
            diagnose,
            view,
            now,
            rendered,
        )
}

fn print(
    cli: &Cli,
    result: ControlResult,
    diagnose: bool,
    now: &Timestamp,
) -> (rendered: Rendered)
    requires
        names_accepted(cli.command),
    ensures
        printed(*cli, result, diagnose, *now, rendered),
{
    let view = view_of(&cli.command);
    let rendered = render::render_result(
        result,
        cli.output,
        cli.reveal,
        cli.raw,
        diagnose,
        &view,
        now,
    );
    assert(viewed(cli.command, view));
    rendered
}

/// A failure of that kind with the hint for such failures.
pub open spec fn failed(
    rendered: Rendered,
    code: ExitCode,
    kind: Seq<char>,
    format: OutputFormat,
) -> bool {
    rendered matches Rendered::Failed(output) && errors::output_is(
        output,
        Seq::empty(),
        errors::error_text(kind, format, None, errors::hint_for(kind)),
        code,
    )
}

/// A failure of that kind with a message of its own.
pub open spec fn failed_telling(
    rendered: Rendered,
    code: ExitCode,
    kind: Seq<char>,
    format: OutputFormat,
    message: Seq<char>,
) -> bool {
    rendered matches Rendered::Failed(output) && errors::output_is(
        output,
        Seq::empty(),
        errors::error_text(kind, format, Some(message), None),
        code,
    )
}

fn fail(code: ExitCode, kind: &str, format: OutputFormat) -> (rendered: Rendered)
    ensures
        failed(rendered, code, kind@, format),
{
    Rendered::Failed(errors::error_output(code, kind, format))
}

/// What starting a daemon that is no service leads to.
pub open spec fn run_concluded(
    cli: Cli,
    outcome: Result<(), ClientError>,
    now: Timestamp,
    rendered: Rendered,
) -> bool {
    match outcome {
        Ok(_) => printed(cli, ControlResult::Ack, false, now, rendered),
        Err(ClientError::InvalidEndpoint) => failed(
            rendered,
            ExitCode::Usage,
            "invalid_control_socket"@,
            cli.output,
        ),
        Err(ClientError::DaemonProcessOutput(detail)) => failed_telling(
            rendered,
            ExitCode::Failure,
            "daemon_process_failed"@,
            cli.output,
            detail@,
        ),
        Err(_) => failed(rendered, ExitCode::Failure, "daemon_process_failed"@, cli.output),
    }
}

/// What starting a daemon that is no service leads to.
pub fn after_run(cli: &Cli, outcome: Result<(), ClientError>, now: &Timestamp) -> (rendered:
    Rendered)
    requires
        names_accepted(cli.command),
    ensures
        run_concluded(*cli, outcome, *now, rendered),
{
    match outcome {
        Ok(_) => print(cli, ControlResult::Ack, false, now),
        Err(ClientError::InvalidEndpoint) => fail(
            ExitCode::Usage,
            "invalid_control_socket",
            cli.output,
        ),
        Err(ClientError::DaemonProcessOutput(detail)) => Rendered::Failed(
            errors::error_output_with_options(
                ExitCode::Failure,
                "daemon_process_failed",
                cli.output,
                Some(detail.as_str()),
                None,
            ),
        ),
        Err(_) => fail(ExitCode::Failure, "daemon_process_failed", cli.output),
    }
}

/// What managing the background service leads to.
pub open spec fn manage_concluded(
    cli: Cli,
    outcome: Result<(), ClientError>,
    now: Timestamp,
    rendered: Rendered,
) -> bool {
    match outcome {
        Ok(_) => printed(cli, ControlResult::Ack, false, now, rendered),
        Err(ClientError::InvalidEndpoint) => failed(
            rendered,
            ExitCode::Usage,
            "invalid_control_socket"@,
            cli.output,
        ),
        Err(ClientError::DaemonStillRunning) => rendered matches Rendered::Failed(output)
            && errors::output_is(
            output,
            Seq::empty(),
            errors::error_text(
                "daemon_service_failed"@,
                cli.output,
                None,
                Some(errors::STILL_RUNNING_HINT@),
            ),
            ExitCode::Failure,
        ),
        Err(_) => failed(rendered, ExitCode::Failure, "daemon_service_failed"@, cli.output),
    }
}

/// What managing the background service leads to.
pub fn after_manage(cli: &Cli, outcome: Result<(), ClientError>, now: &Timestamp) -> (rendered:
    Rendered)
    requires
        names_accepted(cli.command),
    ensures
        manage_concluded(*cli, outcome, *now, rendered),
{
    match outcome {
        Ok(_) => print(cli, ControlResult::Ack, false, now),
        Err(ClientError::InvalidEndpoint) => fail(
            ExitCode::Usage,
            "invalid_control_socket",
            cli.output,
        ),
        Err(ClientError::DaemonStillRunning) => Rendered::Failed(
            errors::error_output_with_options(
                ExitCode::Failure,
                "daemon_service_failed",
                cli.output,
                None,
                Some(errors::STILL_RUNNING_HINT),
            ),
        ),
        Err(_) => fail(ExitCode::Failure, "daemon_service_failed", cli.output),
    }
}

/// What the answer to a request leads to.
pub enum Reply {
    /// Print this.
    Print(Rendered),
    /// Find out whether the service is installed.
    AskInstalled,
}

/// What a request that was not answered leads to.
pub open spec fn unanswered(cli: Cli, error: ClientError, reply: Reply) -> bool {
    match error {
        ClientError::DaemonUnavailable => if cli.command matches Command::Daemon {
            command: DaemonCommand::Status,
        } {
            reply is AskInstalled
        } else {
            reply matches Reply::Print(rendered) && failed(
                rendered,
                ExitCode::DaemonUnavailable,
                "daemon_unavailable"@,
                cli.output,
            )
        },
        ClientError::InvalidEndpoint => reply matches Reply::Print(rendered) && failed(
            rendered,
            ExitCode::Usage,
            "invalid_control_socket"@,
            cli.output,
        ),
        ClientError::DaemonProcess | ClientError::DaemonStillRunning => reply matches Reply::Print(
            rendered,
        ) && failed(rendered, ExitCode::Failure, "daemon_process_failed"@, cli.output),
        ClientError::DaemonProcessOutput(detail) => reply matches Reply::Print(rendered)
            && failed_telling(
            rendered,
            ExitCode::Failure,
            "daemon_process_failed"@,
            cli.output,
            detail@,
        ),
        ClientError::InvalidResponse => reply matches Reply::Print(rendered) && failed(
            rendered,
            ExitCode::ProtocolError,
            "invalid_daemon_response"@,
            cli.output,
        ),
    }
}

/// What a request that was not answered leads to.
pub fn after_failed_send(cli: &Cli, error: ClientError) -> (reply: Reply)
    ensures
        unanswered(*cli, error, reply),
{
    match error {
        ClientError::DaemonUnavailable => {
            if let Command::Daemon { command: DaemonCommand::Status } = &cli.command {
                return Reply::AskInstalled;
            }
            Reply::Print(
                fail(ExitCode::DaemonUnavailable, "daemon_unavailable", cli.output),
            )
        },
        ClientError::InvalidEndpoint => Reply::Print(
            fail(ExitCode::Usage, "invalid_control_socket", cli.output),
        ),
        ClientError::DaemonProcess | ClientError::DaemonStillRunning => Reply::Print(
            fail(ExitCode::Failure, "daemon_process_failed", cli.output),
        ),
        ClientError::DaemonProcessOutput(detail) => Reply::Print(
            Rendered::Failed(
                errors::error_output_with_options(
                    ExitCode::Failure,
                    "daemon_process_failed",
                    cli.output,
                    Some(detail.as_str()),
                    None,
                ),
            ),
        ),
        ClientError::InvalidResponse => Reply::Print(
            fail(ExitCode::ProtocolError, "invalid_daemon_response", cli.output),
        ),
    }
}

/// What is printed when the daemon does not answer a request for its status.
pub open spec fn stopped_printed(installed: bool, format: OutputFormat, rendered: Rendered) -> bool {
    match format {
        OutputFormat::Table => rendered matches Rendered::Document { blocks, stderr, code }
            && document::block_views(blocks@) == seq![
            document::BlockView::Pairs(render::stopped_pairs(installed)),
        ] && stderr@ == Seq::<char>::empty() && code == ExitCode::Success,
        _ => rendered matches Rendered::Failed(output) && output.stderr@ == Seq::<char>::empty()
            && output.code == ExitCode::Success && output.stdout@ == if format
            == OutputFormat::Json {
            if installed {
                "{\"service\":\"installed\",\"status\":\"stopped\"}\n"@
            } else {
                "{\"service\":\"not_installed\",\"status\":\"stopped\"}\n"@
            }
        } else {
            if installed {
                "{\n  \"service\": \"installed\",\n  \"status\": \"stopped\"\n}\n"@
            } else {
                "{\n  \"service\": \"not_installed\",\n  \"status\": \"stopped\"\n}\n"@
            }
        },
    }
}

/// What is printed of a daemon that does not answer, from whether its service is
/// installed.
pub open spec fn installed_concluded(
    cli: Cli,
    installed: Result<bool, ClientError>,
    rendered: Rendered,
) -> bool {
    match installed {
        Ok(installed) => stopped_printed(installed, cli.output, rendered),
        Err(_) => failed(
            rendered,
            ExitCode::DaemonUnavailable,
            "daemon_unavailable"@,
            cli.output,
        ),
    }
}

/// What is printed when the daemon does not answer a request for its status.
pub fn after_installed(cli: &Cli, installed: Result<bool, ClientError>) -> (rendered: Rendered)
    ensures
        installed_concluded(*cli, installed, rendered),
{
    match installed {
        Ok(installed) => match render::render_stopped_service(installed, cli.output) {
            StoppedService::Document(block) => {
                let mut blocks: Vec<document::Block> = Vec::new();
                document::push_block(&mut blocks, block);
                assert(document::block_views(blocks@) =~= seq![block@]);
                Rendered::Document { blocks, stderr: String::new(), code: ExitCode::Success }
            },
            StoppedService::Json(stdout) => Rendered::Failed(
                RunOutput { stdout, stderr: String::new(), code: ExitCode::Success },
            ),
        },
        Err(_) => fail(ExitCode::DaemonUnavailable, "daemon_unavailable", cli.output),
    }
}

/// The response is trusted: it answers this very request, in a version both
/// sides speak, and carries provider error text only where that was asked for
/// and may be displayed. `safe` is its result without unsafe failure texts.
pub open spec fn trusted(
    cli: Cli,
    request_id: Seq<char>,
    diagnose: bool,
    response: ControlResponse,
    safe: ControlResult,
) -> bool {
    &&& response.version == CONTROL_PROTOCOL_VERSION
    &&& response.request_id@ == request_id
    &&& validate::answers(cli.command, safe)
    &&& response.diagnostic matches Some(detail) ==> {
        &&& diagnose
        &&& safe is Error
        &&& cli.command is Auth || cli.command is Probe
        &&& !identity::unsafe_text(detail@)
    }
}

/// The rendered answer with another text on the error stream.
pub open spec fn with_stderr(before: Rendered, stderr: Seq<char>, after: Rendered) -> bool {
    match before {
        Rendered::Failed(output) => after matches Rendered::Failed(changed) && changed.stdout
            == output.stdout && changed.code == output.code && changed.stderr@ == stderr,
        Rendered::Json { result, pretty, code, .. } => after matches Rendered::Json {
            result: same_result,
            pretty: same_pretty,
            stderr: changed,
            code: same_code,
        } && same_result == result && same_pretty == pretty && same_code == code && changed@
            == stderr,
        Rendered::Document { blocks, code, .. } => after matches Rendered::Document {
            blocks: same_blocks,
            stderr: changed,
            code: same_code,
        } && same_blocks == blocks && same_code == code && changed@ == stderr,
    }
}

/// The text on the error stream.
pub open spec fn stderr_of(rendered: Rendered) -> Seq<char> {
    match rendered {
        Rendered::Failed(output) => output.stderr@,
        Rendered::Json { stderr, .. } => stderr@,
        Rendered::Document { stderr, .. } => stderr@,
    }
}

/// The error stream of a trusted answer: the provider's error text, where a
/// refusal comes with one, in what is printed about the refusal, and a warning
/// about an older daemon before it. `own` is the error stream of the answer
/// without them.
pub open spec fn full_stderr(
    own: Seq<char>,
    result: ControlResult,
    diagnostic: Option<String>,
    daemon_version: Option<String>,
    client_version: Seq<char>,
    format: OutputFormat,
) -> Seq<char> {
    let told = match (result, diagnostic) {
        (ControlResult::Error(error), Some(detail)) => errors::detailed_error(
            errors::kind_of(error),
            format,
            None,
            errors::hint_for_refusal(error),
            detail@,
        ),
        _ => own,
    };
    let daemon = validate::optional_view(daemon_version);
    if version::daemon_is_older(daemon, client_version) {
        version::upgrade_warning(
            match daemon {
                Some(reported) => reported,
                None => "unknown, predates version reporting"@,
            },
            client_version,
        ) + "\n"@ + told
    } else {
        told
    }
}

/// What an answer to a request leads to: an untrusted one is a protocol error,
/// and a trusted one is printed as the command asks for.
pub open spec fn concluded(
    cli: Cli,
    request_id: Seq<char>,
    diagnose: bool,
    response: ControlResponse,
    client_version: Seq<char>,
    now: Timestamp,
    rendered: Rendered,
) -> bool {
    exists|safe: ControlResult|
        #[trigger] redact::controls_removed(response.result, safe) && if trusted(
            cli,
            request_id,
            diagnose,
            response,
            safe,
        ) {
            exists|answer: Rendered|
                printed(cli, safe, diagnose, now, answer) && #[trigger] with_stderr(
                    answer,
                    full_stderr(
                        stderr_of(answer),
                        safe,
                        response.diagnostic,
                        response.daemon_version,
                        client_version,
                        cli.output,
                    ),
                    rendered,
                )
        } else {
            failed(
                rendered,
                ExitCode::ProtocolError,
                "invalid_daemon_response"@,
                cli.output,
            )
        }
}

fn own_stderr(rendered: &Rendered) -> (result: &str)
    ensures
        result@ == stderr_of(*rendered),
{
    match rendered {
        Rendered::Failed(output) => output.stderr.as_str(),
        Rendered::Json { stderr, .. } => stderr.as_str(),
        Rendered::Document { stderr, .. } => stderr.as_str(),
    }
}

fn replace_stderr(rendered: Rendered, text: String) -> (result: Rendered)
    ensures
        with_stderr(rendered, text@, result),
{
    match rendered {
        Rendered::Failed(output) => Rendered::Failed(
            RunOutput { stdout: output.stdout, stderr: text, code: output.code },
        ),
        Rendered::Json { result, pretty, code, .. } => Rendered::Json {
            result,
            pretty,
            stderr: text,
            code,
        },
        Rendered::Document { blocks, code, .. } => Rendered::Document { blocks, stderr: text, code },
    }
}

/// Decides what an answer to a request leads to.
pub fn after_answer(
    cli: &Cli,
    request_id: &str,
    diagnose: bool,
    response: ControlResponse,
    client_version: &str,
    now: &Timestamp,
) -> (rendered: Rendered)
    requires
        names_accepted(cli.command),
    ensures
        concluded(*cli, request_id@, diagnose, response, client_version@, *now, rendered),
{
    let ControlResponse { version, request_id: answered, result, diagnostic, daemon_version } =
        response;
    let mut safe = result;
    redact::sanitize_partial_failure_controls(&mut safe);
    assert(redact::controls_removed(response.result, safe));
    let allowed = diagnose && matches!(safe, ControlResult::Error(_)) && matches!(
        cli.command,
        Command::Auth { .. } | Command::Probe(_)
    );
    let diagnostic_trusted = match &diagnostic {
        Some(detail) => allowed && !identity::has_unsafe_character(detail.as_str()),
        None => true,
    };
    if version != CONTROL_PROTOCOL_VERSION || !text::same_text(answered.as_str(), request_id)
        || !validate::response_matches_command(&cli.command, &safe) || !diagnostic_trusted {
        return fail(ExitCode::ProtocolError, "invalid_daemon_response", cli.output);
    }
    let answer = print(cli, safe, diagnose, now);
    let mut stderr = own_stderr(&answer).to_owned();
    if let Some(detail) = &diagnostic {
        stderr = errors::with_diagnostic(stderr.as_str(), detail.as_str(), cli.output);
    }
    let reported: Option<&str> = match &daemon_version {
        Some(reported) => Some(reported.as_str()),
        None => None,
    };
    if let Some(notice) = version::daemon_upgrade_notice(reported, client_version) {
        stderr = text::join3(notice.as_str(), "\n", stderr.as_str());
    }
    let rendered = replace_stderr(answer, stderr);
    assert(with_stderr(
        answer,
        full_stderr(
            stderr_of(answer),
            safe,
            response.diagnostic,
            response.daemon_version,
            client_version@,
            cli.output,
        ),
        rendered,
    ));
    rendered
}

/// What the answer of the daemon leads to, whether there is one or not.
pub fn after_send(
    cli: &Cli,
    request_id: &str,
    diagnose: bool,
    outcome: Result<ControlResponse, ClientError>,
    client_version: &str,
    now: &Timestamp,
) -> (reply: Reply)
    requires
        names_accepted(cli.command),
    ensures
        match outcome {
            Ok(response) => reply matches Reply::Print(rendered) && concluded(
                *cli,
                request_id@,
                diagnose,
                response,
                client_version@,
                *now,
                rendered,
            ),
            Err(error) => unanswered(*cli, error, reply),
        },
{
    match outcome {
        Ok(response) => Reply::Print(
            after_answer(cli, request_id, diagnose, response, client_version, now),
        ),
        Err(error) => after_failed_send(cli, error),
    }
}

/// Carries requests to the daemon, and manages it.
pub trait ControlClient {
    /// Sends a request and waits for its answer.
    fn send(&self, request: &ControlRequest) -> (result: Result<ControlResponse, ClientError>);

    /// Starts a daemon that is no service.
    fn run_daemon(&self) -> (result: Result<(), ClientError>)
        default_ensures
            result == Err::<(), ClientError>(ClientError::DaemonProcess),
    {
        Err(ClientError::DaemonProcess)
    }

    /// Manages the background service.
    fn manage_daemon(&self, action: ServiceAction) -> (result: Result<(), ClientError>)
        default_ensures
            result == Err::<(), ClientError>(ClientError::DaemonProcess),
    {
        Err(ClientError::DaemonProcess)
    }

    /// Whether the background service is installed.
    fn daemon_service_installed(&self) -> (result: Result<bool, ClientError>)
        default_ensures
            result == Err::<bool, ClientError>(ClientError::DaemonProcess),
    {
        Err(ClientError::DaemonProcess)
    }
}

/// How an invocation ends here.
pub enum Conclusion {
    Print(Rendered),
    /// Sign in with a person at the terminal.
    Login { provider: Option<String>, method: Option<AuthMethodArg> },
    /// Open the full-screen view.
    OpenView(TuiArgs),
}

/// The request carries the command under that id.
pub open spec fn carries(
    request: ControlRequest,
    request_id: Seq<char>,
    command: ControlCommand,
    diagnose: bool,
) -> bool {
    &&& request.version == CONTROL_PROTOCOL_VERSION
    &&& request.request_id@ == request_id
    &&& request.command == command
    &&& request.diagnostics == diagnose
}

/// The request was sent, that came of it, and the invocation ends so.
pub open spec fn sent_and_concluded<C: ControlClient>(
    cli: Cli,
    client: &C,
    request: ControlRequest,
    outcome: Result<ControlResponse, ClientError>,
    client_version: Seq<char>,
    now: Timestamp,
    rendered: Rendered,
) -> bool {
    &&& call_ensures(C::send, (client, &request), outcome)
    &&& match outcome {
        Ok(response) => concluded(
            cli,
            request.request_id@,
            request.diagnostics,
            response,
            client_version,
            now,
            rendered,
        ),
        Err(error) => exists|reply: Reply| #[trigger]
            unanswered(cli, error, reply) && match reply {
                Reply::Print(answer) => rendered == answer,
                Reply::AskInstalled => exists|installed: Result<bool, ClientError>|
                    call_ensures(C::daemon_service_installed, (client,), installed)
                        && #[trigger] installed_concluded(cli, installed, rendered),
            },
    }
}

/// The invocation, which starts with that step, ends so: what is asked of the
/// client is what the step says, and what it answers decides what is printed,
/// at the time the clock shows then.
pub open spec fn follows_through<C: ControlClient, K: Fn() -> Timestamp>(
    cli: Cli,
    client: &C,
    clock: K,
    step: Step,
    request_id: Seq<char>,
    client_version: Seq<char>,
    conclusion: Conclusion,
) -> bool {
    match step {
        Step::Finish(output) => conclusion == Conclusion::Print(Rendered::Failed(output)),
        Step::Login { provider, method } => conclusion == (Conclusion::Login { provider, method }),
        Step::OpenView(args) => conclusion == Conclusion::OpenView(args),
        Step::RunDaemon => conclusion matches Conclusion::Print(rendered) && exists|
            outcome: Result<(), ClientError>,
            now: Timestamp,
        |
            {
                &&& call_ensures(C::run_daemon, (client,), outcome)
                &&& clock.ensures((), now)
                &&& #[trigger] run_concluded(cli, outcome, now, rendered)
            },
        Step::Manage(action) => conclusion matches Conclusion::Print(rendered) && exists|
            outcome: Result<(), ClientError>,
            now: Timestamp,
        |
            {
                &&& call_ensures(C::manage_daemon, (client, action), outcome)
                &&& clock.ensures((), now)
                &&& #[trigger] manage_concluded(cli, outcome, now, rendered)
            },
        Step::Send { command, diagnose } => conclusion matches Conclusion::Print(rendered)
            && exists|
            request: ControlRequest,
            outcome: Result<ControlResponse, ClientError>,
            now: Timestamp,
        |
            {
                &&& carries(request, request_id, command, diagnose)
                &&& clock.ensures((), now)
                &&& #[trigger] sent_and_concluded(
                    cli,
                    client,
                    request,
                    outcome,
                    client_version,
                    now,
                    rendered,
                )
            },
    }
}

/// Does what a parsed invocation asks for. `code` is what the environment
/// variable holds that the command names for the authorization code, and
/// `environment` tells whether the environment asks for diagnostics.
pub fn execute_with<C: ControlClient, K: Fn() -> Timestamp>(
    cli: &Cli,
    client: &C,
    clock: K,
    code: &Option<String>,
    environment: bool,
    request_id: &str,
    client_version: &str,
) -> (conclusion: Conclusion)
    requires
        names_provider(cli.command),
        clock.requires(()),
    ensures
        exists|step: Step| #[trigger]
            starts_with(*cli, *code, environment, step) && follows_through(
                *cli,
                client,
                clock,
                step,
                request_id@,
                client_version@,
                conclusion,
            ),
{
    let step = plan(cli, code, environment);
    let ghost started = step;
    let conclusion = match step {
        Step::Finish(output) => Conclusion::Print(Rendered::Failed(output)),
        Step::Login { provider, method } => Conclusion::Login { provider, method },
        Step::OpenView(args) => Conclusion::OpenView(args),
        Step::RunDaemon => {
            let outcome = client.run_daemon();
            let now = clock();
            let rendered = after_run(cli, outcome, &now);
            assert(run_concluded(*cli, outcome, now, rendered));
            Conclusion::Print(rendered)
        },
        Step::Manage(action) => {
            let outcome = client.manage_daemon(action);
            let now = clock();
            let rendered = after_manage(cli, outcome, &now);
            assert(manage_concluded(*cli, outcome, now, rendered));
            Conclusion::Print(rendered)
        },
        Step::Send { command, diagnose } => {
            let request = control_request(request_id, command, diagnose);
            let outcome = client.send(&request);
            let now = clock();
            let reply = after_send(cli, request_id, diagnose, outcome, client_version, &now);
            let rendered = match reply {
                Reply::Print(rendered) => rendered,
                Reply::AskInstalled => {
                    let installed = client.daemon_service_installed();
                    let rendered = after_installed(cli, installed);
                    assert(installed_concluded(*cli, installed, rendered));
                    rendered
                },
            };
            assert(carries(request, request_id@, command, diagnose));
            assert(sent_and_concluded(
                *cli,
                client,
                request,
                outcome,
                client_version@,
                now,
                rendered,
            ));
            Conclusion::Print(rendered)
        },
    };
    assert(starts_with(*cli, *code, environment, started));
    conclusion
}

/// Nothing a person typed reaches the daemon while it holds an unsafe character
/// or a metric name no filter accepts.
pub proof fn unsafe_commands_are_never_sent(
    cli: Cli,
    code: Option<String>,
    environment: bool,
    step: Step,
)
    requires
        starts_with(cli, code, environment, step),
        validate::unsafe_parameter(cli.command, code) is Some || !names_accepted(cli.command),
    ensures
        step matches Step::Finish(output) && output.code == ExitCode::Usage && output.stdout@
            == Seq::<char>::empty(),
{
}

/// An answer with an unsafe character in anything but the texts of its failures
/// is a protocol error, whatever the command was.
pub proof fn unsafe_answers_are_protocol_errors(
    cli: Cli,
    request_id: Seq<char>,
    diagnose: bool,
    response: ControlResponse,
    client_version: Seq<char>,
    now: Timestamp,
    rendered: Rendered,
)
    requires
        concluded(cli, request_id, diagnose, response, client_version, now, rendered),
        forall|safe: ControlResult|
            #[trigger] redact::controls_removed(response.result, safe)
                ==> crate::inspect::unsafe_result(safe),
    ensures
        failed(rendered, ExitCode::ProtocolError, "invalid_daemon_response"@, cli.output),
{
}

/// An answer to another request, in another version, or with provider error text
/// that was not asked for is a protocol error, and nothing of it is printed.
pub proof fn unsolicited_answers_are_protocol_errors(
    cli: Cli,
    request_id: Seq<char>,
    diagnose: bool,
    response: ControlResponse,
    client_version: Seq<char>,
    now: Timestamp,
    rendered: Rendered,
)
    requires
        concluded(cli, request_id, diagnose, response, client_version, now, rendered),
        response.version != CONTROL_PROTOCOL_VERSION || response.request_id@ != request_id || (
        response.diagnostic is Some && (!diagnose || !(cli.command is Auth || cli.command is Probe))
        ),
    ensures
        failed(rendered, ExitCode::ProtocolError, "invalid_daemon_response"@, cli.output),
{
}

} // verus!
