//! How the daemon is reached, watched and started.

use vstd::prelude::*;

use crate::errors::{ClientError, ServiceAction};
use crate::inspect;
use crate::laws::texts;
use crate::protocol::{ControlCommand, ControlResponse, ControlResult};
use crate::redact;
use crate::service;
use crate::service::FileFacts;
use crate::text;
use crate::transport;
use crate::transport::{
    DaemonProgram, DaemonReadiness, LaunchStep, LogAttempt, ManageOutcome, ManageStep, PipeStep,
    Poll, SystemClient,
};
use crate::usage::Timestamp;
use crate::validate;

verus! {

/// The socket is the one that is configured, else the one in the runtime directory,
/// else the one below this user's own directory of the temporary ones.
pub proof fn sockets_are_found_in_order(
    configured: Option<String>,
    runtime: Option<String>,
    temporary: &str,
    user: u32,
    client: SystemClient,
)
    requires
        SystemClient::uses_socket(configured, runtime, temporary, user, client),
    ensures
        client.endpoint is Some,
        configured is Some ==> client.endpoint->0@ == configured->0@,
        configured is None && runtime is Some ==> client.endpoint->0@ == service::below(
            runtime->0@,
            "ullage/control.sock"@,
        ),
        configured is None && runtime is None ==> client.endpoint->0@ == service::below(
            service::below(temporary@, "ullage-"@ + text::decimal_digits(user as nat)),
            "control.sock"@,
        ),
{
}

/// The logs of a start stand below the runtime directory, and else below this
/// user's own directory of the temporary ones.
pub proof fn logs_stand_beside_the_socket(
    runtime: Option<Seq<char>>,
    temporary: Seq<char>,
    user: u32,
)
    ensures
        runtime is Some ==> transport::log_directory(runtime, temporary, user) == service::below(
            runtime->0,
            "ullage"@,
        ),
        runtime is None ==> transport::log_directory(runtime, temporary, user) == service::below(
            temporary,
            "ullage-"@ + text::decimal_digits(user as nat),
        ),
{
}

/// A pipe is on this machine exactly when its path starts with the name of the local
/// machine and of the pipes, in any case.
pub proof fn local_pipes_start_with_the_local_name(path: Seq<char>)
    ensures
        transport::local_pipe(path) <==> path.len() >= 9 && texts::same_word(
            path.take(9),
            seq!['\\', '\\', '.', '\\', 'p', 'i', 'p', 'e', '\\'],
        ),
{
    reveal_strlit("\\\\.\\pipe\\");
    let prefix = "\\\\.\\pipe\\"@;
    assert(prefix =~= seq!['\\', '\\', '.', '\\', 'p', 'i', 'p', 'e', '\\']);
    if path.len() >= 9 {
        texts::case_alone_is_ignored(path.take(9), prefix);
    }
}

/// The pipe is the one that is configured, else the one of this user, and none that
/// is not on this machine.
pub proof fn pipes_are_local(configured: Option<String>, scope: Option<&str>, client: SystemClient)
    requires
        SystemClient::uses_pipe(configured, scope, client),
    ensures
        configured is Some ==> (client.endpoint is Some <==> transport::local_pipe(configured->0@)),
        configured is Some && client.endpoint is Some ==> client.endpoint->0@ == configured->0@,
        configured is None && scope is None ==> client.endpoint is None,
        configured is None && scope is Some && client.endpoint is Some ==> client.endpoint->0@
            == "\\\\.\\pipe\\ullage-"@ + scope->0@,
        configured is None && scope is Some ==> client.endpoint is Some,
        client.endpoint is Some ==> transport::local_pipe(client.endpoint->0@),
{
    if configured is None && scope is Some {
        reveal_strlit("\\\\.\\pipe\\ullage-");
        reveal_strlit("\\\\.\\pipe\\");
        let path = "\\\\.\\pipe\\ullage-"@ + scope->0@;
        local_pipes_start_with_the_local_name(path);
        assert(path.take(9) =~= seq!['\\', '\\', '.', '\\', 'p', 'i', 'p', 'e', '\\']);
        assert(texts::same_word(path.take(9), path.take(9)));
        assert(transport::local_pipe(path));
    }
}

/// Nobody but the owner may do anything: the last two digits of the mode, in octal,
/// are zero.
pub proof fn private_modes_end_in_zeros(mode: u32)
    ensures
        transport::private_mode(mode) <==> mode % 64 == 0,
{
    assert(mode & 0o077 == 0 <==> mode % 64 == 0) by (bit_vector);
}

/// A socket is used only by an absolute path, where it is a socket of this user's
/// own, behind no link, that nobody else may use; so is the directory of the logs,
/// and a peer only where it runs as this user.
pub proof fn endpoints_belong_to_the_user(
    absolute: bool,
    found: Option<FileFacts>,
    user: u32,
    peer: Option<u32>,
    same: Option<bool>,
)
    ensures
        transport::socket_checked(absolute, found, user) == Ok::<(), ClientError>(()) <==> absolute
            && found is Some && found->0.socket && !found->0.link && found->0.owner == user
            && found->0.mode % 64 == 0,
        !absolute ==> transport::socket_checked(absolute, found, user) == Err::<(), ClientError>(
            ClientError::InvalidEndpoint,
        ),
        absolute && transport::socket_checked(absolute, found, user) is Err
            ==> transport::socket_checked(absolute, found, user) == Err::<(), ClientError>(
            ClientError::DaemonUnavailable,
        ),
        transport::log_directory_checked(found, user) is Ok <==> found is Some && found->0.directory
            && !found->0.link && found->0.owner == user && found->0.mode % 64 == 0,
        transport::log_directory_checked(found, user) is Err ==> transport::log_directory_checked(
            found,
            user,
        ) == Err::<(), ClientError>(ClientError::DaemonProcess),
        transport::peer_checked(peer, user) is Ok <==> peer is Some && peer->0 == user,
        transport::peer_checked(peer, user) is Err ==> transport::peer_checked(peer, user)
            == Err::<(), ClientError>(ClientError::InvalidResponse),
        transport::server_checked(same) is Ok <==> same is Some && same->0,
        transport::server_checked(same) is Err ==> transport::server_checked(same) == Err::<
            (),
            ClientError,
        >(ClientError::InvalidResponse),
{
    if found is Some {
        private_modes_end_in_zeros(found->0.mode);
    }
}

/// An answer may take half a minute, a completed sign-in a minute and a half, and a
/// probe that is waited for five minutes.
pub proof fn answers_may_take_their_time(command: ControlCommand)
    ensures
        command is CompleteAuth ==> transport::answer_timeout(command) == 90,
        command matches ControlCommand::Probe { wait, .. } ==> transport::answer_timeout(command)
            == if wait {
            300u64
        } else {
            30
        },
        !(command is CompleteAuth) && !(command is Probe) ==> transport::answer_timeout(command)
            == 30,
{
}

/// A reply has ended at its newline, and none of more than a mebibyte is taken. From
/// a pipe no more is read than it holds, and never more than one byte beyond that;
/// a late pipe or a broken one is no daemon's, and an empty one is waited for.
pub proof fn replies_end_at_a_newline(bytes: Seq<u8>, late: bool, available: Option<u32>)
    ensures
        transport::acceptable_reply(bytes) <==> 0 < bytes.len() <= 1048576 && bytes[bytes.len() - 1]
            == 10,
        transport::unfinished(bytes) <==> bytes.len() <= 1048576 && (bytes.len() == 0
            || bytes[bytes.len() - 1] != 10),
        late || available is None ==> transport::pipe_follows(bytes, late, available)
            == PipeStep::Fail(ClientError::DaemonUnavailable),
        !late && available == Some(0u32) ==> transport::pipe_follows(bytes, late, available)
            is Sleep,
        !late && available is Some && available->0 > 0 && bytes.len() > 1048576
            ==> transport::pipe_follows(bytes, late, available) == PipeStep::Fail(
            ClientError::InvalidResponse,
        ),
        !late && available is Some && available->0 > 0 && bytes.len() <= 1048576 ==> (
        transport::pipe_follows(bytes, late, available) matches PipeStep::Read(count) && 0 < count
            <= available->0 && bytes.len() + count <= 1048577 && (count == available->0
            || bytes.len() + count == 1048577)),
{
}

/// A daemon is ready where it answers this very request, in this version of the
/// protocol, with its status, whole and safe, and does not shut down; where it speaks
/// another version or shuts down it is not ready yet; any other answer is none, and
/// without an answer there is no daemon.
pub proof fn readiness_is_what_the_status_shows(
    outcome: Result<ControlResponse, ClientError>,
    request_id: Seq<char>,
)
    ensures
        ({
            let readiness = transport::readiness_of(outcome, request_id);
            &&& readiness == Ok::<DaemonReadiness, ClientError>(DaemonReadiness::Ready) <==> (
            outcome matches Ok(response) && response.request_id@ == request_id && response.version
                == 1 && !inspect::unsafe_result(response.result) && (response.result matches
                ControlResult::DaemonStatus(status) && !status.shutting_down
                && validate::well_formed_status(status.accounts@)))
            &&& readiness == Ok::<DaemonReadiness, ClientError>(DaemonReadiness::Unavailable)
                <==> outcome == Err::<ControlResponse, ClientError>(ClientError::DaemonUnavailable)
            &&& readiness == Ok::<DaemonReadiness, ClientError>(DaemonReadiness::NotReady) <==> (
            outcome matches Ok(response) && response.request_id@ == request_id && (response.result
                is ProtocolMismatch || response.version == 1 && (response.result matches
                ControlResult::DaemonStatus(status) && status.shutting_down)))
            &&& outcome matches Ok(response) ==> (response.request_id@ != request_id ==> readiness
                == Err::<DaemonReadiness, ClientError>(ClientError::InvalidResponse))
            &&& outcome matches Ok(_) ==> (readiness is Err ==> readiness == Err::<
                DaemonReadiness,
                ClientError,
            >(ClientError::InvalidResponse))
            &&& outcome matches Err(error) ==> (error != ClientError::DaemonUnavailable
                ==> readiness == Err::<DaemonReadiness, ClientError>(error))
            &&& outcome matches Ok(response) ==> transport::readiness_told(response, request_id)
                == readiness
            &&& transport::ready_of(readiness) == (match readiness {
                Ok(ready) => Ok::<bool, ClientError>(ready is Ready),
                Err(error) => Err(error),
            })
        }),
{
}

/// A look at the daemon ends where it shows what was waited for: that somebody
/// serves the endpoint or nobody does, that the daemon is ready, that it is gone. It
/// fails at once where the look fails, and goes on else, as long as there is time.
pub proof fn looks_end_with_what_is_waited_for(
    readiness: Result<DaemonReadiness, ClientError>,
    remaining: u64,
)
    ensures
        ({
            let served = transport::endpoint_polled(readiness, remaining);
            let ready = transport::ready_polled(readiness, remaining);
            let stopped = transport::stopped_polled(readiness, remaining);
            &&& readiness matches Ok(DaemonReadiness::Ready) ==> served == Poll::Over(Ok(true))
                && ready == Poll::Over(Ok(true))
            &&& readiness matches Ok(DaemonReadiness::Unavailable) ==> served == Poll::Over(
                Ok(false),
            ) && stopped == Poll::Over(Ok(true))
            &&& readiness matches Err(error) ==> served == Poll::Over(Err(error)) && ready
                == Poll::Over(Err(error)) && stopped == Poll::Over(Err(error))
            &&& readiness matches Ok(DaemonReadiness::NotReady) ==> if remaining > 0 {
                served is Again && ready is Again && stopped is Again
            } else {
                served == Poll::Over(Err(ClientError::DaemonStillRunning)) && ready == Poll::Over(
                    Err(ClientError::DaemonProcess),
                ) && stopped == Poll::Over(Err(ClientError::DaemonProcess))
            }
            &&& readiness matches Ok(DaemonReadiness::Unavailable) ==> if remaining > 0 {
                ready is Again
            } else {
                ready == Poll::Over(Err(ClientError::DaemonProcess))
            }
            &&& readiness matches Ok(DaemonReadiness::Ready) ==> if remaining > 0 {
                stopped is Again
            } else {
                stopped == Poll::Over(Err(ClientError::DaemonProcess))
            }
        }),
        transport::budget_of(remaining) <= remaining,
        transport::budget_of(remaining) <= 250000000,
        transport::budget_of(remaining) == remaining || transport::budget_of(remaining)
            == 250000000,
{
}

/// A launched daemon is probed while it runs and has started when it is ready; one
/// that has ended, or is not ready in time, failed with what it said last.
pub proof fn launches_end_ready_or_told(
    exited: Option<bool>,
    ready: Result<bool, ClientError>,
    remaining: u64,
    step: LaunchStep,
    tail: &str,
    failure: Option<ClientError>,
)
    requires
        transport::launch_failed(step, tail, failure),
    ensures
        exited == Some(true) ==> transport::after_exit_check(exited) is Exited,
        exited == Some(false) ==> transport::after_exit_check(exited) is Probe,
        exited is None ==> (transport::after_exit_check(exited) matches LaunchStep::Fail {
            error,
            kill,
        } && error is DaemonProcess && !kill),
        ready == Ok::<bool, ClientError>(true) <==> transport::after_launch_probe(ready, remaining)
            is Ready,
        ready == Ok::<bool, ClientError>(false) && remaining > 0 <==> transport::after_launch_probe(
            ready,
            remaining,
        ) is Sleep,
        ready == Ok::<bool, ClientError>(false) && remaining == 0
            <==> transport::after_launch_probe(ready, remaining) is Overdue,
        ready matches Err(error) ==> transport::after_launch_probe(ready, remaining) == (
        LaunchStep::Fail { error, kill: true }),
        step is Exited ==> (failure matches Some(ClientError::DaemonProcessOutput(report))
            && text::has_prefix(report@, "daemon exited during startup"@)),
        step is Overdue ==> (failure matches Some(ClientError::DaemonProcessOutput(report))
            && text::has_prefix(report@, "daemon did not become ready in time"@)),
        step matches LaunchStep::Fail { error, .. } ==> failure == Some(error),
        step is CheckExit || step is Probe || step is Sleep || step is Ready ==> failure is None,
{
    let exited = "daemon exited during startup"@;
    let overdue = "daemon did not become ready in time"@;
    let words = redact::sanitized(text::trimmed(tail@));
    let more = "; daemon stderr: "@ + words;
    let none = Seq::<char>::empty();
    texts::prefixes_and_suffixes_come_off(exited, exited, more);
    texts::prefixes_and_suffixes_come_off(exited, exited, none);
    texts::prefixes_and_suffixes_come_off(overdue, overdue, more);
    texts::prefixes_and_suffixes_come_off(overdue, overdue, none);
    assert(exited + none =~= exited);
    assert(overdue + none =~= overdue);
    assert(exited + "; daemon stderr: "@ + words =~= exited + more);
    assert(overdue + "; daemon stderr: "@ + words =~= overdue + more);
}

/// A failed start tells its reason, and behind it what the daemon said last, where
/// it said anything.
pub proof fn failed_starts_tell_what_was_said(tail: Seq<char>, reason: Seq<char>)
    ensures
        redact::sanitized(text::trimmed(tail)).len() == 0 ==> transport::launch_report(tail, reason)
            == reason,
        redact::sanitized(text::trimmed(tail)).len() > 0 ==> transport::launch_report(tail, reason)
            == reason + "; daemon stderr: "@ + redact::sanitized(text::trimmed(tail)),
{
}

/// Of a log the last eight kibibytes are told; a log of a start is old after a day;
/// and a name for one is looked for eight times.
pub proof fn logs_are_kept_short(
    length: u64,
    now: Timestamp,
    name: Seq<char>,
    modified: Option<Timestamp>,
    attempt: u32,
    outcome: LogAttempt,
)
    ensures
        length <= 8192 ==> transport::tail_from(length) == 0,
        length > 8192 ==> length - transport::tail_from(length) == 8192,
        now.seconds - 86400 >= i64::MIN ==> texts::moment(transport::cutoff_of(now))
            == texts::moment(now) - 86400000000000,
        transport::stale_log(name, modified, transport::cutoff_of(now)) <==> text::has_prefix(
            name,
            "daemon-error-"@,
        ) && text::has_suffix(name, ".log"@) && modified is Some && modified->0.earlier_than(
            transport::cutoff_of(now),
        ),
        outcome is Created ==> transport::log_attempted(attempt, outcome) is None,
        outcome is Taken && attempt < 7 ==> transport::log_attempted(attempt, outcome) == Some(
            Ok::<(), ClientError>(()),
        ),
        outcome is Taken && attempt >= 7 || outcome is Refused ==> transport::log_attempted(
            attempt,
            outcome,
        ) == Some(Err::<(), ClientError>(ClientError::DaemonProcess)),
{
}

/// The name of a log tells the process, the time and the number of the log.
pub proof fn log_names_tell_their_start(process: u32, nanos: u128, sequence: u64)
    ensures
        transport::log_name(process, nanos, sequence) == "daemon-error-"@ + text::decimal_digits(
            process as nat,
        ) + "-"@ + text::decimal_digits(nanos as nat) + "-"@ + text::decimal_digits(sequence as nat)
            + ".log"@,
{
}

/// The daemon is the program that is configured; else this very program, with the
/// argument for it, where it is the one with everything in it; else its own program
/// beside this one.
pub proof fn daemons_are_found_in_order(
    configured: bool,
    located: bool,
    stem: Option<&str>,
    windows: bool,
    result: Result<DaemonProgram, ClientError>,
)
    requires
        transport::daemon_started_as(configured, located, stem, windows, result),
    ensures
        configured ==> result == Ok::<DaemonProgram, ClientError>(DaemonProgram::Configured),
        !configured && !located ==> result == Err::<DaemonProgram, ClientError>(
            ClientError::DaemonProcess,
        ),
        !configured && located ==> {
            let whole = stem is Some && texts::same_word(stem->0@, "ullage"@);
            &&& whole ==> (result matches Ok(DaemonProgram::Itself(argument)) && argument@
                == "__daemon"@)
            &&& !whole && windows ==> (result matches Ok(DaemonProgram::Beside(name)) && name@
                == "ullage-daemon.exe"@)
            &&& !whole && !windows ==> (result matches Ok(DaemonProgram::Beside(name)) && name@
                == "ullage-daemon"@)
        },
{
    if stem is Some {
        texts::case_alone_is_ignored(stem->0@, "ullage"@);
    }
}

/// A start that succeeds found the service installed, and then either a daemon that
/// answers already, or it started the service and waited for it; it stops, installs
/// and removes nothing.
pub proof fn starting_the_service_asks_then_starts(
    steps: Seq<ManageStep>,
    outcomes: Seq<ManageOutcome>,
)
    requires
        transport::manages(ServiceAction::Start, steps, outcomes),
        steps.last() == ManageStep::Finish(Ok(())),
    ensures
        steps.len() == 3 || steps.len() == 5,
        steps[0] is AskInstalled,
        outcomes[0] == ManageOutcome::Service(Ok(true)),
        steps[1] is AwaitEndpoint,
        steps.len() == 3 ==> outcomes[1] == ManageOutcome::Waited(Ok(true)),
        steps.len() == 5 ==> outcomes[1] == ManageOutcome::Waited(Ok(false)) && steps[2]
            is StartService && (outcomes[2] matches ManageOutcome::Service(Ok(_))) && steps[3]
            is AwaitReady && (outcomes[3] matches ManageOutcome::Waited(Ok(_))),
{
    assert(transport::manage_fits(steps[0], outcomes[0]));
    assert(steps[1] == transport::manage_next(steps[0], outcomes[0]));
    if outcomes.len() > 1 {
        assert(transport::manage_fits(steps[1], outcomes[1]));
        assert(steps[2] == transport::manage_next(steps[1], outcomes[1]));
        if outcomes.len() > 2 {
            assert(transport::manage_fits(steps[2], outcomes[2]));
            assert(steps[3] == transport::manage_next(steps[2], outcomes[2]));
            if outcomes.len() > 3 {
                assert(transport::manage_fits(steps[3], outcomes[3]));
                assert(steps[4] == transport::manage_next(steps[3], outcomes[3]));
                if outcomes.len() > 4 {
                    assert(transport::manage_fits(steps[4], outcomes[4]));
                }
            }
        }
    }
}

/// A stop that succeeds stopped the service and waited for the daemon to go, or
/// found that there was nothing to stop and no daemon; it starts, installs and
/// removes nothing. A removal does the same first, and then removes the service.
pub proof fn stopping_the_service_waits_for_the_daemon_to_go(
    action: ServiceAction,
    steps: Seq<ManageStep>,
    outcomes: Seq<ManageOutcome>,
)
    requires
        action is Stop || action is Uninstall,
        transport::manages(action, steps, outcomes),
        steps.last() == ManageStep::Finish(Ok(())),
    ensures
        action is Stop ==> steps.len() == 3,
        action is Uninstall ==> steps.len() == 4 && steps[2] is Uninstall && (outcomes[2] matches
            ManageOutcome::Service(Ok(_))),
        steps[0] == (ManageStep::StopService { action }),
        outcomes[0] == ManageOutcome::Service(Ok(true)) && steps[1] == (ManageStep::AwaitStopped {
            action,
        }) && (outcomes[1] matches ManageOutcome::Waited(Ok(_))) || outcomes[0]
            == ManageOutcome::Service(Ok(false)) && steps[1] == (ManageStep::ProbeEndpoint {
            action,
        }) && outcomes[1] == ManageOutcome::Probed(Ok(DaemonReadiness::Unavailable)),
{
    assert(transport::manage_fits(steps[0], outcomes[0]));
    assert(steps[1] == transport::manage_next(steps[0], outcomes[0]));
    if outcomes.len() > 1 {
        assert(transport::manage_fits(steps[1], outcomes[1]));
        assert(steps[2] == transport::manage_next(steps[1], outcomes[1]));
        if outcomes.len() > 2 {
            assert(transport::manage_fits(steps[2], outcomes[2]));
            assert(steps[3] == transport::manage_next(steps[2], outcomes[2]));
            if outcomes.len() > 3 {
                assert(transport::manage_fits(steps[3], outcomes[3]));
            }
        }
    }
}

/// A failure on the way ends the run with it: that of a wait or a probe as it is,
/// and that of the service manager as the daemon's; and a daemon that still answers
/// though nothing was stopped ends it too.
pub proof fn failures_end_the_run(step: ManageStep, outcome: ManageOutcome)
    requires
        transport::manage_fits(step, outcome),
    ensures
        outcome matches ManageOutcome::Waited(Err(error)) ==> transport::manage_next(step, outcome)
            == ManageStep::Finish(Err(error)),
        outcome matches ManageOutcome::Probed(Err(error)) ==> transport::manage_next(step, outcome)
            == ManageStep::Finish(Err(error)),
        outcome matches ManageOutcome::Service(Err(_)) ==> transport::manage_next(step, outcome)
            == ManageStep::Finish(Err(ClientError::DaemonProcess)),
        step is ProbeEndpoint ==> (outcome matches ManageOutcome::Probed(Ok(readiness)) ==> (
        readiness != DaemonReadiness::Unavailable ==> transport::manage_next(step, outcome)
            == ManageStep::Finish(Err(ClientError::DaemonStillRunning)))),
        step is AskInstalled && outcome == ManageOutcome::Service(Ok(false))
            ==> transport::manage_next(step, outcome) == ManageStep::Finish(
            Err(ClientError::DaemonProcess),
        ),
{
}

/// Where the time a day ago cannot be told, the epoch stands in for it.
pub proof fn the_epoch_stands_in_for_a_day_ago(now: Timestamp)
    ensures
        now.seconds - 86400 < i64::MIN ==> transport::cutoff_of(now) == (Timestamp {
            seconds: 0,
            nanos: 0,
        }),
{
}

} // verus!
