use ullage::errors::{ClientError, ServiceAction};
use ullage::protocol::{
    AccountId, AccountStatusPayload, AuthCompleteRequest, ControlCommand, ControlRequest,
    ControlResponse, ControlResult, CredentialBackendId, DaemonStatusPayload,
    CONTROL_PROTOCOL_VERSION,
};
use ullage::provider::ProviderId;
use ullage::service::FileFacts;
use ullage::transport::{
    after_log_attempt, classify_readiness_response, daemon_command, daemon_error_log_directory,
    daemon_error_log_name, daemon_is_ready, daemon_process_failure, daemon_readiness,
    default_unix_control_socket, endpoint_poll, ensure_daemon_log_directory, exit_checked,
    first_manage_step, is_local_windows_pipe, launch_failure, launch_probed, log_is_stale,
    next_manage_step, poll_budget, ready_poll, request_line, send_timeout, stopped_poll,
    sweep_cutoff, tail_start, token_words, validate_private_unix_socket, validate_unix_peer,
    validate_windows_pipe_server, DaemonProgram,
    DaemonReadiness, LaunchStep, LogAttempt, ManageOutcome, ManageStep, PipeStep, Poll, Reply, SystemClient,
    CONTROL_TIMEOUT, MAX_RESPONSE_BYTES, POLL_BUDGET, PROBE_WAIT_TIMEOUT, SIGN_IN_TIMEOUT,
};
use ullage::usage::Timestamp;

fn request(command: ControlCommand) -> ControlRequest {
    ControlRequest {
        version: CONTROL_PROTOCOL_VERSION,
        request_id: "t".into(),
        command,
        diagnostics: false,
    }
}

fn status(shutting_down: bool) -> ControlResult {
    ControlResult::DaemonStatus(DaemonStatusPayload {
        shutting_down,
        accounts: Vec::new(),
        credential_backend: CredentialBackendId::LinuxSecretService,
    })
}

fn response(request_id: &str, result: ControlResult) -> ControlResponse {
    ControlResponse {
        version: CONTROL_PROTOCOL_VERSION,
        request_id: request_id.into(),
        result,
        diagnostic: None,
        daemon_version: None,
    }
}

fn unready_results() -> Vec<ControlResult> {
    vec![
        status(true),
        ControlResult::ProtocolMismatch {
            supported_version: CONTROL_PROTOCOL_VERSION,
        },
    ]
}

fn stop_probe_recognizes() {
    for result in unready_results() {
        assert_eq!(
            classify_readiness_response(&response("stop-probe", result), "stop-probe").unwrap(),
            DaemonReadiness::NotReady
        );
    }
}

#[test]
fn transport_stop_probe_recognizes_authenticated_non_ready_daemons() {
    stop_probe_recognizes();
}

#[test]
fn transport_tests_stop_probe_recognizes_authenticated_non_ready_daemons() {
    stop_probe_recognizes();
}

fn probe_reads_are_bounded() {
    let probe = request(ControlCommand::Probe {
        account_id: "grok-a".into(),
        wait: true,
    });
    assert_eq!(send_timeout(&probe), PROBE_WAIT_TIMEOUT);
    assert!(PROBE_WAIT_TIMEOUT > SIGN_IN_TIMEOUT);

    let sign_in = request(ControlCommand::CompleteAuth {
        provider: ProviderId::new("grok"),
        account: AccountId::new("grok-a"),
        request: AuthCompleteRequest {
            flow_id: "f".into(),
            authorization_code: None,
            redirect_uri: None,
        },
    });
    assert_eq!(send_timeout(&sign_in), SIGN_IN_TIMEOUT);

    let control = request(ControlCommand::ListProviders);
    assert_eq!(send_timeout(&control), CONTROL_TIMEOUT);
}

#[test]
fn transport_probe_reads_are_bounded_above_the_sign_in_timeout() {
    probe_reads_are_bounded();
}

#[test]
fn transport_tests_probe_reads_are_bounded_above_the_sign_in_timeout() {
    probe_reads_are_bounded();
}

fn relative_path_is_an_endpoint_error() {
    let client = SystemClient::for_socket(
        Some("relative/control.sock".into()),
        None,
        "/tmp",
        1000,
    );
    assert_eq!(client.endpoint.as_deref(), Some("relative/control.sock"));
    let error = validate_private_unix_socket(false, None, 1000).unwrap_err();
    assert!(matches!(error, ClientError::InvalidEndpoint));
}

#[test]
fn transport_relative_socket_path_is_an_endpoint_error_not_a_protocol_error() {
    relative_path_is_an_endpoint_error();
}

#[test]
fn transport_tests_relative_socket_path_is_an_endpoint_error_not_a_protocol_error() {
    relative_path_is_an_endpoint_error();
}

#[test]
fn a_probe_that_does_not_wait_is_an_ordinary_request() {
    let probe = request(ControlCommand::Probe {
        account_id: "a".into(),
        wait: false,
    });
    assert_eq!(send_timeout(&probe), 30);
}

#[test]
fn transport_readiness_rejects_stopping_and_protocol_mismatch_responses() {
    for result in unready_results() {
        let readiness = daemon_readiness(Ok(response("r", result)), "r");
        assert!(matches!(daemon_is_ready(readiness), Ok(false)));
    }
}

#[test]
fn readiness_tells_ready_unready_unavailable_and_invalid_apart() {
    assert_eq!(
        daemon_readiness(Ok(response("r", status(false))), "r").unwrap(),
        DaemonReadiness::Ready
    );
    assert_eq!(
        daemon_readiness(Err(ClientError::DaemonUnavailable), "r").unwrap(),
        DaemonReadiness::Unavailable
    );
    assert!(matches!(
        daemon_readiness(Err(ClientError::InvalidEndpoint), "r"),
        Err(ClientError::InvalidEndpoint)
    ));
    assert!(matches!(
        daemon_readiness(Ok(response("other", status(false))), "r"),
        Err(ClientError::InvalidResponse)
    ));
    assert!(matches!(
        daemon_readiness(Ok(response("r", ControlResult::Ack)), "r"),
        Err(ClientError::InvalidResponse)
    ));
    let mut newer = response("r", status(false));
    newer.version = CONTROL_PROTOCOL_VERSION + 1;
    assert!(matches!(
        daemon_readiness(Ok(newer), "r"),
        Err(ClientError::InvalidResponse)
    ));
}

#[test]
fn a_status_that_does_not_add_up_is_not_ready() {
    let account = |id: &str, has_snapshot: bool, stale: bool| AccountStatusPayload {
        account_id: id.into(),
        provider: ProviderId::new("grok"),
        enabled: true,
        in_flight: false,
        consecutive_failures: 0,
        next_probe_at: None,
        has_snapshot,
        stale,
        last_error: None,
    };
    let answer = |accounts: Vec<AccountStatusPayload>| {
        response(
            "r",
            ControlResult::DaemonStatus(DaemonStatusPayload {
                shutting_down: false,
                accounts,
                credential_backend: CredentialBackendId::FileFallback,
            }),
        )
    };
    assert_eq!(
        classify_readiness_response(&answer(vec![account("a", true, true)]), "r").unwrap(),
        DaemonReadiness::Ready
    );
    assert!(classify_readiness_response(&answer(vec![account("a", false, true)]), "r").is_err());
    let twice = vec![account("a", true, false), account("a", true, false)];
    assert!(classify_readiness_response(&answer(twice), "r").is_err());
    let unsafe_id = vec![account("a\u{1b}[31m", true, false)];
    assert!(classify_readiness_response(&answer(unsafe_id), "r").is_err());
}

#[test]
fn transport_readiness_retries_through_not_ready_until_ready() {
    let answers = [true, true, false];
    let mut polls = 0;
    for shutting_down in answers {
        let readiness = daemon_readiness(Ok(response("r", status(shutting_down))), "r");
        polls += 1;
        match ready_poll(readiness, 4_000_000_000) {
            Poll::Again => assert!(shutting_down),
            Poll::Over(result) => {
                assert!(result.unwrap());
                break;
            }
        }
    }
    assert_eq!(polls, 3);
}

#[test]
fn transport_stop_waits_through_shutting_down_until_the_endpoint_disappears() {
    let draining = daemon_readiness(Ok(response("r", status(true))), "r");
    assert!(matches!(stopped_poll(draining, 1), Poll::Again));
    let gone = daemon_readiness(Err(ClientError::DaemonUnavailable), "r");
    assert!(matches!(stopped_poll(gone, 1), Poll::Over(Ok(true))));
}

#[test]
fn waiting_ends_when_the_budget_does() {
    let unready = || Ok(DaemonReadiness::NotReady);
    assert!(matches!(endpoint_poll(unready(), 1), Poll::Again));
    assert!(matches!(
        endpoint_poll(unready(), 0),
        Poll::Over(Err(ClientError::DaemonStillRunning))
    ));
    assert!(matches!(
        ready_poll(unready(), 0),
        Poll::Over(Err(ClientError::DaemonProcess))
    ));
    assert!(matches!(
        stopped_poll(Ok(DaemonReadiness::Ready), 0),
        Poll::Over(Err(ClientError::DaemonProcess))
    ));
    assert!(matches!(
        endpoint_poll(Ok(DaemonReadiness::Ready), 0),
        Poll::Over(Ok(true))
    ));
    assert!(matches!(
        endpoint_poll(Ok(DaemonReadiness::Unavailable), 0),
        Poll::Over(Ok(false))
    ));
    assert!(matches!(
        endpoint_poll(Err(ClientError::InvalidResponse), 5),
        Poll::Over(Err(ClientError::InvalidResponse))
    ));
}

#[test]
fn a_question_takes_a_quarter_second_at_most() {
    assert_eq!(poll_budget(5_000_000_000), POLL_BUDGET);
    assert_eq!(poll_budget(17), 17);
    assert_eq!(poll_budget(0), 0);
}

#[test]
fn transport_default_unix_endpoint_is_scoped_to_the_effective_user() {
    let endpoint = default_unix_control_socket("/tmp", 1000);
    assert_eq!(endpoint, "/tmp/ullage-1000/control.sock");
    assert_eq!(default_unix_control_socket("/tmp/", 7), "/tmp/ullage-7/control.sock");
    let client = SystemClient::for_socket(None, None, "/tmp", 1000);
    assert_eq!(
        client.endpoint.as_deref(),
        Some("/tmp/ullage-1000/control.sock")
    );
    let client = SystemClient::for_socket(None, Some("/run/user/1000".into()), "/tmp", 1000);
    assert_eq!(
        client.endpoint.as_deref(),
        Some("/run/user/1000/ullage/control.sock")
    );
    assert_eq!(
        daemon_error_log_directory(Some("/run/user/1000"), "/tmp", 1000),
        "/run/user/1000/ullage"
    );
    assert_eq!(
        daemon_error_log_directory(None, "/tmp", 1000),
        "/tmp/ullage-1000"
    );
}

#[test]
fn a_pipe_is_one_of_this_machine() {
    assert!(is_local_windows_pipe(r"\\.\pipe\ullage-x"));
    assert!(is_local_windows_pipe(r"\\.\PIPE\ullage-x"));
    assert!(!is_local_windows_pipe(r"\\server\pipe\ullage-x"));
    assert!(!is_local_windows_pipe(""));
    let own = SystemClient::for_pipe(None, Some("scope"));
    assert_eq!(own.endpoint.as_deref(), Some(r"\\.\pipe\ullage-scope"));
    let remote = SystemClient::for_pipe(Some(r"\\server\pipe\x".into()), Some("scope"));
    assert_eq!(remote.endpoint, None);
    assert_eq!(SystemClient::for_pipe(None, None).endpoint, None);
}

fn socket(owner: u32, mode: u32) -> FileFacts {
    FileFacts {
        regular: false,
        directory: false,
        socket: true,
        link: false,
        owner,
        mode,
    }
}

#[test]
fn transport_unsafe_permitted_socket_is_unavailable_so_readiness_retries() {
    assert!(validate_private_unix_socket(true, Some(socket(1000, 0o600)), 1000).is_ok());
    for facts in [
        socket(1000, 0o777),
        socket(1000, 0o610),
        socket(1000, 0o601),
        socket(0, 0o600),
        FileFacts {
            link: true,
            ..socket(1000, 0o600)
        },
        FileFacts {
            socket: false,
            regular: true,
            ..socket(1000, 0o600)
        },
    ] {
        assert!(matches!(
            validate_private_unix_socket(true, Some(facts), 1000),
            Err(ClientError::DaemonUnavailable)
        ));
    }
    assert!(matches!(
        validate_private_unix_socket(true, None, 1000),
        Err(ClientError::DaemonUnavailable)
    ));
}

#[test]
fn only_a_process_of_the_user_is_a_peer() {
    assert!(validate_unix_peer(Some(1000), 1000).is_ok());
    assert!(matches!(
        validate_unix_peer(Some(0), 1000),
        Err(ClientError::InvalidResponse)
    ));
    assert!(matches!(
        validate_unix_peer(None, 1000),
        Err(ClientError::InvalidResponse)
    ));
}

#[test]
fn transport_daemon_log_directory_rejects_symlinks_and_foreign_dirs() {
    let directory = |mode: u32| FileFacts {
        directory: true,
        socket: false,
        ..socket(1000, mode)
    };
    assert!(matches!(
        ensure_daemon_log_directory(Some(directory(0o755)), 1000),
        Err(ClientError::DaemonProcess)
    ));
    let link = FileFacts {
        link: true,
        ..directory(0o700)
    };
    assert!(matches!(
        ensure_daemon_log_directory(Some(link), 1000),
        Err(ClientError::DaemonProcess)
    ));
    assert!(ensure_daemon_log_directory(Some(directory(0o700)), 1000).is_ok());
    assert!(ensure_daemon_log_directory(Some(directory(0o700)), 1001).is_err());
    assert!(ensure_daemon_log_directory(None, 1000).is_err());
}

#[test]
fn a_reply_is_one_line_of_bounded_length() {
    let mut reply = Reply::new();
    assert_eq!(reply.wanted(), 8192);
    reply.extend(&b"{\"a\":1}".to_vec());
    assert_eq!(reply.wanted(), 8192);
    reply.extend(&b"\n".to_vec());
    assert_eq!(reply.wanted(), 0);
    assert_eq!(reply.finish().unwrap(), b"{\"a\":1}\n");

    assert!(matches!(
        Reply::new().finish(),
        Err(ClientError::InvalidResponse)
    ));
    let mut cut = Reply::new();
    cut.extend(&b"{".to_vec());
    assert!(matches!(cut.finish(), Err(ClientError::InvalidResponse)));

    let mut longest = Reply::new();
    longest.extend(&vec![b' '; MAX_RESPONSE_BYTES - 1]);
    assert_eq!(longest.wanted(), 2);
    longest.extend(&b"\n".to_vec());
    assert_eq!(longest.finish().unwrap().len(), MAX_RESPONSE_BYTES);

    let mut long = Reply::new();
    long.extend(&vec![b' '; MAX_RESPONSE_BYTES]);
    assert_eq!(long.wanted(), 1);
    long.extend(&b"\n".to_vec());
    assert_eq!(long.wanted(), 0);
    assert!(matches!(long.finish(), Err(ClientError::InvalidResponse)));
}

#[test]
fn a_pipe_is_read_up_to_its_newline() {
    let mut reply = Reply::new();
    assert!(matches!(reply.pipe_step(false, Some(5)), PipeStep::Read(5)));
    assert!(matches!(reply.pipe_step(false, Some(0)), PipeStep::Sleep));
    assert!(matches!(
        reply.pipe_step(true, Some(5)),
        PipeStep::Fail(ClientError::DaemonUnavailable)
    ));
    assert!(matches!(
        reply.pipe_step(false, None),
        PipeStep::Fail(ClientError::DaemonUnavailable)
    ));
    assert!(matches!(reply.pipe_read(Some(b"abc".to_vec())), Ok(false)));
    assert!(matches!(
        reply.pipe_read(Some(Vec::new())),
        Err(ClientError::DaemonUnavailable)
    ));
    assert!(matches!(
        reply.pipe_read(None),
        Err(ClientError::DaemonUnavailable)
    ));
    assert!(matches!(reply.pipe_read(Some(b"d\nrest\n".to_vec())), Ok(true)));
    assert_eq!(reply.finish().unwrap(), b"abcd\n");

    let mut long = Reply::new();
    long.extend(&vec![b' '; MAX_RESPONSE_BYTES]);
    assert!(matches!(long.pipe_step(false, Some(9)), PipeStep::Read(1)));
    long.extend(&b" ".to_vec());
    assert!(matches!(
        long.pipe_step(false, Some(9)),
        PipeStep::Fail(ClientError::InvalidResponse)
    ));
}

#[test]
fn a_pipe_is_served_by_a_process_of_the_user() {
    assert!(validate_windows_pipe_server(Some(true)).is_ok());
    for same in [Some(false), None] {
        assert!(matches!(
            validate_windows_pipe_server(same),
            Err(ClientError::InvalidResponse)
        ));
    }
    assert_eq!(token_words(16, 16, 8).unwrap(), 2);
    assert_eq!(token_words(44, 16, 8).unwrap(), 6);
    assert!(matches!(
        token_words(15, 16, 8),
        Err(ClientError::InvalidResponse)
    ));
}

#[test]
fn a_request_is_one_line() {
    assert_eq!(request_line(b"{}".to_vec()), b"{}\n");
}

#[test]
fn transport_run_daemon_process_reports_stderr_tail_on_early_exit() {
    let step = exit_checked(Some(true));
    assert!(matches!(step, LaunchStep::Exited));
    let error = launch_failure(step, "bind failed: address in use\n").unwrap();
    let ClientError::DaemonProcessOutput(detail) = error else {
        panic!("expected DaemonProcessOutput, got {error:?}");
    };
    assert_eq!(
        detail,
        "daemon exited during startup; daemon stderr: bind failed: address in use"
    );
}

#[test]
fn transport_run_daemon_process_reports_stderr_tail_on_readiness_timeout() {
    assert!(matches!(exit_checked(Some(false)), LaunchStep::Probe));
    assert!(matches!(launch_probed(Ok(false), 1), LaunchStep::Sleep));
    let step = launch_probed(Ok(false), 0);
    assert!(matches!(step, LaunchStep::Overdue));
    let error = launch_failure(step, "still loading plugins\n").unwrap();
    let ClientError::DaemonProcessOutput(detail) = error else {
        panic!("expected DaemonProcessOutput, got {error:?}");
    };
    assert!(detail.contains("did not become ready"), "{detail}");
    assert!(detail.contains("still loading plugins"), "{detail}");
}

#[test]
fn transport_run_daemon_process_returns_once_readiness_reports_ready() {
    let step = launch_probed(Ok(true), 0);
    assert!(matches!(step, LaunchStep::Ready));
    assert!(launch_failure(step, "").is_none());
}

#[test]
fn a_failed_look_leaves_the_process_and_a_failed_probe_kills_it() {
    assert!(matches!(
        exit_checked(None),
        LaunchStep::Fail {
            error: ClientError::DaemonProcess,
            kill: false
        }
    ));
    assert!(matches!(
        launch_probed(Err(ClientError::InvalidResponse), 9),
        LaunchStep::Fail {
            error: ClientError::InvalidResponse,
            kill: true
        }
    ));
}

#[test]
fn a_silent_daemon_is_reported_by_its_reason_alone() {
    let ClientError::DaemonProcessOutput(detail) = daemon_process_failure(" \n", "gone") else {
        panic!("no report");
    };
    assert_eq!(detail, "gone");
    let ClientError::DaemonProcessOutput(detail) =
        daemon_process_failure("\u{1b}[31mbad\u{1b}[0m\n", "gone")
    else {
        panic!("no report");
    };
    assert_eq!(detail, "gone; daemon stderr: bad");
}

#[test]
fn the_tail_of_a_log_is_its_last_bytes() {
    assert_eq!(tail_start(0), 0);
    assert_eq!(tail_start(8192), 0);
    assert_eq!(tail_start(8193), 1);
}

#[test]
fn transport_daemon_error_log_sweep_removes_only_stale_files() {
    let now = Timestamp {
        seconds: 1_800_000_000,
        nanos: 5,
    };
    let cutoff = sweep_cutoff(&now);
    assert_eq!(
        cutoff,
        Timestamp {
            seconds: 1_800_000_000 - 86_400,
            nanos: 5
        }
    );
    let fresh = Some(now);
    let stale = Some(Timestamp {
        seconds: 1_700_000_000,
        nanos: 0,
    });
    assert!(!log_is_stale("daemon-error-1-0.log", &fresh, &cutoff));
    assert!(log_is_stale("daemon-error-1-0.log", &stale, &cutoff));
    assert!(!log_is_stale("daemon-error-1-0.log", &None, &cutoff));
    assert!(!log_is_stale("control.sock", &stale, &cutoff));
    let name = daemon_error_log_name(12, 1_800_000_000_000_000_005, 3);
    assert_eq!(name, "daemon-error-12-1800000000000000005-3.log");
    assert!(log_is_stale(&name, &stale, &cutoff));
    let ancient = Timestamp {
        seconds: i64::MIN,
        nanos: 1,
    };
    assert_eq!(
        sweep_cutoff(&ancient),
        Timestamp {
            seconds: 0,
            nanos: 0
        }
    );
}

#[test]
fn transport_daemon_error_log_retries_a_fresh_name_on_collision() {
    assert!(matches!(
        after_log_attempt(0, LogAttempt::Taken),
        Some(Ok(()))
    ));
    assert!(after_log_attempt(1, LogAttempt::Created).is_none());
    assert!(matches!(
        after_log_attempt(6, LogAttempt::Taken),
        Some(Ok(()))
    ));
    assert!(matches!(
        after_log_attempt(7, LogAttempt::Taken),
        Some(Err(ClientError::DaemonProcess))
    ));
    assert!(matches!(
        after_log_attempt(0, LogAttempt::Refused),
        Some(Err(ClientError::DaemonProcess))
    ));
}

#[test]
fn the_daemon_is_this_program_or_the_one_beside_it() {
    assert!(matches!(
        daemon_command(true, false, None, false),
        Ok(DaemonProgram::Configured)
    ));
    assert!(matches!(
        daemon_command(false, false, None, false),
        Err(ClientError::DaemonProcess)
    ));
    let Ok(DaemonProgram::Itself(argument)) = daemon_command(false, true, Some("ULLAGE"), false)
    else {
        panic!("not itself");
    };
    assert_eq!(argument, "__daemon");
    for (windows, expected) in [(true, "ullage-daemon.exe"), (false, "ullage-daemon")] {
        let Ok(DaemonProgram::Beside(name)) = daemon_command(false, true, Some("other"), windows)
        else {
            panic!("not beside");
        };
        assert_eq!(name, expected);
    }
}

/// What the outside answers to each step of managing the service, and the steps
/// of the service manager that were taken.
fn manage(
    action: ServiceAction,
    stop_issued: bool,
    readiness: DaemonReadiness,
    served: bool,
) -> (Result<(), ClientError>, Vec<&'static str>) {
    let mut calls = Vec::new();
    let mut installed = stop_issued;
    let mut step = first_manage_step(action);
    loop {
        let outcome = match step {
            ManageStep::Finish(result) => return (result, calls),
            ManageStep::StopService { .. } => {
                calls.push("stop");
                ManageOutcome::Service(Ok(stop_issued))
            }
            ManageStep::AwaitStopped { .. } => ManageOutcome::Waited(Ok(true)),
            ManageStep::ProbeEndpoint { .. } => ManageOutcome::Probed(Ok(readiness)),
            ManageStep::Install => {
                calls.push("install");
                installed = true;
                ManageOutcome::Service(Ok(true))
            }
            ManageStep::Uninstall => {
                calls.push("uninstall");
                ManageOutcome::Service(Ok(true))
            }
            ManageStep::AskInstalled => {
                calls.push("installed");
                ManageOutcome::Service(Ok(installed))
            }
            ManageStep::AwaitEndpoint => ManageOutcome::Waited(Ok(served)),
            ManageStep::StartService => {
                calls.push("start");
                ManageOutcome::Service(Ok(true))
            }
            ManageStep::AwaitReady => ManageOutcome::Waited(Ok(true)),
        };
        step = next_manage_step(step, outcome);
    }
}

#[test]
fn daemon_install_installs_and_starts_when_nothing_was_installed() {
    let (result, calls) = manage(
        ServiceAction::Install,
        false,
        DaemonReadiness::Unavailable,
        false,
    );
    result.unwrap();
    assert_eq!(
        calls.as_slice(),
        ["stop", "install", "installed", "start"]
    );
}

#[test]
fn daemon_install_stops_reinstalls_and_starts_an_installed_service() {
    let (result, calls) = manage(
        ServiceAction::Install,
        true,
        DaemonReadiness::Unavailable,
        false,
    );
    result.unwrap();
    assert_eq!(
        calls.as_slice(),
        ["stop", "install", "installed", "start"]
    );
}

#[test]
fn daemon_install_fails_while_a_non_service_daemon_still_answers() {
    let (result, calls) = manage(ServiceAction::Install, false, DaemonReadiness::Ready, false);
    assert!(matches!(
        result.unwrap_err(),
        ClientError::DaemonStillRunning
    ));
    // The foreign daemon blocks install before any manifest is written.
    assert_eq!(calls.as_slice(), ["stop"]);
}

#[test]
fn transport_daemon_stop_fails_while_a_non_service_daemon_still_answers() {
    let (result, _) = manage(ServiceAction::Stop, false, DaemonReadiness::Ready, false);
    assert!(matches!(
        result.unwrap_err(),
        ClientError::DaemonStillRunning
    ));
    // Once nothing answers, stop succeeds again.
    let (result, calls) = manage(
        ServiceAction::Stop,
        false,
        DaemonReadiness::Unavailable,
        false,
    );
    result.unwrap();
    assert_eq!(calls.as_slice(), ["stop"]);
}

#[test]
fn uninstalling_stops_first_and_starting_asks_first() {
    let (result, calls) = manage(
        ServiceAction::Uninstall,
        true,
        DaemonReadiness::Unavailable,
        false,
    );
    result.unwrap();
    assert_eq!(calls.as_slice(), ["stop", "uninstall"]);
    let (result, calls) = manage(ServiceAction::Start, true, DaemonReadiness::Ready, true);
    result.unwrap();
    assert_eq!(calls.as_slice(), ["installed"]);
    let (result, calls) = manage(ServiceAction::Start, true, DaemonReadiness::Ready, false);
    result.unwrap();
    assert_eq!(calls.as_slice(), ["installed", "start"]);
    let (result, _) = manage(ServiceAction::Start, false, DaemonReadiness::Ready, false);
    assert!(matches!(result.unwrap_err(), ClientError::DaemonProcess));
}

#[test]
fn a_service_manager_that_fails_is_a_failed_process() {
    let step = next_manage_step(
        first_manage_step(ServiceAction::Stop),
        ManageOutcome::Service(Err("unavailable".into())),
    );
    assert!(matches!(
        step,
        ManageStep::Finish(Err(ClientError::DaemonProcess))
    ));
    let step = next_manage_step(
        ManageStep::AwaitReady,
        ManageOutcome::Waited(Err(ClientError::InvalidResponse)),
    );
    assert!(matches!(
        step,
        ManageStep::Finish(Err(ClientError::InvalidResponse))
    ));
}
