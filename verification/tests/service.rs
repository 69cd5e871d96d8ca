use ullage::errors::ServiceAction;
use ullage::service::steps::{
    agent_loaded, first_agent_step, first_task_step, first_unit_step, launchctl_arguments,
    next_agent_step, next_query_step, next_task_step, next_unit_step, schtasks_arguments,
    systemctl_arguments, AgentStep, QueryStep, TaskOutcome, TaskStep, UnitStep, DISAGREE, INCOMPLETE, NO_TASK,
};
use ullage::service::{
    held_exclusively, new_task_name, parse_task_marker, path_below, pending_install_recovery,
    pending_task_marker, pending_uninstall_recovery, private_manifest_exists, quote_task_command,
    render_plist, render_unit, task_installed, valid_task_name, validate_executable,
    validate_log_file, validate_private_directory, validate_unix_ancestors,
    validate_windows_component, windows_create_arguments, xml_escape, FileFacts, Found,
    PendingInstallRecovery, PendingUninstallRecovery, TaskMarkerState, WindowsComponent,
};

#[test]
fn systemd_unit_quotes_executable_and_hardens_permissions() {
    let unit = render_unit("/opt/Ullage %i/$release/ullage").unwrap();
    assert_eq!(
        unit,
        "[Unit]\nDescription=Ullage subscription usage daemon\n\n[Service]\nType=simple\nExecStart=\"/opt/Ullage %%i/$$release/ullage\" __daemon\nRestart=on-failure\nRestartSec=5\nUMask=0077\nNoNewPrivileges=true\n\n[Install]\nWantedBy=default.target\n"
    );
}

#[test]
fn launchd_plist_uses_argument_array_and_standard_log_directory() {
    let plist = render_plist(
        "/Applications/Ullage & Tools/ullage",
        "/Users/test",
    )
    .unwrap();
    assert_eq!(
        plist,
        "<?xml version=\"1.0\" encoding=\"UTF-8\"?>\n<!DOCTYPE plist PUBLIC \"-//Apple//DTD PLIST 1.0//EN\" \"http://www.apple.com/DTDs/PropertyList-1.0.dtd\">\n<plist version=\"1.0\"><dict>\n<key>Label</key><string>dev.onevoke.ullage</string>\n<key>ProgramArguments</key><array><string>/Applications/Ullage &amp; Tools/ullage</string><string>__daemon</string></array>\n<key>RunAtLoad</key><true/>\n<key>KeepAlive</key><dict><key>SuccessfulExit</key><false/></dict>\n<key>StandardOutPath</key><string>/Users/test/Library/Logs/Ullage/ullage.log</string>\n<key>StandardErrorPath</key><string>/Users/test/Library/Logs/Ullage/ullage-error.log</string>\n<key>Umask</key><integer>63</integer>\n</dict></plist>\n"
    );
}

#[test]
fn templates_reject_control_characters() {
    assert!(render_unit("/tmp/ullage\nother").is_err());
    assert!(render_plist("/tmp/ullage", "/Users/bad\nuser").is_err());
    assert!(quote_task_command("C:\\Ullage\nother.exe").is_err());
    assert!(quote_task_command(r"C:\%TEMP%\ullage.exe").is_err());
}

#[test]
fn windows_task_command_quotes_the_executable_without_a_shell() {
    let executable = r"C:\Program Files\Ullage\ullage.exe";
    let task = "Ullage-user-scope";
    assert_eq!(
        quote_task_command(executable).unwrap(),
        r#""C:\Program Files\Ullage\ullage.exe" __daemon"#
    );
    assert_eq!(
        windows_create_arguments(executable, task, false).unwrap(),
        [
            "/Create",
            "/SC",
            "ONLOGON",
            "/TN",
            "Ullage-user-scope",
            "/TR",
            r#""C:\Program Files\Ullage\ullage.exe" __daemon"#,
            "/RL",
            "LIMITED",
        ]
    );
    assert_eq!(
        windows_create_arguments(executable, task, true).unwrap(),
        [
            "/Create",
            "/SC",
            "ONLOGON",
            "/TN",
            "Ullage-user-scope",
            "/TR",
            r#""C:\Program Files\Ullage\ullage.exe" __daemon"#,
            "/F",
            "/RL",
            "LIMITED",
        ]
    );
}

#[test]
fn pending_windows_task_recovers_with_or_without_a_task_definition() {
    assert_eq!(
        pending_install_recovery(false),
        PendingInstallRecovery::CreateTask
    );
    assert_eq!(
        pending_install_recovery(true),
        PendingInstallRecovery::FinalizeMarker
    );
    assert_eq!(
        pending_uninstall_recovery(false),
        PendingUninstallRecovery::RemoveMarker
    );
    assert_eq!(
        pending_uninstall_recovery(true),
        PendingUninstallRecovery::DeleteTask
    );
}

fn file(owner: u32, mode: u32) -> FileFacts {
    FileFacts {
        regular: true,
        directory: false,
        socket: false,
        link: false,
        owner,
        mode,
    }
}

fn directory(owner: u32, mode: u32) -> FileFacts {
    FileFacts {
        regular: false,
        directory: true,
        ..file(owner, mode)
    }
}

fn linked(facts: FileFacts) -> FileFacts {
    FileFacts {
        regular: false,
        link: true,
        ..facts
    }
}

#[test]
fn group_writable_executable_passes_validation() {
    let above = vec![Some(directory(0, 0o755)), Some(directory(1000, 0o775))];
    assert!(validate_executable(Some(file(1000, 0o775)), &above, 1000).is_ok());
    assert!(validate_executable(Some(file(0, 0o755)), &above, 1000).is_ok());
    assert!(validate_executable(Some(file(7, 0o755)), &above, 1000).is_err());
    assert!(validate_executable(Some(directory(1000, 0o755)), &above, 1000).is_err());
    assert!(validate_executable(None, &above, 1000).is_err());
}

#[test]
fn service_executable_rejects_symbolic_links() {
    let above = vec![Some(directory(0, 0o755))];
    assert!(validate_executable(Some(linked(file(1000, 0o700))), &above, 1000).is_err());
    let linked_above = vec![Some(linked(directory(0, 0o755)))];
    assert!(validate_executable(Some(file(1000, 0o700)), &linked_above, 1000).is_err());
    assert!(validate_executable(Some(file(1000, 0o700)), &vec![None], 1000).is_err());
}

#[test]
fn service_files_accept_group_writable_ancestors() {
    let above = vec![
        Found::File(directory(0, 0o755)),
        Found::File(directory(1000, 0o775)),
        Found::Nothing,
    ];
    assert!(validate_unix_ancestors(&above, 1000).is_ok());
}

#[test]
fn service_files_reject_symlink_ancestors() {
    for found in [
        Found::File(linked(directory(1000, 0o700))),
        Found::File(directory(7, 0o755)),
        Found::Unknown,
    ] {
        assert!(validate_unix_ancestors(&vec![found], 1000).is_err());
    }
}

#[test]
fn private_manifest_accepts_group_writable_mode() {
    let found = Found::File(file(1000, 0o664));
    assert_eq!(
        private_manifest_exists(found, Ok(()), Ok(file(1000, 0o664)), 1000),
        Ok(true)
    );
    assert_eq!(
        private_manifest_exists(Found::Nothing, Ok(()), Err("unused".into()), 1000),
        Ok(false)
    );
    assert!(private_manifest_exists(Found::Unknown, Ok(()), Ok(file(1000, 0o600)), 1000).is_err());
    assert!(private_manifest_exists(found, Ok(()), Ok(file(7, 0o600)), 1000).is_err());
    let above = Err("above".to_owned());
    assert!(private_manifest_exists(found, above, Ok(file(1000, 0o600)), 1000).is_err());
}

#[test]
fn private_directories_and_logs_belong_to_the_user() {
    assert!(validate_private_directory(Some(directory(1000, 0o700)), 1000).is_ok());
    assert!(validate_private_directory(Some(linked(directory(1000, 0o700))), 1000).is_err());
    assert!(validate_private_directory(None, 1000).is_err());
    assert!(validate_log_file(Some(file(1000, 0o600)), 1000).is_ok());
    assert!(validate_log_file(Some(file(7, 0o600)), 1000).is_err());
    assert_eq!(
        validate_log_file(None, 1000).unwrap_err(),
        "service log file could not be validated"
    );
}

#[test]
fn a_windows_path_is_held_component_by_component() {
    let component = |seen: Option<bool>, opened: bool, confirmed: Option<bool>| {
        validate_windows_component(WindowsComponent {
            seen,
            opened,
            confirmed,
        })
    };
    assert!(component(Some(false), true, Some(false)).is_ok());
    assert_eq!(
        component(Some(true), true, Some(false)).unwrap_err(),
        "service executable path must not contain reparse points"
    );
    assert_eq!(
        component(None, true, Some(false)).unwrap_err(),
        "service executable path could not be validated"
    );
    assert_eq!(
        component(Some(false), false, None).unwrap_err(),
        "service executable path could not be fixed safely"
    );
    assert!(component(Some(false), true, Some(true)).is_err());
    assert!(component(Some(false), true, None).is_err());
    assert!(held_exclusively(0) && held_exclusively(1) && !held_exclusively(2));
}

#[test]
fn quoted_programs_stay_quoted() {
    assert_eq!(
        xml_escape("a<b>&\"c\"'d'").unwrap(),
        "a&lt;b&gt;&amp;&quot;c&quot;&apos;d&apos;"
    );
    let unit = render_unit("/opt/a\\b\"c").unwrap();
    assert!(unit.contains("ExecStart=\"/opt/a\\\\b\\\"c\" __daemon\n"), "{unit}");
    assert!(quote_task_command("C:\\a\"b.exe").is_err());
    assert_eq!(path_below("/Users/a/", "Library"), "/Users/a/Library");
    assert_eq!(path_below("/Users/a", "Library"), "/Users/a/Library");
}

const NONCE: &str = "0123456789abcdef0123456789abcdef";

#[test]
fn a_marker_says_what_was_written_to_it() {
    let task = new_task_name("S-1-5-21", NONCE);
    assert_eq!(task, format!("Ullage-S-1-5-21-{NONCE}"));
    assert!(valid_task_name(&task, "S-1-5-21"));
    assert!(!valid_task_name(&task, "S-1-5-22"));
    assert!(!valid_task_name("Ullage-S-1-5-21-XYZ", "S-1-5-21"));

    let pending = pending_task_marker(&task);
    assert_eq!(pending, format!("0\n{task}\n"));
    assert_eq!(
        parse_task_marker(&pending, pending.len(), "S-1-5-21"),
        Ok(TaskMarkerState::Pending(task.clone()))
    );
    let installed = format!("1\n{task}\n");
    assert_eq!(
        parse_task_marker(&installed, installed.len(), "S-1-5-21"),
        Ok(TaskMarkerState::Installed(task.clone()))
    );
    for spoiled in ["", "2\nx\n", "1\n", "1\nUllage-x\n"] {
        assert!(parse_task_marker(spoiled, spoiled.len(), "S-1-5-21").is_err(), "{spoiled:?}");
    }
    assert!(parse_task_marker(&installed, 100_000, "S-1-5-21").is_err());
    assert!(parse_task_marker(&installed, installed.len(), "other").is_err());
}

/// The requests to the service manager that an action makes on Linux.
fn unit_run(action: ServiceAction, unit: bool, active: bool) -> (Vec<String>, UnitStep) {
    let mut requests = Vec::new();
    let mut step = first_unit_step(action);
    loop {
        if let Some(arguments) = systemctl_arguments(&step) {
            requests.push(arguments.join(" "));
        }
        let outcome = match &step {
            UnitStep::Finish { .. } | UnitStep::Fail { .. } => return (requests, step),
            UnitStep::AskUnit { .. } => Ok(unit),
            UnitStep::AskActive => Ok(active),
            _ => Ok(true),
        };
        step = next_unit_step(step, outcome);
    }
}

#[test]
fn a_unit_is_written_read_and_enabled() {
    let (requests, end) = unit_run(ServiceAction::Install, false, false);
    assert!(matches!(end, UnitStep::Finish { .. }));
    assert_eq!(
        requests,
        [
            "--user daemon-reload",
            "--user enable ullage.service",
        ]
    );
    let (requests, end) = unit_run(ServiceAction::Stop, true, true);
    assert!(matches!(end, UnitStep::Finish { stopped: true }));
    assert!(requests.last().unwrap().contains("stop"), "{requests:?}");
    let (_, end) = unit_run(ServiceAction::Start, false, false);
    assert!(matches!(end, UnitStep::Fail { .. }));
    let failed = next_unit_step(first_unit_step(ServiceAction::Install), Err("full".into()));
    assert!(matches!(failed, UnitStep::Fail { error } if error == "full"));
}

fn agent_run(action: ServiceAction, plist: bool, loaded: bool) -> (Vec<String>, AgentStep) {
    let mut requests = Vec::new();
    let mut step = first_agent_step(action);
    loop {
        if let Some(arguments) = launchctl_arguments(&step, 501, "/Users/a/x.plist") {
            requests.push(arguments.join(" "));
        }
        let outcome = match &step {
            AgentStep::Finish { .. } | AgentStep::Fail { .. } => return (requests, step),
            AgentStep::AskPlist { .. } => Ok(plist),
            AgentStep::AskLoaded { .. } => Ok(loaded),
            _ => Ok(true),
        };
        step = next_agent_step(step, outcome);
    }
}

#[test]
fn an_agent_that_is_loaded_is_kicked_and_one_that_is_not_is_loaded() {
    let (requests, end) = agent_run(ServiceAction::Start, true, true);
    assert!(matches!(end, AgentStep::Finish { .. }));
    assert!(requests.last().unwrap().starts_with("kickstart"), "{requests:?}");
    let (requests, _) = agent_run(ServiceAction::Start, true, false);
    assert_eq!(
        requests.last().unwrap(),
        "bootstrap gui/501 /Users/a/x.plist"
    );
    let (requests, end) = agent_run(ServiceAction::Stop, true, true);
    assert!(matches!(end, AgentStep::Finish { stopped: true }));
    assert!(requests.last().unwrap().starts_with("bootout"), "{requests:?}");
    let (_, end) = agent_run(ServiceAction::Stop, true, false);
    assert!(matches!(end, AgentStep::Finish { stopped: false }));
    let (_, end) = agent_run(ServiceAction::Start, false, false);
    assert!(matches!(end, AgentStep::Fail { .. }));

    assert_eq!(agent_loaded(true, ""), Ok(true));
    assert_eq!(agent_loaded(false, "Could not find service"), Ok(false));
    assert!(agent_loaded(false, "permission denied").is_err());
}

/// The steps an action takes on Windows, by what the marker says and which
/// requests are refused.
fn task_run(
    action: ServiceAction,
    marker: Option<TaskMarkerState>,
    exists: bool,
    refuse: fn(&TaskStep) -> bool,
) -> (Vec<String>, TaskStep) {
    let executable = r"C:\ullage.exe";
    let mut marker = Some(marker);
    let mut requests = Vec::new();
    let mut step = first_task_step(action);
    loop {
        if let Some(arguments) = schtasks_arguments(&step, executable) {
            requests.push(arguments[0].clone());
        }
        let outcome = match &step {
            TaskStep::Finish { .. } | TaskStep::Fail { .. } => return (requests, step),
            TaskStep::ReadMarker { .. } => TaskOutcome::Marker(Ok(marker.take().flatten())),
            TaskStep::NameTask => TaskOutcome::Named(Ok(format!("Ullage-scope-{NONCE}"))),
            _ if refuse(&step) => TaskOutcome::Answered(Err("refused".into())),
            TaskStep::AskInstalled { .. }
            | TaskStep::AskPending { .. }
            | TaskStep::QueryInstalled { .. }
            | TaskStep::QueryPending { .. } => TaskOutcome::Answered(Ok(exists)),
            _ => TaskOutcome::Answered(Ok(true)),
        };
        step = next_task_step(step, outcome, executable);
    }
}

#[test]
fn a_new_task_is_created_and_a_failed_one_is_rolled_back() {
    let (requests, end) = task_run(ServiceAction::Install, None, false, |_| false);
    assert!(matches!(end, TaskStep::Finish { .. }));
    assert!(requests.contains(&"/Create".to_owned()), "{requests:?}");

    let (_, end) = task_run(ServiceAction::Install, None, false, |step| {
        matches!(step, TaskStep::Create { .. })
    });
    assert!(matches!(end, TaskStep::Fail { .. }));

    let installed = || Some(TaskMarkerState::Installed(format!("Ullage-scope-{NONCE}")));
    let (_, end) = task_run(ServiceAction::Start, installed(), false, |_| false);
    assert!(matches!(end, TaskStep::Fail { error } if error == DISAGREE));
    let (_, end) = task_run(ServiceAction::Start, None, false, |_| false);
    assert!(matches!(end, TaskStep::Fail { error } if error == NO_TASK));
    let pending = || Some(TaskMarkerState::Pending(format!("Ullage-scope-{NONCE}")));
    let (_, end) = task_run(ServiceAction::Start, pending(), true, |_| false);
    assert!(matches!(end, TaskStep::Fail { error } if error == INCOMPLETE));
    let (requests, end) = task_run(ServiceAction::Uninstall, installed(), true, |_| false);
    assert!(matches!(end, TaskStep::Finish { .. }));
    assert!(requests.contains(&"/Delete".to_owned()), "{requests:?}");
}

#[test]
fn a_task_is_installed_when_marker_and_scheduler_agree() {
    let installed = || Ok(Some(TaskMarkerState::Installed("t".into())));
    assert_eq!(task_installed(Ok(None), Ok(true), Ok(true)), Ok(false));
    assert_eq!(task_installed(installed(), Ok(true), Ok(true)), Ok(true));
    assert!(task_installed(installed(), Ok(false), Ok(true)).is_err());
    let failed = Err("unreadable".to_owned());
    assert!(task_installed(failed, Ok(true), Ok(true)).is_err());
}

#[test]
fn a_task_runs_when_its_state_says_so() {
    let ask = |fail_at: usize, state: u32| {
        let mut step = QueryStep::Initialize;
        let mut taken = 0;
        loop {
            if let QueryStep::Finish(result) = step {
                return (taken, result);
            }
            let outcome = if taken == fail_at { None } else { Some(state) };
            step = next_query_step(step, outcome);
            taken += 1;
        }
    };
    assert_eq!(ask(99, 4), (8, Ok(true)));
    assert_eq!(ask(99, 3), (8, Ok(false)));
    let problems = [
        "Task Scheduler COM initialization failed",
        "Task Scheduler query failed",
        "Task Scheduler connection failed",
        "Task Scheduler query allocation failed",
        "Task Scheduler root could not be opened",
        "Task Scheduler query allocation failed",
        "Task Scheduler definition could not be opened",
        "Task Scheduler state query failed",
    ];
    for (place, problem) in problems.into_iter().enumerate() {
        assert_eq!(ask(place, 4), (place + 1, Err(problem.to_owned())));
    }
}
