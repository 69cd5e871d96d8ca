//! What each service manager is asked to do, run by run.

use vstd::prelude::*;

use crate::errors::ServiceAction;
use crate::service;
use crate::service::steps;
use crate::service::steps::{AgentStep, QueryStep, TaskOutcome, TaskStep, UnitStep};
use crate::service::TaskMarkerState;
use crate::text;

verus! {

/// A run of `systemctl` steps: it starts where the action starts, and every step
/// is the one that follows the outcome of the step before.
pub open spec fn unit_run(
    action: ServiceAction,
    steps: Seq<UnitStep>,
    outcomes: Seq<Result<bool, String>>,
) -> bool {
    &&& steps.len() == outcomes.len() + 1
    &&& steps[0] == steps::unit_start(action)
    &&& forall|i: int|
        0 <= i < outcomes.len() ==> steps::unit_follows(
            #[trigger] steps[i],
            outcomes[i],
            steps[i + 1],
        )
}

/// The step asks `systemctl` for that verb on the unit.
pub open spec fn asks_unit(step: UnitStep, verb: Seq<char>) -> bool {
    steps::systemctl(step) == Some(seq!["--user"@, verb, "ullage.service"@])
}

/// The step fails with that message.
pub open spec fn unit_failed(step: UnitStep, message: Seq<char>) -> bool {
    step matches UnitStep::Fail { error } && error@ == message
}

/// Starting the service asks whether the unit is there, and then for nothing but
/// a start of it. It succeeds exactly when both are granted; a missing unit, a
/// refusal and a manager that cannot be asked are each told of.
pub proof fn starting_asks_for_a_start(
    steps: Seq<UnitStep>,
    outcomes: Seq<Result<bool, String>>,
)
    requires
        unit_run(ServiceAction::Start, steps, outcomes),
        steps.len() == 3,
    ensures
        steps::systemctl(steps[0]) is None,
        !(steps[0] is WriteUnit || steps[0] is RemoveUnit),
        match outcomes[0] {
            Ok(true) => asks_unit(steps[1], "start"@) && match outcomes[1] {
                Ok(true) => steps[2] == (UnitStep::Finish { stopped: false }),
                Ok(false) => unit_failed(steps[2], "service manager rejected the request"@),
                Err(error) => unit_failed(steps[2], error@),
            },
            Ok(false) => unit_failed(steps[1], "daemon service is not installed"@) && steps[2]
                == steps[1],
            Err(error) => unit_failed(steps[1], error@) && steps[2] == steps[1],
        },
{
    assert(steps::unit_follows(steps[0], outcomes[0], steps[1]));
    assert(steps::unit_follows(steps[1], outcomes[1], steps[2]));
}

/// Stopping the service asks whether it runs and then for a stop. It tells of
/// something stopped exactly when the service ran before, and a unit that is not
/// there is left alone.
pub proof fn stopping_asks_for_a_stop(
    steps: Seq<UnitStep>,
    outcomes: Seq<Result<bool, String>>,
)
    requires
        unit_run(ServiceAction::Stop, steps, outcomes),
        steps.len() == 4,
    ensures
        steps::systemctl(steps[0]) is None,
        !(steps[0] is WriteUnit || steps[0] is RemoveUnit),
        match outcomes[0] {
            Ok(true) => {
                &&& steps::systemctl(steps[1]) == Some(
                    seq!["--user"@, "is-active"@, "--quiet"@, "ullage.service"@],
                )
                &&& match outcomes[1] {
                    Ok(active) => asks_unit(steps[2], "stop"@) && match outcomes[2] {
                        Ok(true) => steps[3] == (UnitStep::Finish { stopped: active }),
                        Ok(false) => unit_failed(steps[3], "service manager rejected the request"@),
                        Err(error) => unit_failed(steps[3], error@),
                    },
                    Err(error) => unit_failed(steps[2], error@),
                }
            },
            Ok(false) => steps[1] == (UnitStep::Finish { stopped: false }) && steps[2] == steps[1],
            Err(error) => unit_failed(steps[1], error@) && steps[2] == steps[1],
        },
{
    assert(steps::unit_follows(steps[0], outcomes[0], steps[1]));
    assert(steps::unit_follows(steps[1], outcomes[1], steps[2]));
    assert(steps::unit_follows(steps[2], outcomes[2], steps[3]));
}

/// Installing writes the unit, has it read anew and enables it, in this order, and
/// starts and stops nothing.
pub proof fn installing_enables_the_unit(
    steps: Seq<UnitStep>,
    outcomes: Seq<Result<bool, String>>,
)
    requires
        unit_run(ServiceAction::Install, steps, outcomes),
        steps.len() == 4,
    ensures
        steps[0] is WriteUnit,
        match outcomes[0] {
            Ok(_) => {
                &&& steps::systemctl(steps[1]) == Some(seq!["--user"@, "daemon-reload"@])
                &&& match outcomes[1] {
                    Ok(true) => asks_unit(steps[2], "enable"@) && match outcomes[2] {
                        Ok(true) => steps[3] == (UnitStep::Finish { stopped: false }),
                        Ok(false) => unit_failed(steps[3], "service manager rejected the request"@),
                        Err(error) => unit_failed(steps[3], error@),
                    },
                    Ok(false) => unit_failed(steps[2], "service manager rejected the request"@),
                    Err(error) => unit_failed(steps[2], error@),
                }
            },
            Err(error) => unit_failed(steps[1], error@),
        },
{
    assert(steps::unit_follows(steps[0], outcomes[0], steps[1]));
    assert(steps::unit_follows(steps[1], outcomes[1], steps[2]));
    assert(steps::unit_follows(steps[2], outcomes[2], steps[3]));
}

/// Uninstalling disables the unit, removes it and has the units read anew, in this
/// order; where no unit is there, only the last is left to do.
pub proof fn uninstalling_disables_and_removes_the_unit(
    steps: Seq<UnitStep>,
    outcomes: Seq<Result<bool, String>>,
)
    requires
        unit_run(ServiceAction::Uninstall, steps, outcomes),
        steps.len() == 5,
    ensures
        steps::systemctl(steps[0]) is None,
        !(steps[0] is WriteUnit || steps[0] is RemoveUnit),
        match outcomes[0] {
            Ok(true) => {
                &&& asks_unit(steps[1], "disable"@)
                &&& match outcomes[1] {
                    Ok(true) => {
                        &&& steps[2] is RemoveUnit
                        &&& match outcomes[2] {
                            Ok(_) => {
                                &&& steps::systemctl(steps[3]) == Some(
                                    seq!["--user"@, "daemon-reload"@],
                                )
                                &&& outcomes[3] == Ok::<bool, String>(true) ==> steps[4] == (
                                UnitStep::Finish { stopped: false })
                                &&& outcomes[3] != Ok::<bool, String>(true) ==> steps[4] is Fail
                            },
                            Err(error) => unit_failed(steps[3], error@),
                        }
                    },
                    Ok(false) => unit_failed(steps[2], "service manager rejected the request"@),
                    Err(error) => unit_failed(steps[2], error@),
                }
            },
            Ok(false) => {
                &&& steps::systemctl(steps[1]) == Some(seq!["--user"@, "daemon-reload"@])
                &&& outcomes[1] == Ok::<bool, String>(true) ==> steps[2] == (UnitStep::Finish {
                    stopped: false,
                })
                &&& outcomes[1] != Ok::<bool, String>(true) ==> steps[2] is Fail
            },
            Err(error) => unit_failed(steps[1], error@),
        },
{
    assert(steps::unit_follows(steps[0], outcomes[0], steps[1]));
    assert(steps::unit_follows(steps[1], outcomes[1], steps[2]));
    assert(steps::unit_follows(steps[2], outcomes[2], steps[3]));
    assert(steps::unit_follows(steps[3], outcomes[3], steps[4]));
}

/// The verb of the step's request to `systemctl`, where it makes one.
pub open spec fn unit_verb(step: UnitStep) -> Option<Seq<char>> {
    match steps::systemctl(step) {
        Some(arguments) => Some(arguments[1]),
        None => None,
    }
}

proof fn unit_verbs_differ()
    ensures
        "start"@ != "stop"@,
        "start"@ != "disable"@,
        "start"@ != "enable"@,
        "stop"@ != "disable"@,
        "stop"@ != "enable"@,
        "enable"@ != "disable"@,
        "daemon-reload"@ != "start"@,
        "daemon-reload"@ != "stop"@,
        "daemon-reload"@ != "enable"@,
        "daemon-reload"@ != "disable"@,
        "is-active"@ != "start"@,
        "is-active"@ != "stop"@,
        "is-active"@ != "enable"@,
        "is-active"@ != "disable"@,
{
    reveal_strlit("start");
    reveal_strlit("stop");
    reveal_strlit("enable");
    reveal_strlit("disable");
    reveal_strlit("daemon-reload");
    reveal_strlit("is-active");
    assert("stop"@[2] == 'o' && "start"@[2] == 'a');
    assert("enable"@.len() == 6 && "start"@.len() == 5);
    assert("disable"@.len() == 7 && "is-active"@.len() == 9 && "daemon-reload"@.len() == 13);
}

/// However long a run of an action is, it asks for no verb that belongs to
/// another: only a start starts, only a stop stops, only an installation enables
/// and only an uninstallation disables.
pub proof fn verbs_belong_to_their_actions(
    action: ServiceAction,
    steps: Seq<UnitStep>,
    outcomes: Seq<Result<bool, String>>,
    place: int,
)
    requires
        unit_run(action, steps, outcomes),
        0 <= place < steps.len(),
    ensures
        unit_verb(steps[place]) == Some("start"@) ==> action == ServiceAction::Start,
        unit_verb(steps[place]) == Some("stop"@) ==> action == ServiceAction::Stop,
        unit_verb(steps[place]) == Some("enable"@) ==> action == ServiceAction::Install,
        unit_verb(steps[place]) == Some("disable"@) ==> action == ServiceAction::Uninstall,
        steps[place] is WriteUnit ==> action == ServiceAction::Install,
        steps[place] is RemoveUnit ==> action == ServiceAction::Uninstall,
    decreases place,
{
    unit_verbs_differ();
    unit_steps_belong(action, steps, outcomes, place);
}

proof fn unit_steps_belong(
    action: ServiceAction,
    steps: Seq<UnitStep>,
    outcomes: Seq<Result<bool, String>>,
    place: int,
)
    requires
        unit_run(action, steps, outcomes),
        0 <= place < steps.len(),
    ensures
        match steps[place] {
            UnitStep::WriteUnit | UnitStep::Enable => action == ServiceAction::Install,
            UnitStep::Reload { enable } => enable == (action == ServiceAction::Install) && (action
                == ServiceAction::Install || action == ServiceAction::Uninstall),
            UnitStep::AskUnit { action: asked } => asked == action,
            UnitStep::Start => action == ServiceAction::Start,
            UnitStep::AskActive | UnitStep::Stop { .. } => action == ServiceAction::Stop,
            UnitStep::Disable | UnitStep::RemoveUnit => action == ServiceAction::Uninstall,
            _ => true,
        },
    decreases place,
{
    if place > 0 {
        unit_steps_belong(action, steps, outcomes, place - 1);
        assert(steps::unit_follows(steps[place - 1], outcomes[place - 1], steps[place]));
    }
}

/// A run of `launchctl` steps: it starts where the action starts, and every step
/// is the one that follows the outcome of the step before.
pub open spec fn agent_run(
    action: ServiceAction,
    steps: Seq<AgentStep>,
    outcomes: Seq<Result<bool, String>>,
) -> bool {
    &&& steps.len() == outcomes.len() + 1
    &&& steps[0] == steps::agent_start(action)
    &&& forall|i: int|
        0 <= i < outcomes.len() ==> steps::agent_follows(
            #[trigger] steps[i],
            outcomes[i],
            steps[i + 1],
        )
}

/// The step fails with that message.
pub open spec fn agent_failed(step: AgentStep, message: Seq<char>) -> bool {
    step matches AgentStep::Fail { error } && error@ == message
}

/// The agent of the user, as `launchctl` names it.
pub open spec fn agent_of(user: u32) -> Seq<char> {
    "gui/"@ + text::decimal_digits(user as nat) + "/dev.onevoke.ullage"@
}

/// What the last request of a run led to.
pub open spec fn agent_settled(outcome: Result<bool, String>, step: AgentStep, stopped: bool) -> bool {
    match outcome {
        Ok(true) => step == (AgentStep::Finish { stopped }),
        Ok(false) => agent_failed(step, "service manager rejected the request"@),
        Err(error) => agent_failed(step, error@),
    }
}

proof fn agents_are_named(user: u32)
    ensures
        steps::agent_target(user) == agent_of(user),
        steps::agent_domain(user) == "gui/"@ + text::decimal_digits(user as nat),
{
    reveal_strlit("/");
    reveal_strlit("/dev.onevoke.ullage");
    reveal_strlit("dev.onevoke.ullage");
    assert("/"@ + service::LABEL@ =~= "/dev.onevoke.ullage"@);
    assert(steps::agent_target(user) =~= steps::agent_domain(user) + ("/"@ + service::LABEL@));
}

/// Starting on macOS kicks an agent that is loaded and loads one that is not, from
/// its property list; a missing list is told of. Nothing is booted out.
pub proof fn starting_kicks_or_loads_the_agent(
    steps: Seq<AgentStep>,
    outcomes: Seq<Result<bool, String>>,
    user: u32,
    plist: Seq<char>,
)
    requires
        agent_run(ServiceAction::Start, steps, outcomes),
        steps.len() == 4,
    ensures
        steps::launchctl(steps[0], user, plist) is None,
        match outcomes[0] {
            Ok(true) => {
                &&& steps::launchctl(steps[1], user, plist) == Some(seq!["print"@, agent_of(user)])
                &&& match outcomes[1] {
                    Ok(true) => steps::launchctl(steps[2], user, plist) == Some(
                        seq!["kickstart"@, agent_of(user)],
                    ) && agent_settled(outcomes[2], steps[3], false),
                    Ok(false) => steps::launchctl(steps[2], user, plist) == Some(
                        seq!["bootstrap"@, "gui/"@ + text::decimal_digits(user as nat), plist],
                    ) && agent_settled(outcomes[2], steps[3], false),
                    Err(error) => agent_failed(steps[2], error@),
                }
            },
            Ok(false) => agent_failed(steps[1], "daemon service is not installed"@),
            Err(error) => agent_failed(steps[1], error@),
        },
{
    agents_are_named(user);
    assert(steps::agent_follows(steps[0], outcomes[0], steps[1]));
    assert(steps::agent_follows(steps[1], outcomes[1], steps[2]));
    assert(steps::agent_follows(steps[2], outcomes[2], steps[3]));
}

/// Stopping on macOS boots a loaded agent out, and tells of something stopped only
/// then.
pub proof fn stopping_boots_the_agent_out(
    steps: Seq<AgentStep>,
    outcomes: Seq<Result<bool, String>>,
    user: u32,
    plist: Seq<char>,
)
    requires
        agent_run(ServiceAction::Stop, steps, outcomes),
        steps.len() == 4,
    ensures
        steps::launchctl(steps[0], user, plist) is None,
        match outcomes[0] {
            Ok(_) => {
                &&& steps::launchctl(steps[1], user, plist) == Some(seq!["print"@, agent_of(user)])
                &&& match outcomes[1] {
                    Ok(true) => steps::launchctl(steps[2], user, plist) == Some(
                        seq!["bootout"@, agent_of(user)],
                    ) && agent_settled(outcomes[2], steps[3], true),
                    Ok(false) => steps[2] == (AgentStep::Finish { stopped: false }),
                    Err(error) => agent_failed(steps[2], error@),
                }
            },
            Err(error) => agent_failed(steps[1], error@),
        },
{
    agents_are_named(user);
    assert(steps::agent_follows(steps[0], outcomes[0], steps[1]));
    assert(steps::agent_follows(steps[1], outcomes[1], steps[2]));
    assert(steps::agent_follows(steps[2], outcomes[2], steps[3]));
}

/// Installing on macOS prepares the logs and writes the property list; it asks
/// `launchctl` for nothing.
pub proof fn installing_writes_the_property_list(
    steps: Seq<AgentStep>,
    outcomes: Seq<Result<bool, String>>,
    user: u32,
    plist: Seq<char>,
)
    requires
        agent_run(ServiceAction::Install, steps, outcomes),
        steps.len() == 3,
    ensures
        steps[0] is PrepareLogs,
        forall|i: int| 0 <= i < 3 ==> steps::launchctl(#[trigger] steps[i], user, plist) is None,
        match outcomes[0] {
            Ok(_) => steps[1] is WritePlist && match outcomes[1] {
                Ok(_) => steps[2] == (AgentStep::Finish { stopped: false }),
                Err(error) => agent_failed(steps[2], error@),
            },
            Err(error) => agent_failed(steps[1], error@),
        },
{
    assert(steps::agent_follows(steps[0], outcomes[0], steps[1]));
    assert(steps::agent_follows(steps[1], outcomes[1], steps[2]));
}

/// Uninstalling on macOS removes the property list where there is one; it asks
/// `launchctl` for nothing.
pub proof fn uninstalling_removes_the_property_list(
    steps: Seq<AgentStep>,
    outcomes: Seq<Result<bool, String>>,
    user: u32,
    plist: Seq<char>,
)
    requires
        agent_run(ServiceAction::Uninstall, steps, outcomes),
        steps.len() == 3,
    ensures
        forall|i: int| 0 <= i < 3 ==> steps::launchctl(#[trigger] steps[i], user, plist) is None,
        match outcomes[0] {
            Ok(true) => steps[1] is RemovePlist && match outcomes[1] {
                Ok(_) => steps[2] == (AgentStep::Finish { stopped: false }),
                Err(error) => agent_failed(steps[2], error@),
            },
            Ok(false) => steps[1] == (AgentStep::Finish { stopped: false }),
            Err(error) => agent_failed(steps[1], error@),
        },
{
    assert(steps::agent_follows(steps[0], outcomes[0], steps[1]));
    assert(steps::agent_follows(steps[1], outcomes[1], steps[2]));
}

/// The step fails with that message.
pub open spec fn task_failed(step: TaskStep, message: Seq<char>) -> bool {
    step matches TaskStep::Fail { error } && error@ == message
}

/// The outcome follows the step, and the next step follows the outcome.
pub open spec fn task_goes_on(
    step: TaskStep,
    outcome: TaskOutcome,
    executable: Seq<char>,
    next: TaskStep,
) -> bool {
    steps::task_fits(step, outcome) && steps::task_follows(
        step,
        outcome,
        service::quotable(executable),
        next,
    )
}

/// The step queries the task that is named.
pub open spec fn queries(step: TaskStep, executable: Seq<char>, task: Seq<char>) -> bool {
    steps::schtasks(step, executable) == Some(seq!["/Query"@, "/TN"@, task])
}

/// Starting on Windows runs the task that the marker names, once it was found
/// twice; without a finished marker nothing is run.
pub proof fn starting_runs_the_marked_task(
    marker: Option<TaskMarkerState>,
    executable: Seq<char>,
    found: TaskStep,
    known: bool,
    asked: TaskStep,
    granted: bool,
    ran: TaskStep,
    started: bool,
    last: TaskStep,
)
    requires
        task_goes_on(
            TaskStep::ReadMarker { action: ServiceAction::Start },
            TaskOutcome::Marker(Ok(marker)),
            executable,
            found,
        ),
        marker is Some && marker->0 is Installed ==> {
            &&& task_goes_on(found, TaskOutcome::Answered(Ok(known)), executable, asked)
            &&& known ==> task_goes_on(asked, TaskOutcome::Answered(Ok(granted)), executable, ran)
            &&& known && granted ==> task_goes_on(
                ran,
                TaskOutcome::Answered(Ok(started)),
                executable,
                last,
            )
        },
    ensures
        match marker {
            None => task_failed(found, "daemon task is not installed"@),
            Some(TaskMarkerState::Pending(_)) => task_failed(
                found,
                "daemon task installation is incomplete"@,
            ),
            Some(TaskMarkerState::Installed(task)) => {
                &&& queries(found, executable, task@)
                &&& !known ==> task_failed(
                    asked,
                    "the Ullage task marker and Task Scheduler definition disagree"@,
                )
                &&& known ==> queries(asked, executable, task@)
                &&& known && !granted ==> task_failed(ran, "service manager rejected the request"@)
                &&& known && granted ==> {
                    &&& steps::schtasks(ran, executable) == Some(seq!["/Run"@, "/TN"@, task@])
                    &&& started ==> last == (TaskStep::Finish { stopped: false })
                    &&& !started ==> task_failed(last, "service manager rejected the request"@)
                }
            },
        },
{
}

/// Stopping on Windows ends the task that the marker names, where it is there and
/// runs, and tells of something stopped only then.
pub proof fn stopping_ends_the_marked_task(
    marker: Option<TaskMarkerState>,
    executable: Seq<char>,
    found: TaskStep,
    known: bool,
    asked: TaskStep,
    running: bool,
    ended: TaskStep,
    granted: bool,
    last: TaskStep,
)
    requires
        task_goes_on(
            TaskStep::ReadMarker { action: ServiceAction::Stop },
            TaskOutcome::Marker(Ok(marker)),
            executable,
            found,
        ),
        marker is Some ==> task_goes_on(
            found,
            TaskOutcome::Answered(Ok(known)),
            executable,
            asked,
        ),
        marker is Some && known ==> task_goes_on(
            asked,
            TaskOutcome::Answered(Ok(running)),
            executable,
            ended,
        ),
        marker is Some && known && running ==> task_goes_on(
            ended,
            TaskOutcome::Answered(Ok(granted)),
            executable,
            last,
        ),
    ensures
        match marker {
            None => found == (TaskStep::Finish { stopped: false }),
            Some(state) => {
                let task = match state {
                    TaskMarkerState::Pending(task) => task,
                    TaskMarkerState::Installed(task) => task,
                };
                &&& queries(found, executable, task@)
                &&& !known ==> if state is Installed {
                    task_failed(
                        asked,
                        "the Ullage task marker and Task Scheduler definition disagree"@,
                    )
                } else {
                    asked == (TaskStep::Finish { stopped: false })
                }
                &&& known ==> asked == (TaskStep::AskRunning { task })
                &&& known && !running ==> ended == (TaskStep::Finish { stopped: false })
                &&& known && running ==> {
                    &&& steps::schtasks(ended, executable) == Some(seq!["/End"@, "/TN"@, task@])
                    &&& granted ==> last == (TaskStep::Finish { stopped: true })
                    &&& !granted ==> task_failed(last, "service manager rejected the request"@)
                }
            },
        },
{
}

/// Uninstalling on Windows deletes the task that the marker names, where it is
/// there, and then the marker.
pub proof fn uninstalling_deletes_the_marked_task(
    marker: Option<TaskMarkerState>,
    executable: Seq<char>,
    found: TaskStep,
    known: bool,
    deleted: TaskStep,
    granted: bool,
    unmarked: TaskStep,
    removed: Result<bool, String>,
    last: TaskStep,
)
    requires
        task_goes_on(
            TaskStep::ReadMarker { action: ServiceAction::Uninstall },
            TaskOutcome::Marker(Ok(marker)),
            executable,
            found,
        ),
        marker is Some ==> task_goes_on(
            found,
            TaskOutcome::Answered(Ok(known)),
            executable,
            deleted,
        ),
        marker is Some && known ==> task_goes_on(
            deleted,
            TaskOutcome::Answered(Ok(granted)),
            executable,
            unmarked,
        ),
        marker is Some && known && granted ==> task_goes_on(
            unmarked,
            TaskOutcome::Answered(removed),
            executable,
            last,
        ),
    ensures
        match marker {
            None => found == (TaskStep::Finish { stopped: false }),
            Some(state) => {
                let task = match state {
                    TaskMarkerState::Pending(task) => task,
                    TaskMarkerState::Installed(task) => task,
                };
                &&& queries(found, executable, task@)
                &&& !known ==> if state is Installed {
                    task_failed(
                        deleted,
                        "the Ullage task marker and Task Scheduler definition disagree"@,
                    )
                } else {
                    deleted is RemoveMarker
                }
                &&& known ==> steps::schtasks(deleted, executable) == Some(
                    seq!["/Delete"@, "/TN"@, task@, "/F"@],
                )
                &&& known && !granted ==> task_failed(
                    unmarked,
                    "service manager rejected the request"@,
                )
                &&& known && granted ==> {
                    &&& unmarked is RemoveMarker
                    &&& match removed {
                        Ok(_) => last == (TaskStep::Finish { stopped: false }),
                        Err(error) => task_failed(last, error@),
                    }
                }
            },
        },
{
}

/// What the request for a task says: the task's name, the quoted program as its
/// command at every logon, no more rights than the user has, and that a task of
/// that name may be replaced only where that is wanted.
pub open spec fn creates(
    arguments: Option<Seq<Seq<char>>>,
    executable: Seq<char>,
    task: Seq<char>,
    replace: bool,
) -> bool {
    let command = "\""@ + executable + "\" __daemon"@;
    arguments == Some(
        if replace {
            seq![
                "/Create"@,
                "/SC"@,
                "ONLOGON"@,
                "/TN"@,
                task,
                "/TR"@,
                command,
                "/F"@,
                "/RL"@,
                "LIMITED"@,
            ]
        } else {
            seq![
                "/Create"@,
                "/SC"@,
                "ONLOGON"@,
                "/TN"@,
                task,
                "/TR"@,
                command,
                "/RL"@,
                "LIMITED"@,
            ]
        },
    )
}

/// Without a marker, installing on Windows names a task, marks it, creates it and
/// finishes the marker. A creation that is refused takes its marker back.
pub proof fn a_fresh_installation_creates_a_task(
    executable: Seq<char>,
    first: TaskStep,
    task: String,
    second: TaskStep,
    third: TaskStep,
    created: Result<bool, String>,
    fourth: TaskStep,
    finished: Result<bool, String>,
    last: TaskStep,
)
    requires
        service::quotable(executable),
        task_goes_on(
            TaskStep::ReadMarker { action: ServiceAction::Install },
            TaskOutcome::Marker(Ok(None)),
            executable,
            first,
        ),
        task_goes_on(first, TaskOutcome::Named(Ok(task)), executable, second),
        task_goes_on(second, TaskOutcome::Answered(Ok(true)), executable, third),
        task_goes_on(third, TaskOutcome::Answered(created), executable, fourth),
        task_goes_on(fourth, TaskOutcome::Answered(finished), executable, last),
    ensures
        first is NameTask,
        second == (TaskStep::WriteMarker { task }),
        creates(steps::schtasks(third, executable), executable, task@, false),
        match created {
            Ok(true) => fourth is FinalizeMarker && match finished {
                Ok(_) => last == (TaskStep::Finish { stopped: false }),
                Err(error) => task_failed(last, error@),
            },
            Ok(false) => fourth is RollBack && match finished {
                Ok(_) => task_failed(last, "service manager rejected the request"@),
                Err(_) => task_failed(last, "daemon task creation and marker rollback failed"@),
            },
            Err(error) => fourth is RollBack && match finished {
                Ok(_) => task_failed(last, error@),
                Err(_) => task_failed(last, "daemon task creation and marker rollback failed"@),
            },
        },
{
    assert(service::create_arguments(executable, task@, false) =~= seq![
        "/Create"@,
        "/SC"@,
        "ONLOGON"@,
        "/TN"@,
        task@,
        "/TR"@,
        "\""@ + executable + "\" __daemon"@,
        "/RL"@,
        "LIMITED"@,
    ]);
}

/// With a finished marker, installing on Windows creates the marked task anew over
/// the old one, once that was found twice.
pub proof fn an_installation_is_repeated_in_place(
    executable: Seq<char>,
    task: String,
    first: TaskStep,
    known: bool,
    second: TaskStep,
    granted: bool,
    third: TaskStep,
    created: bool,
    last: TaskStep,
)
    requires
        service::quotable(executable),
        task_goes_on(
            TaskStep::ReadMarker { action: ServiceAction::Install },
            TaskOutcome::Marker(Ok(Some(TaskMarkerState::Installed(task)))),
            executable,
            first,
        ),
        task_goes_on(first, TaskOutcome::Answered(Ok(known)), executable, second),
        known ==> task_goes_on(second, TaskOutcome::Answered(Ok(granted)), executable, third),
        known && granted ==> task_goes_on(
            third,
            TaskOutcome::Answered(Ok(created)),
            executable,
            last,
        ),
    ensures
        queries(first, executable, task@),
        !known ==> task_failed(
            second,
            "the Ullage task marker and Task Scheduler definition disagree"@,
        ),
        known ==> queries(second, executable, task@),
        known && !granted ==> task_failed(third, "service manager rejected the request"@),
        known && granted ==> creates(steps::schtasks(third, executable), executable, task@, true)
            && (created ==> last == (TaskStep::Finish { stopped: false })) && (!created
            ==> task_failed(last, "service manager rejected the request"@)),
{
    assert(service::create_arguments(executable, task@, true) =~= seq![
        "/Create"@,
        "/SC"@,
        "ONLOGON"@,
        "/TN"@,
        task@,
        "/TR"@,
        "\""@ + executable + "\" __daemon"@,
        "/F"@,
        "/RL"@,
        "LIMITED"@,
    ]);
}

/// With the marker of an installation that was interrupted, installing on Windows
/// creates the marked task where it is missing, and finishes the marker either way.
pub proof fn an_interrupted_installation_is_finished(
    executable: Seq<char>,
    task: String,
    first: TaskStep,
    known: bool,
    second: TaskStep,
    granted: bool,
    third: TaskStep,
)
    requires
        service::quotable(executable),
        task_goes_on(
            TaskStep::ReadMarker { action: ServiceAction::Install },
            TaskOutcome::Marker(Ok(Some(TaskMarkerState::Pending(task)))),
            executable,
            first,
        ),
        task_goes_on(first, TaskOutcome::Answered(Ok(known)), executable, second),
        task_goes_on(second, TaskOutcome::Answered(Ok(granted)), executable, third),
    ensures
        queries(first, executable, task@),
        known ==> queries(second, executable, task@),
        !known ==> creates(steps::schtasks(second, executable), executable, task@, false),
        granted ==> third is FinalizeMarker,
        !granted ==> task_failed(third, "service manager rejected the request"@),
{
    assert(service::create_arguments(executable, task@, false) =~= seq![
        "/Create"@,
        "/SC"@,
        "ONLOGON"@,
        "/TN"@,
        task@,
        "/TR"@,
        "\""@ + executable + "\" __daemon"@,
        "/RL"@,
        "LIMITED"@,
    ]);
}

/// A path that cannot be quoted never reaches the task scheduler: whatever led
/// there, no step that would create a task follows.
pub proof fn unquotable_programs_are_never_scheduled(
    step: TaskStep,
    outcome: TaskOutcome,
    executable: Seq<char>,
    next: TaskStep,
)
    requires
        executable.contains('"') || executable.contains('%') || exists|i: int|
            0 <= i < executable.len() && (#[trigger] executable[i] as u32) < 32,
        task_goes_on(step, outcome, executable, next),
        !(step is WriteMarker),
    ensures
        !(next is Create) && !(next is Replace) && !(next is WriteMarker),
{
    if exists|i: int| 0 <= i < executable.len() && (#[trigger] executable[i] as u32) < 32 {
        let i = choose|i: int|
            0 <= i < executable.len() && (#[trigger] executable[i] as u32) < 32;
        assert(text::control(executable[i]));
    }
}

/// Whether a task runs is what the last of the eight questions says: all of them
/// are asked, in order, and only the scheduler's number for a running task counts.
pub proof fn running_tasks_are_told_apart(
    steps: Seq<QueryStep>,
    outcomes: Seq<Option<u32>>,
)
    requires
        steps.len() == 9,
        outcomes.len() == 8,
        steps[0] is Initialize,
        forall|i: int|
            0 <= i < 8 ==> steps::query_follows(#[trigger] steps[i], outcomes[i], steps[i + 1]),
        forall|i: int| 0 <= i < 8 ==> (#[trigger] outcomes[i]) is Some,
    ensures
        steps[1] is CreateService,
        steps[2] is Connect,
        steps[3] is NameRoot,
        steps[4] is OpenRoot,
        steps[5] is NameTask,
        steps[6] is OpenTask,
        steps[7] is AskState,
        steps[8] == QueryStep::Finish(Ok(outcomes[7]->0 == 4)),
{
    assert(steps::query_follows(steps[0], outcomes[0], steps[1]));
    assert(steps::query_follows(steps[1], outcomes[1], steps[2]));
    assert(steps::query_follows(steps[2], outcomes[2], steps[3]));
    assert(steps::query_follows(steps[3], outcomes[3], steps[4]));
    assert(steps::query_follows(steps[4], outcomes[4], steps[5]));
    assert(steps::query_follows(steps[5], outcomes[5], steps[6]));
    assert(steps::query_follows(steps[6], outcomes[6], steps[7]));
    assert(steps::query_follows(steps[7], outcomes[7], steps[8]));
}

/// A question that fails ends the inquiry with a message of its own: two questions
/// share one only where both make a name.
pub proof fn failed_inquiries_are_told_apart(
    step: QueryStep,
    next: QueryStep,
)
    requires
        !(step is Finish),
        steps::query_follows(step, None, next),
    ensures
        next matches QueryStep::Finish(Err(message)) && message@ == match step {
            QueryStep::Initialize => "Task Scheduler COM initialization failed"@,
            QueryStep::CreateService => "Task Scheduler query failed"@,
            QueryStep::Connect => "Task Scheduler connection failed"@,
            QueryStep::NameRoot => "Task Scheduler query allocation failed"@,
            QueryStep::OpenRoot => "Task Scheduler root could not be opened"@,
            QueryStep::NameTask => "Task Scheduler query allocation failed"@,
            QueryStep::OpenTask => "Task Scheduler definition could not be opened"@,
            _ => "Task Scheduler state query failed"@,
        },
{
}

/// A path without the four characters that have a meaning in a unit stands there as
/// it is.
pub proof fn plain_paths_stand_in_the_unit(executable: Seq<char>)
    requires
        forall|i: int|
            0 <= i < executable.len() ==> !seq!['\\', '"', '%', '$'].contains(
                #[trigger] executable[i],
            ),
    ensures
        service::unit_escaped(executable) == executable,
    decreases executable.len(),
{
    if executable.len() > 0 {
        let start = executable.drop_last();
        assert forall|i: int| 0 <= i < start.len() implies !seq!['\\', '"', '%', '$'].contains(
            #[trigger] start[i],
        ) by {
            assert(start[i] == executable[i]);
        }
        plain_paths_stand_in_the_unit(start);
        let last = executable[executable.len() - 1];
        let four = seq!['\\', '"', '%', '$'];
        assert(!four.contains(last));
        assert(four[0] == '\\' && four[1] == '"' && four[2] == '%' && four[3] == '$');
        assert(start.push(last) =~= executable);
        assert(start + seq![last] =~= executable);
    } else {
        assert(executable =~= Seq::empty());
    }
}

/// Each of the four characters with a meaning in a unit is written as two: a
/// backslash or itself, and itself.
pub proof fn special_characters_are_doubled(start: Seq<char>, special: char)
    requires
        special == '\\' || special == '"' || special == '%' || special == '$',
    ensures
        service::unit_escaped(start.push(special)) == service::unit_escaped(start) + if special
            == '"' {
            seq!['\\', '"']
        } else {
            seq![special, special]
        },
{
    assert(start.push(special).drop_last() =~= start);
    assert(start.push(special).last() == special);
}

/// A path without markup stands in a property list as it is.
pub proof fn plain_paths_stand_in_the_property_list(value: Seq<char>)
    requires
        forall|i: int|
            0 <= i < value.len() ==> !seq!['&', '<', '>', '"', '\''].contains(#[trigger] value[i]),
    ensures
        service::xml_escaped(value) == value,
    decreases value.len(),
{
    if value.len() > 0 {
        let start = value.drop_last();
        assert forall|i: int| 0 <= i < start.len() implies !seq![
            '&',
            '<',
            '>',
            '"',
            '\'',
        ].contains(#[trigger] start[i]) by {
            assert(start[i] == value[i]);
        }
        plain_paths_stand_in_the_property_list(start);
        let last = value[value.len() - 1];
        let five = seq!['&', '<', '>', '"', '\''];
        assert(!five.contains(last));
        assert(five[0] == '&' && five[1] == '<' && five[2] == '>' && five[3] == '"' && five[4]
            == '\'');
        assert(start + seq![last] =~= value);
    } else {
        assert(value =~= Seq::empty());
    }
}

/// Markup is written as the entity that XML has for it.
pub proof fn markup_becomes_entities(start: Seq<char>)
    ensures
        service::xml_escaped(start.push('&')) == service::xml_escaped(start) + "&amp;"@,
        service::xml_escaped(start.push('<')) == service::xml_escaped(start) + "&lt;"@,
        service::xml_escaped(start.push('>')) == service::xml_escaped(start) + "&gt;"@,
        service::xml_escaped(start.push('"')) == service::xml_escaped(start) + "&quot;"@,
        service::xml_escaped(start.push('\'')) == service::xml_escaped(start) + "&apos;"@,
{
    assert(start.push('&').drop_last() =~= start);
    assert(start.push('<').drop_last() =~= start);
    assert(start.push('>').drop_last() =~= start);
    assert(start.push('"').drop_last() =~= start);
    assert(start.push('\'').drop_last() =~= start);
}

/// A path below a directory is the directory, one slash and the rest, whether or
/// not the directory is written with a slash at its end.
pub proof fn paths_below_have_one_slash(directory: Seq<char>, relative: Seq<char>)
    requires
        directory.len() > 0,
        directory.last() != '/',
    ensures
        service::below(directory, relative) == directory + "/"@ + relative,
        service::below(directory.push('/'), relative) == directory + "/"@ + relative,
        service::below(Seq::empty(), relative) == relative,
{
    reveal_strlit("/");
    assert(directory.push('/') + relative =~= directory + "/"@ + relative);
    assert(Seq::<char>::empty() + relative =~= relative);
}

/// The unit runs the program in quotes as a daemon, restarts it when it fails, and
/// belongs to the user's default target; the program stands in its fifth line and
/// nowhere else.
pub proof fn units_run_the_program(executable: Seq<char>)
    ensures
        service::unit_file(executable)
            == "[Unit]\nDescription=Ullage subscription usage daemon\n\n[Service]\nType=simple\nExecStart=\""@
            + executable
            + "\" __daemon\nRestart=on-failure\nRestartSec=5\nUMask=0077\nNoNewPrivileges=true\n\n[Install]\nWantedBy=default.target\n"@,
{
}

/// The property list runs the program as a daemon at load, keeps it alive unless
/// it ends well, and sends its two streams to the two logs, in this order.
pub proof fn property_lists_run_the_program(
    executable: Seq<char>,
    log: Seq<char>,
    error_log: Seq<char>,
)
    ensures
        service::plist_file(executable, log, error_log)
            == "<?xml version=\"1.0\" encoding=\"UTF-8\"?>\n<!DOCTYPE plist PUBLIC \"-//Apple//DTD PLIST 1.0//EN\" \"http://www.apple.com/DTDs/PropertyList-1.0.dtd\">\n<plist version=\"1.0\"><dict>\n<key>Label</key><string>"@
            + "dev.onevoke.ullage"@
            + "</string>\n<key>ProgramArguments</key><array><string>"@ + executable
            + "</string><string>__daemon</string></array>\n<key>RunAtLoad</key><true/>\n<key>KeepAlive</key><dict><key>SuccessfulExit</key><false/></dict>\n<key>StandardOutPath</key><string>"@
            + log + "</string>\n<key>StandardErrorPath</key><string>"@ + error_log
            + "</string>\n<key>Umask</key><integer>63</integer>\n</dict></plist>\n"@,
{
}

/// A task's name tells its user and its nonce, and only names with that user's
/// scope and thirty-two lower-case hexadecimal digits are taken for this program's.
pub proof fn task_names_tell_user_and_nonce(scope: Seq<char>, nonce: Seq<char>)
    ensures
        service::task_name(scope, nonce) == "Ullage-"@ + scope + "-"@ + nonce,
        service::valid_name("Ullage-"@ + scope + "-"@ + nonce, scope) <==> nonce.len() == 32 && (
        forall|i: int|
            0 <= i < nonce.len() ==> '0' <= (#[trigger] nonce[i]) <= '9' || 'a' <= nonce[i]
                <= 'f'),
{
    let start = "Ullage-"@ + scope + "-"@;
    let task = start + nonce;
    let tail = task.skip(task.len() - 32);
    if nonce.len() == 32 {
        assert(tail =~= nonce);
        if service::valid_name(task, scope) {
            assert forall|i: int| 0 <= i < nonce.len() implies '0' <= (#[trigger] nonce[i]) <= '9'
                || 'a' <= nonce[i] <= 'f' by {
                assert(service::hex_digit(tail[i]));
            }
        }
        if forall|i: int|
            0 <= i < nonce.len() ==> '0' <= (#[trigger] nonce[i]) <= '9' || 'a' <= nonce[i]
                <= 'f' {
            assert forall|i: int| 0 <= i < tail.len() implies service::hex_digit(
                #[trigger] tail[i],
            ) by {
                assert(tail[i] == nonce[i]);
            }
        }
    }
    if service::valid_name(task, scope) {
        assert(task.len() == start.len() + tail.len());
        assert(tail.len() == 32);
    }
}

} // verus!
