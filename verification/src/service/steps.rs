//! The steps by which each platform's service manager is led.
//!
//! Each step is outside work; what came of it decides the next one.

use vstd::prelude::*;
use vstd::string::StringExecFns;

use crate::errors::ServiceAction;
use crate::service;
use crate::service::TaskMarkerState;
use crate::summary::filter;
use crate::text;

verus! {

/// What the service manager says to a request it does not grant.
pub const REJECTED: &'static str = "service manager rejected the request";

/// The message for a service that has no manifest.
pub const NOT_INSTALLED: &'static str = "daemon service is not installed";

/// A step of the `systemd` user manager.
#[derive(Debug)]
pub enum UnitStep {
    /// Write the unit file.
    WriteUnit,
    /// Make the manager read its unit files again, and enable the unit after
    /// that where it was just written.
    Reload { enable: bool },
    Enable,
    /// Find out whether there is a unit file, for the action.
    AskUnit { action: ServiceAction },
    Start,
    AskActive,
    /// Stop the unit, which was active or not.
    Stop { active: bool },
    Disable,
    RemoveUnit,
    /// Done; whether something that ran was stopped.
    Finish { stopped: bool },
    Fail { error: String },
}

/// The step an action starts with.
pub open spec fn unit_start(action: ServiceAction) -> UnitStep {
    match action {
        ServiceAction::Install => UnitStep::WriteUnit,
        _ => UnitStep::AskUnit { action },
    }
}

/// The step an action starts with.
pub fn first_unit_step(action: ServiceAction) -> (result: UnitStep)
    ensures
        result == unit_start(action),
{
    match action {
        ServiceAction::Install => UnitStep::WriteUnit,
        _ => UnitStep::AskUnit { action },
    }
}

/// The step fails with that message.
pub open spec fn unit_fails(next: UnitStep, message: Seq<char>) -> bool {
    next matches UnitStep::Fail { error } && error@ == message
}

/// What follows a step that came out so: an error, or the answer to the question
/// or request.
pub open spec fn unit_follows(step: UnitStep, outcome: Result<bool, String>, next: UnitStep) -> bool {
    match outcome {
        Err(error) => match step {
            UnitStep::Finish { .. } | UnitStep::Fail { .. } => next == step,
            _ => unit_fails(next, error@),
        },
        Ok(granted) => match step {
            UnitStep::WriteUnit => next == (UnitStep::Reload { enable: true }),
            UnitStep::RemoveUnit => next == (UnitStep::Reload { enable: false }),
            UnitStep::AskUnit { action } => match action {
                ServiceAction::Start => if granted {
                    next == UnitStep::Start
                } else {
                    unit_fails(next, NOT_INSTALLED@)
                },
                ServiceAction::Stop => next == if granted {
                    UnitStep::AskActive
                } else {
                    UnitStep::Finish { stopped: false }
                },
                ServiceAction::Uninstall => next == if granted {
                    UnitStep::Disable
                } else {
                    UnitStep::Reload { enable: false }
                },
                ServiceAction::Install => next == UnitStep::WriteUnit,
            },
            UnitStep::AskActive => next == (UnitStep::Stop { active: granted }),
            UnitStep::Finish { .. } | UnitStep::Fail { .. } => next == step,
            _ => if !granted {
                unit_fails(next, REJECTED@)
            } else {
                match step {
                    UnitStep::Reload { enable: true } => next == UnitStep::Enable,
                    UnitStep::Stop { active } => next == (UnitStep::Finish { stopped: active }),
                    UnitStep::Disable => next == UnitStep::RemoveUnit,
                    _ => next == (UnitStep::Finish { stopped: false }),
                }
            },
        },
    }
}

/// Decides what follows a step.
pub fn next_unit_step(step: UnitStep, outcome: Result<bool, String>) -> (next: UnitStep)
    ensures
        unit_follows(step, outcome, next),
{
    if let UnitStep::Finish { stopped } = step {
        return UnitStep::Finish { stopped };
    }
    if let UnitStep::Fail { error } = step {
        return UnitStep::Fail { error };
    }
    let granted: bool = match outcome {
        Ok(granted) => granted,
        Err(error) => {
            return UnitStep::Fail { error };
        },
    };
    match step {
        UnitStep::WriteUnit => UnitStep::Reload { enable: true },
        UnitStep::RemoveUnit => UnitStep::Reload { enable: false },
        UnitStep::AskUnit { action } => match action {
            ServiceAction::Start => if granted {
                UnitStep::Start
            } else {
                UnitStep::Fail { error: NOT_INSTALLED.to_owned() }
            },
            ServiceAction::Stop => if granted {
                UnitStep::AskActive
            } else {
                UnitStep::Finish { stopped: false }
            },
            ServiceAction::Uninstall => if granted {
                UnitStep::Disable
            } else {
                UnitStep::Reload { enable: false }
            },
            ServiceAction::Install => UnitStep::WriteUnit,
        },
        UnitStep::AskActive => UnitStep::Stop { active: granted },
        _ => {
            if !granted {
                return UnitStep::Fail { error: REJECTED.to_owned() };
            }
            match step {
                UnitStep::Reload { enable } => if enable {
                    UnitStep::Enable
                } else {
                    UnitStep::Finish { stopped: false }
                },
                UnitStep::Stop { active } => UnitStep::Finish { stopped: active },
                UnitStep::Disable => UnitStep::RemoveUnit,
                _ => UnitStep::Finish { stopped: false },
            }
        },
    }
}

/// The arguments of `systemctl` for a step, where the step calls it.
pub open spec fn systemctl(step: UnitStep) -> Option<Seq<Seq<char>>> {
    match step {
        UnitStep::Reload { .. } => Some(seq!["--user"@, "daemon-reload"@]),
        UnitStep::Enable => Some(seq!["--user"@, "enable"@, "ullage.service"@]),
        UnitStep::Start => Some(seq!["--user"@, "start"@, "ullage.service"@]),
        UnitStep::AskActive => Some(seq!["--user"@, "is-active"@, "--quiet"@, "ullage.service"@]),
        UnitStep::Stop { .. } => Some(seq!["--user"@, "stop"@, "ullage.service"@]),
        UnitStep::Disable => Some(seq!["--user"@, "disable"@, "ullage.service"@]),
        _ => None,
    }
}

/// The views of optional arguments.
pub open spec fn argument_views(arguments: Option<Vec<String>>) -> Option<Seq<Seq<char>>> {
    match arguments {
        Some(arguments) => Some(filter::text_views(arguments@)),
        None => None,
    }
}

fn unit_command(verb: &str) -> (result: Option<Vec<String>>)
    ensures
        argument_views(result) == Some(seq!["--user"@, verb@, "ullage.service"@]),
{
    let mut arguments: Vec<String> = Vec::new();
    arguments.push("--user".to_owned());
    arguments.push(verb.to_owned());
    arguments.push("ullage.service".to_owned());
    assert(filter::text_views(arguments@) =~= seq!["--user"@, verb@, "ullage.service"@]);
    Some(arguments)
}

/// The arguments of `systemctl` for a step, where the step calls it.
pub fn systemctl_arguments(step: &UnitStep) -> (result: Option<Vec<String>>)
    ensures
        argument_views(result) == systemctl(*step),
{
    match step {
        UnitStep::Reload { .. } => {
            let mut arguments: Vec<String> = Vec::new();
            arguments.push("--user".to_owned());
            arguments.push("daemon-reload".to_owned());
            assert(filter::text_views(arguments@) =~= seq!["--user"@, "daemon-reload"@]);
            Some(arguments)
        },
        UnitStep::Enable => unit_command("enable"),
        UnitStep::Start => unit_command("start"),
        UnitStep::AskActive => {
            let mut arguments: Vec<String> = Vec::new();
            arguments.push("--user".to_owned());
            arguments.push("is-active".to_owned());
            arguments.push("--quiet".to_owned());
            arguments.push("ullage.service".to_owned());
            assert(filter::text_views(arguments@) =~= seq![
                "--user"@,
                "is-active"@,
                "--quiet"@,
                "ullage.service"@,
            ]);
            Some(arguments)
        },
        UnitStep::Stop { .. } => unit_command("stop"),
        UnitStep::Disable => unit_command("disable"),
        _ => None,
    }
}

/// Whether the step ends a run.
pub open spec fn unit_ended(step: UnitStep) -> bool {
    step is Finish || step is Fail
}

/// The number of steps that can still follow, at most.
pub open spec fn unit_rank(step: UnitStep) -> nat {
    match step {
        UnitStep::Finish { .. } | UnitStep::Fail { .. } => 0,
        UnitStep::Enable | UnitStep::Start | UnitStep::Stop { .. } => 1,
        UnitStep::Reload { enable } => if enable {
            2
        } else {
            1
        },
        UnitStep::AskActive | UnitStep::RemoveUnit => 2,
        UnitStep::WriteUnit | UnitStep::Disable => 3,
        UnitStep::AskUnit { .. } => 4,
    }
}

/// Every run of the `systemd` steps ends, whatever comes of each.
pub proof fn unit_runs_end(step: UnitStep, outcome: Result<bool, String>, next: UnitStep)
    requires
        unit_follows(step, outcome, next),
        !unit_ended(step),
    ensures
        unit_rank(next) < unit_rank(step),
{
}

/// A step of `launchctl`.
#[derive(Debug)]
pub enum AgentStep {
    /// Make the log directory and its two private log files.
    PrepareLogs,
    WritePlist,
    /// Find out whether there is a property list, for the action.
    AskPlist { action: ServiceAction },
    /// Find out whether the agent is loaded, for the action.
    AskLoaded { action: ServiceAction },
    Kickstart,
    Bootstrap,
    Bootout,
    RemovePlist,
    /// Done; whether something that ran was stopped.
    Finish { stopped: bool },
    Fail { error: String },
}

/// The step an action starts with.
pub open spec fn agent_start(action: ServiceAction) -> AgentStep {
    match action {
        ServiceAction::Install => AgentStep::PrepareLogs,
        _ => AgentStep::AskPlist { action },
    }
}

/// The step an action starts with.
pub fn first_agent_step(action: ServiceAction) -> (result: AgentStep)
    ensures
        result == agent_start(action),
{
    match action {
        ServiceAction::Install => AgentStep::PrepareLogs,
        _ => AgentStep::AskPlist { action },
    }
}

/// The step fails with that message.
pub open spec fn agent_fails(next: AgentStep, message: Seq<char>) -> bool {
    next matches AgentStep::Fail { error } && error@ == message
}

/// What follows a step that came out so: an error, or the answer to the question
/// or request.
pub open spec fn agent_follows(
    step: AgentStep,
    outcome: Result<bool, String>,
    next: AgentStep,
) -> bool {
    match outcome {
        Err(error) => match step {
            AgentStep::Finish { .. } | AgentStep::Fail { .. } => next == step,
            _ => agent_fails(next, error@),
        },
        Ok(granted) => match step {
            AgentStep::PrepareLogs => next == AgentStep::WritePlist,
            AgentStep::WritePlist | AgentStep::RemovePlist => next == (AgentStep::Finish {
                stopped: false,
            }),
            AgentStep::AskPlist { action } => match action {
                ServiceAction::Start => if granted {
                    next == (AgentStep::AskLoaded { action })
                } else {
                    agent_fails(next, NOT_INSTALLED@)
                },
                ServiceAction::Stop => next == (AgentStep::AskLoaded { action }),
                ServiceAction::Uninstall => next == if granted {
                    AgentStep::RemovePlist
                } else {
                    AgentStep::Finish { stopped: false }
                },
                ServiceAction::Install => next == AgentStep::PrepareLogs,
            },
            AgentStep::AskLoaded { action } => next == match action {
                ServiceAction::Stop => if granted {
                    AgentStep::Bootout
                } else {
                    AgentStep::Finish { stopped: false }
                },
                _ => if granted {
                    AgentStep::Kickstart
                } else {
                    AgentStep::Bootstrap
                },
            },
            AgentStep::Kickstart | AgentStep::Bootstrap | AgentStep::Bootout => if granted {
                next == (AgentStep::Finish { stopped: step is Bootout })
            } else {
                agent_fails(next, REJECTED@)
            },
            AgentStep::Finish { .. } | AgentStep::Fail { .. } => next == step,
        },
    }
}

/// Decides what follows a step.
pub fn next_agent_step(step: AgentStep, outcome: Result<bool, String>) -> (next: AgentStep)
    ensures
        agent_follows(step, outcome, next),
{
    if let AgentStep::Finish { stopped } = step {
        return AgentStep::Finish { stopped };
    }
    if let AgentStep::Fail { error } = step {
        return AgentStep::Fail { error };
    }
    let granted: bool = match outcome {
        Ok(granted) => granted,
        Err(error) => {
            return AgentStep::Fail { error };
        },
    };
    match step {
        AgentStep::PrepareLogs => AgentStep::WritePlist,
        AgentStep::WritePlist | AgentStep::RemovePlist => AgentStep::Finish { stopped: false },
        AgentStep::AskPlist { action } => match action {
            ServiceAction::Start => if granted {
                AgentStep::AskLoaded { action }
            } else {
                AgentStep::Fail { error: NOT_INSTALLED.to_owned() }
            },
            ServiceAction::Stop => AgentStep::AskLoaded { action },
            ServiceAction::Uninstall => if granted {
                AgentStep::RemovePlist
            } else {
                AgentStep::Finish { stopped: false }
            },
            ServiceAction::Install => AgentStep::PrepareLogs,
        },
        AgentStep::AskLoaded { action } => match action {
            ServiceAction::Stop => if granted {
                AgentStep::Bootout
            } else {
                AgentStep::Finish { stopped: false }
            },
            _ => if granted {
                AgentStep::Kickstart
            } else {
                AgentStep::Bootstrap
            },
        },
        AgentStep::Bootout => if granted {
            AgentStep::Finish { stopped: true }
        } else {
            AgentStep::Fail { error: REJECTED.to_owned() }
        },
        _ => if granted {
            AgentStep::Finish { stopped: false }
        } else {
            AgentStep::Fail { error: REJECTED.to_owned() }
        },
    }
}

/// The domain of the user's agents.
pub open spec fn agent_domain(user: u32) -> Seq<char> {
    "gui/"@ + text::decimal_digits(user as nat)
}

/// The name of the agent in the domain of the user.
pub open spec fn agent_target(user: u32) -> Seq<char> {
    agent_domain(user) + "/"@ + service::LABEL@
}

/// The arguments of `launchctl` for a step, where the step calls it.
pub open spec fn launchctl(step: AgentStep, user: u32, plist: Seq<char>) -> Option<Seq<Seq<char>>> {
    match step {
        AgentStep::AskLoaded { .. } => Some(seq!["print"@, agent_target(user)]),
        AgentStep::Kickstart => Some(seq!["kickstart"@, agent_target(user)]),
        AgentStep::Bootstrap => Some(seq!["bootstrap"@, agent_domain(user), plist]),
        AgentStep::Bootout => Some(seq!["bootout"@, agent_target(user)]),
        _ => None,
    }
}

fn agent_command(verb: &str, user: u32) -> (result: Option<Vec<String>>)
    ensures
        argument_views(result) == Some(seq![verb@, agent_target(user)]),
{
    let domain = text::join2("gui/", text::decimal(user as u64).as_str());
    let target = text::join3(domain.as_str(), "/", service::LABEL);
    let mut arguments: Vec<String> = Vec::new();
    arguments.push(verb.to_owned());
    arguments.push(target);
    assert(filter::text_views(arguments@) =~= seq![verb@, agent_target(user)]);
    Some(arguments)
}

/// The arguments of `launchctl` for a step, where the step calls it.
pub fn launchctl_arguments(step: &AgentStep, user: u32, plist: &str) -> (result: Option<
    Vec<String>,
>)
    ensures
        argument_views(result) == launchctl(*step, user, plist@),
{
    match step {
        AgentStep::AskLoaded { .. } => agent_command("print", user),
        AgentStep::Kickstart => agent_command("kickstart", user),
        AgentStep::Bootstrap => {
            let mut arguments: Vec<String> = Vec::new();
            arguments.push("bootstrap".to_owned());
            arguments.push(text::join2("gui/", text::decimal(user as u64).as_str()));
            arguments.push(plist.to_owned());
            assert(filter::text_views(arguments@) =~= seq![
                "bootstrap"@,
                agent_domain(user),
                plist@,
            ]);
            Some(arguments)
        },
        AgentStep::Bootout => agent_command("bootout", user),
        _ => None,
    }
}

/// The text holds the words.
pub open spec fn holds(target: Seq<char>, words: Seq<char>) -> bool {
    exists|place: int| #[trigger] stands_at(target, words, place)
}

/// The words stand at that place of the text.
pub open spec fn stands_at(target: Seq<char>, words: Seq<char>, place: int) -> bool {
    0 <= place <= target.len() - words.len() && target.subrange(place, place + words.len()) == words
}

fn contains_words(target: &str, words: &str) -> (result: bool)
    ensures
        result == holds(target@, words@),
{
    let all: Vec<char> = text::characters(target);
    let count: usize = words.unicode_len();
    if count > all.len() {
        return false;
    }
    let length: usize = all.len();
    let last: usize = length - count;
    let mut place: usize = 0;
    loop
        invariant
            place <= last,
            length == all@.len(),
            last == length - count,
            count == words@.len(),
            all@ == target@,
            forall|i: int| 0 <= i < place ==> !#[trigger] stands_at(target@, words@, i),
        decreases last - place,
    {
        let part = text::text_between(&all, place, place + count);
        if text::same_text(part.as_str(), words) {
            assert(stands_at(target@, words@, place as int));
            return true;
        }
        assert(!stands_at(target@, words@, place as int));
        if place == last {
            return false;
        }
        place = place + 1;
    }
}

/// Whether the agent is loaded, or why that is not known.
pub open spec fn agent_told(
    success: bool,
    errors: &str,
    result: Result<bool, String>,
) -> bool {
    match result {
        Ok(loaded) => if loaded {
            success
        } else {
            !success && holds(errors@, "Could not find service"@)
        },
        Err(message) => {
            &&& !success
            &&& !holds(errors@, "Could not find service"@)
            &&& message@ == "launchctl service query failed"@
        },
    }
}

/// Whether the agent is loaded, from what `launchctl print` did.
pub fn agent_loaded(success: bool, errors: &str) -> (result: Result<bool, String>)
    ensures
        agent_told(success, errors, result),
{
    if success {
        return Ok(true);
    }
    if contains_words(errors, "Could not find service") {
        Ok(false)
    } else {
        Err("launchctl service query failed".to_owned())
    }
}

/// Whether the step ends a run.
pub open spec fn agent_ended(step: AgentStep) -> bool {
    step is Finish || step is Fail
}

/// The number of steps that can still follow, at most.
pub open spec fn agent_rank(step: AgentStep) -> nat {
    match step {
        AgentStep::Finish { .. } | AgentStep::Fail { .. } => 0,
        AgentStep::WritePlist | AgentStep::RemovePlist => 1,
        AgentStep::Kickstart | AgentStep::Bootstrap | AgentStep::Bootout => 1,
        AgentStep::PrepareLogs | AgentStep::AskLoaded { .. } => 2,
        AgentStep::AskPlist { .. } => 3,
    }
}

/// Every run of the `launchctl` steps ends, whatever comes of each.
pub proof fn agent_runs_end(step: AgentStep, outcome: Result<bool, String>, next: AgentStep)
    requires
        agent_follows(step, outcome, next),
        !agent_ended(step),
    ensures
        agent_rank(next) < agent_rank(step),
{
}

/// A step of the task scheduler.
#[derive(Debug)]
#[allow(inconsistent_fields)]
pub enum TaskStep {
    /// Read the marker, for the action.
    ReadMarker { action: ServiceAction },
    /// Find out whether the task of a finished installation exists.
    AskInstalled { action: ServiceAction, task: String },
    /// Query that task.
    QueryInstalled { action: ServiceAction, task: String },
    /// Create the task anew over the old one.
    Replace { task: String },
    /// Find out whether the task of an interrupted installation exists.
    AskPending { action: ServiceAction, task: String },
    /// Query that task.
    QueryPending { task: String },
    /// Name a new task.
    NameTask,
    /// Write the marker of a task that is about to be created.
    WriteMarker { task: String },
    /// Create the task; `fresh` if its marker was just written.
    Create { task: String, fresh: bool },
    /// Take back the marker of a task that could not be created.
    RollBack { error: String },
    FinalizeMarker,
    Run { task: String },
    AskRunning { task: String },
    End { task: String },
    Delete { task: String },
    RemoveMarker,
    /// Done; whether something that ran was stopped.
    Finish { stopped: bool },
    Fail { error: String },
}

/// What came of a step of the task scheduler.
#[derive(Debug)]
pub enum TaskOutcome {
    /// A question or a request: the answer.
    Answered(Result<bool, String>),
    /// The marker, where there is one.
    Marker(Result<Option<TaskMarkerState>, String>),
    /// The name of a new task.
    Named(Result<String, String>),
}

/// The message for a marker whose task is gone.
pub const DISAGREE: &'static str =
    "the Ullage task marker and Task Scheduler definition disagree";

/// The message for an installation that was interrupted.
pub const INCOMPLETE: &'static str = "daemon task installation is incomplete";

/// The message for a task that was never created.
pub const NO_TASK: &'static str = "daemon task is not installed";

/// The message for a program whose path cannot be quoted.
pub const NOT_QUOTABLE: &'static str = "service executable path cannot be safely quoted";

/// The message for a marker that outlived its task.
pub const NOT_ROLLED_BACK: &'static str = "daemon task creation and marker rollback failed";

/// The step an action starts with.
pub fn first_task_step(action: ServiceAction) -> (result: TaskStep)
    ensures
        result == (TaskStep::ReadMarker { action }),
{
    TaskStep::ReadMarker { action }
}

/// The outcome is one such a step can have.
pub open spec fn task_fits(step: TaskStep, outcome: TaskOutcome) -> bool {
    match step {
        TaskStep::ReadMarker { .. } => outcome is Marker,
        TaskStep::NameTask => outcome is Named,
        TaskStep::AskPending { action, .. } => outcome is Answered && action != ServiceAction::Start,
        _ => outcome is Answered,
    }
}

/// The step fails with that message.
pub open spec fn task_fails(next: TaskStep, message: Seq<char>) -> bool {
    next matches TaskStep::Fail { error } && error@ == message
}

/// What follows the reading of the marker.
pub open spec fn marker_leads_to(
    action: ServiceAction,
    marker: Option<TaskMarkerState>,
    next: TaskStep,
) -> bool {
    match marker {
        Some(TaskMarkerState::Installed(task)) => next == (TaskStep::AskInstalled { action, task }),
        Some(TaskMarkerState::Pending(task)) => match action {
            ServiceAction::Start => task_fails(next, INCOMPLETE@),
            _ => next == (TaskStep::AskPending { action, task }),
        },
        None => match action {
            ServiceAction::Install => next == TaskStep::NameTask,
            ServiceAction::Start => task_fails(next, NO_TASK@),
            _ => next == (TaskStep::Finish { stopped: false }),
        },
    }
}

/// What follows a question or a request that was answered.
pub open spec fn answer_leads_to(
    step: TaskStep,
    granted: bool,
    quotable: bool,
    next: TaskStep,
) -> bool {
    match step {
        TaskStep::AskInstalled { action, task } => if !granted {
            task_fails(next, DISAGREE@)
        } else {
            next == match action {
                ServiceAction::Install | ServiceAction::Start => TaskStep::QueryInstalled {
                    action,
                    task,
                },
                ServiceAction::Stop => TaskStep::AskRunning { task },
                ServiceAction::Uninstall => TaskStep::Delete { task },
            }
        },
        TaskStep::AskPending { action, task } => match action {
            ServiceAction::Install => if granted {
                next == (TaskStep::QueryPending { task })
            } else if quotable {
                next == (TaskStep::Create { task, fresh: false })
            } else {
                task_fails(next, NOT_QUOTABLE@)
            },
            ServiceAction::Uninstall => next == if granted {
                TaskStep::Delete { task }
            } else {
                TaskStep::RemoveMarker
            },
            _ => next == if granted {
                TaskStep::AskRunning { task }
            } else {
                TaskStep::Finish { stopped: false }
            },
        },
        TaskStep::AskRunning { task } => next == if granted {
            TaskStep::End { task }
        } else {
            TaskStep::Finish { stopped: false }
        },
        TaskStep::WriteMarker { task } => next == (TaskStep::Create { task, fresh: true }),
        TaskStep::RollBack { error } => task_fails(next, error@),
        TaskStep::FinalizeMarker | TaskStep::RemoveMarker => next == (TaskStep::Finish {
            stopped: false,
        }),
        TaskStep::Create { fresh, .. } => if granted {
            next == TaskStep::FinalizeMarker
        } else if fresh {
            next matches TaskStep::RollBack { error } && error@ == REJECTED@
        } else {
            task_fails(next, REJECTED@)
        },
        _ => if !granted {
            task_fails(next, REJECTED@)
        } else {
            match step {
                TaskStep::QueryInstalled { action: ServiceAction::Start, task } => next
                    == (TaskStep::Run { task }),
                TaskStep::QueryInstalled { task, .. } => if quotable {
                    next == (TaskStep::Replace { task })
                } else {
                    task_fails(next, NOT_QUOTABLE@)
                },
                TaskStep::QueryPending { .. } => next == TaskStep::FinalizeMarker,
                TaskStep::End { .. } => next == (TaskStep::Finish { stopped: true }),
                TaskStep::Delete { .. } => next == TaskStep::RemoveMarker,
                _ => next == (TaskStep::Finish { stopped: false }),
            }
        },
    }
}

/// What follows a step that came out so. `quotable` tells whether the path of
/// the program can be quoted in the command of a task.
pub open spec fn task_follows(
    step: TaskStep,
    outcome: TaskOutcome,
    quotable: bool,
    next: TaskStep,
) -> bool {
    if task_ended(step) {
        next == step
    } else {
        match outcome {
            TaskOutcome::Marker(Ok(marker)) => step matches TaskStep::ReadMarker { action }
                && marker_leads_to(action, marker, next),
            TaskOutcome::Marker(Err(error)) => task_fails(next, error@),
            TaskOutcome::Named(Ok(task)) => if quotable {
                next == (TaskStep::WriteMarker { task })
            } else {
                task_fails(next, NOT_QUOTABLE@)
            },
            TaskOutcome::Named(Err(error)) => task_fails(next, error@),
            TaskOutcome::Answered(Ok(granted)) => answer_leads_to(step, granted, quotable, next),
            TaskOutcome::Answered(Err(error)) => match step {
                TaskStep::Create { fresh: true, .. } => next == (TaskStep::RollBack { error }),
                TaskStep::RollBack { .. } => task_fails(next, NOT_ROLLED_BACK@),
                _ => task_fails(next, error@),
            },
        }
    }
}

fn after_marker(action: ServiceAction, marker: Option<TaskMarkerState>) -> (next: TaskStep)
    ensures
        marker_leads_to(action, marker, next),
{
    match marker {
        Some(TaskMarkerState::Installed(task)) => TaskStep::AskInstalled { action, task },
        Some(TaskMarkerState::Pending(task)) => match action {
            ServiceAction::Start => TaskStep::Fail { error: INCOMPLETE.to_owned() },
            _ => TaskStep::AskPending { action, task },
        },
        None => match action {
            ServiceAction::Install => TaskStep::NameTask,
            ServiceAction::Start => TaskStep::Fail { error: NO_TASK.to_owned() },
            _ => TaskStep::Finish { stopped: false },
        },
    }
}

fn rejected() -> (next: TaskStep)
    ensures
        task_fails(next, REJECTED@),
{
    TaskStep::Fail { error: REJECTED.to_owned() }
}

fn after_answer(step: TaskStep, granted: bool, quotable: bool) -> (next: TaskStep)
    requires
        !task_ended(step),
        task_fits(step, TaskOutcome::Answered(Ok(granted))),
    ensures
        answer_leads_to(step, granted, quotable, next),
{
    match step {
        TaskStep::AskInstalled { action, task } => {
            if !granted {
                return TaskStep::Fail { error: DISAGREE.to_owned() };
            }
            match action {
                ServiceAction::Install | ServiceAction::Start => TaskStep::QueryInstalled {
                    action,
                    task,
                },
                ServiceAction::Stop => TaskStep::AskRunning { task },
                ServiceAction::Uninstall => TaskStep::Delete { task },
            }
        },
        TaskStep::AskPending { action, task } => match action {
            ServiceAction::Install => match service::pending_install_recovery(granted) {
                service::PendingInstallRecovery::FinalizeMarker => TaskStep::QueryPending { task },
                service::PendingInstallRecovery::CreateTask => if quotable {
                    TaskStep::Create { task, fresh: false }
                } else {
                    TaskStep::Fail { error: NOT_QUOTABLE.to_owned() }
                },
            },
            ServiceAction::Uninstall => match service::pending_uninstall_recovery(granted) {
                service::PendingUninstallRecovery::DeleteTask => TaskStep::Delete { task },
                service::PendingUninstallRecovery::RemoveMarker => TaskStep::RemoveMarker,
            },
            _ => if granted {
                TaskStep::AskRunning { task }
            } else {
                TaskStep::Finish { stopped: false }
            },
        },
        TaskStep::AskRunning { task } => if granted {
            TaskStep::End { task }
        } else {
            TaskStep::Finish { stopped: false }
        },
        TaskStep::WriteMarker { task } => TaskStep::Create { task, fresh: true },
        TaskStep::RollBack { error } => TaskStep::Fail { error },
        TaskStep::FinalizeMarker | TaskStep::RemoveMarker => TaskStep::Finish { stopped: false },
        TaskStep::Create { fresh, .. } => if granted {
            TaskStep::FinalizeMarker
        } else if fresh {
            TaskStep::RollBack { error: REJECTED.to_owned() }
        } else {
            rejected()
        },
        TaskStep::QueryInstalled { action, task } => {
            if !granted {
                return rejected();
            }
            match action {
                ServiceAction::Start => TaskStep::Run { task },
                _ => if quotable {
                    TaskStep::Replace { task }
                } else {
                    TaskStep::Fail { error: NOT_QUOTABLE.to_owned() }
                },
            }
        },
        TaskStep::QueryPending { .. } => if granted {
            TaskStep::FinalizeMarker
        } else {
            rejected()
        },
        TaskStep::End { .. } => if granted {
            TaskStep::Finish { stopped: true }
        } else {
            rejected()
        },
        TaskStep::Delete { .. } => if granted {
            TaskStep::RemoveMarker
        } else {
            rejected()
        },
        _ => if granted {
            TaskStep::Finish { stopped: false }
        } else {
            rejected()
        },
    }
}

/// Decides what follows a step.
pub fn next_task_step(step: TaskStep, outcome: TaskOutcome, executable: &str) -> (next: TaskStep)
    requires
        task_fits(step, outcome),
    ensures
        task_follows(step, outcome, service::quotable(executable@), next),
{
    if let TaskStep::Finish { stopped } = step {
        return TaskStep::Finish { stopped };
    }
    if let TaskStep::Fail { error } = step {
        return TaskStep::Fail { error };
    }
    let quotable = service::quote_task_command(executable).is_ok();
    match outcome {
        TaskOutcome::Marker(Ok(marker)) => match step {
            TaskStep::ReadMarker { action } => after_marker(action, marker),
            other => other,
        },
        TaskOutcome::Marker(Err(error)) => TaskStep::Fail { error },
        TaskOutcome::Named(Ok(task)) => if quotable {
            TaskStep::WriteMarker { task }
        } else {
            TaskStep::Fail { error: NOT_QUOTABLE.to_owned() }
        },
        TaskOutcome::Named(Err(error)) => TaskStep::Fail { error },
        TaskOutcome::Answered(Ok(granted)) => after_answer(step, granted, quotable),
        TaskOutcome::Answered(Err(error)) => match step {
            TaskStep::Create { fresh, .. } => if fresh {
                TaskStep::RollBack { error }
            } else {
                TaskStep::Fail { error }
            },
            TaskStep::RollBack { .. } => TaskStep::Fail { error: NOT_ROLLED_BACK.to_owned() },
            _ => TaskStep::Fail { error },
        },
    }
}

/// The arguments of `schtasks` for a step, where the step calls it.
pub open spec fn schtasks(step: TaskStep, executable: Seq<char>) -> Option<Seq<Seq<char>>> {
    match step {
        TaskStep::AskInstalled { task, .. } => Some(seq!["/Query"@, "/TN"@, task@]),
        TaskStep::QueryInstalled { task, .. } => Some(seq!["/Query"@, "/TN"@, task@]),
        TaskStep::AskPending { task, .. } => Some(seq!["/Query"@, "/TN"@, task@]),
        TaskStep::QueryPending { task } => Some(seq!["/Query"@, "/TN"@, task@]),
        TaskStep::Run { task } => Some(seq!["/Run"@, "/TN"@, task@]),
        TaskStep::End { task } => Some(seq!["/End"@, "/TN"@, task@]),
        TaskStep::Delete { task } => Some(seq!["/Delete"@, "/TN"@, task@, "/F"@]),
        TaskStep::Replace { task } => Some(service::create_arguments(executable, task@, true)),
        TaskStep::Create { task, .. } => Some(service::create_arguments(executable, task@, false)),
        _ => None,
    }
}

fn task_command(verb: &str, task: &str) -> (result: Option<Vec<String>>)
    ensures
        argument_views(result) == Some(seq![verb@, "/TN"@, task@]),
{
    let mut arguments: Vec<String> = Vec::new();
    arguments.push(verb.to_owned());
    arguments.push("/TN".to_owned());
    arguments.push(task.to_owned());
    assert(filter::text_views(arguments@) =~= seq![verb@, "/TN"@, task@]);
    Some(arguments)
}

/// The arguments of `schtasks` for a step, where the step calls it.
pub fn schtasks_arguments(step: &TaskStep, executable: &str) -> (result: Option<Vec<String>>)
    requires
        step is Replace || step is Create ==> service::quotable(executable@),
    ensures
        argument_views(result) == schtasks(*step, executable@),
{
    match step {
        TaskStep::AskInstalled { task, .. } => task_command("/Query", task.as_str()),
        TaskStep::QueryInstalled { task, .. } => task_command("/Query", task.as_str()),
        TaskStep::AskPending { task, .. } => task_command("/Query", task.as_str()),
        TaskStep::QueryPending { task } => task_command("/Query", task.as_str()),
        TaskStep::Run { task } => task_command("/Run", task.as_str()),
        TaskStep::End { task } => task_command("/End", task.as_str()),
        TaskStep::Delete { task } => {
            let mut arguments: Vec<String> = Vec::new();
            arguments.push("/Delete".to_owned());
            arguments.push("/TN".to_owned());
            arguments.push(task.clone());
            arguments.push("/F".to_owned());
            assert(filter::text_views(arguments@) =~= seq!["/Delete"@, "/TN"@, task@, "/F"@]);
            Some(arguments)
        },
        TaskStep::Replace { task } => service::windows_create_arguments(
            executable,
            task.as_str(),
            true,
        ).ok(),
        TaskStep::Create { task, .. } => service::windows_create_arguments(
            executable,
            task.as_str(),
            false,
        ).ok(),
        _ => None,
    }
}

/// A step of asking the task scheduler whether a task runs.
#[derive(Debug)]
pub enum QueryStep {
    /// Join the component runtime.
    Initialize,
    /// Make the scheduler's service object.
    CreateService,
    Connect,
    /// Make the name of the root folder.
    NameRoot,
    OpenRoot,
    /// Make the name of the task.
    NameTask,
    OpenTask,
    AskState,
    /// Done; whether the task runs.
    Finish(Result<bool, String>),
}

/// The state of a task that runs.
pub const TASK_STATE_RUNNING: u32 = 4;

/// What is wrong when a step of the question fails.
pub open spec fn query_problem(step: QueryStep) -> Seq<char> {
    match step {
        QueryStep::Initialize => "Task Scheduler COM initialization failed"@,
        QueryStep::CreateService => "Task Scheduler query failed"@,
        QueryStep::Connect => "Task Scheduler connection failed"@,
        QueryStep::NameRoot | QueryStep::NameTask => "Task Scheduler query allocation failed"@,
        QueryStep::OpenRoot => "Task Scheduler root could not be opened"@,
        QueryStep::OpenTask => "Task Scheduler definition could not be opened"@,
        _ => "Task Scheduler state query failed"@,
    }
}

/// The step that follows one which gave that number, where it succeeded.
pub open spec fn query_follows(step: QueryStep, outcome: Option<u32>, next: QueryStep) -> bool {
    match step {
        QueryStep::Finish(result) => next == QueryStep::Finish(result),
        _ => match outcome {
            None => next matches QueryStep::Finish(Err(message)) && message@ == query_problem(step),
            Some(state) => match step {
                QueryStep::Initialize => next is CreateService,
                QueryStep::CreateService => next is Connect,
                QueryStep::Connect => next is NameRoot,
                QueryStep::NameRoot => next is OpenRoot,
                QueryStep::OpenRoot => next is NameTask,
                QueryStep::NameTask => next is OpenTask,
                QueryStep::OpenTask => next is AskState,
                _ => next == QueryStep::Finish(Ok(state == TASK_STATE_RUNNING)),
            },
        },
    }
}

/// The step that follows. `outcome` is the number that the step gave, the state
/// where that was asked for, and nothing where the step failed.
pub fn next_query_step(step: QueryStep, outcome: Option<u32>) -> (next: QueryStep)
    ensures
        query_follows(step, outcome, next),
{
    if let QueryStep::Finish(result) = step {
        return QueryStep::Finish(result);
    }
    match outcome {
        None => {
            let problem = match step {
                QueryStep::Initialize => "Task Scheduler COM initialization failed",
                QueryStep::CreateService => "Task Scheduler query failed",
                QueryStep::Connect => "Task Scheduler connection failed",
                QueryStep::NameRoot | QueryStep::NameTask => "Task Scheduler query allocation failed",
                QueryStep::OpenRoot => "Task Scheduler root could not be opened",
                QueryStep::OpenTask => "Task Scheduler definition could not be opened",
                _ => "Task Scheduler state query failed",
            };
            QueryStep::Finish(Err(problem.to_owned()))
        },
        Some(state) => match step {
            QueryStep::Initialize => QueryStep::CreateService,
            QueryStep::CreateService => QueryStep::Connect,
            QueryStep::Connect => QueryStep::NameRoot,
            QueryStep::NameRoot => QueryStep::OpenRoot,
            QueryStep::OpenRoot => QueryStep::NameTask,
            QueryStep::NameTask => QueryStep::OpenTask,
            QueryStep::OpenTask => QueryStep::AskState,
            _ => QueryStep::Finish(Ok(state == TASK_STATE_RUNNING)),
        },
    }
}

/// The number of steps of the question that can still follow.
pub open spec fn query_rank(step: QueryStep) -> nat {
    match step {
        QueryStep::Initialize => 8,
        QueryStep::CreateService => 7,
        QueryStep::Connect => 6,
        QueryStep::NameRoot => 5,
        QueryStep::OpenRoot => 4,
        QueryStep::NameTask => 3,
        QueryStep::OpenTask => 2,
        QueryStep::AskState => 1,
        QueryStep::Finish(_) => 0,
    }
}

/// Every question to the task scheduler ends, and a task is only said to run
/// when its state was asked for.
pub proof fn query_runs_end(step: QueryStep, outcome: Option<u32>, next: QueryStep)
    requires
        query_follows(step, outcome, next),
        !(step is Finish),
    ensures
        query_rank(next) < query_rank(step),
        next == QueryStep::Finish(Ok(true)) ==> step is AskState && outcome == Some(
            TASK_STATE_RUNNING,
        ),
{
}

/// Whether the step ends a run.
pub open spec fn task_ended(step: TaskStep) -> bool {
    step is Finish || step is Fail
}

/// The number of steps that can still follow, at most.
pub open spec fn task_rank(step: TaskStep) -> nat {
    match step {
        TaskStep::Finish { .. } | TaskStep::Fail { .. } => 0,
        TaskStep::Run { .. } | TaskStep::End { .. } | TaskStep::Replace { .. } => 1,
        TaskStep::RollBack { .. } | TaskStep::FinalizeMarker | TaskStep::RemoveMarker => 1,
        TaskStep::QueryInstalled { .. } | TaskStep::QueryPending { .. } => 2,
        TaskStep::AskRunning { .. } | TaskStep::Delete { .. } | TaskStep::Create { .. } => 2,
        TaskStep::AskInstalled { .. } | TaskStep::AskPending { .. } => 3,
        TaskStep::WriteMarker { .. } => 3,
        TaskStep::NameTask => 4,
        TaskStep::ReadMarker { .. } => 5,
    }
}

/// Every run of the task scheduler steps ends, whatever comes of each.
pub proof fn task_runs_end(step: TaskStep, outcome: TaskOutcome, quotable: bool, next: TaskStep)
    requires
        task_follows(step, outcome, quotable, next),
        task_fits(step, outcome),
        !task_ended(step),
    ensures
        task_rank(next) < task_rank(step),
{
}

/// A marker that was written for a task which then could not be created is taken
/// back before the failure is reported.
pub proof fn failed_creations_are_rolled_back(
    task: String,
    outcome: Result<bool, String>,
    quotable: bool,
    next: TaskStep,
)
    requires
        outcome != Ok::<bool, String>(true),
        task_follows(
            TaskStep::Create { task, fresh: true },
            TaskOutcome::Answered(outcome),
            quotable,
            next,
        ),
    ensures
        next is RollBack,
{
}

/// Only a stop that ended something reports that something was stopped.
pub proof fn only_an_ended_task_was_stopped(
    step: TaskStep,
    outcome: TaskOutcome,
    quotable: bool,
    next: TaskStep,
)
    requires
        task_follows(step, outcome, quotable, next),
        task_fits(step, outcome),
        !task_ended(step),
        next == (TaskStep::Finish { stopped: true }),
    ensures
        step is End && outcome == TaskOutcome::Answered(Ok(true)),
{
}

} // verus!
