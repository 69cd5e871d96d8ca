//! What the service's files say, and which files are trusted.

use vstd::prelude::*;

use crate::service;
use crate::service::steps;
use crate::service::{
    FileFacts, Found, PendingInstallRecovery, PendingUninstallRecovery, TaskMarkerState,
    WindowsComponent,
};
use crate::summary::filter;
use crate::text;

verus! {

/// A text with a control character in it.
pub open spec fn controlled(target: Seq<char>) -> bool {
    exists|i: int| 0 <= i < target.len() && text::control(#[trigger] target[i])
}

/// A program whose path holds a control character has no unit, property list or
/// task; any other has a unit and a property list that run it, with its path
/// escaped, and a task that runs it where its path can be quoted.
pub proof fn programs_get_their_manifests(
    executable: &str,
    home: &str,
    unit: Result<String, String>,
    plist: Result<String, String>,
    task: Result<String, String>,
)
    requires
        service::unit_rendered(executable, unit),
        service::plist_rendered(executable, home, plist),
        service::task_quoted(executable, task),
    ensures
        unit is Err <==> controlled(executable@),
        unit matches Ok(written) ==> written@ == service::unit_file(
            service::unit_escaped(executable@),
        ),
        unit matches Err(message) ==> message@
            == "service executable path contains control characters"@,
        plist is Err <==> controlled(executable@) || controlled(home@),
        plist matches Ok(written) ==> written@ == service::plist_file(
            service::xml_escaped(executable@),
            service::xml_escaped(
                service::below(service::below(home@, "Library/Logs/Ullage"@), "ullage.log"@),
            ),
            service::xml_escaped(
                service::below(service::below(home@, "Library/Logs/Ullage"@), "ullage-error.log"@),
            ),
        ),
        plist matches Err(message) ==> message@ == "service path contains control characters"@,
        task is Err <==> controlled(executable@) || executable@.contains('"')
            || executable@.contains('%'),
        task matches Ok(command) ==> command@ == "\""@ + executable@ + "\" __daemon"@,
        task matches Err(message) ==> message@ == "service executable path cannot be safely quoted"@,
{
}

/// A task is created to run at logon, with limited rights, by its name; over one
/// that is there only where it is to be replaced.
pub proof fn tasks_are_created_by_name(
    executable: &str,
    task: &str,
    replace: bool,
    result: Result<Vec<String>, String>,
)
    requires
        service::task_created_by(executable, task, replace, result),
    ensures
        result is Err <==> controlled(executable@) || executable@.contains('"')
            || executable@.contains('%'),
        result matches Ok(arguments) ==> {
            let words = filter::text_views(arguments@);
            &&& words.len() == if replace {
                10int
            } else {
                9
            }
            &&& words[0] == "/Create"@
            &&& words[1] == "/SC"@ && words[2] == "ONLOGON"@
            &&& words[3] == "/TN"@ && words[4] == task@
            &&& words[5] == "/TR"@ && words[6] == "\""@ + executable@ + "\" __daemon"@
            &&& replace ==> words[7] == "/F"@ && words[8] == "/RL"@ && words[9] == "LIMITED"@
            &&& !replace ==> words[7] == "/RL"@ && words[8] == "LIMITED"@
        },
{
}

/// An installation that was broken off is finished where its task is there, and else
/// gone on with; a removal deletes the task where it is there, and then its marker.
pub proof fn broken_off_work_goes_on(
    task_exists: bool,
    install: PendingInstallRecovery,
    uninstall: PendingUninstallRecovery,
)
    requires
        service::install_recovered(task_exists, install),
        service::uninstall_recovered(task_exists, uninstall),
    ensures
        task_exists <==> install is FinalizeMarker,
        task_exists <==> uninstall is DeleteTask,
{
}

/// A marker tells what was written: reading a written one gives the state and the
/// task, for a name of this user's that fits in a marker; and nothing else is a
/// marker.
pub proof fn written_markers_are_read(
    task: Seq<char>,
    contents: &str,
    length: usize,
    scope: &str,
    result: Result<TaskMarkerState, String>,
)
    requires
        service::marker_parsed(contents, length, scope, result),
        service::valid_name(task, scope@),
        !task.contains('\n'),
    ensures
        length <= 192 && contents@ == "0\n"@ + task + "\n"@ ==> (result matches Ok(
            TaskMarkerState::Pending(read),
        ) && read@ == task),
        length <= 192 && contents@ == "1\n"@ + task + "\n"@ ==> (result matches Ok(
            TaskMarkerState::Installed(read),
        ) && read@ == task),
        length > 192 ==> result is Err,
        result matches Err(message) ==> message@ == "service marker contents are invalid"@,
{
    service::a_marker_says_what_was_written(task, scope@);
    reveal_strlit("0\n");
    reveal_strlit("1\n");
    reveal_strlit("0");
    reveal_strlit("1");
    reveal_strlit("\n");
    if length <= 192 && contents@ == "0\n"@ + task + "\n"@ {
        assert(contents@ == service::pending_marker(task));
        assert(service::marks(contents@, "0"@, task, scope@));
        if let Ok(TaskMarkerState::Pending(read)) = result {
            service::a_marker_names_one_task(contents@, "0"@, task, "0"@, read@, scope@);
        }
        if let Ok(TaskMarkerState::Installed(read)) = result {
            service::a_marker_names_one_task(contents@, "0"@, task, "1"@, read@, scope@);
            assert("0"@[0] != "1"@[0]);
        }
    }
    if length <= 192 && contents@ == "1\n"@ + task + "\n"@ {
        assert(contents@ =~= service::pending_marker(task).update(0, '1'));
        assert(service::marks(contents@, "1"@, task, scope@));
        if result is Err {
            assert(!service::marks(contents@, "0"@, task, scope@));
        }
        if let Ok(TaskMarkerState::Installed(read)) = result {
            service::a_marker_names_one_task(contents@, "1"@, task, "1"@, read@, scope@);
        }
        if let Ok(TaskMarkerState::Pending(read)) = result {
            service::a_marker_names_one_task(contents@, "1"@, task, "0"@, read@, scope@);
            assert("0"@[0] != "1"@[0]);
        }
    }
}

/// The user or the administrator owns it.
pub open spec fn owned(facts: FileFacts, user: u32) -> bool {
    facts.owner == user || facts.owner == 0
}

/// A program is trusted where it is a regular file, behind no link, of this user's or
/// the administrator's, and so is every directory above it.
pub proof fn trusted_programs_are_owned(
    executable: Option<FileFacts>,
    ancestors: &Vec<Option<FileFacts>>,
    user: u32,
    result: Result<(), String>,
)
    requires
        service::executable_checked(executable, ancestors, user, result),
    ensures
        result is Ok <==> executable is Some && executable->0.regular && !executable->0.link
            && owned(executable->0, user) && forall|i: int|
            0 <= i < ancestors@.len() ==> (#[trigger] ancestors@[i]) is Some
                && !ancestors@[i]->0.link && owned(ancestors@[i]->0, user),
        result matches Err(message) ==> {
            &&& executable is None ==> message@ == "service executable could not be validated"@
            &&& executable is Some && (!executable->0.regular || executable->0.link || !owned(
                executable->0,
                user,
            )) ==> message@
                == "service executable must be a regular file owned by the current user or root"@
        },
{
    if result is Err && executable is Some && executable->0.regular && !executable->0.link && owned(
        executable->0,
        user,
    ) {
        let place = choose|place: int| #[trigger]
            service::first_unsafe(ancestors@, user, place) && result->Err_0@ == if ancestors@[place]
                is None {
                "service executable path could not be validated"@
            } else {
                "service executable path contains an unsafe ancestor"@
            };
        assert(!(ancestors@[place] matches Some(facts) && service::safe_ancestor(facts, user)));
    }
}

/// The directories above a file of the service are trusted where each that is there
/// can be looked at, is behind no link, and is of this user's or the administrator's.
pub proof fn trusted_directories_are_owned(
    components: &Vec<Found>,
    user: u32,
    result: Result<(), String>,
)
    requires
        service::ancestors_checked(components, user, result),
    ensures
        result is Ok <==> forall|i: int|
            0 <= i < components@.len() ==> match #[trigger] components@[i] {
                Found::Nothing => true,
                Found::Unknown => false,
                Found::File(facts) => !facts.link && owned(facts, user),
            },
{
    if result is Err {
        let place = choose|place: int| #[trigger]
            service::first_intolerable(components@, user, place) && result->Err_0@
                == if components@[place] is File {
                "service path contains an unsafe ancestor"@
            } else {
                "service path could not be validated"@
            };
        assert(!service::tolerable(components@[place], user));
    } else {
        assert forall|i: int| 0 <= i < components@.len() implies match #[trigger] components@[i] {
            Found::Nothing => true,
            Found::Unknown => false,
            Found::File(facts) => !facts.link && owned(facts, user),
        } by {
            assert(service::tolerable(components@[i], user));
        }
    }
}

/// A manifest counts as there where it is a regular file of this user's own, below
/// trusted directories; where there is none, it is not; and all else is a failure.
/// A log, and the directory of logs, is used only where it is this user's own.
pub proof fn manifests_and_logs_are_the_users_own(
    found: Found,
    ancestors: Result<(), String>,
    opened: Result<FileFacts, String>,
    user: u32,
    exists_there: Result<bool, String>,
    directory: Option<FileFacts>,
    directory_result: Result<(), String>,
    log: Option<FileFacts>,
    log_result: Result<(), String>,
)
    requires
        service::manifest_checked(found, ancestors, opened, user, exists_there),
        service::directory_checked(directory, user, directory_result),
        service::log_file_checked(log, user, log_result),
    ensures
        exists_there == Ok::<bool, String>(false) <==> found is Nothing,
        exists_there == Ok::<bool, String>(true) <==> found is File && ancestors is Ok && opened
            is Ok && opened->Ok_0.regular && opened->Ok_0.owner == user,
        found is File && ancestors is Err ==> exists_there == Err::<bool, String>(ancestors->Err_0),
        directory_result is Ok <==> directory is Some && directory->0.directory
            && !directory->0.link && directory->0.owner == user,
        log_result is Ok <==> log is Some && log->0.regular && log->0.owner == user,
{
}

/// A part of a program's path on Windows is fixed where it is no reparse point,
/// neither before nor after it was opened.
pub proof fn fixed_parts_are_no_reparse_points(
    component: WindowsComponent,
    result: Result<(), String>,
)
    requires
        service::component_checked(component, result),
    ensures
        result is Ok <==> component.seen == Some(false) && component.opened && component.confirmed
            == Some(false),
        component.seen == Some(true) ==> (result matches Err(message) && message@
            == "service executable path must not contain reparse points"@),
{
}

/// A task counts as installed where its marker is finished, the manager knows it, and
/// the question whether it is there was answered; where there is no marker, it does
/// not; a marker that is not finished, or that the manager contradicts, is a failure.
pub proof fn tasks_are_installed_where_all_agree(
    marker: Result<Option<TaskMarkerState>, String>,
    known: Result<bool, String>,
    queried: Result<bool, String>,
    result: Result<bool, String>,
)
    requires
        service::task_known(marker, known, queried, result),
    ensures
        result == Ok::<bool, String>(true) <==> (marker matches Ok(Some(
            TaskMarkerState::Installed(_),
        ))) && known == Ok::<bool, String>(true) && queried == Ok::<bool, String>(true),
        result == Ok::<bool, String>(false) <==> (marker matches Ok(None)),
        marker matches Ok(Some(TaskMarkerState::Pending(_))) ==> (result matches Err(message)
            && message@ == "daemon task installation is incomplete"@),
        marker matches Err(error) ==> result == Err::<bool, String>(error),
{
}

/// The agent is loaded where the question for it succeeds; it is not where the
/// answer says that there is none; any other failure is one.
pub proof fn agents_are_loaded_where_they_answer(
    success: bool,
    errors: &str,
    result: Result<bool, String>,
)
    requires
        steps::agent_told(success, errors, result),
    ensures
        result == Ok::<bool, String>(true) <==> success,
        result == Ok::<bool, String>(false) <==> !success && exists|i: int|
            0 <= i <= errors@.len() - 22 && #[trigger] errors@.subrange(i, i + 22)
                == "Could not find service"@,
        result is Err ==> (result matches Err(message) && message@
            == "launchctl service query failed"@),
{
    reveal_strlit("Could not find service");
    let words = "Could not find service"@;
    assert(words.len() == 22);
    if steps::holds(errors@, words) {
        let place = choose|place: int| #[trigger] steps::stands_at(errors@, words, place);
        assert(errors@.subrange(place, place + 22) == words);
    }
    if exists|i: int|
        0 <= i <= errors@.len() - 22 && #[trigger] errors@.subrange(i, i + 22) == words {
        let i = choose|i: int|
            0 <= i <= errors@.len() - 22 && #[trigger] errors@.subrange(i, i + 22) == words;
        assert(steps::stands_at(errors@, words, i));
    }
}

/// A text with a control character in it cannot stand in a property list; any other
/// stands there with its markup escaped.
pub proof fn markup_is_escaped_or_refused(value: &str, taken: Result<String, String>)
    requires
        service::xml_taken(value, taken),
    ensures
        taken is Err <==> controlled(value@),
        taken matches Ok(escaped) ==> escaped@ == service::xml_escaped(value@),
        taken matches Err(message) ==> message@ == "service path contains control characters"@,
{
}

} // verus!
