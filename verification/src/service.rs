//! The background service of each platform: the manifests it is described by,
//! the marker that names its task, and what makes a path fit to hold either.

use vstd::prelude::*;
use vstd::string::StringExecFns;

use crate::summary::filter;
use crate::text;

pub mod steps;

verus! {

/// The name the service goes by under `launchd`.
pub const LABEL: &'static str = "dev.onevoke.ullage";

/// A path that cannot be written into a manifest.
pub const NOT_UNICODE: &'static str = "service executable path is not Unicode";

/// A log path that cannot be written into a manifest.
pub const LOG_NOT_UNICODE: &'static str = "service log path is not Unicode";

/// A marker of this many bytes at most is read.
pub const MAX_MARKER_BYTES: usize = 192;

/// The number of characters in the nonce of a task name.
pub const NONCE_CHARACTERS: usize = 32;

/// Some character of the text is a control character.
pub open spec fn has_control(text: Seq<char>) -> bool {
    exists|i: int| 0 <= i < text.len() && text::control(#[trigger] text[i])
}

fn contains_control(target: &str) -> (result: bool)
    ensures
        result == has_control(target@),
{
    let all: Vec<char> = text::characters(target);
    let mut index: usize = 0;
    while index < all.len()
        invariant
            index <= all@.len(),
            all@ == target@,
            forall|i: int| 0 <= i < index ==> !text::control(#[trigger] all@[i]),
        decreases all@.len() - index,
    {
        if text::is_control(all[index]) {
            return true;
        }
        index = index + 1;
    }
    false
}

/// How a character is written inside a quoted word of a unit file.
pub open spec fn unit_escape(character: char) -> Seq<char> {
    if character == '\\' {
        seq!['\\', '\\']
    } else if character == '"' {
        seq!['\\', '"']
    } else if character == '%' {
        seq!['%', '%']
    } else if character == '$' {
        seq!['$', '$']
    } else {
        seq![character]
    }
}

/// How a text is written inside a quoted word of a unit file.
pub open spec fn unit_escaped(target: Seq<char>) -> Seq<char>
    decreases target.len(),
{
    if target.len() == 0 {
        Seq::empty()
    } else {
        unit_escaped(target.drop_last()) + unit_escape(target.last())
    }
}

fn escape_for_unit(target: &str) -> (result: String)
    ensures
        result@ == unit_escaped(target@),
{
    let all: Vec<char> = text::characters(target);
    let mut result = String::new();
    let mut index: usize = 0;
    while index < all.len()
        invariant
            index <= all@.len(),
            all@ == target@,
            result@ == unit_escaped(all@.take(index as int)),
        decreases all@.len() - index,
    {
        let character: char = all[index];
        if character == '\\' || character == '"' {
            result.push('\\');
        }
        if character == '%' || character == '$' {
            result.push(character);
        }
        result.push(character);
        proof {
            let before = all@.take(index as int);
            let after = all@.take(index + 1);
            assert(after.drop_last() == before);
            assert(after.last() == character);
            assert(result@ == unit_escaped(before) + unit_escape(character));
        }
        index = index + 1;
    }
    assert(all@.take(index as int) == all@);
    result
}

/// The unit file for a program whose path is written as `executable`.
pub open spec fn unit_file(executable: Seq<char>) -> Seq<char> {
    "[Unit]\nDescription=Ullage subscription usage daemon\n\n[Service]\nType=simple\nExecStart=\""@
        + executable
        + "\" __daemon\nRestart=on-failure\nRestartSec=5\nUMask=0077\nNoNewPrivileges=true\n\n[Install]\nWantedBy=default.target\n"@
}

/// The unit for a program, or why there is none.
pub open spec fn unit_rendered(
    executable: &str,
    result: Result<String, String>,
) -> bool {
    match result {
        Ok(unit) => !has_control(executable@) && unit@ == unit_file(unit_escaped(executable@)),
        Err(message) => has_control(executable@) && message@
            == "service executable path contains control characters"@,
    }
}

/// The `systemd` unit file of the daemon.
pub fn render_unit(executable: &str) -> (result: Result<String, String>)
    ensures
        unit_rendered(executable, result),
{
    if contains_control(executable) {
        return Err("service executable path contains control characters".to_owned());
    }
    let escaped = escape_for_unit(executable);
    Ok(
        text::join3(
            "[Unit]\nDescription=Ullage subscription usage daemon\n\n[Service]\nType=simple\nExecStart=\"",
            escaped.as_str(),
            "\" __daemon\nRestart=on-failure\nRestartSec=5\nUMask=0077\nNoNewPrivileges=true\n\n[Install]\nWantedBy=default.target\n",
        ),
    )
}

/// How a character is written in XML text.
pub open spec fn xml_character(character: char) -> Seq<char> {
    if character == '&' {
        "&amp;"@
    } else if character == '<' {
        "&lt;"@
    } else if character == '>' {
        "&gt;"@
    } else if character == '"' {
        "&quot;"@
    } else if character == '\'' {
        "&apos;"@
    } else {
        seq![character]
    }
}

/// How a text is written in XML text.
pub open spec fn xml_escaped(target: Seq<char>) -> Seq<char>
    decreases target.len(),
{
    if target.len() == 0 {
        Seq::empty()
    } else {
        xml_escaped(target.drop_last()) + xml_character(target.last())
    }
}

/// The escaped text, or why there is none.
pub open spec fn xml_taken(
    value: &str,
    result: Result<String, String>,
) -> bool {
    match result {
        Ok(escaped) => !has_control(value@) && escaped@ == xml_escaped(value@),
        Err(message) => has_control(value@) && message@
            == "service path contains control characters"@,
    }
}

/// The text as XML text; a text with control characters is refused.
pub fn xml_escape(value: &str) -> (result: Result<String, String>)
    ensures
        xml_taken(value, result),
{
    if contains_control(value) {
        return Err("service path contains control characters".to_owned());
    }
    let all: Vec<char> = text::characters(value);
    let mut result = String::new();
    let mut index: usize = 0;
    while index < all.len()
        invariant
            index <= all@.len(),
            all@ == value@,
            result@ == xml_escaped(all@.take(index as int)),
        decreases all@.len() - index,
    {
        let character: char = all[index];
        if character == '&' {
            result.append("&amp;");
        } else if character == '<' {
            result.append("&lt;");
        } else if character == '>' {
            result.append("&gt;");
        } else if character == '"' {
            result.append("&quot;");
        } else if character == '\'' {
            result.append("&apos;");
        } else {
            result.push(character);
        }
        proof {
            let before = all@.take(index as int);
            let after = all@.take(index + 1);
            assert(after.drop_last() == before);
            assert(after.last() == character);
            assert(result@ == xml_escaped(before) + xml_character(character));
        }
        index = index + 1;
    }
    assert(all@.take(index as int) == all@);
    Ok(result)
}

/// A relative path below a directory: a slash stands between the two unless the
/// directory is empty or ends with one.
pub open spec fn below(directory: Seq<char>, relative: Seq<char>) -> Seq<char> {
    if directory.len() == 0 || directory.last() == '/' {
        directory + relative
    } else {
        directory + "/"@ + relative
    }
}

/// A relative path below a directory.
pub fn path_below(directory: &str, relative: &str) -> (result: String)
    ensures
        result@ == below(directory@, relative@),
{
    let length: usize = directory.unicode_len();
    if length == 0 || directory.get_char(length - 1) == '/' {
        text::join2(directory, relative)
    } else {
        text::join3(directory, "/", relative)
    }
}

/// The log directory of the service below the home directory.
pub open spec fn log_directory(home: Seq<char>) -> Seq<char> {
    below(home, "Library/Logs/Ullage"@)
}

/// The property list for a program and its two logs, all written as XML text.
pub open spec fn plist_file(
    executable: Seq<char>,
    log: Seq<char>,
    error_log: Seq<char>,
) -> Seq<char> {
    "<?xml version=\"1.0\" encoding=\"UTF-8\"?>\n<!DOCTYPE plist PUBLIC \"-//Apple//DTD PLIST 1.0//EN\" \"http://www.apple.com/DTDs/PropertyList-1.0.dtd\">\n<plist version=\"1.0\"><dict>\n<key>Label</key><string>"@
        + LABEL@ + "</string>\n<key>ProgramArguments</key><array><string>"@ + executable
        + "</string><string>__daemon</string></array>\n<key>RunAtLoad</key><true/>\n<key>KeepAlive</key><dict><key>SuccessfulExit</key><false/></dict>\n<key>StandardOutPath</key><string>"@
        + log + "</string>\n<key>StandardErrorPath</key><string>"@ + error_log
        + "</string>\n<key>Umask</key><integer>63</integer>\n</dict></plist>\n"@
}

/// The property list for a program, or why there is none.
pub open spec fn plist_rendered(
    executable: &str,
    home: &str,
    result: Result<String, String>,
) -> bool {
    match result {
        Ok(plist) => !has_control(executable@) && !has_control(home@) && plist@ == plist_file(
            xml_escaped(executable@),
            xml_escaped(below(log_directory(home@), "ullage.log"@)),
            xml_escaped(below(log_directory(home@), "ullage-error.log"@)),
        ),
        Err(message) => (has_control(executable@) || has_control(home@)) && message@
            == "service path contains control characters"@,
    }
}

/// The `launchd` property list of the daemon.
pub fn render_plist(executable: &str, home: &str) -> (result: Result<String, String>)
    ensures
        plist_rendered(executable, home, result),
{
    let directory = path_below(home, "Library/Logs/Ullage");
    let log_path = path_below(directory.as_str(), "ullage.log");
    let error_log_path = path_below(directory.as_str(), "ullage-error.log");
    proof {
        reveal_strlit("Library/Logs/Ullage");
        reveal_strlit("ullage.log");
        reveal_strlit("ullage-error.log");
        reveal_strlit("/");
        plain_tails_add_no_control(home@, "Library/Logs/Ullage"@);
        plain_tails_add_no_control(directory@, "ullage.log"@);
        plain_tails_add_no_control(directory@, "ullage-error.log"@);
    }
    let executable = match xml_escape(executable) {
        Ok(escaped) => escaped,
        Err(message) => {
            return Err(message);
        },
    };
    let log = match xml_escape(log_path.as_str()) {
        Ok(escaped) => escaped,
        Err(message) => {
            return Err(message);
        },
    };
    let error_log = match xml_escape(error_log_path.as_str()) {
        Ok(escaped) => escaped,
        Err(message) => {
            return Err(message);
        },
    };
    let mut plist = text::join3(
        "<?xml version=\"1.0\" encoding=\"UTF-8\"?>\n<!DOCTYPE plist PUBLIC \"-//Apple//DTD PLIST 1.0//EN\" \"http://www.apple.com/DTDs/PropertyList-1.0.dtd\">\n<plist version=\"1.0\"><dict>\n<key>Label</key><string>",
        LABEL,
        "</string>\n<key>ProgramArguments</key><array><string>",
    );
    plist.append(executable.as_str());
    plist.append(
        "</string><string>__daemon</string></array>\n<key>RunAtLoad</key><true/>\n<key>KeepAlive</key><dict><key>SuccessfulExit</key><false/></dict>\n<key>StandardOutPath</key><string>",
    );
    plist.append(log.as_str());
    plist.append("</string>\n<key>StandardErrorPath</key><string>");
    plist.append(error_log.as_str());
    plist.append("</string>\n<key>Umask</key><integer>63</integer>\n</dict></plist>\n");
    Ok(plist)
}

proof fn plain_tails_add_no_control(directory: Seq<char>, relative: Seq<char>)
    requires
        !has_control(relative),
    ensures
        has_control(below(directory, relative)) == has_control(directory),
{
    reveal_strlit("/");
    let whole = below(directory, relative);
    assert(forall|i: int| 0 <= i < directory.len() ==> whole[i] == directory[i]);
    if has_control(directory) {
        let place = choose|i: int| 0 <= i < directory.len() && text::control(#[trigger] directory[i]);
        assert(text::control(whole[place]));
    }
    if has_control(whole) {
        let place = choose|i: int| 0 <= i < whole.len() && text::control(#[trigger] whole[i]);
        if place >= directory.len() {
            let start = whole.len() - relative.len();
            if place >= start {
                assert(whole[place] == relative[place - start]);
            }
        }
    }
}

/// A program whose path can be quoted in the command of a task.
pub open spec fn quotable(executable: Seq<char>) -> bool {
    !executable.contains('"') && !executable.contains('%') && !has_control(executable)
}

/// The command of the task that runs the program.
pub open spec fn task_command(executable: Seq<char>) -> Seq<char> {
    "\""@ + executable + "\" __daemon"@
}

fn contains_character(target: &str, wanted: char) -> (result: bool)
    ensures
        result == target@.contains(wanted),
{
    let all: Vec<char> = text::characters(target);
    let mut index: usize = 0;
    while index < all.len()
        invariant
            index <= all@.len(),
            all@ == target@,
            forall|i: int| 0 <= i < index ==> all@[i] != wanted,
        decreases all@.len() - index,
    {
        if all[index] == wanted {
            assert(target@[index as int] == wanted);
            return true;
        }
        index = index + 1;
    }
    false
}

/// The command of a task, or why there is none.
pub open spec fn task_quoted(
    executable: &str,
    result: Result<String, String>,
) -> bool {
    match result {
        Ok(command) => quotable(executable@) && command@ == task_command(executable@),
        Err(message) => !quotable(executable@) && message@
            == "service executable path cannot be safely quoted"@,
    }
}

/// The command of the task that runs the program, quoted without a shell.
pub fn quote_task_command(executable: &str) -> (result: Result<String, String>)
    ensures
        task_quoted(executable, result),
{
    if contains_character(executable, '"') || contains_character(executable, '%')
        || contains_control(executable) {
        return Err("service executable path cannot be safely quoted".to_owned());
    }
    Ok(text::join3("\"", executable, "\" __daemon"))
}

/// The arguments that create the task, or replace it.
pub open spec fn create_arguments(
    executable: Seq<char>,
    task: Seq<char>,
    replace: bool,
) -> Seq<Seq<char>> {
    let first = seq![
        "/Create"@,
        "/SC"@,
        "ONLOGON"@,
        "/TN"@,
        task,
        "/TR"@,
        task_command(executable),
    ];
    let last = seq!["/RL"@, "LIMITED"@];
    if replace {
        first.push("/F"@) + last
    } else {
        first + last
    }
}

/// The arguments that create a task, or why there are none.
pub open spec fn task_created_by(
    executable: &str,
    task: &str,
    replace: bool,
    result: Result<Vec<String>, String>,
) -> bool {
    match result {
        Ok(arguments) => quotable(executable@) && filter::text_views(arguments@)
            == create_arguments(executable@, task@, replace),
        Err(message) => !quotable(executable@) && message@
            == "service executable path cannot be safely quoted"@,
    }
}

/// The arguments that create the task, or replace it.
pub fn windows_create_arguments(executable: &str, task: &str, replace: bool) -> (result: Result<
    Vec<String>,
    String,
>)
    ensures
        task_created_by(executable, task, replace, result),
{
    let command = match quote_task_command(executable) {
        Ok(command) => command,
        Err(message) => {
            return Err(message);
        },
    };
    let mut arguments: Vec<String> = Vec::new();
    arguments.push("/Create".to_owned());
    arguments.push("/SC".to_owned());
    arguments.push("ONLOGON".to_owned());
    arguments.push("/TN".to_owned());
    arguments.push(task.to_owned());
    arguments.push("/TR".to_owned());
    arguments.push(command);
    if replace {
        arguments.push("/F".to_owned());
    }
    arguments.push("/RL".to_owned());
    arguments.push("LIMITED".to_owned());
    assert(filter::text_views(arguments@) =~= create_arguments(executable@, task@, replace));
    Ok(arguments)
}

/// What an interrupted installation still needs.
#[derive(Clone, Copy, Debug, PartialEq, Eq, Structural)]
pub enum PendingInstallRecovery {
    CreateTask,
    FinalizeMarker,
}

/// How an installation that was broken off goes on.
pub open spec fn install_recovered(
    task_exists: bool,
    result: PendingInstallRecovery,
) -> bool {
    result == if task_exists {
        PendingInstallRecovery::FinalizeMarker
    } else {
        PendingInstallRecovery::CreateTask
    }
}

/// What an interrupted installation still needs: its task, or only the marker.
pub fn pending_install_recovery(task_exists: bool) -> (result: PendingInstallRecovery)
    ensures
        install_recovered(task_exists, result),
{
    if task_exists {
        PendingInstallRecovery::FinalizeMarker
    } else {
        PendingInstallRecovery::CreateTask
    }
}

/// What is left of an interrupted installation.
#[derive(Clone, Copy, Debug, PartialEq, Eq, Structural)]
pub enum PendingUninstallRecovery {
    DeleteTask,
    RemoveMarker,
}

/// How a removal that was broken off goes on.
pub open spec fn uninstall_recovered(
    task_exists: bool,
    result: PendingUninstallRecovery,
) -> bool {
    result == if task_exists {
        PendingUninstallRecovery::DeleteTask
    } else {
        PendingUninstallRecovery::RemoveMarker
    }
}

/// What is left of an interrupted installation: its task, or only the marker.
pub fn pending_uninstall_recovery(task_exists: bool) -> (result: PendingUninstallRecovery)
    ensures
        uninstall_recovered(task_exists, result),
{
    if task_exists {
        PendingUninstallRecovery::DeleteTask
    } else {
        PendingUninstallRecovery::RemoveMarker
    }
}

/// What the marker of the task says.
#[derive(Debug, PartialEq, Eq)]
pub enum TaskMarkerState {
    Pending(String),
    Installed(String),
}

/// A lower-case hexadecimal digit.
pub open spec fn hex_digit(character: char) -> bool {
    '0' <= character <= '9' || 'a' <= character <= 'f'
}

/// A task name: this program's, this user's, and a nonce.
pub open spec fn task_name(scope: Seq<char>, nonce: Seq<char>) -> Seq<char> {
    "Ullage-"@ + scope + "-"@ + nonce
}

/// A name that this program gave a task of this user.
pub open spec fn valid_name(task: Seq<char>, scope: Seq<char>) -> bool {
    let nonce = task.skip(task.len() - NONCE_CHARACTERS);
    &&& task.len() >= NONCE_CHARACTERS
    &&& task == task_name(scope, nonce)
    &&& forall|i: int| 0 <= i < nonce.len() ==> hex_digit(#[trigger] nonce[i])
}

/// The name of a new task.
pub fn new_task_name(scope: &str, nonce: &str) -> (result: String)
    ensures
        result@ == task_name(scope@, nonce@),
{
    let mut name = text::join3("Ullage-", scope, "-");
    name.append(nonce);
    name
}

/// Whether this program gave a task of this user the name.
pub fn valid_task_name(task: &str, scope: &str) -> (result: bool)
    ensures
        result == valid_name(task@, scope@),
{
    let all: Vec<char> = text::characters(task);
    let length: usize = all.len();
    if length < NONCE_CHARACTERS {
        return false;
    }
    let start: usize = length - NONCE_CHARACTERS;
    let nonce = text::text_between(&all, start, length);
    assert(nonce@ == task@.skip(start as int));
    let named = new_task_name(scope, nonce.as_str());
    if !text::same_text(named.as_str(), task) {
        return false;
    }
    let mut index: usize = start;
    while index < length
        invariant
            start <= index <= length,
            length == all@.len(),
            start == length - NONCE_CHARACTERS,
            all@ == task@,
            nonce@ == task@.skip(start as int),
            task@ == task_name(scope@, nonce@),
            forall|i: int| 0 <= i < index - start ==> hex_digit(#[trigger] nonce@[i]),
        decreases length - index,
    {
        let character: char = all[index];
        assert(character == nonce@[index - start]);
        if !(('0' <= character && character <= '9') || ('a' <= character && character <= 'f')) {
            return false;
        }
        index = index + 1;
    }
    true
}

/// A marker in that state for that task: two lines, of which the last may lack
/// its end.
pub open spec fn marks(
    contents: Seq<char>,
    state: Seq<char>,
    task: Seq<char>,
    scope: Seq<char>,
) -> bool {
    &&& valid_name(task, scope)
    &&& !task.contains('\n')
    &&& contents == state + "\n"@ + task || contents == state + "\n"@ + task + "\n"@
}

/// The first contents of the marker for a task.
pub open spec fn pending_marker(task: Seq<char>) -> Seq<char> {
    "0\n"@ + task + "\n"@
}

/// The first contents of the marker for a task.
pub fn pending_task_marker(task: &str) -> (result: String)
    ensures
        result@ == pending_marker(task@),
{
    text::join3("0\n", task, "\n")
}

/// What a marker tells, or that it tells nothing.
pub open spec fn marker_parsed(
    contents: &str,
    length: usize,
    scope: &str,
    result: Result<TaskMarkerState, String>,
) -> bool {
    match result {
        Ok(TaskMarkerState::Pending(task)) => length <= MAX_MARKER_BYTES && marks(
            contents@,
            "0"@,
            task@,
            scope@,
        ),
        Ok(TaskMarkerState::Installed(task)) => length <= MAX_MARKER_BYTES && marks(
            contents@,
            "1"@,
            task@,
            scope@,
        ),
        Err(message) => {
            &&& message@ == "service marker contents are invalid"@
            &&& length > MAX_MARKER_BYTES || forall|task: Seq<char>|
                !#[trigger] marks(contents@, "0"@, task, scope@) && !marks(
                    contents@,
                    "1"@,
                    task,
                    scope@,
                )
        },
    }
}

/// What a marker file says. `length` is its size in bytes.
pub fn parse_task_marker(contents: &str, length: usize, scope: &str) -> (result: Result<
    TaskMarkerState,
    String,
>)
    ensures
        marker_parsed(contents, length, scope, result),
{
    proof {
        reveal_strlit("\n");
        reveal_strlit("0");
        reveal_strlit("1");
    }
    if length > MAX_MARKER_BYTES {
        return Err("service marker contents are invalid".to_owned());
    }
    let all: Vec<char> = text::characters(contents);
    let count: usize = all.len();
    proof {
        assert forall|task: Seq<char>|
            marks(contents@, "0"@, task, scope@) || marks(contents@, "1"@, task, scope@) implies {
            let end = if contents@.last() == '\n' {
                contents@.len() - 1
            } else {
                contents@.len() as int
            };
            &&& contents@.len() >= 2
            &&& contents@[1] == '\n'
            &&& end >= 2
            &&& task == contents@.subrange(2, end)
            &&& marks(contents@, "0"@, task, scope@) ==> contents@[0] == '0'
            &&& marks(contents@, "1"@, task, scope@) ==> contents@[0] == '1'
        } by {
            let state = if marks(contents@, "0"@, task, scope@) { "0"@ } else { "1"@ };
            assert(marks(contents@, state, task, scope@));
            assert(task.len() > 0);
            if contents@ == state + "\n"@ + task {
                assert(contents@.last() == task.last());
                assert(task.contains(task.last()));
                assert(contents@.subrange(2, contents@.len() as int) == task);
            } else {
                assert(contents@.subrange(2, contents@.len() - 1) == task);
            }
            assert(contents@[0] == state[0]);
        }
    }
    if count < 2 || all[1] != '\n' || (all[0] != '0' && all[0] != '1') {
        return Err("service marker contents are invalid".to_owned());
    }
    let end: usize = if all[count - 1] == '\n' {
        count - 1
    } else {
        count
    };
    if end < 2 {
        return Err("service marker contents are invalid".to_owned());
    }
    let task = text::text_between(&all, 2, end);
    if contains_character(task.as_str(), '\n') || !valid_task_name(task.as_str(), scope) {
        return Err("service marker contents are invalid".to_owned());
    }
    let ghost state = seq![all@[0]];
    assert(contents@ == state + "\n"@ + task@ || contents@ == state + "\n"@ + task@ + "\n"@);
    if all[0] == '0' {
        assert(state == "0"@);
        Ok(TaskMarkerState::Pending(task))
    } else {
        assert(state == "1"@);
        Ok(TaskMarkerState::Installed(task))
    }
}

/// What is known of a file without following a link to it.
#[derive(Clone, Copy, Debug)]
pub struct FileFacts {
    pub regular: bool,
    pub directory: bool,
    pub socket: bool,
    pub link: bool,
    pub owner: u32,
    pub mode: u32,
}

/// What looking for a file found.
#[derive(Clone, Copy, Debug)]
pub enum Found {
    File(FileFacts),
    Nothing,
    Unknown,
}

/// The owner of a file is trusted: the administrator or the user.
pub open spec fn trusted_owner(facts: FileFacts, user: u32) -> bool {
    facts.owner == 0 || facts.owner == user
}

/// An ancestor directory through which a file cannot be swapped.
pub open spec fn safe_ancestor(facts: FileFacts, user: u32) -> bool {
    !facts.link && trusted_owner(facts, user)
}

/// The file whose path is the first that spoils a service program.
pub open spec fn first_unsafe(ancestors: Seq<Option<FileFacts>>, user: u32, place: int) -> bool {
    &&& 0 <= place < ancestors.len()
    &&& !(ancestors[place] matches Some(facts) && safe_ancestor(facts, user))
    &&& forall|i: int|
        0 <= i < place ==> (#[trigger] ancestors[i] matches Some(facts) && safe_ancestor(facts, user))
}

/// What a look at the program comes to.
pub open spec fn executable_checked(
    executable: Option<FileFacts>,
    ancestors: &Vec<Option<FileFacts>>,
    user: u32,
    result: Result<(), String>,
) -> bool {
    match result {
        Ok(_) => {
            &&& executable matches Some(facts) && facts.regular && !facts.link
                && trusted_owner(facts, user)
            &&& forall|i: int|
                0 <= i < ancestors@.len() ==> (#[trigger] ancestors@[i] matches Some(facts)
                    && safe_ancestor(facts, user))
        },
        Err(message) => match executable {
            None => message@ == "service executable could not be validated"@,
            Some(facts) => if !facts.regular || facts.link || !trusted_owner(facts, user) {
                message@
                    == "service executable must be a regular file owned by the current user or root"@
            } else {
                exists|place: int| #[trigger]
                    first_unsafe(ancestors@, user, place) && message@ == if ancestors@[place]
                        is None {
                        "service executable path could not be validated"@
                    } else {
                        "service executable path contains an unsafe ancestor"@
                    }
            },
        },
    }
}

/// The program is one the service may run: a regular file of the user or the
/// administrator, below directories that are theirs too. `ancestors` holds what
/// is known of each directory above it, the nearest first.
pub fn validate_executable(
    executable: Option<FileFacts>,
    ancestors: &Vec<Option<FileFacts>>,
    user: u32,
) -> (result: Result<(), String>)
    ensures
        executable_checked(executable, ancestors, user, result),
{
    let facts = match executable {
        None => {
            return Err("service executable could not be validated".to_owned());
        },
        Some(facts) => facts,
    };
    if !facts.regular || facts.link || (facts.owner != 0 && facts.owner != user) {
        return Err(
            "service executable must be a regular file owned by the current user or root".to_owned(),
        );
    }
    let mut index: usize = 0;
    while index < ancestors.len()
        invariant
            index <= ancestors@.len(),
            executable == Some(facts),
            facts.regular && !facts.link && trusted_owner(facts, user),
            forall|i: int|
                0 <= i < index ==> (#[trigger] ancestors@[i] matches Some(facts) && safe_ancestor(
                    facts,
                    user,
                )),
        decreases ancestors@.len() - index,
    {
        match ancestors[index] {
            None => {
                assert(first_unsafe(ancestors@, user, index as int));
                return Err("service executable path could not be validated".to_owned());
            },
            Some(found) => {
                if found.link || (found.owner != 0 && found.owner != user) {
                    assert(first_unsafe(ancestors@, user, index as int));
                    return Err("service executable path contains an unsafe ancestor".to_owned());
                }
            },
        }
        index = index + 1;
    }
    Ok(())
}

/// A component of a path that is missing, or through which a file cannot be
/// swapped.
pub open spec fn tolerable(found: Found, user: u32) -> bool {
    match found {
        Found::File(facts) => safe_ancestor(facts, user),
        Found::Nothing => true,
        Found::Unknown => false,
    }
}

/// The first component that spoils a path.
pub open spec fn first_intolerable(components: Seq<Found>, user: u32, place: int) -> bool {
    &&& 0 <= place < components.len()
    &&& !tolerable(components[place], user)
    &&& forall|i: int| 0 <= i < place ==> tolerable(#[trigger] components[i], user)
}

/// What a look at the directories above an entry comes to.
pub open spec fn ancestors_checked(
    components: &Vec<Found>,
    user: u32,
    result: Result<(), String>,
) -> bool {
    match result {
        Ok(_) => forall|i: int|
            0 <= i < components@.len() ==> tolerable(#[trigger] components@[i], user),
        Err(message) => exists|place: int| #[trigger]
            first_intolerable(components@, user, place) && message@ == if components@[place]
                is File {
                "service path contains an unsafe ancestor"@
            } else {
                "service path could not be validated"@
            },
    }
}

/// No component of a path is a link or belongs to somebody else. `components`
/// holds what is known of each, the topmost first.
pub fn validate_unix_ancestors(components: &Vec<Found>, user: u32) -> (result: Result<(), String>)
    ensures
        ancestors_checked(components, user, result),
{
    let mut index: usize = 0;
    while index < components.len()
        invariant
            index <= components@.len(),
            forall|i: int| 0 <= i < index ==> tolerable(#[trigger] components@[i], user),
        decreases components@.len() - index,
    {
        match components[index] {
            Found::File(facts) => {
                if facts.link || (facts.owner != 0 && facts.owner != user) {
                    assert(first_intolerable(components@, user, index as int));
                    return Err("service path contains an unsafe ancestor".to_owned());
                }
            },
            Found::Nothing => {},
            Found::Unknown => {
                assert(first_intolerable(components@, user, index as int));
                return Err("service path could not be validated".to_owned());
            },
        }
        index = index + 1;
    }
    Ok(())
}

/// What a look at the manifest comes to.
pub open spec fn manifest_checked(
    found: Found,
    ancestors: Result<(), String>,
    opened: Result<FileFacts, String>,
    user: u32,
    result: Result<bool, String>,
) -> bool {
    match found {
        Found::Nothing => result == Ok::<bool, String>(false),
        Found::Unknown => result matches Err(message) && message@
            == "service entry could not be inspected"@,
        Found::File(_) => match ancestors {
            Err(error) => result == Err::<bool, String>(error),
            Ok(_) => match opened {
                Err(error) => result == Err::<bool, String>(error),
                Ok(facts) => if facts.regular && facts.owner == user {
                    result == Ok::<bool, String>(true)
                } else {
                    result matches Err(message) && message@
                        == "service manifest must be a current-user-owned regular file"@
                },
            },
        },
    }
}

/// Whether the manifest exists, and is the user's own regular file. `opened` is
/// what is known of the file once it was opened, where there is one.
pub fn private_manifest_exists(
    found: Found,
    ancestors: Result<(), String>,
    opened: Result<FileFacts, String>,
    user: u32,
) -> (result: Result<bool, String>)
    ensures
        manifest_checked(found, ancestors, opened, user, result),
{
    match found {
        Found::Nothing => Ok(false),
        Found::Unknown => Err("service entry could not be inspected".to_owned()),
        Found::File(_) => {
            if let Err(error) = ancestors {
                return Err(error);
            }
            match opened {
                Err(error) => Err(error),
                Ok(facts) => {
                    if !facts.regular || facts.owner != user {
                        return Err(
                            "service manifest must be a current-user-owned regular file".to_owned(),
                        );
                    }
                    Ok(true)
                },
            }
        },
    }
}

/// What a look at the directory of the logs comes to.
pub open spec fn directory_checked(
    found: Option<FileFacts>,
    user: u32,
    result: Result<(), String>,
) -> bool {
    match found {
        None => result matches Err(message) && message@
            == "service log directory could not be validated"@,
        Some(facts) => if facts.directory && !facts.link && facts.owner == user {
            result is Ok
        } else {
            result matches Err(message) && message@
                == "service log directory must be a current-user-owned directory"@
        },
    }
}

/// Whether the log directory is a directory of the user's own.
pub fn validate_private_directory(found: Option<FileFacts>, user: u32) -> (result: Result<
    (),
    String,
>)
    ensures
        directory_checked(found, user, result),
{
    match found {
        None => Err("service log directory could not be validated".to_owned()),
        Some(facts) => {
            if !facts.directory || facts.link || facts.owner != user {
                return Err(
                    "service log directory must be a current-user-owned directory".to_owned(),
                );
            }
            Ok(())
        },
    }
}

/// What a look at a log comes to.
pub open spec fn log_file_checked(
    opened: Option<FileFacts>,
    user: u32,
    result: Result<(), String>,
) -> bool {
    match opened {
        None => result matches Err(message) && message@
            == "service log file could not be validated"@,
        Some(facts) => if facts.regular && facts.owner == user {
            result is Ok
        } else {
            result matches Err(message) && message@
                == "service log file must be a current-user-owned regular file"@
        },
    }
}

/// Whether the log file, once opened, is a regular file of the user's own.
pub fn validate_log_file(opened: Option<FileFacts>, user: u32) -> (result: Result<(), String>)
    ensures
        log_file_checked(opened, user, result),
{
    match opened {
        None => Err("service log file could not be validated".to_owned()),
        Some(facts) => {
            if !facts.regular || facts.owner != user {
                return Err(
                    "service log file must be a current-user-owned regular file".to_owned(),
                );
            }
            Ok(())
        },
    }
}

/// What is known of one component of a Windows path: whether it is a reparse
/// point before it is opened, and once it is.
#[derive(Clone, Copy, Debug)]
pub struct WindowsComponent {
    pub seen: Option<bool>,
    pub opened: bool,
    pub confirmed: Option<bool>,
}

/// What spoils a component of a Windows path.
pub open spec fn component_problem(component: WindowsComponent) -> Option<Seq<char>> {
    match component.seen {
        None => Some("service executable path could not be validated"@),
        Some(true) => Some("service executable path must not contain reparse points"@),
        Some(false) => if !component.opened {
            Some("service executable path could not be fixed safely"@)
        } else {
            match component.confirmed {
                None => Some("service executable path could not be validated"@),
                Some(true) => Some("service executable path must not contain reparse points"@),
                Some(false) => None,
            }
        },
    }
}

/// What a look at a part of the path comes to.
pub open spec fn component_checked(
    component: WindowsComponent,
    result: Result<(), String>,
) -> bool {
    match result {
        Ok(_) => component_problem(component) is None,
        Err(message) => component_problem(component) == Some(message@),
    }
}

/// Whether one component of a Windows path is fixed and no reparse point.
pub fn validate_windows_component(component: WindowsComponent) -> (result: Result<(), String>)
    ensures
        component_checked(component, result),
{
    match component.seen {
        None => Err("service executable path could not be validated".to_owned()),
        Some(reparse) => {
            if reparse {
                return Err("service executable path must not contain reparse points".to_owned());
            }
            if !component.opened {
                return Err("service executable path could not be fixed safely".to_owned());
            }
            match component.confirmed {
                None => Err("service executable path could not be validated".to_owned()),
                Some(confirmed) => {
                    if confirmed {
                        return Err(
                            "service executable path must not contain reparse points".to_owned(),
                        );
                    }
                    Ok(())
                },
            }
        },
    }
}

/// Whether a component of a Windows path, counted from the file upwards, is held
/// so that nobody writes or deletes it: the file and its directory are.
pub fn held_exclusively(depth: usize) -> (result: bool)
    ensures
        result == (depth < 2),
{
    depth < 2
}

/// Whether the task is installed, or why that is not known.
pub open spec fn task_known(
    marker: Result<Option<TaskMarkerState>, String>,
    known: Result<bool, String>,
    queried: Result<bool, String>,
    result: Result<bool, String>,
) -> bool {
    match marker {
        Err(error) => result == Err::<bool, String>(error),
        Ok(None) => result == Ok::<bool, String>(false),
        Ok(Some(TaskMarkerState::Pending(_))) => result matches Err(message) && message@
            == steps::INCOMPLETE@,
        Ok(Some(TaskMarkerState::Installed(_))) => match known {
            Err(error) => result == Err::<bool, String>(error),
            Ok(false) => result matches Err(message) && message@ == steps::DISAGREE@,
            Ok(true) => match queried {
                Err(error) => result == Err::<bool, String>(error),
                Ok(false) => result matches Err(message) && message@ == steps::REJECTED@,
                Ok(true) => result == Ok::<bool, String>(true),
            },
        },
    }
}

/// Whether the task is installed, from its marker and what the scheduler
/// answered: whether it knows the task, and whether it grants a query for it.
pub fn task_installed(
    marker: Result<Option<TaskMarkerState>, String>,
    known: Result<bool, String>,
    queried: Result<bool, String>,
) -> (result: Result<bool, String>)
    ensures
        task_known(marker, known, queried, result),
{
    match marker {
        Err(error) => Err(error),
        Ok(None) => Ok(false),
        Ok(Some(TaskMarkerState::Pending(_))) => Err(steps::INCOMPLETE.to_owned()),
        Ok(Some(TaskMarkerState::Installed(_))) => match known {
            Err(error) => Err(error),
            Ok(known) => {
                if !known {
                    return Err(steps::DISAGREE.to_owned());
                }
                match queried {
                    Err(error) => Err(error),
                    Ok(queried) => {
                        if !queried {
                            return Err(steps::REJECTED.to_owned());
                        }
                        Ok(true)
                    },
                }
            },
        },
    }
}

/// Inside a quoted word of a unit file, a reader that takes a backslash together
/// with what follows it meets no quote.
pub open spec fn stays_quoted(word: Seq<char>) -> bool
    decreases word.len(),
{
    if word.len() == 0 {
        true
    } else if word[0] == '\\' {
        word.len() >= 2 && stays_quoted(word.skip(2))
    } else {
        word[0] != '"' && stays_quoted(word.skip(1))
    }
}

proof fn escaping_starts_with_the_first(target: Seq<char>)
    requires
        target.len() > 0,
    ensures
        unit_escaped(target) == unit_escape(target[0]) + unit_escaped(target.skip(1)),
    decreases target.len(),
{
    if target.len() == 1 {
        assert(target.drop_last() == Seq::<char>::empty());
        assert(target.skip(1) == Seq::<char>::empty());
        assert(unit_escaped(target.drop_last()) == Seq::<char>::empty());
        assert(unit_escaped(target.skip(1)) == Seq::<char>::empty());
        assert(unit_escaped(target) == unit_escape(target[0]));
    } else {
        escaping_starts_with_the_first(target.drop_last());
        assert(target.drop_last().skip(1) == target.skip(1).drop_last());
        assert(target.skip(1).last() == target.last());
        assert(unit_escaped(target) =~= unit_escape(target[0]) + unit_escaped(target.skip(1)));
    }
}

/// Whatever the path of the program is, the unit file reads it as one word: no
/// character of it ends the quotes round it.
pub proof fn the_program_stays_quoted(executable: Seq<char>)
    ensures
        stays_quoted(unit_escaped(executable)),
    decreases executable.len(),
{
    if executable.len() > 0 {
        escaping_starts_with_the_first(executable);
        let rest = unit_escaped(executable.skip(1));
        let word = unit_escaped(executable);
        the_program_stays_quoted(executable.skip(1));
        if executable[0] == '\\' || executable[0] == '"' {
            assert(word[0] == '\\');
            assert(word.skip(2) == rest);
        } else {
            assert(word[0] == executable[0]);
            assert(word.skip(1) == unit_escape(executable[0]).skip(1) + rest);
            if executable[0] == '%' || executable[0] == '$' {
                assert(word.skip(1).skip(1) == rest);
                assert(word.skip(1)[0] == executable[0]);
                assert(stays_quoted(word.skip(1)));
            } else {
                assert(word.skip(1) == rest);
            }
        }
    }
}

/// An XML text holds no character that could end or start markup.
pub proof fn escaped_text_holds_no_markup(value: Seq<char>)
    ensures
        forall|i: int|
            0 <= i < xml_escaped(value).len() ==> !seq!['<', '>', '"', '\''].contains(
                #[trigger] xml_escaped(value)[i],
            ),
    decreases value.len(),
{
    reveal_strlit("&amp;");
    reveal_strlit("&lt;");
    reveal_strlit("&gt;");
    reveal_strlit("&quot;");
    reveal_strlit("&apos;");
    if value.len() > 0 {
        let before = xml_escaped(value.drop_last());
        let added = xml_character(value.last());
        escaped_text_holds_no_markup(value.drop_last());
        let markup = seq!['<', '>', '"', '\''];
        assert(markup[0] == '<' && markup[1] == '>' && markup[2] == '"' && markup[3] == '\'');
        assert forall|i: int| 0 <= i < added.len() implies !markup.contains(#[trigger] added[i]) by {}
        assert forall|i: int| 0 <= i < xml_escaped(value).len() implies !markup.contains(
            #[trigger] xml_escaped(value)[i],
        ) by {
            if i < before.len() {
                assert(xml_escaped(value)[i] == before[i]);
            } else {
                assert(xml_escaped(value)[i] == added[i - before.len()]);
            }
        }
    }
}

/// A marker says what was written: it is pending as it was created, and
/// installed once its first character was replaced.
pub proof fn a_marker_says_what_was_written(task: Seq<char>, scope: Seq<char>)
    requires
        valid_name(task, scope),
        !task.contains('\n'),
    ensures
        marks(pending_marker(task), "0"@, task, scope),
        marks(pending_marker(task).update(0, '1'), "1"@, task, scope),
{
    reveal_strlit("0");
    reveal_strlit("1");
    reveal_strlit("\n");
    reveal_strlit("0\n");
    assert(pending_marker(task) =~= "0"@ + "\n"@ + task + "\n"@);
    assert(pending_marker(task).update(0, '1') =~= "1"@ + "\n"@ + task + "\n"@);
}

/// A marker names one task, in one state.
pub proof fn a_marker_names_one_task(
    contents: Seq<char>,
    state: Seq<char>,
    task: Seq<char>,
    other_state: Seq<char>,
    other: Seq<char>,
    scope: Seq<char>,
)
    requires
        state == "0"@ || state == "1"@,
        other_state == "0"@ || other_state == "1"@,
        marks(contents, state, task, scope),
        marks(contents, other_state, other, scope),
    ensures
        state == other_state,
        task == other,
{
    reveal_strlit("0");
    reveal_strlit("1");
    reveal_strlit("\n");
    assert(contents[0] == state[0]);
    assert(contents[0] == other_state[0]);
    assert(state =~= other_state);
    assert(task.len() > 0 && other.len() > 0);
    assert(task.contains(task.last()));
    assert(other.contains(other.last()));
    if contents == state + "\n"@ + task {
        assert(contents.last() == task.last());
        assert(contents == other_state + "\n"@ + other);
        assert(contents.skip(2) == task);
        assert(contents.skip(2) == other);
    } else {
        assert(contents.last() == '\n');
        if contents == other_state + "\n"@ + other {
            assert(contents.last() == other.last());
        }
        assert(contents.subrange(2, contents.len() - 1) == task);
        assert(contents.subrange(2, contents.len() - 1) == other);
    }
}

} // verus!
