//! The control endpoint: where it is, whom it trusts, how long an answer may
//! take, how a reply is framed, and how the daemon behind it is started and
//! stopped.
//!
//! The control endpoint is a private boundary: a Unix socket must be owned by
//! the current user with no group or other bits, a Windows pipe must be local,
//! and every reply is bounded by [`MAX_RESPONSE_BYTES`] and a per-command
//! deadline.

use vstd::prelude::*;
use vstd::string::StringExecFns;

use crate::errors::{ClientError, ServiceAction};
use crate::inspect;
use crate::protocol::{
    ControlCommand, ControlRequest, ControlResponse, ControlResult, CONTROL_PROTOCOL_VERSION,
};
use crate::redact;
use crate::service;
use crate::service::FileFacts;
use crate::text;
use crate::usage::Timestamp;
use crate::validate;

verus! {

/// A reply of more bytes than this, its newline included, is not read.
pub const MAX_RESPONSE_BYTES: usize = 1048576;

/// The most bytes that are read at once.
pub const CHUNK_BYTES: usize = 8192;

/// The seconds an answer to an ordinary request may take.
pub const CONTROL_TIMEOUT: u64 = 30;

/// The seconds an answer to a request that completes a sign-in may take.
///
/// Completing a sign-in waits on the provider, and the daemon does not send a
/// reply twice: timing out early would drop the one carrying the credential it
/// has already stored.
pub const SIGN_IN_TIMEOUT: u64 = 90;

/// The seconds an answer to a probe that waits may take.
pub const PROBE_WAIT_TIMEOUT: u64 = 300;

/// The seconds a spawned or service-started daemon may take to answer.
pub const DAEMON_STARTUP_TIMEOUT: u64 = 5;

/// The nanoseconds one question after the daemon may take.
pub const POLL_BUDGET: u64 = 250000000;

/// The bytes of the daemon's error stream that a report of a failed start holds.
pub const DAEMON_STDERR_TAIL_BYTES: u64 = 8192;

/// The names tried for the log of one start.
pub const DAEMON_ERROR_LOG_ATTEMPTS: u32 = 8;

/// The seconds after which the log of a start is stale.
pub const DAEMON_ERROR_LOG_MAX_AGE: i64 = 86400;

/// The client of the daemon on this machine.
#[derive(Debug)]
pub struct SystemClient {
    /// Where the daemon listens, where that is known.
    pub endpoint: Option<String>,
}

/// The socket below a temporary directory that only this user has.
pub open spec fn default_socket(temporary: Seq<char>, user: u32) -> Seq<char> {
    service::below(
        service::below(temporary, "ullage-"@ + text::decimal_digits(user as nat)),
        "control.sock"@,
    )
}

/// The socket below a temporary directory that only this user has.
pub fn default_unix_control_socket(temporary: &str, user: u32) -> (result: String)
    ensures
        result@ == default_socket(temporary@, user),
{
    let directory = text::join2("ullage-", text::decimal(user as u64).as_str());
    let parent = service::path_below(temporary, directory.as_str());
    service::path_below(parent.as_str(), "control.sock")
}

/// The directory for the logs of daemon starts: beside the control socket, and
/// under a name of the user's own only where there is no runtime directory.
pub open spec fn log_directory(
    runtime: Option<Seq<char>>,
    temporary: Seq<char>,
    user: u32,
) -> Seq<char> {
    match runtime {
        Some(runtime) => service::below(runtime, "ullage"@),
        None => service::below(temporary, "ullage-"@ + text::decimal_digits(user as nat)),
    }
}

/// The directory for the logs of daemon starts.
pub fn daemon_error_log_directory(runtime: Option<&str>, temporary: &str, user: u32) -> (result:
    String)
    ensures
        result@ == log_directory(
            match runtime {
                Some(runtime) => Some(runtime@),
                None => None,
            },
            temporary@,
            user,
        ),
{
    match runtime {
        Some(runtime) => service::path_below(runtime, "ullage"),
        None => {
            let directory = text::join2("ullage-", text::decimal(user as u64).as_str());
            service::path_below(temporary, directory.as_str())
        },
    }
}

/// A named pipe of this machine.
pub open spec fn local_pipe(path: Seq<char>) -> bool {
    let prefix = "\\\\.\\pipe\\"@;
    path.len() >= prefix.len() && text::equal_ignoring_case(
        path.take(prefix.len() as int),
        prefix,
    )
}

/// Whether the path names a pipe of this machine.
pub fn is_local_windows_pipe(path: &str) -> (result: bool)
    ensures
        result == local_pipe(path@),
{
    let prefix = "\\\\.\\pipe\\";
    let count: usize = prefix.unicode_len();
    if path.unicode_len() < count {
        return false;
    }
    let all: Vec<char> = text::characters(path);
    let head = text::text_between(&all, 0, count);
    assert(head@ == path@.take(count as int));
    text::eq_ignore_ascii_case(head.as_str(), prefix)
}

impl SystemClient {
    /// The client uses that Unix socket.
    pub open spec fn uses_socket(
        configured: Option<String>,
        runtime: Option<String>,
        temporary: &str,
        user: u32,
        result: SystemClient,
    ) -> bool {
        result.endpoint matches Some(endpoint) && endpoint@ == match configured {
            Some(path) => path@,
            None => match runtime {
                Some(directory) => service::below(directory@, "ullage/control.sock"@),
                None => default_socket(temporary@, user),
            },
        }
    }

    /// The client for a Unix socket: the one that is configured, else the one in
    /// the runtime directory, else the one that only this user has below the
    /// temporary directory.
    pub fn for_socket(
        configured: Option<String>,
        runtime: Option<String>,
        temporary: &str,
        user: u32,
    ) -> (result: Self)
        ensures
            SystemClient::uses_socket(configured, runtime, temporary, user, result),
    {
        let endpoint = match configured {
            Some(path) => path,
            None => match runtime {
                Some(directory) => service::path_below(directory.as_str(), "ullage/control.sock"),
                None => default_unix_control_socket(temporary, user),
            },
        };
        SystemClient { endpoint: Some(endpoint) }
    }

    /// The client uses that Windows pipe.
    pub open spec fn uses_pipe(
        configured: Option<String>,
        scope: Option<&str>,
        result: SystemClient,
    ) -> bool {
        let wanted: Option<Seq<char>> = match configured {
            Some(path) => Some(path@),
            None => match scope {
                Some(scope) => Some("\\\\.\\pipe\\ullage-"@ + scope@),
                None => None,
            },
        };
        match result.endpoint {
            Some(endpoint) => wanted == Some(endpoint@) && local_pipe(endpoint@),
            None => wanted matches Some(path) ==> !local_pipe(path),
        }
    }

    /// The client for a Windows pipe: the one that is configured, else the one
    /// of this user, and none that is not on this machine.
    pub fn for_pipe(configured: Option<String>, scope: Option<&str>) -> (result: Self)
        ensures
            SystemClient::uses_pipe(configured, scope, result),
    {
        let wanted = match configured {
            Some(path) => path,
            None => match scope {
                Some(scope) => text::join2("\\\\.\\pipe\\ullage-", scope),
                None => {
                    return SystemClient { endpoint: None };
                },
            },
        };
        if is_local_windows_pipe(wanted.as_str()) {
            SystemClient { endpoint: Some(wanted) }
        } else {
            SystemClient { endpoint: None }
        }
    }
}

/// A file that nobody but its owner may use.
pub open spec fn private_mode(mode: u32) -> bool {
    mode & 0o077 == 0
}

/// What a look at the socket comes to.
pub open spec fn socket_checked(absolute: bool, found: Option<FileFacts>, user: u32) -> Result<(), ClientError> {
    if !absolute {
        Err(ClientError::InvalidEndpoint)
    } else {
        match found {
            Some(facts) => if facts.socket && !facts.link && facts.owner == user
                && private_mode(facts.mode) {
                Ok(())
            } else {
                Err(ClientError::DaemonUnavailable)
            },
            None => Err(ClientError::DaemonUnavailable),
        }
    }
}

/// Whether the socket is one only the user can have made. `found` is what is
/// known of the file, where there is one.
///
/// Between the daemon's bind and its change of mode the socket exists with
/// unsafe permissions; every such state counts as unavailable, so that a
/// question after the daemon is asked again.
pub fn validate_private_unix_socket(
    absolute: bool,
    found: Option<FileFacts>,
    user: u32,
) -> (result: Result<(), ClientError>)
    ensures
        result == socket_checked(absolute, found, user),
{
    if !absolute {
        return Err(ClientError::InvalidEndpoint);
    }
    match found {
        Some(facts) => {
            if !facts.socket || facts.link || facts.owner != user || facts.mode & 0o077 != 0 {
                return Err(ClientError::DaemonUnavailable);
            }
            Ok(())
        },
        None => Err(ClientError::DaemonUnavailable),
    }
}

/// What a look at the peer's user comes to.
pub open spec fn peer_checked(peer: Option<u32>, user: u32) -> Result<(), ClientError> {
    if peer == Some(user) {
        Ok(())
    } else {
        Err(ClientError::InvalidResponse)
    }
}

/// Whether the process at the other end belongs to the user.
pub fn validate_unix_peer(peer: Option<u32>, user: u32) -> (result: Result<(), ClientError>)
    ensures
        result == peer_checked(peer, user),
{
    match peer {
        Some(peer) => if peer == user {
            Ok(())
        } else {
            Err(ClientError::InvalidResponse)
        },
        None => Err(ClientError::InvalidResponse),
    }
}

/// The machine words that hold so many bytes of what is known of a user; none
/// for fewer bytes than the least that says anything.
pub fn token_words(required: u32, least: u32, word: u32) -> (result: Result<usize, ClientError>)
    requires
        0 < word,
    ensures
        match result {
            Ok(words) => {
                &&& least <= required
                &&& required <= words * word
                &&& words * word < required + word
            },
            Err(error) => required < least && error == ClientError::InvalidResponse,
        },
{
    if required < least {
        return Err(ClientError::InvalidResponse);
    }
    let whole: u32 = required / word;
    let rest: u32 = required % word;
    proof {
        vstd::arithmetic::div_mod::lemma_fundamental_div_mod(required as int, word as int);
        vstd::arithmetic::div_mod::lemma_mod_bound(required as int, word as int);
        assert(word * whole == whole * word) by (nonlinear_arith);
        assert((whole + 1) * word == whole * word + word) by (nonlinear_arith);
        assert(whole <= required) by (nonlinear_arith)
            requires
                word * whole <= required,
                0 < word,
                0 <= whole,
        ;
        assert(rest > 0 ==> whole < required) by (nonlinear_arith)
            requires
                word * whole + rest == required,
                0 < word,
                0 <= whole,
        ;
    }
    if rest == 0 {
        Ok(whole as usize)
    } else {
        Ok(whole as usize + 1)
    }
}

/// What a look at the pipe's server comes to.
pub open spec fn server_checked(same: Option<bool>) -> Result<(), ClientError> {
    if same == Some(true) {
        Ok(())
    } else {
        Err(ClientError::InvalidResponse)
    }
}

/// Whether the process that serves a pipe belongs to the user. `same` is the
/// comparison of the two users, where both are known.
pub fn validate_windows_pipe_server(same: Option<bool>) -> (result: Result<(), ClientError>)
    ensures
        result == server_checked(same),
{
    match same {
        Some(same) => if same {
            Ok(())
        } else {
            Err(ClientError::InvalidResponse)
        },
        None => Err(ClientError::InvalidResponse),
    }
}

/// What a look at the directory of the logs comes to.
pub open spec fn log_directory_checked(found: Option<FileFacts>, user: u32) -> Result<(), ClientError> {
    match found {
        Some(facts) => if facts.directory && !facts.link && facts.owner == user
            && private_mode(facts.mode) {
            Ok(())
        } else {
            Err(ClientError::DaemonProcess)
        },
        None => Err(ClientError::DaemonProcess),
    }
}

/// Whether the log directory is one that nobody else can have made. `found` is
/// what is known of it once it was looked for, and created where it was missing.
pub fn ensure_daemon_log_directory(found: Option<FileFacts>, user: u32) -> (result: Result<
    (),
    ClientError,
>)
    ensures
        result == log_directory_checked(found, user),
{
    match found {
        Some(facts) => {
            if facts.link || !facts.directory || facts.owner != user || facts.mode & 0o077 != 0 {
                return Err(ClientError::DaemonProcess);
            }
            Ok(())
        },
        None => Err(ClientError::DaemonProcess),
    }
}

/// The seconds an answer to the request may take.
pub open spec fn answer_timeout(command: ControlCommand) -> u64 {
    match command {
        ControlCommand::CompleteAuth { .. } => SIGN_IN_TIMEOUT,
        ControlCommand::Probe { wait: true, .. } => PROBE_WAIT_TIMEOUT,
        _ => CONTROL_TIMEOUT,
    }
}

/// The seconds an answer to the request may take.
pub fn send_timeout(request: &ControlRequest) -> (result: u64)
    ensures
        result == answer_timeout(request.command),
        CONTROL_TIMEOUT <= result <= PROBE_WAIT_TIMEOUT,
{
    match &request.command {
        ControlCommand::CompleteAuth { .. } => SIGN_IN_TIMEOUT,
        ControlCommand::Probe { wait, .. } => if *wait {
            PROBE_WAIT_TIMEOUT
        } else {
            CONTROL_TIMEOUT
        },
        _ => CONTROL_TIMEOUT,
    }
}

/// The encoded request as it is sent: one line.
pub fn request_line(encoded: Vec<u8>) -> (result: Vec<u8>)
    ensures
        result@ == encoded@.push(10u8),
{
    let mut line = encoded;
    line.push(10u8);
    line
}

/// The bytes of a reply that were read so far.
pub struct Reply {
    bytes: Vec<u8>,
}

impl View for Reply {
    type V = Seq<u8>;

    closed spec fn view(&self) -> Seq<u8> {
        self.bytes@
    }
}

/// The bytes end with a newline.
pub open spec fn line_ends(bytes: Seq<u8>) -> bool {
    bytes.len() > 0 && bytes.last() == 10u8
}

/// Reading goes on while the reply has not ended and is not too long.
pub open spec fn unfinished(bytes: Seq<u8>) -> bool {
    !line_ends(bytes) && bytes.len() <= MAX_RESPONSE_BYTES
}

/// A reply that may be decoded.
pub open spec fn acceptable_reply(bytes: Seq<u8>) -> bool {
    line_ends(bytes) && bytes.len() <= MAX_RESPONSE_BYTES
}

/// What to do next with a pipe.
#[derive(Debug)]
pub enum PipeStep {
    Fail(ClientError),
    /// Wait for the daemon to write.
    Sleep,
    /// Read that many bytes.
    Read(usize),
}

/// What to do next with a pipe: never more is read than it holds, nor more than
/// one byte beyond what a reply may have.
pub open spec fn pipe_follows(bytes: Seq<u8>, late: bool, available: Option<u32>) -> PipeStep {
    let left = MAX_RESPONSE_BYTES + 1 - bytes.len();
    match available {
        Some(available) if !late => if available == 0 {
            PipeStep::Sleep
        } else if left <= 0 {
            PipeStep::Fail(ClientError::InvalidResponse)
        } else if available < left {
            PipeStep::Read(available as usize)
        } else {
            PipeStep::Read(left as usize)
        },
        _ => PipeStep::Fail(ClientError::DaemonUnavailable),
    }
}

impl Reply {
    /// Nothing was read yet.
    pub fn new() -> (result: Self)
        ensures
            result@ == Seq::<u8>::empty(),
    {
        Reply { bytes: Vec::new() }
    }

    /// The number of bytes to read next; nothing once the reply has ended or is
    /// too long. One byte more than a reply may have is read, to tell that it is
    /// too long.
    pub fn wanted(&self) -> (result: usize)
        ensures
            unfinished(self@) ==> 0 < result <= CHUNK_BYTES && self@.len() + result
                <= MAX_RESPONSE_BYTES + 1 && (result == CHUNK_BYTES || self@.len() + result
                == MAX_RESPONSE_BYTES + 1),
            !unfinished(self@) ==> result == 0,
    {
        let count: usize = self.bytes.len();
        if (count > 0 && self.bytes[count - 1] == 10u8) || count > MAX_RESPONSE_BYTES {
            return 0;
        }
        let left: usize = MAX_RESPONSE_BYTES + 1 - count;
        if left < CHUNK_BYTES {
            left
        } else {
            CHUNK_BYTES
        }
    }

    /// Adds the bytes that were read.
    pub fn extend(&mut self, chunk: &Vec<u8>)
        ensures
            final(self)@ == old(self)@ + chunk@,
    {
        let mut index: usize = 0;
        while index < chunk.len()
            invariant
                index <= chunk@.len(),
                self@ == old(self)@ + chunk@.take(index as int),
            decreases chunk@.len() - index,
        {
            self.bytes.push(chunk[index]);
            index = index + 1;
            assert(chunk@.take(index as int) == chunk@.take(index - 1).push(chunk@[index - 1]));
            assert(self@ == old(self)@ + chunk@.take(index as int));
        }
        assert(chunk@.take(index as int) == chunk@);
    }

    /// The reply that was read, where it is a whole line that is not too long.
    pub fn finish(self) -> (result: Result<Vec<u8>, ClientError>)
        ensures
            match result {
                Ok(bytes) => acceptable_reply(self@) && bytes@ == self@,
                Err(error) => !acceptable_reply(self@) && error == ClientError::InvalidResponse,
            },
    {
        let count: usize = self.bytes.len();
        if count == 0 || self.bytes[count - 1] != 10u8 || count > MAX_RESPONSE_BYTES {
            return Err(ClientError::InvalidResponse);
        }
        Ok(self.bytes)
    }

    /// What to do next with a pipe. `late` tells that the time is over, and
    /// `available` is the number of bytes that the pipe holds, where it says.
    pub fn pipe_step(&self, late: bool, available: Option<u32>) -> (result: PipeStep)
        ensures
            result == pipe_follows(self@, late, available),
    {
        if late {
            return PipeStep::Fail(ClientError::DaemonUnavailable);
        }
        let available: u32 = match available {
            Some(available) => available,
            None => {
                return PipeStep::Fail(ClientError::DaemonUnavailable);
            },
        };
        if available == 0 {
            return PipeStep::Sleep;
        }
        let left: usize = (MAX_RESPONSE_BYTES + 1).saturating_sub(self.bytes.len());
        if left == 0 {
            return PipeStep::Fail(ClientError::InvalidResponse);
        }
        if (available as u64) < left as u64 {
            PipeStep::Read(available as usize)
        } else {
            PipeStep::Read(left)
        }
    }

    /// Adds what was read from a pipe, up to its first newline. Whether the reply
    /// has ended; a pipe that gives nothing is no daemon's.
    pub fn pipe_read(&mut self, read: Option<Vec<u8>>) -> (result: Result<bool, ClientError>)
        ensures
            match read {
                Some(chunk) => if chunk@.len() == 0 {
                    result == Err::<bool, ClientError>(ClientError::DaemonUnavailable)
                        && final(self)@ == old(self)@
                } else {
                    let whole = old(self)@ + chunk@;
                    result == Ok::<bool, ClientError>(whole.contains(10u8)) && final(self)@
                        == if whole.contains(10u8) {
                        whole.take(whole.index_of_first(10u8)->0 + 1)
                    } else {
                        whole
                    }
                },
                None => result == Err::<bool, ClientError>(ClientError::DaemonUnavailable)
                    && final(self)@ == old(self)@,
            },
    {
        match read {
            Some(chunk) => {
                if chunk.len() == 0 {
                    return Err(ClientError::DaemonUnavailable);
                }
                self.extend(&chunk);
                Ok(self.cut_at_newline())
            },
            None => Err(ClientError::DaemonUnavailable),
        }
    }

    /// Cuts the reply off behind its first newline. Whether there is one.
    fn cut_at_newline(&mut self) -> (result: bool)
        ensures
            result == old(self)@.contains(10u8),
            !result ==> final(self)@ == old(self)@,
            result ==> {
                let place = old(self)@.index_of_first(10u8)->0;
                final(self)@ == old(self)@.take(place + 1)
            },
    {
        let mut index: usize = 0;
        while index < self.bytes.len()
            invariant
                index <= self@.len(),
                self@ == old(self)@,
                forall|i: int| 0 <= i < index ==> self@[i] != 10u8,
            decreases self@.len() - index,
        {
            if self.bytes[index] == 10u8 {
                proof {
                    assert(self@[index as int] == 10u8);
                    assert(self@.contains(10u8));
                    old(self)@.index_of_first_ensures(10u8);
                }
                self.bytes.truncate(index + 1);
                assert(self@ == old(self)@.take(index + 1));
                return true;
            }
            index = index + 1;
        }
        false
    }
}

/// A line that may be a reply is read to its end, in whatever pieces it comes:
/// reading goes on after every part of it, stops at its newline, and then it is
/// accepted.
pub proof fn lines_are_read_to_their_end(line: Seq<u8>, part: int)
    requires
        acceptable_reply(line),
        !line.drop_last().contains(10u8),
        0 <= part < line.len(),
    ensures
        unfinished(line.take(part)),
        !unfinished(line),
{
    if part > 0 {
        assert(line.take(part).last() == line.drop_last()[part - 1]);
    }
}

/// A text that is too long for a reply is refused, even where it ends with a
/// newline, and nothing more is read of it.
pub proof fn long_replies_are_refused(bytes: Seq<u8>)
    requires
        bytes.len() > MAX_RESPONSE_BYTES,
    ensures
        !unfinished(bytes),
        !acceptable_reply(bytes),
{
}

/// How the daemon stands.
#[derive(Clone, Copy, Debug, PartialEq, Eq, Structural)]
pub enum DaemonReadiness {
    Ready,
    Unavailable,
    NotReady,
}

/// The response shows a daemon that serves requests.
pub open spec fn shows_ready(response: ControlResponse) -> bool {
    &&& response.version == CONTROL_PROTOCOL_VERSION
    &&& !inspect::unsafe_result(response.result)
    &&& response.result matches ControlResult::DaemonStatus(status) && !status.shutting_down
        && validate::well_formed_status(status.accounts@)
}

/// The response shows a daemon that holds the endpoint without serving requests:
/// it is going down, or speaks another version.
pub open spec fn shows_unready(response: ControlResponse) -> bool {
    ||| response.result is ProtocolMismatch
    ||| response.version == CONTROL_PROTOCOL_VERSION && (response.result
        matches ControlResult::DaemonStatus(status) && status.shutting_down)
}

/// How ready an answer shows the daemon.
pub open spec fn readiness_told(response: ControlResponse, request_id: Seq<char>) -> Result<DaemonReadiness, ClientError> {
    if response.request_id@ != request_id {
        Err(ClientError::InvalidResponse)
    } else if shows_ready(response) {
        Ok(DaemonReadiness::Ready)
    } else if shows_unready(response) {
        Ok(DaemonReadiness::NotReady)
    } else {
        Err(ClientError::InvalidResponse)
    }
}

/// How the daemon stands, from its answer to a request for its status.
pub fn classify_readiness_response(response: &ControlResponse, request_id: &str) -> (result: Result<
    DaemonReadiness,
    ClientError,
>)
    ensures
        result == readiness_told(*response, request_id@),
{
    if !text::same_text(response.request_id.as_str(), request_id) {
        return Err(ClientError::InvalidResponse);
    }
    let current = response.version == CONTROL_PROTOCOL_VERSION;
    match &response.result {
        ControlResult::DaemonStatus(status) => {
            if current && !status.shutting_down && !inspect::result_contains_unsafe_control(
                &response.result,
            ) && validate::daemon_status_payload_is_well_formed(status) {
                return Ok(DaemonReadiness::Ready);
            }
            if current && status.shutting_down {
                return Ok(DaemonReadiness::NotReady);
            }
            Err(ClientError::InvalidResponse)
        },
        ControlResult::ProtocolMismatch { .. } => Ok(DaemonReadiness::NotReady),
        _ => Err(ClientError::InvalidResponse),
    }
}

/// How the daemon stands, from what came of a request for its status.
pub open spec fn readiness_of(
    outcome: Result<ControlResponse, ClientError>,
    request_id: Seq<char>,
) -> Result<DaemonReadiness, ClientError> {
    match outcome {
        Ok(response) => readiness_told(response, request_id),
        Err(ClientError::DaemonUnavailable) => Ok(DaemonReadiness::Unavailable),
        Err(error) => Err(error),
    }
}

/// How the daemon stands, from what came of a request for its status.
pub fn daemon_readiness(
    outcome: Result<ControlResponse, ClientError>,
    request_id: &str,
) -> (result: Result<DaemonReadiness, ClientError>)
    ensures
        result == readiness_of(outcome, request_id@),
{
    match outcome {
        Ok(response) => classify_readiness_response(&response, request_id),
        Err(error) => match error {
            ClientError::DaemonUnavailable => Ok(DaemonReadiness::Unavailable),
            other => Err(other),
        },
    }
}

/// Whether the daemon is ready.
pub open spec fn ready_of(readiness: Result<DaemonReadiness, ClientError>) -> Result<bool, ClientError> {
    match readiness {
        Ok(readiness) => Ok(readiness == DaemonReadiness::Ready),
        Err(error) => Err(error),
    }
}

/// Whether the daemon serves requests. A daemon that does not yet, or not any
/// more, is asked again by callers that have time left.
pub fn daemon_is_ready(readiness: Result<DaemonReadiness, ClientError>) -> (result: Result<
    bool,
    ClientError,
>)
    ensures
        result == ready_of(readiness),
{
    match readiness {
        Ok(DaemonReadiness::Ready) => Ok(true),
        Ok(_) => Ok(false),
        Err(error) => Err(error),
    }
}

/// The nanoseconds that one look may take.
pub open spec fn budget_of(remaining: u64) -> u64 {
    if remaining < POLL_BUDGET {
        remaining
    } else {
        POLL_BUDGET
    }
}

/// The nanoseconds the next question after the daemon may take.
pub fn poll_budget(remaining: u64) -> (result: u64)
    ensures
        result == budget_of(remaining),
{
    if remaining < POLL_BUDGET {
        remaining
    } else {
        POLL_BUDGET
    }
}

/// What one question after the daemon leads to.
#[derive(Debug)]
pub enum Poll {
    /// The waiting is over. Where it was for a free endpoint: whether a daemon
    /// serves it already.
    Over(Result<bool, ClientError>),
    /// Ask again in a moment.
    Again,
}

/// What a look at the endpoint leads to.
pub open spec fn endpoint_polled(readiness: Result<DaemonReadiness, ClientError>, remaining: u64) -> Poll {
    match readiness {
        Ok(DaemonReadiness::Ready) => Poll::Over(Ok(true)),
        Ok(DaemonReadiness::Unavailable) => Poll::Over(Ok(false)),
        Ok(DaemonReadiness::NotReady) => if remaining == 0 {
            Poll::Over(Err(ClientError::DaemonStillRunning))
        } else {
            Poll::Again
        },
        Err(error) => Poll::Over(Err(error)),
    }
}

/// What an answer means to one who waits for the endpoint to be free.
pub fn endpoint_poll(readiness: Result<DaemonReadiness, ClientError>, remaining: u64) -> (result:
    Poll)
    ensures
        result == endpoint_polled(readiness, remaining),
{
    match readiness {
        Ok(DaemonReadiness::Ready) => Poll::Over(Ok(true)),
        Ok(DaemonReadiness::Unavailable) => Poll::Over(Ok(false)),
        Ok(DaemonReadiness::NotReady) => if remaining == 0 {
            Poll::Over(Err(ClientError::DaemonStillRunning))
        } else {
            Poll::Again
        },
        Err(error) => Poll::Over(Err(error)),
    }
}

/// What a look for a ready daemon leads to.
pub open spec fn ready_polled(readiness: Result<DaemonReadiness, ClientError>, remaining: u64) -> Poll {
    match readiness {
        Ok(DaemonReadiness::Ready) => Poll::Over(Ok(true)),
        Ok(_) => if remaining == 0 {
            Poll::Over(Err(ClientError::DaemonProcess))
        } else {
            Poll::Again
        },
        Err(error) => Poll::Over(Err(error)),
    }
}

/// What an answer means to one who waits for the daemon to serve requests.
pub fn ready_poll(readiness: Result<DaemonReadiness, ClientError>, remaining: u64) -> (result: Poll)
    ensures
        result == ready_polled(readiness, remaining),
{
    match readiness {
        Ok(DaemonReadiness::Ready) => Poll::Over(Ok(true)),
        Ok(_) => if remaining == 0 {
            Poll::Over(Err(ClientError::DaemonProcess))
        } else {
            Poll::Again
        },
        Err(error) => Poll::Over(Err(error)),
    }
}

/// What a look for a stopped daemon leads to.
pub open spec fn stopped_polled(readiness: Result<DaemonReadiness, ClientError>, remaining: u64) -> Poll {
    match readiness {
        Ok(DaemonReadiness::Unavailable) => Poll::Over(Ok(true)),
        Ok(_) => if remaining == 0 {
            Poll::Over(Err(ClientError::DaemonProcess))
        } else {
            Poll::Again
        },
        Err(error) => Poll::Over(Err(error)),
    }
}

/// What an answer means to one who waits for the daemon to be gone.
pub fn stopped_poll(readiness: Result<DaemonReadiness, ClientError>, remaining: u64) -> (result:
    Poll)
    ensures
        result == stopped_polled(readiness, remaining),
{
    match readiness {
        Ok(DaemonReadiness::Unavailable) => Poll::Over(Ok(true)),
        Ok(_) => if remaining == 0 {
            Poll::Over(Err(ClientError::DaemonProcess))
        } else {
            Poll::Again
        },
        Err(error) => Poll::Over(Err(error)),
    }
}

/// A step of starting the daemon as a process.
#[derive(Debug)]
pub enum LaunchStep {
    /// Find out whether the process has exited.
    CheckExit,
    /// Ask whether the daemon serves requests.
    Probe,
    /// Wait a moment.
    Sleep,
    /// The daemon serves requests.
    Ready,
    /// The process has exited.
    Exited,
    /// The daemon took too long; the process is killed.
    Overdue,
    /// The start failed; the process is killed if `kill` says so.
    Fail { error: ClientError, kill: bool },
}

/// What a look at the process leads to.
pub open spec fn after_exit_check(exited: Option<bool>) -> LaunchStep {
    match exited {
        Some(true) => LaunchStep::Exited,
        Some(false) => LaunchStep::Probe,
        None => LaunchStep::Fail { error: ClientError::DaemonProcess, kill: false },
    }
}

/// What follows the look for an exit, which came out or failed.
pub fn exit_checked(exited: Option<bool>) -> (result: LaunchStep)
    ensures
        result == after_exit_check(exited),
{
    match exited {
        Some(exited) => if exited {
            LaunchStep::Exited
        } else {
            LaunchStep::Probe
        },
        None => LaunchStep::Fail { error: ClientError::DaemonProcess, kill: false },
    }
}

/// What a probe of the launched daemon leads to.
pub open spec fn after_launch_probe(ready: Result<bool, ClientError>, remaining: u64) -> LaunchStep {
    match ready {
        Ok(true) => LaunchStep::Ready,
        Ok(false) => if remaining > 0 {
            LaunchStep::Sleep
        } else {
            LaunchStep::Overdue
        },
        Err(error) => LaunchStep::Fail { error, kill: true },
    }
}

/// What follows the question whether the daemon serves requests.
pub fn launch_probed(ready: Result<bool, ClientError>, remaining: u64) -> (result: LaunchStep)
    ensures
        result == after_launch_probe(ready, remaining),
{
    match ready {
        Ok(ready) => if ready {
            LaunchStep::Ready
        } else if remaining > 0 {
            LaunchStep::Sleep
        } else {
            LaunchStep::Overdue
        },
        Err(error) => LaunchStep::Fail { error, kill: true },
    }
}

/// The report of a start that failed for a reason: the reason, and what is
/// printable of the daemon's own words where there is any.
pub open spec fn launch_report(tail: Seq<char>, reason: Seq<char>) -> Seq<char> {
    let words = redact::sanitized(text::trimmed(tail));
    if words.len() == 0 {
        reason
    } else {
        reason + "; daemon stderr: "@ + words
    }
}

/// The report of a start that failed for a reason. `tail` is what the daemon
/// wrote last on its error stream.
pub fn daemon_process_failure(tail: &str, reason: &str) -> (result: ClientError)
    ensures
        result matches ClientError::DaemonProcessOutput(report) && report@ == launch_report(
            tail@,
            reason@,
        ),
{
    let words = redact::sanitize_cli_text(text::trim(tail));
    if words.as_str().unicode_len() == 0 {
        ClientError::DaemonProcessOutput(reason.to_owned())
    } else {
        ClientError::DaemonProcessOutput(
            text::join3(reason, "; daemon stderr: ", words.as_str()),
        )
    }
}

/// How a daemon process that was started ended.
pub open spec fn launch_failed(
    step: LaunchStep,
    tail: &str,
    result: Option<ClientError>,
) -> bool {
    match step {
        LaunchStep::Exited => result matches Some(ClientError::DaemonProcessOutput(report))
            && report@ == launch_report(tail@, "daemon exited during startup"@),
        LaunchStep::Overdue => result matches Some(ClientError::DaemonProcessOutput(report))
            && report@ == launch_report(tail@, "daemon did not become ready in time"@),
        LaunchStep::Fail { error, .. } => result == Some(error),
        _ => result is None,
    }
}

/// How a daemon process that was started ended, where it failed. `tail` is what
/// the daemon wrote last on its error stream.
pub fn launch_failure(step: LaunchStep, tail: &str) -> (result: Option<ClientError>)
    ensures
        launch_failed(step, tail, result),
{
    match step {
        LaunchStep::Exited => Some(daemon_process_failure(tail, "daemon exited during startup")),
        LaunchStep::Overdue => Some(
            daemon_process_failure(tail, "daemon did not become ready in time"),
        ),
        LaunchStep::Fail { error, .. } => Some(error),
        _ => None,
    }
}

/// Where the end of a log that is told starts.
pub open spec fn tail_from(length: u64) -> u64 {
    if length < DAEMON_STDERR_TAIL_BYTES {
        0
    } else {
        (length - DAEMON_STDERR_TAIL_BYTES) as u64
    }
}

/// Where the tail of a log of that length starts.
pub fn tail_start(length: u64) -> (result: u64)
    ensures
        result == tail_from(length),
{
    if length < DAEMON_STDERR_TAIL_BYTES {
        0
    } else {
        length - DAEMON_STDERR_TAIL_BYTES
    }
}

/// The name of the log of one start.
pub open spec fn log_name(process: u32, nanos: u128, sequence: u64) -> Seq<char> {
    "daemon-error-"@ + text::decimal_digits(process as nat) + "-"@ + text::decimal_digits(
        nanos as nat,
    ) + "-"@ + text::decimal_digits(sequence as nat) + ".log"@
}

/// The name of the log of one start: the process, the time and the number of the
/// request in the process.
pub fn daemon_error_log_name(process: u32, nanos: u128, sequence: u64) -> (result: String)
    ensures
        result@ == log_name(process, nanos, sequence),
{
    let mut name = text::join3("daemon-error-", text::decimal(process as u64).as_str(), "-");
    name.append(text::wide_decimal(nanos).as_str());
    name.append("-");
    name.append(text::decimal(sequence).as_str());
    name.append(".log");
    name
}

/// The name of a log of some start.
pub open spec fn is_log_name(name: Seq<char>) -> bool {
    text::has_prefix(name, "daemon-error-"@) && text::has_suffix(name, ".log"@)
}

/// The time before which a log is old.
pub open spec fn cutoff_of(now: Timestamp) -> Timestamp {
    if now.seconds - DAEMON_ERROR_LOG_MAX_AGE >= i64::MIN {
        Timestamp {
            seconds: (now.seconds - DAEMON_ERROR_LOG_MAX_AGE) as i64,
            nanos: now.nanos,
        }
    } else {
        Timestamp { seconds: 0, nanos: 0 }
    }
}

/// The time before which a log is stale.
pub fn sweep_cutoff(now: &Timestamp) -> (result: Timestamp)
    ensures
        result == cutoff_of(*now),
{
    match now.seconds.checked_sub(DAEMON_ERROR_LOG_MAX_AGE) {
        Some(seconds) => Timestamp { seconds, nanos: now.nanos },
        None => Timestamp { seconds: 0, nanos: 0 },
    }
}

/// A log of the daemon that is old.
pub open spec fn stale_log(name: Seq<char>, modified: Option<Timestamp>, cutoff: Timestamp) -> bool {
    (is_log_name(name) && (modified matches Some(time) && time.earlier_than(
        cutoff,
    )))
}

/// Whether a file is a stale log and is removed. `modified` is the time of its
/// last change, where that is known.
pub fn log_is_stale(name: &str, modified: &Option<Timestamp>, cutoff: &Timestamp) -> (result: bool)
    ensures
        result == stale_log(name@, *modified, *cutoff),
{
    if !(text::starts_with(name, "daemon-error-") && text::ends_with(name, ".log")) {
        return false;
    }
    match modified {
        Some(time) => time.is_before(cutoff),
        None => false,
    }
}

/// What came of an attempt to create a log.
#[derive(Clone, Copy, Debug, PartialEq, Eq, Structural)]
pub enum LogAttempt {
    Created,
    Taken,
    Refused,
}

/// What an attempt at a log leads to.
pub open spec fn log_attempted(attempt: u32, outcome: LogAttempt) -> Option<Result<(), ClientError>> {
    match outcome {
        LogAttempt::Created => None,
        LogAttempt::Taken => if attempt + 1 < DAEMON_ERROR_LOG_ATTEMPTS {
            Some(Ok(()))
        } else {
            Some(Err(ClientError::DaemonProcess))
        },
        LogAttempt::Refused => Some(Err(ClientError::DaemonProcess)),
    }
}

/// Whether another name is tried after an attempt, counted from zero; `None` if
/// the attempt made the log.
pub fn after_log_attempt(attempt: u32, outcome: LogAttempt) -> (result: Option<
    Result<(), ClientError>,
>)
    ensures
        result == log_attempted(attempt, outcome),
{
    match outcome {
        LogAttempt::Created => None,
        LogAttempt::Taken => if attempt < DAEMON_ERROR_LOG_ATTEMPTS - 1 {
            Some(Ok(()))
        } else {
            Some(Err(ClientError::DaemonProcess))
        },
        LogAttempt::Refused => Some(Err(ClientError::DaemonProcess)),
    }
}

/// The program that is started as the daemon.
#[derive(Debug)]
pub enum DaemonProgram {
    /// The one the environment names.
    Configured,
    /// This very program, with this argument.
    Itself(String),
    /// The one beside this program, under this name.
    Beside(String),
}

/// Which program is started as the daemon.
pub open spec fn daemon_started_as(
    configured: bool,
    located: bool,
    stem: Option<&str>,
    windows: bool,
    result: Result<DaemonProgram, ClientError>,
) -> bool {
    if configured {
        result == Ok::<DaemonProgram, ClientError>(DaemonProgram::Configured)
    } else if !located {
        result == Err::<DaemonProgram, ClientError>(ClientError::DaemonProcess)
    } else if stem matches Some(stem) && text::equal_ignoring_case(stem@, "ullage"@) {
        result matches Ok(DaemonProgram::Itself(argument)) && argument@ == "__daemon"@
    } else {
        result matches Ok(DaemonProgram::Beside(name)) && name@ == if windows {
            "ullage-daemon.exe"@
        } else {
            "ullage-daemon"@
        }
    }
}

/// Which program is started as the daemon. `stem` is the name of this program
/// without its extension, where it has one.
pub fn daemon_command(
    configured: bool,
    located: bool,
    stem: Option<&str>,
    windows: bool,
) -> (result: Result<DaemonProgram, ClientError>)
    ensures
        daemon_started_as(configured, located, stem, windows, result),
{
    if configured {
        return Ok(DaemonProgram::Configured);
    }
    if !located {
        return Err(ClientError::DaemonProcess);
    }
    if let Some(stem) = stem {
        if text::eq_ignore_ascii_case(stem, "ullage") {
            return Ok(DaemonProgram::Itself("__daemon".to_owned()));
        }
    }
    if windows {
        Ok(DaemonProgram::Beside("ullage-daemon.exe".to_owned()))
    } else {
        Ok(DaemonProgram::Beside("ullage-daemon".to_owned()))
    }
}

/// A step of managing the background service.
#[derive(Debug)]
pub enum ManageStep {
    /// Stop the service, for the action.
    StopService { action: ServiceAction },
    /// Wait until the endpoint of the stopped service is gone.
    AwaitStopped { action: ServiceAction },
    /// Ask whether a daemon the service does not manage answers.
    ProbeEndpoint { action: ServiceAction },
    Install,
    Uninstall,
    AskInstalled,
    /// Wait until the endpoint is free, or is served.
    AwaitEndpoint,
    StartService,
    /// Wait until the started service serves requests.
    AwaitReady,
    Finish(Result<(), ClientError>),
}

/// What came of a step of managing the background service.
#[derive(Debug)]
pub enum ManageOutcome {
    /// The service manager: its answer.
    Service(Result<bool, String>),
    /// Waiting: what ended it.
    Waited(Result<bool, ClientError>),
    /// One question after the daemon: how it stands.
    Probed(Result<DaemonReadiness, ClientError>),
}

/// The outcome is one such a step can have.
pub open spec fn manage_fits(step: ManageStep, outcome: ManageOutcome) -> bool {
    match step {
        ManageStep::AwaitStopped { action } => outcome is Waited && action != ServiceAction::Start,
        ManageStep::ProbeEndpoint { action } => outcome is Probed && action != ServiceAction::Start,
        ManageStep::StopService { action } => outcome is Service && action != ServiceAction::Start,
        ManageStep::AwaitEndpoint | ManageStep::AwaitReady => outcome is Waited,
        ManageStep::Finish(_) => false,
        _ => outcome is Service,
    }
}

/// The step an action starts with. Only a start leaves alone what runs already.
pub open spec fn manage_start(action: ServiceAction) -> ManageStep {
    match action {
        ServiceAction::Start => ManageStep::AskInstalled,
        _ => ManageStep::StopService { action },
    }
}

/// The step an action starts with.
pub fn first_manage_step(action: ServiceAction) -> (result: ManageStep)
    ensures
        result == manage_start(action),
{
    match action {
        ServiceAction::Start => ManageStep::AskInstalled,
        _ => ManageStep::StopService { action },
    }
}

/// What follows once nothing answers on the endpoint any more.
pub open spec fn once_clear(action: ServiceAction) -> ManageStep {
    match action {
        ServiceAction::Uninstall => ManageStep::Uninstall,
        ServiceAction::Install => ManageStep::Install,
        _ => ManageStep::Finish(Ok(())),
    }
}

/// What follows a step that came out so.
pub open spec fn manage_next(step: ManageStep, outcome: ManageOutcome) -> ManageStep {
    match (step, outcome) {
        (ManageStep::Finish(result), _) => ManageStep::Finish(result),
        (_, ManageOutcome::Waited(Err(error))) => ManageStep::Finish(Err(error)),
        (_, ManageOutcome::Probed(Err(error))) => ManageStep::Finish(Err(error)),
        (_, ManageOutcome::Service(Err(_))) => ManageStep::Finish(Err(ClientError::DaemonProcess)),
        (ManageStep::StopService { action }, ManageOutcome::Service(Ok(issued))) => if issued {
            ManageStep::AwaitStopped { action }
        } else {
            ManageStep::ProbeEndpoint { action }
        },
        (ManageStep::AwaitStopped { action }, _) => once_clear(action),
        (ManageStep::ProbeEndpoint { action }, ManageOutcome::Probed(Ok(readiness))) =>
            if readiness == DaemonReadiness::Unavailable {
                once_clear(action)
            } else {
                ManageStep::Finish(Err(ClientError::DaemonStillRunning))
            },
        (ManageStep::Install, _) => ManageStep::AskInstalled,
        (ManageStep::AskInstalled, ManageOutcome::Service(Ok(installed))) => if installed {
            ManageStep::AwaitEndpoint
        } else {
            ManageStep::Finish(Err(ClientError::DaemonProcess))
        },
        (ManageStep::AwaitEndpoint, ManageOutcome::Waited(Ok(served))) => if served {
            ManageStep::Finish(Ok(()))
        } else {
            ManageStep::StartService
        },
        (ManageStep::StartService, _) => ManageStep::AwaitReady,
        _ => ManageStep::Finish(Ok(())),
    }
}

fn clear(action: ServiceAction) -> (result: ManageStep)
    ensures
        result == once_clear(action),
{
    match action {
        ServiceAction::Uninstall => ManageStep::Uninstall,
        ServiceAction::Install => ManageStep::Install,
        _ => ManageStep::Finish(Ok(())),
    }
}

/// Decides what follows a step.
///
/// A stop, an uninstallation or an installation first makes sure that nothing
/// answers on the endpoint: where the service manager had nothing to stop, a
/// daemon that it does not manage may still be there.
pub fn next_manage_step(step: ManageStep, outcome: ManageOutcome) -> (next: ManageStep)
    requires
        manage_fits(step, outcome),
    ensures
        next == manage_next(step, outcome),
{
    match outcome {
        ManageOutcome::Waited(Err(error)) => ManageStep::Finish(Err(error)),
        ManageOutcome::Probed(Err(error)) => ManageStep::Finish(Err(error)),
        ManageOutcome::Service(Err(_)) => ManageStep::Finish(Err(ClientError::DaemonProcess)),
        ManageOutcome::Waited(Ok(served)) => match step {
            ManageStep::AwaitStopped { action } => clear(action),
            ManageStep::AwaitEndpoint => if served {
                ManageStep::Finish(Ok(()))
            } else {
                ManageStep::StartService
            },
            _ => ManageStep::Finish(Ok(())),
        },
        ManageOutcome::Probed(Ok(readiness)) => match step {
            ManageStep::ProbeEndpoint { action } => match readiness {
                DaemonReadiness::Unavailable => clear(action),
                _ => ManageStep::Finish(Err(ClientError::DaemonStillRunning)),
            },
            _ => ManageStep::Finish(Ok(())),
        },
        ManageOutcome::Service(Ok(granted)) => match step {
            ManageStep::StopService { action } => if granted {
                ManageStep::AwaitStopped { action }
            } else {
                ManageStep::ProbeEndpoint { action }
            },
            ManageStep::Install => ManageStep::AskInstalled,
            ManageStep::AskInstalled => if granted {
                ManageStep::AwaitEndpoint
            } else {
                ManageStep::Finish(Err(ClientError::DaemonProcess))
            },
            ManageStep::StartService => ManageStep::AwaitReady,
            _ => ManageStep::Finish(Ok(())),
        },
    }
}

/// A run of an action: its steps, and what came of each but the last.
pub open spec fn manages(
    action: ServiceAction,
    steps: Seq<ManageStep>,
    outcomes: Seq<ManageOutcome>,
) -> bool {
    &&& steps.len() == outcomes.len() + 1
    &&& steps[0] == manage_start(action)
    &&& forall|i: int|
        0 <= i < outcomes.len() ==> manage_fits(steps[i], #[trigger] outcomes[i]) && steps[i + 1]
            == manage_next(steps[i], outcomes[i])
}

/// An installation that succeeds has stopped the service, seen the endpoint
/// clear, installed the service and found it installed, in that order; then the
/// endpoint was served already, or the service was started and served it.
pub proof fn installing_stops_installs_and_starts(
    steps: Seq<ManageStep>,
    outcomes: Seq<ManageOutcome>,
)
    requires
        manages(ServiceAction::Install, steps, outcomes),
        steps.last() == ManageStep::Finish(Ok(())),
    ensures
        steps.len() == 6 || steps.len() == 8,
        steps[0] == (ManageStep::StopService { action: ServiceAction::Install }),
        outcomes[0] == ManageOutcome::Service(Ok(true)) && steps[1] == (ManageStep::AwaitStopped {
            action: ServiceAction::Install,
        }) || outcomes[0] == ManageOutcome::Service(Ok(false)) && steps[1] == (
        ManageStep::ProbeEndpoint { action: ServiceAction::Install }) && outcomes[1]
            == ManageOutcome::Probed(Ok(DaemonReadiness::Unavailable)),
        steps[2] == ManageStep::Install,
        steps[3] == ManageStep::AskInstalled,
        outcomes[3] == ManageOutcome::Service(Ok(true)),
        steps[4] == ManageStep::AwaitEndpoint,
        steps.len() == 6 ==> outcomes[4] == ManageOutcome::Waited(Ok(true)),
        steps.len() == 8 ==> steps[5] == ManageStep::StartService && steps[6]
            == ManageStep::AwaitReady && outcomes[6] is Waited,
{
    run_goes_on(ServiceAction::Install, steps, outcomes, 0);
    run_goes_on(ServiceAction::Install, steps, outcomes, 1);
    run_goes_on(ServiceAction::Install, steps, outcomes, 2);
    run_goes_on(ServiceAction::Install, steps, outcomes, 3);
    run_goes_on(ServiceAction::Install, steps, outcomes, 4);
    if !(steps[5] is Finish) {
        run_goes_on(ServiceAction::Install, steps, outcomes, 5);
        run_goes_on(ServiceAction::Install, steps, outcomes, 6);
    }
}

/// A run goes on from a step that is not its end, and does not go on from one
/// that is.
proof fn run_goes_on(
    action: ServiceAction,
    steps: Seq<ManageStep>,
    outcomes: Seq<ManageOutcome>,
    place: int,
)
    requires
        manages(action, steps, outcomes),
        steps.last() == ManageStep::Finish(Ok(())),
        0 <= place < steps.len(),
        !(steps[place] is Finish),
    ensures
        place + 1 < steps.len(),
        manage_fits(steps[place], outcomes[place]),
        steps[place + 1] == manage_next(steps[place], outcomes[place]),
        steps[place + 1] is Finish ==> place + 2 == steps.len() && steps[place + 1]
            == ManageStep::Finish(Ok(())),
{
    assert(manage_fits(steps[place], outcomes[place]));
    if steps[place + 1] is Finish {
        if place + 2 < steps.len() {
            assert(manage_fits(steps[place + 1], outcomes[place + 1]));
        }
    }
}

/// Nothing is installed or taken away while something still answers on the
/// endpoint, and a stop succeeds only when nothing does.
pub proof fn nothing_changes_while_a_daemon_answers(step: ManageStep, outcome: ManageOutcome)
    requires
        manage_fits(step, outcome),
        ({
            let next = manage_next(step, outcome);
            next is Install || next is Uninstall || (next == ManageStep::Finish(Ok(())) && (
            step is StopService || step is AwaitStopped || step is ProbeEndpoint))
        }),
    ensures
        (step is AwaitStopped && (outcome matches ManageOutcome::Waited(Ok(_)))) || (
        step is ProbeEndpoint && outcome == ManageOutcome::Probed(
            Ok(DaemonReadiness::Unavailable),
        )),
{
}

/// The number of steps that can still follow, at most.
pub open spec fn manage_rank(step: ManageStep) -> nat {
    match step {
        ManageStep::Finish(_) => 0,
        ManageStep::AwaitReady | ManageStep::Uninstall => 1,
        ManageStep::StartService => 2,
        ManageStep::AwaitEndpoint => 3,
        ManageStep::AskInstalled => 4,
        ManageStep::Install => 5,
        ManageStep::AwaitStopped { .. } | ManageStep::ProbeEndpoint { .. } => 6,
        ManageStep::StopService { .. } => 7,
    }
}

/// Every run of an action ends, whatever comes of each step.
pub proof fn manage_runs_end(step: ManageStep, outcome: ManageOutcome)
    requires
        manage_fits(step, outcome),
    ensures
        manage_rank(manage_next(step, outcome)) < manage_rank(step),
{
}

/// An answer to a probe that waits may take longer than one that completes a
/// sign-in, and that one longer than any other.
pub proof fn longer_work_may_take_longer(probe: ControlCommand, sign_in: ControlCommand, other: ControlCommand)
    requires
        probe matches ControlCommand::Probe { wait: true, .. },
        sign_in is CompleteAuth,
        !(other is CompleteAuth || other is Probe),
    ensures
        answer_timeout(probe) > answer_timeout(sign_in) > answer_timeout(other),
{
}

/// The name of the log of a start is one that a sweep recognises.
pub proof fn log_names_are_recognised(process: u32, nanos: u128, sequence: u64)
    ensures
        is_log_name(log_name(process, nanos, sequence)),
{
    let name = log_name(process, nanos, sequence);
    let head = "daemon-error-"@;
    let tail = ".log"@;
    assert(name.take(head.len() as int) == head);
    assert(name.skip(name.len() - tail.len()) == tail);
}

} // verus!
