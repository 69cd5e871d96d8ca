//! One run of the view: how it opens, what keeps it going, and how it ends.

use vstd::prelude::*;

use crate::cli::{Command, OutputFormat, TuiArgs};
use crate::errors;
use crate::errors::{ClientError, ExitCode, RunOutput};
use crate::protocol::{
    ControlResponse, ControlResult, SnapshotPayload, CONTROL_PROTOCOL_VERSION,
};
use crate::redact;
use crate::render;
use crate::render::{RenderView, Rendered};
use crate::text;
use crate::tui::{Action, Layout, Scroll};
use crate::usage::Timestamp;
use crate::validate;
use crate::version;

verus! {

/// What a request for all the snapshots led to.
pub enum Opening {
    /// The view does not open; this is printed.
    Refused(Rendered),
    /// The view opens on these snapshots; `notice` is printed when it closes.
    View { snapshots: Vec<SnapshotPayload>, notice: String },
}

/// The response is trusted: it answers this very request, in a version both
/// sides speak, and carries no provider error text. `safe` is its result without
/// unsafe failure texts.
pub open spec fn trusted(
    response: ControlResponse,
    request_id: Seq<char>,
    safe: ControlResult,
) -> bool {
    &&& response.version == CONTROL_PROTOCOL_VERSION
    &&& response.request_id@ == request_id
    &&& response.diagnostic is None
    &&& validate::answers(Command::Tui(TuiArgs { vertical: false }), safe)
}

/// The response with unsafe failure texts removed from its result, and whether
/// it is trusted then.
fn examine(response: ControlResponse, request_id: &str) -> (result: (
    ControlResult,
    Option<String>,
    bool,
))
    ensures
        redact::controls_removed(response.result, result.0),
        result.1 == response.daemon_version,
        result.2 == trusted(response, request_id@, result.0),
{
    let ControlResponse { version, request_id: answered, result, diagnostic, daemon_version } =
        response;
    let mut safe = result;
    redact::sanitize_partial_failure_controls(&mut safe);
    let command = Command::Tui(TuiArgs { vertical: false });
    let trusted = version == CONTROL_PROTOCOL_VERSION && text::same_text(
        answered.as_str(),
        request_id,
    ) && diagnostic.is_none() && validate::response_matches_command(&command, &safe);
    (safe, daemon_version, trusted)
}

/// The warning about an older daemon as the view prints it when it closes.
pub open spec fn closing_notice(daemon_version: Option<String>, client_version: Seq<char>) -> Seq<
    char,
> {
    let daemon = validate::optional_view(daemon_version);
    if version::daemon_is_older(daemon, client_version) {
        version::upgrade_warning(
            match daemon {
                Some(reported) => reported,
                None => "unknown, predates version reporting"@,
            },
            client_version,
        ) + "\n"@
    } else {
        Seq::empty()
    }
}

/// A failure of that kind, printed as a table.
pub open spec fn refused(opening: Opening, code: ExitCode, kind: Seq<char>) -> bool {
    opening matches Opening::Refused(Rendered::Failed(output)) && errors::output_is(
        output,
        Seq::empty(),
        errors::error_text(kind, OutputFormat::Table, None, errors::hint_for(kind)),
        code,
    )
}

/// What it leads to that no answer came.
pub open spec fn refused_for(error: ClientError, opening: Opening) -> bool {
    match error {
        ClientError::DaemonUnavailable => refused(
            opening,
            ExitCode::DaemonUnavailable,
            "daemon_unavailable"@,
        ),
        ClientError::InvalidEndpoint => refused(
            opening,
            ExitCode::Usage,
            "invalid_control_socket"@,
        ),
        _ => refused(opening, ExitCode::ProtocolError, "invalid_daemon_response"@),
    }
}

/// What the first answer leads to: an untrusted one is a protocol error, the
/// snapshots open the view, and anything else is printed.
pub open spec fn opens(
    response: ControlResponse,
    request_id: Seq<char>,
    client_version: Seq<char>,
    now: Timestamp,
    opening: Opening,
) -> bool {
    exists|safe: ControlResult|
        #[trigger] redact::controls_removed(response.result, safe) && if !trusted(
            response,
            request_id,
            safe,
        ) {
            refused(opening, ExitCode::ProtocolError, "invalid_daemon_response"@)
        } else {
            match safe {
                ControlResult::Snapshots(all) => opening matches Opening::View { snapshots, notice }
                    && snapshots == all && notice@ == closing_notice(
                    response.daemon_version,
                    client_version,
                ),
                _ => opening matches Opening::Refused(rendered) && plainly_printed(
                    safe,
                    now,
                    rendered,
                ),
            }
        }
}

/// The answer as a table that hides what can be revealed.
pub open spec fn plainly_printed(result: ControlResult, now: Timestamp, rendered: Rendered) -> bool {
    exists|view: RenderView|
        view.metric_choice is Persisted && !view.account_with_metrics && #[trigger] render::renders(
            result,
            OutputFormat::Table,
            false,
            false,
            false,
            view,
            now,
            rendered,
        )
}

/// What the request for the snapshots leads to when the view is opened.
pub fn open_view(
    outcome: Result<ControlResponse, ClientError>,
    request_id: &str,
    client_version: &str,
    now: &Timestamp,
) -> (opening: Opening)
    ensures
        match outcome {
            Ok(response) => opens(response, request_id@, client_version@, *now, opening),
            Err(error) => refused_for(error, opening),
        },
{
    let response = match outcome {
        Ok(response) => response,
        Err(ClientError::DaemonUnavailable) => {
            return Opening::Refused(
                Rendered::Failed(
                    errors::error_output(
                        ExitCode::DaemonUnavailable,
                        "daemon_unavailable",
                        OutputFormat::Table,
                    ),
                ),
            );
        },
        Err(ClientError::InvalidEndpoint) => {
            return Opening::Refused(
                Rendered::Failed(
                    errors::error_output(
                        ExitCode::Usage,
                        "invalid_control_socket",
                        OutputFormat::Table,
                    ),
                ),
            );
        },
        Err(_) => {
            return Opening::Refused(
                Rendered::Failed(
                    errors::error_output(
                        ExitCode::ProtocolError,
                        "invalid_daemon_response",
                        OutputFormat::Table,
                    ),
                ),
            );
        },
    };
    let (safe, daemon_version, trusted) = examine(response, request_id);
    assert(redact::controls_removed(response.result, safe));
    if !trusted {
        return Opening::Refused(
            Rendered::Failed(
                errors::error_output(
                    ExitCode::ProtocolError,
                    "invalid_daemon_response",
                    OutputFormat::Table,
                ),
            ),
        );
    }
    let reported: Option<&str> = match &daemon_version {
        Some(reported) => Some(reported.as_str()),
        None => None,
    };
    let notice = match version::daemon_upgrade_notice(reported, client_version) {
        Some(notice) => text::join2(notice.as_str(), "\n"),
        None => String::new(),
    };
    match safe {
        ControlResult::Snapshots(snapshots) => Opening::View { snapshots, notice },
        other => {
            let view = RenderView::persisted();
            let rendered = render::render_result(
                other,
                OutputFormat::Table,
                false,
                false,
                false,
                &view,
                now,
            );
            assert(render::renders(
                safe,
                OutputFormat::Table,
                false,
                false,
                false,
                view,
                *now,
                rendered,
            ));
            Opening::Refused(rendered)
        },
    }
}

/// What a later answer leads to: its snapshots, or nothing where it is not trusted
/// or tells none.
pub open spec fn fetches(
    response: ControlResponse,
    request_id: Seq<char>,
    result: Option<Vec<SnapshotPayload>>,
) -> bool {
    exists|safe: ControlResult|
        #[trigger] redact::controls_removed(response.result, safe) && result == (if trusted(
            response,
            request_id,
            safe,
        ) {
            match safe {
                ControlResult::Snapshots(snapshots) => Some(snapshots),
                _ => None,
            }
        } else {
            None
        })
}

/// The snapshots of a later answer, or nothing when the answer is unusable. A
/// refresh that fails changes nothing on screen: the view keeps the readings it
/// has and tries again at the next interval.
pub fn fetched_snapshots(
    outcome: Result<ControlResponse, ClientError>,
    request_id: &str,
) -> (result: Option<Vec<SnapshotPayload>>)
    ensures
        match outcome {
            Ok(response) => fetches(response, request_id@, result),
            Err(_) => result is None,
        },
{
    match outcome {
        Ok(response) => {
            let (safe, _, trusted) = examine(response, request_id);
            assert(redact::controls_removed(response.result, safe));
            if !trusted {
                return None;
            }
            match safe {
                ControlResult::Snapshots(snapshots) => Some(snapshots),
                _ => None,
            }
        },
        Err(_) => None,
    }
}

/// The code that snapshots make the view end with.
pub open spec fn held_code(snapshots: Seq<SnapshotPayload>) -> ExitCode {
    if errors::any_partial(snapshots) {
        ExitCode::Partial
    } else {
        ExitCode::Success
    }
}

/// The code the view ends with: it describes the last snapshots the view held,
/// not the ones it opened with.
pub fn snapshots_exit_code(snapshots: &Vec<SnapshotPayload>) -> (result: ExitCode)
    ensures
        result == held_code(snapshots@),
{
    if errors::some_partial(snapshots) {
        ExitCode::Partial
    } else {
        ExitCode::Success
    }
}

/// The output is what is printed when the view has closed.
pub open spec fn closed(
    held: Option<Seq<SnapshotPayload>>,
    notice: Seq<char>,
    output: RunOutput,
) -> bool {
    match held {
        Some(snapshots) => errors::output_is(output, Seq::empty(), notice, held_code(snapshots)),
        None => errors::output_is(
            output,
            Seq::empty(),
            errors::error_text(
                "tui_failed"@,
                OutputFormat::Table,
                None,
                errors::hint_for("tui_failed"@),
            ),
            ExitCode::Failure,
        ),
    }
}

/// What is printed when the view has closed. `held` are the snapshots it held
/// last, unless the terminal failed.
pub fn close_view(held: Option<&Vec<SnapshotPayload>>, notice: String) -> (result: RunOutput)
    ensures
        closed(
            match held {
                Some(snapshots) => Some(snapshots@),
                None => None,
            },
            notice@,
            result,
        ),
{
    match held {
        Some(snapshots) => RunOutput {
            stdout: String::new(),
            stderr: notice,
            code: snapshots_exit_code(snapshots),
        },
        None => errors::error_output(ExitCode::Failure, "tui_failed", OutputFormat::Table),
    }
}

/// What the view holds between two draws.
#[derive(Clone, Copy, Debug, PartialEq, Eq, Structural)]
pub struct ViewState {
    pub layout: Layout,
    pub scroll: Scroll,
    /// The last refresh was not answered.
    pub stalled: bool,
}

/// What follows an event.
#[derive(Clone, Copy, Debug, PartialEq, Eq, Structural)]
pub enum ViewStep {
    Close,
    /// Draw again.
    Draw,
    /// Keep the layout for the next run, and draw again.
    Save(Layout),
}

impl ViewState {
    /// The view as it opens.
    pub open spec fn opened(vertical: bool, saved: Layout) -> ViewState {
        ViewState {
            layout: if vertical {
                Layout::Vertical
            } else {
                saved
            },
            scroll: Scroll { offset: 0, pending: Action::Ignore },
            stalled: false,
        }
    }

    /// The view as it opens: in one column if this run is told so, and as it was
    /// saved otherwise.
    pub fn new(vertical: bool, saved: Layout) -> (result: Self)
        ensures
            result == ViewState::opened(vertical, saved),
    {
        ViewState {
            layout: if vertical {
                Layout::Vertical
            } else {
                saved
            },
            scroll: Scroll::default(),
            stalled: false,
        }
    }

    /// The view after an event.
    pub open spec fn acted(self, action: Action) -> ViewState {
        match action {
            Action::Quit => self,
            Action::ToggleLayout => ViewState {
                layout: self.layout.other(),
                scroll: Scroll { offset: 0, pending: Action::Ignore },
                ..self
            },
            _ => ViewState { scroll: Scroll { pending: action, ..self.scroll }, ..self },
        }
    }

    /// What an event makes the program do.
    pub open spec fn step_for(self, action: Action) -> ViewStep {
        match action {
            Action::Quit => ViewStep::Close,
            Action::ToggleLayout => ViewStep::Save(self.layout.other()),
            _ => ViewStep::Draw,
        }
    }

    /// Takes an event. A new layout places the cards afresh, so the old offset
    /// would point somewhere unrelated.
    pub fn act(&mut self, action: Action) -> (step: ViewStep)
        ensures
            *final(self) == old(self).acted(action),
            step == old(self).step_for(action),
    {
        match action {
            Action::Quit => ViewStep::Close,
            Action::ToggleLayout => {
                self.layout = self.layout.toggled();
                self.scroll = Scroll::default();
                ViewStep::Save(self.layout)
            },
            _ => {
                self.scroll.pending = action;
                ViewStep::Draw
            },
        }
    }

    /// The view after a refresh.
    pub open spec fn after_refresh(self, answered: bool) -> ViewState {
        ViewState { stalled: !answered, ..self }
    }

    /// Takes the outcome of a refresh.
    pub fn refreshed(&mut self, answered: bool)
        ensures
            *final(self) == old(self).after_refresh(answered),
    {
        self.stalled = !answered;
    }

    /// The nanoseconds of wait that the status line shows.
    pub open spec fn wait_shown(self, remaining: u64) -> u64 {
        if self.stalled {
            0
        } else {
            remaining
        }
    }

    /// The nanoseconds of wait that the status line shows. A refresh the daemon
    /// could not answer leaves the countdown empty instead of starting it over:
    /// the readings have not moved, and a full bar would say they had.
    pub fn shown_wait(&self, remaining: u64) -> (result: u64)
        ensures
            result == self.wait_shown(remaining),
    {
        if self.stalled {
            0
        } else {
            remaining
        }
    }
}

/// The nanoseconds to wait for an event.
pub open spec fn waited(nanoseconds: u64) -> u64 {
    if nanoseconds < 1000000000 {
        nanoseconds
    } else {
        1000000000
    }
}

/// The nanoseconds to wait for an event: until the next refresh, and at most a
/// second, which keeps the countdown moving between two refreshes.
pub fn event_wait(nanoseconds: u64) -> (result: u64)
    ensures
        result == waited(nanoseconds),
{
    if nanoseconds < 1000000000 {
        nanoseconds
    } else {
        1000000000
    }
}

/// A call to the terminal.
#[derive(Clone, Copy, Debug, PartialEq, Eq, Structural)]
pub enum TerminalCall {
    EnableRaw,
    EnterAlternateScreen,
    EnableMouse,
    HideCursor,
    ShowCursor,
    DisableMouse,
    LeaveAlternateScreen,
    DisableRaw,
}

/// The calls that take over the terminal, in order.
pub open spec fn entry_calls() -> Seq<TerminalCall> {
    seq![
        TerminalCall::EnableRaw,
        TerminalCall::EnterAlternateScreen,
        TerminalCall::EnableMouse,
        TerminalCall::HideCursor,
    ]
}

/// The call that undoes another.
pub open spec fn undoing(call: TerminalCall) -> TerminalCall {
    match call {
        TerminalCall::EnableRaw => TerminalCall::DisableRaw,
        TerminalCall::EnterAlternateScreen => TerminalCall::LeaveAlternateScreen,
        TerminalCall::EnableMouse => TerminalCall::DisableMouse,
        TerminalCall::HideCursor => TerminalCall::ShowCursor,
        TerminalCall::ShowCursor => TerminalCall::HideCursor,
        TerminalCall::DisableMouse => TerminalCall::EnableMouse,
        TerminalCall::LeaveAlternateScreen => TerminalCall::EnterAlternateScreen,
        TerminalCall::DisableRaw => TerminalCall::EnableRaw,
    }
}

/// How far the terminal is taken over: which of the calls have succeeded and
/// were not undone.
#[derive(Debug)]
pub struct TerminalSession {
    entered: usize,
}

impl View for TerminalSession {
    type V = Seq<TerminalCall>;

    closed spec fn view(&self) -> Seq<TerminalCall> {
        entry_calls().take(self.entered as int)
    }
}

fn entry_call(place: usize) -> (result: TerminalCall)
    requires
        place < 4,
    ensures
        result == entry_calls()[place as int],
{
    if place == 0 {
        TerminalCall::EnableRaw
    } else if place == 1 {
        TerminalCall::EnterAlternateScreen
    } else if place == 2 {
        TerminalCall::EnableMouse
    } else {
        TerminalCall::HideCursor
    }
}

fn undo(call: TerminalCall) -> (result: TerminalCall)
    ensures
        result == undoing(call),
{
    match call {
        TerminalCall::EnableRaw => TerminalCall::DisableRaw,
        TerminalCall::EnterAlternateScreen => TerminalCall::LeaveAlternateScreen,
        TerminalCall::EnableMouse => TerminalCall::DisableMouse,
        TerminalCall::HideCursor => TerminalCall::ShowCursor,
        TerminalCall::ShowCursor => TerminalCall::HideCursor,
        TerminalCall::DisableMouse => TerminalCall::EnableMouse,
        TerminalCall::LeaveAlternateScreen => TerminalCall::EnterAlternateScreen,
        TerminalCall::DisableRaw => TerminalCall::EnableRaw,
    }
}

impl TerminalSession {
    /// The terminal is not taken over any further than there are calls for.
    #[verifier::type_invariant]
    spec fn within(self) -> bool {
        self.entered <= 4
    }

    /// Nothing was called yet.
    pub fn new() -> (result: Self)
        ensures
            result@ == Seq::<TerminalCall>::empty(),
    {
        TerminalSession { entered: 0 }
    }

    /// The next call that takes over the terminal, or nothing once it is taken
    /// over.
    pub fn next_call(&self) -> (result: Option<TerminalCall>)
        ensures
            result == if self@.len() < entry_calls().len() {
                Some(entry_calls()[self@.len() as int])
            } else {
                None
            },
    {
        proof {
            use_type_invariant(self);
        }
        if self.entered < 4 {
            Some(entry_call(self.entered))
        } else {
            None
        }
    }

    /// The next call has succeeded.
    pub fn succeeded(self) -> (result: Self)
        ensures
            result@ == if self@.len() < entry_calls().len() {
                self@.push(entry_calls()[self@.len() as int])
            } else {
                self@
            },
    {
        proof {
            use_type_invariant(&self);
        }
        if self.entered < 4 {
            let result = TerminalSession { entered: self.entered + 1 };
            assert(result@ =~= self@.push(entry_calls()[self@.len() as int]));
            result
        } else {
            self
        }
    }

    /// Undoes the last call that succeeded and was not undone: the call that
    /// does it, or nothing when the terminal is as it was.
    pub fn restore(self) -> (result: (Self, Option<TerminalCall>))
        ensures
            result.1 == if self@.len() > 0 {
                Some(undoing(self@.last()))
            } else {
                None
            },
            result.0@ == if self@.len() > 0 {
                self@.drop_last()
            } else {
                self@
            },
    {
        proof {
            use_type_invariant(&self);
        }
        if self.entered > 0 {
            let call = undo(entry_call(self.entered - 1));
            let result = TerminalSession { entered: self.entered - 1 };
            assert(result@ =~= self@.drop_last());
            (result, Some(call))
        } else {
            (self, None)
        }
    }
}

/// The calls that undo others, the last of them first.
pub open spec fn restoring(calls: Seq<TerminalCall>) -> Seq<TerminalCall>
    decreases calls.len(),
{
    if calls.len() == 0 {
        Seq::empty()
    } else {
        seq![undoing(calls.last())] + restoring(calls.drop_last())
    }
}

/// However far the terminal was taken over, it is restored by undoing each call
/// that succeeded, in reverse order, and nothing else.
pub proof fn the_terminal_is_restored_in_reverse(calls: Seq<TerminalCall>)
    ensures
        restoring(calls).len() == calls.len(),
        forall|i: int|
            0 <= i < calls.len() ==> #[trigger] restoring(calls)[i] == undoing(
                calls[calls.len() - 1 - i],
            ),
    decreases calls.len(),
{
    if calls.len() > 0 {
        the_terminal_is_restored_in_reverse(calls.drop_last());
        let rest = restoring(calls.drop_last());
        assert forall|i: int| 0 <= i < calls.len() implies #[trigger] restoring(calls)[i]
            == undoing(calls[calls.len() - 1 - i]) by {
            if i > 0 {
                assert(restoring(calls)[i] == rest[i - 1]);
                assert(calls.drop_last()[calls.len() - 1 - i] == calls[calls.len() - 1 - i]);
            }
        }
    }
}

/// A toggle changes only the layout and starts over at the top, and toggling
/// twice gives back the layout.
pub proof fn toggling_twice_keeps_the_layout(state: ViewState)
    ensures
        state.acted(Action::ToggleLayout).acted(Action::ToggleLayout).layout == state.layout,
        state.acted(Action::ToggleLayout).scroll.offset == 0,
        state.acted(Action::ToggleLayout).stalled == state.stalled,
{
}

} // verus!
