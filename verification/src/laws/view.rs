//! How the full-screen view answers keys, scrolls, and is laid out.

use vstd::prelude::*;

use crate::cards;
use crate::cards::place;
use crate::cards::place::Rect;
use crate::cards::{Card, RowLayout, SpanView, Tone};
use crate::errors::ClientError;
use crate::errors::RunOutput;
use crate::laws::failures;
use crate::protocol::{ControlResponse, ControlResult, SnapshotPayload};
use crate::redact;
use crate::render::Rendered;
use crate::service;
use crate::text;
use crate::tui;
use crate::tui::frame;
use crate::tui::frame::{PlacedView, Window};
use crate::tui::session;
use crate::tui::session::{Opening, TerminalCall, ViewState, ViewStep};
use crate::tui::{Action, Key, Layout, Mouse, Platform, Scroll, UserDirectories};
use crate::usage::Timestamp;
use crate::validate;
use crate::version;
use crate::width;

verus! {

/// What each key asks for: `q` and Escape quit, and so does `c` with Control; the
/// arrows and `j` and `k` move a line, the page keys and the blank half a page,
/// Home and End and the two cases of `g` to either end, and `v` changes the layout.
/// Any other key, and one that is let go of, asks for nothing.
pub proof fn keys_ask_for_their_actions(key: Key, control: bool, released: bool)
    ensures
        ({
            let asked = tui::key_asks(key, control, released);
            &&& asked is Quit <==> !released && (if control {
                key == Key::Character('c') || key == Key::Character('C')
            } else {
                key == Key::Escape || key == Key::Character('q') || key == Key::Character('Q')
            })
            &&& asked == Action::Up(1) <==> !released && !control && (key == Key::Up || key
                == Key::Character('k'))
            &&& asked == Action::Down(1) <==> !released && !control && (key == Key::Down || key
                == Key::Character('j'))
            &&& asked is HalfUp <==> !released && !control && key == Key::PageUp
            &&& asked is HalfDown <==> !released && !control && (key == Key::PageDown || key
                == Key::Character(' '))
            &&& asked is Top <==> !released && !control && (key == Key::Home || key
                == Key::Character('g'))
            &&& asked is Bottom <==> !released && !control && (key == Key::End || key
                == Key::Character('G'))
            &&& asked is ToggleLayout <==> !released && !control && (key == Key::Character('v')
                || key == Key::Character('V'))
            &&& asked matches Action::Up(lines) ==> lines == 1
            &&& asked matches Action::Down(lines) ==> lines == 1
        }),
{
}

/// The wheel moves three lines, in its direction.
pub proof fn the_wheel_moves_three_lines(mouse: Mouse)
    ensures
        mouse is WheelUp ==> tui::mouse_asks(mouse) == Action::Up(3),
        mouse is WheelDown ==> tui::mouse_asks(mouse) == Action::Down(3),
        mouse is Other ==> tui::mouse_asks(mouse) is Ignore,
{
}

/// The lesser of two numbers.
pub open spec fn lesser(left: int, right: int) -> int {
    if left < right {
        left
    } else {
        right
    }
}

/// The greater of two numbers.
pub open spec fn greater(left: int, right: int) -> int {
    if left < right {
        right
    } else {
        left
    }
}

/// Scrolling moves by the lines asked for, or half a screen and at least a line, or
/// to an end, as far as there is content; without a request only as far as there
/// is none left to show.
pub proof fn scrolling_moves_as_asked(scroll: Scroll, viewport: u16, content: u16)
    ensures
        ({
            let after = scroll.applied(viewport as int, content as int).offset;
            let end = greater(0, content - viewport);
            let half = greater(1, viewport as int / 2);
            &&& scroll.pending matches Action::Up(lines) ==> after == lesser(
                end,
                greater(0, scroll.offset - lines),
            )
            &&& scroll.pending matches Action::Down(lines) ==> after == lesser(
                end,
                scroll.offset + lines,
            )
            &&& scroll.pending is HalfUp ==> after == lesser(end, greater(0, scroll.offset - half))
            &&& scroll.pending is HalfDown ==> after == lesser(end, scroll.offset + half)
            &&& scroll.pending is Top ==> after == 0
            &&& scroll.pending is Bottom ==> after == end
            &&& scroll.pending is Ignore ==> after == lesser(end, scroll.offset as int)
        }),
{
}

/// Where the settings are kept: where the environment says, and else in the
/// platform's place for them below a directory that is known.
pub proof fn settings_have_their_place(
    configured: Option<String>,
    platform: Platform,
    directories: UserDirectories,
)
    ensures
        ({
            let file = tui::preferences_file(configured, platform, directories);
            &&& configured is Some ==> file == Some(configured->0@)
            &&& configured is None && platform is MacOs && directories.home is Some ==> file
                == Some(
                service::below(
                    directories.home->0@,
                    "Library/Application Support/Ullage/tui.json"@,
                ),
            )
            &&& configured is None && platform is Unix && directories.state is Some ==> file
                == Some(service::below(directories.state->0@, "ullage/tui.json"@))
            &&& configured is None && platform is Unix && directories.state is None
                && directories.home is Some ==> file == Some(
                service::below(directories.home->0@, ".local/state/ullage/tui.json"@),
            )
            &&& configured is None && platform is Windows && directories.local is Some ==> file
                == Some(service::below(directories.local->0@, "Ullage/tui.json"@))
            &&& configured is None && directories.home is None && directories.state is None
                && directories.local is None ==> file is None
        }),
{
}

/// A screen of four lines or more has a margin, a gap and a line of hints; one of
/// two or three has just the margin, and a single line is all content.
pub proof fn screens_afford_what_fits(height: int)
    requires
        height > 0,
    ensures
        ({
            let chrome = tui::affordable(height);
            &&& height >= 4 ==> chrome.margin == 1 && chrome.gap == 1 && chrome.status
                && frame::viewport_rows(height) == height - 3
            &&& 2 <= height < 4 ==> chrome.margin == 1 && chrome.gap == 0 && !chrome.status
                && frame::viewport_rows(height) == height - 1
            &&& height == 1 ==> chrome.margin == 0 && chrome.gap == 0 && !chrome.status
                && frame::viewport_rows(height) == 1
        }),
{
}

/// The bar to the next refresh is filled in eighths of a cell, rounded up, in
/// proportion to the two minutes between two refreshes.
pub proof fn refresh_bars_are_in_proportion(remaining: u64, cells: nat)
    requires
        remaining <= 120000000000,
        cells > 0,
    ensures
        ({
            let eighths = tui::filled_eighths(remaining, cells);
            &&& remaining * cells * 8 <= eighths * 120000000000
            &&& eighths > 0 ==> (eighths - 1) * 120000000000 < remaining * cells * 8
        }),
        tui::REFRESH_INTERVAL == 120,
{
    let filled = remaining * cells * 8;
    assert(filled >= 0) by (nonlinear_arith)
        requires
            filled == remaining * cells * 8,
            remaining >= 0,
            cells >= 0,
    ;
    let left = remaining as int;
    assert(left * cells * 8 == filled);
}

/// A bar of so many eighths has that many whole cells, then the part of a cell that
/// is left, and the rest is empty.
pub proof fn bars_have_whole_cells_and_a_part(eighths: int, cells: nat, place: int)
    requires
        0 <= eighths <= 8 * cells,
        0 <= place < cells,
    ensures
        ({
            let bar = tui::eighths_bar(eighths, cells);
            let parts = seq!['▏', '▎', '▍', '▌', '▋', '▊', '▉'];
            &&& bar.len() == cells
            &&& 8 * (place + 1) <= eighths ==> bar[place] == '█'
            &&& eighths <= 8 * place ==> bar[place] == '░'
            &&& 8 * place < eighths < 8 * (place + 1) ==> bar[place] == parts[eighths - 8 * place
                - 1]
        }),
{
    let whole = eighths / 8;
    let part = eighths % 8;
    if 8 * place < eighths < 8 * (place + 1) {
        assert(whole == place);
        assert(part == eighths - 8 * place);
    }
}

/// The wait to the next refresh is told in minutes and seconds.
pub proof fn waits_are_told_in_minutes_and_seconds(
    minutes: nat,
    seconds: nat,
    nanoseconds: nat,
    remaining: u64,
)
    requires
        remaining == 1000000000 * (60 * minutes + seconds) + nanoseconds,
        seconds < 60,
        nanoseconds < 1000000000,
    ensures
        tui::wait_text(remaining) == text::decimal_digits(minutes) + "m"@ + text::two_digits(
            seconds,
        ) + "s"@,
{
    assert(remaining / 1000000000 == 60 * minutes + seconds);
    let whole = remaining / 1000000000;
    assert(whole / 60 == minutes);
    assert(whole % 60 == seconds);
}

/// The line of hints tells how to quit and to change the layout, the wait to the
/// next refresh, and, where there is more than fits, how to scroll and where the
/// view stands; of all its forms the first is taken that is no wider than the
/// screen.
pub proof fn hints_tell_what_fits(
    offset: u16,
    viewport: u16,
    content: u16,
    layout: Layout,
    remaining: u64,
)
    ensures
        ({
            let lines = tui::status_lines(offset, viewport, content, layout, remaining);
            let hint = if layout is Vertical {
                "v columns"@
            } else {
                "v one per row"@
            };
            let full = tui::eighths_bar(tui::filled_eighths(remaining, 10), 10);
            let mini = tui::eighths_bar(tui::filled_eighths(remaining, 4), 4);
            let wait = tui::wait_text(remaining);
            let at = if offset < 65535 {
                (offset + 1) as nat
            } else {
                65535
            };
            let position = text::decimal_digits(at) + "/"@ + text::decimal_digits(content as nat);
            &&& content > viewport ==> lines == seq![
                "q quit  wheel/jk scroll  PgUp/PgDn half page  "@ + hint + "  "@ + full + " "@
                    + wait + "  "@ + position,
                "q quit  jk  PgUp/PgDn  "@ + hint + "  "@ + full + " "@ + wait + "  "@ + position,
                "q quit  jk  PgUp/PgDn  "@ + hint + "  "@ + full + "  "@ + position,
                "q quit  jk  PgUp/PgDn  "@ + hint + "  "@ + mini + "  "@ + position,
                "q  jk  PgUp/Dn  v  "@ + mini + "  "@ + position,
                "q  v  "@ + mini + "  "@ + position,
                "q  "@ + position,
                "q"@,
            ]
            &&& content <= viewport ==> lines == seq![
                "q quit  "@ + hint + "  "@ + full + " "@ + wait,
                "q quit  "@ + hint + "  "@ + full,
                "q quit  "@ + hint + "  "@ + mini,
                "q quit  "@ + hint,
                "q quit"@,
                "q"@,
            ]
        }),
{
}

/// The first of some lines that is no wider than the screen is taken, and none
/// where all are wider.
pub proof fn the_first_fitting_line_is_taken(lines: Seq<Seq<char>>, width: nat, place: int)
    ensures
        0 <= place < lines.len() && width::cells(lines[place]) <= width && (forall|i: int|
            0 <= i < place ==> width::cells(#[trigger] lines[i]) > width) ==> tui::fitting_line(
            lines,
            width,
        ) == lines[place],
        (forall|i: int| 0 <= i < lines.len() ==> width::cells(#[trigger] lines[i]) > width)
            ==> tui::fitting_line(lines, width).len() == 0,
    decreases lines.len(),
{
    if lines.len() > 0 {
        let rest = lines.skip(1);
        the_first_fitting_line_is_taken(rest, width, place - 1);
        assert forall|i: int| 0 <= i < rest.len() implies rest[i] == #[trigger] lines[i + 1] by {}
        if width::cells(lines[0]) > width {
            if 0 <= place < lines.len() && width::cells(lines[place]) <= width && (forall|i: int|
                0 <= i < place ==> width::cells(#[trigger] lines[i]) > width) {
                assert(rest[place - 1] == lines[place]);
                assert forall|i: int| 0 <= i < place - 1 implies width::cells(#[trigger] rest[i])
                    > width by {
                    assert(width::cells(lines[i + 1]) > width);
                }
                tui::fitting_lines_fit(rest, width);
                assert(tui::fitting_line(rest, width) == lines[place]);
                assert(tui::first_fitting(lines, width) == 1 + tui::first_fitting(rest, width));
                first_fitting_line(rest, width, place - 1);
            }
            if forall|i: int|
                0 <= i < lines.len() ==> width::cells(#[trigger] lines[i]) > width {
                no_fitting_line(lines, width);
            }
        }
    }
}

proof fn first_fitting_line(lines: Seq<Seq<char>>, width: nat, place: int)
    requires
        0 <= place < lines.len(),
        width::cells(lines[place]) <= width,
        forall|i: int| 0 <= i < place ==> width::cells(#[trigger] lines[i]) > width,
    ensures
        tui::first_fitting(lines, width) == place,
    decreases lines.len(),
{
    if place > 0 {
        let rest = lines.skip(1);
        assert(width::cells(lines[0]) > width);
        assert forall|i: int| 0 <= i < place - 1 implies width::cells(#[trigger] rest[i])
            > width by {
            assert(rest[i] == lines[i + 1]);
        }
        assert(rest[place - 1] == lines[place]);
        first_fitting_line(rest, width, place - 1);
    }
}

proof fn no_fitting_line(lines: Seq<Seq<char>>, width: nat)
    requires
        forall|i: int| 0 <= i < lines.len() ==> width::cells(#[trigger] lines[i]) > width,
    ensures
        tui::first_fitting(lines, width) == lines.len(),
    decreases lines.len(),
{
    if lines.len() > 0 {
        let rest = lines.skip(1);
        assert(width::cells(lines[0]) > width);
        assert forall|i: int| 0 <= i < rest.len() implies width::cells(#[trigger] rest[i])
            > width by {
            assert(rest[i] == lines[i + 1]);
        }
        no_fitting_line(rest, width);
    }
}

/// A line of a card, where its card's place and the offset put it on the screen.
pub open spec fn placed_line(
    card: Card,
    rect: Rect,
    window: Window,
    columns: RowLayout,
    line: int,
) -> PlacedView {
    PlacedView {
        x: rect.x as int,
        y: window.top + rect.y + line - window.offset,
        width: rect.width as int,
        line: cards::card_line(card, rect.width as nat, columns, line),
    }
}

proof fn lines_stand_where_they_belong(
    card: Card,
    rect: Rect,
    window: Window,
    columns: RowLayout,
    count: nat,
    line: int,
)
    ensures
        0 <= line < count && 0 <= rect.y + line - window.offset < window.height
            ==> frame::shown_lines(card, rect, window, columns, count).contains(
            placed_line(card, rect, window, columns, line),
        ),
        forall|i: int|
            0 <= i < frame::shown_lines(card, rect, window, columns, count).len() ==> exists|
                k: int,
            |
                0 <= k < count && 0 <= rect.y + k - window.offset < window.height
                    && #[trigger] frame::shown_lines(card, rect, window, columns, count)[i]
                    == #[trigger] placed_line(card, rect, window, columns, k),
    decreases count,
{
    if count > 0 {
        let less = (count - 1) as nat;
        lines_stand_where_they_belong(card, rect, window, columns, less, line);
        let before = frame::shown_lines(card, rect, window, columns, less);
        let after = frame::shown_lines(card, rect, window, columns, count);
        let row = rect.y + less - window.offset;
        if line == less && 0 <= row < window.height {
            assert(after[before.len() as int] =~= placed_line(card, rect, window, columns, line));
        } else if 0 <= line < less && 0 <= rect.y + line - window.offset < window.height {
            let i = choose|i: int|
                0 <= i < before.len() && before[i] == placed_line(
                    card,
                    rect,
                    window,
                    columns,
                    line,
                );
            assert(after[i] == before[i]);
        }
        assert forall|i: int| 0 <= i < after.len() implies exists|k: int|
            0 <= k < count && 0 <= rect.y + k - window.offset < window.height
                && #[trigger] after[i] == #[trigger] placed_line(
                card,
                rect,
                window,
                columns,
                k,
            ) by {
            if i < before.len() {
                assert(after[i] == before[i]);
                let k = choose|k: int|
                    0 <= k < less && 0 <= rect.y + k - window.offset < window.height
                        && #[trigger] before[i] == #[trigger] placed_line(
                        card,
                        rect,
                        window,
                        columns,
                        k,
                    );
                assert(after[i] == placed_line(card, rect, window, columns, k));
            } else {
                assert(after[i] =~= placed_line(card, rect, window, columns, less as int));
            }
        }
    }
}

/// Every line of every card that the window reaches stands on the screen, in the
/// card's own columns and as far below the top as its card's place and the offset
/// say.
pub proof fn cards_stand_in_their_places(
    shown: Seq<Card>,
    rects: Seq<Rect>,
    window: Window,
    columns: RowLayout,
    count: nat,
    card: int,
    line: int,
)
    requires
        count <= shown.len(),
        0 <= card < count,
        rects[card].width > 0,
        0 <= line < shown[card].lines(),
        0 <= rects[card].y + line - window.offset < window.height,
    ensures
        frame::shown_cards(shown, rects, window, columns, count).contains(
            placed_line(shown[card], rects[card], window, columns, line),
        ),
    decreases count,
{
    let less = (count - 1) as nat;
    let before = frame::shown_cards(shown, rects, window, columns, less);
    let own = frame::shown_card(shown[less as int], rects[less as int], window, columns);
    let all = frame::shown_cards(shown, rects, window, columns, count);
    let wanted = placed_line(shown[card], rects[card], window, columns, line);
    if card == less {
        lines_stand_where_they_belong(
            shown[card],
            rects[card],
            window,
            columns,
            shown[card].lines(),
            line,
        );
        let i = choose|i: int| 0 <= i < own.len() && own[i] == wanted;
        assert(all[before.len() + i] == wanted);
    } else {
        cards_stand_in_their_places(shown, rects, window, columns, less, card, line);
        let i = choose|i: int| 0 <= i < before.len() && before[i] == wanted;
        assert(all[i] == wanted);
    }
}

/// The hints stand on the last line of a screen that has room for them, faint and
/// in the middle.
pub proof fn hints_stand_on_the_last_line(width: u16, height: u16, line: Seq<char>)
    requires
        width::cells(line) <= width,
    ensures
        height >= 4 ==> {
            let status = frame::shown_status(width, height, line);
            &&& status.len() == 1
            &&& status[0].y == height - 1
            &&& 0 <= width - width::cells(line) - 2 * status[0].x <= 1
            &&& status[0].line == seq![SpanView { text: line, tone: Tone::Dim }]
        },
        height < 4 ==> frame::shown_status(width, height, line).len() == 0,
{
}

/// Without snapshots the view says so in its first line.
pub proof fn an_empty_view_says_so(width: u16)
    ensures
        frame::nothing_to_show(width).y == 0,
        frame::nothing_to_show(width).x == 0,
        frame::nothing_to_show(width).line == seq![
            SpanView { text: "No subscription snapshots"@, tone: Tone::Faint },
        ],
{
}

/// A drawn view scrolls first and draws then: by its cards' heights and the room
/// for them, and it hints at where it stands.
pub proof fn views_scroll_then_draw(
    width: u16,
    height: u16,
    shown: Seq<Card>,
    before: Scroll,
    layout: Layout,
    remaining: u64,
    columns: RowLayout,
    rects: Seq<Rect>,
    after: Scroll,
    placed: Seq<PlacedView>,
)
    requires
        frame::shows(
            width,
            height,
            shown,
            before,
            layout,
            remaining,
            columns,
            rects,
            after,
            placed,
        ),
    ensures
        ({
            let room = frame::viewport_rows(height as int);
            let content = place::lowest(rects);
            let window = Window {
                top: tui::affordable(height as int).margin as int,
                height: room,
                offset: after.offset as int,
            };
            &&& after == before.applied(room, content)
            &&& cards::measures(cards::all_rows(shown), columns)
            &&& rects.len() == shown.len()
            &&& forall|i: int|
                0 <= i < rects.len() ==> (#[trigger] rects[i]).height == if shown[i].lines()
                    < 65535 {
                    shown[i].lines() as int
                } else {
                    65535
                }
            &&& forall|i: int|
                0 <= i < frame::shown_cards(shown, rects, window, columns, shown.len()).len()
                    ==> placed[i] == #[trigger] frame::shown_cards(
                    shown,
                    rects,
                    window,
                    columns,
                    shown.len(),
                )[i]
            &&& height >= 4 ==> placed.last().line == seq![
                SpanView {
                    text: tui::fitting_line(
                        tui::status_lines(
                            after.offset,
                            room as u16,
                            content as u16,
                            layout,
                            remaining,
                        ),
                        width as nat,
                    ),
                    tone: Tone::Dim,
                },
            ]
        }),
{
    assert forall|i: int| 0 <= i < rects.len() implies (#[trigger] rects[i]).height == if shown[i].lines()
        < 65535 {
        shown[i].lines() as int
    } else {
        65535
    } by {
        let heights = frame::heights_of(shown);
        assert(rects[i].height == heights[i]);
    }
}

/// The view opens in one column where this run is told so, and else as it was left,
/// at the top and not stalled.
pub proof fn views_open_as_told(vertical: bool, saved: Layout)
    ensures
        ({
            let view = ViewState::opened(vertical, saved);
            &&& vertical ==> view.layout is Vertical
            &&& !vertical ==> view.layout == saved
            &&& view.scroll.offset == 0
            &&& view.scroll.pending is Ignore
            &&& !view.stalled
        }),
{
}

/// To quit closes the view and changes nothing; another layout is saved and shown
/// from the top; all else is drawn, once the view has taken it up.
pub proof fn events_do_what_they_ask(view: ViewState, action: Action)
    ensures
        view.step_for(action) is Close <==> action is Quit,
        view.step_for(action) is Save <==> action is ToggleLayout,
        action is Quit ==> view.acted(action) == view,
        action is ToggleLayout ==> {
            &&& view.step_for(action) == ViewStep::Save(view.acted(action).layout)
            &&& view.acted(action).layout != view.layout
            &&& view.acted(action).scroll.offset == 0
        },
        !(action is Quit) && !(action is ToggleLayout) ==> {
            &&& view.step_for(action) is Draw
            &&& view.acted(action).scroll.pending == action
            &&& view.acted(action).scroll.offset == view.scroll.offset
            &&& view.acted(action).layout == view.layout
        },
        view.acted(action).stalled == view.stalled,
{
}

/// A refresh that is not answered empties the countdown until one is; the wait for
/// an event ends with the wait for a refresh, and at least every second.
pub proof fn unanswered_refreshes_empty_the_countdown(
    view: ViewState,
    answered: bool,
    remaining: u64,
)
    ensures
        view.after_refresh(answered).wait_shown(remaining) == if answered {
            remaining
        } else {
            0
        },
        view.after_refresh(answered).layout == view.layout,
        view.after_refresh(answered).scroll == view.scroll,
        session::waited(remaining) <= remaining,
        session::waited(remaining) <= 1000000000,
        session::waited(remaining) == remaining || session::waited(remaining) == 1000000000,
{
}

/// What the program ends with after the view: 2 where a snapshot it held last is
/// partial and 0 else, with the notice; and 1 where the terminal failed.
pub proof fn closed_views_end_by_what_they_held(
    held: Option<Seq<SnapshotPayload>>,
    notice: Seq<char>,
    output: RunOutput,
)
    requires
        session::closed(held, notice, output),
    ensures
        output.stdout@.len() == 0,
        held matches Some(snapshots) ==> output.stderr@ == notice && output.code.number() == if exists|
            i: int,
        |
            0 <= i < snapshots.len() && (#[trigger] snapshots[i]).usage is Partial {
            2int
        } else {
            0
        },
        held is None ==> failures::told_failure(
            Rendered::Failed(output),
            1,
            "tui_failed"@,
            crate::cli::OutputFormat::Table,
        ),
{
}

/// Where no answer comes the view does not open: 5 without a daemon, 64 for an
/// endpoint that is not one, and 6 for all else.
pub proof fn unanswered_views_do_not_open(error: ClientError, opening: Opening)
    requires
        session::refused_for(error, opening),
    ensures
        opening matches Opening::Refused(rendered) && match error {
            ClientError::DaemonUnavailable => failures::told_failure(
                rendered,
                5,
                "daemon_unavailable"@,
                crate::cli::OutputFormat::Table,
            ),
            ClientError::InvalidEndpoint => failures::told_failure(
                rendered,
                64,
                "invalid_control_socket"@,
                crate::cli::OutputFormat::Table,
            ),
            _ => failures::told_failure(
                rendered,
                6,
                "invalid_daemon_response"@,
                crate::cli::OutputFormat::Table,
            ),
        },
{
}

/// The view opens with the snapshots of a trusted answer, and with the warning of
/// an older daemon for its end; an answer that is not trusted is told as a breach
/// of the protocol.
pub proof fn views_open_with_trusted_snapshots(
    response: ControlResponse,
    request_id: Seq<char>,
    client_version: Seq<char>,
    now: Timestamp,
    opening: Opening,
)
    requires
        session::opens(response, request_id, client_version, now, opening),
    ensures
        exists|safe: ControlResult|
            #![trigger redact::controls_removed(response.result, safe)]
            redact::controls_removed(response.result, safe) && {
                let trusted = response.version == 1 && response.request_id@ == request_id
                    && response.diagnostic is None && validate::answers(
                    crate::cli::Command::Tui(crate::cli::TuiArgs { vertical: false }),
                    safe,
                );
                let older = match response.daemon_version {
                    Some(reported) => version::daemon_is_older(Some(reported@), client_version),
                    None => true,
                };
                &&& !trusted ==> (opening matches Opening::Refused(rendered)
                    && failures::told_failure(
                    rendered,
                    6,
                    "invalid_daemon_response"@,
                    crate::cli::OutputFormat::Table,
                ))
                &&& trusted && safe is Snapshots ==> (opening matches Opening::View {
                    snapshots,
                    notice,
                } && snapshots == safe->Snapshots_0 && (notice@.len() == 0 <==> !older))
                &&& trusted && !(safe is Snapshots) ==> (opening matches Opening::Refused(rendered)
                    && failures::told_failure(
                    rendered,
                    6,
                    "protocol_mismatch"@,
                    crate::cli::OutputFormat::Table,
                ))
            },
{
    let safe = choose|safe: ControlResult|
        #[trigger] redact::controls_removed(response.result, safe) && if !session::trusted(
            response,
            request_id,
            safe,
        ) {
            session::refused(
                opening,
                crate::errors::ExitCode::ProtocolError,
                "invalid_daemon_response"@,
            )
        } else {
            match safe {
                ControlResult::Snapshots(all) => opening matches Opening::View { snapshots, notice }
                    && snapshots == all && notice@ == session::closing_notice(
                    response.daemon_version,
                    client_version,
                ),
                _ => opening matches Opening::Refused(rendered) && session::plainly_printed(
                    safe,
                    now,
                    rendered,
                ),
            }
        };
    reveal_strlit("\n");
    assert("\n"@.len() == 1);
    assert(redact::controls_removed(response.result, safe));
}

/// A refresh takes the snapshots of a trusted answer to the view's own request, and
/// none from any other.
pub proof fn refreshes_take_trusted_snapshots(
    response: ControlResponse,
    request_id: Seq<char>,
    result: Option<Vec<SnapshotPayload>>,
)
    requires
        session::fetches(response, request_id, result),
    ensures
        result is Some ==> response.version == 1 && response.request_id@ == request_id
            && response.diagnostic is None && exists|safe: ControlResult|
            #![trigger redact::controls_removed(response.result, safe)]
            redact::controls_removed(response.result, safe) && safe == ControlResult::Snapshots(
                result->0,
            ) && validate::answers(
                crate::cli::Command::Tui(crate::cli::TuiArgs { vertical: false }),
                safe,
            ),
        result is None ==> response.version != 1 || response.request_id@ != request_id
            || response.diagnostic is Some || exists|safe: ControlResult|
            #![trigger redact::controls_removed(response.result, safe)]
            redact::controls_removed(response.result, safe) && (!(safe is Snapshots)
                || !validate::answers(
                crate::cli::Command::Tui(crate::cli::TuiArgs { vertical: false }),
                safe,
            )),
{
    let safe = choose|safe: ControlResult|
        #[trigger] redact::controls_removed(response.result, safe) && result == (
        if session::trusted(response, request_id, safe) {
            match safe {
                ControlResult::Snapshots(snapshots) => Some(snapshots),
                _ => None,
            }
        } else {
            None
        });
    assert(redact::controls_removed(response.result, safe));
}

/// The terminal is entered by four calls, in this order, and each is undone by its
/// opposite.
pub proof fn terminal_calls_are_undone_by_their_opposites(call: TerminalCall)
    ensures
        session::entry_calls() == seq![
            TerminalCall::EnableRaw,
            TerminalCall::EnterAlternateScreen,
            TerminalCall::EnableMouse,
            TerminalCall::HideCursor,
        ],
        session::undoing(session::undoing(call)) == call,
        session::undoing(TerminalCall::EnableRaw) == TerminalCall::DisableRaw,
        session::undoing(TerminalCall::EnterAlternateScreen) == TerminalCall::LeaveAlternateScreen,
        session::undoing(TerminalCall::EnableMouse) == TerminalCall::DisableMouse,
        session::undoing(TerminalCall::HideCursor) == TerminalCall::ShowCursor,
{
}

} // verus!
