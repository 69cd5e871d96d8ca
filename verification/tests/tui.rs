use unicode_width::UnicodeWidthStr;

use ullage::cards::{card_lines, Card, CardRow, CardTitle, Meter, RowLayout, Severity, Span};
use ullage::error::QueryOutcome;
use ullage::errors::ClientError;
use ullage::protocol::{
    ControlResponse, ControlResult, SnapshotPayload, CONTROL_PROTOCOL_VERSION,
};
use ullage::provider::ProviderId;
use ullage::tui::frame::{view_frame, Placed};
use ullage::tui::session::{fetched_snapshots, TerminalCall, TerminalSession};
use ullage::tui::{
    key_action, mouse_action, refresh_bar, remaining_text, status_line, Action, Key, Layout, Mouse,
    Scroll, MINI_REFRESH_BAR_CELLS, REFRESH_BAR_CELLS, WHEEL_LINES,
};
use ullage::usage::{SubscriptionUsage, Timestamp};

fn now() -> Timestamp {
    Timestamp {
        seconds: 1_789_905_600,
        nanos: 0,
    }
}

/// A row of which 91 percent are left.
fn row(identity: &str, verb: &str, amount: &str, resets: Option<&str>) -> CardRow {
    CardRow {
        identity: identity.into(),
        verb: verb.into(),
        amount: amount.into(),
        suffix: "".into(),
        resets: resets.map(str::to_owned),
        meter: Some(Meter {
            severity: Severity::Ample,
            filled: 9,
            mini_filled: 4,
        }),
    }
}

fn title() -> CardTitle {
    CardTitle {
        provider: "grok".into(),
        plan: Some("max_20x".into()),
        account: "acct-1".into(),
    }
}

fn card_with_rows(rows: Vec<CardRow>) -> Card {
    Card {
        title: title(),
        rows,
        notices: Vec::new(),
    }
}

fn line_text(line: &[Span]) -> String {
    line.iter().map(|span| span.text.as_str()).collect()
}

/// Queues `action` and draws once, the order the event loop uses.
fn step(scroll: &mut Scroll, action: Action, viewport_height: u16, content_height: u16) -> u16 {
    scroll.pending = action;
    scroll.apply(viewport_height, content_height);
    scroll.offset
}

fn snapshot(provider: &str, account_id: &str) -> SnapshotPayload {
    SnapshotPayload {
        account_id: account_id.into(),
        usage: QueryOutcome::Complete {
            data: SubscriptionUsage {
                provider: ProviderId::new(provider),
                account_label: None,
                plan: None,
                subscription_expires_at: None,
                observed_at: now(),
                windows: Vec::new(),
            },
        },
        last_success_at: now(),
        stale: false,
        last_error: None,
        last_error_at: None,
        metrics: Vec::new(),
    }
}

fn snapshots_response(request_id: &str) -> ControlResponse {
    ControlResponse {
        version: CONTROL_PROTOCOL_VERSION,
        request_id: request_id.into(),
        result: ControlResult::Snapshots(vec![snapshot("grok", "personal")]),
        diagnostic: None,
        daemon_version: None,
    }
}

/// The screen as characters; every glyph the view draws with takes one cell.
fn screen(width: u16, height: u16, placed: &[Placed]) -> Vec<Vec<char>> {
    let mut rows = vec![vec![' '; usize::from(width)]; usize::from(height)];
    for line in placed {
        let text = line_text(&line.line);
        for (index, glyph) in text.chars().take(usize::from(line.width)).enumerate() {
            rows[usize::from(line.y)][usize::from(line.x) + index] = glyph;
        }
    }
    rows
}

fn drawn(width: u16, height: u16, cards: &Vec<Card>, layout: Layout) -> Vec<String> {
    let mut scroll = Scroll::default();
    let placed = view_frame(width, height, cards, &mut scroll, layout, 0);
    screen(width, height, &placed)
        .into_iter()
        .map(|row| row.into_iter().collect())
        .collect()
}

/// Every row of the rendered view, with the trailing blanks kept.
fn rendered_rows(width: u16, height: u16, cards: &Vec<Card>) -> Vec<String> {
    drawn(width, height, cards, Layout::Columns)
}

/// The column the status line's text starts in, and the text itself.
fn status_row(width: u16, layout: Layout, cards: &Vec<Card>) -> (u16, String) {
    let row = drawn(width, 9, cards, layout).swap_remove(8);
    let start = row.chars().take_while(|cell| *cell == ' ').count();
    (start as u16, row.trim().to_owned())
}

#[test]
fn a_refresh_reads_every_snapshot_again() {
    let snapshots = fetched_snapshots(Ok(snapshots_response("cli-1-1")), "cli-1-1").unwrap();

    assert_eq!(snapshots.len(), 1);
    assert_eq!(snapshots[0].account_id, "personal");
}

#[test]
fn a_refusal_or_a_mismatched_answer_leaves_the_readings_alone() {
    // The caller keeps the snapshots it has when the refresh gives back
    // `None`, so every one of these is a view that simply does not change.
    assert!(fetched_snapshots(Err(ClientError::DaemonUnavailable), "cli-1-1").is_none());

    let mut wrong_version = snapshots_response("cli-1-1");
    wrong_version.version = CONTROL_PROTOCOL_VERSION.wrapping_add(1);
    assert!(fetched_snapshots(Ok(wrong_version), "cli-1-1").is_none());

    let mut wrong_request = snapshots_response("cli-1-1");
    wrong_request.request_id = "someone else's".into();
    assert!(fetched_snapshots(Ok(wrong_request), "cli-1-1").is_none());

    let mut wrong_result = snapshots_response("cli-1-1");
    wrong_result.result = ControlResult::Providers(Vec::new());
    assert!(fetched_snapshots(Ok(wrong_result), "cli-1-1").is_none());
}

#[test]
fn every_card_line_is_exactly_the_card_width() {
    let cards = vec![Card {
        title: title(),
        rows: vec![
            row("5h", "remains", "91%", Some("3h05m")),
            row("weekly", "used up", "", Some("◆ 23d ◆")),
        ],
        notices: vec!["! stale snapshot".into()],
    }];

    // The box glyphs are East Asian ambiguous, one cell to `unicode-width`:
    // a line that is shorter or wider than the card means a border slipped
    // out of alignment.
    for width in [90u16, 42, 28, 20, 12, 6, 5, 3, 2, 1] {
        for (index, line) in card_lines(&cards[0], width, &RowLayout::measure_all(&cards))
        .iter()
        .enumerate()
        {
            let text = line_text(line);
            assert_eq!(
                UnicodeWidthStr::width(text.as_str()),
                usize::from(width),
                "width {width} line {index}: {text}"
            );
        }
    }
}

#[test]
fn scrolling_stops_at_the_first_and_last_row() {
    let mut scroll = Scroll::default();

    let mut step = |action| step(&mut scroll, action, 10, 40);

    assert_eq!(step(Action::Up(3)), 0, "already at the top");
    assert_eq!(step(Action::Down(3)), 3);
    assert_eq!(step(Action::HalfDown), 8, "half of a ten-row viewport");
    assert_eq!(step(Action::HalfUp), 3);
    assert_eq!(
        step(Action::Bottom),
        30,
        "content height minus viewport height"
    );
    assert_eq!(step(Action::Down(3)), 30, "already at the bottom");
    assert_eq!(step(Action::Top), 0);
}

#[test]
fn content_shorter_than_the_viewport_does_not_scroll() {
    let mut scroll = Scroll::default();

    assert_eq!(step(&mut scroll, Action::Down(3), 10, 4), 0);
    assert_eq!(step(&mut scroll, Action::Bottom, 10, 4), 0);
}

#[test]
fn a_shrinking_viewport_pulls_the_offset_back() {
    let mut scroll = Scroll {
        offset: 30,
        pending: Action::Ignore,
    };

    scroll.apply(20, 40);

    assert_eq!(scroll.offset, 20);
}

fn nanoseconds(seconds: u64) -> u64 {
    seconds * 1_000_000_000
}

#[test]
fn a_wait_under_a_second_still_fills_part_of_the_bar() {
    assert_eq!(refresh_bar(1, 10), "▏░░░░░░░░░");
    assert_eq!(refresh_bar(999_999_999, 10), "▏░░░░░░░░░");
    assert_eq!(refresh_bar(1_500_000_000, 10), "▏░░░░░░░░░");
    assert_eq!(refresh_bar(1_500_000_001, 10), "▎░░░░░░░░░");
    assert_eq!(refresh_bar(118_500_000_000, 10), "█████████▉");
    assert_eq!(refresh_bar(118_500_000_001, 10), "██████████");
    assert_eq!(remaining_text(999_999_999), "0m00s");
    assert_eq!(remaining_text(119_999_999_999), "1m59s");
}

#[test]
fn the_refresh_bar_empties_over_the_interval() {
    let bar = |seconds| refresh_bar(nanoseconds(seconds), REFRESH_BAR_CELLS);

    // A fresh load starts full and the refresh is due at an empty bar; a wait
    // longer than the interval (which the caller never produces) is clamped
    // to full rather than overflowing.
    assert_eq!(bar(120), "██████████");
    assert_eq!(bar(300), "██████████");
    assert_eq!(bar(0), "░░░░░░░░░░");
    // Ten cells over two minutes: one cell every twelve seconds, and the cell
    // the countdown is inside moves in eighths, so it takes about a second
    // and a half for the bar to change again.
    assert_eq!(bar(119), "██████████");
    assert_eq!(bar(118), "█████████▉");
    assert_eq!(bar(114), "█████████▌");
    assert_eq!(bar(108), "█████████░");
    assert_eq!(bar(12), "█░░░░░░░░░");
    assert_eq!(bar(6), "▌░░░░░░░░░");
    assert_eq!(bar(1), "▏░░░░░░░░░");
}

#[test]
fn the_refresh_bar_keeps_its_width_and_shrinks_on_a_narrow_terminal() {
    for seconds in [0u64, 1, 7, 12, 60, 119, 120] {
        for cells in [REFRESH_BAR_CELLS, MINI_REFRESH_BAR_CELLS] {
            let bar = refresh_bar(nanoseconds(seconds), cells);
            assert_eq!(
                UnicodeWidthStr::width(bar.as_str()),
                cells,
                "{seconds}s, {cells} cells: {bar}"
            );
        }
    }
}

#[test]
fn the_countdown_reads_as_whole_seconds() {
    let text = |seconds| remaining_text(nanoseconds(seconds));

    assert_eq!(text(120), "2m00s");
    assert_eq!(text(119), "1m59s");
    assert_eq!(text(45), "0m45s");
    assert_eq!(text(0), "0m00s");
}

#[test]
fn the_wheel_scrolls_three_rows_and_other_mouse_events_do_nothing() {
    assert_eq!(mouse_action(Mouse::WheelUp), Action::Up(WHEEL_LINES));
    assert_eq!(mouse_action(Mouse::WheelDown), Action::Down(WHEEL_LINES));
    assert_eq!(WHEEL_LINES, 3);
    assert_eq!(mouse_action(Mouse::Other), Action::Ignore);
}

#[test]
fn keys_map_to_quitting_paging_and_line_scrolling() {
    let press = |code| key_action(code, false, false);

    for code in [Key::Character('q'), Key::Character('Q'), Key::Escape] {
        assert_eq!(press(code), Action::Quit);
    }
    assert_eq!(
        key_action(Key::Character('c'), true, false),
        Action::Quit
    );
    assert_eq!(press(Key::PageUp), Action::HalfUp);
    assert_eq!(press(Key::PageDown), Action::HalfDown);
    assert_eq!(press(Key::Up), Action::Up(1));
    assert_eq!(press(Key::Character('j')), Action::Down(1));
    assert_eq!(press(Key::Home), Action::Top);
    assert_eq!(press(Key::End), Action::Bottom);
    assert_eq!(press(Key::Character('x')), Action::Ignore);
}

#[test]
fn the_status_line_shortens_with_the_terminal() {
    let line = |width| {
        status_line(11, 10, 40, width, Layout::Columns, nanoseconds(120))
    };

    assert_eq!(
        line(90),
        "q quit  wheel/jk scroll  PgUp/PgDn half page  v one per row  ██████████ 2m00s  12/40"
    );
    assert_eq!(
        line(61),
        "q quit  jk  PgUp/PgDn  v one per row  ██████████ 2m00s  12/40"
    );
    assert_eq!(
        line(55),
        "q quit  jk  PgUp/PgDn  v one per row  ██████████  12/40"
    );
    assert_eq!(
        line(49),
        "q quit  jk  PgUp/PgDn  v one per row  ████  12/40"
    );
    assert_eq!(line(30), "q  jk  PgUp/Dn  v  ████  12/40");
    assert_eq!(line(17), "q  v  ████  12/40");
    assert_eq!(line(8), "q  12/40");
    assert_eq!(line(1), "q");
    assert_eq!(
        status_line(0, 10, 4, 60, Layout::Columns, nanoseconds(120)),
        "q quit  v one per row  ██████████ 2m00s"
    );
    assert_eq!(
        status_line(0, 10, 4, 38, Layout::Columns, nanoseconds(120)),
        "q quit  v one per row  ██████████"
    );
    assert_eq!(
        status_line(0, 10, 4, 30, Layout::Columns, nanoseconds(120)),
        "q quit  v one per row  ████"
    );
    assert_eq!(
        status_line(0, 10, 4, 22, Layout::Columns, nanoseconds(120)),
        "q quit  v one per row"
    );
    assert_eq!(
        status_line(0, 10, 4, 1, Layout::Columns, nanoseconds(120)),
        "q"
    );
    // Each step only ever drops a piece: a narrow terminal never shows
    // something a wider one had already given up, so every piece is present
    // on a run of widths that ends at the widest.
    type Present = fn(&str) -> bool;
    let features: [(&str, Present); 4] = [
        ("the wait in words", |text| text.contains("2m00s")),
        ("the ten-cell bar", |text| text.contains("██████████")),
        ("the four-cell bar", |text| {
            !text.contains("██████████") && text.contains("████")
        }),
        ("the position", |text| text.contains("12/40")),
    ];
    for (name, present) in features {
        let widths: Vec<u16> = (1..=90).filter(|width| present(&line(*width))).collect();
        let contiguous = widths.windows(2).all(|pair| pair[1] == pair[0] + 1);
        assert!(!widths.is_empty(), "{name} never appears");
        assert!(
            contiguous,
            "{name} comes and goes across widths: {widths:?}"
        );
    }
    // And the order they go in is the order they are dropped: the wait in
    // words first, then the position, the ten-cell bar, and the four-cell one
    // in place of it.
    assert!(
        line(90).contains("2m00s")
            && line(60).contains("██████████")
            && !line(30).contains("2m00s"),
        "{}",
        line(30)
    );
}

#[test]
fn the_layout_hint_names_what_the_key_switches_to() {
    // The hint is what pressing `v` gives you, not what is on screen.
    let line = status_line(0, 10, 4, 60, Layout::Vertical, 0);
    assert!(line.contains("v columns"), "{}", line);
}

#[test]
fn v_toggles_the_layout_and_the_toggle_leaves_the_offset_alone() {
    assert_eq!(
        key_action(Key::Character('v'), false, false),
        Action::ToggleLayout
    );
    assert_eq!(
        key_action(Key::Character('V'), false, false),
        Action::ToggleLayout
    );
    assert_eq!(Layout::Columns.toggled(), Layout::Vertical);
    assert_eq!(Layout::Vertical.toggled(), Layout::Columns);

    let mut scroll = Scroll {
        offset: 7,
        pending: Action::ToggleLayout,
    };
    scroll.apply(10, 40);
    assert_eq!(scroll.offset, 7);
}

#[test]
fn the_view_keeps_a_blank_row_above_the_cards() {
    let cards = vec![card_with_rows(vec![row(
        "5h",
        "remains",
        "91%",
        Some("3h05m"),
    )])];

    let rows = rendered_rows(42, 6, &cards);

    assert_eq!(rows[0].trim(), "", "the first row is blank: {rows:?}");
    assert!(
        rows[1].contains('╭'),
        "the card starts on the second: {rows:?}"
    );
}

#[test]
fn a_blank_row_separates_the_cards_from_the_status_line() {
    let cards = vec![card_with_rows(vec![row(
        "5h",
        "remains",
        "91%",
        Some("3h05m"),
    )])];

    // The card is three rows tall and the view is six: the last row is the
    // status line and the row above it stays empty.
    let rows = rendered_rows(42, 6, &cards);

    assert!(rows[3].contains('╰'), "the card ends here: {rows:?}");
    assert_eq!(rows[4].trim(), "", "the gap row: {rows:?}");
    assert!(rows[5].contains('q'), "the status line: {rows:?}");
}

#[test]
fn a_scrolled_card_stops_at_the_gap_row() {
    // Content taller than the viewport: the rows left over are dropped, never
    // drawn over the gap row or the status line.
    let cards = vec![card_with_rows(vec![
        row("5h", "remains", "91%", Some("3h05m")),
        row("weekly", "remains", "40%", Some("3h05m")),
    ])];

    let rows = rendered_rows(42, 6, &cards);

    assert_eq!(rows[4].trim(), "", "the gap row: {rows:?}");
    assert!(rows[5].contains('q'), "the status line: {rows:?}");
    assert!(
        !rows[4].contains('│') && !rows[5].contains('│'),
        "no card row reaches the last two: {rows:?}"
    );
}

#[test]
fn the_hints_sit_in_the_middle_however_wide_the_cards_are() {
    let cards = vec![card_with_rows(vec![row(
        "5h",
        "remains",
        "91%",
        Some("3h05m"),
    )])];

    // A centered card, and cards that fill the width: both leave the same
    // margins, so the line does not jump as the layout changes.
    let (centered_start, centered_text) = status_row(60, Layout::Columns, &cards);
    let centered_end = 60 - centered_start - centered_text.chars().count() as u16;
    assert!(
        centered_start.abs_diff(centered_end) <= 1,
        "{centered_start} vs {centered_end}: {centered_text}"
    );

    let wide = vec![
        card_with_rows(vec![row("5h", "remains", "91%", Some("3h05m"))]),
        card_with_rows(vec![row("weekly", "remains", "40%", Some("3h05m"))]),
    ];
    let (full_start, full_text) = status_row(120, Layout::Columns, &wide);
    let full_end = 120 - full_start - full_text.chars().count() as u16;
    assert!(
        full_start.abs_diff(full_end) <= 1,
        "{full_start} vs {full_end}: {full_text}"
    );

    // One card per row is a centered card too, however wide the terminal.
    let (start, text) = status_row(120, Layout::Vertical, &cards);
    let end = 120 - start - text.chars().count() as u16;
    assert!(start.abs_diff(end) <= 1, "{start} vs {end}: {text}");
}

#[test]
fn the_view_reserves_its_last_row_for_the_status_line() {
    let cards = vec![card_with_rows(vec![row(
        "5h",
        "remains",
        "91%",
        Some("3h05m"),
    )])];

    // Four rows is the smallest view that still has a status line: one blank
    // row, one row of card, the gap row, and the status line. Narrow enough
    // that only the shortest hint fits, so the row is the hints and nothing
    // else.
    let rows = rendered_rows(42, 4, &cards);

    assert!(rows[3].contains("q  jk"), "the status line: {rows:?}");
    assert!(rows[3].contains("1/3"), "the position: {rows:?}");
    assert_eq!(rows[2].trim(), "", "the gap row: {rows:?}");
}

#[test]
fn a_view_too_short_for_the_status_line_shows_the_card_instead() {
    let cards = vec![card_with_rows(vec![row(
        "5h",
        "remains",
        "91%",
        Some("3h05m"),
    )])];

    // Two rows have room for the top margin and one row of card, and no room
    // for the gap row or the status line.
    let rows = rendered_rows(42, 2, &cards);

    assert_eq!(rows[0].trim(), "", "the first row is blank: {rows:?}");
    assert!(rows[1].contains('╭'), "the card keeps this row: {rows:?}");
}

#[test]
fn tiny_screen_render_does_not_panic() {
    let cards = vec![card_with_rows(vec![row(
        "long metric",
        "remains",
        "42%",
        Some("3h05m"),
    )])];

    rendered_rows(1, 1, &cards);
}

/// Takes over a terminal whose call at `fails` fails, and restores it: the calls.
fn terminal_run(fails: Option<TerminalCall>) -> (bool, Vec<&'static str>) {
    let name = |call: TerminalCall, failed: bool| match call {
        TerminalCall::EnableRaw => "raw_on",
        TerminalCall::EnterAlternateScreen => "alt_on",
        TerminalCall::EnableMouse => "mouse_on",
        TerminalCall::HideCursor => {
            if failed {
                "hide_failed"
            } else {
                "hide"
            }
        }
        TerminalCall::ShowCursor => "show",
        TerminalCall::DisableMouse => "mouse_off",
        TerminalCall::LeaveAlternateScreen => "alt_off",
        TerminalCall::DisableRaw => "raw_off",
    };
    let mut calls = Vec::new();
    let mut session = TerminalSession::new();
    let mut entered = true;
    while let Some(call) = session.next_call() {
        let failed = fails == Some(call);
        calls.push(name(call, failed));
        if failed {
            entered = false;
            break;
        }
        session = session.succeeded();
    }
    loop {
        let (rest, call) = session.restore();
        session = rest;
        match call {
            Some(call) => calls.push(name(call, false)),
            None => break,
        }
    }
    (entered, calls)
}

#[test]
fn terminal_session_restores_in_reverse_order() {
    let (entered, calls) = terminal_run(None);
    assert!(entered);
    assert_eq!(
        calls,
        [
            "raw_on",
            "alt_on",
            "mouse_on",
            "hide",
            "show",
            "mouse_off",
            "alt_off",
            "raw_off"
        ]
    );
}

#[test]
fn failed_terminal_entry_restores_completed_steps() {
    let (entered, calls) = terminal_run(Some(TerminalCall::HideCursor));
    assert!(!entered);
    assert_eq!(
        calls,
        [
            "raw_on",
            "alt_on",
            "mouse_on",
            "hide_failed",
            "mouse_off",
            "alt_off",
            "raw_off"
        ]
    );
}
