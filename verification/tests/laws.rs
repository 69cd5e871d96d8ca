use ullage::cards::place::{card_rects, content_height, preferred_card_width, Rect};
use ullage::cards::rows::{field_between, reset_text, strip_shared_prefix};
use ullage::cards::sort::sort_cards;
use ullage::cards::{block_bar, Card, CardRow, CardTitle, Meter, RowLayout, Severity, Tier};
use ullage::cli::{
    free_text_argument, infer_output_format, known_value_flag_label,
    unsafe_control_in_raw_arguments, AuthMethodArg, OutputFormat,
};
use ullage::clock::{countdown_text, date_text, relative_past, timestamp_text};
use ullage::dispatch::next_request_id;
use ullage::document::Style;
use ullage::error::{PartialFailure, ProviderError, QueryOutcome};
use ullage::errors::{
    error_output, error_output_with_options, with_diagnostic, ExitCode,
};
use ullage::protocol::{AuthMethod, AuthState, ControlResult};
use ullage::redact::{
    redact_error_details, redact_revealable_values, sanitize_cell, sanitize_cli_text,
};
use ullage::table::{
    draw_document, draw_table, reset_field, DrawnBlock, DrawnCell, Palette, SummaryCells,
};
use ullage::text::{order, trim, TextOrder};
use ullage::tui::session::{event_wait, TerminalSession};
use ullage::tui::{
    chrome, preferences_path, refresh_bar, Action, Layout, Platform, Scroll, UserDirectories,
};
use ullage::usage::Timestamp;
use ullage::version::{daemon_upgrade_notice, parse_build_version};
use ullage::width::{clip, display_width, repeat};

fn texts(arguments: &[&str]) -> Vec<String> {
    arguments.iter().map(|text| (*text).to_owned()).collect()
}

fn moment(seconds: i64) -> Timestamp {
    Timestamp { seconds, nanos: 0 }
}

#[test]
fn sanitized_text_is_printable_and_stays_as_it_is() {
    let once = sanitize_cli_text("a\u{1b}[31mb\u{7}\tc\nd\u{202e}");
    assert_eq!(sanitize_cli_text(&once), once);
    assert_eq!(sanitize_cli_text("plain text\nline"), "plain text\nline");
    assert_eq!(sanitize_cell("plain"), "plain");
    assert_eq!(sanitize_cell("a\u{1b}b"), "[redacted]");
}

#[test]
fn exit_numbers_are_distinct() {
    let codes = [
        (ExitCode::Success, 0),
        (ExitCode::Failure, 1),
        (ExitCode::Partial, 2),
        (ExitCode::AuthenticationInvalid, 3),
        (ExitCode::NetworkFailure, 4),
        (ExitCode::DaemonUnavailable, 5),
        (ExitCode::ProtocolError, 6),
        (ExitCode::Usage, 64),
    ];
    for (code, number) in codes {
        assert_eq!(code.value(), number);
    }
}

#[test]
fn error_messages_are_written_as_json_strings() {
    let output = error_output_with_options(
        ExitCode::Failure,
        "failed",
        OutputFormat::Json,
        Some("a \"quoted\"\nline \u{1b}é"),
        None,
    );
    assert_eq!(
        output.stderr,
        "{\"status\":\"error\",\"error\":{\"kind\":\"failed\",\
         \"message\":\"a \\\"quoted\\\"\\nline \\u001bé\"}}\n"
    );
    assert_eq!(output.code, ExitCode::Failure);
    assert!(output.stdout.is_empty());
}

#[test]
fn a_detail_joins_an_error_envelope() {
    let compact = error_output(ExitCode::Failure, "storage", OutputFormat::Json).stderr;
    assert_eq!(
        with_diagnostic(&compact, "disk \"full\"", OutputFormat::Json),
        "{\"error\":{\"detail\":\"disk \\\"full\\\"\",\"kind\":\"storage\"},\"status\":\"error\"}\n"
    );
    let pretty = error_output(ExitCode::Failure, "storage", OutputFormat::PrettyJson).stderr;
    assert_eq!(
        with_diagnostic(&pretty, "disk full", OutputFormat::PrettyJson),
        "{\n  \"error\": {\n    \"detail\": \"disk full\",\n    \"kind\": \"storage\"\n  },\n  \
         \"status\": \"error\"\n}\n"
    );
    let told = error_output_with_options(
        ExitCode::Failure,
        "failed",
        OutputFormat::Json,
        Some("line\nbreak"),
        Some("try \u{1b}again"),
    );
    assert_eq!(
        with_diagnostic(&told.stderr, "\ttab", OutputFormat::Json),
        "{\"error\":{\"detail\":\"\\ttab\",\"hint\":\"try \\u001bagain\",\"kind\":\"failed\",\
         \"message\":\"line\\nbreak\"},\"status\":\"error\"}\n"
    );
    assert_eq!(with_diagnostic("", "disk full", OutputFormat::Json), "");
    assert_eq!(with_diagnostic("not json", "disk full", OutputFormat::PrettyJson), "not json");
    assert_eq!(
        with_diagnostic("error: storage\n", "disk full", OutputFormat::Table),
        "error: storage\ndetail: disk full\n"
    );
}

#[test]
fn points_in_time_are_written_as_dates() {
    assert_eq!(timestamp_text(&moment(0)), "1970-01-01T00:00:00+00:00");
    assert_eq!(
        timestamp_text(&Timestamp {
            seconds: 1_787_832_000,
            nanos: 90_314_000
        }),
        "2026-08-27T12:00:00.090314+00:00"
    );
    assert_eq!(date_text(&moment(1_787_832_000)), "2026-08-27");
    assert_eq!(relative_past(&moment(0), &moment(7_500)), "2h05m ago");
    for (seconds, expected) in [
        (0, "<1m"),
        (59, "<1m"),
        (60, "1m"),
        (3_600, "1h00m"),
        (86_400, "1d00h"),
        (190_000, "2d04h"),
    ] {
        assert_eq!(countdown_text(seconds), expected);
    }
}

#[test]
fn only_an_older_daemon_is_warned_about() {
    assert_eq!(parse_build_version("0.1.6"), Some((0, 1, 6)));
    assert_eq!(parse_build_version("1.2.3-rc.1"), Some((1, 2, 3)));
    assert_eq!(parse_build_version("1.2.3-"), Some((1, 2, 3)));
    assert_eq!(parse_build_version("+1.2.3"), Some((1, 2, 3)));
    for spoiled in [
        "",
        "1",
        "1.2",
        "0.1.6.7",
        "1-2-3",
        "1.2-3",
        "-1.2.3",
        "1.2.",
        "a.b.c",
        "1.2.x",
        "99999999999999999999.0.0",
    ] {
        assert_eq!(parse_build_version(spoiled), None, "{spoiled:?}");
    }
    assert!(daemon_upgrade_notice(Some("0.1.5"), "0.1.6").is_some());
    assert!(daemon_upgrade_notice(None, "0.1.6")
        .unwrap()
        .contains("unknown, predates version reporting"));
    for daemon in ["0.1.6", "0.2.0", "unknown"] {
        assert!(daemon_upgrade_notice(Some(daemon), "0.1.6").is_none());
    }
}

#[test]
fn texts_are_ordered_by_their_characters() {
    assert_eq!(order("a", "b"), TextOrder::Before);
    assert_eq!(order("b", "a"), TextOrder::After);
    assert_eq!(order("a", "ab"), TextOrder::Before);
    assert_eq!(order("é", "é"), TextOrder::Same);
    assert_eq!(trim(trim(" \u{3000}a b\n")), "a b");
}

#[test]
fn arguments_are_read_before_they_parse() {
    let formats: [(&[&str], OutputFormat); 6] = [
        (&["ullage"], OutputFormat::Table),
        (&["ullage", "--output", "json"], OutputFormat::Json),
        (&["ullage", "--output=pretty-json"], OutputFormat::PrettyJson),
        (
            &["ullage", "--output", "xml", "--output", "json"],
            OutputFormat::Json,
        ),
        (&["ullage", "--", "--output", "json"], OutputFormat::Table),
        (&["ullage", "--output"], OutputFormat::Table),
    ];
    for (arguments, format) in formats {
        assert_eq!(infer_output_format(&texts(arguments)), format);
    }
    assert_eq!(known_value_flag_label("--metric"), Some("--metric"));
    assert_eq!(known_value_flag_label("--all"), None);
    assert_eq!(
        unsafe_control_in_raw_arguments(&texts(&["ullage", "--label=a\u{7}"])),
        Some("--label")
    );
    assert_eq!(
        unsafe_control_in_raw_arguments(&texts(&["ullage", "show", "fine"])),
        None
    );
    assert_eq!(
        free_text_argument("a\u{7}").unwrap_err(),
        "contains disallowed control characters"
    );
    assert_eq!(free_text_argument("fine").unwrap(), "fine");
    assert_eq!(next_request_id(12, 7), "cli-12-7");
}

#[test]
fn sign_in_methods_keep_their_meaning() {
    for (argument, method) in [
        (AuthMethodArg::BrowserOauth, AuthMethod::BrowserOAuth),
        (AuthMethodArg::DeviceCode, AuthMethod::DeviceCode),
        (AuthMethodArg::ApiToken, AuthMethod::ApiToken),
        (AuthMethodArg::SessionImport, AuthMethod::SessionImport),
    ] {
        assert_eq!(AuthMethod::from(argument), method);
    }
}

#[test]
fn redacted_answers_keep_secrets() {
    let mut state = ControlResult::AuthState(AuthState::Authenticated {
        account_label: Some("person@example.test".into()),
        expires_at: None,
        account_key: Some("digest".into()),
    });
    redact_revealable_values(&mut state);
    assert!(!format!("{state:?}").contains("person@example.test"));

    let mut state = ControlResult::AuthState(AuthState::Invalid {
        reason: "secret".into(),
        account_key: None,
    });
    redact_error_details(&mut state, true);
    assert!(format!("{state:?}").contains("secret"));
    redact_error_details(&mut state, false);
    assert!(!format!("{state:?}").contains("secret"));
}

#[test]
fn sanitized_errors_are_recognised() {
    let errors = [
        ProviderError::AuthenticationInvalid { message: "x".into() },
        ProviderError::RateLimited {
            message: "x".into(),
            retry_after_seconds: None,
        },
        ProviderError::Network { message: "x".into() },
        ProviderError::ProtocolIncompatible { message: "x".into() },
    ];
    for error in errors {
        let failure = PartialFailure::from_error("usage", &error);
        assert!(ProviderError::is_sanitized_partial_message(&failure.message));
        let kind = error.kind();
        let once = error.sanitized();
        assert_eq!(once.kind(), kind);
        assert!(once.message().ends_with(once.sanitized_message()));
    }
    assert!(!ProviderError::is_sanitized_partial_message("vendor text"));
    let partial: QueryOutcome<u8> = QueryOutcome::Partial {
        data: 1,
        failures: Vec::new(),
    };
    assert!(partial.is_partial());
}

#[test]
fn wide_characters_are_never_split() {
    assert_eq!(display_width("中文"), 4);
    assert_eq!(display_width("abc"), 3);
    assert_eq!(display_width("━┄◆•◦"), 5);
    assert_eq!(clip("中文", 3), "中");
    assert_eq!(clip("中文", 4), "中文");
    assert_eq!(clip("a\u{301}bc", 2), "a\u{301}b");
    assert_eq!(clip("abc", 0), "");
    assert_eq!(repeat('-', 3), "---");
}

fn card(provider: &str, account: &str) -> Card {
    Card {
        title: CardTitle {
            provider: provider.into(),
            plan: None,
            account: account.into(),
        },
        rows: Vec::new(),
        notices: Vec::new(),
    }
}

#[test]
fn cards_are_sorted_whatever_the_case() {
    let sorted = sort_cards(vec![
        card("grok", "b"),
        card("Grok", "A"),
        card("ÉCLAIR", "x"),
        card("éclair", "w"),
        card("Cursor", "z"),
        card("grok", "a"),
    ]);
    let names: Vec<String> = sorted
        .iter()
        .map(|card| format!("{}/{}", card.title.provider, card.title.account))
        .collect();
    assert_eq!(
        names,
        ["Cursor/z", "Grok/A", "grok/a", "grok/b", "éclair/w", "ÉCLAIR/x"]
    );
}

fn named(identity: &str) -> CardRow {
    CardRow {
        identity: identity.into(),
        verb: "remains".into(),
        amount: "9%".into(),
        suffix: "".into(),
        resets: None,
        meter: Some(Meter {
            severity: Severity::Ample,
            filled: 9,
            mini_filled: 4,
        }),
    }
}

fn stripped(names: &[&str]) -> Vec<String> {
    let mut rows = names.iter().map(|name| named(name)).collect();
    strip_shared_prefix(&mut rows);
    rows.into_iter().map(|row| row.identity).collect()
}

#[test]
fn a_shared_name_is_dropped_once() {
    assert_eq!(
        stripped(&["monthly-total", "monthly-on demand"]),
        ["total", "on demand"]
    );
    assert_eq!(
        stripped(&["a-b-c", "a-b-d"]),
        ["c", "d"]
    );
    assert_eq!(stripped(&["monthly-total"]), ["monthly-total"]);
    assert_eq!(stripped(&["monthly", "monthly-total"]), ["monthly", "monthly-total"]);
    assert_eq!(stripped(&["-a", "-b"]), ["-a", "-b"]);
    let again = stripped(&["x-1", "x-2"]);
    assert_eq!(again, ["1", "2"]);
}

#[test]
fn countdowns_keep_to_their_field() {
    assert_eq!(reset_text(-5), "<1m");
    assert_eq!(reset_text(11_100), "3h05m");
    assert_eq!(reset_text(2 * 86_400), "◦◦◦◦◦••");
    assert_eq!(reset_text(7 * 86_400), "•••••••");
    assert_eq!(reset_text(23 * 86_400), "◆ 23d ◆");
    assert_eq!(reset_text(8 * 86_400), "◆  8d ◆");
    assert_eq!(reset_text(i64::MAX), "◆10675◆");
    assert_eq!(field_between("3h", '-'), "-  3h -");
    assert_eq!(reset_field(0), "- <1m -");
    assert_eq!(reset_field(12 * 60), "- 12m -");
    assert_eq!(reset_field(5 * 86_400), "--*****");
    assert_eq!(reset_field(30 * 86_400), "- 30d -");
    assert_eq!(block_bar(3, 10), "┄┄┄┄┄┄┄━━━");
    assert_eq!(block_bar(99, 4), "━━━━");
}

#[test]
fn bands_fill_the_width_and_do_not_overlap() {
    let rects = card_rects(90, &vec![3, 5, 4], false, 42);
    assert_eq!(
        rects,
        [
            Rect {
                x: 0,
                y: 0,
                width: 44,
                height: 3
            },
            Rect {
                x: 46,
                y: 0,
                width: 44,
                height: 5
            },
            Rect {
                x: 0,
                y: 6,
                width: 44,
                height: 4
            },
        ]
    );
    assert_eq!(content_height(&rects), 10);
    let stacked = card_rects(90, &vec![3, 5], true, 42);
    assert_eq!(stacked[1].x, 24);
    assert_eq!(stacked[1].y, 4);
    assert_eq!(stacked[1].width, 42);
    assert!(card_rects(0, &vec![3], false, 42).is_empty());
    let card = Card {
        rows: vec![named("5h")],
        ..card("grok", "a")
    };
    let columns = RowLayout::measure_all(&vec![card]);
    assert_eq!(preferred_card_width(&columns), 42);
    assert_eq!(columns.tier_for(200), Tier::Full);
}

#[test]
fn scrolling_stays_on_the_content_and_leads_back() {
    let mut scroll = Scroll::default();
    scroll.pending = Action::Down(5);
    scroll.apply(10, 40);
    assert_eq!(scroll.offset, 5);
    scroll.pending = Action::Up(5);
    scroll.apply(10, 40);
    assert_eq!(scroll.offset, 0);
    scroll.pending = Action::Down(500);
    scroll.apply(10, 40);
    assert_eq!(scroll.offset, 30);
}

#[test]
fn layouts_toggle_back_and_bars_empty() {
    assert_eq!(Layout::Columns.toggled().toggled(), Layout::Columns);
    assert!(Layout::Vertical.is_vertical());
    assert_eq!(refresh_bar(120_000_000_000, 8), "████████");
    assert_eq!(refresh_bar(60_000_000_000, 8), "████░░░░");
    assert_eq!(refresh_bar(1, 8), "▏░░░░░░░");
    assert_eq!(refresh_bar(0, 8), "░░░░░░░░");
    assert_eq!(event_wait(5_000_000_000), 1_000_000_000);
    assert_eq!(event_wait(7), 7);
    let tall = chrome(40);
    assert!(tall.status);
    assert!(!chrome(1).status);
}

#[test]
fn a_terminal_is_restored_in_reverse() {
    let mut session = TerminalSession::new();
    let mut entered = Vec::new();
    while let Some(call) = session.next_call() {
        entered.push(format!("{call:?}"));
        session = session.succeeded();
    }
    let mut left = Vec::new();
    loop {
        let (rest, call) = session.restore();
        session = rest;
        match call {
            Some(call) => left.push(format!("{call:?}")),
            None => break,
        }
    }
    assert_eq!(entered.len(), left.len());
    assert!(!left.is_empty());
}

#[test]
fn preferences_live_where_the_platform_keeps_them() {
    let directories = UserDirectories {
        home: Some("/home/a".into()),
        state: None,
        local: None,
    };
    assert_eq!(
        preferences_path(None, Platform::Unix, &directories).unwrap(),
        "/home/a/.local/state/ullage/tui.json"
    );
    assert_eq!(
        preferences_path(None, Platform::MacOs, &directories).unwrap(),
        "/home/a/Library/Application Support/Ullage/tui.json"
    );
    assert!(preferences_path(None, Platform::Windows, &directories).is_none());
    assert_eq!(
        preferences_path(Some("/x/tui.json".into()), Platform::Unix, &directories).unwrap(),
        "/x/tui.json"
    );
}

fn cell(text: &str, right: bool) -> DrawnCell {
    DrawnCell {
        text: text.into(),
        style: Style::Plain,
        right,
    }
}

#[test]
fn rows_are_as_long_as_the_rules_about_them() {
    let table = draw_table(
        &texts(&["NAME", "USED"]),
        &vec![vec![cell("grok", false), cell("7", true)]],
        Palette { colored: false },
    );
    assert_eq!(
        table,
        "+------+------+\n| NAME | USED |\n+------+------+\n| grok |    7 |\n+------+------+\n"
    );
    let lengths: Vec<usize> = table.lines().map(str::len).collect();
    assert!(lengths.iter().all(|length| *length == lengths[0]));
}

#[test]
fn sections_share_the_columns_of_their_summaries() {
    let line = |identity: &str| SummaryCells {
        identity: identity.into(),
        verb: "remains".into(),
        amount: "9%".into(),
        suffix: "".into(),
        resets_in: None,
        progress: Some((9, Severity::Ample)),
    };
    let drawn = draw_document(
        &vec![
            DrawnBlock::Header("one".into()),
            DrawnBlock::Rows(vec![line("5h")]),
            DrawnBlock::Break,
            DrawnBlock::Rows(vec![line("a longer name")]),
        ],
        Palette { colored: false },
    );
    assert_eq!(
        drawn,
        "==== one ====\n\
         5h             remains 9%  [-#########]\n\
         \n\
         a longer name  remains 9%  [-#########]\n"
    );
}
