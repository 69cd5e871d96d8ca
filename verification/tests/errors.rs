use ullage::cli::OutputFormat;
use ullage::errors::{error_output, ClientError, ExitCode};
use ullage::redact::sanitize_cli_text;

#[test]
fn account_selector_not_found_includes_hint() {
    let output = error_output(
        ExitCode::Failure,
        "account_selector_not_found",
        OutputFormat::Table,
    );
    assert!(output.stderr.contains("account_selector_not_found"));
    assert!(output.stderr.contains("hint: pass a stable account id"));
}

#[test]
fn sanitize_cli_text_strips_controls_and_ansi() {
    let sanitized = sanitize_cli_text("bad\u{1b}[31mvalue\u{009b}text");
    assert_eq!(sanitized, "badvaluetext");
}

#[test]
fn sanitize_cli_text_ends_csi_on_any_final_byte() {
    for (input, expected) in [
        // SGR, erase-line, and private cursor sequences each end at their
        // own final byte and must not swallow the text behind them.
        ("bad\u{1b}[31mvalue", "badvalue"),
        ("\u{1b}[2Kprompt", "prompt"),
        ("show\u{1b}[?25l me", "show me"),
        ("\u{1b}[1;2Hhere", "here"),
        ("a\u{1b}[0Kb", "ab"),
    ] {
        assert_eq!(sanitize_cli_text(input), expected, "{input:?}");
    }
}

#[test]
fn sanitize_cli_text_strips_osc_through_bel_or_st() {
    for (input, expected) in [
        // BEL-terminated OSC: the whole payload, not just the ESC, goes.
        ("pre\u{1b}]8;;https://evil.invalid\u{7}post", "prepost"),
        ("pre\u{1b}]0;window title\u{7}post", "prepost"),
        // ST-terminated OSC (ESC \ and C1 ST spellings).
        ("pre\u{1b}]8;;x\u{1b}\\post", "prepost"),
        ("pre\u{1b}]8;;x\u{9c}post", "prepost"),
        // DCS and APC use the same string terminators as OSC.
        ("pre\u{1b}Ppayload\u{1b}\\post", "prepost"),
        ("pre\u{1b}_payload\u{7}post", "prepost"),
    ] {
        assert_eq!(sanitize_cli_text(input), expected, "{input:?}");
    }
}

#[test]
fn sanitize_cli_text_drops_truncated_sequences() {
    for (input, expected) in [
        ("visible\u{1b}[31", "visible"),
        ("visible\u{1b}]8;;never-terminated", "visible"),
        ("visible\u{1b}", "visible"),
        ("kept\u{1b}[malso kept", "keptalso kept"),
    ] {
        assert_eq!(sanitize_cli_text(input), expected, "{input:?}");
    }
}

#[test]
fn client_failures_are_described() {
    let described = [
        (ClientError::DaemonUnavailable, "daemon unavailable"),
        (ClientError::InvalidResponse, "daemon response was invalid"),
        (ClientError::InvalidEndpoint, "control endpoint is invalid"),
        (ClientError::DaemonProcess, "daemon process failed"),
        (
            ClientError::DaemonProcessOutput("exit status 3".into()),
            "daemon process failed: exit status 3",
        ),
        (ClientError::DaemonStillRunning, "daemon is still running"),
    ];
    for (error, text) in described {
        assert_eq!(error.message(), text);
    }
}
