use chrono::{TimeZone, Utc};
use ullage::provider::ProviderId;
use ullage::summary::{summarize, Currency, RemainingRatio, SummaryRow, SummaryValue};
use ullage::usage::{
    Amount, MeasurementUnit, SubscriptionUsage, Timestamp, UsageMeasurement, UsageWindow,
    UsageWindowKind,
};

fn at(year: i32, month: u32, day: u32, hour: u32, minute: u32, second: u32) -> Timestamp {
    let time = Utc
        .with_ymd_and_hms(year, month, day, hour, minute, second)
        .unwrap();
    Timestamp {
        seconds: time.timestamp(),
        nanos: time.timestamp_subsec_nanos(),
    }
}

fn amount(value: f64) -> Amount {
    Amount {
        bits: value.to_bits(),
    }
}

fn number(amount: &Amount) -> f64 {
    f64::from_bits(amount.bits)
}

fn remains(value: &SummaryValue) -> Option<f64> {
    match value {
        SummaryValue::Remains { used } => Some((100.0 - number(used)).clamp(0.0, 100.0)),
        _ => None,
    }
}

fn consumed(value: &SummaryValue) -> Option<f64> {
    match value {
        SummaryValue::Used { used } => Some(number(used).max(0.0)),
        _ => None,
    }
}

fn ratio(row: &SummaryRow) -> Option<f64> {
    match &row.remaining_ratio {
        Some(RemainingRatio::OfHundred { used }) => {
            Some((100.0 - number(used)).clamp(0.0, 100.0) / 100.0)
        }
        Some(RemainingRatio::OfLimit { used, limit }) => {
            Some(((number(limit) - number(used)) / number(limit)).clamp(0.0, 1.0))
        }
        None => None,
    }
}

fn usage(windows: Vec<UsageWindow>) -> SubscriptionUsage {
    SubscriptionUsage {
        provider: ProviderId::new("test"),
        account_label: None,
        plan: Some("pro".into()),
        subscription_expires_at: None,
        observed_at: at(2026, 8, 29, 12, 0, 0),
        windows,
    }
}

fn percent(name: &str, used: f64) -> UsageMeasurement {
    UsageMeasurement {
        name: name.into(),
        used: amount(used),
        limit: Some(amount(100.0)),
        unit: MeasurementUnit::Percent,
    }
}

fn boolean(name: &str, value: bool) -> UsageMeasurement {
    UsageMeasurement {
        name: name.into(),
        used: amount(f64::from(u8::from(value))),
        limit: Some(amount(1.0)),
        unit: MeasurementUnit::Other {
            id: "boolean".into(),
            label: "Boolean".into(),
        },
    }
}

fn money(name: &str, used: f64, limit: Option<f64>) -> UsageMeasurement {
    UsageMeasurement {
        name: name.into(),
        used: amount(used),
        limit: limit.map(amount),
        unit: MeasurementUnit::Currency { code: "USD".into() },
    }
}

fn window(kind: UsageWindowKind, measurements: Vec<UsageMeasurement>) -> UsageWindow {
    UsageWindow {
        window: kind,
        resets_at: None,
        measurements,
    }
}

#[test]
fn claude_percent_windows_report_remaining_quota() {
    let summary = summarize(&usage(vec![
        window(
            UsageWindowKind::FiveHours,
            vec![percent("included_usage", 3.0)],
        ),
        window(
            UsageWindowKind::Other {
                id: "seven_day_opus".into(),
                label: "Weekly Opus".into(),
            },
            vec![percent("included_usage", 11.0)],
        ),
    ]));

    assert_eq!(summary.rows.len(), 2);
    assert_eq!(summary.rows[0].window, "5h");
    assert_eq!(summary.rows[0].metric, "usage");
    assert_eq!(remains(&summary.rows[0].value), Some(97.0));
    assert_eq!(ratio(&summary.rows[0]), Some(0.97));
    assert_eq!(summary.rows[1].window, "Weekly Opus");
    assert_eq!(remains(&summary.rows[1].value), Some(89.0));
    assert!(!summary.limit_reached);
}

#[test]
fn chatgpt_status_booleans_are_hidden_but_a_reached_limit_still_shows() {
    let summary = summarize(&usage(vec![window(
        UsageWindowKind::FiveHours,
        vec![
            percent("codex_usage", 80.0),
            boolean("allowed", true),
            boolean("limit_reached", true),
        ],
    )]));

    assert_eq!(summary.rows.len(), 1);
    assert_eq!(summary.rows[0].metric, "Codex");
    assert!(summary.limit_reached);
}

#[test]
fn chatgpt_normal_status_booleans_leave_no_trace() {
    let summary = summarize(&usage(vec![window(
        UsageWindowKind::FiveHours,
        vec![
            percent("code_review_usage", 10.0),
            boolean("allowed", true),
            boolean("limit_reached", false),
        ],
    )]));

    assert_eq!(summary.rows.len(), 1);
    assert!(!summary.limit_reached);
}

#[test]
fn chatgpt_denied_window_reports_a_reached_limit() {
    let summary = summarize(&usage(vec![window(
        UsageWindowKind::Weekly,
        vec![percent("codex_usage", 100.0), boolean("allowed", false)],
    )]));

    assert!(summary.limit_reached);
    assert_eq!(remains(&summary.rows[0].value), Some(0.0));
    assert_eq!(ratio(&summary.rows[0]), Some(0.0));
}

#[test]
fn chatgpt_credits_report_a_countable_balance() {
    let summary = summarize(&usage(vec![window(
        UsageWindowKind::Other {
            id: "credits".into(),
            label: "Credits".into(),
        },
        vec![
            UsageMeasurement {
                name: "credit_balance".into(),
                used: amount(4.0),
                limit: None,
                unit: MeasurementUnit::Credits,
            },
            boolean("has_credits", true),
            boolean("unlimited", false),
        ],
    )]));

    assert_eq!(summary.rows.len(), 1);
    assert_eq!(summary.rows[0].window, "Credits");
    assert_eq!(summary.rows[0].metric, "credit balance");
    assert_eq!(
        summary.rows[0].value,
        SummaryValue::Credits {
            used: amount(4.0),
            limit: None,
        }
    );
    assert_eq!(ratio(&summary.rows[0]), None);
}

#[test]
fn spent_amounts_do_not_report_remaining_ratio() {
    let summary = summarize(&usage(vec![window(
        UsageWindowKind::Monthly,
        vec![money("total_spend", 925.11, Some(400.0))],
    )]));

    assert_eq!(
        summary.rows[0].value,
        SummaryValue::Spent {
            amount: amount(925.11),
            limit: amount(400.0),
            currency: Currency { code: "USD".into() },
        }
    );
    assert_eq!(ratio(&summary.rows[0]), None);
}

#[test]
fn credits_with_a_positive_limit_report_remaining_ratio() {
    let summary = summarize(&usage(vec![window(
        UsageWindowKind::Monthly,
        vec![UsageMeasurement {
            name: "total".into(),
            used: amount(285.0),
            limit: Some(amount(1000.0)),
            unit: MeasurementUnit::Credits,
        }],
    )]));

    assert_eq!(
        summary.rows[0].value,
        SummaryValue::Credits {
            used: amount(285.0),
            limit: Some(amount(1000.0)),
        }
    );
    assert_eq!(ratio(&summary.rows[0]), Some(0.715));
}

#[test]
fn credits_with_a_zero_limit_do_not_compute_a_ratio() {
    let summary = summarize(&usage(vec![window(
        UsageWindowKind::Monthly,
        vec![UsageMeasurement {
            name: "total".into(),
            used: amount(10.0),
            limit: Some(amount(0.0)),
            unit: MeasurementUnit::Credits,
        }],
    )]));

    assert_eq!(
        summary.rows[0].value,
        SummaryValue::Credits {
            used: amount(10.0),
            limit: Some(amount(0.0)),
        }
    );
    assert_eq!(ratio(&summary.rows[0]), None);
}

#[test]
fn credits_without_a_limit_keep_a_bare_count() {
    let summary = summarize(&usage(vec![window(
        UsageWindowKind::Monthly,
        vec![UsageMeasurement {
            name: "total".into(),
            used: amount(285.0),
            limit: None,
            unit: MeasurementUnit::Credits,
        }],
    )]));

    assert_eq!(
        summary.rows[0].value,
        SummaryValue::Credits {
            used: amount(285.0),
            limit: None,
        }
    );
    assert_eq!(ratio(&summary.rows[0]), None);
}

#[test]
fn unlimited_credits_replace_the_balance_reading() {
    let summary = summarize(&usage(vec![window(
        UsageWindowKind::Other {
            id: "credits".into(),
            label: "Credits".into(),
        },
        vec![
            UsageMeasurement {
                name: "credit_balance".into(),
                used: amount(0.0),
                limit: None,
                unit: MeasurementUnit::Credits,
            },
            boolean("unlimited", true),
        ],
    )]));

    assert_eq!(summary.rows[0].value, SummaryValue::CreditsUnlimited);
}

#[test]
fn cursor_keeps_total_spend_and_drops_its_two_components() {
    let summary = summarize(&usage(vec![window(
        UsageWindowKind::Monthly,
        vec![
            money("total_spend", 3.0, Some(20.0)),
            money("included_spend", 2.0, Some(20.0)),
            money("bonus_spend", 1.0, None),
            percent("total", 15.0),
            money("on_demand_spend", 0.0, Some(50.0)),
            boolean("on_demand_enabled", false),
        ],
    )]));

    let metrics: Vec<&str> = summary.rows.iter().map(|row| row.metric.as_str()).collect();
    assert_eq!(
        metrics,
        vec!["total spend", "usage", "on demand spend"],
        "{summary:?}"
    );
    assert_eq!(
        summary.rows[0].value,
        SummaryValue::Spent {
            amount: amount(3.0),
            limit: amount(20.0),
            currency: Currency { code: "USD".into() },
        }
    );
    assert_eq!(ratio(&summary.rows[0]), None);
    assert!(!summary.rows[0].disabled);
    assert_eq!(ratio(&summary.rows[2]), None);
    assert!(summary.rows[2].disabled, "on-demand is switched off");
}

#[test]
fn cursor_components_stay_hidden_even_without_total_spend() {
    let summary = summarize(&usage(vec![window(
        UsageWindowKind::Monthly,
        vec![
            money("included_spend", 2.0, None),
            money("bonus_spend", 1.0, None),
        ],
    )]));

    assert!(summary.is_empty(), "{summary:?}");
}

#[test]
fn an_unlimited_flag_without_a_balance_still_shows_the_state() {
    let summary = summarize(&usage(vec![window(
        UsageWindowKind::Other {
            id: "credits".into(),
            label: "Credits".into(),
        },
        vec![boolean("has_credits", true), boolean("unlimited", true)],
    )]));

    assert_eq!(summary.rows.len(), 1);
    assert_eq!(summary.rows[0].window, "Credits");
    assert_eq!(summary.rows[0].metric, "credits");
    assert_eq!(summary.rows[0].value, SummaryValue::CreditsUnlimited);
}

#[test]
fn a_switched_off_window_without_amounts_still_shows_the_state() {
    for (flag, metric) in [("enabled", "status"), ("on_demand_enabled", "on demand")] {
        let summary = summarize(&usage(vec![window(
            UsageWindowKind::Other {
                id: "on_demand".into(),
                label: "On-demand usage".into(),
            },
            vec![boolean(flag, false)],
        )]));

        assert_eq!(summary.rows.len(), 1, "{flag}: {summary:?}");
        assert_eq!(summary.rows[0].metric, metric);
        assert_eq!(summary.rows[0].value, SummaryValue::Disabled);
    }
}

#[test]
fn a_disabled_on_demand_feature_is_reported_beside_the_windows_other_rows() {
    let summary = summarize(&usage(vec![window(
        UsageWindowKind::Monthly,
        vec![
            money("total_spend", 3.0, Some(20.0)),
            boolean("on_demand_enabled", false),
        ],
    )]));

    assert_eq!(summary.rows.len(), 2, "{summary:?}");
    assert_eq!(summary.rows[0].metric, "total spend");
    assert!(!summary.rows[0].disabled, "only on-demand is switched off");
    assert_eq!(summary.rows[1].metric, "on demand");
    assert_eq!(summary.rows[1].value, SummaryValue::Disabled);
}

#[test]
fn a_switched_off_window_marks_its_synthetic_unlimited_row() {
    let summary = summarize(&usage(vec![window(
        UsageWindowKind::Other {
            id: "credits".into(),
            label: "Credits".into(),
        },
        vec![boolean("unlimited", true), boolean("enabled", false)],
    )]));

    assert_eq!(summary.rows.len(), 1, "{summary:?}");
    assert_eq!(summary.rows[0].value, SummaryValue::CreditsUnlimited);
    assert!(
        summary.rows[0].disabled,
        "a switched-off window must not read as merely unmetered: {summary:?}"
    );
}

#[test]
fn a_switched_off_window_with_amounts_marks_them_instead_of_adding_a_row() {
    let summary = summarize(&usage(vec![window(
        UsageWindowKind::Other {
            id: "on_demand".into(),
            label: "On-demand usage".into(),
        },
        vec![boolean("enabled", false), money("spent", 1.0, Some(10.0))],
    )]));

    assert_eq!(summary.rows.len(), 1, "{summary:?}");
    assert!(summary.rows[0].disabled);
}

#[test]
fn grok_products_and_prepaid_balance_map_to_readable_names() {
    let resets_at = at(2026, 9, 3, 12, 0, 0);
    let summary = summarize(&usage(vec![
        UsageWindow {
            window: UsageWindowKind::Weekly,
            resets_at: Some(resets_at),
            measurements: vec![percent("weekly_pool", 40.0), percent("product:grok-4", 5.0)],
        },
        window(
            UsageWindowKind::Other {
                id: "prepaid".into(),
                label: "Extra Usage Credits".into(),
            },
            vec![money("remaining", 12.34, None)],
        ),
        window(
            UsageWindowKind::Other {
                id: "on_demand".into(),
                label: "On-demand usage".into(),
            },
            vec![boolean("enabled", false), money("spent", 1.0, Some(10.0))],
        ),
    ]));

    assert_eq!(summary.rows[0].metric, "usage");
    assert_eq!(summary.rows[0].resets_at, Some(resets_at));
    assert_eq!(summary.rows[1].metric, "grok-4");
    assert_eq!(summary.rows[2].window, "Extra Usage Credits");
    assert_eq!(summary.rows[2].metric, "remaining");
    assert_eq!(
        summary.rows[2].value,
        SummaryValue::Balance {
            amount: amount(12.34),
            currency: Currency { code: "USD".into() },
        }
    );
    assert_eq!(summary.rows[2].resets_at, None);
    assert_eq!(summary.rows[3].window, "On-demand usage");
    assert!(summary.rows[3].disabled, "the whole window is switched off");
}

#[test]
fn a_percent_without_a_full_scale_limit_reports_consumption() {
    let summary = summarize(&usage(vec![window(
        UsageWindowKind::Weekly,
        vec![UsageMeasurement {
            name: "included_usage".into(),
            used: amount(30.0),
            limit: None,
            unit: MeasurementUnit::Percent,
        }],
    )]));

    assert_eq!(consumed(&summary.rows[0].value), Some(30.0));
    assert_eq!(ratio(&summary.rows[0]), None);
}

#[test]
fn an_other_window_without_a_label_falls_back_to_its_id() {
    let summary = summarize(&usage(vec![window(
        UsageWindowKind::Other {
            id: "custom_quota".into(),
            label: "   ".into(),
        },
        vec![UsageMeasurement {
            name: "available_count".into(),
            used: amount(1.0),
            limit: None,
            unit: MeasurementUnit::Credits,
        }],
    )]));

    assert_eq!(summary.rows[0].window, "custom_quota");
    assert_eq!(
        summary.rows[0].value,
        SummaryValue::Credits {
            used: amount(1.0),
            limit: None,
        }
    );
}

#[test]
fn reset_credits_windows_use_a_short_table_name() {
    let summary = summarize(&usage(vec![window(
        UsageWindowKind::Other {
            id: "rate_limit_reset_credits".into(),
            label: "Rate limit reset credits".into(),
        },
        vec![UsageMeasurement {
            name: "available_count".into(),
            used: amount(1.0),
            limit: None,
            unit: MeasurementUnit::Credits,
        }],
    )]));

    assert_eq!(summary.rows[0].window, "Resets");
    assert_eq!(summary.rows[0].metric, "available count");
}

#[test]
fn fable_windows_use_a_short_table_name() {
    let summary = summarize(&usage(vec![window(
        UsageWindowKind::Other {
            id: "model_weekly_scoped_weekly_fable".into(),
            label: "Fable (weekly_scoped)".into(),
        },
        vec![percent("included_usage", 89.0)],
    )]));

    assert_eq!(summary.rows[0].window, "fable");
    assert_eq!(summary.rows[0].metric, "usage");
}

#[test]
fn chatgpt_spark_usage_shortens_to_the_model_version() {
    let summary = summarize(&usage(vec![window(
        UsageWindowKind::Weekly,
        vec![percent("GPT-5.3-Codex-Spark_usage", 42.0)],
    )]));

    assert_eq!(summary.rows[0].metric, "GPT-5.3");
}

#[test]
fn a_window_of_only_hidden_booleans_produces_no_rows() {
    let summary = summarize(&usage(vec![window(
        UsageWindowKind::Other {
            id: "codex_status".into(),
            label: "codex status".into(),
        },
        vec![boolean("allowed", true), boolean("limit_reached", false)],
    )]));

    assert!(summary.is_empty());
}

#[test]
fn summary_carries_the_timestamps_the_header_lines_need() {
    let expires_at = at(2026, 12, 1, 0, 0, 0);
    let mut source = usage(vec![window(
        UsageWindowKind::Weekly,
        vec![percent("included_usage", 1.0)],
    )]);
    source.subscription_expires_at = Some(expires_at);

    let summary = summarize(&source);
    assert_eq!(summary.expires_at, Some(expires_at));
    assert_eq!(summary.observed_at, source.observed_at);
}

#[test]
fn switched_off_on_demand_usage_shows_on_a_row_of_its_own_kind() {
    for name in ["on_demand_spend", "on_demandx", "on_demand_usage", "on_demand-Codex-Spark"] {
        let summary = summarize(&usage(vec![window(
            UsageWindowKind::Monthly,
            vec![
                money("total_spend", 3.0, Some(20.0)),
                money(name, 0.0, Some(50.0)),
                boolean("enabled", false),
                boolean("on_demand_enabled", false),
            ],
        )]));
        assert!(
            summary
                .rows
                .iter()
                .any(|row| row.disabled && row.metric.starts_with("on demand")),
            "{name}: {summary:?}"
        );
    }
}
