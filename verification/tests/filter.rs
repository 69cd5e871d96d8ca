use chrono::{TimeZone, Utc};
use ullage::provider::ProviderId;
use ullage::summary::filter::{
    filter_usage_measurements, summarize_filtered, summarize_under, MetricFilter,
    MetricFilterError, MetricFilterMode, MAX_METRIC_NAMES, MAX_METRIC_NAME_CHARACTERS,
};
use ullage::summary::{
    is_hidden_measurement, metric_display_name, summarize, SummaryValue, UsageSummary,
};
use ullage::usage::{
    Amount, MeasurementUnit, SubscriptionUsage, Timestamp, UsageMeasurement, UsageWindow,
    UsageWindowKind,
};

fn at(year: i32, month: u32, day: u32, hour: u32, minute: u32, second: u32) -> Timestamp {
    let time = Utc
        .with_ymd_and_hms(year, month, day, hour, minute, second)
        .unwrap();
    Timestamp {
        seconds: time.timestamp(),
        nanos: time.timestamp_subsec_nanos(),
    }
}

fn amount(value: f64) -> Amount {
    Amount {
        bits: value.to_bits(),
    }
}

fn usage(windows: Vec<UsageWindow>) -> SubscriptionUsage {
    SubscriptionUsage {
        provider: ProviderId::new("test"),
        account_label: None,
        plan: Some("pro".into()),
        subscription_expires_at: None,
        observed_at: at(2026, 8, 29, 12, 0, 0),
        windows,
    }
}

fn percent(name: &str, used: f64) -> UsageMeasurement {
    UsageMeasurement {
        name: name.into(),
        used: amount(used),
        limit: Some(amount(100.0)),
        unit: MeasurementUnit::Percent,
    }
}

fn boolean(name: &str, value: bool) -> UsageMeasurement {
    UsageMeasurement {
        name: name.into(),
        used: amount(f64::from(u8::from(value))),
        limit: Some(amount(1.0)),
        unit: MeasurementUnit::Other {
            id: "boolean".into(),
            label: "Boolean".into(),
        },
    }
}

fn money(name: &str, used: f64, limit: Option<f64>) -> UsageMeasurement {
    UsageMeasurement {
        name: name.into(),
        used: amount(used),
        limit: limit.map(amount),
        unit: MeasurementUnit::Currency { code: "USD".into() },
    }
}

fn window(kind: UsageWindowKind, measurements: Vec<UsageMeasurement>) -> UsageWindow {
    UsageWindow {
        window: kind,
        resets_at: None,
        measurements,
    }
}

fn metric_filter(names: &[&str]) -> MetricFilter {
    MetricFilter::new(names.iter().map(|name| (*name).to_owned()).collect()).unwrap()
}

/// A usage sample with hidden booleans and every kind of synthetic row.
fn synthetic_usage() -> SubscriptionUsage {
    usage(vec![
        window(
            UsageWindowKind::FiveHours,
            vec![
                percent("included_usage", 100.0),
                boolean("allowed", false),
                boolean("limit_reached", true),
            ],
        ),
        window(
            UsageWindowKind::Other {
                id: "credits".into(),
                label: "Credits".into(),
            },
            vec![
                UsageMeasurement {
                    name: "credit_balance".into(),
                    used: amount(4.0),
                    limit: None,
                    unit: MeasurementUnit::Credits,
                },
                boolean("unlimited", true),
                boolean("has_credits", true),
            ],
        ),
        window(
            UsageWindowKind::Monthly,
            vec![
                money("total_spend", 3.0, Some(20.0)),
                money("on_demand_spend", 0.0, Some(50.0)),
                boolean("on_demand_enabled", false),
            ],
        ),
        window(
            UsageWindowKind::Other {
                id: "extra".into(),
                label: "Extra".into(),
            },
            vec![boolean("on_demand_enabled", false)],
        ),
        window(
            UsageWindowKind::Other {
                id: "switched_off".into(),
                label: "Switched off".into(),
            },
            vec![boolean("enabled", false)],
        ),
        window(
            UsageWindowKind::Other {
                id: "prepaid".into(),
                label: "Prepaid".into(),
            },
            vec![boolean("unlimited", true), boolean("has_credits", true)],
        ),
        window(
            UsageWindowKind::Other {
                id: "spent_off".into(),
                label: "Spent off".into(),
            },
            vec![boolean("enabled", false), money("spent", 1.0, Some(10.0))],
        ),
    ])
}

fn row_metrics(summary: &UsageSummary) -> Vec<&str> {
    summary.rows.iter().map(|row| row.metric.as_str()).collect()
}

#[test]
fn metric_filter_trims_deduplicates_and_matches_case_insensitively() {
    let filter =
        MetricFilter::new(vec![" Usage ".into(), "usage".into(), "CODEX".into()]).unwrap();

    assert_eq!(filter.names(), ["Usage".to_owned(), "CODEX".to_owned()]);
    assert!(filter.is_active());
    assert!(filter.matches("usage"));
    assert!(filter.matches(" Codex "));
    assert!(!filter.matches("total spend"));

    let inactive = MetricFilter::new(Vec::new()).unwrap();
    assert!(!inactive.is_active());
    assert!(!inactive.matches("usage"));
}

#[test]
fn metric_filter_rejects_empty_long_oversized_and_unsafe_names() {
    assert_eq!(
        MetricFilter::new(vec!["  ".into()]),
        Err(MetricFilterError::EmptyName)
    );
    assert_eq!(
        MetricFilter::new(vec![format!("x{}", "y".repeat(MAX_METRIC_NAME_CHARACTERS))]),
        Err(MetricFilterError::NameTooLong)
    );
    let too_many: Vec<String> = (0..=MAX_METRIC_NAMES).map(|i| format!("m{i}")).collect();
    assert_eq!(
        MetricFilter::new(too_many),
        Err(MetricFilterError::TooManyNames)
    );
    for unsafe_name in [
        "bad\u{7}",
        "bad\u{202e}name",
        "bad\u{200e}name",
        "bad\u{2066}name",
    ] {
        assert_eq!(
            MetricFilter::new(vec![unsafe_name.into()]),
            Err(MetricFilterError::UnsafeCharacter),
            "{unsafe_name:?}"
        );
    }
    assert_eq!(
        MetricFilter::new(vec!["x".repeat(MAX_METRIC_NAME_CHARACTERS)])
            .unwrap()
            .names(),
        ["x".repeat(MAX_METRIC_NAME_CHARACTERS)]
    );
}

#[test]
fn summarize_filtered_keeps_matching_rows_and_synthetic_rows() {
    let source = synthetic_usage();
    let full = summarize(&source);
    assert!(full.limit_reached);
    assert_eq!(
        row_metrics(&full),
        [
            "usage",
            "credit balance",
            "total spend",
            "on demand spend",
            "on demand",
            "status",
            "credits",
            "spent",
        ]
    );

    let cases: [(&[&str], &[&str]); 8] = [
        (
            &[],
            &[
                "usage",
                "credit balance",
                "total spend",
                "on demand spend",
                "on demand",
                "status",
                "credits",
                "spent",
            ],
        ),
        (&["usage"], &["usage"]),
        (&["credits"], &["credits"]),
        (&["credit balance"], &["credit balance"]),
        (&["status"], &["status"]),
        (&["on demand"], &["on demand"]),
        (&["on demand spend"], &["on demand spend"]),
        (&["allowed"], &[]),
    ];
    for (names, expected) in cases {
        let summary = summarize_filtered(&source, &metric_filter(names));
        assert_eq!(row_metrics(&summary), expected, "filter {names:?}");
        assert_eq!(summary.limit_reached, full.limit_reached, "{names:?}");
        assert_eq!(summary.observed_at, full.observed_at);
        assert_eq!(summary.expires_at, full.expires_at);
    }

    // A switched-off window whose only visible row does not match leaves no
    // synthetic `status` row behind: the full summary never had one.
    let spent_off = summarize_filtered(&source, &metric_filter(&["status"]));
    assert_eq!(row_metrics(&spent_off), ["status"]);
    let switched = summarize_filtered(&source, &metric_filter(&["spent"]));
    assert_eq!(row_metrics(&switched), ["spent"]);
    assert!(switched.rows[0].disabled);
    let disabled_on_demand = summarize_filtered(&source, &metric_filter(&["on demand spend"]));
    assert!(disabled_on_demand.rows[0].disabled);
    let unlimited_balance = summarize_filtered(&source, &metric_filter(&["credit balance"]));
    assert_eq!(
        unlimited_balance.rows[0].value,
        SummaryValue::CreditsUnlimited
    );
}

#[test]
fn filtered_measurements_reproduce_the_filtered_rows() {
    let source = synthetic_usage();
    let filters: [&[&str]; 9] = [
        &[],
        &["usage"],
        &["credits"],
        &["credit balance"],
        &["status"],
        &["on demand"],
        &["on demand spend"],
        &["total spend"],
        &["allowed"],
    ];
    for names in filters {
        let filter = metric_filter(names);
        let expected = summarize_filtered(&source, &filter);
        let filtered = filter_usage_measurements(&source, &filter);
        let actual = summarize(&filtered);
        assert_eq!(actual.rows, expected.rows, "filter {names:?}");
        assert_eq!(actual.limit_reached, expected.limit_reached, "{names:?}");
        assert_eq!(actual.observed_at, expected.observed_at);
        assert_eq!(actual.expires_at, expected.expires_at);
    }
}

#[test]
fn inactive_filter_returns_the_input_and_a_reached_limit_survives() {
    let source = synthetic_usage();
    let inactive = MetricFilter::new(Vec::new()).unwrap();
    assert_eq!(filter_usage_measurements(&source, &inactive), source);
    assert_eq!(summarize_filtered(&source, &inactive), summarize(&source));

    let allowed_only = filter_usage_measurements(&source, &metric_filter(&["usage"]));
    let summary = summarize(&allowed_only);
    assert!(summary.limit_reached);
    assert_eq!(row_metrics(&summary), ["usage"]);
}

#[test]
fn hidden_bookkeeping_names_are_publicly_recognized() {
    assert!(is_hidden_measurement("allowed"));
    assert!(is_hidden_measurement("limit_reached"));
    assert!(is_hidden_measurement("has_credits"));
    assert!(!is_hidden_measurement("included_usage"));
    assert_eq!(metric_display_name("codex_usage"), "Codex");
    assert_eq!(metric_display_name("included_usage"), "usage");
}

#[test]
fn every_row_is_kept_or_hidden() {
    let source = usage(vec![UsageWindow {
        window: UsageWindowKind::Weekly,
        resets_at: None,
        measurements: vec![percent("used", 10.0), percent("codex", 20.0)],
    }]);
    let all = summarize(&source).rows;
    let named = MetricFilter::new(vec![all[0].metric.clone()]).unwrap();
    let kept = summarize_under(&source, &named, MetricFilterMode::Keep).rows;
    let hidden = summarize_under(&source, &named, MetricFilterMode::Hide).rows;
    assert_eq!(kept.len() + hidden.len(), all.len());
    assert_eq!(kept[0], all[0]);
    assert_eq!(hidden[0], all[1]);
}

#[test]
fn a_filtered_window_keeps_what_its_rows_stand_on() {
    let on_demand = |name: &str| percent(name, 40.0);
    let cases: [(Vec<UsageMeasurement>, &str); 7] = [
        (
            vec![
                boolean("enabled", false),
                money("spent", 1.0, Some(10.0)),
                boolean("on_demand_enabled", false),
            ],
            "on demand",
        ),
        (
            vec![on_demand("on_demandx"), boolean("on_demand_enabled", false)],
            "on demandx",
        ),
        (
            vec![on_demand("on_demandx"), boolean("on_demand_enabled", false)],
            "on demand",
        ),
        (
            vec![
                on_demand("product:on_demand_x"),
                boolean("on_demand_enabled", false),
            ],
            "on demand",
        ),
        (
            vec![
                on_demand("product:on_demand_x"),
                boolean("on_demand_enabled", false),
            ],
            "on demand x",
        ),
        (
            vec![
                boolean("enabled", false),
                on_demand("on_demand_spend"),
                percent("used", 3.0),
            ],
            "on demand spend",
        ),
        (
            vec![boolean("unlimited", true), percent("used", 3.0)],
            "status",
        ),
    ];
    for (measurements, name) in cases {
        let source = usage(vec![window(UsageWindowKind::Monthly, measurements)]);
        let filter = metric_filter(&[name]);
        let expected = summarize_filtered(&source, &filter);
        let actual = summarize(&filter_usage_measurements(&source, &filter));
        assert_eq!(actual.rows, expected.rows, "{source:?} under {name}");
        assert_eq!(actual.limit_reached, expected.limit_reached, "{name}");
    }

    let source = usage(vec![window(
        UsageWindowKind::Monthly,
        vec![
            boolean("enabled", false),
            money("spent", 1.0, Some(10.0)),
            boolean("on_demand_enabled", false),
        ],
    )]);
    let filtered = filter_usage_measurements(&source, &metric_filter(&["on demand"]));
    assert_eq!(row_metrics(&summarize(&filtered)), ["on demand"]);
}
