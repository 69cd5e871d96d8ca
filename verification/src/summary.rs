//! Derives the readable usage summary shown by default in table output.
//!
//! This layer is a pure projection of [`SubscriptionUsage`]: it decides which
//! measurements a human wants to see, how to name them, and what each value
//! means. It never formats, pads, or colors anything. Provider-supplied strings
//! are carried through verbatim; sanitizing happens in the render layer.

use vstd::prelude::*;
use vstd::string::StrSliceExecFns;

use crate::text;
use crate::usage::{
    Amount, MeasurementUnit, SubscriptionUsage, Timestamp, UsageMeasurement, UsageWindow,
    UsageWindowKind,
};

pub mod filter;
pub mod laws;

verus! {

/// How a single summary row reports its number.
#[derive(Debug, PartialEq)]
#[allow(inconsistent_fields)]
pub enum SummaryValue {
    /// What is left of a hundred percent after `used`, never below zero or above a hundred.
    Remains { used: Amount },
    /// Percent consumed, never below zero, when the provider gave no percentage limit.
    Used { used: Amount },
    /// Money on hand, with no spending limit to compare against.
    Balance { amount: Amount, currency: Currency },
    /// Money spent against a known limit.
    Spent { amount: Amount, limit: Amount, currency: Currency },
    /// A countable credit balance, optionally against a known limit.
    Credits { used: Amount, limit: Option<Amount> },
    /// Credits the provider reported as unmetered.
    CreditsUnlimited,
    /// A plain count in a unit with no agreed remaining-quota reading.
    Counted { used: Amount, limit: Option<Amount> },
    /// A feature the provider reported as switched off, with no amount of its
    /// own for the `(off)` marker to sit on.
    Disabled,
}

/// Currency of a monetary measurement, as reported by the provider.
#[derive(Debug, PartialEq, Eq)]
pub struct Currency {
    pub code: String,
}

/// The share of a quota that is still available, between none and all of it.
#[derive(Clone, Copy, Debug, PartialEq, Eq, Structural)]
pub enum RemainingRatio {
    /// What is left of a hundred after `used`.
    OfHundred { used: Amount },
    /// What is left of `limit` after `used`.
    OfLimit { used: Amount, limit: Amount },
}

/// One line of the summary view.
#[derive(Debug, PartialEq)]
pub struct SummaryRow {
    /// Human name of the window, e.g. `5h` or `Extra Usage Credits`.
    pub window: String,
    /// Human name of the measurement, e.g. `usage` or `Codex`.
    pub metric: String,
    pub value: SummaryValue,
    pub resets_at: Option<Timestamp>,
    /// The quota still available, when the value is remaining quota. Money
    /// spent is an amount, so it stays `None`.
    pub remaining_ratio: Option<RemainingRatio>,
    /// The provider reported this row's feature as switched off.
    pub disabled: bool,
}

/// A summary row with its texts as character sequences.
pub struct RowView {
    pub window: Seq<char>,
    pub metric: Seq<char>,
    pub value: SummaryValue,
    pub resets_at: Option<Timestamp>,
    pub remaining_ratio: Option<RemainingRatio>,
    pub disabled: bool,
}

impl View for SummaryRow {
    type V = RowView;

    open spec fn view(&self) -> RowView {
        RowView {
            window: self.window@,
            metric: self.metric@,
            value: self.value,
            resets_at: self.resets_at,
            remaining_ratio: self.remaining_ratio,
            disabled: self.disabled,
        }
    }
}

/// The rows, each with its texts as character sequences.
pub open spec fn row_views(rows: Seq<SummaryRow>) -> Seq<RowView> {
    rows.map_values(|row: SummaryRow| row@)
}

/// The whole summary for one `SubscriptionUsage`.
#[derive(Debug, PartialEq)]
pub struct UsageSummary {
    pub rows: Vec<SummaryRow>,
    /// A window reported `allowed = 0` or `limit_reached = 1`.
    pub limit_reached: bool,
    pub observed_at: Timestamp,
    pub expires_at: Option<Timestamp>,
}

impl UsageSummary {
    /// No row survived the mapping, so the caller should fall back to raw output.
    pub fn is_empty(&self) -> (result: bool)
        ensures
            result == (self.rows@.len() == 0),
    {
        self.rows.is_empty()
    }
}

/// Measurements that carry provider bookkeeping rather than remaining quota.
///
/// The first six are status booleans: a hidden boolean never hides the state it
/// reports, because every abnormal value re-appears as
/// [`UsageSummary::limit_reached`], a [`SummaryValue::CreditsUnlimited`] row, or
/// the `(off)` marker and its [`SummaryValue::Disabled`] stand-in. The last two
/// are component spends, a second breakdown of money `total_spend` already
/// reports.
pub open spec fn hidden(name: Seq<char>) -> bool {
    ||| name == "allowed"@
    ||| name == "limit_reached"@
    ||| name == "has_credits"@
    ||| name == "unlimited"@
    ||| name == "on_demand_enabled"@
    ||| name == "enabled"@
    ||| name == "included_spend"@
    ||| name == "bonus_spend"@
}

/// Whether a provider measurement is bookkeeping hidden from the summary view.
pub fn is_hidden_measurement(name: &str) -> (result: bool)
    ensures
        result == hidden(name@),
{
    text::same_text(name, "allowed") || text::same_text(name, "limit_reached") || text::same_text(
        name,
        "has_credits",
    ) || text::same_text(name, "unlimited") || text::same_text(name, "on_demand_enabled")
        || text::same_text(name, "enabled") || text::same_text(name, "included_spend")
        || text::same_text(name, "bonus_spend")
}

/// Measurement names that mean "the window's own quota" for their provider.
pub open spec fn pool(name: Seq<char>) -> bool {
    name == "included_usage"@ || name == "total"@ || name == "weekly_pool"@
}

/// A measurement name without the parts that say nothing to a person.
pub open spec fn bare_name(name: Seq<char>) -> Seq<char> {
    text::without_suffix(
        text::without_suffix(text::without_prefix(name, "product:"@), "_usage"@),
        "-Codex-Spark"@,
    )
}

/// The human name of a provider measurement.
pub open spec fn display_name(name: Seq<char>) -> Seq<char> {
    if pool(name) || bare_name(name).len() == 0 {
        "usage"@
    } else if bare_name(name) == "codex"@ {
        "Codex"@
    } else {
        text::replaced(bare_name(name), '_', ' ')
    }
}

/// The human name of a provider measurement, e.g. `codex_usage` -> `Codex`.
pub fn metric_display_name(name: &str) -> (result: String)
    ensures
        result@ == display_name(name@),
{
    if text::same_text(name, "included_usage") || text::same_text(name, "total") || text::same_text(
        name,
        "weekly_pool",
    ) {
        return "usage".to_owned();
    }
    let name = text::trim_prefix(name, "product:");
    let name = text::trim_suffix(name, "_usage");
    let name = text::trim_suffix(name, "-Codex-Spark");
    if name.is_empty() {
        return "usage".to_owned();
    }
    if text::same_text(name, "codex") {
        return "Codex".to_owned();
    }
    text::replace_char(name, '_', ' ')
}

/// A maximal run of ASCII letters and digits, from `from` up to `to`.
pub open spec fn token_at(value: Seq<char>, from: int, to: int) -> bool {
    &&& 0 <= from <= to <= value.len()
    &&& forall|i: int| from <= i < to ==> text::ascii_alphanumeric(#[trigger] value[i])
    &&& from == 0 || !text::ascii_alphanumeric(value[from - 1])
    &&& to == value.len() || !text::ascii_alphanumeric(value[to])
}

/// The run of characters at the given place reads as the needle.
pub open spec fn token_matches(needle: Seq<char>, value: Seq<char>, from: int, to: int) -> bool {
    token_at(value, from, to) && text::equal_ignoring_case(value.subrange(from, to), needle)
}

/// One of the value's runs of ASCII letters and digits is the needle, in any case.
pub open spec fn has_token(needle: Seq<char>, value: Seq<char>) -> bool {
    exists|from: int, to: int| #[trigger] token_matches(needle, value, from, to)
}

/// Whether one of the value's runs of ASCII letters and digits is the needle,
/// in any case.
pub fn token_is(needle: &str, value: &str) -> (result: bool)
    ensures
        result == has_token(needle@, value@),
{
    let all: Vec<char> = text::characters(value);
    let mut start: usize = 0;
    let mut index: usize = 0;
    loop
        invariant
            all@ == value@,
            start <= index <= all@.len(),
            forall|i: int| start <= i < index ==> text::ascii_alphanumeric(#[trigger] all@[i]),
            start == 0 || !text::ascii_alphanumeric(all@[start - 1]),
            forall|from: int, to: int|
                to < index ==> !#[trigger] token_matches(needle@, value@, from, to),
        decreases all.len() - index,
    {
        if index == all.len() || !text::is_ascii_alphanumeric(all[index]) {
            assert(token_at(value@, start as int, index as int));
            if text::eq_ignore_ascii_case(value.substring_char(start, index), needle) {
                assert(token_matches(needle@, value@, start as int, index as int));
                return true;
            }
            assert forall|from: int, to: int| to == index implies !#[trigger] token_matches(
                needle@,
                value@,
                from,
                to,
            ) by {
                if token_at(value@, from, to) {
                    if from < start {
                        assert(text::ascii_alphanumeric(value@[start - 1]));
                    }
                    if from > start {
                        assert(text::ascii_alphanumeric(all@[from - 1]));
                    }
                    assert(from == start);
                }
            }
            if index == all.len() {
                return false;
            }
            start = index + 1;
        } else {
            assert forall|from: int, to: int| to == index implies !#[trigger] token_matches(
                needle@,
                value@,
                from,
                to,
            ) by {}
        }
        index = index + 1;
    }
}

/// A window label the views shorten, given the window's id and label.
pub open spec fn short_window_name(id: Seq<char>, label: Seq<char>) -> Option<Seq<char>> {
    if has_token("fable"@, id) || has_token("fable"@, label) {
        Some("fable"@)
    } else if id == "rate_limit_reset_credits"@ || text::equal_ignoring_case(
        label,
        "Rate limit reset credits"@,
    ) {
        Some("Resets"@)
    } else {
        None
    }
}

/// The short name of a window that has one.
pub fn other_window_display_name(id: &str, label: &str) -> (result: Option<&'static str>)
    ensures
        match result {
            Some(name) => short_window_name(id@, label@) == Some(name@),
            None => short_window_name(id@, label@) is None,
        },
{
    if token_is("fable", id) || token_is("fable", label) {
        return Some("fable");
    }
    if text::same_text(id, "rate_limit_reset_credits") || text::eq_ignore_ascii_case(
        label,
        "Rate limit reset credits",
    ) {
        return Some("Resets");
    }
    None
}

/// The human name of a window.
pub open spec fn window_name(window: UsageWindowKind) -> Seq<char> {
    match window {
        UsageWindowKind::FiveHours => "5h"@,
        UsageWindowKind::Weekly => "weekly"@,
        UsageWindowKind::Monthly => "monthly"@,
        UsageWindowKind::Other { id, label } => match short_window_name(id@, label@) {
            Some(short) => short,
            None => if text::trimmed(label@).len() == 0 {
                id@
            } else {
                label@
            },
        },
    }
}

/// The human name of a window, e.g. `5h` or the label the provider gave.
pub fn window_display_name(window: &UsageWindowKind) -> (result: String)
    ensures
        result@ == window_name(*window),
{
    match window {
        UsageWindowKind::FiveHours => "5h".to_owned(),
        UsageWindowKind::Weekly => "weekly".to_owned(),
        UsageWindowKind::Monthly => "monthly".to_owned(),
        UsageWindowKind::Other { id, label } => {
            if let Some(short) = other_window_display_name(id.as_str(), label.as_str()) {
                return short.to_owned();
            }
            if text::trim(label.as_str()).is_empty() {
                id.clone()
            } else {
                label.clone()
            }
        },
    }
}

/// What the first measurement of that name says, read as a boolean.
pub open spec fn flag(measurements: Seq<UsageMeasurement>, name: Seq<char>) -> Option<bool>
    decreases measurements.len(),
{
    if measurements.len() == 0 {
        None
    } else {
        match flag(measurements.drop_last(), name) {
            Some(value) => Some(value),
            None => if measurements.last().name@ == name {
                Some(!measurements.last().used.zero())
            } else {
                None
            },
        }
    }
}

/// What the window's first measurement of that name says, read as a boolean.
pub fn boolean_measurement(window: &UsageWindow, name: &str) -> (result: Option<bool>)
    ensures
        result == flag(window.measurements@, name@),
{
    let mut found: Option<bool> = None;
    let mut index: usize = 0;
    assert(window.measurements@.take(0) =~= Seq::empty());
    while index < window.measurements.len()
        invariant
            index <= window.measurements@.len(),
            found == flag(window.measurements@.take(index as int), name@),
        decreases window.measurements.len() - index,
    {
        assert(window.measurements@.take(index + 1).drop_last() == window.measurements@.take(
            index as int,
        ));
        if found.is_none() && text::same_text(window.measurements[index].name.as_str(), name) {
            found = Some(!window.measurements[index].used.is_zero());
        }
        index = index + 1;
    }
    assert(window.measurements@.take(index as int) == window.measurements@);
    found
}

/// How a measurement's number is to be read.
pub open spec fn value_of(measurement: UsageMeasurement, unlimited: bool) -> SummaryValue {
    match measurement.unit {
        MeasurementUnit::Percent => match measurement.limit {
            Some(limit) if limit.hundred() => SummaryValue::Remains { used: measurement.used },
            _ => SummaryValue::Used { used: measurement.used },
        },
        MeasurementUnit::Currency { code } => match measurement.limit {
            Some(limit) => SummaryValue::Spent {
                amount: measurement.used,
                limit,
                currency: Currency { code },
            },
            None => SummaryValue::Balance {
                amount: measurement.used,
                currency: Currency { code },
            },
        },
        MeasurementUnit::Credits => if unlimited {
            SummaryValue::CreditsUnlimited
        } else {
            SummaryValue::Credits { used: measurement.used, limit: measurement.limit }
        },
        _ => SummaryValue::Counted { used: measurement.used, limit: measurement.limit },
    }
}

/// How a measurement's number is to be read.
///
/// Requests, tokens, and provider-specific units have no agreed wording for
/// what is left, so the row reports the count itself. A provider-supplied
/// limit still gives an honest remaining ratio.
pub fn measurement_value(measurement: &UsageMeasurement, unlimited: bool) -> (result: SummaryValue)
    ensures
        result == value_of(*measurement, unlimited),
{
    match &measurement.unit {
        MeasurementUnit::Percent => {
            if let Some(limit) = measurement.limit {
                if limit.is_hundred() {
                    return SummaryValue::Remains { used: measurement.used };
                }
            }
            SummaryValue::Used { used: measurement.used }
        },
        MeasurementUnit::Currency { code } => {
            let currency = Currency { code: code.clone() };
            match measurement.limit {
                Some(limit) => SummaryValue::Spent { amount: measurement.used, limit, currency },
                None => SummaryValue::Balance { amount: measurement.used, currency },
            }
        },
        MeasurementUnit::Credits => if unlimited {
            SummaryValue::CreditsUnlimited
        } else {
            SummaryValue::Credits { used: measurement.used, limit: measurement.limit }
        },
        _ => SummaryValue::Counted { used: measurement.used, limit: measurement.limit },
    }
}

/// The share of quota left, when the value is remaining quota rather than an amount.
pub open spec fn ratio_of(value: SummaryValue) -> Option<RemainingRatio> {
    match value {
        SummaryValue::Remains { used } => Some(RemainingRatio::OfHundred { used }),
        SummaryValue::Credits { used, limit: Some(limit) } if limit.positive() => Some(
            RemainingRatio::OfLimit { used, limit },
        ),
        SummaryValue::Counted { used, limit: Some(limit) } if limit.positive() => Some(
            RemainingRatio::OfLimit { used, limit },
        ),
        _ => None,
    }
}

/// The share of quota left, when the value is remaining quota rather than an amount.
pub fn remaining_ratio(value: &SummaryValue) -> (result: Option<RemainingRatio>)
    ensures
        result == ratio_of(*value),
{
    match value {
        SummaryValue::Remains { used } => Some(RemainingRatio::OfHundred { used: *used }),
        SummaryValue::Credits { used, limit: Some(limit) }
        | SummaryValue::Counted { used, limit: Some(limit) } => if limit.is_positive() {
            Some(RemainingRatio::OfLimit { used: *used, limit: *limit })
        } else {
            None
        },
        _ => None,
    }
}

/// What the status measurements of a window say about its rows.
pub struct RowContext {
    /// Human name of the window.
    pub window: Seq<char>,
    pub resets_at: Option<Timestamp>,
    /// Credits are unmetered.
    pub unlimited: bool,
    /// The whole window is switched off.
    pub off: bool,
    /// On-demand usage is switched off.
    pub on_demand_off: bool,
}

/// What the status measurements among the given ones say.
pub open spec fn context_of(
    window: UsageWindowKind,
    resets_at: Option<Timestamp>,
    measurements: Seq<UsageMeasurement>,
) -> RowContext {
    RowContext {
        window: window_name(window),
        resets_at,
        unlimited: flag(measurements, "unlimited"@) == Some(true),
        off: flag(measurements, "enabled"@) == Some(false),
        on_demand_off: flag(measurements, "on_demand_enabled"@) == Some(false),
    }
}

/// A row of the window.
pub open spec fn row_in(
    context: RowContext,
    metric: Seq<char>,
    value: SummaryValue,
    disabled: bool,
) -> RowView {
    RowView {
        window: context.window,
        metric,
        value,
        resets_at: context.resets_at,
        remaining_ratio: ratio_of(value),
        disabled,
    }
}

/// The measurement belongs to on-demand usage.
pub open spec fn on_demand_named(measurement: UsageMeasurement) -> bool {
    text::has_prefix(measurement.name@, "on_demand"@)
}

/// The row that shows a measurement.
pub open spec fn row_of(context: RowContext, measurement: UsageMeasurement) -> RowView {
    row_in(
        context,
        display_name(measurement.name@),
        value_of(measurement, context.unlimited),
        context.off || (context.on_demand_off && on_demand_named(measurement)),
    )
}

/// One row for each measurement that is not hidden, in order.
pub open spec fn shown_rows(
    context: RowContext,
    measurements: Seq<UsageMeasurement>,
) -> Seq<RowView>
    decreases measurements.len(),
{
    if measurements.len() == 0 {
        Seq::empty()
    } else {
        let before = shown_rows(context, measurements.drop_last());
        if hidden(measurements.last().name@) {
            before
        } else {
            before.push(row_of(context, measurements.last()))
        }
    }
}

/// One of the rows reports unmetered credits.
pub open spec fn any_unlimited(rows: Seq<RowView>) -> bool {
    exists|i: int| 0 <= i < rows.len() && (#[trigger] rows[i]).value is CreditsUnlimited
}

/// One of the rows is marked as switched off.
pub open spec fn any_disabled(rows: Seq<RowView>) -> bool {
    exists|i: int| 0 <= i < rows.len() && (#[trigger] rows[i]).disabled
}

/// A measurement that is not hidden and belongs to on-demand usage.
pub open spec fn on_demand_amount(measurement: UsageMeasurement) -> bool {
    on_demand_named(measurement) && !hidden(measurement.name@)
}

/// One of the measurements is an on-demand amount.
pub open spec fn any_on_demand_amount(measurements: Seq<UsageMeasurement>) -> bool {
    exists|i: int| 0 <= i < measurements.len() && on_demand_amount(#[trigger] measurements[i])
}

/// The rows a window gets, from the rows of its measurements: a state that only
/// a hidden boolean reports gets a row of its own to sit on.
pub open spec fn with_state_rows(
    context: RowContext,
    shown: Seq<RowView>,
    on_demand_shown: bool,
) -> Seq<RowView> {
    let credits = if context.unlimited && !any_unlimited(shown) {
        shown.push(row_in(context, "credits"@, SummaryValue::CreditsUnlimited, context.off))
    } else {
        shown
    };
    let status = if context.off && !any_disabled(credits) {
        credits.push(row_in(context, "status"@, SummaryValue::Disabled, false))
    } else {
        credits
    };
    if context.on_demand_off && !on_demand_shown {
        status.push(row_in(context, "on demand"@, SummaryValue::Disabled, false))
    } else {
        status
    }
}

/// The rows of a window.
pub open spec fn window_rows(
    window: UsageWindowKind,
    resets_at: Option<Timestamp>,
    measurements: Seq<UsageMeasurement>,
) -> Seq<RowView> {
    let context = context_of(window, resets_at, measurements);
    with_state_rows(
        context,
        shown_rows(context, measurements),
        any_on_demand_amount(measurements),
    )
}

/// The rows of every window, one window after the other.
pub open spec fn report_rows(windows: Seq<UsageWindow>) -> Seq<RowView>
    decreases windows.len(),
{
    if windows.len() == 0 {
        Seq::empty()
    } else {
        report_rows(windows.drop_last()) + window_rows(
            windows.last().window,
            windows.last().resets_at,
            windows.last().measurements@,
        )
    }
}

/// The window reports `allowed = 0` or `limit_reached = 1`.
pub open spec fn hit_its_limit(measurements: Seq<UsageMeasurement>) -> bool {
    flag(measurements, "allowed"@) == Some(false) || flag(measurements, "limit_reached"@) == Some(
        true,
    )
}

/// One of the windows has hit its limit.
pub open spec fn any_limit_hit(windows: Seq<UsageWindow>) -> bool {
    exists|i: int| 0 <= i < windows.len() && hit_its_limit((#[trigger] windows[i]).measurements@)
}

fn make_row(
    window: &str,
    resets_at: Option<Timestamp>,
    metric: String,
    value: SummaryValue,
    disabled: bool,
) -> (result: SummaryRow)
    ensures
        result@ == (RowView {
            window: window@,
            metric: metric@,
            value,
            resets_at,
            remaining_ratio: ratio_of(value),
            disabled,
        }),
{
    SummaryRow {
        window: window.to_owned(),
        metric,
        remaining_ratio: remaining_ratio(&value),
        value,
        resets_at,
        disabled,
    }
}

/// Whether an `on_demand_enabled = 0` window carries an amount to mark `(off)`.
pub fn has_on_demand_amount(window: &UsageWindow) -> (result: bool)
    ensures
        result == any_on_demand_amount(window.measurements@),
{
    let mut index: usize = 0;
    while index < window.measurements.len()
        invariant
            index <= window.measurements@.len(),
            forall|i: int|
                0 <= i < index ==> !on_demand_amount(#[trigger] window.measurements@[i]),
        decreases window.measurements.len() - index,
    {
        let name = window.measurements[index].name.as_str();
        if text::starts_with(name, "on_demand") && !is_hidden_measurement(name) {
            assert(on_demand_amount(window.measurements@[index as int]));
            return true;
        }
        index = index + 1;
    }
    false
}

/// Whether the window reports `allowed = 0` or `limit_reached = 1`, which are
/// hidden as rows but never dropped.
pub fn window_hit_its_limit(window: &UsageWindow) -> (result: bool)
    ensures
        result == hit_its_limit(window.measurements@),
{
    let allowed = boolean_measurement(window, "allowed");
    let reached = boolean_measurement(window, "limit_reached");
    matches!(allowed, Some(false)) || matches!(reached, Some(true))
}

fn some_row_unlimited(rows: &Vec<SummaryRow>) -> (result: bool)
    ensures
        result == any_unlimited(row_views(rows@)),
{
    let mut index: usize = 0;
    while index < rows.len()
        invariant
            index <= rows@.len(),
            forall|i: int|
                0 <= i < index ==> !((#[trigger] row_views(rows@)[i]).value is CreditsUnlimited),
        decreases rows.len() - index,
    {
        if matches!(rows[index].value, SummaryValue::CreditsUnlimited) {
            assert(row_views(rows@)[index as int].value is CreditsUnlimited);
            return true;
        }
        index = index + 1;
    }
    false
}

fn some_row_disabled(rows: &Vec<SummaryRow>) -> (result: bool)
    ensures
        result == any_disabled(row_views(rows@)),
{
    let mut index: usize = 0;
    while index < rows.len()
        invariant
            index <= rows@.len(),
            forall|i: int| 0 <= i < index ==> !(#[trigger] row_views(rows@)[i]).disabled,
        decreases rows.len() - index,
    {
        if rows[index].disabled {
            assert(row_views(rows@)[index as int].disabled);
            return true;
        }
        index = index + 1;
    }
    false
}

proof fn views_of_push(rows: Seq<SummaryRow>, row: SummaryRow)
    ensures
        row_views(rows.push(row)) == row_views(rows).push(row@),
{
    assert(row_views(rows.push(row)) =~= row_views(rows).push(row@));
}

/// The rows of one window.
pub fn summarize_window(window: &UsageWindow) -> (result: Vec<SummaryRow>)
    ensures
        row_views(result@) == window_rows(
            window.window,
            window.resets_at,
            window.measurements@,
        ),
{
    let ghost context = context_of(window.window, window.resets_at, window.measurements@);
    let name = window_display_name(&window.window);
    let unlimited = matches!(boolean_measurement(window, "unlimited"), Some(true));
    let off = matches!(boolean_measurement(window, "enabled"), Some(false));
    let on_demand_off = matches!(boolean_measurement(window, "on_demand_enabled"), Some(false));

    let mut rows: Vec<SummaryRow> = Vec::new();
    let mut index: usize = 0;
    assert(window.measurements@.take(0) =~= Seq::empty());
    assert(row_views(rows@) =~= Seq::empty());
    while index < window.measurements.len()
        invariant
            context == context_of(window.window, window.resets_at, window.measurements@),
            name@ == context.window,
            unlimited == context.unlimited,
            off == context.off,
            on_demand_off == context.on_demand_off,
            index <= window.measurements@.len(),
            row_views(rows@) == shown_rows(context, window.measurements@.take(index as int)),
        decreases window.measurements.len() - index,
    {
        assert(window.measurements@.take(index + 1).drop_last() == window.measurements@.take(
            index as int,
        ));
        let measurement = &window.measurements[index];
        if !is_hidden_measurement(measurement.name.as_str()) {
            let row = make_row(
                name.as_str(),
                window.resets_at,
                metric_display_name(measurement.name.as_str()),
                measurement_value(measurement, unlimited),
                off || (on_demand_off && text::starts_with(measurement.name.as_str(), "on_demand")),
            );
            proof {
                views_of_push(rows@, row);
            }
            rows.push(row);
        }
        index = index + 1;
    }
    assert(window.measurements@.take(index as int) == window.measurements@);

    if unlimited && !some_row_unlimited(&rows) {
        let row = make_row(
            name.as_str(),
            window.resets_at,
            "credits".to_owned(),
            SummaryValue::CreditsUnlimited,
            off,
        );
        proof {
            views_of_push(rows@, row);
        }
        rows.push(row);
    }
    if off && !some_row_disabled(&rows) {
        let row = make_row(
            name.as_str(),
            window.resets_at,
            "status".to_owned(),
            SummaryValue::Disabled,
            false,
        );
        proof {
            views_of_push(rows@, row);
        }
        rows.push(row);
    }
    if on_demand_off && !has_on_demand_amount(window) {
        let row = make_row(
            name.as_str(),
            window.resets_at,
            "on demand".to_owned(),
            SummaryValue::Disabled,
            false,
        );
        proof {
            views_of_push(rows@, row);
        }
        rows.push(row);
    }
    rows
}

/// Projects provider usage onto the rows a human reads.
pub fn summarize(usage: &SubscriptionUsage) -> (result: UsageSummary)
    ensures
        row_views(result.rows@) == report_rows(usage.windows@),
        result.limit_reached == any_limit_hit(usage.windows@),
        result.observed_at == usage.observed_at,
        result.expires_at == usage.subscription_expires_at,
{
    let mut rows: Vec<SummaryRow> = Vec::new();
    let mut limit_reached = false;
    let mut index: usize = 0;
    assert(usage.windows@.take(0) =~= Seq::empty());
    assert(row_views(rows@) =~= Seq::empty());
    while index < usage.windows.len()
        invariant
            index <= usage.windows@.len(),
            row_views(rows@) == report_rows(usage.windows@.take(index as int)),
            limit_reached == exists|i: int|
                0 <= i < index && hit_its_limit((#[trigger] usage.windows@[i]).measurements@),
        decreases usage.windows.len() - index,
    {
        assert(usage.windows@.take(index + 1).drop_last() == usage.windows@.take(index as int));
        let window = &usage.windows[index];
        if window_hit_its_limit(window) {
            limit_reached = true;
        }
        let mut more = summarize_window(window);
        assert(row_views(rows@ + more@) =~= row_views(rows@) + row_views(more@));
        rows.append(&mut more);
        index = index + 1;
    }
    assert(usage.windows@.take(index as int) == usage.windows@);
    UsageSummary {
        rows,
        limit_reached,
        observed_at: usage.observed_at,
        expires_at: usage.subscription_expires_at,
    }
}

} // verus!
