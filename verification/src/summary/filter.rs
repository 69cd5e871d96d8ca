//! Display-name filtering of summaries.

use vstd::prelude::*;
use vstd::string::StrSliceExecFns;

use crate::identity;
use crate::summary;
use crate::summary::laws;
use crate::summary::{
    is_hidden_measurement, metric_display_name, summarize, summarize_window, RowView, SummaryRow,
    SummaryValue, UsageSummary,
};
use crate::text;
use crate::usage::{SubscriptionUsage, UsageMeasurement, UsageWindow};

verus! {

/// Upper bound on the number of names one filter accepts.
pub const MAX_METRIC_NAMES: usize = 64;

/// Upper bound on the character count of one filter name.
pub const MAX_METRIC_NAME_CHARACTERS: usize = 128;

/// Why a metric filter value was rejected.
#[derive(Clone, Copy, Debug, PartialEq, Eq, Structural)]
pub enum MetricFilterError {
    EmptyName,
    NameTooLong,
    TooManyNames,
    UnsafeCharacter,
}

impl MetricFilterError {
    /// What a person reads about the rejection.
    pub open spec fn described(self) -> Seq<char> {
        match self {
            MetricFilterError::EmptyName => "metric filter names must not be empty"@,
            MetricFilterError::NameTooLong =>
                "metric filter names must be at most 128 characters"@,
            MetricFilterError::TooManyNames => "a metric filter accepts at most 64 names"@,
            MetricFilterError::UnsafeCharacter =>
                "metric filter names must not contain control or bidirectional text characters"@,
        }
    }

    /// What a person reads about the rejection.
    pub fn message(&self) -> (result: &'static str)
        ensures
            result@ == self.described(),
    {
        match self {
            MetricFilterError::EmptyName => "metric filter names must not be empty",
            MetricFilterError::NameTooLong => "metric filter names must be at most 128 characters",
            MetricFilterError::TooManyNames => "a metric filter accepts at most 64 names",
            MetricFilterError::UnsafeCharacter =>
                "metric filter names must not contain control or bidirectional text characters",
        }
    }
}

/// A validated set of display names selecting which summary rows to show.
///
/// Names are trimmed, matched case-insensitively against exact display names,
/// and deduplicated while keeping the first spelling. An empty filter is
/// inactive, which means "show every row". Matching ignores the window a row
/// belongs to.
#[derive(Debug, PartialEq, Eq)]
pub struct MetricFilter {
    names: Vec<String>,
}

/// The texts of a list of strings.
pub open spec fn text_views(names: Seq<String>) -> Seq<Seq<char>> {
    names.map_values(|name: String| name@)
}

impl View for MetricFilter {
    type V = Seq<Seq<char>>;

    closed spec fn view(&self) -> Seq<Seq<char>> {
        text_views(self.names@)
    }
}

/// What is wrong with a name, if anything is.
pub open spec fn name_problem(name: Seq<char>) -> Option<MetricFilterError> {
    if text::trimmed(name).len() == 0 {
        Some(MetricFilterError::EmptyName)
    } else if text::trimmed(name).len() > MAX_METRIC_NAME_CHARACTERS {
        Some(MetricFilterError::NameTooLong)
    } else if identity::unsafe_text(text::trimmed(name)) {
        Some(MetricFilterError::UnsafeCharacter)
    } else {
        None
    }
}

/// What is wrong with the first name that something is wrong with.
pub open spec fn first_problem(names: Seq<Seq<char>>) -> Option<MetricFilterError>
    decreases names.len(),
{
    if names.len() == 0 {
        None
    } else {
        match first_problem(names.drop_last()) {
            Some(problem) => Some(problem),
            None => name_problem(names.last()),
        }
    }
}

/// One of the names is the given one, in any case.
pub open spec fn listed(names: Seq<Seq<char>>, name: Seq<char>) -> bool {
    exists|i: int| 0 <= i < names.len() && text::equal_ignoring_case(#[trigger] names[i], name)
}

/// The names trimmed, the first spelling of each, in order.
pub open spec fn normalized(names: Seq<Seq<char>>) -> Seq<Seq<char>>
    decreases names.len(),
{
    if names.len() == 0 {
        Seq::empty()
    } else {
        let before = normalized(names.drop_last());
        let name = text::trimmed(names.last());
        if listed(before, name) {
            before
        } else {
            before.push(name)
        }
    }
}

/// A list of names a filter may hold.
pub open spec fn valid_names(names: Seq<Seq<char>>) -> bool {
    &&& names.len() <= MAX_METRIC_NAMES
    &&& forall|i: int|
        0 <= i < names.len() ==> name_problem(#[trigger] names[i]) is None && text::trimmed(
            names[i],
        ) == names[i]
    &&& forall|i: int, j: int|
        0 <= i < j < names.len() ==> !text::equal_ignoring_case(
            #[trigger] names[i],
            #[trigger] names[j],
        )
}

/// The filter's names select a row of that display name.
pub open spec fn selects(names: Seq<Seq<char>>, metric: Seq<char>) -> bool {
    listed(names, text::trimmed(metric))
}

fn is_listed(names: &Vec<String>, name: &str) -> (result: bool)
    ensures
        result == listed(text_views(names@), name@),
{
    let mut index: usize = 0;
    while index < names.len()
        invariant
            index <= names@.len(),
            forall|i: int|
                0 <= i < index ==> !text::equal_ignoring_case(
                    #[trigger] text_views(names@)[i],
                    name@,
                ),
        decreases names.len() - index,
    {
        if text::eq_ignore_ascii_case(names[index].as_str(), name) {
            assert(text::equal_ignoring_case(text_views(names@)[index as int], name@));
            return true;
        }
        index = index + 1;
    }
    false
}

impl Default for MetricFilter {
    fn default() -> (result: Self)
        ensures
            result@ == Seq::<Seq<char>>::empty(),
    {
        let names: Vec<String> = Vec::new();
        assert(text_views(names@) =~= Seq::empty());
        MetricFilter { names }
    }
}

impl Clone for MetricFilter {
    fn clone(&self) -> (result: Self)
        ensures
            result@ == self@,
    {
        let mut names: Vec<String> = Vec::new();
        let mut index: usize = 0;
        while index < self.names.len()
            invariant
                index <= self.names@.len(),
                names@ == self.names@.take(index as int),
            decreases self.names.len() - index,
        {
            names.push(self.names[index].clone());
            index = index + 1;
            assert(self.names@.take(index as int) == self.names@.take(index - 1).push(
                self.names@[index - 1],
            ));
        }
        assert(self.names@.take(index as int) == self.names@);
        MetricFilter { names }
    }
}

impl MetricFilter {
    /// The filter that the given names make, or why they make none.
    pub open spec fn made_of(
        names: Seq<Seq<char>>,
        result: Result<MetricFilter, MetricFilterError>,
    ) -> bool {
        match result {
            Ok(filter) => {
                &&& names.len() <= MAX_METRIC_NAMES
                &&& first_problem(names) is None
                &&& filter@ == normalized(names)
            },
            Err(error) => if names.len() > MAX_METRIC_NAMES {
                error == MetricFilterError::TooManyNames
            } else {
                first_problem(names) == Some(error)
            },
        }
    }

    /// Validates and normalizes the given names.
    pub fn new(names: Vec<String>) -> (result: Result<Self, MetricFilterError>)
        ensures
            MetricFilter::made_of(text_views(names@), result),
    {
        if names.len() > MAX_METRIC_NAMES {
            return Err(MetricFilterError::TooManyNames);
        }
        let mut kept: Vec<String> = Vec::new();
        let ghost views = text_views(names@);
        let mut index: usize = 0;
        assert(views.take(0) =~= Seq::empty());
        assert(text_views(kept@) =~= Seq::empty());
        while index < names.len()
            invariant
                views == text_views(names@),
                index <= names@.len() <= MAX_METRIC_NAMES,
                first_problem(views.take(index as int)) is None,
                text_views(kept@) == normalized(views.take(index as int)),
            decreases names.len() - index,
        {
            proof {
                assert(views.take(index + 1).drop_last() == views.take(index as int));
                problems_persist(views, index + 1);
            }
            let name = text::trim(names[index].as_str());
            if name.is_empty() {
                return Err(MetricFilterError::EmptyName);
            }
            if name.unicode_len() > MAX_METRIC_NAME_CHARACTERS {
                return Err(MetricFilterError::NameTooLong);
            }
            if identity::has_unsafe_character(name) {
                return Err(MetricFilterError::UnsafeCharacter);
            }
            if !is_listed(&kept, name) {
                let owned = name.to_owned();
                assert(text_views(kept@.push(owned)) =~= text_views(kept@).push(owned@));
                kept.push(owned);
            }
            index = index + 1;
        }
        assert(views.take(index as int) == views);
        Ok(MetricFilter { names: kept })
    }

    /// Whether the filter selects rows. An inactive filter shows every row.
    pub fn is_active(&self) -> (result: bool)
        ensures
            result == (self@.len() > 0),
    {
        !self.names.is_empty()
    }

    /// The normalized names, in first-seen order.
    pub fn names(&self) -> (result: &[String])
        ensures
            text_views(result@) == self@,
    {
        self.names.as_slice()
    }

    /// Case-insensitive exact match against a display name.
    pub fn matches(&self, display: &str) -> (result: bool)
        ensures
            result == selects(self@, display@),
    {
        is_listed(&self.names, text::trim(display))
    }
}

proof fn problems_persist(names: Seq<Seq<char>>, count: int)
    requires
        0 <= count <= names.len(),
    ensures
        first_problem(names.take(count)) is Some ==> first_problem(names) == first_problem(
            names.take(count),
        ),
    decreases names.len(),
{
    if count == names.len() {
        assert(names.take(count) == names);
    } else {
        problems_persist(names.drop_last(), count);
        assert(names.drop_last().take(count) == names.take(count));
    }
}

/// Whether a filter's names are the ones to keep or the ones to drop.
#[derive(Clone, Copy, Debug, PartialEq, Eq, Structural)]
pub enum MetricFilterMode {
    /// Show the rows the filter selects.
    Keep,
    /// Show the rows the filter does not select.
    Hide,
}

/// The row is shown under the filter: an inactive filter shows every row.
pub open spec fn shown_under(
    names: Seq<Seq<char>>,
    mode: MetricFilterMode,
    metric: Seq<char>,
) -> bool {
    names.len() == 0 || match mode {
        MetricFilterMode::Keep => selects(names, metric),
        MetricFilterMode::Hide => !selects(names, metric),
    }
}

/// The rows shown under the filter, in order.
pub open spec fn rows_under(
    rows: Seq<RowView>,
    names: Seq<Seq<char>>,
    mode: MetricFilterMode,
) -> Seq<RowView> {
    rows.filter(|row: RowView| shown_under(names, mode, row.metric))
}

/// [`summarize`], keeping only rows whose display name the filter selects.
///
/// An inactive filter returns the full summary. Timestamps and
/// `limit_reached` are never affected by filtering.
pub fn summarize_filtered(usage: &SubscriptionUsage, filter: &MetricFilter) -> (result:
    UsageSummary)
    ensures
        summary::row_views(result.rows@) == rows_under(
            summary::report_rows(usage.windows@),
            filter@,
            MetricFilterMode::Keep,
        ),
        result.limit_reached == summary::any_limit_hit(usage.windows@),
        result.observed_at == usage.observed_at,
        result.expires_at == usage.subscription_expires_at,
{
    summarize_under(usage, filter, MetricFilterMode::Keep)
}

/// [`summarize`], with only the rows the filter and its mode leave.
pub fn summarize_under(
    usage: &SubscriptionUsage,
    filter: &MetricFilter,
    mode: MetricFilterMode,
) -> (result: UsageSummary)
    ensures
        summary::row_views(result.rows@) == rows_under(
            summary::report_rows(usage.windows@),
            filter@,
            mode,
        ),
        result.limit_reached == summary::any_limit_hit(usage.windows@),
        result.observed_at == usage.observed_at,
        result.expires_at == usage.subscription_expires_at,
{
    let mut summary = summarize(usage);
    let ghost all = summary::row_views(summary.rows@);
    let active = filter.is_active();
    let mut rows: Vec<SummaryRow> = Vec::new();
    let mut left: Vec<SummaryRow> = Vec::new();
    left.append(&mut summary.rows);
    let ghost source = left@;
    let ghost shown = |row: RowView| shown_under(filter@, mode, row.metric);
    assert(summary::row_views(rows@) =~= Seq::empty());
    assert(source.skip(0) =~= source);
    let mut taken: usize = 0;
    let total: usize = left.len();
    proof {
        reveal(Seq::filter);
        assert(all.take(0) =~= Seq::empty());
    }
    while taken < total
        invariant
            all == summary::row_views(source),
            shown == (|row: RowView| shown_under(filter@, mode, row.metric)),
            active == (filter@.len() > 0),
            taken <= total == source.len(),
            left@ == source.skip(taken as int),
            summary::row_views(rows@) == all.take(taken as int).filter(shown),
        decreases total - taken,
    {
        let row = left.remove(0);
        proof {
            reveal(Seq::filter);
            assert(row == source[taken as int]);
            assert(left@ =~= source.skip(taken + 1));
            assert(all.take(taken + 1).drop_last() =~= all.take(taken as int));
            assert(all.take(taken + 1).last() == row@);
            assert(summary::row_views(rows@.push(row)) =~= summary::row_views(
                rows@,
            ).push(row@));
        }
        let show = !active || match mode {
            MetricFilterMode::Keep => filter.matches(row.metric.as_str()),
            MetricFilterMode::Hide => !filter.matches(row.metric.as_str()),
        };
        assert(show == shown(row@));
        if show {
            rows.push(row);
        }
        taken = taken + 1;
    }
    assert(all.take(taken as int) =~= all);
    UsageSummary {
        rows,
        limit_reached: summary.limit_reached,
        observed_at: summary.observed_at,
        expires_at: summary.expires_at,
    }
}

/// The row is there only to say that what the metric names is switched off.
pub open spec fn stands_in(row: RowView, metric: Seq<char>) -> bool {
    row.value is Disabled && row.metric == metric
}

/// One of the rows is there only to say that what the metric names is switched
/// off.
pub open spec fn any_stands_in(rows: Seq<RowView>, metric: Seq<char>) -> bool {
    exists|i: int| 0 <= i < rows.len() && stands_in(#[trigger] rows[i], metric)
}

/// The measurement is not hidden and its display name is selected.
pub open spec fn picked(names: Seq<Seq<char>>, measurement: UsageMeasurement) -> bool {
    !summary::hidden(measurement.name@) && selects(
        names,
        summary::display_name(measurement.name@),
    )
}

/// One of the selected measurements belongs to on-demand usage.
pub open spec fn any_picked_on_demand(
    names: Seq<Seq<char>>,
    measurements: Seq<UsageMeasurement>,
) -> bool {
    exists|i: int|
        0 <= i < measurements.len() && picked(names, #[trigger] measurements[i])
            && summary::on_demand_named(measurements[i])
}

/// A row that shows that the window is switched off is among the rows: one that
/// is marked so, or the `status` row.
pub open spec fn shows_off(rows: Seq<RowView>) -> bool {
    summary::any_disabled(rows) || any_stands_in(rows, "status"@)
}

/// The measurement stays, where `kept` are the rows that stay of the window with
/// those measurements: a selected one, the limit state, and each other flag that
/// shapes a row which stays.
pub open spec fn survives(
    names: Seq<Seq<char>>,
    kept: Seq<RowView>,
    measurements: Seq<UsageMeasurement>,
    measurement: UsageMeasurement,
) -> bool {
    let name = measurement.name@;
    ||| picked(names, measurement)
    ||| name == "allowed"@
    ||| name == "limit_reached"@
    ||| name == "unlimited"@ && summary::any_unlimited(kept)
    ||| name == "enabled"@ && shows_off(kept)
    ||| name == "on_demand_enabled"@ && (any_picked_on_demand(names, measurements)
        || any_stands_in(kept, "on demand"@))
}

/// The measurements of a window that stay, in order.
pub open spec fn surviving_measurements(
    window: UsageWindow,
    names: Seq<Seq<char>>,
) -> Seq<UsageMeasurement> {
    let kept = rows_under(
        summary::window_rows(window.window, window.resets_at, window.measurements@),
        names,
        MetricFilterMode::Keep,
    );
    window.measurements@.filter(
        |measurement: UsageMeasurement| survives(names, kept, window.measurements@, measurement),
    )
}

/// The window with only the measurements that stay.
pub open spec fn filtered_window(
    source: UsageWindow,
    names: Seq<Seq<char>>,
    result: UsageWindow,
) -> bool {
    &&& result.window == source.window
    &&& result.resets_at == source.resets_at
    &&& result.measurements@ == surviving_measurements(source, names)
}

fn picks_on_demand(window: &UsageWindow, filter: &MetricFilter) -> (result: bool)
    ensures
        result == any_picked_on_demand(filter@, window.measurements@),
{
    let mut index: usize = 0;
    while index < window.measurements.len()
        invariant
            index <= window.measurements@.len(),
            forall|i: int|
                0 <= i < index ==> !(picked(filter@, #[trigger] window.measurements@[i])
                    && summary::on_demand_named(window.measurements@[i])),
        decreases window.measurements.len() - index,
    {
        let name = window.measurements[index].name.as_str();
        if text::starts_with(name, "on_demand") && !is_hidden_measurement(name) && filter.matches(
            metric_display_name(name).as_str(),
        ) {
            assert(picked(filter@, window.measurements@[index as int]));
            return true;
        }
        index = index + 1;
    }
    false
}

fn filter_window(window: &UsageWindow, filter: &MetricFilter) -> (result: UsageWindow)
    requires
        filter@.len() > 0,
    ensures
        filtered_window(*window, filter@, result),
{
    let rows = summarize_window(window);
    let ghost all = summary::row_views(rows@);
    let ghost shown = |row: RowView| shown_under(filter@, MetricFilterMode::Keep, row.metric);
    let mut keeps_unlimited = false;
    let mut keeps_off = false;
    let mut keeps_demand_row = false;
    let mut index: usize = 0;
    proof {
        reveal(Seq::filter);
        assert(all.take(0) =~= Seq::empty());
    }
    while index < rows.len()
        invariant
            filter@.len() > 0,
            all == summary::row_views(rows@),
            shown == (|row: RowView| shown_under(filter@, MetricFilterMode::Keep, row.metric)),
            index <= rows@.len(),
            keeps_unlimited == summary::any_unlimited(all.take(index as int).filter(shown)),
            keeps_off == shows_off(all.take(index as int).filter(shown)),
            keeps_demand_row == any_stands_in(all.take(index as int).filter(shown), "on demand"@),
        decreases rows.len() - index,
    {
        let row = &rows[index];
        let ghost before = all.take(index as int).filter(shown);
        proof {
            reveal(Seq::filter);
            assert(all.take(index + 1).drop_last() =~= all.take(index as int));
            assert(all.take(index + 1).last() == row@);
        }
        if filter.matches(row.metric.as_str()) {
            assert(shown(row@));
            assert(all.take(index + 1).filter(shown) == before.push(row@));
            proof {
                unlimited_of_push(before, row@);
                disabled_of_push(before, row@);
                stands_in_of_push(before, row@, "status"@);
                stands_in_of_push(before, row@, "on demand"@);
            }
            if matches!(row.value, SummaryValue::CreditsUnlimited) {
                keeps_unlimited = true;
            }
            if row.disabled {
                keeps_off = true;
            }
            if matches!(row.value, SummaryValue::Disabled) {
                if text::same_text(row.metric.as_str(), "status") {
                    keeps_off = true;
                }
                if text::same_text(row.metric.as_str(), "on demand") {
                    keeps_demand_row = true;
                }
            }
        }
        index = index + 1;
    }
    let ghost kept = all.filter(shown);
    assert(all.take(index as int) =~= all);
    let keeps_on_demand = keeps_demand_row || picks_on_demand(window, filter);

    let ghost stays = |measurement: UsageMeasurement|
        survives(filter@, kept, window.measurements@, measurement);
    let mut measurements: Vec<UsageMeasurement> = Vec::new();
    let mut position: usize = 0;
    proof {
        flag_names_differ();
        reveal(Seq::filter);
        assert(window.measurements@.take(0) =~= Seq::empty());
    }
    while position < window.measurements.len()
        invariant
            stays == (|measurement: UsageMeasurement|
                survives(filter@, kept, window.measurements@, measurement)),
            keeps_unlimited == summary::any_unlimited(kept),
            keeps_off == shows_off(kept),
            keeps_on_demand == (any_picked_on_demand(filter@, window.measurements@)
                || any_stands_in(kept, "on demand"@)),
            position <= window.measurements@.len(),
            measurements@ == window.measurements@.take(position as int).filter(stays),
            flag_names_distinct(),
        decreases window.measurements.len() - position,
    {
        proof {
            reveal(Seq::filter);
            assert(window.measurements@.take(position + 1).drop_last() =~=
                window.measurements@.take(position as int));
        }
        let measurement = &window.measurements[position];
        let name = measurement.name.as_str();
        let keep = if is_hidden_measurement(name) {
            text::same_text(name, "allowed") || text::same_text(name, "limit_reached") || (
            text::same_text(name, "unlimited") && keeps_unlimited) || (text::same_text(
                name,
                "enabled",
            ) && keeps_off) || (text::same_text(name, "on_demand_enabled") && keeps_on_demand)
        } else {
            filter.matches(metric_display_name(name).as_str())
        };
        assert(keep == stays(*measurement));
        if keep {
            measurements.push(measurement.clone());
        }
        position = position + 1;
    }
    assert(window.measurements@.take(position as int) =~= window.measurements@);
    UsageWindow { window: window.window.clone(), resets_at: window.resets_at, measurements }
}

/// Drops measurements a filter would hide from the summary view.
///
/// The result feeds [`summarize`] and must produce the same rows as
/// [`summarize_filtered`]: a visible measurement survives when its display
/// name matches, and the hidden bookkeeping measurements that carry the
/// `allowed`/`limit_reached` state always survive, so a reached limit is never
/// filtered away. The other hidden flags only shape a matching row or a
/// synthetic row, so they survive only when that row survives.
///
/// An inactive filter returns a clone of the input.
pub fn filter_usage_measurements(usage: &SubscriptionUsage, filter: &MetricFilter) -> (result:
    SubscriptionUsage)
    ensures
        filter@.len() == 0 ==> crate::usage::same_report(result, *usage),
        filter@.len() > 0 ==> filtered_report(*usage, filter@, result),
        summary::report_rows(result.windows@) == rows_under(
            summary::report_rows(usage.windows@),
            filter@,
            MetricFilterMode::Keep,
        ),
        summary::any_limit_hit(result.windows@) == summary::any_limit_hit(usage.windows@),
{
    if !filter.is_active() {
        let copy = usage.clone();
        proof {
            laws::equal_reports_have_equal_summaries(copy.windows@, usage.windows@);
            laws::an_inactive_filter_shows_every_row(
                summary::report_rows(usage.windows@),
                MetricFilterMode::Keep,
            );
            assert(filter@ =~= Seq::empty());
        }
        return copy;
    }
    let mut windows: Vec<UsageWindow> = Vec::new();
    let mut index: usize = 0;
    while index < usage.windows.len()
        invariant
            filter@.len() > 0,
            index <= usage.windows@.len(),
            windows@.len() == index,
            forall|i: int|
                0 <= i < index ==> filtered_window(
                    usage.windows@[i],
                    filter@,
                    #[trigger] windows@[i],
                ),
        decreases usage.windows.len() - index,
    {
        windows.push(filter_window(&usage.windows[index], filter));
        index = index + 1;
    }
    let filtered = SubscriptionUsage {
        provider: usage.provider.clone(),
        account_label: crate::usage::clone_optional_text(&usage.account_label),
        plan: crate::usage::clone_optional_text(&usage.plan),
        subscription_expires_at: usage.subscription_expires_at,
        observed_at: usage.observed_at,
        windows,
    };
    proof {
        laws::filtering_measurements_filters_rows(*usage, filter@, filtered);
        laws::filtering_keeps_the_limit_state(*usage, filter@, filtered);
    }
    filtered
}

/// The report with only the measurements that stay in each window.
pub open spec fn filtered_report(
    source: SubscriptionUsage,
    names: Seq<Seq<char>>,
    result: SubscriptionUsage,
) -> bool {
    &&& crate::usage::same_report_header(result, source)
    &&& result.windows@.len() == source.windows@.len()
    &&& forall|i: int|
        0 <= i < result.windows@.len() ==> filtered_window(
            source.windows@[i],
            names,
            #[trigger] result.windows@[i],
        )
}

/// No two of the status measurements share a name.
pub open spec fn flag_names_distinct() -> bool {
    &&& "allowed"@ != "unlimited"@
    &&& "allowed"@ != "enabled"@
    &&& "allowed"@ != "on_demand_enabled"@
    &&& "allowed"@ != "limit_reached"@
    &&& "limit_reached"@ != "unlimited"@
    &&& "limit_reached"@ != "enabled"@
    &&& "limit_reached"@ != "on_demand_enabled"@
    &&& "unlimited"@ != "enabled"@
    &&& "unlimited"@ != "on_demand_enabled"@
    &&& "enabled"@ != "on_demand_enabled"@
}

/// The names of the status measurements are all different.
pub proof fn flag_names_differ()
    ensures
        flag_names_distinct(),
{
    reveal_strlit("allowed");
    reveal_strlit("limit_reached");
    reveal_strlit("unlimited");
    reveal_strlit("enabled");
    reveal_strlit("on_demand_enabled");
    assert("allowed"@.len() == 7 && "enabled"@.len() == 7);
    assert("limit_reached"@.len() == 13);
    assert("unlimited"@.len() == 9);
    assert("on_demand_enabled"@.len() == 17);
    assert("allowed"@[0] == 'a');
    assert("enabled"@[0] == 'e');
}

pub(super) proof fn unlimited_of_push(rows: Seq<RowView>, row: RowView)
    ensures
        summary::any_unlimited(rows.push(row)) == (summary::any_unlimited(rows)
            || row.value is CreditsUnlimited),
{
    let more = rows.push(row);
    assert(more[rows.len() as int] == row);
    assert(forall|i: int| 0 <= i < rows.len() ==> #[trigger] more[i] == rows[i]);
    if summary::any_unlimited(rows) {
        let i = choose|i: int|
            0 <= i < rows.len() && (#[trigger] rows[i]).value is CreditsUnlimited;
        assert(more[i].value is CreditsUnlimited);
    }
}

pub(super) proof fn disabled_of_push(rows: Seq<RowView>, row: RowView)
    ensures
        summary::any_disabled(rows.push(row)) == (summary::any_disabled(rows) || row.disabled),
{
    let more = rows.push(row);
    assert(more[rows.len() as int] == row);
    if summary::any_disabled(rows) {
        let i = choose|i: int| 0 <= i < rows.len() && (#[trigger] rows[i]).disabled;
        assert(more[i].disabled);
    }
}

pub(super) proof fn stands_in_of_push(rows: Seq<RowView>, row: RowView, metric: Seq<char>)
    ensures
        any_stands_in(rows.push(row), metric) == (any_stands_in(rows, metric) || stands_in(
            row,
            metric,
        )),
{
    let more = rows.push(row);
    assert(more[rows.len() as int] == row);
    if any_stands_in(rows, metric) {
        let i = choose|i: int| 0 <= i < rows.len() && stands_in(#[trigger] rows[i], metric);
        assert(stands_in(more[i], metric));
    }
}

} // verus!
