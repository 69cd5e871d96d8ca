//! What filtering measurements and filtering rows have to do with each other.

use vstd::prelude::*;

use crate::summary;
use crate::summary::filter;
use crate::summary::filter::MetricFilterMode;
use crate::summary::{RowContext, RowView, SummaryValue};
use crate::text;
use crate::usage::{
    SubscriptionUsage, Timestamp, UsageMeasurement, UsageWindow, UsageWindowKind,
};

verus! {

proof fn filter_comes_from<A>(items: Seq<A>, keep: spec_fn(A) -> bool, place: int)
    requires
        0 <= place < items.filter(keep).len(),
    ensures
        keep(items.filter(keep)[place]),
        exists|i: int| 0 <= i < items.len() && #[trigger] items[i] == items.filter(keep)[place],
    decreases items.len(),
{
    reveal(Seq::filter);
    let before = items.drop_last().filter(keep);
    if items.len() > 0 {
        if place < before.len() {
            filter_comes_from(items.drop_last(), keep, place);
            let i = choose|i: int|
                0 <= i < items.drop_last().len() && #[trigger] items.drop_last()[i]
                    == before[place];
            assert(items[i] == items.drop_last()[i]);
        } else {
            assert(items[items.len() - 1] == items.last());
        }
    }
}

proof fn filter_holds<A>(items: Seq<A>, keep: spec_fn(A) -> bool, place: int)
    requires
        0 <= place < items.len(),
        keep(items[place]),
    ensures
        exists|i: int|
            0 <= i < items.filter(keep).len() && #[trigger] items.filter(keep)[i] == items[place],
{
    items.lemma_filter_contains(keep, place);
}

proof fn flag_of_filter(
    measurements: Seq<UsageMeasurement>,
    keep: spec_fn(UsageMeasurement) -> bool,
    name: Seq<char>,
    kept: bool,
)
    requires
        forall|m: UsageMeasurement| m.name@ == name ==> #[trigger] keep(m) == kept,
    ensures
        summary::flag(measurements.filter(keep), name) == if kept {
            summary::flag(measurements, name)
        } else {
            None
        },
    decreases measurements.len(),
{
    reveal(Seq::filter);
    if measurements.len() > 0 {
        let before = measurements.drop_last().filter(keep);
        flag_of_filter(measurements.drop_last(), keep, name, kept);
        if keep(measurements.last()) {
            assert(measurements.filter(keep).drop_last() =~= before);
            assert(measurements.filter(keep).last() == measurements.last());
        } else {
            assert(measurements.filter(keep) == before);
        }
    }
}

proof fn shown_of_filter(
    context: RowContext,
    measurements: Seq<UsageMeasurement>,
    names: Seq<Seq<char>>,
    keep: spec_fn(UsageMeasurement) -> bool,
)
    requires
        names.len() > 0,
        forall|m: UsageMeasurement|
            !summary::hidden(m.name@) ==> #[trigger] keep(m) == filter::picked(names, m),
    ensures
        summary::shown_rows(context, measurements.filter(keep)) == filter::rows_under(
            summary::shown_rows(context, measurements),
            names,
            MetricFilterMode::Keep,
        ),
    decreases measurements.len(),
{
    reveal(Seq::filter);
    if measurements.len() > 0 {
        let last = measurements.last();
        let before = measurements.drop_last().filter(keep);
        shown_of_filter(context, measurements.drop_last(), names, keep);
        let rows = summary::shown_rows(context, measurements.drop_last());
        let row = summary::row_of(context, last);
        if keep(last) {
            assert(measurements.filter(keep).drop_last() =~= before);
        }
        if !summary::hidden(last.name@) {
            assert(rows.push(row).drop_last() =~= rows);
            assert(rows.push(row).last() == row);
            assert(filter::shown_under(names, MetricFilterMode::Keep, row.metric)
                == filter::picked(names, last));
        }
    }
}

proof fn shown_in_equal_contexts(
    left: RowContext,
    right: RowContext,
    measurements: Seq<UsageMeasurement>,
)
    requires
        forall|i: int|
            0 <= i < measurements.len() && !summary::hidden((#[trigger] measurements[i]).name@)
                ==> summary::row_of(left, measurements[i]) == summary::row_of(
                right,
                measurements[i],
            ),
    ensures
        summary::shown_rows(left, measurements) == summary::shown_rows(right, measurements),
    decreases measurements.len(),
{
    if measurements.len() > 0 {
        let before = measurements.drop_last();
        assert forall|i: int|
            0 <= i < before.len() && !summary::hidden((#[trigger] before[i]).name@) implies
            summary::row_of(left, before[i]) == summary::row_of(right, before[i]) by {
            assert(before[i] == measurements[i]);
        }
        shown_in_equal_contexts(left, right, before);
        assert(measurements[measurements.len() - 1] == measurements.last());
    }
}

proof fn shown_holds(context: RowContext, measurements: Seq<UsageMeasurement>, place: int)
    requires
        0 <= place < measurements.len(),
        !summary::hidden(measurements[place].name@),
    ensures
        exists|i: int|
            0 <= i < summary::shown_rows(context, measurements).len()
                && #[trigger] summary::shown_rows(context, measurements)[i] == summary::row_of(
                context,
                measurements[place],
            ),
    decreases measurements.len(),
{
    let rows = summary::shown_rows(context, measurements);
    let row = summary::row_of(context, measurements[place]);
    let before = summary::shown_rows(context, measurements.drop_last());
    if place == measurements.len() - 1 {
        assert(rows[before.len() as int] == row);
    } else {
        assert(measurements.drop_last()[place] == measurements[place]);
        shown_holds(context, measurements.drop_last(), place);
        let i = choose|i: int| 0 <= i < before.len() && #[trigger] before[i] == row;
        assert(rows[i] == row);
    }
}

proof fn shown_comes_from(context: RowContext, measurements: Seq<UsageMeasurement>, place: int)
    requires
        0 <= place < summary::shown_rows(context, measurements).len(),
    ensures
        exists|i: int|
            0 <= i < measurements.len() && !summary::hidden((#[trigger] measurements[i]).name@)
                && summary::shown_rows(context, measurements)[place] == summary::row_of(
                context,
                measurements[i],
            ),
    decreases measurements.len(),
{
    let before = summary::shown_rows(context, measurements.drop_last());
    if measurements.len() > 0 {
        if place < before.len() {
            shown_comes_from(context, measurements.drop_last(), place);
            let earlier = measurements.drop_last();
            let i = choose|i: int|
                0 <= i < earlier.len() && !summary::hidden((#[trigger] earlier[i]).name@)
                    && before[place] == summary::row_of(context, earlier[i]);
            assert(measurements[i] == earlier[i]);
        } else {
            assert(measurements[measurements.len() - 1] == measurements.last());
        }
    }
}

proof fn under_of_push(rows: Seq<RowView>, row: RowView, names: Seq<Seq<char>>)
    requires
        names.len() > 0,
    ensures
        filter::rows_under(rows.push(row), names, MetricFilterMode::Keep) == if filter::selects(
            names,
            row.metric,
        ) {
            filter::rows_under(rows, names, MetricFilterMode::Keep).push(row)
        } else {
            filter::rows_under(rows, names, MetricFilterMode::Keep)
        },
{
    reveal(Seq::filter);
    assert(rows.push(row).drop_last() =~= rows);
}

/// The selected rows of a window's measurements are the rows of its selected
/// measurements.
proof fn selected_rows_are_of_picked(
    context: RowContext,
    measurements: Seq<UsageMeasurement>,
    names: Seq<Seq<char>>,
)
    requires
        names.len() > 0,
    ensures
        ({
            let selected = filter::rows_under(
                summary::shown_rows(context, measurements),
                names,
                MetricFilterMode::Keep,
            );
            &&& forall|i: int|
                0 <= i < measurements.len() && filter::picked(names, #[trigger] measurements[i])
                    ==> selected.contains(summary::row_of(context, measurements[i]))
            &&& forall|j: int|
                0 <= j < selected.len() ==> exists|i: int|
                    0 <= i < measurements.len() && filter::picked(names, #[trigger] measurements[i])
                        && #[trigger] selected[j] == summary::row_of(context, measurements[i])
        }),
{
    let shown = summary::shown_rows(context, measurements);
    let keep = |row: RowView| filter::shown_under(names, MetricFilterMode::Keep, row.metric);
    let selected = shown.filter(keep);
    assert forall|i: int|
        0 <= i < measurements.len() && filter::picked(
            names,
            #[trigger] measurements[i],
        ) implies selected.contains(summary::row_of(context, measurements[i])) by {
        shown_holds(context, measurements, i);
        let j = choose|j: int|
            0 <= j < shown.len() && #[trigger] shown[j] == summary::row_of(
                context,
                measurements[i],
            );
        shown.lemma_filter_contains(keep, j);
    }
    assert forall|j: int| 0 <= j < selected.len() implies exists|i: int|
        0 <= i < measurements.len() && filter::picked(names, #[trigger] measurements[i])
            && #[trigger] selected[j] == summary::row_of(context, measurements[i]) by {
        filter_comes_from(shown, keep, j);
        let k = choose|k: int| 0 <= k < shown.len() && #[trigger] shown[k] == selected[j];
        shown_comes_from(context, measurements, k);
        let i = choose|i: int|
            0 <= i < measurements.len() && !summary::hidden((#[trigger] measurements[i]).name@)
                && shown[k] == summary::row_of(context, measurements[i]);
        assert(filter::picked(names, measurements[i]));
    }
}

/// Filtering a window's measurements and then summarizing it gives the rows
/// that summarizing it and then filtering gives.
pub proof fn filtering_a_window_filters_its_rows(
    source: UsageWindow,
    names: Seq<Seq<char>>,
    result: UsageWindow,
)
    requires
        names.len() > 0,
        filter::filtered_window(source, names, result),
    ensures
        summary::window_rows(result.window, result.resets_at, result.measurements@)
            == filter::rows_under(
            summary::window_rows(source.window, source.resets_at, source.measurements@),
            names,
            MetricFilterMode::Keep,
        ),
{
    let mode = MetricFilterMode::Keep;
    let measurements = source.measurements@;
    let context = summary::context_of(source.window, source.resets_at, measurements);
    let shown = summary::shown_rows(context, measurements);
    let on_demand = summary::any_on_demand_amount(measurements);
    let rows = summary::with_state_rows(context, shown, on_demand);
    let kept = filter::rows_under(rows, names, mode);
    let selected = filter::rows_under(shown, names, mode);
    let keep = |m: UsageMeasurement| filter::survives(names, kept, measurements, m);
    let left = measurements.filter(keep);
    let after = summary::context_of(result.window, result.resets_at, left);
    assert(result.measurements@ == left);

    // The rows that stay: those of the selected measurements, then the state rows.
    let credits_row = summary::row_in(
        context,
        "credits"@,
        summary::SummaryValue::CreditsUnlimited,
        context.off,
    );
    let status_row = summary::row_in(context, "status"@, summary::SummaryValue::Disabled, false);
    let demand_row = summary::row_in(context, "on demand"@, summary::SummaryValue::Disabled, false);
    let adds_credits = context.unlimited && !summary::any_unlimited(shown);
    let with_credits = if adds_credits {
        shown.push(credits_row)
    } else {
        shown
    };
    let adds_status = context.off && !summary::any_disabled(with_credits);
    let with_status = if adds_status {
        with_credits.push(status_row)
    } else {
        with_credits
    };
    let adds_demand = context.on_demand_off && !on_demand;
    under_of_push(shown, credits_row, names);
    under_of_push(with_credits, status_row, names);
    under_of_push(with_status, demand_row, names);
    let stays_credits = adds_credits && filter::selects(names, "credits"@);
    let stays_status = adds_status && filter::selects(names, "status"@);
    let stays_demand = adds_demand && filter::selects(names, "on demand"@);
    let kept_credits = if stays_credits {
        selected.push(credits_row)
    } else {
        selected
    };
    let kept_status = if stays_status {
        kept_credits.push(status_row)
    } else {
        kept_credits
    };
    assert(kept == if stays_demand {
        kept_status.push(demand_row)
    } else {
        kept_status
    });
    filter::unlimited_of_push(selected, credits_row);
    filter::unlimited_of_push(kept_credits, status_row);
    filter::unlimited_of_push(kept_status, demand_row);
    filter::disabled_of_push(selected, credits_row);
    filter::disabled_of_push(kept_credits, status_row);
    filter::disabled_of_push(kept_status, demand_row);
    filter::stands_in_of_push(selected, credits_row, "status"@);
    filter::stands_in_of_push(kept_credits, status_row, "status"@);
    filter::stands_in_of_push(kept_status, demand_row, "status"@);
    filter::stands_in_of_push(selected, credits_row, "on demand"@);
    filter::stands_in_of_push(kept_credits, status_row, "on demand"@);
    filter::stands_in_of_push(kept_status, demand_row, "on demand"@);
    state_metrics_are_told_apart();
    selected_rows_are_of_picked(context, measurements, names);
    assert forall|j: int| 0 <= j < selected.len() implies !(
    #[trigger] selected[j].value is Disabled) by {}
    let demand_stays = filter::any_picked_on_demand(names, measurements);
    assert(summary::any_unlimited(kept) == (summary::any_unlimited(selected) || stays_credits));
    assert(filter::shows_off(kept) == (summary::any_disabled(selected) || (stays_credits
        && context.off) || stays_status));
    assert(filter::any_stands_in(kept, "on demand"@) == stays_demand);

    // The flags that stay.
    filter::flag_names_differ();
    flag_of_filter(measurements, keep, "unlimited"@, summary::any_unlimited(kept));
    flag_of_filter(measurements, keep, "enabled"@, filter::shows_off(kept));
    flag_of_filter(measurements, keep, "on_demand_enabled"@, demand_stays || stays_demand);
    assert(after.unlimited == (context.unlimited && summary::any_unlimited(kept)));
    assert(after.off == (context.off && filter::shows_off(kept)));
    assert(after.on_demand_off == (context.on_demand_off && (demand_stays || stays_demand)));

    // What the selected rows are.
    assert(context.off ==> forall|j: int|
        0 <= j < selected.len() ==> (#[trigger] selected[j]).disabled);
    assert(context.off ==> forall|j: int| 0 <= j < shown.len() ==> (#[trigger] shown[j]).disabled)
        by {
        assert forall|j: int| context.off && 0 <= j < shown.len() implies (
        #[trigger] shown[j]).disabled by {
            shown_comes_from(context, measurements, j);
        }
    }
    assert(summary::any_unlimited(selected) ==> summary::any_unlimited(shown)) by {
        let keep_row = |row: RowView| filter::shown_under(names, mode, row.metric);
        if summary::any_unlimited(selected) {
            let j = choose|j: int|
                0 <= j < selected.len() && (#[trigger] selected[j]).value is CreditsUnlimited;
            filter_comes_from(shown, keep_row, j);
        }
    }
    assert forall|i: int|
        0 <= i < measurements.len() && filter::picked(
            names,
            #[trigger] measurements[i],
        ) implies summary::row_of(after, measurements[i]) == summary::row_of(
        context,
        measurements[i],
    ) by {
        let row = summary::row_of(context, measurements[i]);
        assert(selected.contains(row));
        let j = choose|j: int| 0 <= j < selected.len() && selected[j] == row;
        if row.value is CreditsUnlimited {
            assert(selected[j].value is CreditsUnlimited);
            assert(summary::any_unlimited(selected));
        }
        if row.disabled {
            assert(selected[j].disabled);
            assert(summary::any_disabled(selected));
        }
    }
    assert forall|i: int|
        0 <= i < left.len() && !summary::hidden((#[trigger] left[i]).name@) implies summary::row_of(
        after,
        left[i],
    ) == summary::row_of(context, left[i]) by {
        filter_comes_from(measurements, keep, i);
        let k = choose|k: int| 0 <= k < measurements.len() && #[trigger] measurements[k] == left[i];
        assert(filter::picked(names, measurements[k]));
    }
    shown_in_equal_contexts(after, context, left);
    shown_of_filter(context, measurements, names, keep);
    assert(summary::shown_rows(after, left) == selected);

    // The on-demand amounts that stay.
    assert(summary::any_on_demand_amount(left) == demand_stays) by {
        if summary::any_on_demand_amount(left) {
            let j = choose|j: int|
                0 <= j < left.len() && summary::on_demand_amount(#[trigger] left[j]);
            filter_comes_from(measurements, keep, j);
            let k = choose|k: int|
                0 <= k < measurements.len() && #[trigger] measurements[k] == left[j];
            assert(filter::picked(names, measurements[k]));
        }
        if demand_stays {
            let k = choose|k: int|
                0 <= k < measurements.len() && filter::picked(names, #[trigger] measurements[k])
                    && summary::on_demand_named(measurements[k]);
            filter_holds(measurements, keep, k);
            let j = choose|j: int| 0 <= j < left.len() && #[trigger] left[j] == measurements[k];
            assert(summary::on_demand_amount(left[j]));
        }
    }
    assert(demand_stays ==> on_demand) by {
        if demand_stays {
            let k = choose|k: int|
                0 <= k < measurements.len() && filter::picked(names, #[trigger] measurements[k])
                    && summary::on_demand_named(measurements[k]);
            assert(summary::on_demand_amount(measurements[k]));
        }
    }

    // The state rows come out the same.
    assert((after.unlimited && !summary::any_unlimited(selected)) == stays_credits);
    assert(stays_credits ==> after.off == context.off);
    let again_credits = if stays_credits {
        selected.push(
            summary::row_in(
                after,
                "credits"@,
                summary::SummaryValue::CreditsUnlimited,
                after.off,
            ),
        )
    } else {
        selected
    };
    assert(again_credits == kept_credits);
    filter::disabled_of_push(shown, credits_row);
    filter::disabled_of_push(selected, credits_row);
    assert(context.off ==> (summary::any_disabled(selected) <==> selected.len() > 0)) by {
        if context.off && selected.len() > 0 {
            assert(selected[0].disabled);
        }
    }
    assert(context.off ==> (summary::any_disabled(shown) <==> shown.len() > 0)) by {
        if context.off && shown.len() > 0 {
            assert(shown[0].disabled);
        }
    }
    assert(selected.len() <= shown.len()) by {
        shown.lemma_filter_len(|row: RowView| filter::shown_under(names, mode, row.metric));
    }
    assert((after.off && !summary::any_disabled(kept_credits)) == stays_status);
    assert((after.on_demand_off && !summary::any_on_demand_amount(left)) == stays_demand);
}

proof fn state_metrics_are_told_apart()
    ensures
        "on demand"@ != "status"@,
{
    reveal_strlit("on demand");
    reveal_strlit("status");
    assert("on demand"@.len() == 9);
    assert("status"@.len() == 6);
}

proof fn filtering_windows_filters_rows(
    source: Seq<UsageWindow>,
    names: Seq<Seq<char>>,
    result: Seq<UsageWindow>,
)
    requires
        names.len() > 0,
        source.len() == result.len(),
        forall|i: int|
            0 <= i < result.len() ==> filter::filtered_window(
                source[i],
                names,
                #[trigger] result[i],
            ),
    ensures
        summary::report_rows(result) == filter::rows_under(
            summary::report_rows(source),
            names,
            MetricFilterMode::Keep,
        ),
    decreases source.len(),
{
    let keep = |row: RowView| filter::shown_under(names, MetricFilterMode::Keep, row.metric);
    if source.len() == 0 {
        reveal(Seq::filter);
    } else {
        let place = source.len() - 1;
        assert forall|i: int| 0 <= i < result.drop_last().len() implies filter::filtered_window(
            source.drop_last()[i],
            names,
            #[trigger] result.drop_last()[i],
        ) by {
            assert(result.drop_last()[i] == result[i]);
        }
        filtering_windows_filters_rows(source.drop_last(), names, result.drop_last());
        assert(filter::filtered_window(source[place], names, result[place]));
        filtering_a_window_filters_its_rows(source[place], names, result[place]);
        let last = source.last();
        Seq::filter_distributes_over_add(
            summary::report_rows(source.drop_last()),
            summary::window_rows(last.window, last.resets_at, last.measurements@),
            keep,
        );
    }
}

/// Filtering the measurements of a report and then summarizing it gives the
/// rows that the filtered summary has.
pub proof fn filtering_measurements_filters_rows(
    source: SubscriptionUsage,
    names: Seq<Seq<char>>,
    result: SubscriptionUsage,
)
    requires
        names.len() > 0,
        filter::filtered_report(source, names, result),
    ensures
        summary::report_rows(result.windows@) == filter::rows_under(
            summary::report_rows(source.windows@),
            names,
            MetricFilterMode::Keep,
        ),
{
    filtering_windows_filters_rows(source.windows@, names, result.windows@);
}

/// A row that says that something is switched off: it is marked so, or it is
/// there to say nothing else.
pub open spec fn says_off(row: RowView) -> bool {
    row.disabled || row.value is Disabled
}

proof fn on_demand_names_read_so(name: Seq<char>)
    requires
        text::has_prefix(name, "on_demand"@),
    ensures
        text::has_prefix(summary::display_name(name), "on demand"@),
{
    reveal_strlit("on_demand");
    reveal_strlit("on demand");
    reveal_strlit("included_usage");
    reveal_strlit("total");
    reveal_strlit("weekly_pool");
    reveal_strlit("product:");
    reveal_strlit("_usage");
    reveal_strlit("-Codex-Spark");
    reveal_strlit("codex");
    let start = "on_demand"@;
    assert forall|i: int| 0 <= i < 9 implies #[trigger] name[i] == start[i] by {
        assert(name.take(9)[i] == name[i]);
    }
    assert(!text::has_prefix(name, "product:"@)) by {
        if text::has_prefix(name, "product:"@) {
            assert(name.take(8)[0] == name[0]);
        }
    }
    let counted = text::without_suffix(name, "_usage"@);
    assert(counted.len() >= 9) by {
        if text::has_suffix(name, "_usage"@) && name.len() < 15 {
            let from = name.len() - 6;
            assert(name.skip(from)[0] == name[from]);
            assert(name.skip(from)[1] == name[from + 1]);
        }
    }
    let bare = text::without_suffix(counted, "-Codex-Spark"@);
    assert(bare.len() >= 9) by {
        if text::has_suffix(counted, "-Codex-Spark"@) && counted.len() < 21 {
            let from = counted.len() - 12;
            assert(counted.skip(from)[0] == counted[from]);
            assert(counted[from] == name[from]);
            assert(name[from] == start[from]);
        }
    }
    assert(bare == summary::bare_name(name));
    assert(bare[0] == name[0]);
    let shown = summary::display_name(name);
    assert(shown.take(9) =~= "on demand"@) by {
        assert forall|i: int| 0 <= i < 9 implies shown[i] == "on demand"@[i] by {
            assert(bare[i] == name[i]);
            assert(name[i] == start[i]);
        }
    }
}

/// A hidden status measurement never hides the state it reports. Unmetered
/// credits and a window that is switched off each show on a row of the window,
/// and on-demand usage that is switched off shows on a row of its own kind, whose
/// metric starts with `on demand`.
pub proof fn hidden_states_show_on_a_row(
    window: UsageWindowKind,
    resets_at: Option<Timestamp>,
    measurements: Seq<UsageMeasurement>,
)
    ensures
        summary::flag(measurements, "unlimited"@) == Some(true) ==> summary::any_unlimited(
            summary::window_rows(window, resets_at, measurements),
        ),
        summary::flag(measurements, "enabled"@) == Some(false) ==> exists|i: int|
            0 <= i < summary::window_rows(window, resets_at, measurements).len() && says_off(
                #[trigger] summary::window_rows(window, resets_at, measurements)[i],
            ),
        summary::flag(measurements, "on_demand_enabled"@) == Some(false) ==> exists|i: int|
            0 <= i < summary::window_rows(window, resets_at, measurements).len() && says_off(
                #[trigger] summary::window_rows(window, resets_at, measurements)[i],
            ) && text::has_prefix(
                summary::window_rows(window, resets_at, measurements)[i].metric,
                "on demand"@,
            ),
{
    let context = summary::context_of(window, resets_at, measurements);
    let shown = summary::shown_rows(context, measurements);
    let amount = summary::any_on_demand_amount(measurements);
    let rows = summary::window_rows(window, resets_at, measurements);
    assert(forall|i: int| 0 <= i < shown.len() ==> #[trigger] shown[i] == rows[i]);
    let credits = if context.unlimited && !summary::any_unlimited(shown) {
        shown.push(
            summary::row_in(
                context,
                "credits"@,
                SummaryValue::CreditsUnlimited,
                context.off,
            ),
        )
    } else {
        shown
    };
    assert(forall|i: int| 0 <= i < credits.len() ==> #[trigger] credits[i] == rows[i]);
    if context.unlimited {
        let place = if summary::any_unlimited(shown) {
            choose|i: int| 0 <= i < shown.len() && (#[trigger] shown[i]).value is CreditsUnlimited
        } else {
            shown.len() as int
        };
        assert(credits[place].value is CreditsUnlimited);
        assert(rows[place].value is CreditsUnlimited);
    }
    if context.off {
        let place = if summary::any_disabled(credits) {
            choose|i: int| 0 <= i < credits.len() && (#[trigger] credits[i]).disabled
        } else {
            credits.len() as int
        };
        assert(says_off(rows[place]));
    }
    if context.on_demand_off {
        if amount {
            let place = choose|i: int|
                0 <= i < measurements.len() && summary::on_demand_amount(
                    #[trigger] measurements[i],
                );
            shown_holds(context, measurements, place);
            let row = summary::row_of(context, measurements[place]);
            let seat = choose|i: int| 0 <= i < shown.len() && #[trigger] shown[i] == row;
            on_demand_names_read_so(measurements[place].name@);
            assert(says_off(rows[seat]));
        } else {
            let seat = rows.len() - 1;
            assert("on demand"@.take("on demand"@.len() as int) =~= "on demand"@);
            assert(says_off(rows[seat]));
        }
    }
}

/// A filter without names leaves every row, whichever way it is read.
pub proof fn an_inactive_filter_shows_every_row(rows: Seq<RowView>, mode: MetricFilterMode)
    ensures
        filter::rows_under(rows, Seq::empty(), mode) == rows,
    decreases rows.len(),
{
    reveal(Seq::filter);
    if rows.len() > 0 {
        an_inactive_filter_shows_every_row(rows.drop_last(), mode);
        assert(rows.drop_last().push(rows.last()) =~= rows);
    }
}

/// A filter with names splits the rows: each one is shown when the names are
/// the ones to keep or when they are the ones to hide, and never both ways.
pub proof fn every_row_is_kept_or_hidden(rows: Seq<RowView>, names: Seq<Seq<char>>)
    requires
        names.len() > 0,
    ensures
        forall|i: int|
            0 <= i < rows.len() ==> (filter::shown_under(
                names,
                MetricFilterMode::Keep,
                (#[trigger] rows[i]).metric,
            ) <==> !filter::shown_under(names, MetricFilterMode::Hide, rows[i].metric)),
        filter::rows_under(rows, names, MetricFilterMode::Keep).len() + filter::rows_under(
            rows,
            names,
            MetricFilterMode::Hide,
        ).len() == rows.len(),
    decreases rows.len(),
{
    reveal(Seq::filter);
    if rows.len() > 0 {
        every_row_is_kept_or_hidden(rows.drop_last(), names);
    }
}

/// Reports that hold the same data have the same rows and the same limit state.
pub proof fn equal_reports_have_equal_summaries(left: Seq<UsageWindow>, right: Seq<UsageWindow>)
    requires
        left.len() == right.len(),
        forall|i: int|
            0 <= i < left.len() ==> crate::usage::same_window(#[trigger] left[i], right[i]),
    ensures
        summary::report_rows(left) == summary::report_rows(right),
        summary::any_limit_hit(left) == summary::any_limit_hit(right),
    decreases left.len(),
{
    if left.len() > 0 {
        assert forall|i: int| 0 <= i < left.drop_last().len() implies crate::usage::same_window(
            #[trigger] left.drop_last()[i],
            right.drop_last()[i],
        ) by {
            assert(crate::usage::same_window(left[i], right[i]));
        }
        equal_reports_have_equal_summaries(left.drop_last(), right.drop_last());
        assert(crate::usage::same_window(left[left.len() - 1], right[right.len() - 1]));
    }
    if summary::any_limit_hit(left) {
        let i = choose|i: int|
            0 <= i < left.len() && summary::hit_its_limit((#[trigger] left[i]).measurements@);
        assert(crate::usage::same_window(left[i], right[i]));
        assert(summary::hit_its_limit(right[i].measurements@));
    }
    if summary::any_limit_hit(right) {
        let i = choose|i: int|
            0 <= i < right.len() && summary::hit_its_limit((#[trigger] right[i]).measurements@);
        assert(crate::usage::same_window(left[i], right[i]));
        assert(summary::hit_its_limit(left[i].measurements@));
    }
}

/// A reached limit is never filtered away, and none appears.
pub proof fn filtering_keeps_the_limit_state(
    source: SubscriptionUsage,
    names: Seq<Seq<char>>,
    result: SubscriptionUsage,
)
    requires
        names.len() > 0,
        filter::filtered_report(source, names, result),
    ensures
        summary::any_limit_hit(result.windows@) == summary::any_limit_hit(source.windows@),
{
    assert forall|i: int| 0 <= i < source.windows@.len() implies summary::hit_its_limit(
        (#[trigger] result.windows@[i]).measurements@,
    ) == summary::hit_its_limit(source.windows@[i].measurements@) by {
        let window = source.windows@[i];
        assert(filter::filtered_window(window, names, result.windows@[i]));
        let kept = filter::rows_under(
            summary::window_rows(window.window, window.resets_at, window.measurements@),
            names,
            MetricFilterMode::Keep,
        );
        let keep = |m: UsageMeasurement| filter::survives(names, kept, window.measurements@, m);
        flag_of_filter(window.measurements@, keep, "allowed"@, true);
        flag_of_filter(window.measurements@, keep, "limit_reached"@, true);
    }
    if summary::any_limit_hit(source.windows@) {
        let i = choose|i: int|
            0 <= i < source.windows@.len() && summary::hit_its_limit(
                (#[trigger] source.windows@[i]).measurements@,
            );
        assert(summary::hit_its_limit(result.windows@[i].measurements@));
    }
    if summary::any_limit_hit(result.windows@) {
        let i = choose|i: int|
            0 <= i < result.windows@.len() && summary::hit_its_limit(
                (#[trigger] result.windows@[i]).measurements@,
            );
        assert(summary::hit_its_limit(source.windows@[i].measurements@));
    }
}

/// The names a filter ends up with are trimmed, not empty, not too long, safe
/// to display and different from each other in more than case.
pub proof fn accepted_names_are_valid(names: Seq<Seq<char>>)
    requires
        names.len() <= filter::MAX_METRIC_NAMES,
        filter::first_problem(names) is None,
    ensures
        filter::valid_names(filter::normalized(names)),
        filter::normalized(names).len() <= names.len(),
    decreases names.len(),
{
    if names.len() > 0 {
        accepted_names_are_valid(names.drop_last());
        let before = filter::normalized(names.drop_last());
        let name = crate::text::trimmed(names.last());
        crate::text::trimming_twice_changes_nothing(names.last());
        assert(filter::name_problem(names.last()) is None);
        assert(filter::name_problem(name) is None);
        if !filter::listed(before, name) {
            let after = before.push(name);
            assert forall|i: int| 0 <= i < after.len() implies filter::name_problem(
                #[trigger] after[i],
            ) is None && crate::text::trimmed(after[i]) == after[i] by {
                if i < before.len() {
                    assert(after[i] == before[i]);
                }
            }
            assert forall|i: int, j: int|
                0 <= i < j < after.len() implies !crate::text::equal_ignoring_case(
                #[trigger] after[i],
                #[trigger] after[j],
            ) by {
                assert(after[i] == before[i]);
                if j < before.len() {
                    assert(after[j] == before[j]);
                }
            }
        }
    }
}

/// Making a filter out of the names of a filter gives those names again.
pub proof fn valid_names_are_accepted_unchanged(names: Seq<Seq<char>>)
    requires
        filter::valid_names(names),
    ensures
        filter::first_problem(names) is None,
        filter::normalized(names) == names,
    decreases names.len(),
{
    if names.len() > 0 {
        let before = names.drop_last();
        assert forall|i: int| 0 <= i < before.len() implies filter::name_problem(
            #[trigger] before[i],
        ) is None && crate::text::trimmed(before[i]) == before[i] by {
            assert(before[i] == names[i]);
        }
        assert forall|i: int, j: int|
            0 <= i < j < before.len() implies !crate::text::equal_ignoring_case(
            #[trigger] before[i],
            #[trigger] before[j],
        ) by {
            assert(before[i] == names[i] && before[j] == names[j]);
        }
        valid_names_are_accepted_unchanged(before);
        let last = names.last();
        assert(names[names.len() - 1] == last);
        assert(!filter::listed(before, last)) by {
            assert forall|i: int|
                0 <= i < before.len() implies !crate::text::equal_ignoring_case(
                #[trigger] before[i],
                last,
            ) by {
                assert(before[i] == names[i]);
            }
        }
        assert(before.push(last) =~= names);
    }
}

} // verus!
