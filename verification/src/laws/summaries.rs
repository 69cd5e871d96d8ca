//! What the rows of a summary say of the report they are made from.

use vstd::prelude::*;

use crate::identity;
use crate::laws::texts;
use crate::summary;
use crate::summary::filter;
use crate::summary::filter::{MetricFilter, MetricFilterError, MetricFilterMode};
use crate::summary::{Currency, RemainingRatio, RowContext, RowView, SummaryValue};
use crate::text;
use crate::usage::{
    MeasurementUnit, SubscriptionUsage, Timestamp, UsageMeasurement, UsageWindow, UsageWindowKind,
};

verus! {

/// Every row of a window names that window: `5h` for five hours, `weekly` for a
/// week and `monthly` for a month, and tells the window's own reset time.
pub proof fn rows_name_their_window(
    window: UsageWindowKind,
    resets_at: Option<Timestamp>,
    measurements: Seq<UsageMeasurement>,
)
    ensures
        window is FiveHours ==> summary::window_name(window) == "5h"@,
        window is Weekly ==> summary::window_name(window) == "weekly"@,
        window is Monthly ==> summary::window_name(window) == "monthly"@,
        forall|i: int|
            #![trigger summary::window_rows(window, resets_at, measurements)[i]]
            0 <= i < summary::window_rows(window, resets_at, measurements).len() ==> {
                let row = summary::window_rows(window, resets_at, measurements)[i];
                &&& row.window == summary::window_name(window)
                &&& window is FiveHours ==> row.window == "5h"@
                &&& window is Weekly ==> row.window == "weekly"@
                &&& window is Monthly ==> row.window == "monthly"@
                &&& row.resets_at == resets_at
            },
{
    let context = summary::context_of(window, resets_at, measurements);
    shown_rows_stand_in_their_window(context, measurements);
    let rows = summary::window_rows(window, resets_at, measurements);
    assert forall|i: int| 0 <= i < rows.len() implies (#[trigger] rows[i]).window
        == context.window && rows[i].resets_at == resets_at by {
        let shown = summary::shown_rows(context, measurements);
        if i < shown.len() {
            assert(rows[i] == shown[i]);
        }
    }
}

proof fn shown_rows_stand_in_their_window(
    context: RowContext,
    measurements: Seq<UsageMeasurement>,
)
    ensures
        forall|i: int|
            0 <= i < summary::shown_rows(context, measurements).len() ==> (
            #[trigger] summary::shown_rows(context, measurements)[i]).window == context.window
                && summary::shown_rows(context, measurements)[i].resets_at == context.resets_at,
    decreases measurements.len(),
{
    if measurements.len() > 0 {
        shown_rows_stand_in_their_window(context, measurements.drop_last());
    }
}

/// The five-hour, the weekly and the monthly window have three different names.
pub proof fn window_names_tell_windows_apart(left: UsageWindowKind, right: UsageWindowKind)
    requires
        !(left is Other),
        !(right is Other),
    ensures
        summary::window_name(left) == summary::window_name(right) <==> left == right,
{
    reveal_strlit("5h");
    reveal_strlit("weekly");
    reveal_strlit("monthly");
    assert("5h"@.len() == 2 && "weekly"@.len() == 6 && "monthly"@.len() == 7);
}

/// An ASCII letter or digit.
pub open spec fn letter_or_digit(character: char) -> bool {
    'a' <= character <= 'z' || 'A' <= character <= 'Z' || '0' <= character <= '9'
}

/// A word made of letters and digits.
pub open spec fn plain_word(word: Seq<char>) -> bool {
    forall|i: int| 0 <= i < word.len() ==> letter_or_digit(#[trigger] word[i])
}

/// The word stands at that place by itself, in any case: no letter or digit next
/// to it.
pub open spec fn stands_alone(value: Seq<char>, from: int, word: Seq<char>) -> bool {
    &&& 0 <= from <= value.len() - word.len()
    &&& texts::same_word(value.subrange(from, from + word.len()), word)
    &&& from == 0 || !letter_or_digit(value[from - 1])
    &&& from + word.len() == value.len() || !letter_or_digit(value[from + word.len()])
}

/// A word is a token of a text exactly when it stands alone somewhere in it.
pub proof fn tokens_stand_alone(word: Seq<char>, value: Seq<char>)
    requires
        plain_word(word),
    ensures
        summary::has_token(word, value) <==> exists|from: int| #[trigger]
            stands_alone(value, from, word),
{
    assert forall|c: char| text::ascii_alphanumeric(c) == #[trigger] letter_or_digit(c) by {}
    if summary::has_token(word, value) {
        let (from, to) = choose|from: int, to: int| #[trigger]
            summary::token_matches(word, value, from, to);
        texts::case_alone_is_ignored(value.subrange(from, to), word);
        assert(to == from + word.len());
        if from > 0 {
            assert(text::ascii_alphanumeric(value[from - 1]) == letter_or_digit(value[from - 1]));
        }
        if to < value.len() {
            assert(text::ascii_alphanumeric(value[to]) == letter_or_digit(value[to]));
        }
        assert(stands_alone(value, from, word));
    }
    if exists|from: int| #[trigger] stands_alone(value, from, word) {
        let from = choose|from: int| #[trigger] stands_alone(value, from, word);
        let to = from + word.len();
        let part = value.subrange(from, to);
        texts::case_alone_is_ignored(part, word);
        assert forall|i: int| from <= i < to implies text::ascii_alphanumeric(
            #[trigger] value[i],
        ) by {
            assert(part[i - from] == value[i]);
            assert(texts::same_letter(part[i - from], word[i - from]));
            assert(letter_or_digit(word[i - from]));
            assert(letter_or_digit(value[i]));
        }
        if from > 0 {
            assert(text::ascii_alphanumeric(value[from - 1]) == letter_or_digit(value[from - 1]));
        }
        if to < value.len() {
            assert(text::ascii_alphanumeric(value[to]) == letter_or_digit(value[to]));
        }
        assert(summary::token_matches(word, value, from, to));
    }
}

/// Another window is named by its label, and by its id where the label is blank,
/// but for two that have short names: one with the word `fable` in its id or
/// label, and that of the credits for resetting a rate limit.
pub proof fn other_windows_have_their_label_for_name(id: String, label: String)
    ensures
        ({
            let name = summary::window_name(UsageWindowKind::Other { id, label });
            let fabled = (exists|from: int| #[trigger] stands_alone(id@, from, "fable"@)) || (
            exists|from: int| #[trigger] stands_alone(label@, from, "fable"@));
            let resets = id@ == "rate_limit_reset_credits"@ || texts::same_word(
                label@,
                "Rate limit reset credits"@,
            );
            &&& fabled ==> name == "fable"@
            &&& !fabled && resets ==> name == "Resets"@
            &&& !fabled && !resets && !texts::blank(label@) ==> name == label@
            &&& !fabled && !resets && texts::blank(label@) ==> name == id@
        }),
{
    reveal_strlit("fable");
    tokens_stand_alone("fable"@, id@);
    tokens_stand_alone("fable"@, label@);
    texts::case_alone_is_ignored(label@, "Rate limit reset credits"@);
    let ends = texts::trimming_cuts_the_white_ends(label@);
    let inner = text::trimmed(label@);
    if inner.len() == 0 {
        assert(label@ =~= ends.0 + ends.1);
        assert forall|i: int| 0 <= i < label@.len() implies text::white_space(
            #[trigger] label@[i],
        ) by {
            if i < ends.0.len() {
                assert(label@[i] == ends.0[i]);
            } else {
                assert(label@[i] == ends.1[i - ends.0.len()]);
            }
        }
    } else {
        assert(label@[ends.0.len() as int] == inner[0]);
    }
}

/// A measurement that only tells a state of its window: it has no row of its own.
pub open spec fn tells_a_state(name: Seq<char>) -> bool {
    seq![
        "allowed"@,
        "limit_reached"@,
        "has_credits"@,
        "unlimited"@,
        "on_demand_enabled"@,
        "enabled"@,
        "included_spend"@,
        "bonus_spend"@,
    ].contains(name)
}

proof fn states_are_hidden(name: Seq<char>)
    ensures
        summary::hidden(name) == tells_a_state(name),
{
    let names = seq![
        "allowed"@,
        "limit_reached"@,
        "has_credits"@,
        "unlimited"@,
        "on_demand_enabled"@,
        "enabled"@,
        "included_spend"@,
        "bonus_spend"@,
    ];
    assert(names[0] == "allowed"@ && names[1] == "limit_reached"@ && names[2] == "has_credits"@
        && names[3] == "unlimited"@ && names[4] == "on_demand_enabled"@ && names[5] == "enabled"@
        && names[6] == "included_spend"@ && names[7] == "bonus_spend"@);
    if tells_a_state(name) {
        let i = choose|i: int| 0 <= i < names.len() && names[i] == name;
        assert(0 <= i < 8);
    }
}

/// The part of a metric's name that counts stands in its display name with blanks
/// for underscores; what says only that it is a product, usage or the fast model
/// is left out.
pub proof fn display_names_drop_decoration(name: Seq<char>)
    requires
        name.len() > 0,
        name != "included_usage"@,
        name != "total"@,
        name != "weekly_pool"@,
        name != "codex"@,
        !text::has_prefix(name, "product:"@),
        !text::has_suffix(name, "_usage"@),
        !text::has_suffix(name, "-Codex-Spark"@),
    ensures
        summary::display_name(name).len() == name.len(),
        forall|i: int|
            0 <= i < name.len() ==> #[trigger] summary::display_name(name)[i] == (if name[i]
                == '_' {
                ' '
            } else {
                name[i]
            }),
        summary::display_name("product:"@ + name) == summary::display_name(name),
        name != "included"@ ==> summary::display_name(name + "_usage"@) == summary::display_name(
            name,
        ),
        summary::display_name(name + "-Codex-Spark"@) == summary::display_name(name),
{
    reveal_strlit("product:");
    reveal_strlit("_usage");
    reveal_strlit("-Codex-Spark");
    reveal_strlit("included_usage");
    reveal_strlit("included");
    reveal_strlit("total");
    reveal_strlit("weekly_pool");
    reveal_strlit("codex");
    let product = "product:"@ + name;
    let usage = name + "_usage"@;
    let spark = name + "-Codex-Spark"@;
    texts::prefixes_and_suffixes_come_off(product, "product:"@, name);
    texts::prefixes_and_suffixes_come_off(usage, "_usage"@, name);
    texts::prefixes_and_suffixes_come_off(spark, "-Codex-Spark"@, name);
    assert(summary::bare_name(name) == name);
    assert(product[7] == ':' && product[0] == 'p');
    assert(product != "included_usage"@) by {
        assert("included_usage"@[0] == 'i');
    }
    assert(product != "total"@) by {
        assert("total"@[0] == 't');
    }
    assert(product != "weekly_pool"@) by {
        assert("weekly_pool"@[0] == 'w');
    }
    assert(summary::bare_name(product) == name);
    assert(!text::has_prefix(usage, "product:"@)) by {
        if text::has_prefix(usage, "product:"@) {
            let start = usage.take(8);
            assert(start == "product:"@);
            assert(start[7] == ':');
            assert(usage[7] == ':');
            if name.len() >= 8 {
                assert(name.take(8) =~= "product:"@);
            } else {
                assert(usage[7] == "_usage"@[7 - name.len()]);
            }
        }
    }
    assert(usage.last() == 'e');
    assert(spark.last() == 'k');
    assert(usage != "total"@) by {
        assert("total"@.last() == 'l');
    }
    assert(usage != "weekly_pool"@) by {
        assert("weekly_pool"@.last() == 'l');
    }
    if usage == "included_usage"@ {
        assert(usage.len() == 14 && name.len() == 8);
        assert(name =~= usage.take(8));
        assert(name =~= "included"@);
    }
    assert(!text::has_prefix(spark, "product:"@)) by {
        if text::has_prefix(spark, "product:"@) {
            let start = spark.take(8);
            assert(start == "product:"@);
            assert(start[7] == ':');
            assert(spark[7] == ':');
            if name.len() >= 8 {
                assert(name.take(8) =~= "product:"@);
            } else {
                assert(spark[7] == "-Codex-Spark"@[7 - name.len()]);
            }
        }
    }
    assert(!text::has_suffix(spark, "_usage"@)) by {
        if text::has_suffix(spark, "_usage"@) {
            let end = spark.skip(spark.len() - 6);
            assert(end == "_usage"@);
            assert(end[5] == 'e');
            assert(spark[spark.len() - 1] == end[5]);
        }
    }
    assert(spark != "total"@) by {
        assert("total"@.last() == 'l');
    }
    assert(spark != "weekly_pool"@) by {
        assert("weekly_pool"@.last() == 'l');
    }
    assert(spark != "included_usage"@) by {
        assert("included_usage"@.last() == 'e');
    }
    assert(summary::bare_name(usage) == name);
    assert(summary::bare_name(spark) == name);
}

/// The shared pools are all called `usage`, and so is a name that is decoration
/// alone.
pub proof fn pools_are_called_usage(name: Seq<char>)
    ensures
        name == "included_usage"@ || name == "total"@ || name == "weekly_pool"@ || name
            == "product:"@ || name == "_usage"@ || name.len() == 0 ==> summary::display_name(name)
            == "usage"@,
        name == "codex"@ ==> summary::display_name(name) == "Codex"@,
{
    reveal_strlit("product:");
    reveal_strlit("_usage");
    reveal_strlit("-Codex-Spark");
    reveal_strlit("included_usage");
    reveal_strlit("total");
    reveal_strlit("weekly_pool");
    reveal_strlit("codex");
    let empty = Seq::<char>::empty();
    if name == "product:"@ {
        assert(name =~= "product:"@ + empty);
        texts::prefixes_and_suffixes_come_off(name, "product:"@, empty);
        assert(summary::bare_name(name) == empty);
    }
    if name == "_usage"@ {
        assert(name =~= empty + "_usage"@);
        texts::prefixes_and_suffixes_come_off(name, "_usage"@, empty);
        assert(!text::has_prefix(name, "product:"@));
        assert(summary::bare_name(name) == empty);
    }
    if name.len() == 0 {
        assert(summary::bare_name(name).len() == 0);
    }
    if name == "codex"@ {
        assert(!text::has_prefix(name, "product:"@));
        assert(!text::has_suffix(name, "_usage"@));
        assert(!text::has_suffix(name, "-Codex-Spark"@));
        assert(summary::bare_name(name) == name);
        assert(name != "total"@) by {
            assert("total"@[0] == 't' && name[0] == 'c');
        }
        assert(name != "included_usage"@ && name != "weekly_pool"@) by {
            assert(name.len() == 5);
        }
    }
}

/// A flag is read off the first measurement of its name: it is unset where that
/// measures nothing, set where it measures anything else, and unknown where there
/// is no measurement of that name.
pub proof fn flags_are_read_off_their_measurement(
    measurements: Seq<UsageMeasurement>,
    name: Seq<char>,
    place: int,
)
    ensures
        (forall|i: int| 0 <= i < measurements.len() ==> (#[trigger] measurements[i]).name@ != name)
            ==> summary::flag(measurements, name) is None,
        0 <= place < measurements.len() && measurements[place].name@ == name && (forall|i: int|
            0 <= i < place ==> (#[trigger] measurements[i]).name@ != name) ==> summary::flag(
            measurements,
            name,
        ) == Some(
            measurements[place].used.bits != 0 && measurements[place].used.bits
                != 0x8000000000000000u64,
        ),
    decreases measurements.len(),
{
    if measurements.len() > 0 {
        let before = measurements.drop_last();
        flags_are_read_off_their_measurement(before, name, place);
        assert forall|i: int| 0 <= i < before.len() implies before[i] == #[trigger] measurements[i] by {}
        if 0 <= place < before.len() {
            assert(before[place] == measurements[place]);
        }
    }
}

/// What a measurement says: a percentage of a hundred says what remains, any other
/// what is used; money says what was spent where it has a limit and the balance
/// where it has none; credits and all else are counted with their limit, and
/// credits without end say only that.
pub proof fn values_say_what_was_measured(measurement: UsageMeasurement, unlimited: bool)
    ensures
        ({
            let value = summary::value_of(measurement, unlimited);
            let used = measurement.used;
            let limit = measurement.limit;
            match measurement.unit {
                MeasurementUnit::Percent => if limit is Some && limit->0.bits
                    == 0x4059000000000000u64 {
                    value == (SummaryValue::Remains { used })
                } else {
                    value == (SummaryValue::Used { used })
                },
                MeasurementUnit::Currency { code } => if limit is Some {
                    value == (SummaryValue::Spent {
                        amount: used,
                        limit: limit->0,
                        currency: Currency { code },
                    })
                } else {
                    value == (SummaryValue::Balance { amount: used, currency: Currency { code } })
                },
                MeasurementUnit::Credits => if unlimited {
                    value is CreditsUnlimited
                } else {
                    value == (SummaryValue::Credits { used, limit })
                },
                MeasurementUnit::Requests => value == (SummaryValue::Counted { used, limit }),
                MeasurementUnit::Tokens => value == (SummaryValue::Counted { used, limit }),
                MeasurementUnit::Other { .. } => value == (SummaryValue::Counted { used, limit }),
            }
        }),
        ({
            let ratio = summary::ratio_of(summary::value_of(measurement, unlimited));
            &&& ratio matches Some(RemainingRatio::OfHundred { used }) ==> measurement.unit
                is Percent && used == measurement.used && measurement.limit is Some
                && measurement.limit->0.bits == 0x4059000000000000u64
            &&& ratio matches Some(RemainingRatio::OfLimit { used, limit }) ==> used
                == measurement.used && measurement.limit == Some(limit) && 1 <= limit.bits
                <= 0x7ff0000000000000u64 && !(measurement.unit is Percent) && !(
            measurement.unit is Currency) && !(measurement.unit is Credits && unlimited)
            &&& ratio is None ==> match measurement.unit {
                MeasurementUnit::Percent => measurement.limit is None || measurement.limit->0.bits
                    != 0x4059000000000000u64,
                MeasurementUnit::Currency { .. } => true,
                _ => (measurement.unit is Credits && unlimited) || measurement.limit is None || !(1
                    <= measurement.limit->0.bits <= 0x7ff0000000000000u64),
            }
        }),
{
}

/// Measurements make their rows one by one, in their order: those that only tell
/// a state make none, and each other makes one row that names it, says what it
/// measured and is off where its window is, or where it is on demand and that is.
pub proof fn measurements_make_their_rows(
    context: RowContext,
    first: Seq<UsageMeasurement>,
    second: Seq<UsageMeasurement>,
    only: UsageMeasurement,
)
    ensures
        summary::shown_rows(context, first + second) == summary::shown_rows(context, first)
            + summary::shown_rows(context, second),
        tells_a_state(only.name@) ==> summary::shown_rows(context, seq![only]).len() == 0,
        !tells_a_state(only.name@) ==> summary::shown_rows(context, seq![only]) == seq![
            RowView {
                window: context.window,
                metric: summary::display_name(only.name@),
                value: summary::value_of(only, context.unlimited),
                resets_at: context.resets_at,
                remaining_ratio: summary::ratio_of(summary::value_of(only, context.unlimited)),
                disabled: context.off || context.on_demand_off && text::has_prefix(
                    only.name@,
                    "on_demand"@,
                ),
            },
        ],
    decreases second.len(),
{
    states_are_hidden(only.name@);
    let one = seq![only];
    assert(one.drop_last() =~= Seq::<UsageMeasurement>::empty());
    assert(summary::shown_rows(context, one.drop_last()) =~= Seq::<RowView>::empty());
    let whole = first + second;
    if second.len() > 0 {
        measurements_make_their_rows(context, first, second.drop_last(), only);
        assert(whole.drop_last() =~= first + second.drop_last());
        assert(whole.last() == second.last());
        assert(summary::shown_rows(context, whole) =~= summary::shown_rows(context, first)
            + summary::shown_rows(context, second));
    } else {
        assert(whole =~= first);
        assert(summary::shown_rows(context, second) =~= Seq::<RowView>::empty());
        assert(summary::shown_rows(context, whole) =~= summary::shown_rows(context, first)
            + summary::shown_rows(context, second));
    }
}

/// A window's rows are those of its measurements, under the states that its flags
/// tell; only a state that none of those rows shows adds a row, which says that
/// state: unlimited credits, the status, or on-demand use that is off.
pub proof fn states_add_rows_only_where_none_shows_them(
    window: UsageWindowKind,
    resets_at: Option<Timestamp>,
    measurements: Seq<UsageMeasurement>,
)
    ensures
        ({
            let unlimited = summary::flag(measurements, "unlimited"@) == Some(true);
            let off = summary::flag(measurements, "enabled"@) == Some(false);
            let on_demand_off = summary::flag(measurements, "on_demand_enabled"@) == Some(false);
            let shown = summary::shown_rows(
                (RowContext {
                    window: summary::window_name(window),
                    resets_at,
                    unlimited,
                    off,
                    on_demand_off,
                }),
                measurements,
            );
            let rows = summary::window_rows(window, resets_at, measurements);
            &&& shown.len() <= rows.len() <= shown.len() + 3
            &&& rows.take(shown.len() as int) == shown
            &&& !unlimited && !off && !on_demand_off ==> rows == shown
            &&& forall|i: int|
                #![trigger rows[i]]
                shown.len() <= i < rows.len() ==> {
                    let row = rows[i];
                    ||| row.metric == "credits"@ && row.value is CreditsUnlimited && unlimited
                        && row.disabled == off && forall|j: int|
                        0 <= j < shown.len() ==> !((#[trigger] shown[j]).value is CreditsUnlimited)
                    ||| row.metric == "status"@ && row.value is Disabled && off && !row.disabled
                        && forall|j: int| 0 <= j < shown.len() ==> !(#[trigger] shown[j]).disabled
                    ||| row.metric == "on demand"@ && row.value is Disabled && on_demand_off
                        && !row.disabled && forall|j: int|
                        0 <= j < measurements.len() && text::has_prefix(
                            (#[trigger] measurements[j]).name@,
                            "on_demand"@,
                        ) ==> tells_a_state(measurements[j].name@)
                }
        }),
{
    let context = summary::context_of(window, resets_at, measurements);
    let shown = summary::shown_rows(context, measurements);
    let rows = summary::window_rows(window, resets_at, measurements);
    assert(rows.take(shown.len() as int) =~= shown);
    assert forall|j: int| 0 <= j < measurements.len() implies summary::hidden(
        (#[trigger] measurements[j]).name@,
    ) == tells_a_state(measurements[j].name@) by {
        states_are_hidden(measurements[j].name@);
    }
    if !summary::any_on_demand_amount(measurements) {
        assert forall|j: int|
            0 <= j < measurements.len() && text::has_prefix(
                (#[trigger] measurements[j]).name@,
                "on_demand"@,
            ) implies tells_a_state(measurements[j].name@) by {
            assert(!summary::on_demand_amount(measurements[j]));
        }
    }
    let credits = if context.unlimited && !summary::any_unlimited(shown) {
        shown.push(
            summary::row_in(context, "credits"@, SummaryValue::CreditsUnlimited, context.off),
        )
    } else {
        shown
    };
    if !summary::any_disabled(credits) {
        assert forall|j: int| 0 <= j < shown.len() implies !(#[trigger] shown[j]).disabled by {
            assert(credits[j] == shown[j]);
        }
    }
}

/// A report's rows are those of its windows, window by window, in their order.
pub proof fn reports_list_their_windows(
    first: Seq<UsageWindow>,
    second: Seq<UsageWindow>,
    only: UsageWindow,
)
    ensures
        summary::report_rows(first + second) == summary::report_rows(first)
            + summary::report_rows(second),
        summary::report_rows(seq![only]) == summary::window_rows(
            only.window,
            only.resets_at,
            only.measurements@,
        ),
    decreases second.len(),
{
    let one = seq![only];
    assert(one.drop_last() =~= Seq::<UsageWindow>::empty());
    assert(summary::report_rows(one.drop_last()) =~= Seq::<RowView>::empty());
    assert(summary::report_rows(one) =~= summary::window_rows(
        only.window,
        only.resets_at,
        only.measurements@,
    ));
    let whole = first + second;
    if second.len() > 0 {
        reports_list_their_windows(first, second.drop_last(), only);
        assert(whole.drop_last() =~= first + second.drop_last());
        assert(whole.last() == second.last());
    } else {
        assert(whole =~= first);
    }
    assert(summary::report_rows(whole) =~= summary::report_rows(first) + summary::report_rows(
        second,
    ));
}

/// A report hit a limit exactly when some window says so: its first `allowed`
/// measures nothing, or its first `limit_reached` measures something.
pub proof fn limits_are_hit_where_a_window_says_so(windows: Seq<UsageWindow>, place: int)
    ensures
        summary::any_limit_hit(windows) ==> exists|i: int|
            0 <= i < windows.len() && (summary::flag(
                (#[trigger] windows[i]).measurements@,
                "allowed"@,
            ) == Some(false) || summary::flag(windows[i].measurements@, "limit_reached"@) == Some(
                true,
            )),
        0 <= place < windows.len() && summary::flag(windows[place].measurements@, "allowed"@)
            == Some(false) ==> summary::any_limit_hit(windows),
        0 <= place < windows.len() && summary::flag(
            windows[place].measurements@,
            "limit_reached"@,
        ) == Some(true) ==> summary::any_limit_hit(windows),
{
    if 0 <= place < windows.len() && summary::hit_its_limit(windows[place].measurements@) {
        assert(summary::any_limit_hit(windows));
    }
}

/// A name that a filter accepts: not blank, of at most 128 characters within its
/// blanks, and with nothing that obscures it.
pub open spec fn fit_for_a_filter(name: Seq<char>) -> bool {
    1 <= text::trimmed(name).len() <= 128 && !identity::unsafe_text(text::trimmed(name))
}

/// A filter accepts names exactly when every one is fit, and else reports what is
/// wrong with the first that is not: that it is blank, too long, or obscured.
pub proof fn filters_report_the_first_unfit_name(names: Seq<Seq<char>>, place: int)
    ensures
        filter::MAX_METRIC_NAMES == 64,
        filter::first_problem(names) is None <==> forall|i: int|
            0 <= i < names.len() ==> fit_for_a_filter(#[trigger] names[i]),
        0 <= place < names.len() && !fit_for_a_filter(names[place]) && (forall|i: int|
            0 <= i < place ==> fit_for_a_filter(#[trigger] names[i])) ==> filter::first_problem(
            names,
        ) == Some(
            if text::trimmed(names[place]).len() == 0 {
                MetricFilterError::EmptyName
            } else if text::trimmed(names[place]).len() > 128 {
                MetricFilterError::NameTooLong
            } else {
                MetricFilterError::UnsafeCharacter
            },
        ),
    decreases names.len(),
{
    if names.len() > 0 {
        let before = names.drop_last();
        filters_report_the_first_unfit_name(before, place);
        assert forall|i: int| 0 <= i < before.len() implies before[i] == #[trigger] names[i] by {}
        if filter::first_problem(before) is None && fit_for_a_filter(names.last()) {
            assert forall|i: int| 0 <= i < names.len() implies fit_for_a_filter(
                #[trigger] names[i],
            ) by {
                if i < before.len() {
                    assert(fit_for_a_filter(before[i]));
                }
            }
        }
        if forall|i: int| 0 <= i < names.len() ==> fit_for_a_filter(#[trigger] names[i]) {
            assert forall|i: int| 0 <= i < before.len() implies fit_for_a_filter(
                #[trigger] before[i],
            ) by {
                assert(fit_for_a_filter(names[i]));
            }
            assert(fit_for_a_filter(names[names.len() - 1]));
        }
        if 0 <= place < names.len() && !fit_for_a_filter(names[place]) && (forall|i: int|
            0 <= i < place ==> fit_for_a_filter(#[trigger] names[i])) {
            assert forall|i: int| 0 <= i < place implies fit_for_a_filter(#[trigger] before[i]) by {
                assert(fit_for_a_filter(names[i]));
            }
            if place == names.len() - 1 {
                assert(filter::first_problem(before) is None);
            } else {
                assert(before[place] == names[place]);
            }
        }
    }
}

/// Of the names a filter is given it keeps every word once, in the first spelling
/// given and without the blanks around it, and no other.
pub proof fn filters_keep_every_word_once(names: Seq<Seq<char>>, place: int)
    ensures
        forall|i: int|
            0 <= i < filter::normalized(names).len() ==> exists|j: int|
                0 <= j < names.len() && #[trigger] filter::normalized(names)[i] == text::trimmed(
                    #[trigger] names[j],
                ),
        forall|i: int, j: int|
            0 <= i < j < filter::normalized(names).len() ==> !texts::same_word(
                #[trigger] filter::normalized(names)[i],
                #[trigger] filter::normalized(names)[j],
            ),
        0 <= place < names.len() ==> exists|i: int|
            0 <= i < filter::normalized(names).len() && texts::same_word(
                #[trigger] filter::normalized(names)[i],
                text::trimmed(names[place]),
            ),
        0 <= place < names.len() && (forall|j: int|
            0 <= j < place ==> !texts::same_word(
                text::trimmed(#[trigger] names[j]),
                text::trimmed(names[place]),
            )) ==> filter::normalized(names).contains(text::trimmed(names[place])),
    decreases names.len(),
{
    if names.len() > 0 {
        let front = names.drop_last();
        filters_keep_every_word_once(front, place);
        let before = filter::normalized(front);
        let name = text::trimmed(names.last());
        let kept = filter::normalized(names);
        assert forall|i: int| 0 <= i < front.len() implies front[i] == #[trigger] names[i] by {}
        assert forall|left: Seq<char>, right: Seq<char>| #[trigger]
            text::equal_ignoring_case(left, right) == texts::same_word(left, right) by {
            texts::case_alone_is_ignored(left, right);
        }
        assert forall|i: int| 0 <= i < kept.len() implies exists|j: int|
            0 <= j < names.len() && #[trigger] kept[i] == text::trimmed(#[trigger] names[j]) by {
            if i < before.len() {
                assert(kept[i] == before[i]);
                let j = choose|j: int|
                    0 <= j < front.len() && #[trigger] before[i] == text::trimmed(
                        #[trigger] front[j],
                    );
                assert(kept[i] == text::trimmed(names[j]));
            } else {
                assert(kept[i] == text::trimmed(names[names.len() - 1]));
            }
        }
        assert forall|i: int, j: int| 0 <= i < j < kept.len() implies !texts::same_word(
            #[trigger] kept[i],
            #[trigger] kept[j],
        ) by {
            if j < before.len() {
                assert(kept[i] == before[i] && kept[j] == before[j]);
            } else {
                assert(kept[i] == before[i] && kept[j] == name);
                assert(!text::equal_ignoring_case(before[i], name));
            }
        }
        if place == names.len() - 1 {
            if filter::listed(before, name) {
                let i = choose|i: int|
                    0 <= i < before.len() && text::equal_ignoring_case(#[trigger] before[i], name);
                assert(texts::same_word(kept[i], name));
            } else {
                assert(kept[before.len() as int] == name);
                assert(texts::same_word(name, name));
                assert(texts::same_word(kept[before.len() as int], name));
            }
            if forall|j: int|
                0 <= j < place ==> !texts::same_word(
                    text::trimmed(#[trigger] names[j]),
                    text::trimmed(names[place]),
                ) {
                if filter::listed(before, name) {
                    let i = choose|i: int|
                        0 <= i < before.len() && text::equal_ignoring_case(
                            #[trigger] before[i],
                            name,
                        );
                    let j = choose|j: int|
                        0 <= j < front.len() && #[trigger] before[i] == text::trimmed(
                            #[trigger] front[j],
                        );
                    assert(texts::same_word(text::trimmed(names[j]), name));
                }
                assert(kept[before.len() as int] == name);
                assert(kept.contains(name));
            }
        } else if 0 <= place < front.len() {
            assert(front[place] == names[place]);
            let i = choose|i: int|
                0 <= i < before.len() && texts::same_word(
                    #[trigger] before[i],
                    text::trimmed(front[place]),
                );
            assert(texts::same_word(kept[i], text::trimmed(names[place])));
            if forall|j: int|
                0 <= j < place ==> !texts::same_word(
                    text::trimmed(#[trigger] names[j]),
                    text::trimmed(names[place]),
                ) {
                assert forall|j: int| 0 <= j < place implies !texts::same_word(
                    text::trimmed(#[trigger] front[j]),
                    text::trimmed(front[place]),
                ) by {
                    assert(front[j] == names[j]);
                }
                let k = choose|k: int|
                    0 <= k < before.len() && before[k] == text::trimmed(names[place]);
                assert(kept[k] == before[k]);
            }
        }
    }
}

/// A metric is one of the names, in any case and without the blanks around it.
pub open spec fn among(names: Seq<Seq<char>>, metric: Seq<char>) -> bool {
    exists|i: int| 0 <= i < names.len() && texts::same_word(#[trigger] names[i], text::trimmed(metric))
}

/// A filter passes the rows through one by one, in their order and unchanged: one
/// that keeps passes those whose metric is among its names, and one that hides
/// those whose metric is not.
pub proof fn filters_pass_rows_one_by_one(
    first: Seq<RowView>,
    second: Seq<RowView>,
    only: RowView,
    names: Seq<Seq<char>>,
    mode: MetricFilterMode,
)
    ensures
        filter::rows_under(first + second, names, mode) == filter::rows_under(first, names, mode)
            + filter::rows_under(second, names, mode),
        names.len() > 0 ==> filter::rows_under(seq![only], names, MetricFilterMode::Keep)
            == if among(names, only.metric) {
            seq![only]
        } else {
            Seq::empty()
        },
        names.len() > 0 ==> filter::rows_under(seq![only], names, MetricFilterMode::Hide)
            == if among(names, only.metric) {
            Seq::empty()
        } else {
            seq![only]
        },
        names.len() == 0 ==> filter::rows_under(seq![only], names, mode) == seq![only],
    decreases second.len(),
{
    reveal(Seq::filter);
    selected_is_among(names, only.metric);
    let one = seq![only];
    assert(one.drop_last() =~= Seq::<RowView>::empty());
    assert(filter::rows_under(one.drop_last(), names, MetricFilterMode::Keep) =~= Seq::empty());
    assert(filter::rows_under(one.drop_last(), names, MetricFilterMode::Hide) =~= Seq::empty());
    assert(filter::rows_under(one, names, MetricFilterMode::Keep) =~= if filter::shown_under(
        names,
        MetricFilterMode::Keep,
        only.metric,
    ) {
        seq![only]
    } else {
        Seq::empty()
    });
    assert(filter::rows_under(one, names, MetricFilterMode::Hide) =~= if filter::shown_under(
        names,
        MetricFilterMode::Hide,
        only.metric,
    ) {
        seq![only]
    } else {
        Seq::empty()
    });
    let whole = first + second;
    if second.len() > 0 {
        filters_pass_rows_one_by_one(first, second.drop_last(), only, names, mode);
        assert(whole.drop_last() =~= first + second.drop_last());
        assert(whole.last() == second.last());
        assert(filter::rows_under(whole, names, mode) =~= filter::rows_under(first, names, mode)
            + filter::rows_under(second, names, mode));
    } else {
        assert(whole =~= first);
        assert(filter::rows_under(second, names, mode) =~= Seq::<RowView>::empty());
        assert(filter::rows_under(whole, names, mode) =~= filter::rows_under(first, names, mode)
            + filter::rows_under(second, names, mode));
    }
}

/// A filter selects a metric exactly when it is among its names.
pub proof fn selected_is_among(names: Seq<Seq<char>>, metric: Seq<char>)
    ensures
        filter::selects(names, metric) == among(names, metric),
{
    let inner = text::trimmed(metric);
    assert forall|i: int| 0 <= i < names.len() implies text::equal_ignoring_case(
        #[trigger] names[i],
        inner,
    ) == texts::same_word(names[i], inner) by {
        texts::case_alone_is_ignored(names[i], inner);
    }
}

/// Names make a filter exactly when there are at most 64 and each is fit; the filter
/// then has every word of them and no other. Too many are refused as such, and else
/// the first that is not fit is told.
pub proof fn fit_names_make_a_filter(
    names: Seq<Seq<char>>,
    result: Result<MetricFilter, MetricFilterError>,
)
    requires
        MetricFilter::made_of(names, result),
    ensures
        result is Ok <==> names.len() <= 64 && forall|i: int|
            0 <= i < names.len() ==> fit_for_a_filter(#[trigger] names[i]),
        names.len() > 64 ==> result == Err::<MetricFilter, MetricFilterError>(
            MetricFilterError::TooManyNames,
        ),
        names.len() <= 64 ==> result != Err::<MetricFilter, MetricFilterError>(
            MetricFilterError::TooManyNames,
        ),
        result matches Ok(made) ==> made@ == filter::normalized(names),
{
    filters_report_the_first_unfit_name(names, 0);
    if names.len() <= 64 {
        never_too_many(names);
    }
}

proof fn never_too_many(names: Seq<Seq<char>>)
    ensures
        filter::first_problem(names) != Some(MetricFilterError::TooManyNames),
    decreases names.len(),
{
    if names.len() > 0 {
        never_too_many(names.drop_last());
    }
}

/// What a person reads about names that make no filter.
pub proof fn refused_names_are_described(error: MetricFilterError)
    ensures
        error.described() == match error {
            MetricFilterError::EmptyName => "metric filter names must not be empty"@,
            MetricFilterError::NameTooLong => "metric filter names must be at most 128 characters"@,
            MetricFilterError::TooManyNames => "a metric filter accepts at most 64 names"@,
            MetricFilterError::UnsafeCharacter => {
                "metric filter names must not contain control or bidirectional text characters"@
            },
        },
{
}

/// A filtered report is the report without the measurements that the filter has no
/// use for: the same header and windows, and in each window measurements of the
/// report, in their order, with every one whose row is kept.
pub proof fn filtered_reports_keep_what_is_named(
    source: SubscriptionUsage,
    names: Seq<Seq<char>>,
    result: SubscriptionUsage,
    place: int,
    spot: int,
)
    requires
        filter::filtered_report(source, names, result),
        0 <= place < source.windows@.len(),
    ensures
        result.provider == source.provider,
        result.account_label == source.account_label,
        result.plan == source.plan,
        result.observed_at == source.observed_at,
        result.subscription_expires_at == source.subscription_expires_at,
        result.windows@.len() == source.windows@.len(),
        result.windows@[place].window == source.windows@[place].window,
        result.windows@[place].resets_at == source.windows@[place].resets_at,
        forall|i: int|
            0 <= i < result.windows@[place].measurements@.len()
                ==> source.windows@[place].measurements@.contains(
                #[trigger] result.windows@[place].measurements@[i],
            ),
        0 <= spot < source.windows@[place].measurements@.len() && !tells_a_state(
            source.windows@[place].measurements@[spot].name@,
        ) && among(
            names,
            summary::display_name(source.windows@[place].measurements@[spot].name@),
        ) ==> result.windows@[place].measurements@.contains(
            source.windows@[place].measurements@[spot],
        ),
        forall|i: int|
            0 <= i < result.windows@[place].measurements@.len() ==> tells_a_state(
                (#[trigger] result.windows@[place].measurements@[i]).name@,
            ) || among(
                names,
                summary::display_name(result.windows@[place].measurements@[i].name@),
            ),
{
    let before = source.windows@[place];
    let after = result.windows@[place];
    assert(filter::filtered_window(before, names, after));
    let kept = filter::rows_under(
        summary::window_rows(before.window, before.resets_at, before.measurements@),
        names,
        MetricFilterMode::Keep,
    );
    let all = before.measurements@;
    let stays = |measurement: UsageMeasurement|
        filter::survives(names, kept, all, measurement);
    assert(after.measurements@ == all.filter(stays));
    assert forall|i: int| 0 <= i < after.measurements@.len() implies all.contains(
        #[trigger] after.measurements@[i],
    ) && (tells_a_state(after.measurements@[i].name@) || among(
        names,
        summary::display_name(after.measurements@[i].name@),
    )) by {
        let measurement = after.measurements@[i];
        all.lemma_filter_contains_rev(stays, measurement);
        all.lemma_filter_pred(stays, i);
        assert(stays(measurement));
        states_are_hidden(measurement.name@);
        selected_is_among(names, summary::display_name(measurement.name@));
    }
    if 0 <= spot < all.len() && !tells_a_state(all[spot].name@) && among(
        names,
        summary::display_name(all[spot].name@),
    ) {
        states_are_hidden(all[spot].name@);
        selected_is_among(names, summary::display_name(all[spot].name@));
        assert(filter::picked(names, all[spot]));
        assert(stays(all[spot]));
        all.lemma_filter_contains(stays, spot);
    }
}

} // verus!
