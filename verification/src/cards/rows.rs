//! What a card says: its names, its readings, its notices, and its place among
//! the others.

use vstd::prelude::*;
use vstd::string::StringExecFns;

use crate::cards::{Card, CardRow, CardTitle, Meter};
use crate::clock;
use crate::error::QueryOutcome;
use crate::protocol::SnapshotPayload;
use crate::reading;
use crate::reading::wording;
use crate::redact;
use crate::render::MetricFilterChoice;
use crate::summary;
use crate::summary::filter;
use crate::summary::{SummaryRow, UsageSummary};
use crate::text;
use crate::usage::{SubscriptionUsage, Timestamp};
use crate::width;
use crate::width::{clip, repeat};

verus! {

/// Cells of the reset countdown's dot and diamond fields.
pub const RESET_FIELD_WIDTH: usize = 7;

/// A character that joins a window to a metric in a row's name.
pub open spec fn separator(character: char) -> bool {
    character == '-' || character == '_' || character == ' '
}

fn is_separator(character: char) -> (result: bool)
    ensures
        result == separator(character),
{
    character == '-' || character == '_' || character == ' '
}

/// The name without the separators it starts with.
pub open spec fn without_separators(name: Seq<char>) -> Seq<char>
    decreases name.len(),
{
    if name.len() > 0 && separator(name[0]) {
        without_separators(name.skip(1))
    } else {
        name
    }
}

/// The place of the first separator of the name, or its length.
pub open spec fn first_separator(name: Seq<char>) -> int
    decreases name.len(),
{
    if name.len() == 0 || separator(name[0]) {
        0
    } else {
        1 + first_separator(name.skip(1))
    }
}

/// The name starts with those characters and a separator, and has something of
/// its own behind it.
pub open spec fn repeats(name: Seq<char>, prefix: Seq<char>) -> bool {
    &&& prefix.len() < name.len()
    &&& name.take(prefix.len() as int) == prefix
    &&& separator(name[prefix.len() as int])
    &&& without_separators(name.skip(prefix.len() as int)).len() > 0
}

/// Two names or more start with the same segment, and dropping it leaves each of
/// them a name.
pub open spec fn shared(names: Seq<Seq<char>>) -> bool {
    let prefix = names[0].take(first_separator(names[0]));
    &&& names.len() >= 2
    &&& prefix.len() > 0
    &&& forall|i: int| 0 <= i < names.len() ==> repeats(#[trigger] names[i], prefix)
}

/// The name without a leading segment of that length and the separators behind.
pub open spec fn shortened(name: Seq<char>, length: int) -> Seq<char> {
    without_separators(name.skip(length))
}

/// The names without any leading segment that all of them repeat.
pub open spec fn stripped(names: Seq<Seq<char>>) -> Seq<Seq<char>>
    decreases
            if names.len() > 0 {
                names[0].len()
            } else {
                0
            },
    via stripping_ends
{
    if shared(names) {
        let length = first_separator(names[0]);
        stripped(names.map_values(|name: Seq<char>| shortened(name, length)))
    } else {
        names
    }
}

#[via_fn]
proof fn stripping_ends(names: Seq<Seq<char>>) {
    if shared(names) {
        let length = first_separator(names[0]);
        separators_are_found(names[0]);
        separators_only_shorten(names[0].skip(length));
        assert(names[0].take(length).len() == length);
    }
}

proof fn separators_only_shorten(name: Seq<char>)
    ensures
        without_separators(name).len() <= name.len(),
        without_separators(name).len() == 0 || !separator(without_separators(name)[0]),
    decreases name.len(),
{
    if name.len() > 0 && separator(name[0]) {
        separators_only_shorten(name.skip(1));
    }
}

proof fn separators_are_found(name: Seq<char>)
    ensures
        0 <= first_separator(name) <= name.len(),
        forall|i: int| 0 <= i < first_separator(name) ==> !separator(#[trigger] name[i]),
        first_separator(name) < name.len() ==> separator(name[first_separator(name)]),
    decreases name.len(),
{
    if name.len() > 0 && !separator(name[0]) {
        separators_are_found(name.skip(1));
        assert forall|i: int| 0 <= i < first_separator(name) implies !separator(
            #[trigger] name[i],
        ) by {
            if i > 0 {
                assert(name[i] == name.skip(1)[i - 1]);
            }
        }
    }
}

/// The names of the rows.
pub open spec fn names_of(rows: Seq<CardRow>) -> Seq<Seq<char>> {
    rows.map_values(|row: CardRow| row.identity@)
}

/// The row says the same but for its name.
pub open spec fn same_but_name(before: CardRow, after: CardRow) -> bool {
    &&& after.verb == before.verb
    &&& after.amount == before.amount
    &&& after.suffix == before.suffix
    &&& after.resets == before.resets
    &&& after.meter == before.meter
}

fn trim_separators(all: &Vec<char>, from: usize) -> (result: usize)
    requires
        from <= all@.len(),
    ensures
        from <= result <= all@.len(),
        all@.skip(result as int) == without_separators(all@.skip(from as int)),
{
    let mut place: usize = from;
    while place < all.len() && is_separator(all[place])
        invariant
            from <= place <= all@.len(),
            without_separators(all@.skip(place as int)) == without_separators(
                all@.skip(from as int),
            ),
        decreases all@.len() - place,
    {
        assert(all@.skip(place as int).skip(1) == all@.skip(place + 1));
        place = place + 1;
    }
    proof {
        if place < all@.len() {
            assert(all@.skip(place as int)[0] == all@[place as int]);
        }
    }
    place
}

fn segment_length(all: &Vec<char>) -> (result: usize)
    ensures
        result == first_separator(all@),
{
    let mut place: usize = 0;
    assert(all@.skip(0) == all@);
    while place < all.len() && !is_separator(all[place])
        invariant
            place <= all@.len(),
            place + first_separator(all@.skip(place as int)) == first_separator(all@),
        decreases all@.len() - place,
    {
        assert(all@.skip(place as int).skip(1) == all@.skip(place + 1));
        place = place + 1;
    }
    proof {
        if place < all@.len() {
            assert(all@.skip(place as int)[0] == all@[place as int]);
        }
    }
    place
}

fn repeats_prefix(name: &str, first: &Vec<char>, length: usize) -> (result: bool)
    requires
        length <= first@.len(),
    ensures
        result == repeats(name@, first@.take(length as int)),
{
    let all: Vec<char> = text::characters(name);
    if all.len() <= length {
        return false;
    }
    let ghost prefix = first@.take(length as int);
    let mut index: usize = 0;
    while index < length
        invariant
            index <= length,
            length < all@.len(),
            length <= first@.len(),
            all@ == name@,
            prefix == first@.take(length as int),
            all@.take(index as int) == first@.take(index as int),
        decreases length - index,
    {
        if all[index] != first[index] {
            assert(name@.take(length as int)[index as int] != prefix[index as int]);
            return false;
        }
        assert(all@.take(index + 1) == all@.take(index as int).push(all@[index as int]));
        assert(first@.take(index + 1) == first@.take(index as int).push(first@[index as int]));
        index = index + 1;
    }
    if !is_separator(all[length]) {
        return false;
    }
    let rest: usize = trim_separators(&all, length);
    assert(without_separators(name@.skip(length as int)).len() == all@.len() - rest);
    rest < all.len()
}

fn shared_prefix(rows: &Vec<CardRow>) -> (result: Option<usize>)
    ensures
        match result {
            Some(length) => shared(names_of(rows@)) && length == first_separator(
                names_of(rows@)[0],
            ),
            None => !shared(names_of(rows@)),
        },
{
    let ghost names = names_of(rows@);
    if rows.len() < 2 {
        return None;
    }
    let first: Vec<char> = text::characters(rows[0].identity.as_str());
    assert(names[0] == first@);
    let length: usize = segment_length(&first);
    proof {
        separators_are_found(first@);
    }
    let ghost prefix = first@.take(length as int);
    if length == 0 {
        assert(prefix.len() == 0);
        return None;
    }
    let mut index: usize = 0;
    while index < rows.len()
        invariant
            index <= rows@.len(),
            names == names_of(rows@),
            names[0] == first@,
            length == first_separator(first@),
            length <= first@.len(),
            prefix == first@.take(length as int),
            forall|i: int| 0 <= i < index ==> repeats(#[trigger] names[i], prefix),
        decreases rows@.len() - index,
    {
        if !repeats_prefix(rows[index].identity.as_str(), &first, length) {
            assert(!repeats(names[index as int], prefix));
            return None;
        }
        assert(names[index as int] == rows@[index as int].identity@);
        index = index + 1;
    }
    Some(length)
}

fn drop_segment(rows: &mut Vec<CardRow>, length: usize)
    requires
        forall|i: int| 0 <= i < old(rows)@.len() ==> length <= (#[trigger] old(rows)@[i]).identity@.len(),
    ensures
        final(rows)@.len() == old(rows)@.len(),
        names_of(final(rows)@) == names_of(old(rows)@).map_values(
            |name: Seq<char>| shortened(name, length as int),
        ),
        forall|i: int|
            0 <= i < final(rows)@.len() ==> same_but_name(
                old(rows)@[i],
                #[trigger] final(rows)@[i],
            ),
{
    let ghost before = rows@;
    let mut index: usize = 0;
    while index < rows.len()
        invariant
            index <= rows@.len(),
            rows@.len() == before.len(),
            forall|i: int| 0 <= i < before.len() ==> length <= (#[trigger] before[i]).identity@.len(),
            forall|i: int| index <= i < rows@.len() ==> rows@[i] == before[i],
            forall|i: int|
                0 <= i < index ==> (#[trigger] rows@[i]).identity@ == shortened(
                    before[i].identity@,
                    length as int,
                ),
            forall|i: int| 0 <= i < rows@.len() ==> same_but_name(before[i], #[trigger] rows@[i]),
        decreases rows@.len() - index,
    {
        let all: Vec<char> = text::characters(rows[index].identity.as_str());
        assert(length <= before[index as int].identity@.len());
        let from: usize = trim_separators(&all, length);
        let name = text::text_between(&all, from, all.len());
        assert(name@ == all@.skip(from as int));
        rows[index].identity = name;
        index = index + 1;
    }
    assert(names_of(rows@) =~= names_of(before).map_values(
        |name: Seq<char>| shortened(name, length as int),
    ));
}

/// Drops a leading name that every row of the card repeats, with the separator
/// behind it: a provider may call all of its windows `monthly-...`, and the word
/// says nothing once it is on every row. A card keeps the name when a row would
/// be left with nothing of its own, and a single-row card keeps it too, because
/// there is no repetition to remove.
pub fn strip_shared_prefix(rows: &mut Vec<CardRow>)
    ensures
        final(rows)@.len() == old(rows)@.len(),
        names_of(final(rows)@) == stripped(names_of(old(rows)@)),
        forall|i: int|
            0 <= i < final(rows)@.len() ==> same_but_name(
                old(rows)@[i],
                #[trigger] final(rows)@[i],
            ),
{
    let ghost before = rows@;
    loop
        invariant
            rows@.len() == before.len(),
            stripped(names_of(rows@)) == stripped(names_of(before)),
            forall|i: int| 0 <= i < rows@.len() ==> same_but_name(before[i], #[trigger] rows@[i]),
        ensures
            !shared(names_of(rows@)),
        decreases
                if rows@.len() > 0 {
                    rows@[0].identity@.len()
                } else {
                    0
                },
    {
        let ghost held = rows@;
        let ghost names = names_of(held);
        match shared_prefix(rows) {
            Some(length) => {
                proof {
                    separators_are_found(names[0]);
                    separators_only_shorten(names[0].skip(length as int));
                    assert(names[0].take(length as int).len() == length);
                    assert forall|i: int| 0 <= i < rows@.len() implies length <= (
                    #[trigger] rows@[i]).identity@.len() by {
                        assert(names[i] == rows@[i].identity@);
                        assert(repeats(names[i], names[0].take(length as int)));
                    }
                }
                drop_segment(rows, length);
                proof {
                    assert(names_of(rows@)[0] == shortened(names[0], length as int));
                    assert(names_of(rows@)[0] == rows@[0].identity@);
                    assert(names[0] == held[0].identity@);
                    assert forall|i: int| 0 <= i < rows@.len() implies same_but_name(
                        before[i],
                        #[trigger] rows@[i],
                    ) by {
                        assert(same_but_name(before[i], held[i]));
                    }
                }
            },
            None => {
                break;
            },
        }
    }
}

/// The count of days between two diamonds, or other edges, in a field of fixed
/// width: centered, with the extra cell on the left.
pub open spec fn edged_field(count: Seq<char>, edge: char) -> Seq<char> {
    let kept = width::clipped(count, (RESET_FIELD_WIDTH - 2) as nat);
    let pad = if kept.len() + 2 < RESET_FIELD_WIDTH {
        (RESET_FIELD_WIDTH - 2 - kept.len()) as nat
    } else {
        0
    };
    let left = ((pad + 1) / 2) as nat;
    seq![edge] + width::repeated(' ', left) + kept + width::repeated(' ', (pad - left) as nat)
        + seq![edge]
}

/// A text centered in a field of fixed width between two edges, with the extra
/// cell on the left.
pub fn field_between(count: &str, edge: char) -> (result: String)
    ensures
        result@ == edged_field(count@, edge),
        width::plain(count@) && count@.len() > 0 ==> result@.len() == RESET_FIELD_WIDTH,
{
    let kept = clip(count, RESET_FIELD_WIDTH - 2);
    let length: usize = kept.as_str().unicode_len();
    let pad: usize = (RESET_FIELD_WIDTH - 2).saturating_sub(length);
    let left: usize = (pad + 1) / 2;
    let mut field = repeat(edge, 1);
    assert(field@ =~= seq![edge]);
    field.append(repeat(' ', left).as_str());
    field.append(kept.as_str());
    field.append(repeat(' ', pad - left).as_str());
    let last = repeat(edge, 1);
    assert(last@ =~= seq![edge]);
    field.append(last.as_str());
    proof {
        if width::plain(count@) {
            width::plain_text_is_cut_by_characters(count@, (RESET_FIELD_WIDTH - 2) as nat);
        }
    }
    field
}

/// How long until the window resets. Under a day the exact wait is worth more
/// than the scale, so it is spelled out; within a week each remaining day lights
/// one of seven dots; beyond a week the day count sits between two diamonds.
pub open spec fn reset_countdown(seconds: i64) -> Seq<char> {
    let wait = if seconds < 0 {
        0u64
    } else {
        seconds as u64
    };
    let days = wait / 86400;
    if days > RESET_FIELD_WIDTH {
        edged_field(text::decimal_digits(days as nat) + "d"@, '◆')
    } else if days >= 1 {
        width::repeated('◦', (RESET_FIELD_WIDTH - days) as nat) + width::repeated('•', days as nat)
    } else {
        clock::duration(wait)
    }
}

/// How long until the window resets: `3h05m`, `◦◦◦◦◦••` or `◆ 23d ◆`.
pub fn reset_text(seconds: i64) -> (result: String)
    ensures
        result@ == reset_countdown(seconds),
        seconds >= 86400 ==> result@.len() == RESET_FIELD_WIDTH,
{
    let wait: u64 = if seconds < 0 {
        0
    } else {
        seconds as u64
    };
    let days: u64 = wait / 86400;
    if days > RESET_FIELD_WIDTH as u64 {
        let count = text::join2(text::decimal(days).as_str(), "d");
        proof {
            digits_are_plain(days as nat);
            reveal_strlit("d");
            assert(width::plain(count@));
        }
        return field_between(count.as_str(), '◆');
    }
    if days >= 1 {
        let mut dots = repeat('◦', RESET_FIELD_WIDTH - days as usize);
        dots.append(repeat('•', days as usize).as_str());
        return dots;
    }
    clock::countdown_text(wait)
}

/// The decimal digits of a number are plain, and there is one at least.
pub proof fn digits_are_plain(value: nat)
    ensures
        width::plain(text::decimal_digits(value)),
        text::decimal_digits(value).len() > 0,
    decreases value,
{
    let digit = ('0' as u32 + value % 10) as char;
    assert(width::plain_character(digit));
    if value >= 10 {
        digits_are_plain(value / 10);
        let before = text::decimal_digits(value / 10);
        let whole = text::decimal_digits(value);
        assert(whole == before.push(digit));
        assert forall|i: int| 0 <= i < whole.len() implies width::plain_character(
            #[trigger] whole[i],
        ) by {
            if i < before.len() {
                assert(whole[i] == before[i]);
            }
        }
    } else {
        assert(text::decimal_digits(value) == seq![digit]);
    }
}

/// The name of a row: the window, with the metric behind it unless that says no
/// more than that the window is used. Nothing is shown of a text with control
/// characters.
pub open spec fn row_name(window: Seq<char>, metric: Seq<char>) -> Seq<char> {
    if metric == "usage"@ {
        redact::cell_text(window)
    } else {
        redact::cell_text(window) + "-"@ + redact::cell_text(metric)
    }
}

/// The name of a row.
pub fn row_identity(row: &SummaryRow) -> (result: String)
    ensures
        result@ == row_name(row.window@, row.metric@),
{
    let window = redact::sanitize_cell(row.window.as_str());
    if text::same_text(row.metric.as_str(), "usage") {
        window.to_owned()
    } else {
        text::join3(window, "-", redact::sanitize_cell(row.metric.as_str()))
    }
}

/// The figure and the bars for the value of a row.
#[derive(Debug)]
pub struct Reading {
    pub amount: String,
    pub meter: Option<Meter>,
}

/// The countdown of a row at a point in time.
pub open spec fn row_countdown(resets_at: Option<Timestamp>, now: Timestamp) -> Option<Seq<char>> {
    match resets_at {
        Some(time) => Some(
            reset_countdown(
                if clock::seconds_between(now, time) <= i64::MAX {
                    clock::seconds_between(now, time) as i64
                } else {
                    i64::MAX
                },
            ),
        ),
        None => None,
    }
}

/// The view of an optional text.
pub open spec fn optional_text(target: Option<String>) -> Option<Seq<char>> {
    match target {
        Some(target) => Some(target@),
        None => None,
    }
}

/// The row of a card for a row of the summary and its reading.
pub open spec fn card_row_is(
    row: SummaryRow,
    reading: Reading,
    now: Timestamp,
    result: CardRow,
) -> bool {
    &&& result.verb@ == reading::verb_of(row.value)
    &&& result.amount == reading.amount
    &&& result.suffix@ == reading::mark_of(row.disabled)
    &&& result.meter == reading.meter
    &&& optional_text(result.resets) == row_countdown(row.resets_at, now)
}

fn card_row(row: &SummaryRow, reading: Reading, now: &Timestamp) -> (result: CardRow)
    ensures
        card_row_is(*row, reading, *now, result),
        result.identity@ == row_name(row.window@, row.metric@),
{
    let resets = match &row.resets_at {
        Some(time) => {
            let wait: u64 = clock::elapsed_seconds(now, time);
            let seconds: i64 = if wait <= i64::MAX as u64 {
                wait as i64
            } else {
                i64::MAX
            };
            Some(reset_text(seconds))
        },
        None => None,
    };
    let words = wording(row);
    CardRow {
        identity: row_identity(row),
        verb: words.verb.to_owned(),
        amount: reading.amount,
        suffix: words.suffix.to_owned(),
        resets,
        meter: reading.meter,
    }
}

/// The names of the rows of a summary.
pub open spec fn summary_names(rows: Seq<SummaryRow>) -> Seq<Seq<char>> {
    rows.map_values(|row: SummaryRow| row_name(row.window@, row.metric@))
}

/// The rows of a card: one for each row of the summary, which reads as the
/// reading at its place says, without a leading name that all of them repeat.
pub fn rows(summary: &Vec<SummaryRow>, readings: Vec<Reading>, now: &Timestamp) -> (result: Vec<
    CardRow,
>)
    requires
        readings@.len() == summary@.len(),
    ensures
        result@.len() == summary@.len(),
        names_of(result@) == stripped(summary_names(summary@)),
        forall|i: int|
            0 <= i < result@.len() ==> card_row_is(
                summary@[i],
                readings@[i],
                *now,
                #[trigger] result@[i],
            ),
{
    let ghost given = readings@;
    let mut left = readings;
    let mut backwards: Vec<CardRow> = Vec::new();
    while left.len() > 0
        invariant
            given.len() == summary@.len(),
            left@.len() + backwards@.len() == given.len(),
            left@ == given.take(left@.len() as int),
            forall|i: int|
                0 <= i < backwards@.len() ==> {
                    let place = given.len() - 1 - i;
                    &&& card_row_is(
                        summary@[place],
                        given[place],
                        *now,
                        #[trigger] backwards@[i],
                    )
                    &&& backwards@[i].identity@ == row_name(
                        summary@[place].window@,
                        summary@[place].metric@,
                    )
                },
        decreases left@.len(),
    {
        let place: usize = left.len() - 1;
        let ghost before = left@;
        match left.pop() {
            Some(reading) => {
                assert(reading == given[place as int]);
                assert(left@ == given.take(place as int));
                backwards.push(card_row(&summary[place], reading, now));
            },
            None => {},
        }
    }
    let ghost reversed = backwards@;
    let mut result: Vec<CardRow> = Vec::new();
    while backwards.len() > 0
        invariant
            reversed.len() == given.len(),
            given.len() == summary@.len(),
            backwards@.len() + result@.len() == given.len(),
            backwards@ == reversed.take(backwards@.len() as int),
            forall|i: int|
                0 <= i < reversed.len() ==> {
                    let place = given.len() - 1 - i;
                    &&& card_row_is(summary@[place], given[place], *now, #[trigger] reversed[i])
                    &&& reversed[i].identity@ == row_name(
                        summary@[place].window@,
                        summary@[place].metric@,
                    )
                },
            forall|i: int|
                0 <= i < result@.len() ==> {
                    &&& card_row_is(summary@[i], given[i], *now, #[trigger] result@[i])
                    &&& result@[i].identity@ == row_name(
                        summary@[i].window@,
                        summary@[i].metric@,
                    )
                },
        decreases backwards@.len(),
    {
        let ghost place = backwards@.len() - 1;
        match backwards.pop() {
            Some(row) => {
                assert(row == reversed[place]);
                assert(backwards@ == reversed.take(place));
                result.push(row);
            },
            None => {},
        }
    }
    assert(names_of(result@) =~= summary_names(summary@));
    let ghost named = result@;
    strip_shared_prefix(&mut result);
    proof {
        assert forall|i: int| 0 <= i < result@.len() implies card_row_is(
            summary@[i],
            given[i],
            *now,
            #[trigger] result@[i],
        ) by {
            assert(same_but_name(named[i], result@[i]));
            assert(card_row_is(summary@[i], given[i], *now, named[i]));
        }
    }
    result
}

/// The report of a snapshot, complete or not.
pub open spec fn report_of(outcome: QueryOutcome<SubscriptionUsage>) -> SubscriptionUsage {
    match outcome {
        QueryOutcome::Complete { data } => data,
        QueryOutcome::Partial { data, .. } => data,
    }
}

fn usage_data(outcome: &QueryOutcome<SubscriptionUsage>) -> (result: &SubscriptionUsage)
    ensures
        *result == report_of(*outcome),
{
    match outcome {
        QueryOutcome::Complete { data } => data,
        QueryOutcome::Partial { data, .. } => data,
    }
}

/// The rows that a snapshot shows: those its account's saved names do not hide.
pub fn snapshot_summary(snapshot: &SnapshotPayload) -> (result: UsageSummary)
    ensures
        summary::row_views(result.rows@) == filter::rows_under(
            summary::report_rows(report_of(snapshot.usage).windows@),
            crate::render::chosen_names(MetricFilterChoice::Persisted, snapshot.metrics@),
            crate::render::chosen_mode(MetricFilterChoice::Persisted),
        ),
        result.limit_reached == summary::any_limit_hit(report_of(snapshot.usage).windows@),
        result.observed_at == report_of(snapshot.usage).observed_at,
        result.expires_at == report_of(snapshot.usage).subscription_expires_at,
{
    MetricFilterChoice::Persisted.for_saved(&snapshot.metrics).summarize(
        usage_data(&snapshot.usage),
    )
}

/// The notices of a card.
pub open spec fn notices_of(
    snapshot: SnapshotPayload,
    limit_reached: bool,
    rows: nat,
) -> Seq<Seq<char>> {
    let stale = if snapshot.stale {
        seq!["! stale snapshot"@]
    } else {
        Seq::empty()
    };
    let limited = if limit_reached {
        seq!["! limit reached"@]
    } else {
        Seq::empty()
    };
    let missing = match snapshot.usage {
        QueryOutcome::Partial { failures, .. } => seq![
            "! "@ + text::decimal_digits(failures@.len()) + " item(s) unavailable"@,
        ],
        _ => Seq::empty(),
    };
    let empty = if rows == 0 {
        seq!["! no summarized metrics"@]
    } else {
        Seq::empty()
    };
    stale + limited + missing + empty
}

fn push_notice(notices: &mut Vec<String>, notice: String)
    ensures
        filter::text_views(final(notices)@) == filter::text_views(old(notices)@).push(notice@),
{
    notices.push(notice);
    assert(filter::text_views(notices@) =~= filter::text_views(old(notices)@).push(notice@));
}

fn card_notices(snapshot: &SnapshotPayload, limit_reached: bool, rows: usize) -> (result: Vec<
    String,
>)
    ensures
        filter::text_views(result@) == notices_of(*snapshot, limit_reached, rows as nat),
{
    let mut notices: Vec<String> = Vec::new();
    assert(filter::text_views(notices@) =~= Seq::<Seq<char>>::empty());
    if snapshot.stale {
        push_notice(&mut notices, "! stale snapshot".to_owned());
    }
    if limit_reached {
        push_notice(&mut notices, "! limit reached".to_owned());
    }
    if let QueryOutcome::Partial { failures, .. } = &snapshot.usage {
        let count = text::decimal(failures.len() as u64);
        push_notice(
            &mut notices,
            text::join3("! ", count.as_str(), " item(s) unavailable"),
        );
    }
    if rows == 0 {
        push_notice(&mut notices, "! no summarized metrics".to_owned());
    }
    assert(filter::text_views(notices@) =~= notices_of(*snapshot, limit_reached, rows as nat));
    notices
}

/// The names on a card: the provider, the plan where it says something, and the
/// account.
pub open spec fn title_is(snapshot: SnapshotPayload, title: CardTitle) -> bool {
    let report = report_of(snapshot.usage);
    &&& title.provider@ == redact::cell_text(report.provider@)
    &&& title.account@ == redact::cell_text(snapshot.account_id@)
    &&& optional_text(title.plan) == match report.plan {
        Some(plan) => if text::trimmed(plan@).len() == 0 {
            None
        } else {
            Some(redact::cell_text(plan@))
        },
        None => None,
    }
}

fn card_title(snapshot: &SnapshotPayload) -> (result: CardTitle)
    ensures
        title_is(*snapshot, result),
{
    let report = usage_data(&snapshot.usage);
    let plan = match &report.plan {
        Some(plan) => {
            if text::trim(plan.as_str()).unicode_len() == 0 {
                None
            } else {
                Some(redact::sanitize_cell(plan.as_str()).to_owned())
            }
        },
        None => None,
    };
    CardTitle {
        provider: redact::sanitize_cell(report.provider.as_str()).to_owned(),
        plan,
        account: redact::sanitize_cell(snapshot.account_id.as_str()).to_owned(),
    }
}

/// The card of a snapshot. `summary` is what it shows, and `readings` holds the
/// figure and the bars for the value of each of its rows.
pub fn card(
    snapshot: &SnapshotPayload,
    summary: &UsageSummary,
    readings: Vec<Reading>,
    now: &Timestamp,
) -> (result: Card)
    requires
        readings@.len() == summary.rows@.len(),
    ensures
        title_is(*snapshot, result.title),
        filter::text_views(result.notices@) == notices_of(
            *snapshot,
            summary.limit_reached,
            summary.rows@.len(),
        ),
        result.rows@.len() == summary.rows@.len(),
        names_of(result.rows@) == stripped(summary_names(summary.rows@)),
        forall|i: int|
            0 <= i < result.rows@.len() ==> card_row_is(
                summary.rows@[i],
                readings@[i],
                *now,
                #[trigger] result.rows@[i],
            ),
{
    Card {
        title: card_title(snapshot),
        notices: card_notices(snapshot, summary.limit_reached, summary.rows.len()),
        rows: rows(&summary.rows, readings, now),
    }
}

/// No row is left without a name of its own: where a shared segment is dropped,
/// something stays of every name.
pub proof fn stripping_leaves_every_row_a_name(names: Seq<Seq<char>>)
    ensures
        stripped(names).len() == names.len(),
        forall|i: int|
            0 <= i < names.len() ==> (#[trigger] names[i]).len() > 0 ==> stripped(names)[i].len()
                > 0,
    decreases
            if names.len() > 0 {
                names[0].len()
            } else {
                0
            },
{
    if shared(names) {
        let length = first_separator(names[0]);
        let prefix = names[0].take(length);
        separators_are_found(names[0]);
        separators_only_shorten(names[0].skip(length));
        assert(prefix.len() == length);
        let shorter = names.map_values(|name: Seq<char>| shortened(name, length));
        assert(shorter[0] == shortened(names[0], length));
        stripping_leaves_every_row_a_name(shorter);
        assert forall|i: int| 0 <= i < names.len() implies stripped(names)[i].len() > 0 by {
            assert(repeats(names[i], prefix));
            assert(shorter[i] == shortened(names[i], length));
            assert(shorter[i].len() > 0);
        }
    }
}

/// Once stripped, the names share no leading segment any more: stripping them
/// again changes nothing.
pub proof fn stripping_twice_changes_nothing(names: Seq<Seq<char>>)
    ensures
        !shared(stripped(names)),
        stripped(stripped(names)) == stripped(names),
    decreases
            if names.len() > 0 {
                names[0].len()
            } else {
                0
            },
{
    if shared(names) {
        let length = first_separator(names[0]);
        separators_are_found(names[0]);
        separators_only_shorten(names[0].skip(length));
        assert(names[0].take(length).len() == length);
        let shorter = names.map_values(|name: Seq<char>| shortened(name, length));
        assert(shorter[0] == shortened(names[0], length));
        stripping_twice_changes_nothing(shorter);
    }
}

/// A single row keeps its name.
pub proof fn a_single_row_keeps_its_name(name: Seq<char>)
    ensures
        stripped(seq![name]) == seq![name],
{
}

} // verus!
