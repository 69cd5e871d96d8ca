//! What the cards of the full-screen view tell of the accounts they stand for.

use vstd::prelude::*;

use crate::cards;
use crate::cards::laws;
use crate::cards::place;
use crate::cards::place::Rect;
use crate::cards::rows;
use crate::cards::rows::Reading;
use crate::cards::sort;
use crate::cards::{Card, CardRow, CardTitle, RowLayout, SpanView, Tier, Tone};
use crate::clock;
use crate::error::QueryOutcome;
use crate::laws::texts;
use crate::protocol::SnapshotPayload;
use crate::reading;
use crate::reading::FigureView;
use crate::redact;
use crate::summary::{SummaryRow, SummaryValue};
use crate::text;
use crate::usage::Timestamp;
use crate::width;

verus! {

/// The row counts down to its reset: of a reset some whole seconds ahead within a
/// day it tells the wait of those seconds, of one some days ahead as many filled
/// dots as days, and of one more than seven days ahead the days in digits. A reset
/// an hour or more ahead never reads as less than a minute, and one that is not
/// ahead always does.
pub proof fn countdowns_run_to_the_reset(
    row: SummaryRow,
    reading: Reading,
    now: Timestamp,
    result: CardRow,
    wait: nat,
)
    requires
        rows::card_row_is(row, reading, now, result),
        texts::regular(now),
        row.resets_at is Some,
        texts::regular(row.resets_at->0),
    ensures
        result.resets is Some,
        ({
            let reset = texts::moment(row.resets_at->0);
            let start = texts::moment(now);
            let told = result.resets->0@;
            &&& start + 1000000000 * wait <= reset < start + 1000000000 * (wait + 1) ==> {
                &&& wait < 86400 ==> told == clock::duration(wait as u64)
                &&& forall|days: nat|
                    #![trigger text::decimal_digits(days)]
                    1 <= days <= 7 && 86400 * days <= wait < 86400 * (days + 1) ==> told.len() == 7
                        && forall|i: int|
                        0 <= i < 7 ==> #[trigger] told[i] == if i < 7 - days {
                            '◦'
                        } else {
                            '•'
                        }
                &&& forall|days: nat|
                    #![trigger text::decimal_digits(days)]
                    7 < days && 86400 * days <= wait < 86400 * (days + 1) && wait <= i64::MAX
                        ==> told == rows::edged_field(text::decimal_digits(days) + "d"@, '◆')
            }
            &&& reset >= start + 3600000000000 ==> told != "<1m"@
            &&& reset <= start ==> told == "<1m"@
        }),
{
    let time = row.resets_at->0;
    let reset = texts::moment(time);
    let start = texts::moment(now);
    let between = clock::seconds_between(now, time);
    let told = result.resets->0@;
    texts::seconds_between_fit_between(now, time);
    let seconds: i64 = if between <= i64::MAX {
        between as i64
    } else {
        i64::MAX
    };
    assert(told == rows::reset_countdown(seconds));
    if reset <= start {
        assert(clock::duration(0) == "<1m"@);
    }
    if reset >= start + 3600000000000 {
        assert(between >= 3600);
        assert(seconds >= 3600);
        never_under_a_minute(seconds);
    }
    if start + 1000000000 * wait <= reset < start + 1000000000 * (wait + 1) {
        assert(between == wait);
        assert forall|days: nat|
            #![trigger text::decimal_digits(days)]
            1 <= days <= 7 && 86400 * days <= wait < 86400 * (days + 1) implies told.len() == 7
            && forall|i: int|
            0 <= i < 7 ==> #[trigger] told[i] == if i < 7 - days {
                '◦'
            } else {
                '•'
            } by {
            assert(seconds as u64 / 86400 == days);
        }
        assert forall|days: nat|
            #![trigger text::decimal_digits(days)]
            7 < days && 86400 * days <= wait < 86400 * (days + 1) && wait <= i64::MAX implies told
            == rows::edged_field(text::decimal_digits(days) + "d"@, '◆') by {
            assert(seconds as u64 / 86400 == days);
        }
    }
}

proof fn never_under_a_minute(seconds: i64)
    requires
        seconds >= 3600,
    ensures
        rows::reset_countdown(seconds) != "<1m"@,
{
    reveal_strlit("<1m");
    reveal_strlit("h");
    reveal_strlit("m");
    reveal_strlit("d");
    let wait = seconds as u64;
    let days = wait / 86400;
    let told = rows::reset_countdown(seconds);
    assert("<1m"@[0] == '<');
    if days > 7 {
        assert(told[0] == '◆');
    } else if days >= 1 {
        assert(told.len() == 7);
    } else {
        let hours = (wait / 3600) as nat;
        texts::digits_say_the_number(hours);
        let digits = text::decimal_digits(hours);
        assert(told[0] == digits[0]);
        assert('0' <= digits[0] <= '9');
    }
}

/// A row without a reset time tells no countdown, and one with a reset time does.
pub proof fn only_resets_are_counted_down(
    row: SummaryRow,
    reading: Reading,
    now: Timestamp,
    result: CardRow,
)
    requires
        rows::card_row_is(row, reading, now, result),
    ensures
        result.resets is Some <==> row.resets_at is Some,
        result.suffix@ == if row.disabled {
            "(off)"@
        } else {
            ""@
        },
        result.amount == reading.amount,
        result.meter == reading.meter,
{
}

/// What a reading says of a value: that it is used up from a hundred per cent on,
/// else what remains of it; money by its amount, limit and currency; credits and
/// counts by what is used and their limit; and of a state, only its name.
pub proof fn readings_say_the_value(value: SummaryValue, disabled: bool)
    ensures
        match value {
            SummaryValue::Remains { used } => if 0x4059000000000000u64 <= used.bits
                <= 0x7ff0000000000000u64 {
                reading::verb_of(value) == "used up"@ && reading::figure_of(value) is Nothing
            } else {
                reading::verb_of(value) == "remains"@ && reading::figure_of(value) == (
                FigureView::Left { used })
            },
            SummaryValue::Used { used } => reading::verb_of(value) == "used"@
                && reading::figure_of(value) == (FigureView::Percent { used }),
            SummaryValue::Balance { amount, currency } => reading::verb_of(value) == "balance"@
                && reading::figure_of(value) == (FigureView::Money {
                amount,
                limit: None,
                code: redact::cell_text(currency.code@),
            }),
            SummaryValue::Spent { amount, limit, currency } => reading::verb_of(value) == "spent"@
                && reading::figure_of(value) == (FigureView::Money {
                amount,
                limit: Some(limit),
                code: redact::cell_text(currency.code@),
            }),
            SummaryValue::Credits { used, limit } => reading::verb_of(value) == "credits"@
                && reading::figure_of(value) == (FigureView::Count { used, limit }),
            SummaryValue::Counted { used, limit } => reading::verb_of(value) == "used"@
                && reading::figure_of(value) == (FigureView::Count { used, limit }),
            SummaryValue::CreditsUnlimited => reading::verb_of(value) == "unlimited"@
                && reading::figure_of(value) is Nothing,
            SummaryValue::Disabled => reading::verb_of(value) == "disabled"@
                && reading::figure_of(value) is Nothing,
        },
        disabled ==> reading::mark_of(disabled) == "(off)"@,
        !disabled ==> reading::mark_of(disabled).len() == 0,
{
    reveal_strlit("");
}

/// A row goes by its window, and by its metric too unless that is plain usage.
pub proof fn rows_go_by_window_and_metric(window: Seq<char>, metric: Seq<char>)
    ensures
        metric == "usage"@ ==> rows::row_name(window, metric) == redact::cell_text(window),
        metric != "usage"@ ==> rows::row_name(window, metric) == redact::cell_text(window).push('-')
            + redact::cell_text(metric),
{
    reveal_strlit("-");
    assert("-"@ =~= seq!['-']);
    assert(redact::cell_text(window) + "-"@ =~= redact::cell_text(window).push('-'));
}

/// A character that parts the words of a row's name.
pub open spec fn parts_words(character: char) -> bool {
    character == '-' || character == '_' || character == ' '
}

/// A word: something with no parting character in it.
pub open spec fn one_word(word: Seq<char>) -> bool {
    word.len() > 0 && forall|i: int| 0 <= i < word.len() ==> !parts_words(#[trigger] word[i])
}

proof fn first_words_end_at_a_separator(word: Seq<char>, rest: Seq<char>)
    requires
        one_word(word),
        rest.len() > 0,
        parts_words(rest[0]),
    ensures
        rows::first_separator(word + rest) == word.len(),
    decreases word.len(),
{
    let whole = word + rest;
    assert(whole[0] == word[0]);
    if word.len() > 1 {
        let shorter = word.skip(1);
        assert forall|i: int| 0 <= i < shorter.len() implies !parts_words(
            #[trigger] shorter[i],
        ) by {
            assert(shorter[i] == word[i + 1]);
        }
        first_words_end_at_a_separator(shorter, rest);
        assert(whole.skip(1) =~= shorter + rest);
    } else {
        assert(whole.skip(1) =~= rest);
        assert(rows::first_separator(rest) == 0);
    }
}

/// A word that all of two or more rows start with is taken off all of them, with
/// what parts it from the rest; rows without such a word keep their names.
pub proof fn shared_words_come_off(
    names: Seq<Seq<char>>,
    word: Seq<char>,
    rests: Seq<Seq<char>>,
)
    requires
        names.len() == rests.len(),
        one_word(word),
        forall|i: int|
            0 <= i < names.len() ==> {
                let name = #[trigger] names[i];
                &&& name.len() > word.len()
                &&& name.take(word.len() as int) == word
                &&& parts_words(name[word.len() as int])
                &&& name.skip(word.len() as int + 1) == rests[i]
                &&& rests[i].len() > 0
                &&& !parts_words(rests[i][0])
            },
    ensures
        names.len() >= 2 ==> rows::stripped(names) == rows::stripped(rests),
        names.len() < 2 ==> rows::stripped(names) == names,
{
    if names.len() >= 2 {
        let length = word.len() as int;
        let first = names[0];
        assert(first =~= word + first.skip(length));
        assert(first.skip(length)[0] == first[length]);
        first_words_end_at_a_separator(word, first.skip(length));
        assert(rows::first_separator(first) == length);
        assert forall|i: int| 0 <= i < names.len() implies rows::repeats(#[trigger] names[i], word)
            && rows::shortened(names[i], length) == rests[i] by {
            let name = names[i];
            let tail = name.skip(length);
            assert(tail[0] == name[length]);
            assert(tail.skip(1) =~= rests[i]);
            assert(rows::without_separators(rests[i]) == rests[i]);
            assert(rows::without_separators(tail) == rests[i]);
        }
        assert(rows::shared(names));
        assert(names.map_values(|name: Seq<char>| rows::shortened(name, length)) =~= rests);
    }
}

/// Where two rows start with different characters, or one is a single word, no
/// name is shortened; what is left of a name is always its end.
pub proof fn other_names_stay(names: Seq<Seq<char>>, place: int)
    requires
        0 <= place < names.len(),
    ensures
        one_word(names[place]) ==> rows::stripped(names) == names,
        names[0].len() > 0 && names[place].len() > 0 && names[0][0] != names[place][0]
            ==> rows::stripped(names) == names,
{
    if rows::shared(names) {
        let prefix = names[0].take(rows::first_separator(names[0]));
        assert(rows::repeats(names[place], prefix));
        assert(rows::repeats(names[0], prefix));
        if one_word(names[place]) {
            assert(!parts_words(names[place][prefix.len() as int]));
        }
        if names[0].len() > 0 && names[place].len() > 0 {
            assert(prefix[0] == names[place][0]);
            assert(prefix[0] == names[0][0]);
        }
    }
}

/// A card tells in its notices that the snapshot is stale, that a limit was
/// reached, how many items could not be had, and that nothing is summarized; each
/// exactly where it holds, and nothing else.
pub proof fn notices_tell_what_holds(snapshot: SnapshotPayload, limit_reached: bool, count: nat)
    ensures
        ({
            let notices = rows::notices_of(snapshot, limit_reached, count);
            let missing = match snapshot.usage {
                QueryOutcome::Partial { .. } => 1int,
                QueryOutcome::Complete { .. } => 0,
            };
            &&& notices.contains("! stale snapshot"@) <==> snapshot.stale
            &&& notices.contains("! limit reached"@) <==> limit_reached
            &&& notices.contains("! no summarized metrics"@) <==> count == 0
            &&& snapshot.usage matches QueryOutcome::Partial { failures, .. } ==> notices.contains(
                "! "@ + text::decimal_digits(failures@.len()) + " item(s) unavailable"@,
            )
            &&& notices.len() == missing + (if snapshot.stale {
                1int
            } else {
                0
            }) + (if limit_reached {
                1int
            } else {
                0
            }) + (if count == 0 {
                1int
            } else {
                0
            })
        }),
{
    reveal_strlit("! stale snapshot");
    reveal_strlit("! limit reached");
    reveal_strlit("! no summarized metrics");
    reveal_strlit("! ");
    reveal_strlit(" item(s) unavailable");
    let notices = rows::notices_of(snapshot, limit_reached, count);
    let stale = "! stale snapshot"@;
    let limited = "! limit reached"@;
    let empty = "! no summarized metrics"@;
    assert(stale[2] == 's' && limited[2] == 'l' && empty[2] == 'n');
    let first: int = if snapshot.stale {
        1
    } else {
        0
    };
    let second: int = first + if limit_reached {
        1int
    } else {
        0
    };
    let third: int = second + if snapshot.usage is Partial {
        1int
    } else {
        0
    };
    if snapshot.stale {
        assert(notices[0] == stale);
    }
    if limit_reached {
        assert(notices[first] == limited);
    }
    if count == 0 {
        assert(notices[third] == empty);
    }
    if let QueryOutcome::Partial { failures, .. } = snapshot.usage {
        let missing = "! "@ + text::decimal_digits(failures@.len()) + " item(s) unavailable"@;
        texts::digits_say_the_number(failures@.len());
        assert(missing[2] == text::decimal_digits(failures@.len())[0]);
        assert('0' <= missing[2] <= '9');
        assert(notices[second] == missing);
    }
    assert forall|i: int| 0 <= i < notices.len() implies {
        &&& (#[trigger] notices[i])[2] == 's' ==> i < first
        &&& notices[i][2] == 'l' ==> first <= i < second
        &&& notices[i][2] == 'n' ==> third <= i
    } by {
        if i < first {
        } else if i < second {
        } else if i < third {
        } else {
            assert(notices[i] == empty);
        }
    }
}

/// A card's title tells the report's provider, the account, and the plan where one
/// is named.
pub proof fn titles_tell_provider_account_and_plan(snapshot: SnapshotPayload, title: CardTitle)
    requires
        rows::title_is(snapshot, title),
    ensures
        title.provider@ == redact::cell_text(snapshot.usage.payload().provider@),
        title.account@ == redact::cell_text(snapshot.account_id@),
        title.plan is Some <==> snapshot.usage.payload().plan is Some && text::trimmed(
            snapshot.usage.payload().plan->0@,
        ).len() > 0,
        title.plan matches Some(plan) ==> plan@ == redact::cell_text(
            snapshot.usage.payload().plan->0@,
        ),
{
}

/// A bar is filled from its right end, as far as it is long.
pub proof fn bars_fill_from_the_right(filled: nat, length: nat)
    ensures
        cards::bar(filled, length).len() == length,
        forall|i: int|
            0 <= i < length ==> #[trigger] cards::bar(filled, length)[i] == if i < length - filled {
                '┄'
            } else {
                '━'
            },
{
}

/// A card has the richest layout that fits: the one it takes fits in its width,
/// unless it is the least, and none that keeps more would.
pub proof fn the_richest_fitting_layout_is_taken(columns: RowLayout, width: nat, other: Tier)
    ensures
        ({
            let taken = columns.fitting_tier(width);
            &&& !(taken is Minimal) ==> columns.tier_cells(taken) <= width
            &&& laws::tier_rank(other) < laws::tier_rank(taken) ==> columns.tier_cells(other)
                > width
        }),
        laws::tier_rank(Tier::Full) < laws::tier_rank(Tier::MiniBar) < laws::tier_rank(Tier::NoVerb)
            < laws::tier_rank(Tier::NoBar) < laws::tier_rank(Tier::NoReset) < laws::tier_rank(
            Tier::Minimal,
        ),
{
}

/// A column is as wide as its widest text.
pub open spec fn widest(sizes: Seq<nat>, column: nat) -> bool {
    &&& forall|i: int| 0 <= i < sizes.len() ==> #[trigger] sizes[i] <= column
    &&& column == 0 || sizes.contains(column)
}

pub proof fn widest_of_more(before: Seq<nat>, column: nat, size: nat, sizes: Seq<nat>)
    requires
        widest(before, column),
        sizes == before.push(size),
    ensures
        widest(sizes, cards::greater(column, size)),
{
    assert forall|i: int| 0 <= i < sizes.len() implies #[trigger] sizes[i] <= cards::greater(
        column,
        size,
    ) by {
        if i < before.len() {
            assert(sizes[i] == before[i]);
        }
    }
    if column < size {
        assert(sizes[before.len() as int] == size);
    } else if column > 0 {
        let i = choose|i: int| 0 <= i < before.len() && before[i] == column;
        assert(sizes[i] == column);
    }
}

/// The columns that cards share are as wide as the widest text of each, and there
/// is a bar, of ten cells or of four, exactly where some row has a meter.
pub proof fn columns_are_as_wide_as_their_widest(rows: Seq<CardRow>, layout: RowLayout)
    requires
        cards::measures(rows, layout),
    ensures
        widest(
            rows.map_values(|row: CardRow| width::cells(row.identity@)),
            layout.identity as nat,
        ),
        widest(rows.map_values(|row: CardRow| width::cells(row.verb@)), layout.verb as nat),
        widest(rows.map_values(|row: CardRow| width::cells(row.amount@)), layout.amount as nat),
        widest(rows.map_values(|row: CardRow| width::cells(row.suffix@)), layout.suffix as nat),
        widest(
            rows.map_values(
                |row: CardRow|
                    width::cells(
                        if row.amount@.len() == 0 {
                            row.verb@
                        } else {
                            row.amount@
                        },
                    ),
            ),
            layout.reading as nat,
        ),
        widest(
            rows.map_values(
                |row: CardRow|
                    width::cells(
                        if row.resets is Some {
                            row.resets->0@
                        } else {
                            Seq::empty()
                        },
                    ),
            ),
            layout.resets as nat,
        ),
        layout.bar == if exists|i: int| 0 <= i < rows.len() && (#[trigger] rows[i]).meter is Some {
            10int
        } else {
            0
        },
        layout.mini == if exists|i: int| 0 <= i < rows.len() && (#[trigger] rows[i]).meter is Some {
            4int
        } else {
            0
        },
    decreases rows.len(),
{
    let identities = |row: CardRow| width::cells(row.identity@);
    let verbs = |row: CardRow| width::cells(row.verb@);
    let amounts = |row: CardRow| width::cells(row.amount@);
    let suffixes = |row: CardRow| width::cells(row.suffix@);
    let readings = |row: CardRow|
        width::cells(
            if row.amount@.len() == 0 {
                row.verb@
            } else {
                row.amount@
            },
        );
    let resets = |row: CardRow|
        width::cells(
            if row.resets is Some {
                row.resets->0@
            } else {
                Seq::empty()
            },
        );
    if rows.len() > 0 {
        let before = choose|before: RowLayout|
            cards::measures(rows.drop_last(), before) && #[trigger] cards::widened(
                before,
                rows.last(),
                layout,
            );
        let front = rows.drop_last();
        let last = rows.last();
        columns_are_as_wide_as_their_widest(front, before);
        assert(rows.map_values(identities) =~= front.map_values(identities).push(identities(last)));
        assert(rows.map_values(verbs) =~= front.map_values(verbs).push(verbs(last)));
        assert(rows.map_values(amounts) =~= front.map_values(amounts).push(amounts(last)));
        assert(rows.map_values(suffixes) =~= front.map_values(suffixes).push(suffixes(last)));
        assert(rows.map_values(readings) =~= front.map_values(readings).push(readings(last)));
        assert(rows.map_values(resets) =~= front.map_values(resets).push(resets(last)));
        assert(cards::reading_of(last) == if last.amount@.len() == 0 {
            last.verb@
        } else {
            last.amount@
        });
        assert(cards::resets_of(last) == if last.resets is Some {
            last.resets->0@
        } else {
            Seq::empty()
        });
        widest_of_more(
            front.map_values(identities),
            before.identity as nat,
            identities(last),
            rows.map_values(identities),
        );
        widest_of_more(
            front.map_values(verbs),
            before.verb as nat,
            verbs(last),
            rows.map_values(verbs),
        );
        widest_of_more(
            front.map_values(amounts),
            before.amount as nat,
            amounts(last),
            rows.map_values(amounts),
        );
        widest_of_more(
            front.map_values(suffixes),
            before.suffix as nat,
            suffixes(last),
            rows.map_values(suffixes),
        );
        widest_of_more(
            front.map_values(readings),
            before.reading as nat,
            readings(last),
            rows.map_values(readings),
        );
        widest_of_more(
            front.map_values(resets),
            before.resets as nat,
            resets(last),
            rows.map_values(resets),
        );
        assert forall|i: int| 0 <= i < front.len() implies front[i] == #[trigger] rows[i] by {}
        if last.meter is Some {
            assert(rows[rows.len() - 1].meter is Some);
        } else if exists|i: int| 0 <= i < front.len() && (#[trigger] front[i]).meter is Some {
            let i = choose|i: int| 0 <= i < front.len() && (#[trigger] front[i]).meter is Some;
            assert(rows[i].meter is Some);
        }
    }
}

/// The rows of all cards are those of each card, card by card.
pub proof fn cards_give_their_rows_in_order(first: Seq<Card>, second: Seq<Card>, only: Card)
    ensures
        cards::all_rows(first + second) == cards::all_rows(first) + cards::all_rows(second),
        cards::all_rows(seq![only]) == only.rows@,
    decreases second.len(),
{
    let one = seq![only];
    assert(one.drop_last() =~= Seq::<Card>::empty());
    assert(cards::all_rows(one.drop_last()) =~= Seq::<CardRow>::empty());
    assert(cards::all_rows(one) =~= only.rows@);
    let whole = first + second;
    if second.len() > 0 {
        cards_give_their_rows_in_order(first, second.drop_last(), only);
        assert(whole.drop_last() =~= first + second.drop_last());
        assert(whole.last() == second.last());
    } else {
        assert(whole =~= first);
    }
    assert(cards::all_rows(whole) =~= cards::all_rows(first) + cards::all_rows(second));
}

proof fn columns_are_added(
    line: Seq<SpanView>,
    target: Seq<char>,
    column: nat,
    tone: Tone,
    right: bool,
)
    ensures
        ({
            let after = cards::with_column(line, target, column, tone, right);
            &&& line.len() <= after.len()
            &&& after.take(line.len() as int) == line
            &&& column > 0 ==> after.contains(
                SpanView { text: width::clipped(target, column), tone },
            )
        }),
        forall|span: SpanView| #[trigger]
            line.contains(span) ==> cards::with_column(line, target, column, tone, right).contains(
                span,
            ),
{
    let after = cards::with_column(line, target, column, tone, right);
    assert(after.take(line.len() as int) =~= line);
    assert forall|span: SpanView| #[trigger] line.contains(span) implies after.contains(span) by {
        let i = choose|i: int| 0 <= i < line.len() && line[i] == span;
        assert(after[i] == span);
    }
    if column > 0 {
        let kept = width::clipped(target, column);
        let piece = SpanView { text: kept, tone };
        if width::cells(kept) >= column || right {
            assert(after[after.len() - 1] == piece);
        } else {
            assert(after[after.len() - 2] == piece);
        }
    }
}

/// The span is a column's text, cut to the column's width.
pub open spec fn column_text(target: Seq<char>, column: usize, tone: Tone) -> SpanView {
    SpanView { text: width::clipped(target, column as nat), tone }
}

/// What a card shows of a row in each layout, of the columns that the cards have:
/// the row's name and reading always; in words where there is room for them; the
/// countdown until the layout that leaves it out; and a bar, whole or small, in
/// the three richest. The reading and the bar are in the meter's colour.
pub proof fn rows_show_what_their_layout_keeps(
    row: CardRow,
    layout: RowLayout,
    tier: Tier,
    width: nat,
)
    ensures
        ({
            let line = cards::row_spans(row, layout, tier, width);
            let colour = match row.meter {
                Some(meter) => Tone::Reading(meter.severity),
                None => Tone::Plain,
            };
            let resets = match row.resets {
                Some(resets) => resets@,
                None => Seq::empty(),
            };
            let said = if row.amount@.len() == 0 {
                row.verb@
            } else {
                row.amount@
            };
            let wordy = tier is Full || tier is MiniBar;
            &&& !(tier is Minimal) && layout.identity > 0 ==> line.contains(
                column_text(row.identity@, layout.identity, Tone::Plain),
            )
            &&& wordy && layout.verb > 0 ==> line.contains(
                column_text(row.verb@, layout.verb, Tone::Dim),
            )
            &&& wordy && layout.amount > 0 ==> line.contains(
                column_text(row.amount@, layout.amount, colour),
            )
            &&& !wordy && !(tier is Minimal) && layout.reading > 0 ==> line.contains(
                column_text(said, layout.reading, colour),
            )
            &&& tier is Minimal ==> line.contains(
                SpanView { text: width::clipped(said, width), tone: colour },
            )
            &&& !(tier is Minimal) && layout.suffix > 0 ==> line.contains(
                column_text(row.suffix@, layout.suffix, Tone::Dim),
            )
            &&& !(tier is Minimal) && !(tier is NoReset) && layout.resets > 0 ==> line.contains(
                column_text(resets, layout.resets, Tone::Dim),
            )
            &&& tier is Full && layout.bar > 0 && row.meter is Some ==> line.contains(
                column_text(cards::bar(row.meter->0.filled as nat, 10), layout.bar, colour),
            )
            &&& (tier is MiniBar || tier is NoVerb) && layout.mini > 0 && row.meter is Some
                ==> line.contains(
                column_text(cards::bar(row.meter->0.mini_filled as nat, 4), layout.mini, colour),
            )
        }),
{
    let colour = cards::amount_tone(row);
    let said = cards::reading_of(row);
    let empty = Seq::<SpanView>::empty();
    if tier is Minimal {
        let line = cards::row_spans(row, layout, tier, width);
        assert(line[line.len() - 1] == SpanView { text: width::clipped(said, width), tone: colour });
    } else {
        let identity = layout.identity as nat;
        columns_are_added(empty, row.identity@, identity, Tone::Plain, false);
        let named = cards::with_column(empty, row.identity@, identity, Tone::Plain, false);
        columns_are_added(named, row.verb@, layout.verb as nat, Tone::Dim, false);
        let verbed = cards::with_column(named, row.verb@, layout.verb as nat, Tone::Dim, false);
        columns_are_added(verbed, row.amount@, layout.amount as nat, colour, true);
        columns_are_added(named, said, layout.reading as nat, colour, true);
        let read = if tier == Tier::Full || tier == Tier::MiniBar {
            cards::with_column(verbed, row.amount@, layout.amount as nat, colour, true)
        } else {
            cards::with_column(named, said, layout.reading as nat, colour, true)
        };
        columns_are_added(read, row.suffix@, layout.suffix as nat, Tone::Dim, false);
        let start = cards::row_start(row, layout, tier);
        let resets = cards::resets_of(row);
        columns_are_added(start, resets, layout.resets as nat, Tone::Dim, true);
        let timed = if tier == Tier::NoReset {
            start
        } else {
            cards::with_column(start, resets, layout.resets as nat, Tone::Dim, true)
        };
        columns_are_added(timed, cards::full_bar_of(row), layout.bar as nat, colour, false);
        columns_are_added(timed, cards::mini_bar_of(row), layout.mini as nat, colour, false);
    }
}

/// The columns that a layout keeps take their widths and a blank between any two.
pub proof fn layouts_take_the_columns_they_keep(columns: RowLayout, tier: Tier)
    requires
        columns.identity > 0,
        columns.verb > 0,
        columns.amount > 0,
        columns.reading > 0,
        columns.suffix > 0,
        columns.resets > 0,
        columns.bar > 0,
        columns.mini > 0,
    ensures
        columns.tier_cells(Tier::Full) == columns.identity + 1 + columns.verb + 1 + columns.amount
            + 1 + columns.suffix + 1 + columns.resets + 1 + columns.bar,
        columns.tier_cells(Tier::MiniBar) == columns.identity + 1 + columns.verb + 1
            + columns.amount + 1 + columns.suffix + 1 + columns.resets + 1 + columns.mini,
        columns.tier_cells(Tier::NoVerb) == columns.identity + 1 + columns.reading + 1
            + columns.suffix + 1 + columns.resets + 1 + columns.mini,
        columns.tier_cells(Tier::NoBar) == columns.identity + 1 + columns.reading + 1
            + columns.suffix + 1 + columns.resets,
        columns.tier_cells(Tier::NoReset) == columns.identity + 1 + columns.reading + 1
            + columns.suffix,
        columns.tier_cells(Tier::Minimal) == columns.identity + 1 + columns.reading,
{
}

/// A title with room for all of it names the provider, the plan and the account,
/// in this order and two cells apart, and the provider stands out.
pub proof fn titles_name_all_that_fits(title: CardTitle, budget: nat)
    requires
        title.provider@.len() > 0,
        title.account@.len() > 0,
        title.plan is Some,
        title.plan->0@.len() > 0,
        width::cells(title.provider@) + 2 + width::cells(title.plan->0@) + 2 + width::cells(
            title.account@,
        ) <= budget,
        width::cells(title.account@) > 0,
    ensures
        cards::title_view(title, budget).spans == seq![
            SpanView { text: title.provider@, tone: Tone::Title },
            SpanView { text: seq![' ', ' '], tone: Tone::Plain },
            SpanView { text: title.plan->0@, tone: Tone::Dim },
            SpanView { text: seq![' ', ' '], tone: Tone::Plain },
            SpanView { text: title.account@, tone: Tone::Dim },
        ],
{
    assert(width::repeated(' ', 2) =~= seq![' ', ' ']);
    let none = cards::TitleView { spans: Seq::empty(), used: 0 };
    let provider = cards::with_name(none, title.provider@, Tone::Title, budget);
    assert(provider.spans =~= seq![SpanView { text: title.provider@, tone: Tone::Title }]);
    assert(provider.used == width::cells(title.provider@));
    let plan = cards::with_name(provider, title.plan->0@, Tone::Dim, budget);
    assert(plan.used == provider.used + 2 + width::cells(title.plan->0@));
    assert(cards::title_view(title, budget).spans =~= seq![
        SpanView { text: title.provider@, tone: Tone::Title },
        SpanView { text: seq![' ', ' '], tone: Tone::Plain },
        SpanView { text: title.plan->0@, tone: Tone::Dim },
        SpanView { text: seq![' ', ' '], tone: Tone::Plain },
        SpanView { text: title.account@, tone: Tone::Dim },
    ]);
}

/// The first character of a line, and its last.
pub open spec fn starts_and_ends(line: Seq<SpanView>, first: char, last: char) -> bool {
    &&& line.len() > 0
    &&& line[0].text.len() > 0
    &&& line[0].text[0] == first
    &&& line.last().text.len() > 0
    &&& line.last().text.last() == last
}

/// A card is framed: its first line runs from corner to corner, so does its last,
/// and each line between stands between two sides.
pub proof fn cards_are_framed(card: Card, width: nat, columns: RowLayout, place: int)
    requires
        width >= 2,
        0 <= place < card.lines(),
    ensures
        ({
            let line = cards::card_line(card, width, columns, place);
            if place == 0 {
                starts_and_ends(line, '╭', '╮')
            } else if place == card.lines() - 1 {
                starts_and_ends(line, '╰', '╯')
            } else {
                starts_and_ends(line, '│', '│')
            }
        }),
{
}

/// A line of a card holds what it frames: a row's line its row, in the layout that
/// fits, and a notice's line that notice, cut to the card's width.
pub proof fn framed_lines_hold_their_content(
    card: Card,
    width: nat,
    columns: RowLayout,
    place: int,
    span: SpanView,
)
    requires
        width >= 2,
    ensures
        ({
            let content = cards::content_cells(width);
            let tier = columns.fitting_tier(content);
            &&& 1 <= place <= card.rows@.len() && cards::row_spans(
                card.rows@[place - 1],
                columns.widened_to(tier, content),
                tier,
                content,
            ).contains(span) ==> cards::card_line(card, width, columns, place).contains(span)
            &&& card.rows@.len() < place <= card.rows@.len() + card.notices@.len()
                ==> cards::card_line(card, width, columns, place).contains(
                SpanView {
                    text: width::clipped(card.notices@[place - 1 - card.rows@.len()]@, content),
                    tone: Tone::Notice,
                },
            )
        }),
        width >= 4 ==> cards::content_cells(width) == width - 4,
        width < 4 ==> cards::content_cells(width) == width - 2,
{
    let content = cards::content_cells(width);
    let tier = columns.fitting_tier(content);
    if 1 <= place <= card.rows@.len() {
        let inner = cards::row_spans(
            card.rows@[place - 1],
            columns.widened_to(tier, content),
            tier,
            content,
        );
        if inner.contains(span) {
            frames_keep_their_content(inner, width, span);
        }
    }
    if card.rows@.len() < place <= card.rows@.len() + card.notices@.len() {
        let notice = SpanView {
            text: width::clipped(card.notices@[place - 1 - card.rows@.len()]@, content),
            tone: Tone::Notice,
        };
        let inner = seq![notice];
        assert(inner[0] == notice);
        frames_keep_their_content(inner, width, notice);
    }
}

proof fn frames_keep_their_content(inner: Seq<SpanView>, width: nat, span: SpanView)
    requires
        width >= 2,
        inner.contains(span),
    ensures
        cards::framed(inner, width).contains(span),
{
    let line = cards::framed(inner, width);
    let i = choose|i: int| 0 <= i < inner.len() && inner[i] == span;
    let lead: int = if cards::margin(width) > 0 {
        2
    } else {
        1
    };
    assert(line[lead + i] == span);
}

/// As many columns of cards stand side by side as fit with two cells between them,
/// and at least one.
pub proof fn as_many_columns_as_fit(width: int, preferred: int)
    requires
        width >= 0,
        preferred >= 1,
    ensures
        ({
            let columns = place::column_count(width, preferred);
            &&& columns >= 1
            &&& columns > 1 ==> columns * preferred + 2 * (columns - 1) <= width
            &&& (columns + 1) * preferred + 2 * columns > width
        }),
{
    let columns = place::column_count(width, preferred);
    let fitting = (width + 2) / (preferred + 2);
    vstd::arithmetic::div_mod::lemma_fundamental_div_mod(width + 2, preferred + 2);
    vstd::arithmetic::div_mod::lemma_mod_bound(width + 2, preferred + 2);
    assert((preferred + 2) * fitting == fitting * preferred + 2 * fitting) by (nonlinear_arith);
    assert((columns + 1) * preferred == columns * preferred + preferred) by (nonlinear_arith);
    if fitting < 1 {
        assert(columns == 1);
        assert(fitting >= 0) by (nonlinear_arith)
            requires
                fitting == (width + 2) / (preferred + 2),
                width >= 0,
                preferred >= 1,
        ;
        assert(fitting == 0);
        assert(fitting * preferred == 0) by (nonlinear_arith)
            requires
                fitting == 0,
        ;
        assert(columns * preferred == preferred) by (nonlinear_arith)
            requires
                columns == 1,
        ;
    }
}

/// A card prefers the width that its rows need in full between its borders and
/// margins, but no less than 42 cells.
pub proof fn cards_prefer_what_their_rows_need(columns: RowLayout)
    ensures
        place::preferred_width(columns) >= 42,
        columns.tier_cells(Tier::Full) + 4 <= 42 ==> place::preferred_width(columns) == 42,
        42 <= columns.tier_cells(Tier::Full) + 4 <= 65535 ==> place::preferred_width(columns)
            == columns.tier_cells(Tier::Full) + 4,
{
}

/// The tallest of some cards is as tall as one of them and none is taller.
pub proof fn the_tallest_is_the_tallest(heights: Seq<u16>, from: int, to: int)
    requires
        from < to,
    ensures
        forall|i: int| from <= i < to ==> #[trigger] heights[i] <= place::tallest(heights, from, to),
        exists|i: int| from <= i < to && #[trigger] heights[i] == place::tallest(heights, from, to),
    decreases to - from,
{
    if from < to - 1 {
        the_tallest_is_the_tallest(heights, from, to - 1);
        let before = place::tallest(heights, from, to - 1);
        let i = choose|i: int| from <= i < to - 1 && #[trigger] heights[i] == before;
        if before < heights[to - 1] {
            assert(heights[to - 1] == place::tallest(heights, from, to));
        } else {
            assert(heights[i] == place::tallest(heights, from, to));
        }
    } else {
        assert(place::tallest(heights, from, to - 1) == 0);
        assert(heights[to - 1] == place::tallest(heights, from, to));
    }
}

/// Bands of cards stand below one another with one free line between, from the top
/// on: each starts one line below the tallest card of the band above it.
pub proof fn bands_follow_one_another(heights: Seq<u16>, columns: int, band: int)
    requires
        columns >= 1,
        band >= 0,
    ensures
        place::band_top(heights, columns, 0) == 0,
        place::band_top(heights, columns, band) + place::tallest(
            heights,
            band * columns,
            (band + 1) * columns,
        ) + 1 <= 65535 ==> place::band_top(heights, columns, band + 1) == place::band_top(
            heights,
            columns,
            band,
        ) + place::tallest(heights, band * columns, (band + 1) * columns) + 1,
{
}

/// A card in a stack is centred, to the cell, and takes the width it prefers where
/// there is room for it; its height is its own.
pub proof fn stacked_cards_are_centred(
    width: int,
    heights: Seq<u16>,
    preferred: int,
    index: int,
    rect: Rect,
)
    requires
        place::stacked(width, heights, preferred, index, rect),
    ensures
        preferred <= width ==> rect.width == preferred,
        preferred >= width ==> rect.width == width,
        0 <= width - rect.width - 2 * rect.x <= 1,
        rect.height == heights[index],
        index == 0 ==> rect.y == 0,
{
}

/// Columns share the width evenly: no two differ by more than a cell, and the
/// wider ones come first.
pub proof fn columns_share_the_width(width: int, columns: int, left: int, right: int)
    requires
        columns >= 1,
        place::shared_cells(width, columns) >= 0,
        0 <= left <= right < columns,
    ensures
        place::column_cells(width, columns, right) <= place::column_cells(width, columns, left)
            <= place::column_cells(width, columns, right) + 1,
        place::shared_cells(width, columns) == width - 2 * (columns - 1),
{
}

/// The content is as high as its lowest card reaches.
pub proof fn content_reaches_to_the_lowest_card(rects: Seq<Rect>)
    ensures
        place::lowest(rects) <= 65535,
        forall|i: int|
            0 <= i < rects.len() ==> (#[trigger] rects[i]).y + rects[i].height <= place::lowest(
                rects,
            ) || place::lowest(rects) == 65535,
        place::lowest(rects) == 0 || exists|i: int|
            0 <= i < rects.len() && (place::lowest(rects) == (#[trigger] rects[i]).y
                + rects[i].height || (place::lowest(rects) == 65535 && rects[i].y + rects[i].height
                >= 65535)),
    decreases rects.len(),
{
    if rects.len() > 0 {
        let front = rects.drop_last();
        content_reaches_to_the_lowest_card(front);
        assert forall|i: int| 0 <= i < rects.len() implies (#[trigger] rects[i]).y
            + rects[i].height <= place::lowest(rects) || place::lowest(rects) == 65535 by {
            if i < front.len() {
                assert(front[i] == rects[i]);
            }
        }
        if place::lowest(rects) != 0 {
            if place::lowest(front) < rects.last().below() {
                assert(rects[rects.len() - 1] == rects.last());
            } else {
                let i = choose|i: int|
                    0 <= i < front.len() && (place::lowest(front) == (#[trigger] front[i]).y
                        + front[i].height || (place::lowest(front) == 65535 && front[i].y
                        + front[i].height >= 65535));
                assert(front[i] == rects[i]);
            }
        }
    }
}

/// Sorted cards are the cards given, each once, in the order of their providers'
/// names in any case, then of their accounts in any case; where those are equal,
/// in that of the names as they are written.
pub proof fn sorted_cards_go_by_provider_and_account(
    given: Seq<Card>,
    result: Seq<Card>,
    left: int,
    right: int,
)
    requires
        sort::sorted(given, result),
        0 <= left < right < result.len(),
    ensures
        result.len() == given.len(),
        given.contains(result[left]),
        ({
            let first = result[left].title;
            let second = result[right].title;
            let provider = text::lower_case(first.provider@);
            let other_provider = text::lower_case(second.provider@);
            let account = text::lower_case(first.account@);
            let other_account = text::lower_case(second.account@);
            ||| text::comes_before(provider, other_provider)
            ||| provider == other_provider && text::comes_before(account, other_account)
            ||| provider == other_provider && account == other_account && (text::comes_before(
                first.provider@,
                second.provider@,
            ) || first.provider@ == second.provider@ && (text::comes_before(
                first.account@,
                second.account@,
            ) || first.account@ == second.account@))
        }),
{
    let order = choose|order: Seq<int>| #[trigger] sort::in_order(given, order, result);
    assert(result[left] == given[order[left]]);
    assert(result[right] == given[order[right]]);
    assert(sort::goes_before(given, order[left], order[right]));
    let first = sort::sort_key(result[left].title);
    let second = sort::sort_key(result[right].title);
    if first == second {
        assert(first[0] == second[0] && first[1] == second[1] && first[2] == second[2] && first[3]
            == second[3]);
    } else {
        let place = choose|place: int| sort::decided_at(first, second, place);
        let start = first.take(place);
        assert(start == second.take(place));
        assert forall|i: int| 0 <= i < place implies first[i] == second[i] by {
            assert(start[i] == first[i]);
            assert(second.take(place)[i] == second[i]);
        }
        assert(0 <= place < 4);
        if place >= 1 {
            assert(first[0] == second[0]);
        }
        if place >= 2 {
            assert(first[1] == second[1]);
        }
        if place >= 3 {
            assert(first[2] == second[2]);
        }
    }
}

/// A line is as wide as its parts together.
pub proof fn lines_are_as_wide_as_their_parts(
    first: Seq<SpanView>,
    second: Seq<SpanView>,
    only: SpanView,
)
    ensures
        cards::line_cells(first + second) == cards::line_cells(first) + cards::line_cells(second),
        cards::line_cells(seq![only]) == width::cells(only.text),
    decreases second.len(),
{
    let one = seq![only];
    assert(one.drop_last() =~= Seq::<SpanView>::empty());
    assert(cards::line_cells(one.drop_last()) == 0);
    let whole = first + second;
    if second.len() > 0 {
        lines_are_as_wide_as_their_parts(first, second.drop_last(), only);
        assert(whole.drop_last() =~= first + second.drop_last());
        assert(whole.last() == second.last());
    } else {
        assert(whole =~= first);
    }
}

/// Cards side by side go from left to right and then to the next band: each two cells
/// behind the one before it, in a column that the band above has too.
pub proof fn cards_go_from_left_to_right(
    width: int,
    heights: Seq<u16>,
    columns: int,
    index: int,
    left: Rect,
    right: Rect,
)
    requires
        columns >= 1,
        place::shared_cells(width, columns) >= 0,
        0 <= index,
        index % columns + 1 < columns,
        place::banded(width, heights, columns, index, left),
        place::banded(width, heights, columns, index + 1, right),
    ensures
        right.x == left.x + left.width + 2,
        right.y == left.y,
        left.height == heights[index],
        index % columns == 0 ==> left.x == 0,
        index < columns ==> left.y == 0,
{
    vstd::arithmetic::div_mod::lemma_fundamental_div_mod(index, columns);
    let quotient = index / columns;
    let rest = index % columns;
    vstd::arithmetic::div_mod::lemma_fundamental_div_mod_converse(
        index + 1,
        columns,
        quotient,
        rest + 1,
    );
    assert((index + 1) / columns == quotient);
    assert((index + 1) % columns == rest + 1);
    place::bands_fill_the_width(width, columns, rest);
    if index < columns {
        vstd::arithmetic::div_mod::lemma_small_mod(index as nat, columns as nat);
        assert(columns * quotient == 0);
        assert(quotient == 0) by (nonlinear_arith)
            requires
                columns * quotient == 0,
                columns >= 1,
        ;
    }
}

/// Shortening the names of rows changes nothing else of them.
pub proof fn shortening_changes_names_alone(before: CardRow, after: CardRow)
    requires
        rows::same_but_name(before, after),
    ensures
        after.verb == before.verb,
        after.amount == before.amount,
        after.suffix == before.suffix,
        after.resets == before.resets,
        after.meter == before.meter,
{
}

/// A title that has no room for all of it still starts with the provider; and the
/// border of a card that is wide enough holds its title.
pub proof fn borders_hold_their_title(title: CardTitle, width: nat, span: SpanView)
    requires
        width >= 6,
        title.provider@.len() > 0,
    ensures
        cards::title_view(title, (width - 5) as nat).spans.len() > 0,
        cards::title_view(title, (width - 5) as nat).spans[0] == (SpanView {
            text: width::clipped(title.provider@, (width - 5) as nat),
            tone: Tone::Title,
        }),
        cards::line_cells(cards::title_view(title, (width - 5) as nat).spans) > 0
            && cards::title_view(title, (width - 5) as nat).spans.contains(span)
            ==> cards::titled_border(title, width).contains(span),
{
    let budget = (width - 5) as nat;
    let spans = cards::title_view(title, budget).spans;
    let none = cards::TitleView { spans: Seq::empty(), used: 0 };
    let provider = cards::with_name(none, title.provider@, Tone::Title, budget);
    assert(provider.spans[0] == SpanView {
        text: width::clipped(title.provider@, budget),
        tone: Tone::Title,
    });
    let plan = cards::with_name(provider, cards::plan_of(title), Tone::Dim, budget);
    assert(plan.spans[0] == provider.spans[0]);
    assert(spans[0] == plan.spans[0]);
    if cards::line_cells(spans) > 0 && spans.contains(span) {
        let i = choose|i: int| 0 <= i < spans.len() && spans[i] == span;
        assert(cards::titled_border(title, width)[1 + i] == span);
    }
}

} // verus!
