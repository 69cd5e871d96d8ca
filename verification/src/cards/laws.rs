//! What holds of every card, however wide it is.

use vstd::prelude::*;

use crate::cards;
use crate::cards::{Card, CardRow, CardTitle, RowLayout, SpanView, Tier, TitleView, Tone};
use crate::width;

verus! {

/// The texts of a row can be cut to any number of cells.
pub open spec fn steady_row(row: CardRow) -> bool {
    &&& width::steady(row.identity@)
    &&& width::steady(row.verb@)
    &&& width::steady(row.amount@)
    &&& width::steady(row.suffix@)
    &&& width::steady(cards::resets_of(row))
}

/// The texts of a card can be cut to any number of cells.
pub open spec fn steady_card(card: Card) -> bool {
    &&& width::steady(card.title.provider@)
    &&& width::steady(cards::plan_of(card.title))
    &&& width::steady(card.title.account@)
    &&& forall|i: int| 0 <= i < card.rows@.len() ==> steady_row(#[trigger] card.rows@[i])
    &&& forall|i: int| 0 <= i < card.notices@.len() ==> width::steady((#[trigger] card.notices@[i])@)
}

proof fn one_piece_more(line: Seq<SpanView>, piece: SpanView)
    ensures
        cards::line_cells(line.push(piece)) == cards::line_cells(line) + width::cells(piece.text),
{
    assert(line.push(piece).drop_last() == line);
}

proof fn lines_add_up(first: Seq<SpanView>, second: Seq<SpanView>)
    ensures
        cards::line_cells(first + second) == cards::line_cells(first) + cards::line_cells(second),
    decreases second.len(),
{
    if second.len() == 0 {
        assert(first + second == first);
    } else {
        assert((first + second).drop_last() == first + second.drop_last());
        lines_add_up(first, second.drop_last());
    }
}

proof fn blanks_take_their_cells(count: nat)
    ensures
        width::cells(cards::blank(count).text) == count,
{
    width::repeated_is_plain(' ', count);
}

/// Whether the line takes no cell exactly if it has no piece.
spec fn sound(line: Seq<SpanView>) -> bool {
    line.len() == 0 <==> cards::line_cells(line) == 0
}

proof fn columns_take_their_cells(
    line: Seq<SpanView>,
    text: Seq<char>,
    column: nat,
    tone: Tone,
    right: bool,
)
    requires
        width::steady(text),
        sound(line),
    ensures
        ({
            let longer = cards::with_column(line, text, column, tone, right);
            &&& cards::line_cells(longer) == cards::column_more(cards::line_cells(line), column)
            &&& sound(longer)
        }),
{
    if column > 0 {
        let started = if line.len() == 0 {
            line
        } else {
            line.push(cards::blank(1))
        };
        one_piece_more(line, cards::blank(1));
        blanks_take_their_cells(1);
        let kept = width::clipped(text, column);
        let piece = SpanView { text: kept, tone };
        assert(width::cells(kept) <= column);
        one_piece_more(started, piece);
        if width::cells(kept) < column {
            let pad = cards::blank((column - width::cells(kept)) as nat);
            blanks_take_their_cells((column - width::cells(kept)) as nat);
            one_piece_more(started, pad);
            one_piece_more(started.push(pad), piece);
            one_piece_more(started.push(piece), pad);
        }
    }
}

proof fn bars_are_steady(filled: nat, length: nat)
    ensures
        width::steady(cards::bar(filled, length)),
{
    let bar = cards::bar(filled, length);
    assert forall|i: int| 0 <= i < bar.len() implies width::plain_character(#[trigger] bar[i]) by {}
    width::plain_text_is_steady(bar);
}

proof fn nothing_is_steady()
    ensures
        width::steady(Seq::<char>::empty()),
{
    width::plain_text_is_steady(Seq::<char>::empty());
}

proof fn rows_take_the_cells_of_their_tier(row: CardRow, layout: RowLayout, tier: Tier, width: nat)
    requires
        steady_row(row),
        tier != Tier::Minimal,
    ensures
        cards::line_cells(cards::row_spans(row, layout, tier, width)) == layout.tier_cells(tier),
{
    let none = Seq::<SpanView>::empty();
    let identity = layout.identity as nat;
    let tone = cards::amount_tone(row);
    assert(cards::line_cells(none) == 0);
    columns_take_their_cells(none, row.identity@, identity, Tone::Plain, false);
    let named = cards::with_column(none, row.identity@, identity, Tone::Plain, false);
    columns_take_their_cells(named, row.verb@, layout.verb as nat, Tone::Dim, false);
    let worded = cards::with_column(named, row.verb@, layout.verb as nat, Tone::Dim, false);
    columns_take_their_cells(worded, row.amount@, layout.amount as nat, tone, true);
    assert(width::steady(cards::reading_of(row)));
    columns_take_their_cells(named, cards::reading_of(row), layout.reading as nat, tone, true);
    let read = if tier == Tier::Full || tier == Tier::MiniBar {
        cards::with_column(worded, row.amount@, layout.amount as nat, tone, true)
    } else {
        cards::with_column(named, cards::reading_of(row), layout.reading as nat, tone, true)
    };
    columns_take_their_cells(read, row.suffix@, layout.suffix as nat, Tone::Dim, false);
    let start = cards::with_column(read, row.suffix@, layout.suffix as nat, Tone::Dim, false);
    assert(start == cards::row_start(row, layout, tier));
    columns_take_their_cells(start, cards::resets_of(row), layout.resets as nat, Tone::Dim, true);
    let timed = if tier == Tier::NoReset {
        start
    } else {
        cards::with_column(start, cards::resets_of(row), layout.resets as nat, Tone::Dim, true)
    };
    nothing_is_steady();
    if let Some(meter) = row.meter {
        bars_are_steady(meter.filled as nat, cards::BAR_WIDTH as nat);
        bars_are_steady(meter.mini_filled as nat, cards::MINI_BAR_WIDTH as nat);
    }
    columns_take_their_cells(timed, cards::full_bar_of(row), layout.bar as nat, tone, false);
    columns_take_their_cells(timed, cards::mini_bar_of(row), layout.mini as nat, tone, false);
}

proof fn slack_carries_over(total: nat, slack: nat, column: nat)
    requires
        total > 0,
    ensures
        cards::column_more(total + slack, column) == cards::column_more(total, column) + slack,
        cards::column_more(total, column) >= total,
{
}

/// A layout stretched for a tier that fits takes exactly the cells it was
/// stretched to, as long as some row has a name.
pub proof fn stretched_columns_fill_the_card(columns: RowLayout, tier: Tier, width: u16)
    requires
        tier != Tier::Minimal,
        columns.identity > 0,
        columns.tier_cells(tier) <= width,
    ensures
        columns.widened_to(tier, width as nat).tier_cells(tier) == width,
{
    let slack = (width - columns.tier_cells(tier)) as nat;
    let wider = columns.widened_to(tier, width as nat);
    let named = columns.identity as nat;
    let verb = cards::column_more(named, columns.verb as nat);
    let amount = cards::column_more(verb, columns.amount as nat);
    let suffixed = cards::column_more(amount, columns.suffix as nat);
    let words = cards::column_more(suffixed, columns.resets as nat);
    let reading = cards::column_more(named, columns.reading as nat);
    let read = cards::column_more(reading, columns.suffix as nat);
    let timed = cards::column_more(read, columns.resets as nat);
    slack_carries_over(named, slack, columns.verb as nat);
    slack_carries_over(verb, slack, columns.amount as nat);
    slack_carries_over(amount, slack, columns.suffix as nat);
    slack_carries_over(suffixed, slack, columns.resets as nat);
    slack_carries_over(words, slack, columns.bar as nat);
    slack_carries_over(words, slack, columns.mini as nat);
    slack_carries_over(named, slack, columns.reading as nat);
    slack_carries_over(reading, slack, columns.suffix as nat);
    slack_carries_over(read, slack, columns.resets as nat);
    slack_carries_over(timed, slack, columns.mini as nat);
    assert(columns.with_words(named) == words);
    assert(columns.with_reading(named) == read);
    assert(columns.tier_cells(tier) >= named);
    assert(wider.identity == named + slack);
    assert(wider.with_words(named + slack) == words + slack);
    assert(wider.with_reading(named + slack) == read + slack);
}

proof fn rows_fit(row: CardRow, columns: RowLayout, width: u16)
    requires
        steady_row(row),
        columns.identity > 0,
    ensures
        ({
            let tier = columns.fitting_tier(width as nat);
            cards::line_cells(
                cards::row_spans(row, columns.widened_to(tier, width as nat), tier, width as nat),
            ) <= width
        }),
{
    let tier = columns.fitting_tier(width as nat);
    let layout = columns.widened_to(tier, width as nat);
    if tier == Tier::Minimal {
        let value = width::clipped(cards::reading_of(row), width as nat);
        let taken = width::cells(value) + 1;
        let room: nat = if taken < width {
            (width - taken) as nat
        } else {
            0
        };
        let identity = width::clipped(row.identity@, room);
        let first = SpanView { text: identity, tone: Tone::Plain };
        let last = SpanView { text: value, tone: cards::amount_tone(row) };
        let none = Seq::<SpanView>::empty();
        assert(width::steady(cards::reading_of(row)));
        assert(width::cells(value) <= width);
        assert(width::cells(identity) <= room);
        one_piece_more(none, last);
        one_piece_more(none, first);
        one_piece_more(none.push(first), cards::blank(1));
        one_piece_more(none.push(first).push(cards::blank(1)), last);
        blanks_take_their_cells(1);
        assert(none.push(last) =~= seq![last]);
        assert(none.push(first).push(cards::blank(1)).push(last) =~= seq![
            first,
            cards::blank(1),
            last,
        ]);
    } else {
        rows_take_the_cells_of_their_tier(row, layout, tier, width as nat);
        stretched_columns_fill_the_card(columns, tier, width);
    }
}

proof fn frames_fill_the_card(inner: Seq<SpanView>, width: nat)
    requires
        width > 0,
        cards::line_cells(inner) <= cards::content_cells(width),
    ensures
        cards::line_cells(cards::framed(inner, width)) == width,
{
    let side = SpanView { text: seq!['│'], tone: Tone::Dim };
    let none = Seq::<SpanView>::empty();
    assert(width::plain(side.text));
    one_piece_more(none, side);
    assert(none.push(side) =~= seq![side]);
    blanks_take_their_cells(1);
    one_piece_more(seq![side], cards::blank(1));
    assert(seq![side].push(cards::blank(1)) =~= seq![side, cards::blank(1)]);
    if width > 1 {
        let opened = if cards::margin(width) > 0 {
            seq![side, cards::blank(1)]
        } else {
            seq![side]
        };
        let content = cards::content_cells(width);
        let used = cards::line_cells(inner);
        let pad = cards::blank((content - used) as nat);
        blanks_take_their_cells((content - used) as nat);
        one_piece_more(inner, pad);
        lines_add_up(opened, inner.push(pad));
        lines_add_up(opened, inner);
        let filled = if used < content {
            opened + inner.push(pad)
        } else {
            opened + inner
        };
        one_piece_more(filled, cards::blank(1));
        one_piece_more(filled.push(cards::blank(1)), side);
        one_piece_more(filled, side);
    }
}

proof fn borders_fill_the_card(left: char, right: char, width: nat)
    requires
        width > 0,
        width::plain_character(left),
        width::plain_character(right),
    ensures
        cards::line_cells(cards::border(left, right, width)) == width,
{
    let none = Seq::<SpanView>::empty();
    let first = SpanView { text: seq![left], tone: Tone::Dim };
    let last = SpanView { text: seq![right], tone: Tone::Dim };
    assert(width::plain(first.text));
    assert(width::plain(last.text));
    one_piece_more(none, first);
    assert(none.push(first) =~= seq![first]);
    if width > 1 {
        let rule = SpanView {
            text: width::repeated('─', (width - 2) as nat),
            tone: Tone::Dim,
        };
        width::repeated_is_plain('─', (width - 2) as nat);
        one_piece_more(none.push(first), rule);
        one_piece_more(none.push(first).push(rule), last);
        assert(none.push(first).push(rule).push(last) =~= seq![first, rule, last]);
    }
}

proof fn names_take_their_cells(title: TitleView, name: Seq<char>, tone: Tone, budget: nat)
    requires
        width::steady(name),
        title.used == cards::line_cells(title.spans),
        title.used <= budget,
    ensures
        ({
            let after = cards::with_name(title, name, tone, budget);
            &&& after.used == cards::line_cells(after.spans)
            &&& after.used <= budget
        }),
{
    if name.len() > 0 && title.used < budget {
        let left = (budget - title.used) as nat;
        let gap: nat = if title.spans.len() == 0 {
            0
        } else if cards::TITLE_GAP < left {
            cards::TITLE_GAP as nat
        } else {
            left
        };
        let started = if title.spans.len() == 0 {
            title.spans
        } else {
            title.spans.push(cards::blank(gap))
        };
        let kept = width::clipped(name, (left - gap) as nat);
        assert(width::cells(kept) <= left - gap);
        blanks_take_their_cells(gap);
        one_piece_more(title.spans, cards::blank(gap));
        one_piece_more(started, SpanView { text: kept, tone });
    }
}

proof fn titles_fill_the_card(title: CardTitle, width: nat)
    requires
        width > 0,
        width::steady(title.provider@),
        width::steady(cards::plan_of(title)),
        width::steady(title.account@),
    ensures
        cards::line_cells(cards::titled_border(title, width)) == width,
{
    borders_fill_the_card('╭', '╮', width);
    if width >= 6 {
        let budget = (width - 5) as nat;
        let none = TitleView { spans: Seq::empty(), used: 0 };
        assert(cards::line_cells(none.spans) == 0);
        names_take_their_cells(none, title.provider@, Tone::Title, budget);
        let provider = cards::with_name(none, title.provider@, Tone::Title, budget);
        names_take_their_cells(provider, cards::plan_of(title), Tone::Dim, budget);
        let plan = cards::with_name(provider, cards::plan_of(title), Tone::Dim, budget);
        names_take_their_cells(plan, title.account@, Tone::Dim, budget);
        let view = cards::title_view(title, budget);
        let used = cards::line_cells(view.spans);
        if used > 0 {
            let rule = (budget - used) as nat;
            let first = SpanView { text: seq!['╭', '─', ' '], tone: Tone::Dim };
            let tail = SpanView {
                text: seq![' '] + width::repeated('─', rule),
                tone: Tone::Dim,
            };
            let corner = SpanView { text: seq!['╮'], tone: Tone::Dim };
            assert(width::plain(first.text));
            assert(width::plain(tail.text));
            assert(width::plain(corner.text));
            let empty = Seq::<SpanView>::empty();
            one_piece_more(empty, first);
            assert(empty.push(first) =~= seq![first]);
            lines_add_up(seq![first], view.spans);
            one_piece_more(empty, tail);
            one_piece_more(empty.push(tail), corner);
            assert(empty.push(tail).push(corner) =~= seq![tail, corner]);
            lines_add_up(seq![first] + view.spans, seq![tail, corner]);
        }
    }
}

/// Every line of a card takes exactly the cells of the card, so that no border
/// slips out of alignment. This holds of every card whose texts can be cut to
/// any number of cells, as plain texts can, and of columns in which some row has
/// a name.
pub proof fn every_line_is_as_wide_as_its_card(
    card: Card,
    width: u16,
    columns: RowLayout,
    place: int,
)
    requires
        width > 0,
        steady_card(card),
        card.rows@.len() > 0 ==> columns.identity > 0,
        0 <= place < card.lines(),
    ensures
        cards::line_cells(cards::card_line(card, width as nat, columns, place)) == width,
{
    let content = cards::content_cells(width as nat);
    let rows = card.rows@.len();
    if place == 0 {
        titles_fill_the_card(card.title, width as nat);
    } else if place <= rows {
        let row = card.rows@[place - 1];
        assert(steady_row(row));
        rows_fit(row, columns, content as u16);
        let tier = columns.fitting_tier(content);
        let inner = cards::row_spans(row, columns.widened_to(tier, content), tier, content);
        frames_fill_the_card(inner, width as nat);
    } else if place <= rows + card.notices@.len() {
        let notice = card.notices@[place - 1 - rows];
        assert(width::steady(notice@));
        let piece = SpanView { text: width::clipped(notice@, content), tone: Tone::Notice };
        let none = Seq::<SpanView>::empty();
        one_piece_more(none, piece);
        assert(none.push(piece) =~= seq![piece]);
        frames_fill_the_card(seq![piece], width as nat);
    } else {
        borders_fill_the_card('╰', '╯', width as nat);
    }
}

/// A narrower card never keeps a tier that a wider one has given up.
pub proof fn narrower_cards_keep_less(columns: RowLayout, narrow: nat, wide: nat)
    requires
        narrow <= wide,
    ensures
        tier_rank(columns.fitting_tier(narrow)) >= tier_rank(columns.fitting_tier(wide)),
{
}

/// The tiers in the order in which they give up fields.
pub open spec fn tier_rank(tier: Tier) -> int {
    match tier {
        Tier::Full => 0,
        Tier::MiniBar => 1,
        Tier::NoVerb => 2,
        Tier::NoBar => 3,
        Tier::NoReset => 4,
        Tier::Minimal => 5,
    }
}

} // verus!
