//! What stands where on the screen.

use vstd::prelude::*;

use crate::cards;
use crate::cards::place::{card_rects, content_height, preferred_card_width, Rect};
use crate::cards::{card_lines, place, Card, RowLayout, Span, SpanView, Tone};
use crate::tui;
use crate::tui::{chrome, status_line, Layout, Scroll};
use crate::width;
use crate::width::display_width;

verus! {

/// A line and its place on the screen.
#[derive(Debug)]
pub struct Placed {
    pub x: u16,
    pub y: u16,
    pub width: u16,
    pub line: Vec<Span>,
}

/// A line and its place on the screen, with its texts as character sequences.
#[verifier::ext_equal]
pub struct PlacedView {
    pub x: int,
    pub y: int,
    pub width: int,
    pub line: Seq<SpanView>,
}

impl View for Placed {
    type V = PlacedView;

    open spec fn view(&self) -> PlacedView {
        PlacedView {
            x: self.x as int,
            y: self.y as int,
            width: self.width as int,
            line: cards::span_views(self.line@),
        }
    }
}

/// The lines, each with its texts as character sequences.
pub open spec fn placed_views(placed: Seq<Placed>) -> Seq<PlacedView> {
    placed.map_values(|line: Placed| line@)
}

/// The part of the screen that shows cards, and the content row it starts with.
pub struct Window {
    pub top: int,
    pub height: int,
    pub offset: int,
}

/// The first lines of a card that the window still shows, each at its place.
pub open spec fn shown_lines(
    card: Card,
    rect: Rect,
    window: Window,
    columns: RowLayout,
    count: nat,
) -> Seq<PlacedView>
    decreases count,
{
    if count == 0 {
        Seq::empty()
    } else {
        let before = shown_lines(card, rect, window, columns, (count - 1) as nat);
        let row = rect.y + (count - 1) - window.offset;
        if 0 <= row < window.height {
            before.push(
                PlacedView {
                    x: rect.x as int,
                    y: window.top + row,
                    width: rect.width as int,
                    line: cards::card_line(card, rect.width as nat, columns, count - 1),
                },
            )
        } else {
            before
        }
    }
}

/// The lines of a card that the window still shows.
pub open spec fn shown_card(
    card: Card,
    rect: Rect,
    window: Window,
    columns: RowLayout,
) -> Seq<PlacedView> {
    if rect.width == 0 {
        Seq::empty()
    } else {
        shown_lines(card, rect, window, columns, card.lines())
    }
}

/// The lines of the first cards that the window still shows.
pub open spec fn shown_cards(
    cards: Seq<Card>,
    rects: Seq<Rect>,
    window: Window,
    columns: RowLayout,
    count: nat,
) -> Seq<PlacedView>
    decreases count,
{
    if count == 0 {
        Seq::empty()
    } else {
        shown_cards(cards, rects, window, columns, (count - 1) as nat) + shown_card(
            cards[count - 1],
            rects[count - 1],
            window,
            columns,
        )
    }
}

fn push_placed(placed: &mut Vec<Placed>, line: Placed)
    ensures
        placed_views(final(placed)@) == placed_views(old(placed)@).push(line@),
{
    placed.push(line);
    assert(placed_views(placed@) =~= placed_views(old(placed)@).push(line@));
}

/// Places the lines of one card that the scrolled window still shows.
fn place_card(
    placed: &mut Vec<Placed>,
    card: &Card,
    rect: &Rect,
    top: u16,
    height: u16,
    offset: u16,
    columns: &RowLayout,
)
    requires
        top + height <= u16::MAX,
    ensures
        placed_views(final(placed)@) == placed_views(old(placed)@) + shown_card(
            *card,
            *rect,
            Window { top: top as int, height: height as int, offset: offset as int },
            *columns,
        ),
{
    let ghost window = Window { top: top as int, height: height as int, offset: offset as int };
    let ghost before = placed_views(placed@);
    if rect.width == 0 {
        assert(before + Seq::<PlacedView>::empty() == before);
        return;
    }
    let mut lines = card_lines(card, rect.width, columns);
    let ghost all = lines@;
    let count: usize = lines.len();
    let mut rest: Vec<Vec<Span>> = Vec::new();
    while lines.len() > 0
        invariant
            lines@ == all.take(lines@.len() as int),
            lines@.len() + rest@.len() == all.len(),
            count == all.len(),
            forall|i: int| 0 <= i < rest@.len() ==> #[trigger] rest@[i] == all[all.len() - 1 - i],
        decreases lines@.len(),
    {
        let ghost last = lines@.len() - 1;
        if let Some(line) = lines.pop() {
            assert(line == all[last]);
            rest.push(line);
            assert(lines@ == all.take(last));
        }
    }
    let mut index: usize = 0;
    assert(before + shown_lines(*card, *rect, window, *columns, 0) == before);
    while rest.len() > 0
        invariant
            top + height <= u16::MAX,
            window == (Window { top: top as int, height: height as int, offset: offset as int }),
            rest@.len() + index == all.len(),
            all.len() == count,
            all.len() == card.lines(),
            forall|i: int| 0 <= i < rest@.len() ==> #[trigger] rest@[i] == all[all.len() - 1 - i],
            forall|i: int|
                0 <= i < all.len() ==> cards::span_views((#[trigger] all[i])@) == cards::card_line(
                    *card,
                    rect.width as nat,
                    *columns,
                    i,
                ),
            placed_views(placed@) == before + shown_lines(
                *card,
                *rect,
                window,
                *columns,
                index as nat,
            ),
        decreases rest@.len(),
    {
        let ghost place = index as int;
        if let Some(line) = rest.pop() {
            assert(line == all[place]);
            let row: i128 = rect.y as i128 + index as i128 - offset as i128;
            if 0 <= row && row < height as i128 {
                push_placed(
                    placed,
                    Placed { x: rect.x, y: top + row as u16, width: rect.width, line },
                );
                assert(placed_views(placed@) =~= before + shown_lines(
                    *card,
                    *rect,
                    window,
                    *columns,
                    (index + 1) as nat,
                ));
            }
            index = index + 1;
        }
    }
}

/// Where the status line starts: in the middle of the screen.
pub open spec fn centered(width: int, taken: int) -> int {
    (width - taken) / 2
}

/// The status line at its place, where there is one.
pub open spec fn shown_status(
    width: u16,
    height: u16,
    line: Seq<char>,
) -> Seq<PlacedView> {
    if tui::affordable(height as int).status {
        let left = centered(width as int, width::cells(line) as int);
        seq![
            PlacedView {
                x: left,
                y: height - 1,
                width: width - left,
                line: seq![SpanView { text: line, tone: Tone::Dim }],
            },
        ]
    } else {
        Seq::empty()
    }
}

/// The rows of cards that a screen of that height shows.
pub open spec fn viewport_rows(height: int) -> int {
    let chrome = tui::affordable(height);
    height - chrome.margin - chrome.gap - if chrome.status {
        1int
    } else {
        0
    }
}

/// The heights of the cards.
pub open spec fn heights_of(cards: Seq<Card>) -> Seq<u16> {
    cards.map_values(
        |card: Card|
            if card.lines() < u16::MAX {
                card.lines() as u16
            } else {
                u16::MAX
            },
    )
}

/// The places are those of the cards.
pub open spec fn places(
    width: u16,
    cards: Seq<Card>,
    layout: Layout,
    columns: RowLayout,
    rects: Seq<Rect>,
) -> bool {
    let preferred = place::preferred_width(columns);
    let count = place::column_count(width as int, preferred);
    &&& rects.len() == cards.len()
    &&& forall|i: int|
        0 <= i < rects.len() ==> {
            let rect = #[trigger] rects[i];
            if layout == Layout::Vertical || count == 1 {
                place::stacked(width as int, heights_of(cards), preferred, i, rect)
            } else {
                place::banded(width as int, heights_of(cards), count, i, rect)
            }
        }
}

/// The screen shows the cards with those columns at those places, scrolled, and
/// the status line below them.
pub open spec fn shows(
    width: u16,
    height: u16,
    cards: Seq<Card>,
    before: Scroll,
    layout: Layout,
    remaining: u64,
    columns: RowLayout,
    rects: Seq<Rect>,
    after: Scroll,
    placed: Seq<PlacedView>,
) -> bool {
    let viewport = viewport_rows(height as int);
    let content = place::lowest(rects);
    let window = Window {
        top: tui::affordable(height as int).margin as int,
        height: viewport,
        offset: after.offset as int,
    };
    &&& cards::measures(cards::all_rows(cards), columns)
    &&& places(width, cards, layout, columns, rects)
    &&& after == before.applied(viewport, content)
    &&& placed == shown_cards(cards, rects, window, columns, cards.len()) + shown_status(
        width,
        height,
        tui::fitting_line(
            tui::status_lines(
                after.offset,
                viewport as u16,
                content as u16,
                layout,
                remaining,
            ),
            width as nat,
        ),
    )
}

/// What a screen without cards says.
pub open spec fn nothing_to_show(width: u16) -> PlacedView {
    PlacedView {
        x: 0,
        y: 0,
        width: width as int,
        line: seq![SpanView { text: "No subscription snapshots"@, tone: Tone::Faint }],
    }
}

fn card_heights(cards: &Vec<Card>) -> (result: Vec<u16>)
    ensures
        result@ == heights_of(cards@),
{
    let mut heights: Vec<u16> = Vec::new();
    let mut index: usize = 0;
    while index < cards.len()
        invariant
            index <= cards@.len(),
            heights@ == heights_of(cards@).take(index as int),
        decreases cards@.len() - index,
    {
        heights.push(cards[index].height());
        index = index + 1;
        assert(heights@ =~= heights_of(cards@).take(index as int));
    }
    assert(heights@ =~= heights_of(cards@));
    heights
}

/// Places what a screen of that size shows, and applies the waiting scroll.
///
/// The last row is the status line, the row above it stays blank, and the first
/// row of the terminal stays blank too; the cards own what is left. The blank
/// rows are outside the window of the cards, so a scrolled card never reaches
/// the status line. One set of column widths serves the whole screen, so a
/// reading under a short window name still lines up with the one under a long
/// name. The hints are centered on the terminal whatever the cards do, which is
/// what makes the line stop jumping as the layout changes.
pub fn view_frame(
    width: u16,
    height: u16,
    cards: &Vec<Card>,
    scroll: &mut Scroll,
    layout: Layout,
    remaining: u64,
) -> (result: Vec<Placed>)
    ensures
        if width == 0 || height == 0 {
            result@.len() == 0 && *final(scroll) == *old(scroll)
        } else if cards@.len() == 0 {
            placed_views(result@) == seq![nothing_to_show(width)] && *final(scroll) == *old(scroll)
        } else {
            exists|columns: RowLayout, rects: Seq<Rect>| #[trigger]
                shows(
                    width,
                    height,
                    cards@,
                    *old(scroll),
                    layout,
                    remaining,
                    columns,
                    rects,
                    *final(scroll),
                    placed_views(result@),
                )
        },
{
    let mut placed: Vec<Placed> = Vec::new();
    assert(placed_views(placed@) =~= Seq::<PlacedView>::empty());
    if width == 0 || height == 0 {
        return placed;
    }
    if cards.len() == 0 {
        let mut line: Vec<Span> = Vec::new();
        line.push(Span { text: "No subscription snapshots".to_owned(), tone: Tone::Faint });
        assert(cards::span_views(line@) =~= nothing_to_show(width).line);
        push_placed(&mut placed, Placed { x: 0, y: 0, width, line });
        assert(placed_views(placed@) =~= seq![nothing_to_show(width)]);
        return placed;
    }
    let spent = chrome(height);
    let status_rows: u16 = if spent.status {
        1
    } else {
        0
    };
    let viewport: u16 = height - (spent.margin + spent.gap + status_rows);
    let columns = RowLayout::measure_all(cards);
    let heights = card_heights(cards);
    let rects = card_rects(width, &heights, layout.is_vertical(), preferred_card_width(&columns));
    let content: u16 = content_height(&rects);
    scroll.apply(viewport, content);
    let offset: u16 = scroll.offset;
    let ghost window = Window {
        top: spent.margin as int,
        height: viewport as int,
        offset: offset as int,
    };
    let mut index: usize = 0;
    while index < cards.len()
        invariant
            index <= cards@.len(),
            rects@.len() == cards@.len(),
            spent.margin + viewport <= u16::MAX,
            window == (Window {
                top: spent.margin as int,
                height: viewport as int,
                offset: offset as int,
            }),
            placed_views(placed@) == shown_cards(cards@, rects@, window, columns, index as nat),
        decreases cards@.len() - index,
    {
        place_card(
            &mut placed,
            &cards[index],
            &rects[index],
            spent.margin,
            viewport,
            offset,
            &columns,
        );
        index = index + 1;
    }
    let ghost shown = placed_views(placed@);
    if spent.status {
        let hints = status_line(offset, viewport, content, width, layout, remaining);
        let taken: usize = display_width(hints.as_str());
        let left: u16 = (width - taken as u16) / 2;
        let ghost words = hints@;
        let mut line: Vec<Span> = Vec::new();
        line.push(Span { text: hints, tone: Tone::Dim });
        assert(cards::span_views(line@) =~= seq![SpanView { text: words, tone: Tone::Dim }]);
        push_placed(&mut placed, Placed { x: left, y: height - 1, width: width - left, line });
        assert(placed_views(placed@) =~= shown + shown_status(width, height, words));
    } else {
        assert(shown + Seq::<PlacedView>::empty() == shown);
    }
    assert(shows(
        width,
        height,
        cards@,
        *old(scroll),
        layout,
        remaining,
        columns,
        rects@,
        *scroll,
        placed_views(placed@),
    ));
    placed
}

proof fn shown_lines_stay_inside(
    card: Card,
    rect: Rect,
    window: Window,
    columns: RowLayout,
    count: nat,
)
    ensures
        forall|i: int|
            0 <= i < shown_lines(card, rect, window, columns, count).len() ==> window.top <= (
            #[trigger] shown_lines(card, rect, window, columns, count)[i]).y < window.top
                + window.height,
    decreases count,
{
    if count > 0 {
        shown_lines_stay_inside(card, rect, window, columns, (count - 1) as nat);
        let before = shown_lines(card, rect, window, columns, (count - 1) as nat);
        let all = shown_lines(card, rect, window, columns, count);
        assert forall|i: int| 0 <= i < all.len() implies window.top <= (#[trigger] all[i]).y
            < window.top + window.height by {
            if i < before.len() {
                assert(all[i] == before[i]);
            }
        }
    }
}

/// No line of a card reaches the blank rows or the status line: every one stands
/// inside the window of the cards.
pub proof fn cards_stay_inside_their_window(
    cards: Seq<Card>,
    rects: Seq<Rect>,
    window: Window,
    columns: RowLayout,
    count: nat,
)
    ensures
        forall|i: int|
            0 <= i < shown_cards(cards, rects, window, columns, count).len() ==> window.top <= (
            #[trigger] shown_cards(cards, rects, window, columns, count)[i]).y < window.top
                + window.height,
    decreases count,
{
    if count > 0 {
        let before = shown_cards(cards, rects, window, columns, (count - 1) as nat);
        let card = cards[count - 1];
        let rect = rects[count - 1];
        let added = shown_card(card, rect, window, columns);
        cards_stay_inside_their_window(cards, rects, window, columns, (count - 1) as nat);
        shown_lines_stay_inside(card, rect, window, columns, card.lines());
        let all = shown_cards(cards, rects, window, columns, count);
        assert forall|i: int| 0 <= i < all.len() implies window.top <= (#[trigger] all[i]).y
            < window.top + window.height by {
            if i < before.len() {
                assert(all[i] == before[i]);
            } else {
                assert(all[i] == added[i - before.len()]);
            }
        }
    }
}

/// The status line leaves the same margin on both sides, but for one cell.
pub proof fn the_hints_sit_in_the_middle(width: u16, taken: u16)
    requires
        taken <= width,
    ensures
        ({
            let left = centered(width as int, taken as int);
            let right = width - taken - left;
            0 <= left <= right <= left + 1
        }),
{
}

} // verus!
