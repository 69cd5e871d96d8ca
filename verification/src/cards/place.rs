//! Where the cards land on the screen.

use vstd::prelude::*;

use crate::cards::{RowLayout, Tier};

verus! {

/// The cells a card takes unless its columns need more.
pub const PREFERRED_CARD_WIDTH: u16 = 42;

/// Blank cells between two cards of a band.
pub const HORIZONTAL_GAP: u16 = 2;

/// A blank row separates one band of cards from the next.
pub const VERTICAL_GAP: u16 = 1;

/// A place on the screen.
#[derive(Clone, Copy, Debug, PartialEq, Eq, Structural)]
pub struct Rect {
    pub x: u16,
    pub y: u16,
    pub width: u16,
    pub height: u16,
}

/// A number that no row or column of a screen exceeds.
pub open spec fn capped(value: int) -> int {
    if value < u16::MAX {
        value
    } else {
        u16::MAX as int
    }
}

impl Rect {
    /// The row below the place.
    pub open spec fn below(self) -> int {
        capped(self.y + self.height)
    }

    /// The row below the place.
    pub fn bottom(&self) -> (result: u16)
        ensures
            result == self.below(),
    {
        self.y.saturating_add(self.height)
    }
}

/// The cells a card takes so that its columns, with its borders and margins,
/// have room.
pub open spec fn preferred_width(columns: RowLayout) -> int {
    let needed = columns.tier_cells(Tier::Full) + 4;
    if needed < PREFERRED_CARD_WIDTH {
        PREFERRED_CARD_WIDTH as int
    } else {
        capped(needed as int)
    }
}

/// The cells a card takes so that its columns have room.
pub fn preferred_card_width(columns: &RowLayout) -> (result: u16)
    ensures
        result == preferred_width(*columns),
{
    let needed: usize = columns.width_of(Tier::Full).saturating_add(4);
    if needed < PREFERRED_CARD_WIDTH as usize {
        PREFERRED_CARD_WIDTH
    } else if needed < u16::MAX as usize {
        needed as u16
    } else {
        u16::MAX
    }
}

/// The number of cards that stand side by side.
pub open spec fn column_count(width: int, preferred: int) -> int {
    let fitting = (width + HORIZONTAL_GAP) / (preferred + HORIZONTAL_GAP);
    if fitting < 1 {
        1
    } else {
        fitting
    }
}

/// The greatest of the heights from one place up to another.
pub open spec fn tallest(heights: Seq<u16>, from: int, to: int) -> int
    decreases to - from,
{
    if from >= to {
        0
    } else {
        let before = tallest(heights, from, to - 1);
        if before < heights[to - 1] {
            heights[to - 1] as int
        } else {
            before
        }
    }
}

/// The first row of a band: below the bands above it, each as tall as its
/// tallest card, with a blank row between.
pub open spec fn band_top(heights: Seq<u16>, columns: int, band: int) -> int
    decreases band,
{
    if band <= 0 {
        0
    } else {
        capped(
            band_top(heights, columns, band - 1) + tallest(
                heights,
                (band - 1) * columns,
                band * columns,
            ) + VERTICAL_GAP,
        )
    }
}

/// The smaller of two numbers.
pub open spec fn lesser(left: int, right: int) -> int {
    if left < right {
        left
    } else {
        right
    }
}

/// The cells shared out among the cards of a band, but for the gaps.
pub open spec fn shared_cells(width: int, columns: int) -> int {
    width - HORIZONTAL_GAP * (columns - 1)
}

/// The cells of the card in a column: an equal share, and one of those left over
/// for each of the first columns.
pub open spec fn column_cells(width: int, columns: int, column: int) -> int {
    let shared = shared_cells(width, columns);
    shared / columns + if column < shared % columns {
        1int
    } else {
        0
    }
}

/// The first cell of a column.
pub open spec fn column_left(width: int, columns: int, column: int) -> int
    decreases column,
{
    if column <= 0 {
        0
    } else {
        column_left(width, columns, column - 1) + column_cells(width, columns, column - 1)
            + HORIZONTAL_GAP
    }
}

/// The place of a card among those that stand side by side.
pub open spec fn banded(width: int, heights: Seq<u16>, columns: int, index: int, rect: Rect) -> bool {
    &&& rect.x == column_left(width, columns, index % columns)
    &&& rect.width == column_cells(width, columns, index % columns)
    &&& rect.y == band_top(heights, columns, index / columns)
    &&& rect.height == heights[index]
}

/// The place of a card among those that stand one below the other: at the card's
/// own width, and centered.
pub open spec fn stacked(width: int, heights: Seq<u16>, preferred: int, index: int, rect: Rect) -> bool {
    &&& rect.width == lesser(width, preferred)
    &&& rect.x == (width - lesser(width, preferred)) / 2
    &&& rect.y == band_top(heights, 1, index)
    &&& rect.height == heights[index]
}

fn stacked_rects(width: u16, heights: &Vec<u16>, preferred: u16) -> (result: Vec<Rect>)
    ensures
        result@.len() == heights@.len(),
        forall|i: int|
            0 <= i < result@.len() ==> stacked(
                width as int,
                heights@,
                preferred as int,
                i,
                #[trigger] result@[i],
            ),
{
    let card_width: u16 = if width < preferred {
        width
    } else {
        preferred
    };
    let x: u16 = (width - card_width) / 2;
    let mut rects: Vec<Rect> = Vec::new();
    let mut y: u16 = 0;
    let mut index: usize = 0;
    while index < heights.len()
        invariant
            index <= heights@.len(),
            rects@.len() == index,
            card_width == lesser(width as int, preferred as int),
            x == (width - card_width) / 2,
            y == band_top(heights@, 1, index as int),
            forall|i: int|
                0 <= i < rects@.len() ==> stacked(
                    width as int,
                    heights@,
                    preferred as int,
                    i,
                    #[trigger] rects@[i],
                ),
        decreases heights@.len() - index,
    {
        let height: u16 = heights[index];
        rects.push(Rect { x, y, width: card_width, height });
        proof {
            assert(tallest(heights@, index as int, index as int) == 0);
            assert(tallest(heights@, index as int, index + 1) == height);
            assert(band_top(heights@, 1, index + 1) == capped(y + height + VERTICAL_GAP));
        }
        y = y.saturating_add(height).saturating_add(VERTICAL_GAP);
        index = index + 1;
    }
    rects
}

proof fn shares_add_up(width: int, columns: int, column: int)
    requires
        columns >= 1,
        shared_cells(width, columns) >= 0,
        0 <= column <= columns,
    ensures
        column_left(width, columns, column) == column * (shared_cells(width, columns) / columns
            + HORIZONTAL_GAP) + lesser(column, shared_cells(width, columns) % columns),
    decreases column,
{
    let shared = shared_cells(width, columns);
    let share = shared / columns + HORIZONTAL_GAP;
    if column > 0 {
        shares_add_up(width, columns, column - 1);
        assert(column * share == (column - 1) * share + share) by (nonlinear_arith);
    } else {
        assert(0 * share == 0);
    }
}

/// The cards of a band share its width: each ends before the next begins, and
/// the last one ends where the screen does.
pub proof fn bands_fill_the_width(width: int, columns: int, column: int)
    requires
        columns >= 1,
        shared_cells(width, columns) >= 0,
        0 <= column < columns,
    ensures
        column_left(width, columns, column) >= 0,
        column + 1 < columns ==> column_left(width, columns, column) + column_cells(
            width,
            columns,
            column,
        ) + HORIZONTAL_GAP == column_left(width, columns, column + 1),
        column + 1 == columns ==> column_left(width, columns, column) + column_cells(
            width,
            columns,
            column,
        ) == width,
        column_left(width, columns, column) + column_cells(width, columns, column) <= width,
{
    let shared = shared_cells(width, columns);
    let share = shared / columns;
    shares_add_up(width, columns, column);
    shares_add_up(width, columns, columns);
    assert(column * (share + HORIZONTAL_GAP) >= 0) by (nonlinear_arith)
        requires
            column >= 0,
            share >= 0,
    ;
    assert(share >= 0) by (nonlinear_arith)
        requires
            shared >= 0,
            columns >= 1,
            share == shared / columns,
    ;
    vstd::arithmetic::div_mod::lemma_fundamental_div_mod(shared, columns);
    vstd::arithmetic::div_mod::lemma_mod_bound(shared, columns);
    assert(columns * (share + HORIZONTAL_GAP) == columns * share + columns * HORIZONTAL_GAP)
        by (nonlinear_arith);
    assert(column_left(width, columns, columns) == width + HORIZONTAL_GAP);
    assert(column_left(width, columns, column + 1) == column_left(width, columns, column)
        + column_cells(width, columns, column) + HORIZONTAL_GAP);
    shares_add_up(width, columns, column + 1);
    assert((column + 1) * (share + HORIZONTAL_GAP) <= columns * (share + HORIZONTAL_GAP))
        by (nonlinear_arith)
        requires
            column + 1 <= columns,
            share >= 0,
    ;
}

proof fn columns_fit(width: int, preferred: int)
    requires
        width >= 1,
        preferred >= 0,
    ensures
        1 <= column_count(width, preferred) <= width + HORIZONTAL_GAP,
        column_count(width, preferred) > 1 ==> shared_cells(
            width,
            column_count(width, preferred),
        ) >= 0,
{
    let each = preferred + HORIZONTAL_GAP;
    let fitting = (width + HORIZONTAL_GAP) / each;
    vstd::arithmetic::div_mod::lemma_fundamental_div_mod(width + HORIZONTAL_GAP, each);
    vstd::arithmetic::div_mod::lemma_mod_bound(width + HORIZONTAL_GAP, each);
    assert(each * fitting >= 2 * fitting) by (nonlinear_arith)
        requires
            each >= 2,
            fitting >= 0,
    ;
    assert(fitting >= 0) by (nonlinear_arith)
        requires
            width >= 1,
            each >= 2,
            fitting == (width + 2) / each,
    ;
}

proof fn next_place(index: int, columns: int)
    requires
        index >= 0,
        columns >= 1,
    ensures
        index % columns + 1 < columns ==> (index + 1) % columns == index % columns + 1 && (index + 1)
            / columns == index / columns,
        index % columns + 1 == columns ==> (index + 1) % columns == 0 && (index + 1) / columns
            == index / columns + 1,
        index == (index / columns) * columns + index % columns,
        0 <= index % columns < columns,
{
    vstd::arithmetic::div_mod::lemma_fundamental_div_mod(index, columns);
    vstd::arithmetic::div_mod::lemma_mod_bound(index, columns);
    let quotient = index / columns;
    let rest = index % columns;
    assert(columns * quotient == quotient * columns) by (nonlinear_arith);
    if rest + 1 < columns {
        vstd::arithmetic::div_mod::lemma_fundamental_div_mod_converse(
            index + 1,
            columns,
            quotient,
            rest + 1,
        );
    } else {
        assert((quotient + 1) * columns == quotient * columns + columns) by (nonlinear_arith);
        vstd::arithmetic::div_mod::lemma_fundamental_div_mod_converse(
            index + 1,
            columns,
            quotient + 1,
            0,
        );
    }
}

proof fn tall_bands_are_found(heights: Seq<u16>, from: int, to: int)
    requires
        from < to,
    ensures
        tallest(heights, from, to) == if tallest(heights, from, to - 1) < heights[to - 1] {
            heights[to - 1] as int
        } else {
            tallest(heights, from, to - 1)
        },
{
}

/// The places of cards of those heights on a screen of that width: side by side
/// in bands where more than one fits, unless they are to stand one below the
/// other.
pub fn card_rects(width: u16, heights: &Vec<u16>, vertical: bool, preferred: u16) -> (result: Vec<
    Rect,
>)
    ensures
        width == 0 ==> result@.len() == 0,
        width > 0 ==> result@.len() == heights@.len(),
        ({
            let columns = column_count(width as int, preferred as int);
            forall|i: int|
                0 <= i < result@.len() ==> {
                    let rect = #[trigger] result@[i];
                    if vertical || columns == 1 {
                        stacked(width as int, heights@, preferred as int, i, rect)
                    } else {
                        banded(width as int, heights@, columns, i, rect)
                    }
                }
        }),
{
    if width == 0 || heights.len() == 0 {
        return Vec::new();
    }
    let fitting: u32 = (width as u32 + HORIZONTAL_GAP as u32) / (preferred as u32
        + HORIZONTAL_GAP as u32);
    // A band holding one card keeps the card's own width and centers it:
    // stretched across the terminal, the row's reading would be stranded at
    // the far edge, and pinned left it would sit under a lopsided margin.
    if vertical || fitting <= 1 {
        return stacked_rects(width, heights, preferred);
    }
    proof {
        columns_fit(width as int, preferred as int);
    }
    let columns: u32 = fitting;
    let shared: u32 = width as u32 - HORIZONTAL_GAP as u32 * (columns - 1);
    let share: u32 = shared / columns;
    let extra: u32 = shared % columns;
    let ghost count = columns as int;
    let mut rects: Vec<Rect> = Vec::new();
    let mut y: u16 = 0;
    let mut x: u32 = 0;
    let mut column: u32 = 0;
    let mut band_height: u16 = 0;
    let mut index: usize = 0;
    proof {
        next_place(0, count);
        vstd::arithmetic::div_mod::lemma_small_mod(0, count as nat);
        vstd::arithmetic::div_mod::lemma_fundamental_div_mod_converse(0, count, 0, 0);
    }
    while index < heights.len()
        invariant
            index <= heights@.len(),
            rects@.len() == index,
            count == columns,
            columns >= 2,
            columns == column_count(width as int, preferred as int),
            shared == shared_cells(width as int, count),
            share == shared / columns,
            extra == shared % columns,
            width > 0,
            column == index as int % count,
            column < columns,
            x == column_left(width as int, count, column as int),
            y == band_top(heights@, count, index as int / count),
            band_height == tallest(heights@, index - column, index as int),
            index - column == (index as int / count) * count,
            forall|i: int|
                0 <= i < rects@.len() ==> banded(
                    width as int,
                    heights@,
                    count,
                    i,
                    #[trigger] rects@[i],
                ),
        decreases heights@.len() - index,
    {
        proof {
            bands_fill_the_width(width as int, count, column as int);
            next_place(index as int, count);
        }
        let height: u16 = heights[index];
        let card_width: u32 = share + if column < extra {
            1u32
        } else {
            0u32
        };
        rects.push(Rect { x: x as u16, y, width: card_width as u16, height });
        proof {
            tall_bands_are_found(heights@, index - column, index + 1);
        }
        if band_height < height {
            band_height = height;
        }
        let ghost band = index as int / count;
        index = index + 1;
        column = column + 1;
        x = x + card_width + HORIZONTAL_GAP as u32;
        if column == columns {
            proof {
                assert(band * count + count == (band + 1) * count) by (nonlinear_arith);
                assert(((band + 1) - 1) * count == band * count);
                assert(band_top(heights@, count, band + 1) == capped(
                    band_top(heights@, count, band) + tallest(
                        heights@,
                        band * count,
                        (band + 1) * count,
                    ) + VERTICAL_GAP,
                ));
            }
            y = y.saturating_add(band_height).saturating_add(VERTICAL_GAP);
            band_height = 0;
            column = 0;
            x = 0;
        }
    }
    rects
}

/// The greatest row below any of the places.
pub open spec fn lowest(rects: Seq<Rect>) -> int
    decreases rects.len(),
{
    if rects.len() == 0 {
        0
    } else {
        let before = lowest(rects.drop_last());
        if before < rects.last().below() {
            rects.last().below()
        } else {
            before
        }
    }
}

/// The rows that the cards take in all.
pub fn content_height(rects: &Vec<Rect>) -> (result: u16)
    ensures
        result == lowest(rects@),
{
    let mut height: u16 = 0;
    let mut index: usize = 0;
    assert(rects@.take(0) == Seq::<Rect>::empty());
    while index < rects.len()
        invariant
            index <= rects@.len(),
            height == lowest(rects@.take(index as int)),
        decreases rects@.len() - index,
    {
        proof {
            assert(rects@.take(index + 1).drop_last() == rects@.take(index as int));
            assert(rects@.take(index + 1).last() == rects@[index as int]);
        }
        let bottom: u16 = rects[index].bottom();
        if height < bottom {
            height = bottom;
        }
        index = index + 1;
    }
    assert(rects@.take(index as int) == rects@);
    height
}

/// Every card ends above the band below its own, with a blank row between,
/// unless the screen ran out of rows.
pub proof fn bands_do_not_overlap(heights: Seq<u16>, columns: int, index: int)
    requires
        columns >= 1,
        0 <= index < heights.len(),
    ensures
        ({
            let below = band_top(heights, columns, index / columns + 1);
            below == u16::MAX || band_top(heights, columns, index / columns) + heights[index]
                + VERTICAL_GAP <= below
        }),
{
    next_place(index, columns);
    let band = index / columns;
    assert(index >= band * columns);
    assert(index < (band + 1) * columns) by {
        assert((band + 1) * columns == band * columns + columns) by (nonlinear_arith);
    }
    assert(band >= 0) by {
        vstd::arithmetic::div_mod::lemma_div_pos_is_pos(index, columns);
    }
    none_is_taller(heights, band * columns, (band + 1) * columns, index);
}

proof fn none_is_taller(heights: Seq<u16>, from: int, to: int, place: int)
    requires
        from <= place < to,
    ensures
        heights[place] <= tallest(heights, from, to),
    decreases to - from,
{
    if place < to - 1 {
        none_is_taller(heights, from, to - 1, place);
    }
}

} // verus!
