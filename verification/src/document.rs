//! What is printed, before it is drawn: headers, lines, key-value pairs and
//! tables, with every text already safe to display.

use vstd::prelude::*;

use crate::redact;
use crate::summary;
use crate::summary::{RowView, SummaryRow};
use crate::usage::Amount;

verus! {

/// How a text stands out.
#[derive(Clone, Copy, Debug, PartialEq, Eq, Structural)]
pub enum Style {
    Plain,
    Dim,
    Warning,
    Error,
}

/// What a cell holds.
#[derive(Debug, PartialEq)]
pub enum CellValue {
    /// A text that is safe to display and not empty.
    Text(String),
    /// A quantity against its limit.
    Used { used: Amount, limit: Option<Amount> },
    /// A limit, where there is one.
    Limit(Option<Amount>),
}

/// A cell's content, with its text as a character sequence.
pub enum CellValueView {
    Text(Seq<char>),
    Used { used: Amount, limit: Option<Amount> },
    Limit(Option<Amount>),
}

/// One cell of a table or one value of a pair.
#[derive(Debug, PartialEq)]
pub struct Cell {
    pub value: CellValue,
    pub style: Style,
}

/// A cell, with its text as a character sequence.
pub struct CellView {
    pub value: CellValueView,
    pub style: Style,
}

impl View for Cell {
    type V = CellView;

    open spec fn view(&self) -> CellView {
        CellView {
            value: match self.value {
                CellValue::Text(text) => CellValueView::Text(text@),
                CellValue::Used { used, limit } => CellValueView::Used { used, limit },
                CellValue::Limit(limit) => CellValueView::Limit(limit),
            },
            style: self.style,
        }
    }
}

/// What a cell shows of a text: a dash for none, and nothing of one with
/// control characters.
pub open spec fn shown_text(text: Seq<char>) -> Seq<char> {
    if text.len() == 0 {
        "-"@
    } else {
        redact::cell_text(text)
    }
}

/// The cell that shows a text.
pub open spec fn text_cell(text: Seq<char>, style: Style) -> CellView {
    CellView { value: CellValueView::Text(shown_text(text)), style }
}

/// The cell that shows a text plainly.
pub open spec fn plain_cell(text: Seq<char>) -> CellView {
    text_cell(text, Style::Plain)
}

/// The cells, each with its text as a character sequence.
pub open spec fn cell_views(cells: Seq<Cell>) -> Seq<CellView> {
    cells.map_values(|cell: Cell| cell@)
}

/// The rows, each cell with its text as a character sequence.
pub open spec fn grid_views(rows: Seq<Vec<Cell>>) -> Seq<Seq<CellView>> {
    rows.map_values(|row: Vec<Cell>| cell_views(row@))
}

impl Cell {
    /// The cell that shows a text.
    pub fn styled(text: &str, style: Style) -> (result: Self)
        ensures
            result@ == text_cell(text@, style),
    {
        if text.is_empty() {
            Cell { value: CellValue::Text("-".to_owned()), style }
        } else {
            Cell { value: CellValue::Text(redact::sanitize_cell(text).to_owned()), style }
        }
    }

    /// The cell that shows a text plainly.
    pub fn new(text: &str) -> (result: Self)
        ensures
            result@ == plain_cell(text@),
    {
        Cell::styled(text, Style::Plain)
    }

    /// The cell that shows a quantity against its limit.
    pub fn used(used: Amount, limit: Option<Amount>) -> (result: Self)
        ensures
            result@ == (CellView { value: CellValueView::Used { used, limit }, style: Style::Plain }),
    {
        Cell { value: CellValue::Used { used, limit }, style: Style::Plain }
    }

    /// The cell that shows a limit.
    pub fn limit(limit: Option<Amount>) -> (result: Self)
        ensures
            result@ == (CellView { value: CellValueView::Limit(limit), style: Style::Plain }),
    {
        Cell { value: CellValue::Limit(limit), style: Style::Plain }
    }
}

/// A key and its value.
#[derive(Debug, PartialEq)]
pub struct Pair {
    pub key: &'static str,
    pub cell: Cell,
}

/// A key and its value, with their texts as character sequences.
pub struct PairView {
    pub key: Seq<char>,
    pub cell: CellView,
}

impl View for Pair {
    type V = PairView;

    open spec fn view(&self) -> PairView {
        PairView { key: self.key@, cell: self.cell@ }
    }
}

/// The pair of a key and a cell.
pub open spec fn pair(key: Seq<char>, cell: CellView) -> PairView {
    PairView { key, cell }
}

/// The pairs, with their texts as character sequences.
pub open spec fn pair_views(pairs: Seq<Pair>) -> Seq<PairView> {
    pairs.map_values(|pair: Pair| pair@)
}

/// A piece of output.
#[derive(Debug, PartialEq)]
pub enum Block {
    /// The heading of a section.
    Header(String),
    Line { text: String, style: Style },
    Pairs(Vec<Pair>),
    Table { columns: Vec<&'static str>, rows: Vec<Vec<Cell>> },
    /// The rows of a readable summary.
    Rows(Vec<SummaryRow>),
    /// An empty line between two sections.
    Break,
}

/// A piece of output, with its texts as character sequences.
pub enum BlockView {
    Header(Seq<char>),
    Line { text: Seq<char>, style: Style },
    Pairs(Seq<PairView>),
    Table { columns: Seq<Seq<char>>, rows: Seq<Seq<CellView>> },
    Rows(Seq<RowView>),
    Break,
}

/// The names of columns, as character sequences.
pub open spec fn column_views(columns: Seq<&'static str>) -> Seq<Seq<char>> {
    columns.map_values(|column: &'static str| column@)
}

impl View for Block {
    type V = BlockView;

    open spec fn view(&self) -> BlockView {
        match *self {
            Block::Header(text) => BlockView::Header(text@),
            Block::Line { text, style } => BlockView::Line { text: text@, style },
            Block::Pairs(pairs) => BlockView::Pairs(pair_views(pairs@)),
            Block::Table { columns, rows } => BlockView::Table {
                columns: column_views(columns@),
                rows: grid_views(rows@),
            },
            Block::Rows(rows) => BlockView::Rows(summary::row_views(rows@)),
            Block::Break => BlockView::Break,
        }
    }
}

/// The pieces of output, with their texts as character sequences.
pub open spec fn block_views(blocks: Seq<Block>) -> Seq<BlockView> {
    blocks.map_values(|block: Block| block@)
}

/// Appends a piece of output.
pub fn push_block(blocks: &mut Vec<Block>, block: Block)
    ensures
        block_views(final(blocks)@) == block_views(old(blocks)@).push(block@),
{
    blocks.push(block);
    assert(block_views(blocks@) =~= block_views(old(blocks)@).push(block@));
}

/// The line that shows a text: nothing of one with control characters.
pub open spec fn line(text: Seq<char>, style: Style) -> BlockView {
    BlockView::Line { text: redact::cell_text(text), style }
}

/// Appends a line that shows a text.
pub fn push_line(blocks: &mut Vec<Block>, text: &str, style: Style)
    ensures
        block_views(final(blocks)@) == block_views(old(blocks)@).push(line(text@, style)),
{
    push_block(blocks, Block::Line { text: redact::sanitize_cell(text).to_owned(), style });
}

/// Appends a pair.
pub fn push_pair(pairs: &mut Vec<Pair>, key: &'static str, cell: Cell)
    ensures
        pair_views(final(pairs)@) == pair_views(old(pairs)@).push(pair(key@, cell@)),
{
    let added = Pair { key, cell };
    pairs.push(added);
    assert(pair_views(pairs@) =~= pair_views(old(pairs)@).push(added@));
}

/// Appends a cell.
pub fn push_cell(cells: &mut Vec<Cell>, cell: Cell)
    ensures
        cell_views(final(cells)@) == cell_views(old(cells)@).push(cell@),
{
    cells.push(cell);
    assert(cell_views(cells@) =~= cell_views(old(cells)@).push(cell@));
}

/// Appends a row of cells.
pub fn push_row(rows: &mut Vec<Vec<Cell>>, row: Vec<Cell>)
    ensures
        grid_views(final(rows)@) == grid_views(old(rows)@).push(cell_views(row@)),
{
    rows.push(row);
    assert(grid_views(rows@) =~= grid_views(old(rows)@).push(cell_views(row@)));
}

/// No text of a cell holds a control character.
pub open spec fn cell_is_safe(cell: CellView) -> bool {
    cell.value matches CellValueView::Text(text) ==> !redact::holds_control(text)
}

/// A cell that shows a text holds no control character, whatever the text.
pub proof fn text_cells_are_safe(text: Seq<char>, style: Style)
    ensures
        cell_is_safe(text_cell(text, style)),
{
    redact::cells_hold_no_control(text);
    reveal_strlit("-");
}

} // verus!
