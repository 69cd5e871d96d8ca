//! How a document is drawn as text: colours, aligned pairs, ruled tables and the
//! lines of a summary.

use vstd::prelude::*;
use vstd::string::StringExecFns;

use crate::cards::rows::{field_between, row_identity};
use crate::cards::{rows, Severity};
use crate::cli::ColorMode;
use crate::clock;
use crate::document::Style;
use crate::reading;
use crate::reading::wording;
use crate::summary::SummaryRow;
use crate::text;
use crate::usage::Timestamp;
use crate::width;
use crate::width::{display_width, repeat};

verus! {

/// Cells of the progress bar of a summary line, without its brackets.
pub const PROGRESS_WIDTH: usize = 10;

/// Whether texts are coloured.
#[derive(Clone, Copy, Debug, PartialEq, Eq, Structural)]
pub struct Palette {
    pub colored: bool,
}

impl Palette {
    /// The palette for a mode: where the mode leaves it open, a terminal gets
    /// colours unless the environment asks for none.
    pub fn resolve(mode: ColorMode, terminal: bool, no_color: Option<&str>) -> (result: Self)
        ensures
            result.colored == colours(mode, terminal, crate::errors::slice_view(no_color)),
    {
        let colored = match mode {
            ColorMode::Always => true,
            ColorMode::Never => false,
            ColorMode::Auto => terminal && match no_color {
                Some(value) => value.unicode_len() == 0,
                None => true,
            },
        };
        Palette { colored }
    }
}

/// Whether texts are coloured: where the mode leaves it open, on a terminal, unless
/// the environment asks for none.
pub open spec fn colours(mode: ColorMode, terminal: bool, no_color: Option<Seq<char>>) -> bool {
    match mode {
        ColorMode::Always => true,
        ColorMode::Never => false,
        ColorMode::Auto => terminal && match no_color {
            Some(value) => value.len() == 0,
            None => true,
        },
    }
}

/// The text between a colour and the end of it, where texts are coloured.
pub open spec fn tinted(target: Seq<char>, code: Seq<char>, palette: Palette) -> Seq<char> {
    if palette.colored && code.len() > 0 {
        "\u{1b}["@ + code + "m"@ + target + "\u{1b}[0m"@
    } else {
        target
    }
}

/// The colour of a style.
pub open spec fn style_code(style: Style) -> Seq<char> {
    match style {
        Style::Plain => ""@,
        Style::Dim => "2"@,
        Style::Warning => "33"@,
        Style::Error => "31"@,
    }
}

/// The text in a style.
pub open spec fn painted(target: Seq<char>, style: Style, palette: Palette) -> Seq<char> {
    tinted(target, style_code(style), palette)
}

fn tint(target: &str, code: &str, palette: Palette) -> (result: String)
    ensures
        result@ == tinted(target@, code@, palette),
{
    if !palette.colored || code.unicode_len() == 0 {
        return target.to_owned();
    }
    let mut result = text::join3("\u{1b}[", code, "m");
    result.append(target);
    result.append("\u{1b}[0m");
    result
}

fn code_of(style: Style) -> (result: &'static str)
    ensures
        result@ == style_code(style),
{
    match style {
        Style::Plain => "",
        Style::Dim => "2",
        Style::Warning => "33",
        Style::Error => "31",
    }
}

/// The text in a style.
pub fn paint(target: &str, style: Style, palette: Palette) -> (result: String)
    ensures
        result@ == painted(target@, style, palette),
{
    tint(target, code_of(style), palette)
}

/// The colour of headings.
pub const HEADING_CODE: &'static str = "1;36";

/// The header of a section.
pub open spec fn header_line(title: Seq<char>, palette: Palette) -> Seq<char> {
    tinted("==== "@ + title + " ===="@, HEADING_CODE@, palette) + "\n"@
}

/// The header of a section.
pub fn draw_header(title: &str, palette: Palette) -> (result: String)
    ensures
        result@ == header_line(title@, palette),
{
    let header = text::join3("==== ", title, " ====");
    let mut result = tint(header.as_str(), HEADING_CODE, palette);
    result.append("\n");
    result
}

/// A line of text.
pub fn draw_line(line: &str, style: Style, palette: Palette) -> (result: String)
    ensures
        result@ == painted(line@, style, palette) + "\n"@,
{
    let mut result = paint(line, style, palette);
    result.append("\n");
    result
}

/// A coloured text in a field of so many cells, at one of its edges.
pub open spec fn in_field(
    target: Seq<char>,
    code: Seq<char>,
    field: nat,
    right: bool,
    palette: Palette,
) -> Seq<char> {
    let taken = width::cells(target);
    let pad = if taken < field {
        (field - taken) as nat
    } else {
        0
    };
    if right {
        width::repeated(' ', pad) + tinted(target, code, palette)
    } else {
        tinted(target, code, palette) + width::repeated(' ', pad)
    }
}

fn put_in_field(target: &str, code: &str, field: usize, right: bool, palette: Palette) -> (result:
    String)
    ensures
        result@ == in_field(target@, code@, field as nat, right, palette),
{
    let pad: usize = field.saturating_sub(display_width(target));
    let shown = tint(target, code, palette);
    if right {
        text::join2(repeat(' ', pad).as_str(), shown.as_str())
    } else {
        text::join2(shown.as_str(), repeat(' ', pad).as_str())
    }
}

/// A text to be drawn in a table.
#[derive(Debug)]
pub struct DrawnCell {
    pub text: String,
    pub style: Style,
    /// The text is a number, which stands at the right edge.
    pub right: bool,
}

/// A key and its value.
#[derive(Debug)]
pub struct DrawnPair {
    pub key: String,
    pub cell: DrawnCell,
}

/// The widest of the first keys.
pub open spec fn widest_key(pairs: Seq<DrawnPair>) -> nat
    decreases pairs.len(),
{
    if pairs.len() == 0 {
        0
    } else {
        let before = widest_key(pairs.drop_last());
        let last = width::cells(pairs.last().key@);
        if before < last {
            last
        } else {
            before
        }
    }
}

/// The first pairs, one on each line, with their values in a column.
pub open spec fn pair_lines(pairs: Seq<DrawnPair>, field: nat, palette: Palette) -> Seq<char>
    decreases pairs.len(),
{
    if pairs.len() == 0 {
        Seq::empty()
    } else {
        pair_lines(pairs.drop_last(), field, palette) + in_field(
            pairs.last().key@,
            style_code(Style::Dim),
            field,
            false,
            palette,
        ) + "  "@ + painted(pairs.last().cell.text@, pairs.last().cell.style, palette) + "\n"@
    }
}

/// Keys and values, one pair on each line, with the values in a column.
pub fn draw_pairs(pairs: &Vec<DrawnPair>, palette: Palette) -> (result: String)
    ensures
        result@ == pair_lines(pairs@, widest_key(pairs@), palette),
{
    let mut field: usize = 0;
    let mut index: usize = 0;
    assert(pairs@.take(0) == Seq::<DrawnPair>::empty());
    while index < pairs.len()
        invariant
            index <= pairs@.len(),
            field == widest_key(pairs@.take(index as int)),
        decreases pairs@.len() - index,
    {
        proof {
            assert(pairs@.take(index + 1).drop_last() == pairs@.take(index as int));
            assert(pairs@.take(index + 1).last() == pairs@[index as int]);
        }
        let taken: usize = display_width(pairs[index].key.as_str());
        if field < taken {
            field = taken;
        }
        index = index + 1;
    }
    assert(pairs@.take(index as int) == pairs@);
    let mut result = String::new();
    let mut place: usize = 0;
    while place < pairs.len()
        invariant
            place <= pairs@.len(),
            field == widest_key(pairs@),
            result@ == pair_lines(pairs@.take(place as int), field as nat, palette),
        decreases pairs@.len() - place,
    {
        proof {
            assert(pairs@.take(place + 1).drop_last() == pairs@.take(place as int));
            assert(pairs@.take(place + 1).last() == pairs@[place as int]);
        }
        let pair = &pairs[place];
        result.append(
            put_in_field(pair.key.as_str(), code_of(Style::Dim), field, false, palette).as_str(),
        );
        result.append("  ");
        result.append(paint(pair.cell.text.as_str(), pair.cell.style, palette).as_str());
        result.append("\n");
        place = place + 1;
    }
    assert(pairs@.take(place as int) == pairs@);
    result
}

/// The widest text of a column in the first rows, and in its title.
pub open spec fn column_field(title: Seq<char>, rows: Seq<Vec<DrawnCell>>, column: int) -> nat
    decreases rows.len(),
{
    if rows.len() == 0 {
        width::cells(title)
    } else {
        let before = column_field(title, rows.drop_last(), column);
        let last = width::cells(rows.last()@[column].text@);
        if before < last {
            last
        } else {
            before
        }
    }
}

/// The widths of the columns.
pub open spec fn fields_of(columns: Seq<String>, rows: Seq<Vec<DrawnCell>>) -> Seq<nat> {
    Seq::new(columns.len(), |column: int| column_field(columns[column]@, rows, column))
}

/// The line between two columns.
pub open spec fn bar(palette: Palette) -> Seq<char> {
    painted("|"@, Style::Dim, palette)
}

/// The rule between rows, up to a column.
pub open spec fn rule_up_to(fields: Seq<nat>) -> Seq<char>
    decreases fields.len(),
{
    if fields.len() == 0 {
        "+"@
    } else {
        rule_up_to(fields.drop_last()) + "-"@ + width::repeated('-', fields.last()) + "-+"@
    }
}

/// The titles of the columns, up to a column.
pub open spec fn titles_up_to(
    columns: Seq<String>,
    fields: Seq<nat>,
    count: nat,
    palette: Palette,
) -> Seq<char>
    decreases count,
{
    if count == 0 {
        bar(palette)
    } else {
        titles_up_to(columns, fields, (count - 1) as nat, palette) + " "@ + in_field(
            columns[count - 1]@,
            HEADING_CODE@,
            fields[count - 1],
            false,
            palette,
        ) + " "@ + bar(palette)
    }
}

/// The texts of a row, up to a column.
pub open spec fn texts_up_to(
    cells: Seq<DrawnCell>,
    fields: Seq<nat>,
    count: nat,
    palette: Palette,
) -> Seq<char>
    decreases count,
{
    if count == 0 {
        bar(palette)
    } else {
        texts_up_to(cells, fields, (count - 1) as nat, palette) + " "@ + in_field(
            cells[count - 1].text@,
            style_code(cells[count - 1].style),
            fields[count - 1],
            cells[count - 1].right,
            palette,
        ) + " "@ + bar(palette)
    }
}

/// The first rows of a table, each on a line.
pub open spec fn row_lines(
    rows: Seq<Vec<DrawnCell>>,
    fields: Seq<nat>,
    palette: Palette,
) -> Seq<char>
    decreases rows.len(),
{
    if rows.len() == 0 {
        Seq::empty()
    } else {
        row_lines(rows.drop_last(), fields, palette) + texts_up_to(
            rows.last()@,
            fields,
            fields.len(),
            palette,
        ) + "\n"@
    }
}

/// A table with ruled columns.
pub open spec fn ruled_table(
    columns: Seq<String>,
    rows: Seq<Vec<DrawnCell>>,
    palette: Palette,
) -> Seq<char> {
    let fields = fields_of(columns, rows);
    let rule = painted(rule_up_to(fields), Style::Dim, palette) + "\n"@;
    rule + titles_up_to(columns, fields, columns.len(), palette) + "\n"@ + rule + row_lines(
        rows,
        fields,
        palette,
    ) + rule
}

/// The widths as mathematical numbers.
spec fn exact(fields: Seq<usize>) -> Seq<nat> {
    fields.map_values(|field: usize| field as nat)
}

fn measure_columns(columns: &Vec<String>, rows: &Vec<Vec<DrawnCell>>) -> (result: Vec<usize>)
    requires
        forall|i: int| 0 <= i < rows@.len() ==> (#[trigger] rows@[i])@.len() == columns@.len(),
    ensures
        exact(result@) == fields_of(columns@, rows@),
{
    let mut fields: Vec<usize> = Vec::new();
    let mut column: usize = 0;
    while column < columns.len()
        invariant
            column <= columns@.len(),
            forall|i: int| 0 <= i < rows@.len() ==> (#[trigger] rows@[i])@.len() == columns@.len(),
            fields@.len() == column,
            forall|j: int|
                0 <= j < column ==> #[trigger] fields@[j] == column_field(
                    columns@[j]@,
                    rows@,
                    j,
                ),
        decreases columns@.len() - column,
    {
        let mut field: usize = display_width(columns[column].as_str());
        let mut index: usize = 0;
        assert(rows@.take(0) == Seq::<Vec<DrawnCell>>::empty());
        while index < rows.len()
            invariant
                index <= rows@.len(),
                column < columns@.len(),
                forall|i: int|
                    0 <= i < rows@.len() ==> (#[trigger] rows@[i])@.len() == columns@.len(),
                field == column_field(
                    columns@[column as int]@,
                    rows@.take(index as int),
                    column as int,
                ),
            decreases rows@.len() - index,
        {
            proof {
                assert(rows@.take(index + 1).drop_last() == rows@.take(index as int));
                assert(rows@.take(index + 1).last() == rows@[index as int]);
            }
            let row = &rows[index];
            let taken: usize = display_width(row[column].text.as_str());
            if field < taken {
                field = taken;
            }
            index = index + 1;
        }
        assert(rows@.take(index as int) == rows@);
        fields.push(field);
        column = column + 1;
    }
    assert(exact(fields@) =~= fields_of(columns@, rows@));
    fields
}

fn draw_rule(fields: &Vec<usize>, palette: Palette) -> (result: String)
    ensures
        result@ == painted(rule_up_to(exact(fields@)), Style::Dim, palette) + "\n"@,
{
    let mut rule = "+".to_owned();
    let mut index: usize = 0;
    assert(exact(fields@).take(0) == Seq::<nat>::empty());
    while index < fields.len()
        invariant
            index <= fields@.len(),
            rule@ == rule_up_to(exact(fields@).take(index as int)),
        decreases fields@.len() - index,
    {
        proof {
            let more = exact(fields@).take(index + 1);
            assert(more.drop_last() == exact(fields@).take(index as int));
            assert(more.last() == fields@[index as int]);
        }
        rule.append("-");
        rule.append(repeat('-', fields[index]).as_str());
        rule.append("-+");
        index = index + 1;
    }
    assert(exact(fields@).take(index as int) == exact(fields@));
    let mut line = paint(rule.as_str(), Style::Dim, palette);
    line.append("\n");
    line
}

/// A table with ruled columns, whose numbers stand at the right edge.
pub fn draw_table(columns: &Vec<String>, rows: &Vec<Vec<DrawnCell>>, palette: Palette) -> (result:
    String)
    requires
        forall|i: int| 0 <= i < rows@.len() ==> (#[trigger] rows@[i])@.len() == columns@.len(),
    ensures
        result@ == ruled_table(columns@, rows@, palette),
{
    let fields = measure_columns(columns, rows);
    let ghost sizes = exact(fields@);
    let rule = draw_rule(&fields, palette);
    let bar = paint("|", Style::Dim, palette);
    let mut result = rule.clone();
    let mut titles = bar.clone();
    let mut column: usize = 0;
    while column < columns.len()
        invariant
            column <= columns@.len(),
            sizes == exact(fields@),
            fields@.len() == columns@.len(),
            bar@ == self::bar(palette),
            titles@ == titles_up_to(columns@, sizes, column as nat, palette),
        decreases columns@.len() - column,
    {
        assert(sizes[column as int] == fields@[column as int]);
        titles.append(" ");
        titles.append(
            put_in_field(
                columns[column].as_str(),
                HEADING_CODE,
                fields[column],
                false,
                palette,
            ).as_str(),
        );
        titles.append(" ");
        titles.append(bar.as_str());
        column = column + 1;
    }
    result.append(titles.as_str());
    result.append("\n");
    result.append(rule.as_str());
    let mut body = String::new();
    let mut index: usize = 0;
    assert(rows@.take(0) == Seq::<Vec<DrawnCell>>::empty());
    while index < rows.len()
        invariant
            index <= rows@.len(),
            sizes == exact(fields@),
            fields@.len() == columns@.len(),
            bar@ == self::bar(palette),
            forall|i: int| 0 <= i < rows@.len() ==> (#[trigger] rows@[i])@.len() == columns@.len(),
            body@ == row_lines(rows@.take(index as int), sizes, palette),
        decreases rows@.len() - index,
    {
        proof {
            assert(rows@.take(index + 1).drop_last() == rows@.take(index as int));
            assert(rows@.take(index + 1).last() == rows@[index as int]);
        }
        let row = &rows[index];
        let mut line = bar.clone();
        let mut place: usize = 0;
        while place < row.len()
            invariant
                place <= row@.len(),
                row@.len() == fields@.len(),
                sizes == exact(fields@),
                bar@ == self::bar(palette),
                line@ == texts_up_to(row@, sizes, place as nat, palette),
            decreases row@.len() - place,
        {
            assert(sizes[place as int] == fields@[place as int]);
            let cell = &row[place];
            line.append(" ");
            line.append(
                put_in_field(
                    cell.text.as_str(),
                    code_of(cell.style),
                    fields[place],
                    cell.right,
                    palette,
                ).as_str(),
            );
            line.append(" ");
            line.append(bar.as_str());
            place = place + 1;
        }
        body.append(line.as_str());
        body.append("\n");
        index = index + 1;
    }
    assert(rows@.take(index as int) == rows@);
    result.append(body.as_str());
    result.append(rule.as_str());
    assert(result@ =~= ruled_table(columns@, rows@, palette));
    result
}

/// One line of a summary, before it is aligned with the others.
#[derive(Debug)]
pub struct SummaryCells {
    pub identity: String,
    pub verb: String,
    pub amount: String,
    pub suffix: String,
    /// The wait until the window resets, in seconds.
    pub resets_in: Option<u64>,
    /// The cells of the bar that are still quota, and how much that is.
    pub progress: Option<(usize, Severity)>,
}

/// The whole seconds until a row's reset, where it has one.
pub open spec fn seconds_to_reset(resets_at: Option<Timestamp>, now: Timestamp) -> Option<u64> {
    match resets_at {
        Some(time) => Some(clock::seconds_between(now, time)),
        None => None,
    }
}

/// The line of a summary row at a point in time. `amount` is its figure as a
/// text, and `progress` its bar.
pub fn summary_cells(
    row: &SummaryRow,
    amount: String,
    progress: Option<(usize, Severity)>,
    now: &Timestamp,
) -> (result: SummaryCells)
    ensures
        result.identity@ == rows::row_name(row.window@, row.metric@),
        result.verb@ == reading::verb_of(row.value),
        result.amount == amount,
        result.suffix@ == reading::mark_of(row.disabled),
        result.resets_in == seconds_to_reset(row.resets_at, *now),
        result.progress == progress,
{
    let words = wording(row);
    SummaryCells {
        identity: row_identity(row),
        verb: words.verb.to_owned(),
        amount,
        suffix: words.suffix.to_owned(),
        resets_in: match &row.resets_at {
            Some(time) => Some(clock::elapsed_seconds(now, time)),
            None => None,
        },
        progress,
    }
}

/// How long until the window resets, in a field of fixed width: the count of
/// days, a star for each of up to seven days, or the hours or minutes.
pub open spec fn reset_cell(seconds: u64) -> Seq<char> {
    let days = seconds / 86400;
    let hours = seconds / 3600;
    let minutes = seconds / 60;
    if days > rows::RESET_FIELD_WIDTH {
        rows::edged_field(text::decimal_digits(days as nat) + "d"@, '-')
    } else if days >= 1 {
        width::repeated('-', (rows::RESET_FIELD_WIDTH - days) as nat) + width::repeated(
            '*',
            days as nat,
        )
    } else if hours >= 1 {
        rows::edged_field(text::decimal_digits(hours as nat) + "h"@, '-')
    } else if minutes >= 1 {
        rows::edged_field(text::decimal_digits(minutes as nat) + "m"@, '-')
    } else {
        rows::edged_field("<1m"@, '-')
    }
}

/// How long until the window resets, in a field of fixed width.
pub fn reset_field(seconds: u64) -> (result: String)
    ensures
        result@ == reset_cell(seconds),
        result@.len() == rows::RESET_FIELD_WIDTH,
{
    let days: u64 = seconds / 86400;
    proof {
        reveal_strlit("d");
        reveal_strlit("h");
        reveal_strlit("m");
        reveal_strlit("<1m");
        rows::digits_are_plain((seconds / 86400) as nat);
        rows::digits_are_plain((seconds / 3600) as nat);
        rows::digits_are_plain((seconds / 60) as nat);
    }
    if days >= 1 && days <= rows::RESET_FIELD_WIDTH as u64 {
        let mut field = repeat('-', rows::RESET_FIELD_WIDTH - days as usize);
        field.append(repeat('*', days as usize).as_str());
        return field;
    }
    let count = if days >= 1 {
        text::join2(text::decimal(days).as_str(), "d")
    } else if seconds >= 3600 {
        text::join2(text::decimal(seconds / 3600).as_str(), "h")
    } else if seconds >= 60 {
        text::join2(text::decimal(seconds / 60).as_str(), "m")
    } else {
        "<1m".to_owned()
    };
    assert(width::plain(count@));
    field_between(count.as_str(), '-')
}

/// The progress bar of a summary line, coloured when little is left.
pub open spec fn progress_cell(filled: nat, severity: Severity, palette: Palette) -> Seq<char> {
    let kept = if filled < PROGRESS_WIDTH {
        filled
    } else {
        PROGRESS_WIDTH as nat
    };
    let bar = "["@ + width::repeated('-', (PROGRESS_WIDTH - kept) as nat) + width::repeated(
        '#',
        kept,
    ) + "]"@;
    tinted(
        bar,
        match severity {
            Severity::Critical => "31"@,
            Severity::Low => "33"@,
            Severity::Ample => ""@,
        },
        palette,
    )
}

/// The progress bar of a summary line, coloured when little is left.
pub fn progress_bar(filled: usize, severity: Severity, palette: Palette) -> (result: String)
    ensures
        result@ == progress_cell(filled as nat, severity, palette),
{
    let kept: usize = if filled < PROGRESS_WIDTH {
        filled
    } else {
        PROGRESS_WIDTH
    };
    let mut bar = text::join3(
        "[",
        repeat('-', PROGRESS_WIDTH - kept).as_str(),
        repeat('#', kept).as_str(),
    );
    bar.append("]");
    tint(
        bar.as_str(),
        match severity {
            Severity::Critical => "31",
            Severity::Low => "33",
            Severity::Ample => "",
        },
        palette,
    )
}

/// The fields of summary lines.
#[derive(Clone, Copy, Debug)]
pub struct SummaryFields {
    pub identity: usize,
    pub verb: usize,
    pub amount: usize,
    pub suffix: usize,
    pub resets: bool,
}

/// The fields of summary lines, with mathematical numbers.
pub struct SummaryFieldsView {
    pub identity: nat,
    pub verb: nat,
    pub amount: nat,
    pub suffix: nat,
    pub resets: bool,
}

impl View for SummaryFields {
    type V = SummaryFieldsView;

    open spec fn view(&self) -> SummaryFieldsView {
        SummaryFieldsView {
            identity: self.identity as nat,
            verb: self.verb as nat,
            amount: self.amount as nat,
            suffix: self.suffix as nat,
            resets: self.resets,
        }
    }
}

/// A field that holds a text besides what it held.
pub open spec fn roomier(field: nat, target: Seq<char>) -> nat {
    if field < width::cells(target) {
        width::cells(target)
    } else {
        field
    }
}

/// The least fields that hold a line besides what other fields hold.
pub open spec fn widened(fields: SummaryFieldsView, line: SummaryCells) -> SummaryFieldsView {
    SummaryFieldsView {
        identity: roomier(fields.identity, line.identity@),
        verb: roomier(fields.verb, line.verb@),
        amount: roomier(fields.amount, line.amount@),
        suffix: roomier(fields.suffix, line.suffix@),
        resets: fields.resets || line.resets_in is Some,
    }
}

/// The least fields that hold all the lines.
pub open spec fn measured(lines: Seq<SummaryCells>) -> SummaryFieldsView
    decreases lines.len(),
{
    if lines.len() == 0 {
        SummaryFieldsView { identity: 0, verb: 0, amount: 0, suffix: 0, resets: false }
    } else {
        widened(measured(lines.drop_last()), lines.last())
    }
}

/// One line of a summary: its name, what it reads, the countdown, and the bar.
pub open spec fn summary_line(
    line: SummaryCells,
    fields: SummaryFieldsView,
    palette: Palette,
) -> Seq<char> {
    let named = in_field(line.identity@, ""@, fields.identity, false, palette);
    let worded = named + "  "@ + in_field(
        line.verb@,
        style_code(Style::Dim),
        fields.verb,
        false,
        palette,
    );
    let counted = worded + " "@ + in_field(line.amount@, ""@, fields.amount, true, palette);
    let whole = if fields.suffix == 0 {
        counted
    } else {
        counted + " "@ + in_field(
            line.suffix@,
            style_code(Style::Dim),
            fields.suffix,
            false,
            palette,
        )
    };
    let timed = match line.resets_in {
        Some(seconds) => whole + "  "@ + reset_cell(seconds),
        None => if fields.resets && line.progress is Some {
            whole + "  "@ + width::repeated(' ', rows::RESET_FIELD_WIDTH as nat)
        } else {
            whole
        },
    };
    match line.progress {
        Some((filled, severity)) => timed + "  "@ + progress_cell(
            filled as nat,
            severity,
            palette,
        ),
        None => timed,
    }
}

/// The first lines of a summary.
pub open spec fn summary_text(
    lines: Seq<SummaryCells>,
    fields: SummaryFieldsView,
    palette: Palette,
) -> Seq<char>
    decreases lines.len(),
{
    if lines.len() == 0 {
        Seq::empty()
    } else {
        summary_text(lines.drop_last(), fields, palette) + summary_line(
            lines.last(),
            fields,
            palette,
        ) + "\n"@
    }
}

fn widen_field(field: usize, target: &str) -> (result: usize)
    ensures
        result == roomier(field as nat, target@),
{
    let taken: usize = display_width(target);
    if field < taken {
        taken
    } else {
        field
    }
}

fn draw_summary_line(line: &SummaryCells, fields: &SummaryFields, palette: Palette) -> (result:
    String)
    ensures
        result@ == summary_line(*line, fields@, palette),
{
    let mut result = put_in_field(line.identity.as_str(), "", fields.identity, false, palette);
    result.append("  ");
    result.append(
        put_in_field(
            line.verb.as_str(),
            code_of(Style::Dim),
            fields.verb,
            false,
            palette,
        ).as_str(),
    );
    result.append(" ");
    result.append(
        put_in_field(line.amount.as_str(), "", fields.amount, true, palette).as_str(),
    );
    if fields.suffix > 0 {
        result.append(" ");
        result.append(
            put_in_field(
                line.suffix.as_str(),
                code_of(Style::Dim),
                fields.suffix,
                false,
                palette,
            ).as_str(),
        );
    }
    match line.resets_in {
        Some(seconds) => {
            result.append("  ");
            result.append(reset_field(seconds).as_str());
        },
        None => {
            if fields.resets && line.progress.is_some() {
                result.append("  ");
                result.append(repeat(' ', rows::RESET_FIELD_WIDTH).as_str());
            }
        },
    }
    if let Some((filled, severity)) = line.progress {
        result.append("  ");
        result.append(progress_bar(filled, severity, palette).as_str());
    }
    result
}

/// Widens the fields until they hold the lines too.
fn widen_for(fields: &mut SummaryFields, lines: &Vec<SummaryCells>, Ghost(held): Ghost<
    Seq<SummaryCells>,
>)
    requires
        old(fields)@ == measured(held),
    ensures
        final(fields)@ == measured(held + lines@),
{
    let mut index: usize = 0;
    assert(held + lines@.take(0) == held);
    while index < lines.len()
        invariant
            index <= lines@.len(),
            fields@ == measured(held + lines@.take(index as int)),
        decreases lines@.len() - index,
    {
        let line = &lines[index];
        *fields =
        SummaryFields {
            identity: widen_field(fields.identity, line.identity.as_str()),
            verb: widen_field(fields.verb, line.verb.as_str()),
            amount: widen_field(fields.amount, line.amount.as_str()),
            suffix: widen_field(fields.suffix, line.suffix.as_str()),
            resets: fields.resets || line.resets_in.is_some(),
        };
        proof {
            let more = held + lines@.take(index + 1);
            assert(more.drop_last() == held + lines@.take(index as int));
            assert(more.last() == lines@[index as int]);
        }
        index = index + 1;
    }
    assert(lines@.take(index as int) == lines@);
}

/// The lines of a summary, in those fields.
pub fn draw_summary(lines: &Vec<SummaryCells>, fields: &SummaryFields, palette: Palette) -> (result:
    String)
    ensures
        result@ == summary_text(lines@, fields@, palette),
{
    let mut result = String::new();
    let mut place: usize = 0;
    assert(lines@.take(0) == Seq::<SummaryCells>::empty());
    while place < lines.len()
        invariant
            place <= lines@.len(),
            result@ == summary_text(lines@.take(place as int), fields@, palette),
        decreases lines@.len() - place,
    {
        proof {
            assert(lines@.take(place + 1).drop_last() == lines@.take(place as int));
            assert(lines@.take(place + 1).last() == lines@[place as int]);
        }
        result.append(draw_summary_line(&lines[place], fields, palette).as_str());
        result.append("\n");
        place = place + 1;
    }
    assert(lines@.take(place as int) == lines@);
    result
}

/// A piece of output whose texts and numbers are ready to be drawn.
#[derive(Debug)]
pub enum DrawnBlock {
    Header(String),
    Line { text: String, style: Style },
    Pairs(Vec<DrawnPair>),
    Table { columns: Vec<String>, rows: Vec<Vec<DrawnCell>> },
    Rows(Vec<SummaryCells>),
    Break,
}

/// Every row of a table has as many cells as the table has columns.
pub open spec fn rectangular(block: DrawnBlock) -> bool {
    match block {
        DrawnBlock::Table { columns, rows } => forall|i: int|
            0 <= i < rows@.len() ==> (#[trigger] rows@[i])@.len() == columns@.len(),
        _ => true,
    }
}

/// The lines of all the summaries of a document.
pub open spec fn all_lines(blocks: Seq<DrawnBlock>) -> Seq<SummaryCells>
    decreases blocks.len(),
{
    if blocks.len() == 0 {
        Seq::empty()
    } else {
        all_lines(blocks.drop_last()) + match blocks.last() {
            DrawnBlock::Rows(lines) => lines@,
            _ => Seq::empty(),
        }
    }
}

/// One piece of output.
pub open spec fn block_text(
    block: DrawnBlock,
    fields: SummaryFieldsView,
    palette: Palette,
) -> Seq<char> {
    match block {
        DrawnBlock::Header(title) => header_line(title@, palette),
        DrawnBlock::Line { text, style } => painted(text@, style, palette) + "\n"@,
        DrawnBlock::Pairs(pairs) => pair_lines(pairs@, widest_key(pairs@), palette),
        DrawnBlock::Table { columns, rows } => ruled_table(columns@, rows@, palette),
        DrawnBlock::Rows(lines) => summary_text(lines@, fields, palette),
        DrawnBlock::Break => "\n"@,
    }
}

/// The first pieces of output, one below the other.
pub open spec fn document_text(
    blocks: Seq<DrawnBlock>,
    fields: SummaryFieldsView,
    palette: Palette,
) -> Seq<char>
    decreases blocks.len(),
{
    if blocks.len() == 0 {
        Seq::empty()
    } else {
        document_text(blocks.drop_last(), fields, palette) + block_text(
            blocks.last(),
            fields,
            palette,
        )
    }
}

fn draw_block(block: &DrawnBlock, fields: &SummaryFields, palette: Palette) -> (result: String)
    requires
        rectangular(*block),
    ensures
        result@ == block_text(*block, fields@, palette),
{
    match block {
        DrawnBlock::Header(title) => draw_header(title.as_str(), palette),
        DrawnBlock::Line { text, style } => draw_line(text.as_str(), *style, palette),
        DrawnBlock::Pairs(pairs) => draw_pairs(pairs, palette),
        DrawnBlock::Table { columns, rows } => draw_table(columns, rows, palette),
        DrawnBlock::Rows(lines) => draw_summary(lines, fields, palette),
        DrawnBlock::Break => "\n".to_owned(),
    }
}

/// A whole document. The summaries of all its sections share their columns.
pub fn draw_document(blocks: &Vec<DrawnBlock>, palette: Palette) -> (result: String)
    requires
        forall|i: int| 0 <= i < blocks@.len() ==> rectangular(#[trigger] blocks@[i]),
    ensures
        result@ == document_text(blocks@, measured(all_lines(blocks@)), palette),
{
    let mut fields = SummaryFields { identity: 0, verb: 0, amount: 0, suffix: 0, resets: false };
    let mut index: usize = 0;
    assert(blocks@.take(0) == Seq::<DrawnBlock>::empty());
    while index < blocks.len()
        invariant
            index <= blocks@.len(),
            fields@ == measured(all_lines(blocks@.take(index as int))),
        decreases blocks@.len() - index,
    {
        let ghost held = all_lines(blocks@.take(index as int));
        proof {
            assert(blocks@.take(index + 1).drop_last() == blocks@.take(index as int));
            assert(blocks@.take(index + 1).last() == blocks@[index as int]);
            assert(held + Seq::<SummaryCells>::empty() == held);
        }
        if let DrawnBlock::Rows(lines) = &blocks[index] {
            widen_for(&mut fields, lines, Ghost(held));
        }
        index = index + 1;
    }
    assert(blocks@.take(index as int) == blocks@);
    let mut result = String::new();
    let mut place: usize = 0;
    while place < blocks.len()
        invariant
            place <= blocks@.len(),
            forall|i: int| 0 <= i < blocks@.len() ==> rectangular(#[trigger] blocks@[i]),
            result@ == document_text(blocks@.take(place as int), fields@, palette),
        decreases blocks@.len() - place,
    {
        proof {
            assert(blocks@.take(place + 1).drop_last() == blocks@.take(place as int));
            assert(blocks@.take(place + 1).last() == blocks@[place as int]);
        }
        result.append(draw_block(&blocks[place], &fields, palette).as_str());
        place = place + 1;
    }
    assert(blocks@.take(place as int) == blocks@);
    result
}

proof fn rules_take(fields: Seq<nat>)
    ensures
        rule_up_to(fields).len() == 1 + table_cells(fields),
    decreases fields.len(),
{
    reveal_strlit("+");
    reveal_strlit("-");
    reveal_strlit("-+");
    if fields.len() > 0 {
        rules_take(fields.drop_last());
    }
}

/// The cells of the columns of a table, with their margins and rules.
pub open spec fn table_cells(fields: Seq<nat>) -> nat
    decreases fields.len(),
{
    if fields.len() == 0 {
        0
    } else {
        table_cells(fields.drop_last()) + fields.last() + 3
    }
}

proof fn rows_take(cells: Seq<DrawnCell>, fields: Seq<nat>, count: nat)
    requires
        count <= fields.len(),
        fields.len() == cells.len(),
        forall|i: int|
            0 <= i < cells.len() ==> width::plain((#[trigger] cells[i]).text@) && cells[i].text@.len()
                <= fields[i],
    ensures
        texts_up_to(cells, fields, count, Palette { colored: false }).len() == 1 + table_cells(
            fields.take(count as int),
        ),
    decreases count,
{
    reveal_strlit("|");
    reveal_strlit(" ");
    if count > 0 {
        rows_take(cells, fields, (count - 1) as nat);
        let last = count - 1;
        assert(width::plain(cells[last].text@));
        assert(fields.take(count as int).drop_last() == fields.take(last));
        assert(fields.take(count as int).last() == fields[last]);
    } else {
        assert(fields.take(0).len() == 0);
    }
}

/// Without colours, every row of plain texts is exactly as long as the rules
/// above and below it.
pub proof fn rows_are_as_long_as_the_rules(cells: Seq<DrawnCell>, fields: Seq<nat>)
    requires
        fields.len() == cells.len(),
        forall|i: int|
            0 <= i < cells.len() ==> width::plain((#[trigger] cells[i]).text@) && cells[i].text@.len()
                <= fields[i],
    ensures
        texts_up_to(cells, fields, fields.len(), Palette { colored: false }).len() == rule_up_to(
            fields,
        ).len(),
{
    rules_take(fields);
    rows_take(cells, fields, fields.len());
    assert(fields.take(fields.len() as int) == fields);
}

} // verus!
