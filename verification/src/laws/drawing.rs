//! How documents are drawn as text.

use vstd::prelude::*;

use crate::cards::rows;
use crate::cards::Severity;
use crate::cli::ColorMode;
use crate::document::Style;
use crate::laws::cards;
use crate::laws::texts;
use crate::table;
use crate::table::{DrawnBlock, DrawnCell, DrawnPair, Palette, SummaryCells, SummaryFieldsView};
use crate::text;
use crate::usage::Timestamp;
use crate::width;

verus! {

/// Texts are coloured on request, and, where it is left open, on a terminal whose
/// environment does not ask for none.
pub proof fn colours_are_asked_for(mode: ColorMode, terminal: bool, no_color: Option<Seq<char>>)
    ensures
        mode is Always ==> table::colours(mode, terminal, no_color),
        mode is Never ==> !table::colours(mode, terminal, no_color),
        mode is Auto && !terminal ==> !table::colours(mode, terminal, no_color),
        mode is Auto && terminal && no_color is None ==> table::colours(mode, terminal, no_color),
        mode is Auto && no_color is Some && no_color->0.len() > 0 ==> !table::colours(
            mode,
            terminal,
            no_color,
        ),
        mode is Auto && terminal && no_color is Some && no_color->0.len() == 0 ==> table::colours(
            mode,
            terminal,
            no_color,
        ),
{
}

/// Without colours, and in the plain style, a text is drawn as it is; else between
/// the code of its style and the end of it: faint, yellow for a warning, red for an
/// error.
pub proof fn styles_are_drawn_by_their_codes(target: Seq<char>, style: Style)
    ensures
        table::painted(target, style, Palette { colored: false }) == target,
        table::painted(target, Style::Plain, Palette { colored: true }) == target,
        table::painted(target, Style::Dim, Palette { colored: true }) == "\u{1b}["@ + "2"@ + "m"@
            + target + "\u{1b}[0m"@,
        table::painted(target, Style::Warning, Palette { colored: true }) == "\u{1b}["@ + "33"@
            + "m"@ + target + "\u{1b}[0m"@,
        table::painted(target, Style::Error, Palette { colored: true }) == "\u{1b}["@ + "31"@
            + "m"@ + target + "\u{1b}[0m"@,
        table::header_line(target, Palette { colored: false }) == "==== "@ + target + " ===="@
            + "\n"@,
        table::header_line(target, Palette { colored: true }) == "\u{1b}["@ + "1;36"@ + "m"@ + (
        "==== "@ + target + " ===="@) + "\u{1b}[0m"@ + "\n"@,
{
    reveal_strlit("");
    reveal_strlit("2");
    reveal_strlit("33");
    reveal_strlit("31");
    reveal_strlit("1;36");
    assert(""@.len() == 0 && "2"@.len() == 1 && "33"@.len() == 2 && "31"@.len() == 2
        && "1;36"@.len() == 4);
}

/// A text in a field is filled up with blanks: in front of it where it stands at
/// the right, and behind it else; one that is as wide as the field stays as it is.
pub proof fn fields_are_filled_with_blanks(
    target: Seq<char>,
    code: Seq<char>,
    field: nat,
    palette: Palette,
)
    ensures
        width::cells(target) >= field ==> table::in_field(target, code, field, true, palette)
            == table::tinted(target, code, palette) && table::in_field(
            target,
            code,
            field,
            false,
            palette,
        ) == table::tinted(target, code, palette),
        width::cells(target) <= field ==> ({
            let pad = Seq::new((field - width::cells(target)) as nat, |i: int| ' ');
            &&& table::in_field(target, code, field, true, palette) == pad + table::tinted(
                target,
                code,
                palette,
            )
            &&& table::in_field(target, code, field, false, palette) == table::tinted(
                target,
                code,
                palette,
            ) + pad
        }),
        !palette.colored && width::plain(target) && target.len() <= field ==> table::in_field(
            target,
            code,
            field,
            true,
            palette,
        ).len() == field && table::in_field(target, code, field, false, palette).len() == field,
{
    let none = Seq::<char>::empty();
    if width::cells(target) >= field {
        assert(width::repeated(' ', 0) =~= none);
        assert(none + table::tinted(target, code, palette) =~= table::tinted(target, code, palette));
        assert(table::tinted(target, code, palette) + none =~= table::tinted(target, code, palette));
    }
    if width::cells(target) <= field {
        let pad = Seq::new((field - width::cells(target)) as nat, |i: int| ' ');
        assert(width::repeated(' ', (field - width::cells(target)) as nat) =~= pad);
    }
}

/// The keys of pairs share a field as wide as the widest, and each pair is a line:
/// its key, two blanks, and its value.
pub proof fn pairs_are_drawn_line_by_line(
    first: Seq<DrawnPair>,
    second: Seq<DrawnPair>,
    only: DrawnPair,
    field: nat,
    palette: Palette,
)
    ensures
        table::pair_lines(first + second, field, palette) == table::pair_lines(
            first,
            field,
            palette,
        ) + table::pair_lines(second, field, palette),
        table::pair_lines(seq![only], field, Palette { colored: false }) == table::in_field(
            only.key@,
            ""@,
            field,
            false,
            Palette { colored: false },
        ) + "  "@ + only.cell.text@ + "\n"@,
        cards::widest(
            first.map_values(|pair: DrawnPair| width::cells(pair.key@)),
            table::widest_key(first),
        ),
    decreases second.len() + first.len(),
{
    reveal_strlit("");
    let plain = Palette { colored: false };
    let one = seq![only];
    assert(one.drop_last() =~= Seq::<DrawnPair>::empty());
    assert(table::pair_lines(one.drop_last(), field, plain) =~= Seq::<char>::empty());
    let drawn = table::in_field(only.key@, ""@, field, false, plain) + "  "@ + only.cell.text@
        + "\n"@;
    assert(table::pair_lines(one, field, plain) =~= drawn);
    widest_keys(first);
    let whole = first + second;
    if second.len() > 0 {
        pairs_are_drawn_line_by_line(first, second.drop_last(), only, field, palette);
        assert(whole.drop_last() =~= first + second.drop_last());
        assert(whole.last() == second.last());
    } else {
        assert(whole =~= first);
    }
    assert(table::pair_lines(whole, field, palette) =~= table::pair_lines(first, field, palette)
        + table::pair_lines(second, field, palette));
}

proof fn widest_keys(pairs: Seq<DrawnPair>)
    ensures
        cards::widest(
            pairs.map_values(|pair: DrawnPair| width::cells(pair.key@)),
            table::widest_key(pairs),
        ),
    decreases pairs.len(),
{
    let keys = |pair: DrawnPair| width::cells(pair.key@);
    if pairs.len() > 0 {
        let front = pairs.drop_last();
        widest_keys(front);
        assert(pairs.map_values(keys) =~= front.map_values(keys).push(keys(pairs.last())));
        cards::widest_of_more(
            front.map_values(keys),
            table::widest_key(front),
            keys(pairs.last()),
            pairs.map_values(keys),
        );
    }
}

/// A column is as wide as its heading or the widest text under it.
pub proof fn columns_fit_heading_and_texts(
    title: Seq<char>,
    rows: Seq<Vec<DrawnCell>>,
    column: int,
)
    ensures
        ({
            let field = table::column_field(title, rows, column);
            &&& width::cells(title) <= field
            &&& forall|i: int|
                0 <= i < rows.len() ==> width::cells((#[trigger] rows[i])@[column].text@) <= field
            &&& field == width::cells(title) || exists|i: int|
                0 <= i < rows.len() && width::cells((#[trigger] rows[i])@[column].text@) == field
        }),
    decreases rows.len(),
{
    if rows.len() > 0 {
        let front = rows.drop_last();
        columns_fit_heading_and_texts(title, front, column);
        let before = table::column_field(title, front, column);
        let last = width::cells(rows.last()@[column].text@);
        let field = table::column_field(title, rows, column);
        assert forall|i: int| 0 <= i < rows.len() implies width::cells(
            (#[trigger] rows[i])@[column].text@,
        ) <= field by {
            if i < front.len() {
                assert(front[i] == rows[i]);
            }
        }
        if before < last {
            assert(width::cells(rows[rows.len() - 1]@[column].text@) == field);
        } else if before != width::cells(title) {
            let i = choose|i: int|
                0 <= i < front.len() && width::cells((#[trigger] front[i])@[column].text@)
                    == before;
            assert(rows[i] == front[i]);
        }
    }
}

/// A table is ruled above and below its headings and at its end; its rows are
/// drawn one by one, between bars, in their order.
pub proof fn tables_are_drawn_row_by_row(
    columns: Seq<String>,
    first: Seq<Vec<DrawnCell>>,
    second: Seq<Vec<DrawnCell>>,
    only: Vec<DrawnCell>,
    fields: Seq<nat>,
    palette: Palette,
)
    ensures
        table::row_lines(first + second, fields, palette) == table::row_lines(
            first,
            fields,
            palette,
        ) + table::row_lines(second, fields, palette),
        table::row_lines(seq![only], fields, palette) == table::texts_up_to(
            only@,
            fields,
            fields.len(),
            palette,
        ) + "\n"@,
        ({
            let widths = Seq::new(
                columns.len(),
                |i: int| table::column_field(columns[i]@, first, i),
            );
            let rule = table::painted(table::rule_up_to(widths), Style::Dim, palette) + "\n"@;
            let titles = table::titles_up_to(columns, widths, columns.len(), palette) + "\n"@;
            table::ruled_table(columns, first, palette) == rule + titles + rule + table::row_lines(
                first,
                widths,
                palette,
            ) + rule
        }),
    decreases second.len(),
{
    let one = seq![only];
    assert(one.drop_last() =~= Seq::<Vec<DrawnCell>>::empty());
    assert(table::row_lines(one.drop_last(), fields, palette) =~= Seq::<char>::empty());
    let drawn = table::texts_up_to(only@, fields, fields.len(), palette) + "\n"@;
    assert(table::row_lines(one, fields, palette) =~= drawn);
    let widths = Seq::new(columns.len(), |i: int| table::column_field(columns[i]@, first, i));
    assert(table::fields_of(columns, first) =~= widths);
    let rule = table::painted(table::rule_up_to(widths), Style::Dim, palette) + "\n"@;
    let titles = table::titles_up_to(columns, widths, columns.len(), palette) + "\n"@;
    assert(table::ruled_table(columns, first, palette) =~= rule + titles + rule + table::row_lines(
        first,
        widths,
        palette,
    ) + rule);
    let whole = first + second;
    if second.len() > 0 {
        tables_are_drawn_row_by_row(columns, first, second.drop_last(), only, fields, palette);
        assert(whole.drop_last() =~= first + second.drop_last());
        assert(whole.last() == second.last());
    } else {
        assert(whole =~= first);
    }
    assert(table::row_lines(whole, fields, palette) =~= table::row_lines(first, fields, palette)
        + table::row_lines(second, fields, palette));
}

/// A row of one cell, without colours, stands between two bars, and its rule
/// between two crosses.
pub proof fn cells_stand_between_bars(cell: DrawnCell, title: String, field: nat)
    ensures
        table::texts_up_to(seq![cell], seq![field], 1, Palette { colored: false }) == "|"@ + " "@
            + table::in_field(cell.text@, ""@, field, cell.right, Palette { colored: false })
            + " "@ + "|"@,
        table::titles_up_to(seq![title], seq![field], 1, Palette { colored: false }) == "|"@ + " "@
            + table::in_field(title@, ""@, field, false, Palette { colored: false }) + " "@
            + "|"@,
        table::rule_up_to(seq![field]) == "+"@ + "-"@ + width::repeated('-', field) + "-+"@,
{
    reveal_strlit("");
    let plain = Palette { colored: false };
    reveal_with_fuel(table::texts_up_to, 2);
    reveal_with_fuel(table::titles_up_to, 2);
    reveal_with_fuel(table::rule_up_to, 2);
    assert(seq![field].drop_last() =~= Seq::<nat>::empty());
    assert(table::bar(plain) == "|"@);
}

/// A row's line counts down the whole seconds to its reset: those that fit between
/// now and then, and none where it is not ahead.
pub proof fn lines_count_down_to_the_reset(
    resets_at: Option<Timestamp>,
    now: Timestamp,
    wait: u64,
)
    requires
        texts::regular(now),
        resets_at is Some ==> texts::regular(resets_at->0),
    ensures
        table::seconds_to_reset(resets_at, now) is Some <==> resets_at is Some,
        resets_at matches Some(time) ==> {
            &&& texts::moment(now) + 1000000000 * wait <= texts::moment(time) < texts::moment(now)
                + 1000000000 * (wait + 1) ==> table::seconds_to_reset(resets_at, now) == Some(wait)
            &&& texts::moment(time) <= texts::moment(now) ==> table::seconds_to_reset(
                resets_at,
                now,
            ) == Some(0u64)
        },
{
    if let Some(time) = resets_at {
        texts::seconds_between_fit_between(now, time);
    }
}

/// The field of a reset, seven cells wide: a star for each day up to seven, and
/// beyond and below that the largest unit that fits, between two hyphens.
pub proof fn reset_fields_tell_the_wait(
    days: nat,
    hours: nat,
    minutes: nat,
    seconds: nat,
    wait: u64,
)
    requires
        wait == 86400 * days + 3600 * hours + 60 * minutes + seconds,
        hours < 24,
        minutes < 60,
        seconds < 60,
    ensures
        1 <= days <= 7 ==> table::reset_cell(wait).len() == 7 && forall|i: int|
            0 <= i < 7 ==> #[trigger] table::reset_cell(wait)[i] == if i < 7 - days {
                '-'
            } else {
                '*'
            },
        days > 7 ==> table::reset_cell(wait) == rows::edged_field(
            text::decimal_digits(days) + "d"@,
            '-',
        ),
        days == 0 && hours > 0 ==> table::reset_cell(wait) == rows::edged_field(
            text::decimal_digits(hours) + "h"@,
            '-',
        ),
        days == 0 && hours == 0 && minutes > 0 ==> table::reset_cell(wait) == rows::edged_field(
            text::decimal_digits(minutes) + "m"@,
            '-',
        ),
        days == 0 && hours == 0 && minutes == 0 ==> table::reset_cell(wait) == rows::edged_field(
            "<1m"@,
            '-',
        ),
{
    assert(wait / 86400 == days);
    if days == 0 {
        assert(wait / 3600 == hours);
        if hours == 0 {
            assert(wait / 60 == minutes);
        }
    }
}

/// A short count stands between two edges in a field of seven cells, with at most
/// one blank more before it than behind it.
pub proof fn counts_stand_between_edges(count: Seq<char>, edge: char)
    requires
        width::plain(count),
        count.len() <= 5,
    ensures
        ({
            let field = rows::edged_field(count, edge);
            let before = (6 - count.len()) / 2;
            let after = (5 - count.len()) / 2;
            &&& field.len() == 7
            &&& field[0] == edge
            &&& field[6] == edge
            &&& field.subrange(1 + before, 1 + before + count.len()) == count
            &&& forall|i: int| 1 <= i < 1 + before ==> #[trigger] field[i] == ' '
            &&& forall|i: int| 6 - after <= i < 6 ==> #[trigger] field[i] == ' '
        }),
{
    width::plain_text_is_cut_by_characters(count, 5);
    let field = rows::edged_field(count, edge);
    let before = (6 - count.len()) / 2;
    let pad = (5 - count.len()) as nat;
    let left = ((pad + 1) / 2) as nat;
    assert(left == before);
    assert(field.subrange(1 + before, 1 + before + count.len()) =~= count);
}

/// A bar of ten cells is filled from its right end as far as quota is left; red
/// where it is critical, yellow where it is low.
pub proof fn progress_is_filled_from_the_right(filled: nat, severity: Severity)
    ensures
        ({
            let bar = table::progress_cell(filled, severity, Palette { colored: false });
            &&& bar.len() == 12
            &&& bar[0] == '['
            &&& bar[11] == ']'
            &&& forall|i: int|
                0 <= i < 10 ==> #[trigger] bar[1 + i] == if i < 10 - filled {
                    '-'
                } else {
                    '#'
                }
            &&& table::progress_cell(filled, Severity::Ample, Palette { colored: true }) == bar
            &&& table::progress_cell(filled, Severity::Low, Palette { colored: true })
                == "\u{1b}["@ + "33"@ + "m"@ + bar + "\u{1b}[0m"@
            &&& table::progress_cell(filled, Severity::Critical, Palette { colored: true })
                == "\u{1b}["@ + "31"@ + "m"@ + bar + "\u{1b}[0m"@
        }),
{
    reveal_strlit("");
    reveal_strlit("33");
    reveal_strlit("31");
    reveal_strlit("[");
    reveal_strlit("]");
    assert("33"@.len() == 2 && "31"@.len() == 2 && ""@.len() == 0);
}

/// A summary's columns are as wide as their widest text, and there is one for
/// resets exactly where some line has one.
pub proof fn summary_columns_fit_their_texts(lines: Seq<SummaryCells>)
    ensures
        cards::widest(
            lines.map_values(|line: SummaryCells| width::cells(line.identity@)),
            table::measured(lines).identity,
        ),
        cards::widest(
            lines.map_values(|line: SummaryCells| width::cells(line.verb@)),
            table::measured(lines).verb,
        ),
        cards::widest(
            lines.map_values(|line: SummaryCells| width::cells(line.amount@)),
            table::measured(lines).amount,
        ),
        cards::widest(
            lines.map_values(|line: SummaryCells| width::cells(line.suffix@)),
            table::measured(lines).suffix,
        ),
        table::measured(lines).resets <==> exists|i: int|
            0 <= i < lines.len() && (#[trigger] lines[i]).resets_in is Some,
    decreases lines.len(),
{
    let identities = |line: SummaryCells| width::cells(line.identity@);
    let verbs = |line: SummaryCells| width::cells(line.verb@);
    let amounts = |line: SummaryCells| width::cells(line.amount@);
    let suffixes = |line: SummaryCells| width::cells(line.suffix@);
    if lines.len() > 0 {
        let front = lines.drop_last();
        let last = lines.last();
        let before = table::measured(front);
        summary_columns_fit_their_texts(front);
        assert(lines.map_values(identities) =~= front.map_values(identities).push(
            identities(last),
        ));
        assert(lines.map_values(verbs) =~= front.map_values(verbs).push(verbs(last)));
        assert(lines.map_values(amounts) =~= front.map_values(amounts).push(amounts(last)));
        assert(lines.map_values(suffixes) =~= front.map_values(suffixes).push(suffixes(last)));
        cards::widest_of_more(
            front.map_values(identities),
            before.identity,
            identities(last),
            lines.map_values(identities),
        );
        cards::widest_of_more(
            front.map_values(verbs),
            before.verb,
            verbs(last),
            lines.map_values(verbs),
        );
        cards::widest_of_more(
            front.map_values(amounts),
            before.amount,
            amounts(last),
            lines.map_values(amounts),
        );
        cards::widest_of_more(
            front.map_values(suffixes),
            before.suffix,
            suffixes(last),
            lines.map_values(suffixes),
        );
        if last.resets_in is Some {
            assert(lines[lines.len() - 1].resets_in is Some);
        }
        if exists|i: int| 0 <= i < front.len() && (#[trigger] front[i]).resets_in is Some {
            let i = choose|i: int| 0 <= i < front.len() && (#[trigger] front[i]).resets_in is Some;
            assert(lines[i].resets_in is Some);
        }
        if exists|i: int| 0 <= i < lines.len() && (#[trigger] lines[i]).resets_in is Some {
            let i = choose|i: int| 0 <= i < lines.len() && (#[trigger] lines[i]).resets_in is Some;
            if i < front.len() {
                assert(front[i].resets_in is Some);
            }
        }
    }
}

/// A line of a summary tells, without colours and column by column: the row's name,
/// two blanks, its verb, a blank, its amount at the right, its mark where some line
/// has one, its reset, and its bar.
pub proof fn summary_lines_tell_their_cells(line: SummaryCells, fields: SummaryFieldsView)
    ensures
        ({
            let plain = Palette { colored: false };
            let words = table::in_field(line.identity@, ""@, fields.identity, false, plain) + "  "@
                + table::in_field(line.verb@, ""@, fields.verb, false, plain) + " "@
                + table::in_field(line.amount@, ""@, fields.amount, true, plain);
            let marked = if fields.suffix == 0 {
                words
            } else {
                words + " "@ + table::in_field(line.suffix@, ""@, fields.suffix, false, plain)
            };
            let drawn = table::summary_line(line, fields, plain);
            &&& line.resets_in is None && line.progress is None ==> drawn == marked
            &&& line.resets_in is Some && line.progress is None ==> drawn == marked + "  "@
                + table::reset_cell(line.resets_in->0)
            &&& line.resets_in is Some && line.progress is Some ==> drawn == marked + "  "@
                + table::reset_cell(line.resets_in->0) + "  "@ + table::progress_cell(
                (line.progress->0).0 as nat,
                (line.progress->0).1,
                plain,
            )
            &&& line.resets_in is None && line.progress is Some && !fields.resets ==> drawn
                == marked + "  "@ + table::progress_cell(
                (line.progress->0).0 as nat,
                (line.progress->0).1,
                plain,
            )
            &&& line.resets_in is None && line.progress is Some && fields.resets ==> drawn
                == marked + "  "@ + width::repeated(' ', 7) + "  "@ + table::progress_cell(
                (line.progress->0).0 as nat,
                (line.progress->0).1,
                plain,
            )
        }),
{
}

/// A document is drawn block by block, in their order, with one width for the
/// columns of all its summaries; each kind of block in its own form.
pub proof fn documents_are_drawn_block_by_block(
    first: Seq<DrawnBlock>,
    second: Seq<DrawnBlock>,
    only: DrawnBlock,
    fields: SummaryFieldsView,
    palette: Palette,
)
    ensures
        table::document_text(first + second, fields, palette) == table::document_text(
            first,
            fields,
            palette,
        ) + table::document_text(second, fields, palette),
        table::document_text(seq![only], fields, palette) == match only {
            DrawnBlock::Header(title) => table::header_line(title@, palette),
            DrawnBlock::Line { text, style } => table::painted(text@, style, palette) + "\n"@,
            DrawnBlock::Pairs(pairs) => table::pair_lines(
                pairs@,
                table::widest_key(pairs@),
                palette,
            ),
            DrawnBlock::Table { columns, rows } => table::ruled_table(columns@, rows@, palette),
            DrawnBlock::Rows(lines) => table::summary_text(lines@, fields, palette),
            DrawnBlock::Break => "\n"@,
        },
        table::all_lines(first + second) == table::all_lines(first) + table::all_lines(second),
        table::all_lines(seq![only]) == match only {
            DrawnBlock::Rows(lines) => lines@,
            _ => Seq::empty(),
        },
    decreases second.len(),
{
    let one = seq![only];
    assert(one.drop_last() =~= Seq::<DrawnBlock>::empty());
    assert(table::document_text(one.drop_last(), fields, palette) =~= Seq::<char>::empty());
    assert(table::document_text(one, fields, palette) =~= table::block_text(only, fields, palette));
    assert(table::all_lines(one.drop_last()) =~= Seq::<SummaryCells>::empty());
    assert(table::all_lines(one) =~= match only {
        DrawnBlock::Rows(lines) => lines@,
        _ => Seq::empty(),
    });
    let whole = first + second;
    if second.len() > 0 {
        documents_are_drawn_block_by_block(first, second.drop_last(), only, fields, palette);
        assert(whole.drop_last() =~= first + second.drop_last());
        assert(whole.last() == second.last());
    } else {
        assert(whole =~= first);
    }
    assert(table::document_text(whole, fields, palette) =~= table::document_text(
        first,
        fields,
        palette,
    ) + table::document_text(second, fields, palette));
    assert(table::all_lines(whole) =~= table::all_lines(first) + table::all_lines(second));
}

/// The lines of a summary are drawn one by one, in their order.
pub proof fn summaries_are_drawn_line_by_line(
    first: Seq<SummaryCells>,
    second: Seq<SummaryCells>,
    only: SummaryCells,
    fields: SummaryFieldsView,
    palette: Palette,
)
    ensures
        table::summary_text(first + second, fields, palette) == table::summary_text(
            first,
            fields,
            palette,
        ) + table::summary_text(second, fields, palette),
        table::summary_text(seq![only], fields, palette) == table::summary_line(
            only,
            fields,
            palette,
        ) + "\n"@,
    decreases second.len(),
{
    let one = seq![only];
    assert(one.drop_last() =~= Seq::<SummaryCells>::empty());
    assert(table::summary_text(one.drop_last(), fields, palette) =~= Seq::<char>::empty());
    assert(table::summary_text(one, fields, palette) =~= table::summary_line(only, fields, palette)
        + "\n"@);
    let whole = first + second;
    if second.len() > 0 {
        summaries_are_drawn_line_by_line(first, second.drop_last(), only, fields, palette);
        assert(whole.drop_last() =~= first + second.drop_last());
        assert(whole.last() == second.last());
    } else {
        assert(whole =~= first);
    }
    assert(table::summary_text(whole, fields, palette) =~= table::summary_text(
        first,
        fields,
        palette,
    ) + table::summary_text(second, fields, palette));
}

} // verus!
