//! What one subscription's box looks like in the full-screen view, and how its
//! rows keep their columns as the box narrows.
//!
//! The box drawing, block bars, and dot countdowns are East Asian ambiguous
//! glyphs: one cell wide to `unicode-width`, possibly two in a terminal set
//! to a CJK locale, where a card can render wider than its allotted place.

use vstd::prelude::*;
use vstd::string::StringExecFns;

use crate::width;
use crate::width::{clip, display_width, repeat};

pub mod laws;
pub mod place;
pub mod rows;
pub mod sort;

verus! {

/// Cells of the full block bar.
pub const BAR_WIDTH: usize = 10;

/// Cells of the bar that survives once the full bar no longer fits.
pub const MINI_BAR_WIDTH: usize = 4;

/// Two spaces between the names on a title line, which has no columns to keep.
pub const TITLE_GAP: usize = 2;

/// How much of a quota is left.
#[derive(Clone, Copy, Debug, PartialEq, Eq, Structural)]
pub enum Severity {
    Critical,
    Low,
    Ample,
}

/// How a piece of a card is coloured.
#[derive(Clone, Copy, Debug, PartialEq, Eq, Structural)]
pub enum Tone {
    Plain,
    Dim,
    Title,
    Notice,
    /// What stands on a screen without cards.
    Faint,
    Reading(Severity),
}

/// A piece of a line in one tone.
#[derive(Debug)]
pub struct Span {
    pub text: String,
    pub tone: Tone,
}

/// A piece of a line with its text as a character sequence.
#[verifier::ext_equal]
pub struct SpanView {
    pub text: Seq<char>,
    pub tone: Tone,
}

impl View for Span {
    type V = SpanView;

    open spec fn view(&self) -> SpanView {
        SpanView { text: self.text@, tone: self.tone }
    }
}

/// The pieces of a line, each with its text as a character sequence.
pub open spec fn span_views(spans: Seq<Span>) -> Seq<SpanView> {
    spans.map_values(|span: Span| span@)
}

/// The number of cells a line takes.
pub open spec fn line_cells(line: Seq<SpanView>) -> nat
    decreases line.len(),
{
    if line.len() == 0 {
        0
    } else {
        line_cells(line.drop_last()) + width::cells(line.last().text)
    }
}

fn push_span(spans: &mut Vec<Span>, text: String, tone: Tone)
    ensures
        span_views(final(spans)@) == span_views(old(spans)@).push(SpanView { text: text@, tone }),
{
    spans.push(Span { text, tone });
    assert(span_views(spans@) =~= span_views(old(spans)@).push(SpanView { text: text@, tone }));
}

/// The number of cells a line takes, or the greatest number there is.
fn line_width(spans: &Vec<Span>) -> (result: usize)
    ensures
        result == if line_cells(span_views(spans@)) < usize::MAX {
            line_cells(span_views(spans@)) as int
        } else {
            usize::MAX as int
        },
{
    let ghost views = span_views(spans@);
    let mut total: usize = 0;
    let mut index: usize = 0;
    assert(views.take(0) == Seq::<SpanView>::empty());
    while index < spans.len()
        invariant
            index <= spans@.len(),
            views == span_views(spans@),
            total == if line_cells(views.take(index as int)) < usize::MAX {
                line_cells(views.take(index as int)) as int
            } else {
                usize::MAX as int
            },
        decreases spans@.len() - index,
    {
        proof {
            assert(views.take(index + 1).drop_last() == views.take(index as int));
            assert(views.take(index + 1).last() == spans@[index as int]@);
        }
        total = total.saturating_add(display_width(spans[index].text.as_str()));
        index = index + 1;
    }
    assert(views.take(index as int) == views);
    total
}

/// The three names that identify a subscription, kept apart so each can be
/// styled on its own.
#[derive(Debug)]
pub struct CardTitle {
    pub provider: String,
    pub plan: Option<String>,
    pub account: String,
}

/// How far the bars of a row are filled.
#[derive(Clone, Copy, Debug)]
pub struct Meter {
    pub severity: Severity,
    /// Cells of the full bar that are still quota.
    pub filled: usize,
    /// Cells of the small bar that are still quota.
    pub mini_filled: usize,
}

/// One row of a card.
#[derive(Debug)]
pub struct CardRow {
    pub identity: String,
    pub verb: String,
    pub amount: String,
    pub suffix: String,
    pub resets: Option<String>,
    pub meter: Option<Meter>,
}

/// One subscription.
#[derive(Debug)]
pub struct Card {
    pub title: CardTitle,
    pub rows: Vec<CardRow>,
    pub notices: Vec<String>,
}

impl Card {
    /// The rows and the notices, plus the top and bottom borders.
    pub open spec fn lines(self) -> nat {
        self.rows@.len() + self.notices@.len() + 2
    }

    /// The rows and the notices, plus the top and bottom borders.
    pub fn height(&self) -> (result: u16)
        ensures
            result == if self.lines() < u16::MAX {
                self.lines() as int
            } else {
                u16::MAX as int
            },
    {
        let content: usize = self.rows.len().saturating_add(self.notices.len());
        if content < 65533 {
            (content + 2) as u16
        } else {
            u16::MAX
        }
    }
}

/// What a row reads as when there is no room for the verb and the amount side by
/// side: the amount, or the verb for the readings that are a word rather than a
/// number.
pub open spec fn reading_of(row: CardRow) -> Seq<char> {
    if row.amount@.len() == 0 {
        row.verb@
    } else {
        row.amount@
    }
}

fn reading(row: &CardRow) -> (result: &str)
    ensures
        result@ == reading_of(*row),
{
    if row.amount.as_str().unicode_len() == 0 {
        row.verb.as_str()
    } else {
        row.amount.as_str()
    }
}

/// The reset countdown of a row, or nothing.
pub open spec fn resets_of(row: CardRow) -> Seq<char> {
    match row.resets {
        Some(resets) => resets@,
        None => Seq::empty(),
    }
}

fn resets(row: &CardRow) -> (result: &str)
    ensures
        result@ == resets_of(*row),
{
    match &row.resets {
        Some(resets) => resets.as_str(),
        None => {
            proof {
                reveal_strlit("");
            }
            ""
        },
    }
}

/// The tone of a row's reading.
pub open spec fn amount_tone(row: CardRow) -> Tone {
    match row.meter {
        Some(meter) => Tone::Reading(meter.severity),
        None => Tone::Plain,
    }
}

fn amount_style(row: &CardRow) -> (result: Tone)
    ensures
        result == amount_tone(*row),
{
    match row.meter {
        Some(meter) => Tone::Reading(meter.severity),
        None => Tone::Plain,
    }
}

/// A bar of so many cells, filled from the right with what is still quota.
pub open spec fn bar(filled: nat, length: nat) -> Seq<char> {
    let kept = if filled < length {
        filled
    } else {
        length
    };
    width::repeated('┄', (length - kept) as nat) + width::repeated('━', kept)
}

/// A bar of so many cells, filled from the right with what is still quota.
pub fn block_bar(filled: usize, length: usize) -> (result: String)
    ensures
        result@ == bar(filled as nat, length as nat),
        result@.len() == length,
{
    let kept: usize = if filled < length {
        filled
    } else {
        length
    };
    let mut result = repeat('┄', length - kept);
    result.append(repeat('━', kept).as_str());
    result
}

/// The full bar of a row, or nothing.
pub open spec fn full_bar_of(row: CardRow) -> Seq<char> {
    match row.meter {
        Some(meter) => bar(meter.filled as nat, BAR_WIDTH as nat),
        None => Seq::empty(),
    }
}

/// The small bar of a row, or nothing.
pub open spec fn mini_bar_of(row: CardRow) -> Seq<char> {
    match row.meter {
        Some(meter) => bar(meter.mini_filled as nat, MINI_BAR_WIDTH as nat),
        None => Seq::empty(),
    }
}

/// How much room each field of the rows needs, before any is dropped.
#[derive(Clone, Copy, Debug, PartialEq, Eq, Structural)]
pub struct RowLayout {
    pub identity: usize,
    pub verb: usize,
    pub amount: usize,
    /// The amount, or the verb for a row whose reading is a word such as
    /// `used up`. Tiers that drop the verb column show this instead, so no
    /// row ends up with no reading at all.
    pub reading: usize,
    pub suffix: usize,
    pub resets: usize,
    pub bar: usize,
    /// The four-cell bar that replaces the full one on a narrow terminal.
    pub mini: usize,
}

/// The fields a row keeps at a given width, widest variant first.
#[derive(Clone, Copy, Debug, PartialEq, Eq, Structural)]
pub enum Tier {
    /// Identity, reading, reset countdown, full progress bar.
    Full,
    /// The full bar shrinks to four cells before anything else is dropped.
    MiniBar,
    /// The verb is prose; the number it introduces carries the meaning.
    NoVerb,
    /// Even the mini bar goes before the countdown does.
    NoBar,
    /// The countdown goes last, after everything but identity and reading.
    NoReset,
    /// Identity and reading only, both clipped to fit.
    Minimal,
}

/// A column more: a column that no row fills takes no room, and any other one
/// cell between it and what stands before.
pub open spec fn column_more(total: nat, column: nat) -> nat {
    if column == 0 {
        total
    } else if total == 0 {
        column
    } else {
        total + 1 + column
    }
}

fn add_column(total: usize, column: usize) -> (result: usize)
    ensures
        result == if column_more(total as nat, column as nat) < usize::MAX {
            column_more(total as nat, column as nat) as int
        } else {
            usize::MAX as int
        },
{
    if column == 0 {
        total
    } else if total == 0 {
        column
    } else {
        total.saturating_add(1).saturating_add(column)
    }
}

/// The greater of two numbers.
pub open spec fn greater(left: nat, right: nat) -> nat {
    if left < right {
        right
    } else {
        left
    }
}

fn maximum(left: usize, right: usize) -> (result: usize)
    ensures
        result == greater(left as nat, right as nat),
{
    if left < right {
        right
    } else {
        left
    }
}

/// A layout that needs no room at all.
pub open spec fn no_columns() -> RowLayout {
    RowLayout {
        identity: 0,
        verb: 0,
        amount: 0,
        reading: 0,
        suffix: 0,
        resets: 0,
        bar: 0,
        mini: 0,
    }
}

/// The layout holds a row: each column is as wide as before, or as wide as the
/// row needs it, whichever is more.
pub open spec fn widened(before: RowLayout, row: CardRow, after: RowLayout) -> bool {
    &&& after.identity == greater(before.identity as nat, width::cells(row.identity@))
    &&& after.verb == greater(before.verb as nat, width::cells(row.verb@))
    &&& after.amount == greater(before.amount as nat, width::cells(row.amount@))
    &&& after.reading == greater(before.reading as nat, width::cells(reading_of(row)))
    &&& after.suffix == greater(before.suffix as nat, width::cells(row.suffix@))
    &&& after.resets == greater(before.resets as nat, width::cells(resets_of(row)))
    &&& after.bar == if row.meter is Some {
        BAR_WIDTH
    } else {
        before.bar
    }
    &&& after.mini == if row.meter is Some {
        MINI_BAR_WIDTH
    } else {
        before.mini
    }
}

/// The layout that the rows need: the least one that holds them all.
pub open spec fn measures(rows: Seq<CardRow>, layout: RowLayout) -> bool
    decreases rows.len(),
{
    if rows.len() == 0 {
        layout == no_columns()
    } else {
        exists|before: RowLayout|
            measures(rows.drop_last(), before) && #[trigger] widened(before, rows.last(), layout)
    }
}

/// The rows of all the cards, one card behind the other.
pub open spec fn all_rows(cards: Seq<Card>) -> Seq<CardRow>
    decreases cards.len(),
{
    if cards.len() == 0 {
        Seq::empty()
    } else {
        all_rows(cards.drop_last()) + cards.last().rows@
    }
}

impl RowLayout {
    fn none() -> (result: Self)
        ensures
            result == no_columns(),
    {
        RowLayout {
            identity: 0,
            verb: 0,
            amount: 0,
            reading: 0,
            suffix: 0,
            resets: 0,
            bar: 0,
            mini: 0,
        }
    }

    fn widen(self, row: &CardRow) -> (result: Self)
        ensures
            widened(self, *row, result),
    {
        RowLayout {
            identity: maximum(self.identity, display_width(row.identity.as_str())),
            verb: maximum(self.verb, display_width(row.verb.as_str())),
            amount: maximum(self.amount, display_width(row.amount.as_str())),
            reading: maximum(self.reading, display_width(reading(row))),
            suffix: maximum(self.suffix, display_width(row.suffix.as_str())),
            resets: maximum(self.resets, display_width(resets(row))),
            bar: if row.meter.is_some() {
                BAR_WIDTH
            } else {
                self.bar
            },
            mini: if row.meter.is_some() {
                MINI_BAR_WIDTH
            } else {
                self.mini
            },
        }
    }

    /// The room that the rows of all the cards need, so that a reading under a
    /// short name lines up with one under a long name on another card.
    pub fn measure_all(cards: &Vec<Card>) -> (result: Self)
        ensures
            measures(all_rows(cards@), result),
    {
        let mut layout = RowLayout::none();
        let mut place: usize = 0;
        assert(cards@.take(0) == Seq::<Card>::empty());
        while place < cards.len()
            invariant
                place <= cards@.len(),
                measures(all_rows(cards@.take(place as int)), layout),
            decreases cards@.len() - place,
        {
            let card = &cards[place];
            let ghost before = all_rows(cards@.take(place as int));
            let mut index: usize = 0;
            assert(before + card.rows@.take(0) == before);
            while index < card.rows.len()
                invariant
                    index <= card.rows@.len(),
                    measures(before + card.rows@.take(index as int), layout),
                decreases card.rows@.len() - index,
            {
                let ghost held = layout;
                layout = layout.widen(&card.rows[index]);
                proof {
                    let more = before + card.rows@.take(index + 1);
                    assert(more.drop_last() == before + card.rows@.take(index as int));
                    assert(more.last() == card.rows@[index as int]);
                    assert(widened(held, more.last(), layout));
                }
                index = index + 1;
            }
            proof {
                assert(card.rows@.take(index as int) == card.rows@);
                assert(cards@.take(place + 1).drop_last() == cards@.take(place as int));
                assert(cards@.take(place + 1).last() == cards@[place as int]);
            }
            place = place + 1;
        }
        assert(cards@.take(place as int) == cards@);
        layout
    }

    /// The cells that the columns of a tier take.
    pub open spec fn tier_cells(self, tier: Tier) -> nat {
        let named = column_more(0, self.identity as nat);
        match tier {
            Tier::Full => column_more(
                self.with_words(named),
                self.bar as nat,
            ),
            Tier::MiniBar => column_more(
                self.with_words(named),
                self.mini as nat,
            ),
            Tier::NoVerb => column_more(
                column_more(self.with_reading(named), self.resets as nat),
                self.mini as nat,
            ),
            Tier::NoBar => column_more(self.with_reading(named), self.resets as nat),
            Tier::NoReset => self.with_reading(named),
            Tier::Minimal => column_more(named, self.reading as nat),
        }
    }

    /// The verb, the amount, the suffix and the countdown more.
    pub open spec fn with_words(self, total: nat) -> nat {
        column_more(
            column_more(
                column_more(column_more(total, self.verb as nat), self.amount as nat),
                self.suffix as nat,
            ),
            self.resets as nat,
        )
    }

    /// The reading and the suffix more.
    pub open spec fn with_reading(self, total: nat) -> nat {
        column_more(column_more(total, self.reading as nat), self.suffix as nat)
    }

    /// The cells that the columns of a tier take, or the greatest number there
    /// is.
    pub fn width_of(&self, tier: Tier) -> (result: usize)
        ensures
            result == if self.tier_cells(tier) < usize::MAX {
                self.tier_cells(tier) as int
            } else {
                usize::MAX as int
            },
    {
        let named: usize = add_column(0, self.identity);
        match tier {
            Tier::Full | Tier::MiniBar => {
                let words: usize = add_column(
                    add_column(
                        add_column(add_column(named, self.verb), self.amount),
                        self.suffix,
                    ),
                    self.resets,
                );
                match tier {
                    Tier::Full => add_column(words, self.bar),
                    _ => add_column(words, self.mini),
                }
            },
            Tier::Minimal => add_column(named, self.reading),
            _ => {
                let read: usize = add_column(add_column(named, self.reading), self.suffix);
                match tier {
                    Tier::NoVerb => add_column(add_column(read, self.resets), self.mini),
                    Tier::NoBar => add_column(read, self.resets),
                    _ => read,
                }
            },
        }
    }

    /// The widest tier that fits, or the least one when none does.
    pub open spec fn fitting_tier(self, width: nat) -> Tier {
        if self.tier_cells(Tier::Full) <= width {
            Tier::Full
        } else if self.tier_cells(Tier::MiniBar) <= width {
            Tier::MiniBar
        } else if self.tier_cells(Tier::NoVerb) <= width {
            Tier::NoVerb
        } else if self.tier_cells(Tier::NoBar) <= width {
            Tier::NoBar
        } else if self.tier_cells(Tier::NoReset) <= width {
            Tier::NoReset
        } else {
            Tier::Minimal
        }
    }

    /// The widest tier that fits, or the least one when none does.
    pub fn tier_for(&self, width: u16) -> (result: Tier)
        ensures
            result == self.fitting_tier(width as nat),
    {
        let width: usize = width as usize;
        if self.width_of(Tier::Full) <= width {
            Tier::Full
        } else if self.width_of(Tier::MiniBar) <= width {
            Tier::MiniBar
        } else if self.width_of(Tier::NoVerb) <= width {
            Tier::NoVerb
        } else if self.width_of(Tier::NoBar) <= width {
            Tier::NoBar
        } else if self.width_of(Tier::NoReset) <= width {
            Tier::NoReset
        } else {
            Tier::Minimal
        }
    }

    /// The layout with the identity column widened by the slack left over, so
    /// that the other columns sit against the right edge and line up across the
    /// rows of every card.
    pub open spec fn widened_to(self, tier: Tier, width: nat) -> RowLayout {
        if tier == Tier::Minimal || self.tier_cells(tier) > width {
            self
        } else {
            RowLayout { identity: (self.identity + width - self.tier_cells(tier)) as usize, ..self }
        }
    }

    /// The layout with the identity column widened by the slack left over.
    pub fn stretched(&self, tier: Tier, width: u16) -> (result: Self)
        ensures
            result == self.widened_to(tier, width as nat),
    {
        let taken: usize = self.width_of(tier);
        let width: usize = width as usize;
        if matches!(tier, Tier::Minimal) || taken > width {
            return *self;
        }
        proof {
            columns_hold_the_first(self.identity as nat, *self, tier);
        }
        RowLayout {
            identity: self.identity + (width - taken),
            verb: self.verb,
            amount: self.amount,
            reading: self.reading,
            suffix: self.suffix,
            resets: self.resets,
            bar: self.bar,
            mini: self.mini,
        }
    }
}

proof fn columns_hold_the_first(identity: nat, layout: RowLayout, tier: Tier)
    requires
        identity == layout.identity,
    ensures
        identity <= layout.tier_cells(tier),
{
}

/// A piece that is blank.
pub open spec fn blank(count: nat) -> SpanView {
    SpanView { text: width::repeated(' ', count), tone: Tone::Plain }
}

/// The line with one more column: the gap that precedes it, and the text cut and
/// padded to the column's width. A column without width is left out.
pub open spec fn with_column(
    line: Seq<SpanView>,
    text: Seq<char>,
    column: nat,
    tone: Tone,
    right: bool,
) -> Seq<SpanView> {
    if column == 0 {
        line
    } else {
        let started = if line.len() == 0 {
            line
        } else {
            line.push(blank(1))
        };
        let kept = width::clipped(text, column);
        let piece = SpanView { text: kept, tone };
        if width::cells(kept) >= column {
            started.push(piece)
        } else if right {
            started.push(blank((column - width::cells(kept)) as nat)).push(piece)
        } else {
            started.push(piece).push(blank((column - width::cells(kept)) as nat))
        }
    }
}

fn push_aligned(spans: &mut Vec<Span>, text: &str, column: usize, tone: Tone, right: bool)
    ensures
        span_views(final(spans)@) == with_column(
            span_views(old(spans)@),
            text@,
            column as nat,
            tone,
            right,
        ),
{
    if column == 0 {
        return;
    }
    if spans.len() > 0 {
        push_span(spans, repeat(' ', 1), Tone::Plain);
    }
    let kept = clip(text, column);
    let taken: usize = display_width(kept.as_str());
    if taken >= column {
        push_span(spans, kept, tone);
    } else if right {
        push_span(spans, repeat(' ', column - taken), Tone::Plain);
        push_span(spans, kept, tone);
    } else {
        push_span(spans, kept, tone);
        push_span(spans, repeat(' ', column - taken), Tone::Plain);
    }
}

/// The columns of a row up to its reading and suffix.
pub open spec fn row_start(row: CardRow, layout: RowLayout, tier: Tier) -> Seq<SpanView> {
    let named = with_column(
        Seq::empty(),
        row.identity@,
        layout.identity as nat,
        Tone::Plain,
        false,
    );
    let read = if tier == Tier::Full || tier == Tier::MiniBar {
        with_column(
            with_column(named, row.verb@, layout.verb as nat, Tone::Dim, false),
            row.amount@,
            layout.amount as nat,
            amount_tone(row),
            true,
        )
    } else {
        with_column(named, reading_of(row), layout.reading as nat, amount_tone(row), true)
    };
    with_column(read, row.suffix@, layout.suffix as nat, Tone::Dim, false)
}

/// The narrowest row: the reading whole, and the identity in the cells that are
/// left.
pub open spec fn minimal(row: CardRow, width: nat) -> Seq<SpanView> {
    let value = width::clipped(reading_of(row), width);
    let taken = width::cells(value) + 1;
    let room = if taken < width {
        (width - taken) as nat
    } else {
        0
    };
    let identity = width::clipped(row.identity@, room);
    let last = SpanView { text: value, tone: amount_tone(row) };
    if identity.len() == 0 {
        seq![last]
    } else {
        seq![SpanView { text: identity, tone: Tone::Plain }, blank(1), last]
    }
}

/// The row as a line of the tier.
pub open spec fn row_spans(
    row: CardRow,
    layout: RowLayout,
    tier: Tier,
    width: nat,
) -> Seq<SpanView> {
    if tier == Tier::Minimal {
        minimal(row, width)
    } else {
        let start = row_start(row, layout, tier);
        let timed = if tier == Tier::NoReset {
            start
        } else {
            with_column(start, resets_of(row), layout.resets as nat, Tone::Dim, true)
        };
        if tier == Tier::Full {
            with_column(timed, full_bar_of(row), layout.bar as nat, amount_tone(row), false)
        } else if tier == Tier::MiniBar || tier == Tier::NoVerb {
            with_column(timed, mini_bar_of(row), layout.mini as nat, amount_tone(row), false)
        } else {
            timed
        }
    }
}

fn minimal_line(row: &CardRow, width: u16) -> (result: Vec<Span>)
    ensures
        span_views(result@) == minimal(*row, width as nat),
{
    let width: usize = width as usize;
    let value = clip(reading(row), width);
    let room: usize = width.saturating_sub(display_width(value.as_str())).saturating_sub(1);
    let identity = clip(row.identity.as_str(), room);
    let mut spans: Vec<Span> = Vec::new();
    assert(span_views(spans@) == Seq::<SpanView>::empty());
    if identity.as_str().unicode_len() > 0 {
        push_span(&mut spans, identity, Tone::Plain);
        push_span(&mut spans, repeat(' ', 1), Tone::Plain);
    }
    push_span(&mut spans, value, amount_style(row));
    assert(span_views(spans@) =~= minimal(*row, width as nat));
    spans
}

/// The row as a line of the tier. Numbers read as a column only when they end on
/// the same cell.
pub fn row_line(row: &CardRow, layout: &RowLayout, tier: Tier, width: u16) -> (result: Vec<Span>)
    ensures
        span_views(result@) == row_spans(*row, *layout, tier, width as nat),
{
    if matches!(tier, Tier::Minimal) {
        return minimal_line(row, width);
    }
    let mut spans: Vec<Span> = Vec::new();
    assert(span_views(spans@) == Seq::<SpanView>::empty());
    push_aligned(&mut spans, row.identity.as_str(), layout.identity, Tone::Plain, false);
    if matches!(tier, Tier::Full | Tier::MiniBar) {
        push_aligned(&mut spans, row.verb.as_str(), layout.verb, Tone::Dim, false);
        push_aligned(&mut spans, row.amount.as_str(), layout.amount, amount_style(row), true);
    } else {
        push_aligned(&mut spans, reading(row), layout.reading, amount_style(row), true);
    }
    push_aligned(&mut spans, row.suffix.as_str(), layout.suffix, Tone::Dim, false);
    if !matches!(tier, Tier::NoReset) {
        push_aligned(&mut spans, resets(row), layout.resets, Tone::Dim, true);
    }
    match tier {
        Tier::Full => {
            let full = match row.meter {
                Some(meter) => block_bar(meter.filled, BAR_WIDTH),
                None => String::new(),
            };
            push_aligned(&mut spans, full.as_str(), layout.bar, amount_style(row), false);
        },
        Tier::MiniBar | Tier::NoVerb => {
            let mini = match row.meter {
                Some(meter) => block_bar(meter.mini_filled, MINI_BAR_WIDTH),
                None => String::new(),
            };
            push_aligned(&mut spans, mini.as_str(), layout.mini, amount_style(row), false);
        },
        _ => {},
    }
    spans
}

/// A border from one corner to the other.
pub open spec fn border(left: char, right: char, width: nat) -> Seq<SpanView> {
    if width <= 1 {
        seq![SpanView { text: seq![left], tone: Tone::Dim }]
    } else {
        seq![
            SpanView { text: seq![left], tone: Tone::Dim },
            SpanView { text: width::repeated('─', (width - 2) as nat), tone: Tone::Dim },
            SpanView { text: seq![right], tone: Tone::Dim },
        ]
    }
}

/// A border from one corner to the other, always exactly so many cells wide.
fn border_line(left: char, right: char, width: u16) -> (result: Vec<Span>)
    requires
        width > 0,
    ensures
        span_views(result@) == border(left, right, width as nat),
{
    let mut spans: Vec<Span> = Vec::new();
    assert(span_views(spans@) == Seq::<SpanView>::empty());
    let corner = repeat(left, 1);
    assert(corner@ =~= seq![left]);
    push_span(&mut spans, corner, Tone::Dim);
    if width > 1 {
        push_span(&mut spans, repeat('─', (width - 2) as usize), Tone::Dim);
        let other = repeat(right, 1);
        assert(other@ =~= seq![right]);
        push_span(&mut spans, other, Tone::Dim);
    }
    assert(span_views(spans@) =~= border(left, right, width as nat));
    spans
}

/// The pieces of a title so far, and the cells they take.
pub struct TitleView {
    pub spans: Seq<SpanView>,
    pub used: nat,
}

/// The title with one more name: after a gap, and cut to the cells that are
/// left. An empty name, or one for which no cell is left, is passed over.
pub open spec fn with_name(
    title: TitleView,
    name: Seq<char>,
    tone: Tone,
    budget: nat,
) -> TitleView {
    if name.len() == 0 || title.used >= budget {
        title
    } else {
        let left = (budget - title.used) as nat;
        let gap = if title.spans.len() == 0 {
            0
        } else if TITLE_GAP < left {
            TITLE_GAP as nat
        } else {
            left
        };
        let started = if title.spans.len() == 0 {
            title.spans
        } else {
            title.spans.push(blank(gap))
        };
        let kept = width::clipped(name, (left - gap) as nat);
        TitleView {
            spans: started.push(SpanView { text: kept, tone }),
            used: title.used + gap + width::cells(kept),
        }
    }
}

/// The plan of a title, or nothing.
pub open spec fn plan_of(title: CardTitle) -> Seq<char> {
    match title.plan {
        Some(plan) => plan@,
        None => Seq::empty(),
    }
}

/// The title: the provider lit, the plan and the account quiet beside it.
pub open spec fn title_view(title: CardTitle, budget: nat) -> TitleView {
    let none = TitleView { spans: Seq::empty(), used: 0 };
    let provider = with_name(none, title.provider@, Tone::Title, budget);
    let plan = with_name(provider, plan_of(title), Tone::Dim, budget);
    with_name(plan, title.account@, Tone::Dim, budget)
}

fn push_name(spans: &mut Vec<Span>, used: usize, name: &str, tone: Tone, budget: usize) -> (result:
    usize)
    ensures
        forall|exact: nat|
            used == exact || (used == usize::MAX && exact >= usize::MAX) ==> {
                let after = #[trigger] with_name(
                    TitleView { spans: span_views(old(spans)@), used: exact },
                    name@,
                    tone,
                    budget as nat,
                );
                &&& span_views(final(spans)@) == after.spans
                &&& result == after.used || (result == usize::MAX && after.used >= usize::MAX)
            },
{
    if name.unicode_len() == 0 || used >= budget {
        return used;
    }
    let left: usize = budget - used;
    let mut gap: usize = 0;
    if spans.len() > 0 {
        gap = if TITLE_GAP < left {
            TITLE_GAP
        } else {
            left
        };
        push_span(spans, repeat(' ', gap), Tone::Plain);
    }
    let kept = clip(name, left - gap);
    let taken: usize = display_width(kept.as_str());
    push_span(spans, kept, tone);
    (used + gap).saturating_add(taken)
}

/// The title as pieces cut to so many cells: the provider lit, the plan and the
/// account quiet beside it. Whitespace separates them, so no punctuation has to
/// be picked that a terminal might render two cells wide.
pub fn title_spans(title: &CardTitle, budget: usize) -> (result: Vec<Span>)
    ensures
        span_views(result@) == title_view(*title, budget as nat).spans,
{
    let mut spans: Vec<Span> = Vec::new();
    assert(span_views(spans@) == Seq::<SpanView>::empty());
    let used: usize = push_name(
        &mut spans,
        0,
        title.provider.as_str(),
        Tone::Title,
        budget,
    );
    let ghost provider = with_name(
        TitleView { spans: Seq::empty(), used: 0 },
        title.provider@,
        Tone::Title,
        budget as nat,
    );
    assert(TitleView { spans: span_views(spans@), used: provider.used } == provider);
    let plan = match &title.plan {
        Some(plan) => plan.as_str(),
        None => {
            proof {
                reveal_strlit("");
            }
            ""
        },
    };
    assert(plan@ =~= plan_of(*title));
    let used: usize = push_name(&mut spans, used, plan, Tone::Dim, budget);
    let ghost planned = with_name(provider, plan_of(*title), Tone::Dim, budget as nat);
    assert(TitleView { spans: span_views(spans@), used: planned.used } == planned);
    push_name(&mut spans, used, title.account.as_str(), Tone::Dim, budget);
    spans
}

/// The title in the top border. Below six cells there is no room for a readable
/// title, so the border runs plain; a title that measures wider than it was cut
/// to leaves no rule behind it.
pub open spec fn titled_border(title: CardTitle, width: nat) -> Seq<SpanView> {
    if width < 6 {
        border('╭', '╮', width)
    } else {
        let budget = (width - 5) as nat;
        let spans = title_view(title, budget).spans;
        let used = line_cells(spans);
        if used == 0 {
            border('╭', '╮', width)
        } else {
            let rule = if used < budget {
                (budget - used) as nat
            } else {
                0
            };
            seq![SpanView { text: seq!['╭', '─', ' '], tone: Tone::Dim }] + spans + seq![
                SpanView { text: seq![' '] + width::repeated('─', rule), tone: Tone::Dim },
                SpanView { text: seq!['╮'], tone: Tone::Dim },
            ]
        }
    }
}

fn append_spans(spans: &mut Vec<Span>, more: Vec<Span>)
    ensures
        span_views(final(spans)@) == span_views(old(spans)@) + span_views(more@),
{
    let mut more = more;
    let ghost added = more@;
    spans.append(&mut more);
    assert(span_views(spans@) =~= span_views(old(spans)@) + span_views(added));
}

fn title_border(title: &CardTitle, width: u16) -> (result: Vec<Span>)
    requires
        width > 0,
    ensures
        span_views(result@) == titled_border(*title, width as nat),
{
    if width < 6 {
        return border_line('╭', '╮', width);
    }
    let budget: usize = width as usize - 5;
    let names = title_spans(title, budget);
    let used: usize = line_width(&names);
    if used == 0 {
        return border_line('╭', '╮', width);
    }
    let mut spans: Vec<Span> = Vec::new();
    assert(span_views(spans@) == Seq::<SpanView>::empty());
    proof {
        reveal_strlit("╭─ ");
    }
    assert("╭─ "@ =~= seq!['╭', '─', ' ']);
    push_span(&mut spans, "╭─ ".to_owned(), Tone::Dim);
    append_spans(&mut spans, names);
    let mut rule = repeat(' ', 1);
    assert(rule@ =~= seq![' ']);
    rule.append(repeat('─', budget.saturating_sub(used)).as_str());
    push_span(&mut spans, rule, Tone::Dim);
    let corner = repeat('╮', 1);
    assert(corner@ =~= seq!['╮']);
    push_span(&mut spans, corner, Tone::Dim);
    assert(span_views(spans@) =~= titled_border(*title, width as nat));
    spans
}

/// The cells of margin inside each border: one, when the card is wide enough to
/// afford it.
pub open spec fn margin(width: nat) -> nat {
    if width >= 4 {
        1
    } else {
        0
    }
}

/// The cells between the borders and their margins.
pub open spec fn content_cells(width: nat) -> nat {
    let outside = 2 + 2 * margin(width);
    if outside < width {
        (width - outside) as nat
    } else {
        0
    }
}

/// A line framed by the borders of the card, padded so that the right border
/// lands on the card's last cell.
pub open spec fn framed(inner: Seq<SpanView>, width: nat) -> Seq<SpanView> {
    let side = SpanView { text: seq!['│'], tone: Tone::Dim };
    if width <= 1 {
        seq![side]
    } else {
        let opened = if margin(width) > 0 {
            seq![side, blank(1)]
        } else {
            seq![side]
        };
        let used = line_cells(inner);
        let filled = if used < content_cells(width) {
            opened + inner.push(blank((content_cells(width) - used) as nat))
        } else {
            opened + inner
        };
        if margin(width) > 0 {
            filled.push(blank(1)).push(side)
        } else {
            filled.push(side)
        }
    }
}

fn content_width(width: u16) -> (result: u16)
    ensures
        result == content_cells(width as nat),
{
    if width >= 4 {
        width - 4
    } else {
        width.saturating_sub(2)
    }
}

fn frame_line(inner: Vec<Span>, width: u16) -> (result: Vec<Span>)
    requires
        width > 0,
    ensures
        span_views(result@) == framed(span_views(inner@), width as nat),
{
    let mut spans: Vec<Span> = Vec::new();
    assert(span_views(spans@) == Seq::<SpanView>::empty());
    let side = repeat('│', 1);
    assert(side@ =~= seq!['│']);
    push_span(&mut spans, side, Tone::Dim);
    if width == 1 {
        assert(span_views(spans@) =~= framed(span_views(inner@), 1));
        return spans;
    }
    if width >= 4 {
        push_span(&mut spans, repeat(' ', 1), Tone::Plain);
    }
    let used: usize = line_width(&inner);
    let content: usize = content_width(width) as usize;
    append_spans(&mut spans, inner);
    if used < content {
        push_span(&mut spans, repeat(' ', content - used), Tone::Plain);
    }
    if width >= 4 {
        push_span(&mut spans, repeat(' ', 1), Tone::Plain);
    }
    let other = repeat('│', 1);
    assert(other@ =~= seq!['│']);
    push_span(&mut spans, other, Tone::Dim);
    assert(span_views(spans@) =~= framed(span_views(inner@), width as nat));
    spans
}

/// One line of a card: the title, a row, a notice, or the bottom border.
pub open spec fn card_line(
    card: Card,
    width: nat,
    columns: RowLayout,
    place: int,
) -> Seq<SpanView> {
    let content = content_cells(width);
    let tier = columns.fitting_tier(content);
    if place == 0 {
        titled_border(card.title, width)
    } else if place <= card.rows@.len() {
        framed(
            row_spans(card.rows@[place - 1], columns.widened_to(tier, content), tier, content),
            width,
        )
    } else if place <= card.rows@.len() + card.notices@.len() {
        let notice = card.notices@[place - 1 - card.rows@.len()]@;
        framed(
            seq![SpanView { text: width::clipped(notice, content), tone: Tone::Notice }],
            width,
        )
    } else {
        border('╰', '╯', width)
    }
}

/// The lines of a card as a rounded box: the title sits in the top border, the
/// rows and the notices are framed, and a bottom border closes the box.
/// `columns` is the room that the rows of all the cards need.
pub fn card_lines(card: &Card, width: u16, columns: &RowLayout) -> (result: Vec<Vec<Span>>)
    requires
        width > 0,
    ensures
        result@.len() == card.lines(),
        forall|i: int|
            0 <= i < result@.len() ==> span_views((#[trigger] result@[i])@) == card_line(
                *card,
                width as nat,
                *columns,
                i,
            ),
{
    let content: u16 = content_width(width);
    let tier = columns.tier_for(content);
    let layout = columns.stretched(tier, content);
    let mut lines: Vec<Vec<Span>> = Vec::new();
    lines.push(title_border(&card.title, width));
    let mut index: usize = 0;
    while index < card.rows.len()
        invariant
            width > 0,
            index <= card.rows@.len(),
            content == content_cells(width as nat),
            tier == columns.fitting_tier(content as nat),
            layout == columns.widened_to(tier, content as nat),
            lines@.len() == index + 1,
            forall|i: int|
                0 <= i < lines@.len() ==> span_views((#[trigger] lines@[i])@) == card_line(
                    *card,
                    width as nat,
                    *columns,
                    i,
                ),
        decreases card.rows@.len() - index,
    {
        let line = frame_line(row_line(&card.rows[index], &layout, tier, content), width);
        lines.push(line);
        index = index + 1;
    }
    let mut place: usize = 0;
    while place < card.notices.len()
        invariant
            width > 0,
            place <= card.notices@.len(),
            content == content_cells(width as nat),
            lines@.len() == card.rows@.len() + place + 1,
            forall|i: int|
                0 <= i < lines@.len() ==> span_views((#[trigger] lines@[i])@) == card_line(
                    *card,
                    width as nat,
                    *columns,
                    i,
                ),
        decreases card.notices@.len() - place,
    {
        let mut inner: Vec<Span> = Vec::new();
        assert(span_views(inner@) == Seq::<SpanView>::empty());
        push_span(
            &mut inner,
            clip(card.notices[place].as_str(), content as usize),
            Tone::Notice,
        );
        assert(span_views(inner@) =~= seq![
            SpanView {
                text: width::clipped(card.notices@[place as int]@, content as nat),
                tone: Tone::Notice,
            },
        ]);
        lines.push(frame_line(inner, width));
        place = place + 1;
    }
    lines.push(border_line('╰', '╯', width));
    lines
}

} // verus!
