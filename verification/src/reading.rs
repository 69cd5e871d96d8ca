//! How the value of a summary row is worded: the words around a figure, and
//! which figure stands between them.

use vstd::prelude::*;

use crate::redact;
use crate::redact::sanitize_cell;
use crate::summary::{SummaryRow, SummaryValue};
use crate::usage::Amount;

verus! {

/// The figure of a row.
#[derive(Debug, PartialEq)]
#[allow(inconsistent_fields)]
pub enum Figure {
    /// The row is a word alone.
    Nothing,
    /// The percentage that is left after `used`.
    Left { used: Amount },
    /// A percentage.
    Percent { used: Amount },
    /// Money, against a limit where there is one.
    Money { amount: Amount, limit: Option<Amount>, code: String },
    /// A count, against a limit where there is one.
    Count { used: Amount, limit: Option<Amount> },
}

/// The figure of a row, with its text as a character sequence.
#[allow(inconsistent_fields)]
pub enum FigureView {
    Nothing,
    Left { used: Amount },
    Percent { used: Amount },
    Money { amount: Amount, limit: Option<Amount>, code: Seq<char> },
    Count { used: Amount, limit: Option<Amount> },
}

impl View for Figure {
    type V = FigureView;

    open spec fn view(&self) -> FigureView {
        match *self {
            Figure::Nothing => FigureView::Nothing,
            Figure::Left { used } => FigureView::Left { used },
            Figure::Percent { used } => FigureView::Percent { used },
            Figure::Money { amount, limit, code } => FigureView::Money {
                amount,
                limit,
                code: code@,
            },
            Figure::Count { used, limit } => FigureView::Count { used, limit },
        }
    }
}

/// A row's value in words.
#[derive(Debug, PartialEq)]
pub struct Wording {
    pub verb: &'static str,
    pub figure: Figure,
    pub suffix: &'static str,
}

/// The word before the figure of a value.
pub open spec fn verb_of(value: SummaryValue) -> Seq<char> {
    match value {
        SummaryValue::Remains { used } => if used.hundred_or_more() {
            "used up"@
        } else {
            "remains"@
        },
        SummaryValue::Used { .. } => "used"@,
        SummaryValue::Balance { .. } => "balance"@,
        SummaryValue::Spent { .. } => "spent"@,
        SummaryValue::Credits { .. } => "credits"@,
        SummaryValue::CreditsUnlimited => "unlimited"@,
        SummaryValue::Counted { .. } => "used"@,
        SummaryValue::Disabled => "disabled"@,
    }
}

/// The figure of a value. Nothing is shown of a currency with control
/// characters.
pub open spec fn figure_of(value: SummaryValue) -> FigureView {
    match value {
        SummaryValue::Remains { used } => if used.hundred_or_more() {
            FigureView::Nothing
        } else {
            FigureView::Left { used }
        },
        SummaryValue::Used { used } => FigureView::Percent { used },
        SummaryValue::Balance { amount, currency } => FigureView::Money {
            amount,
            limit: None,
            code: redact::cell_text(currency.code@),
        },
        SummaryValue::Spent { amount, limit, currency } => FigureView::Money {
            amount,
            limit: Some(limit),
            code: redact::cell_text(currency.code@),
        },
        SummaryValue::Credits { used, limit } => FigureView::Count { used, limit },
        SummaryValue::Counted { used, limit } => FigureView::Count { used, limit },
        SummaryValue::CreditsUnlimited | SummaryValue::Disabled => FigureView::Nothing,
    }
}

/// The mark behind the value of a row whose feature is switched off.
pub open spec fn mark_of(disabled: bool) -> Seq<char> {
    if disabled {
        "(off)"@
    } else {
        ""@
    }
}

/// The value of a row in words.
pub fn wording(row: &SummaryRow) -> (result: Wording)
    ensures
        result.verb@ == verb_of(row.value),
        result.figure@ == figure_of(row.value),
        result.suffix@ == mark_of(row.disabled),
{
    let (verb, figure): (&'static str, Figure) = match &row.value {
        SummaryValue::Remains { used } => if used.is_hundred_or_more() {
            ("used up", Figure::Nothing)
        } else {
            ("remains", Figure::Left { used: *used })
        },
        SummaryValue::Used { used } => ("used", Figure::Percent { used: *used }),
        SummaryValue::Balance { amount, currency } => (
            "balance",
            Figure::Money {
                amount: *amount,
                limit: None,
                code: sanitize_cell(currency.code.as_str()).to_owned(),
            },
        ),
        SummaryValue::Spent { amount, limit, currency } => (
            "spent",
            Figure::Money {
                amount: *amount,
                limit: Some(*limit),
                code: sanitize_cell(currency.code.as_str()).to_owned(),
            },
        ),
        SummaryValue::Credits { used, limit } => (
            "credits",
            Figure::Count { used: *used, limit: *limit },
        ),
        SummaryValue::CreditsUnlimited => ("unlimited", Figure::Nothing),
        SummaryValue::Counted { used, limit } => (
            "used",
            Figure::Count { used: *used, limit: *limit },
        ),
        SummaryValue::Disabled => ("disabled", Figure::Nothing),
    };
    let suffix = if row.disabled {
        "(off)"
    } else {
        ""
    };
    Wording { verb, figure, suffix }
}

} // verus!
