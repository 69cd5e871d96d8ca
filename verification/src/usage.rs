//! What a provider reports about a subscription.

use vstd::prelude::*;

use crate::provider::ProviderId;

verus! {

/// A quantity as the provider sent it: the bits of an IEEE 754 double.
///
/// The library stores, classifies and passes on quantities; it never computes
/// with them.
#[derive(Clone, Copy, Debug, PartialEq, Eq, Structural)]
pub struct Amount {
    pub bits: u64,
}

/// The bits of `100.0`.
pub const HUNDRED_BITS: u64 = 0x4059_0000_0000_0000;

/// The bits of negative zero: the sign bit alone.
pub const NEGATIVE_ZERO_BITS: u64 = 0x8000_0000_0000_0000;

/// The bits of positive infinity, the largest pattern that compares above zero.
pub const INFINITY_BITS: u64 = 0x7ff0_0000_0000_0000;

impl Amount {
    /// Either of the two zeros.
    pub open spec fn zero(self) -> bool {
        self.bits == 0 || self.bits == NEGATIVE_ZERO_BITS
    }

    /// Exactly one hundred.
    pub open spec fn hundred(self) -> bool {
        self.bits == HUNDRED_BITS
    }

    /// Greater than zero: sign bit clear, not zero and not a NaN.
    pub open spec fn positive(self) -> bool {
        0 < self.bits <= INFINITY_BITS
    }

    /// One hundred or more: the patterns of positive doubles are in the order of
    /// the doubles.
    pub open spec fn hundred_or_more(self) -> bool {
        HUNDRED_BITS <= self.bits <= INFINITY_BITS
    }

    /// Whether the quantity is either of the two zeros.
    pub fn is_zero(&self) -> (result: bool)
        ensures
            result == self.zero(),
    {
        self.bits == 0 || self.bits == NEGATIVE_ZERO_BITS
    }

    /// Whether the quantity is exactly one hundred.
    pub fn is_hundred(&self) -> (result: bool)
        ensures
            result == self.hundred(),
    {
        self.bits == HUNDRED_BITS
    }

    /// Whether the quantity is one hundred or more.
    pub fn is_hundred_or_more(&self) -> (result: bool)
        ensures
            result == self.hundred_or_more(),
    {
        HUNDRED_BITS <= self.bits && self.bits <= INFINITY_BITS
    }

    /// Whether the quantity is greater than zero.
    pub fn is_positive(&self) -> (result: bool)
        ensures
            result == self.positive(),
    {
        0 < self.bits && self.bits <= INFINITY_BITS
    }
}

/// A point in time: seconds since the Unix epoch, and nanoseconds into that second.
#[derive(Clone, Copy, Debug, PartialEq, Eq, Structural)]
pub struct Timestamp {
    pub seconds: i64,
    pub nanos: u32,
}

impl Timestamp {
    /// Strictly earlier than the other point in time.
    pub open spec fn earlier_than(self, other: Timestamp) -> bool {
        self.seconds < other.seconds || (self.seconds == other.seconds && self.nanos < other.nanos)
    }

    /// Whether this point in time is strictly earlier than the other.
    pub fn is_before(&self, other: &Timestamp) -> (result: bool)
        ensures
            result == self.earlier_than(*other),
    {
        self.seconds < other.seconds || (self.seconds == other.seconds && self.nanos < other.nanos)
    }
}

/// The stretch of time a quota is counted over.
#[derive(Debug, PartialEq, Eq, Hash)]
pub enum UsageWindowKind {
    FiveHours,
    Weekly,
    Monthly,
    Other { id: String, label: String },
}

impl Clone for UsageWindowKind {
    fn clone(&self) -> (result: Self)
        ensures
            result == *self,
    {
        match self {
            UsageWindowKind::FiveHours => UsageWindowKind::FiveHours,
            UsageWindowKind::Weekly => UsageWindowKind::Weekly,
            UsageWindowKind::Monthly => UsageWindowKind::Monthly,
            UsageWindowKind::Other { id, label } => UsageWindowKind::Other {
                id: id.clone(),
                label: label.clone(),
            },
        }
    }
}

/// What a quantity counts.
#[derive(Debug, PartialEq, Eq)]
pub enum MeasurementUnit {
    Requests,
    Tokens,
    Percent,
    Credits,
    Currency { code: String },
    Other { id: String, label: String },
}

impl Clone for MeasurementUnit {
    fn clone(&self) -> (result: Self)
        ensures
            result == *self,
    {
        match self {
            MeasurementUnit::Requests => MeasurementUnit::Requests,
            MeasurementUnit::Tokens => MeasurementUnit::Tokens,
            MeasurementUnit::Percent => MeasurementUnit::Percent,
            MeasurementUnit::Credits => MeasurementUnit::Credits,
            MeasurementUnit::Currency { code } => MeasurementUnit::Currency { code: code.clone() },
            MeasurementUnit::Other { id, label } => MeasurementUnit::Other {
                id: id.clone(),
                label: label.clone(),
            },
        }
    }
}

/// One quantity of a window.
#[derive(Debug, PartialEq)]
pub struct UsageMeasurement {
    pub name: String,
    pub used: Amount,
    pub limit: Option<Amount>,
    pub unit: MeasurementUnit,
}

impl Clone for UsageMeasurement {
    fn clone(&self) -> (result: Self)
        ensures
            result == *self,
    {
        UsageMeasurement {
            name: self.name.clone(),
            used: self.used,
            limit: self.limit,
            unit: self.unit.clone(),
        }
    }
}

/// The quantities of one stretch of time.
#[derive(Debug, PartialEq)]
pub struct UsageWindow {
    pub window: UsageWindowKind,
    pub resets_at: Option<Timestamp>,
    pub measurements: Vec<UsageMeasurement>,
}

/// Two windows that hold the same data.
pub open spec fn same_window(left: UsageWindow, right: UsageWindow) -> bool {
    &&& left.window == right.window
    &&& left.resets_at == right.resets_at
    &&& left.measurements@ == right.measurements@
}

impl Clone for UsageWindow {
    fn clone(&self) -> (result: Self)
        ensures
            same_window(result, *self),
    {
        let mut measurements: Vec<UsageMeasurement> = Vec::new();
        let mut index: usize = 0;
        while index < self.measurements.len()
            invariant
                index <= self.measurements@.len(),
                measurements@ == self.measurements@.take(index as int),
            decreases self.measurements.len() - index,
        {
            measurements.push(self.measurements[index].clone());
            index = index + 1;
            assert(self.measurements@.take(index as int) == self.measurements@.take(
                index - 1,
            ).push(self.measurements@[index - 1]));
        }
        assert(self.measurements@.take(index as int) == self.measurements@);
        UsageWindow { window: self.window.clone(), resets_at: self.resets_at, measurements }
    }
}

/// Everything a provider reports about one subscription at one moment.
#[derive(Debug, PartialEq)]
pub struct SubscriptionUsage {
    pub provider: ProviderId,
    pub account_label: Option<String>,
    pub plan: Option<String>,
    pub subscription_expires_at: Option<Timestamp>,
    pub observed_at: Timestamp,
    pub windows: Vec<UsageWindow>,
}

/// Two reports that agree in everything but their windows.
pub open spec fn same_report_header(left: SubscriptionUsage, right: SubscriptionUsage) -> bool {
    &&& left.provider == right.provider
    &&& left.account_label == right.account_label
    &&& left.plan == right.plan
    &&& left.subscription_expires_at == right.subscription_expires_at
    &&& left.observed_at == right.observed_at
}

/// Two reports that hold the same data.
pub open spec fn same_report(left: SubscriptionUsage, right: SubscriptionUsage) -> bool {
    &&& same_report_header(left, right)
    &&& left.windows@.len() == right.windows@.len()
    &&& forall|i: int|
        0 <= i < left.windows@.len() ==> same_window(#[trigger] left.windows@[i], right.windows@[i])
}

/// A copy of an optional text.
pub fn clone_optional_text(text: &Option<String>) -> (result: Option<String>)
    ensures
        result == *text,
{
    match text {
        Some(text) => Some(text.clone()),
        None => None,
    }
}

impl Clone for SubscriptionUsage {
    fn clone(&self) -> (result: Self)
        ensures
            same_report(result, *self),
    {
        let mut windows: Vec<UsageWindow> = Vec::new();
        let mut index: usize = 0;
        while index < self.windows.len()
            invariant
                index <= self.windows@.len(),
                windows@.len() == index,
                forall|i: int|
                    0 <= i < index ==> same_window(#[trigger] windows@[i], self.windows@[i]),
            decreases self.windows.len() - index,
        {
            windows.push(self.windows[index].clone());
            index = index + 1;
        }
        SubscriptionUsage {
            provider: self.provider.clone(),
            account_label: clone_optional_text(&self.account_label),
            plan: clone_optional_text(&self.plan),
            subscription_expires_at: self.subscription_expires_at,
            observed_at: self.observed_at,
            windows,
        }
    }
}

} // verus!
