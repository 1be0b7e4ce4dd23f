//! The quota tracker: watches a value against a maximum and notifies a
//! messenger when thresholds are crossed.

use vstd::prelude::*;

verus! {

/// A recipient of quota notifications; implemented by the caller.
pub trait Messenger {
    /// Delivers one notification.
    fn send(&self, msg: &str);
}

/// How far a value has come toward its maximum.
#[derive(Clone, Copy, Debug, PartialEq, Eq, Structural)]
pub enum QuotaLevel {
    /// Below three quarters of the maximum.
    Normal,
    /// At or above three quarters of the maximum.
    Warning,
    /// At or above nine tenths of the maximum.
    Urgent,
    /// At or above the maximum.
    Exceeded,
}

/// The level of `value` against `max`, by exact comparison of the ratios
/// three quarters, nine tenths and one.  A maximum of zero is exceeded by
/// any positive value and met by none.
pub open spec fn spec_quota_level(value: int, max: int) -> QuotaLevel {
    if max == 0 {
        if value == 0 {
            QuotaLevel::Normal
        } else {
            QuotaLevel::Exceeded
        }
    } else if value >= max {
        QuotaLevel::Exceeded
    } else if 10 * value >= 9 * max {
        QuotaLevel::Urgent
    } else if 4 * value >= 3 * max {
        QuotaLevel::Warning
    } else {
        QuotaLevel::Normal
    }
}

/// Computes the level of `value` against `max`.
pub fn quota_level(value: usize, max: usize) -> (l: QuotaLevel)
    ensures
        l == spec_quota_level(value as int, max as int),
{
    if max == 0 {
        if value == 0 {
            QuotaLevel::Normal
        } else {
            QuotaLevel::Exceeded
        }
    } else if value >= max {
        QuotaLevel::Exceeded
    } else if (value as u128) * 10 >= (max as u128) * 9 {
        QuotaLevel::Urgent
    } else if (value as u128) * 4 >= (max as u128) * 3 {
        QuotaLevel::Warning
    } else {
        QuotaLevel::Normal
    }
}

/// Watches a value against a maximum and sends one notification each time
/// the value is set to a level above `Normal`.
pub struct LimitTracker<'a, T: Messenger> {
    messenger: &'a T,
    value: usize,
    max: usize,
}

impl<'a, T: Messenger> LimitTracker<'a, T> {
    /// The value most recently set.
    pub closed spec fn current(&self) -> usize {
        self.value
    }

    /// The maximum the value is tracked against.
    pub closed spec fn limit(&self) -> usize {
        self.max
    }

    /// Creates a tracker at value zero.
    pub fn new(messenger: &'a T, max: usize) -> (t: LimitTracker<'a, T>)
        ensures
            t.current() == 0,
            t.limit() == max,
    {
        LimitTracker { messenger, value: 0, max }
    }

    /// Sets the value and notifies the messenger when it stands at or above
    /// three quarters, nine tenths, or all of the maximum.
    pub fn set_value(&mut self, value: usize)
        ensures
            final(self).current() == value,
            final(self).limit() == old(self).limit(),
    {
        self.value = value;
        let level = quota_level(value, self.max);
        match level {
            QuotaLevel::Exceeded => self.messenger.send("Error: You are over your quota!"),
            QuotaLevel::Urgent => self.messenger.send(
                "Urgent warning: You've used up over 90% of your quota!",
            ),
            QuotaLevel::Warning => self.messenger.send(
                "Warning: You've used up over 75% of your quota!",
            ),
            QuotaLevel::Normal => {},
        }
    }
}

} // verus!
