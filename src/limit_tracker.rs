//! Tracking how much of a quota has been used, with a notice when it runs low.
use vstd::prelude::*;

verus! {

/// Where a user sends the notices of a [`LimitTracker`].
pub trait Messenger {
    fn send(&self, msg: &str);
}

/// How much of a quota is used.
#[derive(Clone, Copy, Debug, PartialEq, Eq, Structural)]
pub enum QuotaLevel {
    /// Under 75%.
    Fine,
    /// From 75% up to 90%.
    Warning,
    /// From 90% up to 100%.
    Urgent,
    /// The whole quota or more.
    Over,
}

/// The level of `value` against a quota of `max`. A quota of 0 is over as soon as
/// anything is used and fine while nothing is.
pub open spec fn level_of(value: int, max: int) -> QuotaLevel {
    if max == 0 {
        if value == 0 {
            QuotaLevel::Fine
        } else {
            QuotaLevel::Over
        }
    } else if value >= max {
        QuotaLevel::Over
    } else if 10 * value >= 9 * max {
        QuotaLevel::Urgent
    } else if 4 * value >= 3 * max {
        QuotaLevel::Warning
    } else {
        QuotaLevel::Fine
    }
}

/// Notice sent at the warning level.
pub const WARNING_NOTICE: &'static str = "Warning: You've used up 75% of your quota!";

/// Notice sent at the urgent level.
pub const URGENT_NOTICE: &'static str = "Urgent warning: Your've used up over 90% of your quota!";

/// Notice sent once the quota is used up.
pub const OVER_NOTICE: &'static str = "Error: Your are over your quota!";

/// The level of `value` against a quota of `max`.
pub fn quota_level(value: usize, max: usize) -> (r: QuotaLevel)
    ensures
        r == level_of(value as int, max as int),
{
    let v = value as u128;
    let m = max as u128;
    if m == 0 {
        if v == 0 {
            QuotaLevel::Fine
        } else {
            QuotaLevel::Over
        }
    } else if v >= m {
        QuotaLevel::Over
    } else if 10 * v >= 9 * m {
        QuotaLevel::Urgent
    } else if 4 * v >= 3 * m {
        QuotaLevel::Warning
    } else {
        QuotaLevel::Fine
    }
}

impl QuotaLevel {
    /// The notice for this level; none while the quota is fine.
    pub fn notice(&self) -> (r: Option<&'static str>)
        ensures
            match *self {
                QuotaLevel::Fine => r is None,
                QuotaLevel::Warning => r matches Some(m) && m@ == WARNING_NOTICE@,
                QuotaLevel::Urgent => r matches Some(m) && m@ == URGENT_NOTICE@,
                QuotaLevel::Over => r matches Some(m) && m@ == OVER_NOTICE@,
            },
    {
        match self {
            QuotaLevel::Fine => None,
            QuotaLevel::Warning => Some(WARNING_NOTICE),
            QuotaLevel::Urgent => Some(URGENT_NOTICE),
            QuotaLevel::Over => Some(OVER_NOTICE),
        }
    }
}

/// Tracks a value against a quota and tells a messenger when the value comes close
/// to or passes the quota.
pub struct LimitTracker<'a, T: Messenger> {
    messenger: &'a T,
    value: usize,
    max: usize,
}

impl<'a, T: Messenger> LimitTracker<'a, T> {
    pub closed spec fn spec_value(&self) -> usize {
        self.value
    }

    pub closed spec fn spec_max(&self) -> usize {
        self.max
    }

    /// A tracker at 0 against a quota of `max`.
    pub fn new(messenger: &'a T, max: usize) -> (r: LimitTracker<'a, T>)
        ensures
            r.spec_value() == 0,
            r.spec_max() == max,
    {
        LimitTracker { messenger, value: 0, max }
    }

    /// Records `value`, then sends the notice of its level, if it has one.
    pub fn set_value(&mut self, value: usize)
        ensures
            final(self).spec_value() == value,
            final(self).spec_max() == old(self).spec_max(),
    {
        self.value = value;
        let level = quota_level(self.value, self.max);
        match level.notice() {
            Some(msg) => self.messenger.send(msg),
            None => {},
        }
    }
}

} // verus!
