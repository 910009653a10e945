//! Capped player statistics (health, hunger, stamina).

use vstd::prelude::*;

verus! {

/// A bounded statistic: `0 <= value <= max` at all times. Created full
/// (`value == max`) and mutated only through the saturating
/// [`Stat::increase`] and [`Stat::decrease`] operations.
pub struct Stat {
    pub value: i32,
    pub max: i32,
}

impl Stat {
    /// Invariant: the value stays within `[0, max]`.
    pub open spec fn wf(&self) -> bool {
        0 <= self.value <= self.max
    }

    /// A new stat starts at its cap.
    pub fn new(value: i32) -> (r: Self)
        requires
            value >= 0,
        ensures
            r.value == value,
            r.max == value,
            r.wf(),
    {
        Self { value, max: value }
    }

    /// Whether the stat sits at its cap.
    pub fn is_maxed(&self) -> (r: bool)
        ensures
            r == (self.value == self.max),
    {
        self.value == self.max
    }

    /// Saturating add: the value becomes `min(value + amount, max)`.
    pub fn increase(&mut self, amount: i32)
        requires
            old(self).wf(),
            amount >= 0,
        ensures
            final(self).max == old(self).max,
            final(self).value == if old(self).value + amount > old(self).max {
                old(self).max as int
            } else {
                old(self).value + amount
            },
            final(self).wf(),
    {
        if amount >= self.max - self.value {
            self.value = self.max;
        } else {
            self.value = self.value + amount;
        }
    }

    /// Saturating subtract: the value becomes `max(value - amount, 0)`.
    pub fn decrease(&mut self, amount: i32)
        requires
            old(self).wf(),
            amount >= 0,
        ensures
            final(self).max == old(self).max,
            final(self).value == if old(self).value - amount < 0 {
                0int
            } else {
                old(self).value - amount
            },
            final(self).wf(),
    {
        if self.value < amount {
            self.value = 0;
        } else {
            self.value = self.value - amount;
        }
    }
}

} // verus!
