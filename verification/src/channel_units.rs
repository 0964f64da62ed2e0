use vstd::prelude::*;

verus! {

/// A rate of occurrence, kept as units per a number of milliseconds.
#[derive(Debug, Clone, Copy, PartialEq, Eq, Structural)]
pub struct Rate {
    numerator: u64,
    denominator: u64,
}

impl View for Rate {
    type V = (u64, u64);

    /// The rate as `(units, milliseconds)`.
    closed spec fn view(&self) -> (u64, u64) {
        (self.numerator, self.denominator)
    }
}

impl Rate {
    /// `units` per millisecond.
    pub fn per_millis(units: u64) -> (r: Self)
        ensures r@ == (units, 1u64),
    {
        Self { numerator: units, denominator: 1 }
    }

    /// `units` per second.
    pub fn per_seconds(units: u64) -> (r: Self)
        ensures r@ == (units, 1000u64),
    {
        Self { numerator: units, denominator: 1000 }
    }

    /// `units` per minute.
    pub fn per_minutes(units: u64) -> (r: Self)
        ensures r@ == (units, 60_000u64),
    {
        Self { numerator: units, denominator: 60_000 }
    }

    /// `units` per hour.
    pub fn per_hours(units: u64) -> (r: Self)
        ensures r@ == (units, 3_600_000u64),
    {
        Self { numerator: units, denominator: 3_600_000 }
    }

    /// `units` per day.
    pub fn per_days(units: u64) -> (r: Self)
        ensures r@ == (units, 86_400_000u64),
    {
        Self { numerator: units, denominator: 86_400_000 }
    }

    /// The rate as `(units, milliseconds)`.
    pub fn rational_ms(&self) -> (r: (u64, u64))
        ensures r == self@,
    {
        (self.numerator, self.denominator)
    }
}

/// How full a channel is: a fraction of its capacity or an exact item count.
#[derive(Debug, Clone, Copy, PartialEq, Eq, Structural)]
pub enum Filled {
    /// A fraction of the capacity, as `(numerator, denominator)`.
    Percentage(u64, u64),
    /// An exact number of items.
    Exact(u64),
}

impl Filled {
    /// Exactly `value` items.
    pub fn exact(value: u64) -> (r: Self)
        ensures r == Filled::Exact(value),
    {
        Self::Exact(value)
    }

    /// 10% of capacity.
    pub fn p10() -> (r: Self)
        ensures r == Filled::Percentage(10, 100),
    {
        Self::Percentage(10, 100)
    }

    /// 20% of capacity.
    pub fn p20() -> (r: Self)
        ensures r == Filled::Percentage(20, 100),
    {
        Self::Percentage(20, 100)
    }

    /// 30% of capacity.
    pub fn p30() -> (r: Self)
        ensures r == Filled::Percentage(30, 100),
    {
        Self::Percentage(30, 100)
    }

    /// 40% of capacity.
    pub fn p40() -> (r: Self)
        ensures r == Filled::Percentage(40, 100),
    {
        Self::Percentage(40, 100)
    }

    /// 50% of capacity.
    pub fn p50() -> (r: Self)
        ensures r == Filled::Percentage(50, 100),
    {
        Self::Percentage(50, 100)
    }

    /// 60% of capacity.
    pub fn p60() -> (r: Self)
        ensures r == Filled::Percentage(60, 100),
    {
        Self::Percentage(60, 100)
    }

    /// 70% of capacity.
    pub fn p70() -> (r: Self)
        ensures r == Filled::Percentage(70, 100),
    {
        Self::Percentage(70, 100)
    }

    /// 80% of capacity.
    pub fn p80() -> (r: Self)
        ensures r == Filled::Percentage(80, 100),
    {
        Self::Percentage(80, 100)
    }

    /// 90% of capacity.
    pub fn p90() -> (r: Self)
        ensures r == Filled::Percentage(90, 100),
    {
        Self::Percentage(90, 100)
    }

    /// 100% of capacity.
    pub fn p100() -> (r: Self)
        ensures r == Filled::Percentage(100, 100),
    {
        Self::Percentage(100, 100)
    }
}

} // verus!
