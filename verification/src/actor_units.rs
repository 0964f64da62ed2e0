use vstd::prelude::*;

verus! {

/// A share of an actor's time spent working, in hundredths of a percent
/// (`10_000` is 100%).
#[derive(Debug, Clone, Copy, PartialEq, Eq, Structural)]
pub struct Work {
    pub(crate) work: u16,
}

impl View for Work {
    type V = nat;

    /// The work share in hundredths of a percent.
    closed spec fn view(&self) -> nat {
        self.work as nat
    }
}

impl Work {
    #[verifier::type_invariant]
    closed spec fn inv(self) -> bool {
        self.work <= 10_000
    }

    /// Builds a work share from hundredths of a percent; `None` above 100%.
    pub fn from_hundredths(value: u16) -> (r: Option<Work>)
        ensures
            value <= 10_000 <==> r is Some,
            r matches Some(w) ==> w@ == value,
    {
        if value <= 10_000 {
            Some(Work { work: value })
        } else {
            None
        }
    }

    /// The share as a fraction of 10 000; the share never exceeds 100%.
    pub fn rational(&self) -> (r: (u64, u64))
        ensures
            r.0 == self@,
            r.1 == 10_000,
            r.0 <= r.1,
    {
        proof {
            use_type_invariant(self);
        }
        (self.work as u64, 10_000)
    }

    /// 10% work.
    pub fn p10() -> (r: Self)
        ensures r@ == 1000,
    {
        Work { work: 1000 }
    }

    /// 20% work.
    pub fn p20() -> (r: Self)
        ensures r@ == 2000,
    {
        Work { work: 2000 }
    }

    /// 30% work.
    pub fn p30() -> (r: Self)
        ensures r@ == 3000,
    {
        Work { work: 3000 }
    }

    /// 40% work.
    pub fn p40() -> (r: Self)
        ensures r@ == 4000,
    {
        Work { work: 4000 }
    }

    /// 50% work.
    pub fn p50() -> (r: Self)
        ensures r@ == 5000,
    {
        Work { work: 5000 }
    }

    /// 60% work.
    pub fn p60() -> (r: Self)
        ensures r@ == 6000,
    {
        Work { work: 6000 }
    }

    /// 70% work.
    pub fn p70() -> (r: Self)
        ensures r@ == 7000,
    {
        Work { work: 7000 }
    }

    /// 80% work.
    pub fn p80() -> (r: Self)
        ensures r@ == 8000,
    {
        Work { work: 8000 }
    }

    /// 90% work.
    pub fn p90() -> (r: Self)
        ensures r@ == 9000,
    {
        Work { work: 9000 }
    }

    /// 100% work.
    pub fn p100() -> (r: Self)
        ensures r@ == 10_000,
    {
        Work { work: 10_000 }
    }
}

/// CPU usage in milli-CPUs, always in `1..=1024`.
#[derive(Debug, Clone, Copy, PartialEq, Eq, Structural)]
pub struct MCPU {
    pub(crate) mcpu: u16,
}

impl View for MCPU {
    type V = nat;

    /// The usage in milli-CPUs.
    closed spec fn view(&self) -> nat {
        self.mcpu as nat
    }
}

impl MCPU {
    #[verifier::type_invariant]
    closed spec fn inv(self) -> bool {
        1 <= self.mcpu <= 1024
    }

    /// Builds a milli-CPU value; `None` unless `0 < value <= 1024`.
    pub fn new(value: u16) -> (r: Option<Self>)
        ensures
            (0 < value && value <= 1024) <==> r is Some,
            r matches Some(m) ==> m@ == value,
    {
        if value <= 1024 && value > 0 {
            Some(Self { mcpu: value })
        } else {
            None
        }
    }

    /// The usage in milli-CPUs, always in `1..=1024`.
    pub fn mcpu(&self) -> (r: u16)
        ensures
            r == self@,
            1 <= r <= 1024,
    {
        proof {
            use_type_invariant(self);
        }
        self.mcpu
    }

    /// 16 mCPU.
    pub fn m16() -> (r: Self)
        ensures r@ == 16,
    {
        MCPU { mcpu: 16 }
    }

    /// 64 mCPU.
    pub fn m64() -> (r: Self)
        ensures r@ == 64,
    {
        MCPU { mcpu: 64 }
    }

    /// 256 mCPU.
    pub fn m256() -> (r: Self)
        ensures r@ == 256,
    {
        MCPU { mcpu: 256 }
    }

    /// 512 mCPU.
    pub fn m512() -> (r: Self)
        ensures r@ == 512,
    {
        MCPU { mcpu: 512 }
    }

    /// 768 mCPU.
    pub fn m768() -> (r: Self)
        ensures r@ == 768,
    {
        MCPU { mcpu: 768 }
    }

    /// 1024 mCPU.
    pub fn m1024() -> (r: Self)
        ensures r@ == 1024,
    {
        MCPU { mcpu: 1024 }
    }
}

} // verus!
