use vstd::prelude::*;
use std::collections::VecDeque;
use hdrhistogram::Histogram;
use crate::telemetry_window::pow2;

verus! {

/// A histogram a bucket can keep of the values recorded into it.
pub trait BucketHistogram: Sized {
    /// The highest value the histogram tracks.
    spec fn spec_high(&self) -> u64;

    /// Whether the histogram grows to fit values above its highest one.
    spec fn spec_auto_resize(&self) -> bool;

    /// The number of values recorded (saturating at `u64::MAX`).
    spec fn spec_len(&self) -> u64;

    /// The index of the bin `value` falls in, when the histogram has a bin
    /// for it.
    spec fn spec_bin(&self, value: u64) -> Option<u64>;

    /// The count held in bin `i` (0 past the last bin).
    spec fn spec_bin_count(&self, i: u64) -> u64;

    /// The largest count a bin can hold; counts saturate there.
    spec fn spec_count_max() -> u64;

    /// A bin can count at least one value.
    proof fn lemma_count_max()
        ensures
            Self::spec_count_max() >= 1,
    ;

    /// A histogram for values in `low..=high` with `sigfig` significant
    /// digits, which does not grow; `None` when it cannot be made, as for
    /// invalid bounds.
    fn with_bounds(low: u64, high: u64, sigfig: u8) -> (r: Option<Self>)
        ensures
            (low < 1 || high < 2 * low || sigfig > 5) ==> r is None,
            (low == 1 && high >= 2 && sigfig <= 5) ==> r is Some,
            r matches Some(h) ==> h.spec_high() == high && !h.spec_auto_resize() && h.spec_len() == 0,
            r matches Some(h) ==> forall|i: u64| #[trigger] h.spec_bin_count(i) == 0,
    ;

    /// A histogram that grows to fit the values recorded; `None` when it
    /// cannot be made, as when `sigfig > 5`.
    fn growing(sigfig: u8) -> (r: Option<Self>)
        ensures
            sigfig > 5 <==> r is None,
            r matches Some(h) ==> h.spec_auto_resize() && h.spec_len() == 0,
            r matches Some(h) ==> forall|i: u64| #[trigger] h.spec_bin_count(i) == 0,
    ;

    /// Records one value, counting it once more; a value above the highest
    /// one of a histogram that does not grow may be dropped.
    fn record(&mut self, value: u64)
        ensures
            final(self).spec_auto_resize() == old(self).spec_auto_resize(),
            !old(self).spec_auto_resize() ==> final(self).spec_high() == old(self).spec_high(),
            (value <= old(self).spec_high() || old(self).spec_auto_resize())
                ==> final(self).spec_len() == count_after_one(old(self).spec_len()),
            final(self).spec_len() == old(self).spec_len()
                || final(self).spec_len() == count_after_one(old(self).spec_len()),
            final(self).spec_high() >= old(self).spec_high(),
            value <= old(self).spec_high() ==> old(self).spec_bin(value) is Some,
            old(self).spec_bin(value) is Some ==> final(self).spec_bin_count(old(self).spec_bin(value)->0)
                == count_up(old(self).spec_bin_count(old(self).spec_bin(value)->0), Self::spec_count_max()),
            (old(self).spec_bin(value) is None && old(self).spec_auto_resize()) ==> {
                &&& final(self).spec_bin(value) is Some
                &&& final(self).spec_bin_count(final(self).spec_bin(value)->0) == 1
            },
            forall|w: u64| old(self).spec_bin(w) is Some ==> #[trigger] final(self).spec_bin(w) == old(self).spec_bin(w),
            forall|i: u64| #[trigger] final(self).spec_bin_count(i) >= old(self).spec_bin_count(i),
    ;

    /// The highest value the histogram tracks.
    fn high(&self) -> (r: u64)
        ensures
            r == self.spec_high(),
    ;

    /// The lowest value recorded, as the histogram reports it.
    spec fn spec_min(&self) -> u64;

    /// The highest value recorded, as the histogram reports it.
    spec fn spec_max(&self) -> u64;

    /// The lowest value recorded (to the histogram's resolution); 0 when
    /// nothing was recorded.
    fn min(&self) -> (r: u64)
        ensures
            r == self.spec_min(),
            self.spec_len() == 0 ==> r == 0,
    ;

    /// The highest value recorded (to the histogram's resolution); 0 when
    /// nothing was recorded.
    fn max(&self) -> (r: u64)
        ensures
            r == self.spec_max(),
            self.spec_len() == 0 ==> r == 0,
    ;
}

/// `n` counted once more, saturating at `u64::MAX`.
pub open spec fn count_after_one(n: u64) -> u64 {
    if n == u64::MAX {
        n
    } else {
        (n + 1) as u64
    }
}

/// `c` counted once more in a bin that holds at most `max`.
pub open spec fn count_up(c: u64, max: u64) -> u64 {
    if c >= max {
        c
    } else {
        (c + 1) as u64
    }
}

/// `h2` is `h1` after `value` was recorded: its highest tracked value does
/// not drop; a value up to it has a bin; the bin of `value`, if it had one,
/// counts it once more, and otherwise a histogram that grows makes a bin
/// for it holding just this value; bins keep their place and no count drops.
pub open spec fn recorded_into<H: BucketHistogram>(h1: H, h2: H, value: u64) -> bool {
    &&& h2.spec_high() >= h1.spec_high()
    &&& value <= h1.spec_high() ==> h1.spec_bin(value) is Some
    &&& h1.spec_bin(value) is Some ==> h2.spec_bin_count(h1.spec_bin(value)->0)
            == count_up(h1.spec_bin_count(h1.spec_bin(value)->0), H::spec_count_max())
    &&& (h1.spec_bin(value) is None && h1.spec_auto_resize()) ==> {
        &&& h2.spec_bin(value) is Some
        &&& h2.spec_bin_count(h2.spec_bin(value)->0) == 1
    }
    &&& forall|w: u64| h1.spec_bin(w) is Some ==> #[trigger] h2.spec_bin(w) == h1.spec_bin(w)
    &&& forall|i: u64| #[trigger] h2.spec_bin_count(i) >= h1.spec_bin_count(i)
}

/// Every value of `values` that `h` had to take (any value when it grows,
/// one up to its highest tracked value otherwise) is counted in its bin.
pub open spec fn counts_values<H: BucketHistogram>(h: H, values: Seq<u64>) -> bool {
    forall|i: int| 0 <= i < values.len() && (h.spec_auto_resize() || values[i] <= h.spec_high()) ==> {
        &&& #[trigger] h.spec_bin(values[i]) is Some
        &&& h.spec_bin_count(h.spec_bin(values[i])->0) >= 1
    }
}

/// A histogram of `u64` values with 64-bit counts.
#[verifier::external_body]
pub struct Histogram64 {
    pub inner: Histogram<u64>,
}

/// A histogram of values with 16-bit counts.
#[verifier::external_body]
pub struct Histogram16 {
    pub inner: Histogram<u16>,
}

/// A histogram of values with 8-bit counts.
#[verifier::external_body]
pub struct Histogram8 {
    pub inner: Histogram<u8>,
}

/// The highest value a histogram of `u64` values with 64-bit counts tracks.
pub uninterp spec fn histogram64_high_value(h: Histogram64) -> u64;

/// Whether a histogram with 64-bit counts grows to fit larger values.
pub uninterp spec fn histogram64_auto_resize(h: Histogram64) -> bool;

/// The number of values a histogram with 64-bit counts has recorded.
pub uninterp spec fn histogram64_len(h: Histogram64) -> u64;

/// The index of the bin `value` falls in within a histogram with 64-bit
/// counts (what its bin lookup finds, below `distinct_values()`), if any.
pub uninterp spec fn histogram64_bin(h: Histogram64, value: u64) -> Option<u64>;

/// The count in bin `i` of a histogram with 64-bit counts; 0 past its
/// last bin.
pub uninterp spec fn histogram64_bin_count(h: Histogram64, i: u64) -> u64;

/// Calls `Histogram::<u64>::new_with_bounds`, which refuses `low < 1`,
/// `high < 2 * low` and `sigfig > 5` (any other failure is passed on as
/// `None` too), and which makes an empty histogram whose highest tracked
/// value is `high` and which does not grow. With `low == 1` no other check
/// can fail: the unit magnitude is 0 and the bins fit in a `usize`.
#[verifier::external_body]
fn histogram64_with_bounds(low: u64, high: u64, sigfig: u8) -> (r: Option<Histogram64>)
    ensures
        (low < 1 || high < 2 * low || sigfig > 5) ==> r is None,
        (low == 1 && high >= 2 && sigfig <= 5) ==> r is Some,
        r matches Some(h) ==> histogram64_high_value(h) == high && !histogram64_auto_resize(h) && histogram64_len(h) == 0,
        r matches Some(h) ==> forall|i: u64| #[trigger] histogram64_bin_count(h, i) == 0,
{
    match Histogram::<u64>::new_with_bounds(low, high, sigfig) {
        Ok(h) => Some(Histogram64 { inner: h }),
        Err(_) => None,
    }
}

/// Calls `Histogram::<u64>::new`, which makes the histogram of bounds 1 and
/// 2 and lets it grow: it refuses `sigfig > 5` and nothing else, and the
/// histogram it makes is empty and grows.
#[verifier::external_body]
fn histogram64_growing(sigfig: u8) -> (r: Option<Histogram64>)
    ensures
        sigfig > 5 <==> r is None,
        r matches Some(h) ==> histogram64_auto_resize(h) && histogram64_len(h) == 0,
        r matches Some(h) ==> forall|i: u64| #[trigger] histogram64_bin_count(h, i) == 0,
{
    match Histogram::<u64>::new(sigfig) {
        Ok(h) => Some(Histogram64 { inner: h }),
        Err(_) => None,
    }
}

/// Calls `Histogram::<u64>::record`, dropping a value the histogram refuses.
/// Claimed: recording never changes whether the histogram grows, and never
/// changes the highest tracked value of one that does not grow; a value up
/// to the highest tracked one, or any value when the histogram grows, is
/// counted, so the number recorded goes up by one (saturating); a refused
/// value leaves it as it was. Which bucket's count grows is not claimed.
#[verifier::external_body]
fn histogram64_record(h: &mut Histogram64, value: u64)
    ensures
        histogram64_auto_resize(*final(h)) == histogram64_auto_resize(*old(h)),
        !histogram64_auto_resize(*old(h)) ==> histogram64_high_value(*final(h)) == histogram64_high_value(*old(h)),
        (value <= histogram64_high_value(*old(h)) || histogram64_auto_resize(*old(h)))
            ==> histogram64_len(*final(h)) == count_after_one(histogram64_len(*old(h))),
        histogram64_len(*final(h)) == histogram64_len(*old(h)) || histogram64_len(*final(h)) == count_after_one(histogram64_len(*old(h))),
        histogram64_high_value(*final(h)) >= histogram64_high_value(*old(h)),
        value <= histogram64_high_value(*old(h)) ==> histogram64_bin(*old(h), value) is Some,
        histogram64_bin(*old(h), value) is Some ==> histogram64_bin_count(*final(h), histogram64_bin(*old(h), value)->0)
            == count_up(histogram64_bin_count(*old(h), histogram64_bin(*old(h), value)->0), u64::MAX),
        (histogram64_bin(*old(h), value) is None && histogram64_auto_resize(*old(h))) ==> {
            &&& histogram64_bin(*final(h), value) is Some
            &&& histogram64_bin_count(*final(h), histogram64_bin(*final(h), value)->0) == 1
        },
        forall|w: u64| histogram64_bin(*old(h), w) is Some ==> #[trigger] histogram64_bin(*final(h), w) == histogram64_bin(*old(h), w),
        forall|i: u64| #[trigger] histogram64_bin_count(*final(h), i) >= histogram64_bin_count(*old(h), i),
{
    let _ = h.inner.record(value);
}

/// Calls `Histogram::<u64>::high`, the highest tracked value.
#[verifier::external_body]
fn histogram64_high(h: &Histogram64) -> (r: u64)
    ensures
        r == histogram64_high_value(*h),
{
    h.inner.high()
}

/// The lowest recorded value a histogram with 64-bit counts reports.
pub uninterp spec fn histogram64_min_value(h: Histogram64) -> u64;

/// The highest recorded value a histogram with 64-bit counts reports.
pub uninterp spec fn histogram64_max_value(h: Histogram64) -> u64;

/// Calls `Histogram::<u64>::min`, which is 0 while nothing is recorded.
#[verifier::external_body]
fn histogram64_min(h: &Histogram64) -> (r: u64)
    ensures
        r == histogram64_min_value(*h),
        histogram64_len(*h) == 0 ==> r == 0,
{
    h.inner.min()
}

/// Calls `Histogram::<u64>::max`, which is 0 while nothing is recorded (the
/// highest value seen starts at 0 and only a record raises it).
#[verifier::external_body]
fn histogram64_max(h: &Histogram64) -> (r: u64)
    ensures
        r == histogram64_max_value(*h),
        histogram64_len(*h) == 0 ==> r == 0,
{
    h.inner.max()
}

impl BucketHistogram for Histogram64 {
    open spec fn spec_high(&self) -> u64 {
        histogram64_high_value(*self)
    }

    open spec fn spec_auto_resize(&self) -> bool {
        histogram64_auto_resize(*self)
    }

    open spec fn spec_len(&self) -> u64 {
        histogram64_len(*self)
    }

    open spec fn spec_bin(&self, value: u64) -> Option<u64> {
        histogram64_bin(*self, value)
    }

    open spec fn spec_bin_count(&self, i: u64) -> u64 {
        histogram64_bin_count(*self, i)
    }

    open spec fn spec_count_max() -> u64 {
        u64::MAX
    }

    proof fn lemma_count_max() {
    }

    fn with_bounds(low: u64, high: u64, sigfig: u8) -> (r: Option<Self>) {
        histogram64_with_bounds(low, high, sigfig)
    }

    fn growing(sigfig: u8) -> (r: Option<Self>) {
        histogram64_growing(sigfig)
    }

    fn record(&mut self, value: u64) {
        histogram64_record(self, value)
    }

    fn high(&self) -> (r: u64) {
        histogram64_high(self)
    }

    open spec fn spec_min(&self) -> u64 {
        histogram64_min_value(*self)
    }

    open spec fn spec_max(&self) -> u64 {
        histogram64_max_value(*self)
    }

    fn min(&self) -> (r: u64) {
        histogram64_min(self)
    }

    fn max(&self) -> (r: u64) {
        histogram64_max(self)
    }
}

/// The highest value a histogram of `u64` values with 16-bit counts tracks.
pub uninterp spec fn histogram16_high_value(h: Histogram16) -> u64;

/// Whether a histogram with 16-bit counts grows to fit larger values.
pub uninterp spec fn histogram16_auto_resize(h: Histogram16) -> bool;

/// The number of values a histogram with 16-bit counts has recorded.
pub uninterp spec fn histogram16_len(h: Histogram16) -> u64;

/// The index of the bin `value` falls in within a histogram with 16-bit
/// counts (what its bin lookup finds, below `distinct_values()`), if any.
pub uninterp spec fn histogram16_bin(h: Histogram16, value: u64) -> Option<u64>;

/// The count in bin `i` of a histogram with 16-bit counts; 0 past its
/// last bin.
pub uninterp spec fn histogram16_bin_count(h: Histogram16, i: u64) -> u64;

/// Calls `Histogram::<u16>::new_with_bounds`, which refuses `low < 1`,
/// `high < 2 * low` and `sigfig > 5` (any other failure is passed on as
/// `None` too), and which makes an empty histogram whose highest tracked
/// value is `high` and which does not grow. With `low == 1` no other check
/// can fail: the unit magnitude is 0 and the bins fit in a `usize`.
#[verifier::external_body]
fn histogram16_with_bounds(low: u64, high: u64, sigfig: u8) -> (r: Option<Histogram16>)
    ensures
        (low < 1 || high < 2 * low || sigfig > 5) ==> r is None,
        (low == 1 && high >= 2 && sigfig <= 5) ==> r is Some,
        r matches Some(h) ==> histogram16_high_value(h) == high && !histogram16_auto_resize(h) && histogram16_len(h) == 0,
        r matches Some(h) ==> forall|i: u64| #[trigger] histogram16_bin_count(h, i) == 0,
{
    match Histogram::<u16>::new_with_bounds(low, high, sigfig) {
        Ok(h) => Some(Histogram16 { inner: h }),
        Err(_) => None,
    }
}

/// Calls `Histogram::<u16>::new`, which makes the histogram of bounds 1 and
/// 2 and lets it grow: it refuses `sigfig > 5` and nothing else, and the
/// histogram it makes is empty and grows.
#[verifier::external_body]
fn histogram16_growing(sigfig: u8) -> (r: Option<Histogram16>)
    ensures
        sigfig > 5 <==> r is None,
        r matches Some(h) ==> histogram16_auto_resize(h) && histogram16_len(h) == 0,
        r matches Some(h) ==> forall|i: u64| #[trigger] histogram16_bin_count(h, i) == 0,
{
    match Histogram::<u16>::new(sigfig) {
        Ok(h) => Some(Histogram16 { inner: h }),
        Err(_) => None,
    }
}

/// Calls `Histogram::<u16>::record`, dropping a value the histogram refuses.
/// Claimed: recording never changes whether the histogram grows, and never
/// changes the highest tracked value of one that does not grow; a value up
/// to the highest tracked one, or any value when the histogram grows, is
/// counted, so the number recorded goes up by one (saturating); a refused
/// value leaves it as it was. Which bucket's count grows is not claimed.
#[verifier::external_body]
fn histogram16_record(h: &mut Histogram16, value: u64)
    ensures
        histogram16_auto_resize(*final(h)) == histogram16_auto_resize(*old(h)),
        !histogram16_auto_resize(*old(h)) ==> histogram16_high_value(*final(h)) == histogram16_high_value(*old(h)),
        (value <= histogram16_high_value(*old(h)) || histogram16_auto_resize(*old(h)))
            ==> histogram16_len(*final(h)) == count_after_one(histogram16_len(*old(h))),
        histogram16_len(*final(h)) == histogram16_len(*old(h)) || histogram16_len(*final(h)) == count_after_one(histogram16_len(*old(h))),
        histogram16_high_value(*final(h)) >= histogram16_high_value(*old(h)),
        value <= histogram16_high_value(*old(h)) ==> histogram16_bin(*old(h), value) is Some,
        histogram16_bin(*old(h), value) is Some ==> histogram16_bin_count(*final(h), histogram16_bin(*old(h), value)->0)
            == count_up(histogram16_bin_count(*old(h), histogram16_bin(*old(h), value)->0), 0xffff),
        (histogram16_bin(*old(h), value) is None && histogram16_auto_resize(*old(h))) ==> {
            &&& histogram16_bin(*final(h), value) is Some
            &&& histogram16_bin_count(*final(h), histogram16_bin(*final(h), value)->0) == 1
        },
        forall|w: u64| histogram16_bin(*old(h), w) is Some ==> #[trigger] histogram16_bin(*final(h), w) == histogram16_bin(*old(h), w),
        forall|i: u64| #[trigger] histogram16_bin_count(*final(h), i) >= histogram16_bin_count(*old(h), i),
{
    let _ = h.inner.record(value);
}

/// Calls `Histogram::<u16>::high`, the highest tracked value.
#[verifier::external_body]
fn histogram16_high(h: &Histogram16) -> (r: u64)
    ensures
        r == histogram16_high_value(*h),
{
    h.inner.high()
}

/// The lowest recorded value a histogram with 16-bit counts reports.
pub uninterp spec fn histogram16_min_value(h: Histogram16) -> u64;

/// The highest recorded value a histogram with 16-bit counts reports.
pub uninterp spec fn histogram16_max_value(h: Histogram16) -> u64;

/// Calls `Histogram::<u16>::min`, which is 0 while nothing is recorded.
#[verifier::external_body]
fn histogram16_min(h: &Histogram16) -> (r: u64)
    ensures
        r == histogram16_min_value(*h),
        histogram16_len(*h) == 0 ==> r == 0,
{
    h.inner.min()
}

/// Calls `Histogram::<u16>::max`, which is 0 while nothing is recorded (the
/// highest value seen starts at 0 and only a record raises it).
#[verifier::external_body]
fn histogram16_max(h: &Histogram16) -> (r: u64)
    ensures
        r == histogram16_max_value(*h),
        histogram16_len(*h) == 0 ==> r == 0,
{
    h.inner.max()
}

impl BucketHistogram for Histogram16 {
    open spec fn spec_high(&self) -> u64 {
        histogram16_high_value(*self)
    }

    open spec fn spec_auto_resize(&self) -> bool {
        histogram16_auto_resize(*self)
    }

    open spec fn spec_len(&self) -> u64 {
        histogram16_len(*self)
    }

    open spec fn spec_bin(&self, value: u64) -> Option<u64> {
        histogram16_bin(*self, value)
    }

    open spec fn spec_bin_count(&self, i: u64) -> u64 {
        histogram16_bin_count(*self, i)
    }

    open spec fn spec_count_max() -> u64 {
        0xffff
    }

    proof fn lemma_count_max() {
    }

    fn with_bounds(low: u64, high: u64, sigfig: u8) -> (r: Option<Self>) {
        histogram16_with_bounds(low, high, sigfig)
    }

    fn growing(sigfig: u8) -> (r: Option<Self>) {
        histogram16_growing(sigfig)
    }

    fn record(&mut self, value: u64) {
        histogram16_record(self, value)
    }

    fn high(&self) -> (r: u64) {
        histogram16_high(self)
    }

    open spec fn spec_min(&self) -> u64 {
        histogram16_min_value(*self)
    }

    open spec fn spec_max(&self) -> u64 {
        histogram16_max_value(*self)
    }

    fn min(&self) -> (r: u64) {
        histogram16_min(self)
    }

    fn max(&self) -> (r: u64) {
        histogram16_max(self)
    }
}

/// The highest value a histogram of `u64` values with 8-bit counts tracks.
pub uninterp spec fn histogram8_high_value(h: Histogram8) -> u64;

/// Whether a histogram with 8-bit counts grows to fit larger values.
pub uninterp spec fn histogram8_auto_resize(h: Histogram8) -> bool;

/// The number of values a histogram with 8-bit counts has recorded.
pub uninterp spec fn histogram8_len(h: Histogram8) -> u64;

/// The index of the bin `value` falls in within a histogram with 8-bit
/// counts (what its bin lookup finds, below `distinct_values()`), if any.
pub uninterp spec fn histogram8_bin(h: Histogram8, value: u64) -> Option<u64>;

/// The count in bin `i` of a histogram with 8-bit counts; 0 past its
/// last bin.
pub uninterp spec fn histogram8_bin_count(h: Histogram8, i: u64) -> u64;

/// Calls `Histogram::<u8>::new_with_bounds`, which refuses `low < 1`,
/// `high < 2 * low` and `sigfig > 5` (any other failure is passed on as
/// `None` too), and which makes an empty histogram whose highest tracked
/// value is `high` and which does not grow. With `low == 1` no other check
/// can fail: the unit magnitude is 0 and the bins fit in a `usize`.
#[verifier::external_body]
fn histogram8_with_bounds(low: u64, high: u64, sigfig: u8) -> (r: Option<Histogram8>)
    ensures
        (low < 1 || high < 2 * low || sigfig > 5) ==> r is None,
        (low == 1 && high >= 2 && sigfig <= 5) ==> r is Some,
        r matches Some(h) ==> histogram8_high_value(h) == high && !histogram8_auto_resize(h) && histogram8_len(h) == 0,
        r matches Some(h) ==> forall|i: u64| #[trigger] histogram8_bin_count(h, i) == 0,
{
    match Histogram::<u8>::new_with_bounds(low, high, sigfig) {
        Ok(h) => Some(Histogram8 { inner: h }),
        Err(_) => None,
    }
}

/// Calls `Histogram::<u8>::new`, which makes the histogram of bounds 1 and
/// 2 and lets it grow: it refuses `sigfig > 5` and nothing else, and the
/// histogram it makes is empty and grows.
#[verifier::external_body]
fn histogram8_growing(sigfig: u8) -> (r: Option<Histogram8>)
    ensures
        sigfig > 5 <==> r is None,
        r matches Some(h) ==> histogram8_auto_resize(h) && histogram8_len(h) == 0,
        r matches Some(h) ==> forall|i: u64| #[trigger] histogram8_bin_count(h, i) == 0,
{
    match Histogram::<u8>::new(sigfig) {
        Ok(h) => Some(Histogram8 { inner: h }),
        Err(_) => None,
    }
}

/// Calls `Histogram::<u8>::record`, dropping a value the histogram refuses.
/// Claimed: recording never changes whether the histogram grows, and never
/// changes the highest tracked value of one that does not grow; a value up
/// to the highest tracked one, or any value when the histogram grows, is
/// counted, so the number recorded goes up by one (saturating); a refused
/// value leaves it as it was. Which bucket's count grows is not claimed.
#[verifier::external_body]
fn histogram8_record(h: &mut Histogram8, value: u64)
    ensures
        histogram8_auto_resize(*final(h)) == histogram8_auto_resize(*old(h)),
        !histogram8_auto_resize(*old(h)) ==> histogram8_high_value(*final(h)) == histogram8_high_value(*old(h)),
        (value <= histogram8_high_value(*old(h)) || histogram8_auto_resize(*old(h)))
            ==> histogram8_len(*final(h)) == count_after_one(histogram8_len(*old(h))),
        histogram8_len(*final(h)) == histogram8_len(*old(h)) || histogram8_len(*final(h)) == count_after_one(histogram8_len(*old(h))),
        histogram8_high_value(*final(h)) >= histogram8_high_value(*old(h)),
        value <= histogram8_high_value(*old(h)) ==> histogram8_bin(*old(h), value) is Some,
        histogram8_bin(*old(h), value) is Some ==> histogram8_bin_count(*final(h), histogram8_bin(*old(h), value)->0)
            == count_up(histogram8_bin_count(*old(h), histogram8_bin(*old(h), value)->0), 0xff),
        (histogram8_bin(*old(h), value) is None && histogram8_auto_resize(*old(h))) ==> {
            &&& histogram8_bin(*final(h), value) is Some
            &&& histogram8_bin_count(*final(h), histogram8_bin(*final(h), value)->0) == 1
        },
        forall|w: u64| histogram8_bin(*old(h), w) is Some ==> #[trigger] histogram8_bin(*final(h), w) == histogram8_bin(*old(h), w),
        forall|i: u64| #[trigger] histogram8_bin_count(*final(h), i) >= histogram8_bin_count(*old(h), i),
{
    let _ = h.inner.record(value);
}

/// Calls `Histogram::<u8>::high`, the highest tracked value.
#[verifier::external_body]
fn histogram8_high(h: &Histogram8) -> (r: u64)
    ensures
        r == histogram8_high_value(*h),
{
    h.inner.high()
}

/// The lowest recorded value a histogram with 8-bit counts reports.
pub uninterp spec fn histogram8_min_value(h: Histogram8) -> u64;

/// The highest recorded value a histogram with 8-bit counts reports.
pub uninterp spec fn histogram8_max_value(h: Histogram8) -> u64;

/// Calls `Histogram::<u8>::min`, which is 0 while nothing is recorded.
#[verifier::external_body]
fn histogram8_min(h: &Histogram8) -> (r: u64)
    ensures
        r == histogram8_min_value(*h),
        histogram8_len(*h) == 0 ==> r == 0,
{
    h.inner.min()
}

/// Calls `Histogram::<u8>::max`, which is 0 while nothing is recorded (the
/// highest value seen starts at 0 and only a record raises it).
#[verifier::external_body]
fn histogram8_max(h: &Histogram8) -> (r: u64)
    ensures
        r == histogram8_max_value(*h),
        histogram8_len(*h) == 0 ==> r == 0,
{
    h.inner.max()
}

impl BucketHistogram for Histogram8 {
    open spec fn spec_high(&self) -> u64 {
        histogram8_high_value(*self)
    }

    open spec fn spec_auto_resize(&self) -> bool {
        histogram8_auto_resize(*self)
    }

    open spec fn spec_len(&self) -> u64 {
        histogram8_len(*self)
    }

    open spec fn spec_bin(&self, value: u64) -> Option<u64> {
        histogram8_bin(*self, value)
    }

    open spec fn spec_bin_count(&self, i: u64) -> u64 {
        histogram8_bin_count(*self, i)
    }

    open spec fn spec_count_max() -> u64 {
        0xff
    }

    proof fn lemma_count_max() {
    }

    fn with_bounds(low: u64, high: u64, sigfig: u8) -> (r: Option<Self>) {
        histogram8_with_bounds(low, high, sigfig)
    }

    fn growing(sigfig: u8) -> (r: Option<Self>) {
        histogram8_growing(sigfig)
    }

    fn record(&mut self, value: u64) {
        histogram8_record(self, value)
    }

    fn high(&self) -> (r: u64) {
        histogram8_high(self)
    }

    open spec fn spec_min(&self) -> u64 {
        histogram8_min_value(*self)
    }

    open spec fn spec_max(&self) -> u64 {
        histogram8_max_value(*self)
    }

    fn min(&self) -> (r: u64) {
        histogram8_min(self)
    }

    fn max(&self) -> (r: u64) {
        histogram8_max(self)
    }
}

/// How the histogram of each bucket is made.
#[derive(Clone, Copy, Debug, PartialEq, Eq, Structural)]
pub enum HistogramShape {
    /// Values in `low..=high` with `sigfig` significant digits.
    Bounded(u64, u64, u8),
    /// Values from 1 up, growing as needed, with `sigfig` significant digits.
    Growing(u8),
}

/// Whether a histogram of `shape` can always be made: bounds from 1 to at
/// least 2, or a growing one, with at most 5 significant digits.
pub open spec fn shape_makes(shape: HistogramShape) -> bool {
    match shape {
        HistogramShape::Bounded(low, high, sigfig) => low == 1 && high >= 2 && sigfig <= 5,
        HistogramShape::Growing(sigfig) => sigfig <= 5,
    }
}

/// The highest value a shape's histograms track: its bound, or any value
/// for histograms that grow.
pub open spec fn shape_high(shape: HistogramShape) -> u64 {
    match shape {
        HistogramShape::Bounded(_, high, _) => high,
        HistogramShape::Growing(_) => u64::MAX,
    }
}

/// The value a histogram of `shape` is given for `v`: `v`, capped at the
/// shape's highest value when `clamp`.
pub open spec fn offered_value(shape: HistogramShape, clamp: bool, v: u64) -> u64 {
    if clamp && v > shape_high(shape) {
        shape_high(shape)
    } else {
        v
    }
}

/// The sum of `s`, where each addition saturates at `u128::MAX`.
pub open spec fn saturating_sum(s: Seq<u128>) -> u128
    decreases s.len(),
{
    if s.len() == 0 {
        0
    } else {
        let prev = saturating_sum(s.drop_last());
        if prev + s.last() > u128::MAX {
            u128::MAX
        } else {
            (prev + s.last()) as u128
        }
    }
}

/// The squares of the values of `s`.
pub open spec fn squares(s: Seq<u128>) -> Seq<u128> {
    s.map_values(|v: u128| (v * v) as u128)
}

/// One bucket of a rolling window: the running sum and sum of squares of
/// the values recorded into it, and optionally their histogram.
#[verifier::reject_recursive_types(H)]
pub struct ChannelBlock<H> {
    pub(crate) histogram: Option<H>,
    pub(crate) runner: u128,
    pub(crate) sum_of_squares: u128,
    /// The index of the first frame the bucket saw.
    pub(crate) first_frame: Ghost<nat>,
    /// The values given to the histogram, one per frame (kept also when
    /// the bucket has no histogram).
    pub(crate) hist_values: Ghost<Seq<u64>>,
}

impl<H> ChannelBlock<H> {
    /// The running sum of the values recorded.
    pub fn runner(&self) -> (r: u128)
        ensures
            r == self.spec_runner(),
    {
        self.runner
    }

    /// The running sum of the squares of the values recorded.
    pub fn sum_of_squares(&self) -> (r: u128)
        ensures
            r == self.spec_sum_of_squares(),
    {
        self.sum_of_squares
    }

    /// The histogram of the values recorded, when the bucket keeps one.
    pub fn histogram(&self) -> (r: &Option<H>)
        ensures
            *r == self.spec_histogram(),
    {
        &self.histogram
    }

    /// The index of the first frame the bucket saw.
    pub closed spec fn spec_first_frame(&self) -> nat {
        self.first_frame@
    }

    /// The running sum of the values recorded.
    pub closed spec fn spec_runner(&self) -> u128 {
        self.runner
    }

    /// The running sum of the squares of the values recorded.
    pub closed spec fn spec_sum_of_squares(&self) -> u128 {
        self.sum_of_squares
    }

    /// The values given to the histogram, one per frame.
    pub closed spec fn spec_hist_values(&self) -> Seq<u64> {
        self.hist_values@
    }

    /// The bucket's histogram, if it keeps one.
    pub closed spec fn spec_histogram(&self) -> Option<H> {
        self.histogram
    }
}

/// The running sum of squares of a bucket, if there is one.
pub open spec fn squares_of<H>(c: Option<ChannelBlock<H>>) -> Option<u128> {
    match c {
        Some(b) => Some(b.spec_sum_of_squares()),
        None => None,
    }
}

/// The running sum of a bucket, if there is one.
pub open spec fn runner_of<H>(c: Option<ChannelBlock<H>>) -> Option<u128> {
    match c {
        Some(b) => Some(b.spec_runner()),
        None => None,
    }
}

/// The frames a bucket that began at frame `first` has seen until frame `end`.
pub open spec fn frames_between(frames: Seq<u128>, first: nat, end: nat) -> Seq<u128> {
    frames.subrange(first as int, end as int)
}

/// The rolling window of one measured value: the buckets still filling,
/// oldest first, and the last bucket that left the window.
#[verifier::reject_recursive_types(H)]
pub struct MetricWindow<H> {
    pub(crate) history: VecDeque<ChannelBlock<H>>,
    pub(crate) current: Option<ChannelBlock<H>>,
    pub(crate) build_histogram: bool,
    pub(crate) shape: HistogramShape,
    /// Every value recorded so far, as added to the running sums.
    pub(crate) frames: Ghost<Seq<u128>>,
    /// The frame count at which `current` left the window.
    pub(crate) current_end: Ghost<nat>,
    /// Whether every bucket so far was made (no histogram failed).
    pub(crate) all_made: Ghost<bool>,
    /// The value given to the histograms for each frame so far.
    pub(crate) hist_frames: Ghost<Seq<u64>>,
}

/// Whether `b` sums exactly the frames from its first frame to `end`.
pub open spec fn block_sums<H>(b: ChannelBlock<H>, frames: Seq<u128>, end: nat) -> bool {
    &&& b.spec_first_frame() <= end <= frames.len()
    &&& b.spec_runner() == saturating_sum(frames_between(frames, b.spec_first_frame(), end))
    &&& b.spec_sum_of_squares() == saturating_sum(squares(frames_between(frames, b.spec_first_frame(), end)))
}

/// Whether `b` was given exactly the histogram values from its first frame
/// to `end`, and its histogram, for a bounded shape, is one of that shape
/// that does not grow.
pub open spec fn block_offers<H: BucketHistogram>(b: ChannelBlock<H>, hist_frames: Seq<u64>, end: nat, shape: HistogramShape) -> bool {
    &&& b.spec_hist_values() == hist_frames.subrange(b.spec_first_frame() as int, end as int)
    &&& b.spec_histogram() matches Some(h) ==> counts_values(h, b.spec_hist_values())
    &&& (shape is Bounded && b.spec_histogram() is Some) ==> {
        &&& b.spec_histogram()->0.spec_high() == shape_high(shape)
        &&& !b.spec_histogram()->0.spec_auto_resize()
    }
}

impl<H: BucketHistogram> MetricWindow<H> {
    /// The histogram value given for each frame so far.
    pub closed spec fn spec_hist_frames(&self) -> Seq<u64> {
        self.hist_frames@
    }

    /// How the buckets' histograms are made.
    pub closed spec fn spec_shape(&self) -> HistogramShape {
        self.shape
    }

    /// The values recorded so far.
    pub closed spec fn spec_frames(&self) -> Seq<u128> {
        self.frames@
    }

    /// The buckets still filling, oldest first.
    pub closed spec fn spec_history(&self) -> Seq<ChannelBlock<H>> {
        self.history@
    }

    /// The last bucket that left the window.
    pub closed spec fn spec_current(&self) -> Option<ChannelBlock<H>> {
        self.current
    }

    /// The frame count at which the current bucket left the window.
    pub closed spec fn spec_current_end(&self) -> nat {
        self.current_end@
    }

    /// Whether every bucket so far could be made.
    pub closed spec fn spec_all_made(&self) -> bool {
        self.all_made@
    }

    /// Whether the buckets keep histograms.
    pub closed spec fn spec_builds_histogram(&self) -> bool {
        self.build_histogram
    }

    /// The window's shape invariant, for buckets of `r` frames and a window
    /// of `n` buckets: buckets start on bucket boundaries in increasing
    /// order, each sums exactly the frames it saw, and the retired bucket
    /// spans at least a whole window (exactly one when every bucket was made).
    pub closed spec fn wf(&self, r: nat, n: nat) -> bool {
        let frames = self.frames@;
        let seen = frames.len();
        let h = self.history@;
        &&& r >= 1
        &&& n >= 1
        &&& h.len() <= n
        &&& forall|i: int| 0 <= i < h.len() ==> #[trigger] h[i].first_frame@ % r == 0
        &&& forall|i: int| 0 <= i < h.len() ==> #[trigger] h[i].first_frame@ <= (seen / r) * r
        &&& forall|i: int| 0 <= i < h.len() ==> block_sums(#[trigger] h[i], frames, seen)
        &&& self.hist_frames@.len() == seen
        &&& forall|i: int| 0 <= i < h.len() ==> block_offers(#[trigger] h[i], self.hist_frames@, seen, self.shape)
        &&& forall|i: int, j: int| 0 <= i < j < h.len() ==> #[trigger] h[i].first_frame@ + (j - i) * r <= #[trigger] h[j].first_frame@
        &&& self.all_made@ ==> h.len() == if seen / r + 1 < n { seen / r + 1 } else { n }
        &&& self.all_made@ ==> forall|i: int| 0 <= i < h.len() ==>
                #[trigger] h[i].first_frame@ + (h.len() - 1 - i) * r == (seen / r) * r
        &&& match self.current {
            Some(b) => {
                &&& block_sums(b, frames, self.current_end@)
                &&& block_offers(b, self.hist_frames@, self.current_end@, self.shape)
                &&& b.first_frame@ % r == 0
                &&& self.current_end@ % r == 0
                &&& b.first_frame@ + n * r <= self.current_end@
                &&& self.all_made@ ==> b.first_frame@ + n * r == self.current_end@
                &&& self.all_made@ ==> self.current_end@ == (seen / r) * r
            },
            None => self.all_made@ ==> seen / r < n,
        }
    }
}

/// `b2` is `b1` after one more value `v` was recorded into it.
pub open spec fn recorded_once<H>(b1: ChannelBlock<H>, b2: ChannelBlock<H>, v: u128) -> bool {
    &&& b2.spec_first_frame() == b1.spec_first_frame()
    &&& b2.spec_runner() == (if b1.spec_runner() + v > u128::MAX { u128::MAX } else { (b1.spec_runner() + v) as u128 })
    &&& b2.spec_sum_of_squares() == (if b1.spec_sum_of_squares() + v * v > u128::MAX {
        u128::MAX
    } else {
        (b1.spec_sum_of_squares() + v * v) as u128
    })
}

proof fn lemma_sums_after_push<H>(b1: ChannelBlock<H>, b2: ChannelBlock<H>, frames: Seq<u128>, v: u128)
    requires
        block_sums(b1, frames, frames.len()),
        recorded_once(b1, b2, v),
        v <= u64::MAX,
    ensures
        block_sums(b2, frames.push(v), frames.len() + 1),
{
    let f = b1.spec_first_frame();
    let s = frames_between(frames, f, frames.len());
    let s2 = frames_between(frames.push(v), f, frames.len() + 1);
    assert(s2 =~= s.push(v));
    assert(s2.drop_last() =~= s);
    assert(squares(s2) =~= squares(s).push((v * v) as u128));
    assert(squares(s2).drop_last() =~= squares(s));
    assert(v * v <= u128::MAX) by (nonlinear_arith)
        requires v <= u64::MAX;
}

/// `b2` is `b1` after its histogram (if any) was given `hv`.
pub open spec fn offered_once<H: BucketHistogram>(b1: ChannelBlock<H>, b2: ChannelBlock<H>, hv: u64) -> bool {
    &&& b2.spec_hist_values() == b1.spec_hist_values().push(hv)
    &&& (b1.spec_histogram() is Some) == (b2.spec_histogram() is Some)
    &&& b1.spec_histogram() matches Some(h1) ==> {
        &&& b2.spec_histogram()->0.spec_auto_resize() == h1.spec_auto_resize()
        &&& !h1.spec_auto_resize() ==> b2.spec_histogram()->0.spec_high() == h1.spec_high()
        &&& recorded_into(h1, b2.spec_histogram()->0, hv)
    }
}

proof fn lemma_offers_after_push<H: BucketHistogram>(
    b1: ChannelBlock<H>,
    b2: ChannelBlock<H>,
    hist_frames: Seq<u64>,
    hv: u64,
    shape: HistogramShape,
)
    requires
        block_offers(b1, hist_frames, hist_frames.len(), shape),
        b1.spec_first_frame() <= hist_frames.len(),
        offered_once(b1, b2, hv),
        b2.spec_first_frame() == b1.spec_first_frame(),
    ensures
        block_offers(b2, hist_frames.push(hv), hist_frames.len() + 1, shape),
{
    let f = b1.spec_first_frame() as int;
    assert(hist_frames.push(hv).subrange(f, (hist_frames.len() + 1) as int)
        =~= hist_frames.subrange(f, hist_frames.len() as int).push(hv));
    if let Some(h1) = b1.spec_histogram() {
        let h2 = b2.spec_histogram()->0;
        lemma_counts_after_record(h1, h2, b1.spec_hist_values(), hv);
    }
}

/// Recording `hv` keeps every value counted and counts `hv` when the
/// histogram had to take it.
proof fn lemma_counts_after_record<H: BucketHistogram>(h1: H, h2: H, values: Seq<u64>, hv: u64)
    requires
        counts_values(h1, values),
        recorded_into(h1, h2, hv),
        h2.spec_auto_resize() == h1.spec_auto_resize(),
        !h1.spec_auto_resize() ==> h2.spec_high() == h1.spec_high(),
    ensures
        counts_values(h2, values.push(hv)),
{
    H::lemma_count_max();
    let vs = values.push(hv);
    assert forall|i: int| 0 <= i < vs.len() && (h2.spec_auto_resize() || vs[i] <= h2.spec_high()) implies {
        &&& #[trigger] h2.spec_bin(vs[i]) is Some
        &&& h2.spec_bin_count(h2.spec_bin(vs[i])->0) >= 1
    } by {
        if i < values.len() {
            assert(vs[i] == values[i]);
            assert(h1.spec_bin(values[i]) is Some);
            let j = h1.spec_bin(values[i])->0;
            assert(h2.spec_bin(values[i]) == h1.spec_bin(values[i]));
            assert(h2.spec_bin_count(j) >= h1.spec_bin_count(j));
        } else {
            assert(vs[i] == hv);
            if h1.spec_bin(hv) is Some {
                let j = h1.spec_bin(hv)->0;
                assert(h2.spec_bin(hv) == h1.spec_bin(hv));
                assert(h2.spec_bin_count(j) == count_up(h1.spec_bin_count(j), H::spec_count_max()));
            }
        }
    }
}

proof fn lemma_floor_monotone(a: nat, b: nat, r: nat)
    requires
        r >= 1,
        a <= b,
    ensures
        (a / r) * r <= (b / r) * r,
        (b / r) * r <= b,
{
    assert((a / r) <= (b / r)) by (nonlinear_arith)
        requires r >= 1, a <= b;
    assert((a / r) * r <= (b / r) * r) by (nonlinear_arith)
        requires (a / r) <= (b / r), r >= 1;
    assert((b / r) * r <= b) by (nonlinear_arith)
        requires r >= 1;
}

proof fn lemma_floor_step(seen: nat, r: nat)
    requires
        r >= 1,
    ensures
        (seen + 1) % r == 0 ==> ((seen / r) * r + r == seen + 1 && (seen + 1) / r == seen / r + 1),
        (seen + 1) % r != 0 ==> ((seen + 1) / r == seen / r),
        ((seen + 1) / r) * r == (if (seen + 1) % r == 0 { seen + 1 } else { (seen / r) * r }),
{
    assert(seen + 1 == ((seen + 1) / r) * r + (seen + 1) % r) by (nonlinear_arith)
        requires r >= 1;
    assert(seen == (seen / r) * r + seen % r) by (nonlinear_arith)
        requires r >= 1;
    assert(0 <= seen % r < r);
    assert(0 <= (seen + 1) % r < r);
    if (seen + 1) % r == 0 {
        assert(seen % r == r - 1) by (nonlinear_arith)
            requires
                seen + 1 == ((seen + 1) / r) * r,
                seen == (seen / r) * r + seen % r,
                0 <= seen % r < r,
                r >= 1;
        assert((seen + 1) / r == seen / r + 1) by (nonlinear_arith)
            requires
                seen + 1 == ((seen + 1) / r) * r,
                seen == (seen / r) * r + (r - 1),
                r >= 1;
    } else {
        assert(seen % r + 1 == (seen + 1) % r) by (nonlinear_arith)
            requires
                seen + 1 == ((seen + 1) / r) * r + (seen + 1) % r,
                seen == (seen / r) * r + seen % r,
                0 <= seen % r < r,
                0 < (seen + 1) % r < r,
                r >= 1;
        assert((seen + 1) / r == seen / r) by (nonlinear_arith)
            requires
                seen + 1 == ((seen + 1) / r) * r + (seen + 1) % r,
                seen == (seen / r) * r + seen % r,
                seen % r + 1 == (seen + 1) % r,
                r >= 1;
    }
}

impl<H: BucketHistogram> MetricWindow<H> {
    /// A fresh, empty bucket whose first frame is `first`; `None` when its
    /// histogram could not be made.
    fn make_block(build_histogram: bool, shape: HistogramShape, first: Ghost<nat>) -> (r: Option<ChannelBlock<H>>)
        ensures
            (!build_histogram || shape_makes(shape)) ==> r is Some,
            r matches Some(b) ==> b.spec_runner() == 0 && b.spec_sum_of_squares() == 0
                && b.spec_first_frame() == first@,
            r matches Some(b) ==> b.spec_hist_values() == Seq::<u64>::empty(),
            r matches Some(b) ==> ((shape is Bounded && b.spec_histogram() is Some) ==> {
                &&& b.spec_histogram()->0.spec_high() == shape_high(shape)
                &&& !b.spec_histogram()->0.spec_auto_resize()
            }),
    {
        if build_histogram {
            let made = match shape {
                HistogramShape::Bounded(low, high, sigfig) => H::with_bounds(low, high, sigfig),
                HistogramShape::Growing(sigfig) => H::growing(sigfig),
            };
            match made {
                Some(h) => Some(ChannelBlock { histogram: Some(h), runner: 0, sum_of_squares: 0, first_frame: first, hist_values: Ghost(Seq::empty()) }),
                None => None,
            }
        } else {
            Some(ChannelBlock { histogram: None, runner: 0, sum_of_squares: 0, first_frame: first, hist_values: Ghost(Seq::empty()) })
        }
    }

    /// A window with one empty bucket (none when its histogram could not
    /// be made) and no retired bucket.
    pub fn new(build_histogram: bool, shape: HistogramShape, refresh_frames: Ghost<nat>, window_buckets: Ghost<nat>) -> (w: Self)
        requires
            refresh_frames@ >= 1,
            window_buckets@ >= 1,
        ensures
            w.wf(refresh_frames@, window_buckets@),
            w.spec_frames() == Seq::<u128>::empty(),
            w.spec_hist_frames() == Seq::<u64>::empty(),
            w.spec_shape() == shape,
            w.spec_current() is None,
            w.spec_history().len() <= 1,
            (!build_histogram || shape_makes(shape)) ==> w.spec_history().len() == 1 && w.spec_all_made(),
            w.spec_builds_histogram() == build_histogram,
    {
        let mut history = VecDeque::new();
        let made = match Self::make_block(build_histogram, shape, Ghost(0)) {
            Some(b) => {
                history.push_back(b);
                true
            },
            None => false,
        };
        let w = MetricWindow {
            history,
            current: None,
            build_histogram,
            shape,
            frames: Ghost(Seq::empty()),
            current_end: Ghost(0),
            all_made: Ghost(made),
            hist_frames: Ghost(Seq::empty()),
        };
        proof {
            let r = refresh_frames@;
            assert((0nat / r) * r == 0) by (nonlinear_arith)
                requires r >= 1;
            assert(0nat / r + 1 == 1) by (nonlinear_arith)
                requires r >= 1;
            if made {
                assert(w.history@.len() == 1);
                assert(w.history@[0].first_frame@ == 0);
                assert(0nat % r == 0);
                assert(frames_between(Seq::<u128>::empty(), 0, 0) =~= Seq::<u128>::empty());
                assert(squares(Seq::<u128>::empty()) =~= Seq::<u128>::empty());
                assert(Seq::<u64>::empty().subrange(0, 0) =~= Seq::<u64>::empty());
            }
        }
        w
    }

    /// A window with no bucket yet: the first frame's boundary starts one.
    pub fn empty(build_histogram: bool, shape: HistogramShape, refresh_frames: Ghost<nat>, window_buckets: Ghost<nat>) -> (w: Self)
        requires
            refresh_frames@ >= 1,
            window_buckets@ >= 1,
        ensures
            w.wf(refresh_frames@, window_buckets@),
            w.spec_frames() == Seq::<u128>::empty(),
            w.spec_hist_frames() == Seq::<u64>::empty(),
            w.spec_shape() == shape,
            w.spec_current() is None,
            w.spec_history().len() == 0,
            w.spec_builds_histogram() == build_histogram,
    {
        let w = MetricWindow {
            history: VecDeque::new(),
            current: None,
            build_histogram,
            shape,
            frames: Ghost(Seq::empty()),
            current_end: Ghost(0),
            all_made: Ghost(false),
            hist_frames: Ghost(Seq::empty()),
        };
        w
    }

    /// The last bucket that left the window, if any.
    pub fn current(&self) -> (r: &Option<ChannelBlock<H>>)
        ensures
            *r == self.spec_current(),
    {
        &self.current
    }

    /// The number of buckets still filling.
    pub fn history_len(&self) -> (r: usize)
        ensures
            r == self.spec_history().len(),
    {
        self.history.len()
    }

    /// Adds `runner_value` to the sums of every bucket still filling, and
    /// gives their histograms `histogram_value` (capped at the shape's
    /// highest value when `clamp_to_high`).
    fn record_in_history(&mut self, histogram_value: u64, clamp_to_high: bool, runner_value: u64)
        requires
            clamp_to_high ==> old(self).shape is Bounded,
            forall|i: int| 0 <= i < old(self).history@.len() ==> block_offers(
                #[trigger] old(self).history@[i],
                old(self).hist_frames@,
                old(self).frames@.len(),
                old(self).shape,
            ),
        ensures
            final(self).history@.len() == old(self).history@.len(),
            final(self).frames == old(self).frames,
            final(self).current == old(self).current,
            final(self).current_end == old(self).current_end,
            final(self).all_made == old(self).all_made,
            final(self).build_histogram == old(self).build_histogram,
            final(self).shape == old(self).shape,
            final(self).hist_frames == old(self).hist_frames,
            forall|i: int| 0 <= i < old(self).history@.len() ==> recorded_once(
                old(self).history@[i],
                #[trigger] final(self).history@[i],
                runner_value as u128,
            ),
            forall|i: int| 0 <= i < old(self).history@.len() ==> offered_once(
                old(self).history@[i],
                #[trigger] final(self).history@[i],
                offered_value(old(self).shape, clamp_to_high, histogram_value),
            ),
    {
        let ghost old_h = self.history@;
        let ghost frames = self.frames@;
        let ghost seen = frames.len();
        let ghost v = runner_value as u128;
        let ghost hv = offered_value(self.shape, clamp_to_high, histogram_value);
        let ghost hist_frames = self.hist_frames@;
        proof {
            assert((runner_value as u128) * (runner_value as u128) <= u128::MAX) by (nonlinear_arith)
                requires runner_value <= u64::MAX;
        }
        let square: u128 = (runner_value as u128) * (runner_value as u128);
        let len = self.history.len();
        let mut k: usize = 0;
        while k < len
            invariant
                self.history@.len() == len,
                len == old_h.len(),
                k <= len,
                v == runner_value as u128,
                square == v * v,
                self.frames@ == frames,
                self.current == old(self).current,
                self.current_end == old(self).current_end,
                self.all_made == old(self).all_made,
                self.build_histogram == old(self).build_histogram,
                self.shape == old(self).shape,
                self.hist_frames == old(self).hist_frames,
                hist_frames == old(self).hist_frames@,
                hv == offered_value(self.shape, clamp_to_high, histogram_value),
                clamp_to_high ==> self.shape is Bounded,
                forall|i: int| 0 <= i < len ==> block_offers(#[trigger] old_h[i], hist_frames, seen, self.shape),
                forall|i: int| 0 <= i < len - k ==> #[trigger] self.history@[i] == old_h[i + k],
                forall|i: int| 0 <= i < k ==> recorded_once(old_h[i], #[trigger] self.history@[len - k + i], v),
                forall|i: int| 0 <= i < k ==> offered_once(old_h[i], #[trigger] self.history@[len - k + i], hv),
            decreases len - k,
        {
            let ghost prev = self.history@;
            let popped = self.history.pop_front();
            match popped {
                Some(block) => {
                    let ghost b_old = block;
                    proof {
                        assert(b_old == old_h[k as int]) by {
                            assert(prev[0] == old_h[0 + k]);
                        }
                        assert(block_offers(old_h[k as int], hist_frames, seen, self.shape));
                    }
                    let mut b = block;
                    match &mut b.histogram {
                        Some(h) => {
                            let value = if clamp_to_high {
                                let high = h.high();
                                if histogram_value < high { histogram_value } else { high }
                            } else {
                                histogram_value
                            };
                            proof {
                                if clamp_to_high {
                                    assert(b_old.spec_histogram() is Some);
                                    assert(h.spec_high() == shape_high(self.shape));
                                }
                                assert(value == hv);
                            }
                            h.record(value);
                        },
                        None => {},
                    }
                    b.hist_values = Ghost(b.hist_values@.push(hv));
                    b.runner = b.runner.saturating_add(runner_value as u128);
                    b.sum_of_squares = b.sum_of_squares.saturating_add(square);
                    self.history.push_back(b);
                    proof {
                        assert(b_old == old_h[k as int]) by {
                            assert(prev[0] == old_h[0 + k]);
                        }
                        assert(b.first_frame == b_old.first_frame);
                        assert(b.runner == b_old.runner.saturating_add(runner_value as u128));
                        assert(b.sum_of_squares == b_old.sum_of_squares.saturating_add(square));
                        assert(b.spec_first_frame() == b_old.spec_first_frame());
                        assert(b.spec_runner() == (if b_old.spec_runner() + v > u128::MAX { u128::MAX } else { (b_old.spec_runner() + v) as u128 }));
                        assert(square == v * v);
                        assert(b.spec_sum_of_squares() == (if b_old.spec_sum_of_squares() + v * v > u128::MAX { u128::MAX } else { (b_old.spec_sum_of_squares() + v * v) as u128 }));
                        assert(recorded_once(b_old, b, v));
                        assert(offered_once(b_old, b, hv));
                        assert forall|i: int| 0 <= i < k + 1 implies offered_once(old_h[i], #[trigger] self.history@[len - (k + 1) + i], hv) by {
                            if i < k {
                                assert(self.history@[len - (k + 1) + i] == prev[len - k + i]);
                            } else {
                                assert(self.history@[len - 1] == b);
                            }
                        }
                        assert forall|i: int| 0 <= i < len - (k + 1) implies #[trigger] self.history@[i] == old_h[i + (k + 1)] by {
                            assert(self.history@[i] == prev[i + 1]);
                            assert(prev[i + 1] == old_h[(i + 1) + k]);
                        }
                        assert forall|i: int| 0 <= i < k + 1 implies recorded_once(old_h[i], #[trigger] self.history@[len - (k + 1) + i], v) by {
                            if i < k {
                                assert(self.history@[len - (k + 1) + i] == prev[len - k + i]);
                            } else {
                                assert(self.history@[len - 1] == b);
                            }
                        }
                    }
                },
                None => {},
            }
            k += 1;
        }
        proof {
            assert forall|i: int| 0 <= i < len implies recorded_once(old_h[i], #[trigger] self.history@[i], v) by {
                assert(self.history@[len - len + i] == self.history@[i]);
            }
            assert forall|i: int| 0 <= i < len implies offered_once(old_h[i], #[trigger] self.history@[i], hv) by {
                assert(self.history@[len - len + i] == self.history@[i]);
            }
        }
    }

    /// Records one frame: `runner_value` is added (saturating) to the sums
    /// of every bucket still filling, and `histogram_value` (capped at the
    /// histogram's highest value when `clamp_to_high`) to their histograms.
    /// When `rotate`, the bucket boundary is reached: once the window holds
    /// `window_buckets` buckets the oldest leaves it and becomes the current
    /// one, and a fresh bucket starts.
    pub fn accumulate(
        &mut self,
        histogram_value: u64,
        clamp_to_high: bool,
        runner_value: u64,
        rotate: bool,
        window_buckets: usize,
        Ghost(r): Ghost<nat>,
    )
        requires
            old(self).wf(r, window_buckets as nat),
            rotate == ((old(self).spec_frames().len() + 1) % r == 0),
            clamp_to_high ==> old(self).spec_shape() is Bounded,
        ensures
            final(self).wf(r, window_buckets as nat),
            final(self).spec_frames() == old(self).spec_frames().push(runner_value as u128),
            final(self).spec_hist_frames() == old(self).spec_hist_frames().push(
                offered_value(old(self).spec_shape(), clamp_to_high, histogram_value),
            ),
            final(self).spec_shape() == old(self).spec_shape(),
            !rotate ==> final(self).spec_current() == old(self).spec_current(),
            !rotate ==> final(self).spec_history().len() == old(self).spec_history().len(),
            final(self).spec_all_made() ==> old(self).spec_all_made(),
            (!old(self).spec_builds_histogram() || shape_makes(old(self).spec_shape()))
                ==> final(self).spec_all_made() == old(self).spec_all_made(),
            final(self).spec_builds_histogram() == old(self).spec_builds_histogram(),
    {
        let ghost n = window_buckets as nat;
        let ghost old_h = self.history@;
        let ghost frames = self.frames@;
        let ghost seen = frames.len();
        let ghost v = runner_value as u128;
        let ghost hv = offered_value(self.shape, clamp_to_high, histogram_value);
        let ghost hist_frames = self.hist_frames@;
        self.record_in_history(histogram_value, clamp_to_high, runner_value);
        let len = self.history.len();
        let ghost new_frames = frames.push(v);
        self.frames = Ghost(new_frames);
        let ghost new_hist_frames = hist_frames.push(hv);
        self.hist_frames = Ghost(new_hist_frames);
        proof {
            assert forall|i: int| 0 <= i < len implies block_sums(#[trigger] self.history@[i], new_frames, seen + 1) by {
                assert(recorded_once(old_h[i], self.history@[i], v));
                assert(block_sums(old_h[i], frames, seen));
                lemma_sums_after_push(old_h[i], self.history@[i], frames, v);
            }
            assert forall|i: int| 0 <= i < len implies block_offers(#[trigger] self.history@[i], new_hist_frames, seen + 1, self.shape) by {
                assert(recorded_once(old_h[i], self.history@[i], v));
                assert(offered_once(old_h[i], self.history@[i], hv));
                assert(block_offers(old_h[i], hist_frames, seen, self.shape));
                assert(block_sums(old_h[i], frames, seen));
                lemma_offers_after_push(old_h[i], self.history@[i], hist_frames, hv, self.shape);
            }
            if self.current is Some {
                let b = self.current->0;
                assert(frames_between(new_frames, b.first_frame@, self.current_end@)
                    =~= frames_between(frames, b.first_frame@, self.current_end@));
                assert(new_hist_frames.subrange(b.first_frame@ as int, self.current_end@ as int)
                    =~= hist_frames.subrange(b.first_frame@ as int, self.current_end@ as int));
            }
            assert forall|i: int| 0 <= i < len implies #[trigger] self.history@[i].first_frame@ == old_h[i].first_frame@ by {
                assert(recorded_once(old_h[i], self.history@[i], v));
            }
            lemma_floor_step(seen, r);
            lemma_floor_monotone(seen, seen + 1, r);
        }
        if rotate {
            let ghost before_pop = self.history@;
            proof {
                if self.all_made@ && self.current is Some {
                    let b = self.current->0;
                    assert(b.first_frame@ + n * r == self.current_end@);
                    assert(seen / r >= n) by (nonlinear_arith)
                        requires
                            b.first_frame@ + n * r == (seen / r) * r,
                            r >= 1;
                    assert(before_pop.len() == n);
                }
            }
            if self.history.len() >= window_buckets {
                let oldest = self.history.pop_front();
                proof {
                    let b0 = before_pop[0];
                    let last = before_pop[before_pop.len() - 1];
                    assert(b0.first_frame@ + (before_pop.len() - 1) * r <= last.first_frame@ || before_pop.len() == 1);
                    assert(last.first_frame@ <= (seen / r) * r);
                    assert(b0.first_frame@ + before_pop.len() * r <= seen + 1) by (nonlinear_arith)
                        requires
                            b0.first_frame@ + (before_pop.len() - 1) * r <= last.first_frame@ || before_pop.len() == 1,
                            before_pop.len() == 1 ==> b0 == last,
                            last.first_frame@ <= (seen / r) * r,
                            (seen / r) * r + r == seen + 1,
                            before_pop.len() >= 1;
                    assert(n * r <= before_pop.len() * r) by (nonlinear_arith)
                        requires n <= before_pop.len();
                    if self.all_made@ {
                        assert(before_pop.len() == n);
                        assert(b0.first_frame@ + (before_pop.len() - 1 - 0) * r == (seen / r) * r);
                        assert(b0.first_frame@ + n * r == seen + 1) by (nonlinear_arith)
                            requires
                                b0.first_frame@ + (n - 1) * r == (seen / r) * r,
                                (seen / r) * r + r == seen + 1,
                                n >= 1;
                    }
                }
                self.current = oldest;
                self.current_end = Ghost(seen + 1);
            }
            let ghost after_pop = self.history@;
            match Self::make_block(self.build_histogram, self.shape, Ghost(seen + 1)) {
                Some(b) => {
                    self.history.push_back(b);
                },
                None => {
                    self.all_made = Ghost(false);
                },
            }
            proof {
                let h = self.history@;
                assert(frames_between(new_frames, seen + 1, seen + 1) =~= Seq::<u128>::empty());
                assert(new_hist_frames.subrange((seen + 1) as int, (seen + 1) as int) =~= Seq::<u64>::empty());
                assert(squares(Seq::<u128>::empty()) =~= Seq::<u128>::empty());
                assert forall|i: int, j: int| 0 <= i < j < h.len() implies
                    #[trigger] h[i].first_frame@ + (j - i) * r <= #[trigger] h[j].first_frame@ by {
                    if j == h.len() - 1 && h.len() > after_pop.len() {
                        let shift = before_pop.len() - after_pop.len();
                        let last = before_pop[before_pop.len() - 1];
                        assert(h[i] == before_pop[i + shift]);
                        if i + shift < before_pop.len() - 1 {
                            assert(before_pop[i + shift].first_frame@ + (before_pop.len() - 1 - (i + shift)) * r <= last.first_frame@);
                        }
                        assert(h[i].first_frame@ + (j - i) * r <= seen + 1) by (nonlinear_arith)
                            requires
                                i + shift < before_pop.len() - 1 ==> h[i].first_frame@ + (before_pop.len() - 1 - (i + shift)) * r <= last.first_frame@,
                                i + shift == before_pop.len() - 1 ==> h[i] == last,
                                last.first_frame@ <= (seen / r) * r,
                                (seen / r) * r + r == seen + 1,
                                j == after_pop.len(),
                                after_pop.len() + shift == before_pop.len(),
                                0 <= i < j;
                    } else {
                        let shift = before_pop.len() - after_pop.len();
                        assert(h[i] == before_pop[i + shift]);
                        assert(h[j] == before_pop[j + shift]);
                    }
                }
                if self.all_made@ {
                    assert forall|i: int| 0 <= i < h.len() implies
                        #[trigger] h[i].first_frame@ + (h.len() - 1 - i) * r == ((seen + 1) / r) * r by {
                        if i < h.len() - 1 {
                            let shift = before_pop.len() - after_pop.len();
                            assert(h[i] == before_pop[i + shift]);
                            assert(before_pop[i + shift].first_frame@ + (before_pop.len() - 1 - (i + shift)) * r == (seen / r) * r);
                            assert(h[i].first_frame@ + (h.len() - 1 - i) * r == ((seen + 1) / r) * r) by (nonlinear_arith)
                                requires
                                    before_pop[i + shift].first_frame@ + (before_pop.len() - 1 - (i + shift)) * r == (seen / r) * r,
                                    h[i] == before_pop[i + shift],
                                    h.len() == after_pop.len() + 1,
                                    after_pop.len() + shift == before_pop.len(),
                                    (seen / r) * r + r == seen + 1,
                                    ((seen + 1) / r) * r == seen + 1;
                        }
                    }
                }
            }
        }
    }
}

/// Once a bucket has left a window in which every bucket could be made,
/// it holds the sums of exactly the last `n * r` frames before the last
/// bucket boundary, and it is there as soon as that many frames were seen.
pub proof fn law_current_is_last_window<H: BucketHistogram>(w: MetricWindow<H>, r: nat, n: nat)
    requires
        w.wf(r, n),
        w.spec_all_made(),
    ensures
        (w.spec_frames().len() / r >= n) <==> w.spec_current() is Some,
        w.spec_current() matches Some(b) ==> {
            let frames = w.spec_frames();
            let end = (frames.len() / r) * r;
            let last = frames.subrange(end - n * r, end as int);
            &&& n * r <= end <= frames.len()
            &&& b.spec_runner() == saturating_sum(last)
            &&& b.spec_sum_of_squares() == saturating_sum(squares(last))
        },
{
    let frames = w.spec_frames();
    let seen = frames.len();
    if w.spec_current() is Some {
        let b = w.spec_current()->0;
        assert(b.first_frame@ + n * r == w.current_end@);
        assert(w.current_end@ == (seen / r) * r);
        assert(frames_between(frames, b.first_frame@, w.current_end@)
            =~= frames.subrange(((seen / r) * r) - n * r, ((seen / r) * r) as int));
        assert(seen / r >= n) by (nonlinear_arith)
            requires
                b.first_frame@ + n * r == (seen / r) * r,
                r >= 1;
    }
}

/// The saturating sum of values that all equal `v` is their count times
/// `v`, while that product fits in a `u128`.
pub proof fn lemma_saturating_sum_constant(s: Seq<u128>, v: u128)
    requires
        forall|i: int| 0 <= i < s.len() ==> #[trigger] s[i] == v,
        s.len() * v <= u128::MAX,
    ensures
        saturating_sum(s) == s.len() * v,
    decreases s.len(),
{
    if s.len() > 0 {
        let rest = s.drop_last();
        assert(rest.len() * v <= s.len() * v) by (nonlinear_arith)
            requires rest.len() + 1 == s.len();
        lemma_saturating_sum_constant(rest, v);
        assert(rest.len() * v + v == s.len() * v) by (nonlinear_arith)
            requires rest.len() + 1 == s.len();
    }
}

/// The squares of a constant sequence are the square of its value.
pub proof fn lemma_squares_constant(s: Seq<u128>, v: u128)
    requires
        forall|i: int| 0 <= i < s.len() ==> #[trigger] s[i] == v,
        v <= u64::MAX,
    ensures
        squares(s).len() == s.len(),
        forall|i: int| 0 <= i < s.len() ==> #[trigger] squares(s)[i] == v * v,
{
    assert(v * v <= u128::MAX) by (nonlinear_arith)
        requires v <= u64::MAX;
}

/// `2^bits` as a `u128`.
pub(crate) fn pow2_u128(bits: u8) -> (r: u128)
    requires
        bits < 128,
    ensures
        r == pow2(bits as nat),
        r >= 1,
{
    let mut value: u128 = 1;
    let mut k: u8 = 0;
    while k < bits
        invariant
            k <= bits,
            bits < 128,
            value == pow2(k as nat),
        decreases bits - k,
    {
        proof {
            crate::telemetry_window::lemma_pow2_monotone((k + 1) as nat, 127);
            lemma_pow2_127();
            assert(pow2((k + 1) as nat) == 2 * pow2(k as nat));
        }
        value = value * 2;
        k = k + 1;
    }
    proof {
        crate::telemetry_window::lemma_pow2_positive(bits as nat);
    }
    value
}

proof fn lemma_pow2_127()
    ensures
        pow2(127) == 0x8000_0000_0000_0000_0000_0000_0000_0000,
{
    crate::telemetry_window::lemma_pow2_adds(64, 63);
    crate::telemetry_window::lemma_pow2_adds(32, 32);
    crate::telemetry_window::lemma_pow2_adds(32, 31);
    crate::telemetry_window::lemma_pow2_adds(16, 16);
    crate::telemetry_window::lemma_pow2_adds(16, 15);
    crate::telemetry_window::lemma_pow2_adds(8, 8);
    crate::telemetry_window::lemma_pow2_adds(8, 7);
    assert(pow2(8) == 256) by {
        reveal_with_fuel(pow2, 9);
    }
    assert(pow2(7) == 128) by {
        reveal_with_fuel(pow2, 8);
    }
    assert(pow2(15) == pow2(8) * pow2(7));
    assert(pow2(15) == 32768);
    assert(pow2(16) == pow2(8) * pow2(8));
    assert(pow2(16) == 65536);
    assert(pow2(31) == pow2(16) * pow2(15));
    assert(65536int * 32768int == 0x8000_0000int);
    assert(pow2(31) == 0x8000_0000);
    assert(pow2(32) == pow2(16) * pow2(16));
    assert(65536int * 65536int == 0x1_0000_0000int);
    assert(pow2(32) == 0x1_0000_0000);
    assert(pow2(63) == pow2(32) * pow2(31));
    assert(0x1_0000_0000int * 0x8000_0000int == 0x8000_0000_0000_0000int);
    assert(pow2(63) == 0x8000_0000_0000_0000);
    assert(pow2(64) == pow2(32) * pow2(32));
    assert(0x1_0000_0000int * 0x1_0000_0000int == 0x1_0000_0000_0000_0000int);
    assert(pow2(64) == 0x1_0000_0000_0000_0000);
    assert(pow2(127) == pow2(64) * pow2(63));
    assert(0x1_0000_0000_0000_0000int * 0x8000_0000_0000_0000int == 0x8000_0000_0000_0000_0000_0000_0000_0000int);
}

/// The integer part of the spread of a window's values: with `runner` the
/// sum and `sum_of_squares` the sum of squares of `2^bits` values, the
/// sum of squares minus the squared sum over `2^bits`, over `2^bits`,
/// when the sum is below `2^64 - 1` and that difference is positive;
/// `None` otherwise, where the spread must be computed another way.
pub fn integer_variance(bits: u8, runner: u128, sum_of_squares: u128) -> (r: Option<u128>)
    requires
        bits < 128,
    ensures
        r == (if runner < 0xffff_ffff_ffff_ffff && sum_of_squares > (runner * runner) / (pow2(bits as nat) as int) {
            Some(((sum_of_squares - (runner * runner) / (pow2(bits as nat) as int)) / (pow2(bits as nat) as int)) as u128)
        } else {
            None::<u128>
        }),
{
    let scale = pow2_u128(bits);
    if runner < 0xffff_ffff_ffff_ffff {
        proof {
            assert(runner * runner <= u128::MAX) by (nonlinear_arith)
                requires runner < 0xffff_ffff_ffff_ffffu128;
        }
        let r2 = (runner * runner) / scale;
        if sum_of_squares > r2 {
            Some((sum_of_squares - r2) / scale)
        } else {
            None
        }
    } else {
        None
    }
}

} // verus!
