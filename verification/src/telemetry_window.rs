use vstd::prelude::*;

verus! {

/// Two to the power `n`.
pub open spec fn pow2(n: nat) -> nat
    decreases n,
{
    if n == 0 {
        1
    } else {
        2 * pow2((n - 1) as nat)
    }
}

/// `k` is the least exponent with `base * 2^k >= target`.
pub open spec fn is_least_doubling(base: nat, target: nat, k: nat) -> bool {
    &&& base * pow2(k) >= target
    &&& k == 0 || base * pow2((k - 1) as nat) < target
}

/// The refresh and window sizes, in bits, that a telemetry stream with
/// frames of `frame_rate_ms` uses for the wanted refresh and window spans:
/// the refresh is the least power of two of whole frames that covers the
/// refresh span, and the window the least power of two of refresh buckets
/// that covers the window span.
pub open spec fn refresh_window_bits(
    frame_rate_ms: nat,
    refresh_micros: nat,
    window_micros: nat,
    refresh_bits: nat,
    window_bits: nat,
) -> bool {
    if frame_rate_ms == 0 {
        refresh_bits == 0 && window_bits == 0
    } else {
        &&& is_least_doubling(1, refresh_micros / (1000 * frame_rate_ms), refresh_bits)
        &&& is_least_doubling(1000 * pow2(refresh_bits) * frame_rate_ms, window_micros, window_bits)
    }
}

pub(crate) proof fn lemma_pow2_positive(n: nat)
    ensures
        pow2(n) >= 1,
    decreases n,
{
    if n > 0 {
        lemma_pow2_positive((n - 1) as nat);
    }
}

/// Least `k` with `base * 2^k >= target`, together with `base * 2^k`.
fn least_doubling(base: u128, target: u128) -> (r: (u8, u128))
    requires
        base >= 1,
        base < 0x1000000000000000000000000000000,
        target < 0x1000000000000000000000000000000,
    ensures
        is_least_doubling(base as nat, target as nat, r.0 as nat),
        r.1 == base * pow2(r.0 as nat),
        r.1 < 2 * 0x1000000000000000000000000000000,
{
    let mut k: u8 = 0;
    let mut value: u128 = base;
    assert(pow2(0) == 1);
    while value < target
        invariant
            base >= 1,
            value >= base,
            value == base * pow2(k as nat),
            k == 0 || base * pow2((k - 1) as nat) < target,
            value < 2 * 0x1000000000000000000000000000000,
            target < 0x1000000000000000000000000000000,
            k <= 120,
        decreases 120 - k,
    {
        proof {
            lemma_pow2_positive(k as nat);
            assert(base * pow2(k as nat) >= pow2(k as nat)) by (nonlinear_arith)
                requires base >= 1;
            assert(pow2((k + 1) as nat) == 2 * pow2(k as nat));
            assert(base * pow2((k + 1) as nat) == 2 * (base * pow2(k as nat))) by (nonlinear_arith)
                requires pow2((k + 1) as nat) == 2 * pow2(k as nat);
            if k >= 120 {
                lemma_pow2_ge_120(k as nat);
                assert(base * pow2(k as nat) >= pow2(k as nat)) by (nonlinear_arith)
                    requires base >= 1;
                assert(false);
            }
        }
        value = value * 2;
        k = k + 1;
    }
    (k, value)
}

pub(crate) proof fn lemma_pow2_monotone(a: nat, b: nat)
    requires
        a <= b,
    ensures
        pow2(a) <= pow2(b),
    decreases b - a,
{
    if a < b {
        lemma_pow2_monotone(a, (b - 1) as nat);
        lemma_pow2_positive((b - 1) as nat);
    }
}

proof fn lemma_pow2_ge_120(k: nat)
    requires
        k >= 120,
    ensures
        pow2(k) >= 0x1000000000000000000000000000000,
{
    lemma_pow2_monotone(120, k);
    assert(pow2(15) == 32768) by {
        reveal_with_fuel(pow2, 16);
    }
    lemma_pow2_adds(15, 15);
    assert(pow2(30) == 0x4000_0000);
    lemma_pow2_adds(30, 30);
    assert(pow2(60) == 0x1000_0000_0000_0000);
    lemma_pow2_adds(60, 60);
    assert(pow2(120) == 0x1000000000000000000000000000000);
}

pub(crate) proof fn lemma_pow2_adds(a: nat, b: nat)
    ensures
        pow2(a + b) == pow2(a) * pow2(b),
    decreases b,
{
    if b == 0 {
        assert(pow2(0) == 1);
        assert(a + b == a);
    } else {
        lemma_pow2_adds(a, (b - 1) as nat);
        assert(a + ((b - 1) as nat) == (a + b - 1) as nat);
        assert(pow2(a + b) == 2 * pow2((a + b - 1) as nat));
        assert(pow2(a) * pow2(b) == pow2(a) * (2 * pow2((b - 1) as nat)));
        assert(pow2(a) * (2 * pow2((b - 1) as nat)) == 2 * (pow2(a) * pow2((b - 1) as nat))) by (nonlinear_arith);
    }
}

/// Computes `(refresh_in_bits, window_in_bits)` for a telemetry stream with
/// frames of `frame_rate_ms`, a wanted refresh span and a wanted window span
/// (both in microseconds). A zero frame rate turns both off.
pub fn internal_compute_refresh_window(
    frame_rate_ms: u128,
    refresh_micros: u128,
    window_micros: u128,
) -> (r: (u8, u8))
    requires
        frame_rate_ms <= u64::MAX,
        refresh_micros < 0x10000000000000000000000000,
        window_micros < 0x10000000000000000000000000,
    ensures
        refresh_window_bits(
            frame_rate_ms as nat,
            refresh_micros as nat,
            window_micros as nat,
            r.0 as nat,
            r.1 as nat,
        ),
{
    if frame_rate_ms > 0 {
        let frames_per_refresh = refresh_micros / (1000u128 * frame_rate_ms);
        let (refresh_in_bits, frames_rounded) = least_doubling(1, frames_per_refresh);
        proof {
            assert(frames_per_refresh <= refresh_micros) by (nonlinear_arith)
                requires frame_rate_ms >= 1, frames_per_refresh as int == refresh_micros as int / (1000 * frame_rate_ms as int);
            if refresh_in_bits > 0 {
                assert(frames_rounded == 2 * pow2((refresh_in_bits - 1) as nat));
            }
            assert(frames_rounded <= 2 * frames_per_refresh || frames_rounded == 1);
            assert(frames_rounded * (1000 * frame_rate_ms as int) <= 2 * refresh_micros || frames_rounded == 1) by (nonlinear_arith)
                requires
                    frames_rounded <= 2 * frames_per_refresh || frames_rounded == 1,
                    frames_per_refresh as int == refresh_micros as int / (1000 * frame_rate_ms as int),
                    frame_rate_ms >= 1;
            assert(frames_rounded * (1000 * frame_rate_ms as int) < 0x1000000000000000000000000000000) by (nonlinear_arith)
                requires
                    frames_rounded * (1000 * frame_rate_ms as int) <= 2 * refresh_micros || frames_rounded == 1,
                    refresh_micros < 0x10000000000000000000000000,
                    frame_rate_ms <= u64::MAX;
            assert(1000 * pow2(refresh_in_bits as nat) * frame_rate_ms == frames_rounded * (1000 * frame_rate_ms as int)) by (nonlinear_arith)
                requires frames_rounded == pow2(refresh_in_bits as nat);
            assert(frames_rounded * (1000 * frame_rate_ms as int) >= 1) by (nonlinear_arith)
                requires frames_rounded >= 1, frame_rate_ms >= 1;
        }
        let refresh_in_micros = frames_rounded * (1000u128 * frame_rate_ms);
        let (window_in_bits, _) = least_doubling(refresh_in_micros, window_micros);
        (refresh_in_bits, window_in_bits)
    } else {
        (0, 0)
    }
}

/// `2^bits` as a `usize`.
pub fn pow2_usize(bits: u8) -> (r: usize)
    requires
        pow2(bits as nat) <= usize::MAX,
    ensures
        r == pow2(bits as nat),
        r >= 1,
{
    let mut value: usize = 1;
    let mut k: u8 = 0;
    while k < bits
        invariant
            k <= bits,
            value == pow2(k as nat),
            pow2(bits as nat) <= usize::MAX,
        decreases bits - k,
    {
        proof {
            lemma_pow2_monotone((k + 1) as nat, bits as nat);
        }
        value = value * 2;
        k = k + 1;
    }
    proof {
        lemma_pow2_positive(bits as nat);
    }
    value
}

} // verus!
