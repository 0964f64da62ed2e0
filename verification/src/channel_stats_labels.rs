use vstd::prelude::*;
use crate::actor_stats::ActorStatsComputer;
use crate::channel_stats::ChannelStatsComputer;
use crate::telemetry_window::pow2;
use crate::rolling_window::{BucketHistogram, ChannelBlock};

verus! {

/// The character for decimal digit `d`.
pub open spec fn digit_char(d: nat) -> char {
    (d + 48) as char
}

/// The decimal representation of `n`, without sign or leading zeros.
pub open spec fn decimal(n: nat) -> Seq<char>
    decreases n,
{
    if n < 10 {
        seq![digit_char(n)]
    } else {
        decimal(n / 10).push(digit_char(n % 10))
    }
}

/// Whether `c` is an ASCII decimal digit.
pub open spec fn is_digit(c: char) -> bool {
    '0' <= c <= '9'
}

/// `n` rendered as decimal digits (formatted by `itoa`).
#[verifier::external_body]
pub(crate) fn decimal_string(n: u128) -> (s: String)
    ensures
        s@ == decimal(n as nat),
{
    itoa::Buffer::new().format(n).to_string()
}

/// Appends `c` to `target`.
#[verifier::external_body]
pub(crate) fn push_char(target: &mut String, c: char)
    ensures
        final(target)@ == old(target)@.push(c),
{
    target.push(c)
}

/// The decimal representation is non-empty and made of digits only.
pub proof fn lemma_decimal_digits(n: nat)
    ensures
        decimal(n).len() >= 1,
        forall|i: int| 0 <= i < decimal(n).len() ==> is_digit(#[trigger] decimal(n)[i]),
    decreases n,
{
    if n >= 10 {
        lemma_decimal_digits(n / 10);
        let d = decimal(n / 10);
        assert forall|i: int| 0 <= i < decimal(n).len() implies is_digit(#[trigger] decimal(n)[i]) by {
            if i < d.len() {
                assert(decimal(n)[i] == d[i]);
            }
        }
    }
}

/// A number shortened to its leading digits with a K, M, B or T suffix
/// (thousands, millions, billions, trillions), dropping the lower digits.
pub open spec fn compressed(val: nat) -> Seq<char> {
    if val >= 1_000_000_000_000 {
        decimal(val / 1_000_000_000_000).push('T')
    } else if val >= 1_000_000_000 {
        decimal(val / 1_000_000_000).push('B')
    } else if val >= 1_000_000 {
        decimal(val / 1_000_000).push('M')
    } else if val >= 1_000 {
        decimal(val / 1_000).push('K')
    } else {
        decimal(val)
    }
}

/// A byte count shortened to its leading digits with a TB, GB, MB or KB
/// unit, or the plain count with a B unit below a thousand.
pub open spec fn memory_bytes(val: nat) -> Seq<char> {
    if val >= 1_000_000_000_000 {
        decimal(val / 1_000_000_000_000) + seq!['T', 'B']
    } else if val >= 1_000_000_000 {
        decimal(val / 1_000_000_000) + seq!['G', 'B']
    } else if val >= 1_000_000 {
        decimal(val / 1_000_000) + seq!['M', 'B']
    } else if val >= 1_000 {
        decimal(val / 1_000) + seq!['K', 'B']
    } else {
        decimal(val).push('B')
    }
}

/// A compressed number is digits, ending either in a digit or in one of
/// the suffixes K, M, B or T.
pub proof fn law_compressed_suffix(val: nat)
    ensures
        compressed(val).len() >= 1,
        forall|i: int| 0 <= i < compressed(val).len() - 1 ==> is_digit(#[trigger] compressed(val)[i]),
        ({
            let last = compressed(val).last();
            is_digit(last) || last == 'K' || last == 'M' || last == 'B' || last == 'T'
        }),
{
    let lead = if val >= 1_000_000_000_000 {
        val / 1_000_000_000_000
    } else if val >= 1_000_000_000 {
        val / 1_000_000_000
    } else if val >= 1_000_000 {
        val / 1_000_000
    } else if val >= 1_000 {
        val / 1_000
    } else {
        val
    };
    lemma_decimal_digits(lead);
    let d = decimal(lead);
    let s = compressed(val);
    assert forall|i: int| 0 <= i < s.len() - 1 implies is_digit(#[trigger] s[i]) by {
        assert(s[i] == d[i]);
    }
    if val < 1_000 {
        assert(s.last() == d[d.len() - 1]);
    }
}

/// A memory size never shows two `B` characters in a row: its digits are
/// followed by a single unit.
pub proof fn law_memory_bytes_no_double_b(val: nat)
    ensures
        forall|i: int| 0 <= i < memory_bytes(val).len() - 1 ==>
            !(#[trigger] memory_bytes(val)[i] == 'B' && memory_bytes(val)[i + 1] == 'B'),
{
    let lead = if val >= 1_000_000_000_000 {
        val / 1_000_000_000_000
    } else if val >= 1_000_000_000 {
        val / 1_000_000_000
    } else if val >= 1_000_000 {
        val / 1_000_000
    } else if val >= 1_000 {
        val / 1_000
    } else {
        val
    };
    lemma_decimal_digits(lead);
    let d = decimal(lead);
    let s = memory_bytes(val);
    assert forall|i: int| 0 <= i < s.len() - 1 implies !(#[trigger] s[i] == 'B' && s[i + 1] == 'B') by {
        if i < d.len() {
            assert(s[i] == d[i]);
            assert(is_digit(d[i]));
        } else {
            assert(i == d.len());
            assert(s[i] != 'B');
        }
    }
}

/// `10^k`.
pub open spec fn ten_pow(k: nat) -> nat
    decreases k,
{
    if k == 0 {
        1
    } else {
        10 * ten_pow((k - 1) as nat)
    }
}

proof fn lemma_ten_pow_positive(k: nat)
    ensures
        ten_pow(k) >= 1,
    decreases k,
{
    if k > 0 {
        lemma_ten_pow_positive((k - 1) as nat);
    }
}

/// Dropping the last `k` digits of `n` gives the digits of `n / 10^k`.
pub proof fn lemma_decimal_prefix(n: nat, k: nat)
    requires
        n >= ten_pow(k),
    ensures
        decimal(n).len() >= k + 1,
        decimal(n / ten_pow(k)) == decimal(n).subrange(0, decimal(n).len() - k),
    decreases k,
{
    lemma_decimal_digits(n);
    if k == 0 {
        assert(decimal(n).subrange(0, decimal(n).len() as int) =~= decimal(n));
    } else {
        let t = ten_pow((k - 1) as nat);
        lemma_ten_pow_positive((k - 1) as nat);
        assert(n >= 10);
        assert(n / 10 >= t) by (nonlinear_arith)
            requires n >= 10 * t, t >= 1;
        lemma_decimal_prefix(n / 10, (k - 1) as nat);
        vstd::arithmetic::div_mod::lemma_div_denominator(n as int, 10, t as int);
        assert(n / ten_pow(k) == (n / 10) / t);
        let d = decimal(n / 10);
        assert(decimal(n) == d.push(digit_char(n % 10)));
        assert(decimal(n).subrange(0, decimal(n).len() - k) =~= d.subrange(0, d.len() - (k - 1)));
    }
}

/// A compressed number shows the leading digits of the number itself:
/// below a thousand all of them; otherwise all but the last 3, 6, 9 or 12,
/// followed by `K`, `M`, `B` or `T` for thousands, millions, billions or
/// trillions.
pub proof fn law_compressed_leading_digits(val: nat)
    ensures
        val < 1_000 ==> compressed(val) == decimal(val),
        1_000 <= val < 1_000_000 ==>
            compressed(val) == decimal(val).subrange(0, decimal(val).len() - 3).push('K'),
        1_000_000 <= val < 1_000_000_000 ==>
            compressed(val) == decimal(val).subrange(0, decimal(val).len() - 6).push('M'),
        1_000_000_000 <= val < 1_000_000_000_000 ==>
            compressed(val) == decimal(val).subrange(0, decimal(val).len() - 9).push('B'),
        1_000_000_000_000 <= val ==>
            compressed(val) == decimal(val).subrange(0, decimal(val).len() - 12).push('T'),
{
    reveal_with_fuel(ten_pow, 13);
    assert(ten_pow(3) == 1_000);
    assert(ten_pow(6) == 1_000_000);
    assert(ten_pow(9) == 1_000_000_000);
    assert(ten_pow(12) == 1_000_000_000_000);
    if val >= 1_000_000_000_000 {
        lemma_decimal_prefix(val, 12);
    } else if val >= 1_000_000_000 {
        lemma_decimal_prefix(val, 9);
    } else if val >= 1_000_000 {
        lemma_decimal_prefix(val, 6);
    } else if val >= 1_000 {
        lemma_decimal_prefix(val, 3);
    }
}

/// A memory size shows the leading digits of the byte count itself: below
/// a thousand all of them with `B`; otherwise all but the last 3, 6, 9 or 12,
/// followed by `KB`, `MB`, `GB` or `TB`.
pub proof fn law_memory_bytes_leading_digits(val: nat)
    ensures
        val < 1_000 ==> memory_bytes(val) == decimal(val).push('B'),
        1_000 <= val < 1_000_000 ==>
            memory_bytes(val) == decimal(val).subrange(0, decimal(val).len() - 3) + "KB"@,
        1_000_000 <= val < 1_000_000_000 ==>
            memory_bytes(val) == decimal(val).subrange(0, decimal(val).len() - 6) + "MB"@,
        1_000_000_000 <= val < 1_000_000_000_000 ==>
            memory_bytes(val) == decimal(val).subrange(0, decimal(val).len() - 9) + "GB"@,
        1_000_000_000_000 <= val ==>
            memory_bytes(val) == decimal(val).subrange(0, decimal(val).len() - 12) + "TB"@,
{
    reveal_with_fuel(ten_pow, 13);
    assert(ten_pow(3) == 1_000);
    assert(ten_pow(6) == 1_000_000);
    assert(ten_pow(9) == 1_000_000_000);
    assert(ten_pow(12) == 1_000_000_000_000);
    reveal_strlit("KB");
    reveal_strlit("MB");
    reveal_strlit("GB");
    reveal_strlit("TB");
    assert("KB"@ =~= seq!['K', 'B']);
    assert("MB"@ =~= seq!['M', 'B']);
    assert("GB"@ =~= seq!['G', 'B']);
    assert("TB"@ =~= seq!['T', 'B']);
    if val >= 1_000_000_000_000 {
        lemma_decimal_prefix(val, 12);
    } else if val >= 1_000_000_000 {
        lemma_decimal_prefix(val, 9);
    } else if val >= 1_000_000 {
        lemma_decimal_prefix(val, 6);
    } else if val >= 1_000 {
        lemma_decimal_prefix(val, 3);
    }
}

/// Appends `val` in compressed form (see [`compressed`]).
pub fn format_compressed_u128(val: u128, target: &mut String)
    ensures
        final(target)@ == old(target)@ + compressed(val as nat),
{
    let (lead, suffix) = if val >= 1_000_000_000_000 {
        (val / 1_000_000_000_000, 'T')
    } else if val >= 1_000_000_000 {
        (val / 1_000_000_000, 'B')
    } else if val >= 1_000_000 {
        (val / 1_000_000, 'M')
    } else if val >= 1_000 {
        (val / 1_000, 'K')
    } else {
        (val, ' ')
    };
    let digits = decimal_string(lead);
    target.append(digits.as_str());
    if val >= 1_000 {
        push_char(target, suffix);
    }
}

/// Appends a byte count in memory units (see [`memory_bytes`]); the unit is
/// never a doubled `B`.
pub fn format_memory_bytes_u128(val: u128, target: &mut String)
    ensures
        final(target)@ == old(target)@ + memory_bytes(val as nat),
{
    let (lead, prefix) = if val >= 1_000_000_000_000 {
        (val / 1_000_000_000_000, 'T')
    } else if val >= 1_000_000_000 {
        (val / 1_000_000_000, 'G')
    } else if val >= 1_000_000 {
        (val / 1_000_000, 'M')
    } else if val >= 1_000 {
        (val / 1_000, 'K')
    } else {
        (val, ' ')
    };
    let digits = decimal_string(lead);
    target.append(digits.as_str());
    if val >= 1_000 {
        push_char(target, prefix);
    }
    push_char(target, 'B');
}

/// The characters of `" ring"`.
pub open spec fn ring_word() -> Seq<char> {
    seq![' ', 'r', 'i', 'n', 'g']
}

/// The characters of `" + "`.
pub open spec fn plus_word() -> Seq<char> {
    seq![' ', '+', ' ']
}

/// The characters of `" dyn"`.
pub open spec fn dyn_word() -> Seq<char> {
    seq![' ', 'd', 'y', 'n']
}

/// `"<ring> ring"`, followed by `" + <dyn> dyn"` when there is dynamic memory.
pub open spec fn ring_dyn(ring: nat, dyn_bytes: nat) -> Seq<char> {
    memory_bytes(ring) + ring_word() + if dyn_bytes > 0 {
        plus_word() + memory_bytes(dyn_bytes) + dyn_word()
    } else {
        Seq::<char>::empty()
    }
}

fn push_ring_dyn(ring: u128, dyn_bytes: u128, target: &mut String)
    ensures
        final(target)@ == old(target)@ + ring_dyn(ring as nat, dyn_bytes as nat),
{
    format_memory_bytes_u128(ring, target);
    push_char(target, ' ');
    push_char(target, 'r');
    push_char(target, 'i');
    push_char(target, 'n');
    push_char(target, 'g');
    let ghost after_ring = target@;
    if dyn_bytes > 0 {
        push_char(target, ' ');
        push_char(target, '+');
        push_char(target, ' ');
        format_memory_bytes_u128(dyn_bytes, target);
        push_char(target, ' ');
        push_char(target, 'd');
        push_char(target, 'y');
        push_char(target, 'n');
        assert(target@ == after_ring + (plus_word() + memory_bytes(dyn_bytes as nat) + dyn_word()));
    } else {
        assert(target@ == after_ring + Seq::<char>::empty());
    }
    assert(after_ring == old(target)@ + memory_bytes(ring as nat) + ring_word());
}

/// Appends a compact memory header: `(<ring> ring)` or
/// `(<ring> ring + <dyn> dyn)` when there is dynamic memory.
pub fn format_memory_ring_dyn(ring: u128, dyn_bytes: u128, target: &mut String)
    ensures
        final(target)@ == old(target)@ + seq!['('] + ring_dyn(ring as nat, dyn_bytes as nat) + seq![')'],
{
    push_char(target, '(');
    push_ring_dyn(ring, dyn_bytes, target);
    push_char(target, ')');
}

/// Appends `prefix` followed by the ring and dynamic memory sizes.
pub fn format_memory_ring_dyn_prefixed(prefix: &str, ring: u128, dyn_bytes: u128, target: &mut String)
    ensures
        final(target)@ == old(target)@ + prefix@ + ring_dyn(ring as nat, dyn_bytes as nat),
{
    target.append(prefix);
    push_ring_dyn(ring, dyn_bytes, target);
}

/// Names and display settings of one telemetry value.
#[derive(Copy, Clone)]
pub struct ComputeLabelsLabels<'a> {
    /// The name of the value, such as `rate` or `filled`.
    pub label: &'a str,
    /// The unit shown after the value.
    pub unit: &'a str,
    /// Labels for the metrics endpoint.
    pub _prometheus_labels: &'a str,
    /// Whether the value is shown as a zero-padded integer.
    pub int_only: bool,
    /// The width that integer values are zero-padded to.
    pub fixed_digits: usize,
}

/// Appends the display prefix of a value: `telemetry_name` then the label.
/// The metrics name must be non-empty and shorter than 96 bytes.
pub fn format_label_prefix(
    labels: ComputeLabelsLabels,
    _metric_target: &mut String,
    label_target: &mut String,
    telemetry_name: &str,
    prometheus_name: &str,
)
    requires
        0 < prometheus_name.len() < 96,
    ensures
        final(label_target)@ == old(label_target)@ + telemetry_name@ + labels.label@,
        final(_metric_target)@ == old(_metric_target)@,
{
    label_target.append(telemetry_name);
    label_target.append(labels.label);
}

/// `n` zero characters.
pub open spec fn zeros(n: nat) -> Seq<char> {
    Seq::new(n, |i: int| '0')
}

/// The display text of an integer value: `": "`, the value (zero-padded to
/// `fixed_digits` when `int_only`, compressed otherwise), a space, the unit
/// and a newline.
pub open spec fn integral_value_text(int_only: bool, fixed_digits: nat, unit: Seq<char>, value: nat) -> Seq<char> {
    let shown = if int_only {
        let digits = decimal(value);
        let pad = if fixed_digits > digits.len() { (fixed_digits - digits.len()) as nat } else { 0 };
        zeros(pad) + digits
    } else {
        compressed(value)
    };
    seq![':', ' '] + shown + seq![' '] + unit + seq!['\n']
}

/// Appends an integer telemetry value with its unit (see
/// [`integral_value_text`]).
pub fn format_integral_value(labels: ComputeLabelsLabels, label_target: &mut String, int_value: u128)
    ensures
        final(label_target)@ == old(label_target)@
            + integral_value_text(labels.int_only, labels.fixed_digits as nat, labels.unit@, int_value as nat),
{
    push_char(label_target, ':');
    push_char(label_target, ' ');
    let ghost before_value = label_target@;
    if labels.int_only {
        let digits = decimal_string(int_value);
        let int_len = digits.as_str().unicode_len();
        let pad = if labels.fixed_digits > int_len { labels.fixed_digits - int_len } else { 0 };
        let mut i: usize = 0;
        while i < pad
            invariant
                i <= pad,
                label_target@ == before_value + zeros(i as nat),
            decreases pad - i,
        {
            push_char(label_target, '0');
            proof {
                assert(zeros(i as nat).push('0') =~= zeros((i + 1) as nat));
            }
            i += 1;
        }
        label_target.append(digits.as_str());
    } else {
        format_compressed_u128(int_value, label_target);
    }
    push_char(label_target, ' ');
    label_target.append(labels.unit);
    push_char(label_target, '\n');
    proof {
        assert(label_target@ =~= old(label_target)@
            + integral_value_text(labels.int_only, labels.fixed_digits as nat, labels.unit@, int_value as nat));
    }
}

/// How the values of one telemetry window are shown: the frame length, the
/// scale of the average (`runner_adjust`) and of the histogram's extremes
/// (`block_adjust`), the cap on the extremes, the window's size in bits, and
/// which of the average, minimum and maximum are shown.
#[derive(Copy, Clone)]
pub struct ComputeLabelsConfig {
    pub frame_rate_ms: u64,
    pub runner_adjust: (u64, u64),
    pub block_adjust: (u64, u64),
    pub max_value: u64,
    pub window_in_bits: u8,
    pub show_avg: bool,
    pub show_min: bool,
    pub show_max: bool,
}

impl ComputeLabelsConfig {
    /// The display settings of a value of channel `that`.
    pub fn channel_config(
        that: &ChannelStatsComputer,
        runner_adjust: (u64, u64),
        block_adjust: (u64, u64),
        max_value: u64,
        show_avg: bool,
        show_min: bool,
        show_max: bool,
    ) -> (r: Self)
        requires
            that.spec_bits().0 + that.spec_bits().1 <= u8::MAX,
        ensures
            r.frame_rate_ms == that.spec_frame_rate_ms(),
            r.window_in_bits == that.spec_bits().0 + that.spec_bits().1,
            r.runner_adjust == runner_adjust,
            r.block_adjust == block_adjust,
            r.max_value == max_value,
            (r.show_avg, r.show_min, r.show_max) == (show_avg, show_min, show_max),
    {
        let (refresh, window) = that.refresh_window_bits();
        ComputeLabelsConfig {
            frame_rate_ms: that.frame_rate_ms(),
            runner_adjust,
            block_adjust,
            max_value,
            window_in_bits: window + refresh,
            show_avg,
            show_min,
            show_max,
        }
    }

    /// The display settings of a value of actor `that`.
    pub fn actor_config(
        that: &ActorStatsComputer,
        runner_adjust: (u64, u64),
        block_adjust: (u64, u64),
        max_value: u64,
        show_avg: bool,
        show_min: bool,
        show_max: bool,
    ) -> (r: Self)
        requires
            that.spec_bits().0 + that.spec_bits().1 <= u8::MAX,
        ensures
            r.frame_rate_ms == that.spec_frame_rate_ms(),
            r.window_in_bits == that.spec_bits().0 + that.spec_bits().1,
            r.runner_adjust == runner_adjust,
            r.block_adjust == block_adjust,
            r.max_value == max_value,
            (r.show_avg, r.show_min, r.show_max) == (show_avg, show_min, show_max),
    {
        let (refresh, window) = that.refresh_window_bits();
        ComputeLabelsConfig {
            frame_rate_ms: that.frame_rate_ms(),
            runner_adjust,
            block_adjust,
            max_value,
            window_in_bits: window + refresh,
            show_avg,
            show_min,
            show_max,
        }
    }

    /// The average shown for a window whose running sum is `runner`: the
    /// scaled sum `runner_adjust.0 * runner / 2^window_in_bits` (rounded
    /// down), and that over `runner_adjust.1` as a whole number.
    pub fn average_parts(&self, runner: u128) -> (r: (u128, u128))
        requires
            self.runner_adjust.1 > 0,
            self.window_in_bits < 128,
            self.runner_adjust.0 * runner <= u128::MAX,
        ensures
            r.0 == (self.runner_adjust.0 * runner) / (pow2(self.window_in_bits as nat) as int),
            r.1 == (r.0 as int) / (self.runner_adjust.1 as int),
    {
        let scale = crate::rolling_window::pow2_u128(self.window_in_bits);
        let numerator = (self.runner_adjust.0 as u128 * runner) / scale;
        (numerator, numerator / (self.runner_adjust.1 as u128))
    }

    /// An extreme (minimum or maximum) read from a window's histogram, as
    /// shown: capped at `max_value`, then scaled by `block_adjust`.
    pub fn extreme_value(&self, raw: u64) -> (r: u128)
        requires
            self.block_adjust.1 > 0,
        ensures
            r == (self.block_adjust.0 * (if raw < self.max_value { raw } else { self.max_value })) / (self.block_adjust.1 as int),
    {
        let capped = if raw < self.max_value { raw } else { self.max_value };
        proof {
            assert(self.block_adjust.0 * capped <= u128::MAX) by (nonlinear_arith)
                requires self.block_adjust.0 <= u64::MAX, capped <= u64::MAX;
        }
        (self.block_adjust.0 as u128 * capped as u128) / (self.block_adjust.1 as u128)
    }
}

/// Appends the line showing a window's minimum (or maximum, when `is_max`)
/// read from its histogram as `raw`: `"Min "` or `"Max "`, the value's
/// name, then the value as `extreme_value` shows it.
pub fn format_extreme_label(
    config: &ComputeLabelsConfig,
    labels: ComputeLabelsLabels,
    raw: u64,
    is_max: bool,
    metric_target: &mut String,
    label_target: &mut String,
)
    requires
        config.block_adjust.1 > 0,
    ensures
        final(metric_target)@ == old(metric_target)@,
        final(label_target)@ == old(label_target)@
            + (if is_max { "Max "@ } else { "Min "@ })
            + labels.label@
            + integral_value_text(
                labels.int_only,
                labels.fixed_digits as nat,
                labels.unit@,
                ((config.block_adjust.0 * (if raw < config.max_value { raw } else { config.max_value })) / (config.block_adjust.1 as int)) as nat,
            ),
{
    let value = config.extreme_value(raw);
    proof {
        reveal_strlit("max_");
        reveal_strlit("min_");
        assert(vstd::string::is_ascii("max_"));
        assert(vstd::string::is_ascii("min_"));
        vstd::string::is_ascii_spec_bytes("max_");
        vstd::string::is_ascii_spec_bytes("min_");
    }
    if is_max {
        format_label_prefix(labels, metric_target, label_target, "Max ", "max_");
    } else {
        format_label_prefix(labels, metric_target, label_target, "Min ", "min_");
    }
    format_integral_value(labels, label_target, value);
}

/// The line `format_extreme_label` appends for the extreme `raw`.
pub open spec fn extreme_line(config: ComputeLabelsConfig, labels: ComputeLabelsLabels, raw: u64, is_max: bool) -> Seq<char> {
    (if is_max { "Max "@ } else { "Min "@ })
        + labels.label@
        + integral_value_text(
            labels.int_only,
            labels.fixed_digits as nat,
            labels.unit@,
            ((config.block_adjust.0 * (if raw < config.max_value { raw } else { config.max_value })) / (config.block_adjust.1 as int)) as nat,
        )
}

/// The minimum and maximum lines of a completed window, as `config` asks,
/// read from the histogram `h`.
pub open spec fn extreme_lines<H: BucketHistogram>(config: ComputeLabelsConfig, labels: ComputeLabelsLabels, h: H) -> Seq<char> {
    (if config.show_min { extreme_line(config, labels, h.spec_min(), false) } else { Seq::empty() })
        + (if config.show_max { extreme_line(config, labels, h.spec_max(), true) } else { Seq::empty() })
}

/// Appends the minimum and maximum lines of a completed window, as
/// `config` asks, read from `block`'s histogram; nothing when the block
/// keeps none.
pub fn push_extreme_labels<H: BucketHistogram>(
    config: &ComputeLabelsConfig,
    labels: ComputeLabelsLabels,
    block: &ChannelBlock<H>,
    metric_target: &mut String,
    label_target: &mut String,
)
    requires
        config.block_adjust.1 > 0,
    ensures
        final(metric_target)@ == old(metric_target)@,
        final(label_target)@ == old(label_target)@ + match block.spec_histogram() {
            Some(h) => extreme_lines(*config, labels, h),
            None => Seq::<char>::empty(),
        },
{
    let ghost start = label_target@;
    match block.histogram() {
        Some(h) => {
            if config.show_min {
                format_extreme_label(config, labels, h.min(), false, metric_target, label_target);
            }
            let ghost mid = label_target@;
            if config.show_max {
                format_extreme_label(config, labels, h.max(), true, metric_target, label_target);
            }
            proof {
                let lo: Seq<char> = if config.show_min { extreme_line(*config, labels, h.spec_min(), false) } else { Seq::empty() };
                let hi: Seq<char> = if config.show_max { extreme_line(*config, labels, h.spec_max(), true) } else { Seq::empty() };
                assert(mid =~= start + lo);
                assert(label_target@ =~= mid + hi);
                assert(label_target@ =~= start + (lo + hi));
            }
        },
        None => {
            assert(label_target@ =~= start + Seq::<char>::empty());
        },
    }
}

} // verus!
