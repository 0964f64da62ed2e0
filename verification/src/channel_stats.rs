use vstd::prelude::*;
use vstd::string::StringExecFns;
use std::cmp::Ordering;
use crate::channel_units::{Rate, Filled};
use crate::rolling_window::{ChannelBlock, MetricWindow, Histogram64, HistogramShape, shape_high, shape_makes, offered_value, runner_of, squares_of, squares, saturating_sum, law_current_is_last_window, lemma_saturating_sum_constant, lemma_squares_constant};
use crate::stats_compare::{orders, order_u128, is_less, is_greater, mul_fits, widen, avg_rational, avg_below, avg_above};
use crate::telemetry_window::{pow2, pow2_usize};
use crate::channel_stats_labels::{decimal, decimal_string, compressed, format_compressed_u128};

verus! {

/// Fixed-point scale of the running sums: each filled or rate sample is
/// recorded as a thousand times its value.
pub const PLACES_TENS: u64 = 1000;

/// Telemetry samples gathered in one frame.
pub const TELEMETRY_SAMPLES_PER_FRAME: u64 = 32;

/// The name of an actor, with an optional numeric suffix.
#[derive(Clone, Debug)]
pub struct ActorName {
    pub name: String,
    pub suffix: Option<usize>,
}

/// Severity of an alert raised by a trigger.
#[derive(Clone, Copy, Debug, PartialEq, Eq, Structural)]
pub enum AlertColor {
    Yellow,
    Orange,
    Red,
}

/// A rule on the average of a measured value over the window.
#[derive(Clone, Copy, Debug, PartialEq, Eq, Structural)]
pub enum Trigger<T> {
    /// Fires when the average is above the bound.
    AvgAbove(T),
    /// Fires when the average is below the bound.
    AvgBelow(T),
}

/// The color of an edge or node in the telemetry graph.
#[derive(Clone, Copy, Debug, PartialEq, Eq, Structural)]
pub enum LineColor {
    Grey,
    Green,
    Yellow,
    Orange,
    Red,
}

/// The name the graph uses for a color.
pub open spec fn line_color_name(c: LineColor) -> Seq<char> {
    match c {
        LineColor::Grey => "grey"@,
        LineColor::Green => "green"@,
        LineColor::Yellow => "yellow"@,
        LineColor::Orange => "orange"@,
        LineColor::Red => "red"@,
    }
}

impl LineColor {
    /// The name the graph uses for this color.
    pub fn name(&self) -> (r: &'static str)
        ensures
            r@ == line_color_name(*self),
    {
        match self {
            LineColor::Grey => "grey",
            LineColor::Green => "green",
            LineColor::Yellow => "yellow",
            LineColor::Orange => "orange",
            LineColor::Red => "red",
        }
    }
}

/// What the statistics of one channel are configured from.
pub struct ChannelMetaData {
    pub capacity: usize,
    pub show_total: bool,
    pub partner: Option<String>,
    pub bundle_index: Option<usize>,
    pub girth: usize,
    pub type_byte_count: usize,
    pub show_memory: bool,
    pub labels: Vec<String>,
    pub display_labels: bool,
    pub show_type: Option<String>,
    pub refresh_rate_in_bits: u8,
    pub window_bucket_in_bits: u8,
    pub show_avg_filled: bool,
    pub show_avg_rate: bool,
    pub show_avg_latency: bool,
    pub min_filled: bool,
    pub max_filled: bool,
    pub min_rate: bool,
    pub max_rate: bool,
    pub min_latency: bool,
    pub max_latency: bool,
    /// Whether percentiles of the filled value are shown or watched by a trigger.
    pub filled_percentiles: bool,
    /// Whether percentiles of the rate are shown or watched by a trigger.
    pub rate_percentiles: bool,
    /// Whether percentiles of the latency are shown or watched by a trigger.
    pub latency_percentiles: bool,
    pub trigger_rate: Vec<(Trigger<Rate>, AlertColor)>,
    pub trigger_filled: Vec<(Trigger<Filled>, AlertColor)>,
    /// Latency rules, with bounds in microseconds.
    pub trigger_latency: Vec<(Trigger<u128>, AlertColor)>,
}

/// `"<label>=\"T\", "` for each label, in order.
pub open spec fn label_pairs(labels: Seq<String>) -> Seq<char>
    decreases labels.len(),
{
    if labels.len() == 0 {
        Seq::empty()
    } else {
        label_pairs(labels.drop_last()) + labels.last()@ + "=\"T\", "@
    }
}

/// An actor's name followed by its suffix in decimal, if it has one.
pub open spec fn actor_text(a: ActorName) -> Seq<char> {
    a.name@ + match a.suffix {
        Some(s) => decimal(s as nat),
        None => Seq::empty(),
    }
}

/// The Prometheus labels of a channel between two actors.
pub open spec fn channel_prometheus_labels(
    labels: Seq<String>,
    show_type: Option<String>,
    from: ActorName,
    to: ActorName,
) -> Seq<char> {
    label_pairs(labels)
        + match show_type {
            Some(t) => "type=\""@ + t@ + "\", "@,
            None => Seq::empty(),
        }
        + "from=\""@ + actor_text(from) + "\", "@
        + "to=\""@ + actor_text(to) + "\""@
}

/// Appends `actor_text(a)` to `target`.
fn push_actor_text(target: &mut String, a: &ActorName)
    ensures
        final(target)@ == old(target)@ + actor_text(*a),
{
    target.append(a.name.as_str());
    match a.suffix {
        Some(s) => {
            let digits = decimal_string(s as u128);
            target.append(digits.as_str());
        },
        None => {},
    }
}

/// Appends the Prometheus labels of a channel between two actors to `target`.
pub fn push_channel_prometheus_labels(
    target: &mut String,
    labels: &Vec<String>,
    show_type: &Option<String>,
    from_actor: &ActorName,
    to_actor: &ActorName,
)
    ensures
        final(target)@ == old(target)@ + channel_prometheus_labels(labels@, *show_type, *from_actor, *to_actor),
{
    let ghost start = target@;
    let mut i: usize = 0;
    while i < labels.len()
        invariant
            i <= labels.len(),
            target@ == start + label_pairs(labels@.take(i as int)),
        decreases labels.len() - i,
    {
        target.append(labels[i].as_str());
        target.append("=\"T\", ");
        proof {
            assert(labels@.take(i + 1).drop_last() =~= labels@.take(i as int));
        }
        i += 1;
    }
    proof {
        assert(labels@.take(labels.len() as int) =~= labels@);
    }
    match show_type {
        Some(t) => {
            target.append("type=\"");
            target.append(t.as_str());
            target.append("\", ");
        },
        None => {},
    }
    target.append("from=\"");
    push_actor_text(target, from_actor);
    target.append("\", ");
    target.append("to=\"");
    push_actor_text(target, to_actor);
    target.append("\"");
    proof {
        let t = if show_type is Some {
            "type=\""@ + show_type->0@ + "\", "@
        } else {
            Seq::empty()
        };
        assert(target@ =~= start + label_pairs(labels@) + t + "from=\""@ + actor_text(*from_actor) + "\", "@
            + "to=\""@ + actor_text(*to_actor) + "\""@);
    }
}

/// The latency, in microseconds, of a channel holding `filled` items and
/// moving `rate` items per frame of `frame_rate_ms`: zero when nothing moves.
pub open spec fn latency_micros(filled: u64, rate: u64, frame_rate_ms: u64) -> nat {
    if rate == 0 {
        0
    } else {
        ((filled * (frame_rate_ms * 1000)) / (rate as int)) as nat
    }
}

/// Whether a frame of `filled` items in flight and `rate` items taken can be
/// recorded with frames of `frame_rate_ms`: the scaled samples and the
/// latency's intermediate product fit in a `u64`.
#[verifier::opaque]
pub open spec fn frame_fits(filled: int, rate: int, frame_rate_ms: int) -> bool {
    &&& filled * 1000 <= u64::MAX
    &&& rate * 1000 <= u64::MAX
    &&& frame_rate_ms * 1000 <= u64::MAX
    &&& rate != 0 ==> filled * (frame_rate_ms * 1000) <= u64::MAX
}

/// Whether a window of `r * n` frames of `frame_rate_ms` lasts no more than
/// `u128::MAX` milliseconds.
#[verifier::opaque]
pub open spec fn window_ms_fits(frame_rate_ms: int, r: int, n: int) -> bool {
    frame_rate_ms * r * n <= u128::MAX
}

/// Which summaries of a channel's windows are shown.
#[derive(Clone, Copy, Debug, PartialEq, Eq, Structural)]
pub struct ShownSummaries {
    pub show_avg_filled: bool,
    pub show_avg_rate: bool,
    pub show_avg_latency: bool,
    pub show_min_filled: bool,
    pub show_max_filled: bool,
    pub show_min_latency: bool,
    pub show_max_latency: bool,
    pub show_min_rate: bool,
    pub show_max_rate: bool,
}

/// The statistics of one channel: how full it is, how fast it is read, and
/// how long items wait, each over a rolling window of frames.
pub struct ChannelStatsComputer {
    pub(crate) display_labels: Option<Vec<String>>,
    pub(crate) show_type: Option<String>,
    pub(crate) type_byte_count: usize,
    pub(crate) shown: ShownSummaries,
    pub(crate) rate_trigger: Vec<(Trigger<Rate>, AlertColor)>,
    pub(crate) filled_trigger: Vec<(Trigger<Filled>, AlertColor)>,
    pub(crate) latency_trigger: Vec<(Trigger<u128>, AlertColor)>,
    pub(crate) filled: MetricWindow<Histogram64>,
    pub(crate) rate: MetricWindow<Histogram64>,
    pub(crate) latency: MetricWindow<Histogram64>,
    pub(crate) bucket_frames_count: usize,
    pub(crate) refresh_rate_in_bits: u8,
    pub(crate) window_bucket_in_bits: u8,
    pub(crate) refresh_frames: usize,
    pub(crate) window_buckets: usize,
    pub(crate) frame_rate_ms: u64,
    pub(crate) prev_take: i64,
    pub(crate) capacity: usize,
    pub(crate) build_filled_histogram: bool,
    pub(crate) build_rate_histogram: bool,
    pub(crate) build_latency_histogram: bool,
    pub(crate) prometheus_labels: String,
    pub(crate) show_total: bool,
    pub(crate) last_send: i64,
    pub(crate) last_take: i64,
    pub(crate) last_total: i64,
    pub(crate) partner: Option<String>,
    pub(crate) bundle_index: Option<usize>,
    pub(crate) girth: usize,
    pub(crate) total_consumed: u128,
    pub(crate) memory_footprint: usize,
    pub(crate) show_memory: bool,
}

impl ChannelStatsComputer {
    /// Frames per bucket.
    pub closed spec fn spec_refresh_frames(&self) -> nat {
        self.refresh_frames as nat
    }

    /// Buckets per window.
    pub closed spec fn spec_window_buckets(&self) -> nat {
        self.window_buckets as nat
    }

    /// Frames per window.
    pub open spec fn spec_window_frames(&self) -> nat {
        self.spec_refresh_frames() * self.spec_window_buckets()
    }

    /// The channel's capacity.
    pub closed spec fn spec_capacity(&self) -> nat {
        self.capacity as nat
    }

    /// The frame length, in milliseconds.
    pub closed spec fn spec_frame_rate_ms(&self) -> u64 {
        self.frame_rate_ms
    }

    /// Items taken so far, over all frames.
    pub closed spec fn spec_total_consumed(&self) -> nat {
        self.total_consumed as nat
    }

    /// The take count seen at the last frame.
    pub closed spec fn spec_prev_take(&self) -> i64 {
        self.prev_take
    }

    /// The send count, take count and items in flight at the last frame.
    pub closed spec fn spec_last(&self) -> (i64, i64, i64) {
        (self.last_send, self.last_take, self.last_total)
    }

    /// The Prometheus labels of the channel.
    pub closed spec fn spec_prometheus_labels(&self) -> Seq<char> {
        self.prometheus_labels@
    }

    /// The filled samples recorded so far, scaled by `PLACES_TENS`.
    pub closed spec fn spec_filled_frames(&self) -> Seq<u128> {
        self.filled.spec_frames()
    }

    /// The rate samples recorded so far, scaled by `PLACES_TENS`.
    pub closed spec fn spec_rate_frames(&self) -> Seq<u128> {
        self.rate.spec_frames()
    }

    /// The latency samples recorded so far, in microseconds.
    pub closed spec fn spec_latency_frames(&self) -> Seq<u128> {
        self.latency.spec_frames()
    }

    /// The running sum of the filled window that was last completed, if any.
    pub closed spec fn spec_filled_current(&self) -> Option<u128> {
        runner_of(self.filled.spec_current())
    }

    /// The running sum of the rate window that was last completed, if any.
    pub closed spec fn spec_rate_current(&self) -> Option<u128> {
        runner_of(self.rate.spec_current())
    }

    /// The running sum of the latency window that was last completed, if any.
    pub closed spec fn spec_latency_current(&self) -> Option<u128> {
        runner_of(self.latency.spec_current())
    }

    /// The sums of squares of the filled, rate and latency windows that were
    /// last completed, where there are such.
    pub closed spec fn spec_current_squares(&self) -> (Option<u128>, Option<u128>, Option<u128>) {
        (squares_of(self.filled.spec_current()), squares_of(self.rate.spec_current()), squares_of(self.latency.spec_current()))
    }

    /// Whether every bucket of the filled, rate and latency windows could be
    /// made so far (always so when no histogram is kept).
    pub closed spec fn spec_windows_complete(&self) -> (bool, bool, bool) {
        (self.filled.spec_all_made(), self.rate.spec_all_made(), self.latency.spec_all_made())
    }

    /// The value each frame gave the filled histograms: the filled count,
    /// capped at the capacity the histograms were made for.
    pub closed spec fn spec_filled_hist_frames(&self) -> Seq<u64> {
        self.filled.spec_hist_frames()
    }

    /// The value each frame gave the rate histograms.
    pub closed spec fn spec_rate_hist_frames(&self) -> Seq<u64> {
        self.rate.spec_hist_frames()
    }

    /// The value each frame gave the latency histograms.
    pub closed spec fn spec_latency_hist_frames(&self) -> Seq<u64> {
        self.latency.spec_hist_frames()
    }

    /// The highest value the filled histograms track.
    pub closed spec fn spec_filled_high(&self) -> u64 {
        shape_high(self.filled.spec_shape())
    }

    /// The number of buckets still filling in the filled, rate and latency
    /// windows.
    pub closed spec fn spec_history_lens(&self) -> (nat, nat, nat) {
        (self.filled.spec_history().len(), self.rate.spec_history().len(), self.latency.spec_history().len())
    }

    /// Whether a histogram is kept for the filled, rate and latency values.
    pub closed spec fn spec_build_histograms(&self) -> (bool, bool, bool) {
        (self.build_filled_histogram, self.build_rate_histogram, self.build_latency_histogram)
    }

    /// The computer's invariant: the three windows share one bucket and
    /// window size (powers of two of the configured bits), have seen the
    /// same number of frames, and the frame count within the current bucket
    /// is the number of frames seen modulo the bucket size.
    pub closed spec fn wf(&self) -> bool {
        let r = self.refresh_frames as nat;
        let n = self.window_buckets as nat;
        &&& r == pow2(self.refresh_rate_in_bits as nat)
        &&& n == pow2(self.window_bucket_in_bits as nat)
        &&& r >= 1
        &&& n >= 1
        &&& self.filled.wf(r, n)
        &&& self.rate.wf(r, n)
        &&& self.latency.wf(r, n)
        &&& self.filled.spec_shape() == HistogramShape::Bounded(1, shape_high(self.filled.spec_shape()), 0)
        &&& self.rate.spec_shape() == HistogramShape::Growing(2)
        &&& self.latency.spec_shape() == HistogramShape::Growing(2)
        &&& forall|i: int| 0 <= i < self.filled.spec_hist_frames().len() ==>
                #[trigger] self.filled.spec_hist_frames()[i] <= shape_high(self.filled.spec_shape())
        &&& self.rate.spec_frames().len() == self.filled.spec_frames().len()
        &&& self.latency.spec_frames().len() == self.filled.spec_frames().len()
        &&& self.bucket_frames_count == self.filled.spec_frames().len() % r
        &&& window_ms_fits(self.frame_rate_ms as int, r as int, n as int)
        &&& self.filled.spec_builds_histogram() == self.build_filled_histogram
        &&& self.rate.spec_builds_histogram() == self.build_rate_histogram
        &&& self.latency.spec_builds_histogram() == self.build_latency_histogram
    }

    /// `self` and `other` are set up alike: the same channel settings,
    /// display options, rules, bucket and window sizes, frame length and
    /// histogram choices.
    pub open spec fn same_config(&self, other: &Self) -> bool {
        &&& self.spec_capacity() == other.spec_capacity()
        &&& self.spec_frame_rate_ms() == other.spec_frame_rate_ms()
        &&& self.spec_refresh_frames() == other.spec_refresh_frames()
        &&& self.spec_window_buckets() == other.spec_window_buckets()
        &&& self.spec_bits() == other.spec_bits()
        &&& self.spec_triggers() == other.spec_triggers()
        &&& self.spec_build_histograms() == other.spec_build_histograms()
        &&& self.spec_filled_high() == other.spec_filled_high()
        &&& self.spec_prometheus_labels() == other.spec_prometheus_labels()
        &&& self.spec_display_labels() == other.spec_display_labels()
        &&& self.spec_display_settings() == other.spec_display_settings()
        &&& self.spec_memory_footprint() == other.spec_memory_footprint()
        &&& self.spec_type_byte_count() == other.spec_type_byte_count()
        &&& self.spec_show_flags() == other.spec_show_flags()
        &&& self.spec_partner() == other.spec_partner()
        &&& self.spec_bundle_index() == other.spec_bundle_index()
    }

    /// Everything but the windows is the same in `self` and `other`.
    pub closed spec fn same_settings(&self, other: &Self) -> bool {
        &&& self.display_labels == other.display_labels
        &&& self.show_type == other.show_type
        &&& self.type_byte_count == other.type_byte_count
        &&& self.rate_trigger == other.rate_trigger
        &&& self.filled_trigger == other.filled_trigger
        &&& self.latency_trigger == other.latency_trigger
        &&& self.refresh_rate_in_bits == other.refresh_rate_in_bits
        &&& self.window_bucket_in_bits == other.window_bucket_in_bits
        &&& self.refresh_frames == other.refresh_frames
        &&& self.window_buckets == other.window_buckets
        &&& self.frame_rate_ms == other.frame_rate_ms
        &&& self.prev_take == other.prev_take
        &&& self.capacity == other.capacity
        &&& self.build_filled_histogram == other.build_filled_histogram
        &&& self.build_rate_histogram == other.build_rate_histogram
        &&& self.build_latency_histogram == other.build_latency_histogram
        &&& self.prometheus_labels == other.prometheus_labels
        &&& self.show_total == other.show_total
        &&& self.last_send == other.last_send
        &&& self.last_take == other.last_take
        &&& self.last_total == other.last_total
        &&& self.total_consumed == other.total_consumed
        &&& self.memory_footprint == other.memory_footprint
        &&& self.girth == other.girth
        &&& self.show_memory == other.show_memory
    }
}

pub(crate) proof fn lemma_mod_step(len: nat, r: nat)
    requires
        r >= 1,
    ensures
        (len % r) + 1 <= r,
        ((len % r) + 1 == r) == ((len + 1) % r == 0),
        (len % r) + 1 < r ==> (len + 1) % r == (len % r) + 1,
{
    assert(len == (len / r) * r + len % r) by (nonlinear_arith)
        requires r >= 1;
    assert(len + 1 == ((len + 1) / r) * r + (len + 1) % r) by (nonlinear_arith)
        requires r >= 1;
    if (len % r) + 1 == r {
        assert((len / r + 1) * r == (len / r) * r + r) by (nonlinear_arith);
        assert((len + 1) == (len / r + 1) * r);
        assert((len + 1) % r == 0) by (nonlinear_arith)
            requires (len + 1) == (len / r + 1) * r, r >= 1;
    } else {
        assert((len + 1) % r == (len % r) + 1) by (nonlinear_arith)
            requires
                len == (len / r) * r + len % r,
                (len % r) + 1 < r,
                r >= 1;
    }
}

impl ChannelStatsComputer {
    /// A computer with no channel yet: zero capacity, single-frame buckets
    /// and windows, no buckets and no triggers.
    pub fn new() -> (r: Self)
        ensures
            r.wf(),
            r.spec_capacity() == 0,
            r.spec_total_consumed() == 0,
            r.spec_prev_take() == 0,
            r.spec_window_frames() == 1,
            r.spec_filled_frames().len() == 0,
            r.spec_filled_hist_frames().len() == 0,
            r.spec_rate_hist_frames().len() == 0,
            r.spec_latency_hist_frames().len() == 0,
            r.spec_filled_current() is None,
            r.spec_rate_current() is None,
            r.spec_latency_current() is None,
            r.spec_prometheus_labels() == Seq::<char>::empty(),
            r.spec_filled_high() == 0,
    {
        assert(pow2(0) == 1);
        let r = ChannelStatsComputer {
            display_labels: None,
            show_type: None,
            type_byte_count: 0,
            shown: ShownSummaries {
                show_avg_filled: false,
                show_avg_rate: false,
                show_avg_latency: false,
                show_min_filled: false,
                show_max_filled: false,
                show_min_latency: false,
                show_max_latency: false,
                show_min_rate: false,
                show_max_rate: false,
            },
            rate_trigger: Vec::new(),
            filled_trigger: Vec::new(),
            latency_trigger: Vec::new(),
            filled: MetricWindow::empty(false, HistogramShape::Bounded(1, 0, 0), Ghost(1), Ghost(1)),
            rate: MetricWindow::empty(false, HistogramShape::Growing(2), Ghost(1), Ghost(1)),
            latency: MetricWindow::empty(false, HistogramShape::Growing(2), Ghost(1), Ghost(1)),
            bucket_frames_count: 0,
            refresh_rate_in_bits: 0,
            window_bucket_in_bits: 0,
            refresh_frames: 1,
            window_buckets: 1,
            frame_rate_ms: 0,
            prev_take: 0,
            capacity: 0,
            build_filled_histogram: false,
            build_rate_histogram: false,
            build_latency_histogram: false,
            prometheus_labels: String::new(),
            show_total: false,
            last_send: 0,
            last_take: 0,
            last_total: 0,
            partner: None,
            bundle_index: None,
            girth: 0,
            total_consumed: 0,
            memory_footprint: 0,
            show_memory: false,
        };
        assert(r.spec_window_frames() == 1) by {
            assert(r.spec_refresh_frames() == 1);
            assert(r.spec_window_buckets() == 1);
        }
        assert(window_ms_fits(0, 1, 1)) by {
            reveal(window_ms_fits);
        }
        r
    }

    /// Records one frame: `filled` items in flight and `rate` items taken.
    /// Each window adds `PLACES_TENS * filled`, `PLACES_TENS * rate` and the
    /// latency in microseconds to its buckets; every `2^refresh_rate_in_bits`
    /// frames a bucket boundary is reached, where a bucket that spans a
    /// whole window leaves it and becomes the current one.
    pub fn accumulate_data_frame(&mut self, filled: u64, rate: u64)
        requires
            old(self).wf(),
            frame_fits(filled as int, rate as int, old(self).spec_frame_rate_ms() as int),
        ensures
            final(self).wf(),
            final(self).same_settings(old(self)),
            final(self).same_config(old(self)),
            final(self).spec_prev_take() == old(self).spec_prev_take(),
            final(self).spec_total_consumed() == old(self).spec_total_consumed(),
            final(self).spec_last() == old(self).spec_last(),
            final(self).spec_filled_frames() == old(self).spec_filled_frames().push((filled * 1000) as u128),
            final(self).spec_rate_frames() == old(self).spec_rate_frames().push((rate * 1000) as u128),
            final(self).spec_latency_frames() == old(self).spec_latency_frames().push(
                latency_micros(filled, rate, old(self).spec_frame_rate_ms()) as u128,
            ),
            final(self).spec_filled_high() == old(self).spec_filled_high(),
            final(self).spec_filled_hist_frames() == old(self).spec_filled_hist_frames().push(
                if filled > old(self).spec_filled_high() { old(self).spec_filled_high() } else { filled },
            ),
            final(self).spec_rate_hist_frames() == old(self).spec_rate_hist_frames().push(rate),
            final(self).spec_latency_hist_frames() == old(self).spec_latency_hist_frames().push(
                latency_micros(filled, rate, old(self).spec_frame_rate_ms()) as u64,
            ),
            (!old(self).spec_build_histograms().0 || old(self).spec_filled_high() >= 2)
                ==> final(self).spec_windows_complete().0 == old(self).spec_windows_complete().0,
            final(self).spec_windows_complete().1 == old(self).spec_windows_complete().1,
            final(self).spec_windows_complete().2 == old(self).spec_windows_complete().2,
    {
        let ghost r = self.refresh_frames as nat;
        let ghost len = self.filled.spec_frames().len();
        proof {
            lemma_mod_step(len, r);
            reveal(frame_fits);
        }
        let rotate = self.bucket_frames_count + 1 >= self.refresh_frames;
        let filled_scaled = PLACES_TENS * filled;
        let rate_scaled = PLACES_TENS * rate;
        let frame_rate_micros = self.frame_rate_ms * 1000;
        let latency: u64 = if rate == 0 {
            0
        } else {
            (filled * frame_rate_micros) / rate
        };
        accumulate_windows(
            &mut self.filled,
            &mut self.rate,
            &mut self.latency,
            (filled, filled_scaled),
            (rate, rate_scaled),
            latency,
            rotate,
            self.window_buckets,
            Ghost(r),
        );
        if rotate {
            self.bucket_frames_count = 0;
        } else {
            self.bucket_frames_count = self.bucket_frames_count + 1;
        }
        proof {
            lemma_config_kept(*self, *old(self));
        }
    }
}

/// Records one frame into the filled, rate and latency windows: each pair
/// is the value given to the histograms and the one added to the sums.
fn accumulate_windows(
    filled_w: &mut MetricWindow<Histogram64>,
    rate_w: &mut MetricWindow<Histogram64>,
    latency_w: &mut MetricWindow<Histogram64>,
    filled: (u64, u64),
    rate: (u64, u64),
    latency: u64,
    rotate: bool,
    window_buckets: usize,
    Ghost(r): Ghost<nat>,
)
    requires
        old(filled_w).wf(r, window_buckets as nat),
        old(rate_w).wf(r, window_buckets as nat),
        old(latency_w).wf(r, window_buckets as nat),
        rotate == ((old(filled_w).spec_frames().len() + 1) % r == 0),
        old(rate_w).spec_frames().len() == old(filled_w).spec_frames().len(),
        old(latency_w).spec_frames().len() == old(filled_w).spec_frames().len(),
        old(filled_w).spec_shape() is Bounded,
    ensures
        final(filled_w).wf(r, window_buckets as nat),
        final(rate_w).wf(r, window_buckets as nat),
        final(latency_w).wf(r, window_buckets as nat),
        final(filled_w).spec_frames() == old(filled_w).spec_frames().push(filled.1 as u128),
        final(rate_w).spec_frames() == old(rate_w).spec_frames().push(rate.1 as u128),
        final(latency_w).spec_frames() == old(latency_w).spec_frames().push(latency as u128),
        final(filled_w).spec_hist_frames() == old(filled_w).spec_hist_frames().push(
            offered_value(old(filled_w).spec_shape(), true, filled.0),
        ),
        final(rate_w).spec_hist_frames() == old(rate_w).spec_hist_frames().push(rate.0),
        final(latency_w).spec_hist_frames() == old(latency_w).spec_hist_frames().push(latency),
        final(filled_w).spec_shape() == old(filled_w).spec_shape(),
        final(rate_w).spec_shape() == old(rate_w).spec_shape(),
        final(latency_w).spec_shape() == old(latency_w).spec_shape(),
        final(filled_w).spec_builds_histogram() == old(filled_w).spec_builds_histogram(),
        final(rate_w).spec_builds_histogram() == old(rate_w).spec_builds_histogram(),
        final(latency_w).spec_builds_histogram() == old(latency_w).spec_builds_histogram(),
        (!old(filled_w).spec_builds_histogram() || shape_makes(old(filled_w).spec_shape()))
            ==> final(filled_w).spec_all_made() == old(filled_w).spec_all_made(),
        (!old(rate_w).spec_builds_histogram() || shape_makes(old(rate_w).spec_shape()))
            ==> final(rate_w).spec_all_made() == old(rate_w).spec_all_made(),
        (!old(latency_w).spec_builds_histogram() || shape_makes(old(latency_w).spec_shape()))
            ==> final(latency_w).spec_all_made() == old(latency_w).spec_all_made(),
{
    filled_w.accumulate(filled.0, true, filled.1, rotate, window_buckets, Ghost(r));
    rate_w.accumulate(rate.0, false, rate.1, rotate, window_buckets, Ghost(r));
    latency_w.accumulate(latency, false, latency, rotate, window_buckets, Ghost(r));
}

/// Two computers whose fields other than the windows agree, and whose
/// filled windows have one shape, are set up alike.
proof fn lemma_config_kept(a: ChannelStatsComputer, b: ChannelStatsComputer)
    requires
        a.same_settings(&b),
        a.spec_show_flags() == b.spec_show_flags(),
        a.partner == b.partner,
        a.bundle_index == b.bundle_index,
        a.filled.spec_shape() == b.filled.spec_shape(),
        a.spec_build_histograms() == b.spec_build_histograms(),
    ensures
        a.same_config(&b),
{
}

/// A copy of `v`.
pub fn copy_vec<T: Copy>(v: &Vec<T>) -> (r: Vec<T>)
    ensures
        r@ == v@,
{
    let mut r: Vec<T> = Vec::new();
    let mut i: usize = 0;
    while i < v.len()
        invariant
            i <= v.len(),
            r@ == v@.take(i as int),
        decreases v.len() - i,
    {
        let x: T = v[i];
        r.push(x);
        proof {
            assert(v@.take(i + 1) =~= v@.take(i as int).push(x));
        }
        i += 1;
    }
    proof {
        assert(v@.take(v.len() as int) =~= v@);
    }
    r
}

/// A copy of the strings of `v`.
pub fn copy_strings(v: &Vec<String>) -> (r: Vec<String>)
    ensures
        r@ == v@,
{
    let mut r: Vec<String> = Vec::new();
    let mut i: usize = 0;
    while i < v.len()
        invariant
            i <= v.len(),
            r@ == v@.take(i as int),
        decreases v.len() - i,
    {
        let x = v[i].clone();
        r.push(x);
        proof {
            assert(v@.take(i + 1) =~= v@.take(i as int).push(x));
        }
        i += 1;
    }
    proof {
        assert(v@.take(v.len() as int) =~= v@);
    }
    r
}

/// A copy of the string in `s`, if any.
pub fn copy_opt_string(s: &Option<String>) -> (r: Option<String>)
    ensures
        r == *s,
{
    match s {
        Some(t) => Some(t.clone()),
        None => None,
    }
}

impl ChannelStatsComputer {
    /// The bytes the channel's buffer takes: capacity times item size.
    pub closed spec fn spec_memory_footprint(&self) -> nat {
        self.memory_footprint as nat
    }

    /// The channel's girth, whether its memory is shown and whether its total is shown.
    pub closed spec fn spec_display_settings(&self) -> (usize, bool, bool) {
        (self.girth, self.show_memory, self.show_total)
    }

    /// The size in bytes of one item.
    pub closed spec fn spec_type_byte_count(&self) -> usize {
        self.type_byte_count
    }

    /// Which summaries are shown.
    pub closed spec fn spec_show_flags(&self) -> ShownSummaries {
        self.shown
    }

    /// The channel this one is paired with, if any.
    pub closed spec fn spec_partner(&self) -> Option<String> {
        self.partner
    }

    /// The channel's place in its bundle, if it is in one.
    pub closed spec fn spec_bundle_index(&self) -> Option<usize> {
        self.bundle_index
    }

    /// The labels shown on the graph, if shown, and the item type shown, if any.
    pub closed spec fn spec_display_labels(&self) -> (Option<Seq<String>>, Option<String>) {
        (match self.display_labels {
            Some(v) => Some(v@),
            None => None,
        }, self.show_type)
    }

    /// The average rules on the rate, the filled value and the latency.
    pub closed spec fn spec_triggers(&self) -> (
        Seq<(Trigger<Rate>, AlertColor)>,
        Seq<(Trigger<Filled>, AlertColor)>,
        Seq<(Trigger<u128>, AlertColor)>,
    ) {
        (self.rate_trigger@, self.filled_trigger@, self.latency_trigger@)
    }

    /// Sets the computer up for a channel described by `meta`, sent to by
    /// `from_actor` and read by `to_actor`, with frames of `frame_rate_ms`.
    /// The windows restart empty, each with one bucket when its histogram
    /// (if one is kept) could be made, and the channel's Prometheus labels
    /// are appended to the ones held.
    pub fn init(&mut self, meta: &ChannelMetaData, from_actor: ActorName, to_actor: ActorName, frame_rate_ms: u64)
        requires
            meta.capacity > 0,
            meta.capacity * meta.type_byte_count <= usize::MAX,
            pow2(meta.refresh_rate_in_bits as nat) <= usize::MAX,
            pow2(meta.window_bucket_in_bits as nat) <= usize::MAX,
            frame_rate_ms * pow2(meta.refresh_rate_in_bits as nat) * pow2(meta.window_bucket_in_bits as nat) <= u128::MAX,
        ensures
            final(self).wf(),
            final(self).spec_capacity() == meta.capacity,
            final(self).spec_frame_rate_ms() == frame_rate_ms,
            final(self).spec_refresh_frames() == pow2(meta.refresh_rate_in_bits as nat),
            final(self).spec_window_buckets() == pow2(meta.window_bucket_in_bits as nat),
            final(self).spec_total_consumed() == 0,
            final(self).spec_prev_take() == 0,
            final(self).spec_last() == (0i64, 0i64, 0i64),
            final(self).spec_memory_footprint() == meta.capacity * meta.type_byte_count,
            final(self).spec_display_settings() == (meta.girth, meta.show_memory, meta.show_total),
            final(self).spec_type_byte_count() == meta.type_byte_count,
            final(self).spec_show_flags() == (ShownSummaries {
                show_avg_filled: meta.show_avg_filled,
                show_avg_rate: meta.show_avg_rate,
                show_avg_latency: meta.show_avg_latency,
                show_min_filled: meta.min_filled,
                show_max_filled: meta.max_filled,
                show_min_latency: meta.min_latency,
                show_max_latency: meta.max_latency,
                show_min_rate: meta.min_rate,
                show_max_rate: meta.max_rate,
            }),
            final(self).spec_partner() == meta.partner,
            final(self).spec_bundle_index() == meta.bundle_index,
            final(self).spec_bits() == (meta.refresh_rate_in_bits, meta.window_bucket_in_bits),
            final(self).spec_display_labels() == (if meta.display_labels { Some(meta.labels@) } else { None::<Seq<String>> }, meta.show_type),
            final(self).spec_triggers() == (meta.trigger_rate@, meta.trigger_filled@, meta.trigger_latency@),
            final(self).spec_prometheus_labels() == old(self).spec_prometheus_labels()
                + channel_prometheus_labels(meta.labels@, meta.show_type, from_actor, to_actor),
            final(self).spec_build_histograms() == (
                meta.max_filled || meta.min_filled || meta.filled_percentiles,
                meta.max_rate || meta.min_rate || meta.rate_percentiles,
                meta.max_latency || meta.min_latency || meta.latency_percentiles,
            ),
            final(self).spec_filled_frames().len() == 0,
            final(self).spec_filled_high() == meta.capacity as u64,
            final(self).spec_filled_hist_frames().len() == 0,
            final(self).spec_rate_hist_frames().len() == 0,
            final(self).spec_latency_hist_frames().len() == 0,
            final(self).spec_filled_current() is None,
            final(self).spec_rate_current() is None,
            final(self).spec_latency_current() is None,
            (!final(self).spec_build_histograms().0 || meta.capacity >= 2) ==> final(self).spec_windows_complete().0,
            (!final(self).spec_build_histograms().0 || meta.capacity >= 2) ==> final(self).spec_history_lens().0 == 1,
            final(self).spec_windows_complete().1,
            final(self).spec_windows_complete().2,
            final(self).spec_history_lens().1 == 1,
            final(self).spec_history_lens().2 == 1,
    {
        let mut prometheus_labels = self.prometheus_labels.clone();
        push_channel_prometheus_labels(&mut prometheus_labels, &meta.labels, &meta.show_type, &from_actor, &to_actor);
        let refresh_frames = pow2_usize(meta.refresh_rate_in_bits);
        let window_buckets = pow2_usize(meta.window_bucket_in_bits);
        let ghost r = refresh_frames as nat;
        let ghost n = window_buckets as nat;
        let build_filled_histogram = meta.max_filled || meta.min_filled || meta.filled_percentiles;
        let build_rate_histogram = meta.max_rate || meta.min_rate || meta.rate_percentiles;
        let build_latency_histogram = meta.max_latency || meta.min_latency || meta.latency_percentiles;
        let filled = MetricWindow::new(
            build_filled_histogram,
            HistogramShape::Bounded(1, meta.capacity as u64, 0),
            Ghost(r),
            Ghost(n),
        );
        let rate = MetricWindow::new(build_rate_histogram, HistogramShape::Growing(2), Ghost(r), Ghost(n));
        let latency = MetricWindow::new(build_latency_histogram, HistogramShape::Growing(2), Ghost(r), Ghost(n));
        let display_labels = if meta.display_labels {
            Some(copy_strings(&meta.labels))
        } else {
            None
        };
        *self = ChannelStatsComputer {
            display_labels,
            show_type: copy_opt_string(&meta.show_type),
            type_byte_count: meta.type_byte_count,
            shown: ShownSummaries {
                show_avg_filled: meta.show_avg_filled,
                show_avg_rate: meta.show_avg_rate,
                show_avg_latency: meta.show_avg_latency,
                show_min_filled: meta.min_filled,
                show_max_filled: meta.max_filled,
                show_min_latency: meta.min_latency,
                show_max_latency: meta.max_latency,
                show_min_rate: meta.min_rate,
                show_max_rate: meta.max_rate,
            },
            rate_trigger: copy_vec(&meta.trigger_rate),
            filled_trigger: copy_vec(&meta.trigger_filled),
            latency_trigger: copy_vec(&meta.trigger_latency),
            filled,
            rate,
            latency,
            bucket_frames_count: 0,
            refresh_rate_in_bits: meta.refresh_rate_in_bits,
            window_bucket_in_bits: meta.window_bucket_in_bits,
            refresh_frames,
            window_buckets,
            frame_rate_ms,
            prev_take: 0,
            capacity: meta.capacity,
            build_filled_histogram,
            build_rate_histogram,
            build_latency_histogram,
            prometheus_labels,
            show_total: meta.show_total,
            last_send: 0,
            last_take: 0,
            last_total: 0,
            partner: copy_opt_string(&meta.partner),
            bundle_index: meta.bundle_index,
            girth: meta.girth,
            total_consumed: 0,
            memory_footprint: meta.capacity * meta.type_byte_count,
            show_memory: meta.show_memory,
        };
        proof {
            assert(0nat % r == 0) by (nonlinear_arith)
                requires r >= 1;
            reveal(window_ms_fits);
        }
    }
}

impl ChannelStatsComputer {
    /// Frames per window, as a `u128`.
    fn window_frames_u128(&self) -> (r: u128)
        requires
            self.wf(),
        ensures
            r == self.spec_window_frames(),
            r >= 1,
    {
        let a = self.refresh_frames as u128;
        let b = self.window_buckets as u128;
        proof {
            assert(a * b <= u128::MAX) by (nonlinear_arith)
                requires a <= 0xffff_ffff_ffff_ffffu128, b <= 0xffff_ffff_ffff_ffffu128;
            assert(a * b >= 1) by (nonlinear_arith)
                requires a >= 1, b >= 1;
        }
        a * b
    }

    /// The window's length in milliseconds, per telemetry sample.
    fn window_ms(&self) -> (r: u128)
        requires
            self.wf(),
        ensures
            r == (self.spec_frame_rate_ms() * self.spec_window_frames()) / 32,
    {
        let frames = self.window_frames_u128();
        proof {
            reveal(window_ms_fits);
            assert(self.frame_rate_ms * self.spec_window_frames() <= u128::MAX) by (nonlinear_arith)
                requires
                    self.frame_rate_ms * self.spec_refresh_frames() * self.spec_window_buckets() <= u128::MAX,
                    self.spec_window_frames() == self.spec_refresh_frames() * self.spec_window_buckets();
        }
        (widen(self.frame_rate_ms) * frames) / widen(TELEMETRY_SAMPLES_PER_FRAME)
    }

    /// The capacity, as a `u128`.
    fn capacity_u128(&self) -> (r: u128)
        ensures
            r == self.spec_capacity(),
    {
        self.capacity as u128
    }

    /// Whether `r` is the ordering of the filled average against the
    /// fraction `num / den` of the capacity: `runner * den` against
    /// `num * PLACES_TENS * capacity * window_frames`, or `Equal` when no
    /// window was completed or a product does not fit in a `u128`.
    pub open spec fn filled_percentage_order(&self, r: Ordering, num: u64, den: u64) -> bool {
        match self.spec_filled_current() {
            Some(runner) => if runner * den <= u128::MAX
                && num * 1000 * self.spec_capacity() * self.spec_window_frames() <= u128::MAX {
                orders(r, runner * den, num * 1000 * self.spec_capacity() * self.spec_window_frames())
            } else {
                r == Ordering::Equal
            },
            None => r == Ordering::Equal,
        }
    }

    /// Whether `r` is the ordering of the filled average against `exact`
    /// items: the running sum against `exact * PLACES_TENS * window_frames`,
    /// or `Equal` when no window was completed or that product does not fit.
    pub open spec fn filled_exact_order(&self, r: Ordering, exact: u64) -> bool {
        match self.spec_filled_current() {
            Some(runner) => if exact * 1000 * self.spec_window_frames() <= u128::MAX {
                orders(r, runner * 1, exact * 1000 * self.spec_window_frames())
            } else {
                r == Ordering::Equal
            },
            None => r == Ordering::Equal,
        }
    }

    /// Whether `r` is the ordering of the latency average against `micros`:
    /// the running sum against `micros * window_frames`, or `Equal` when no
    /// window was completed or that product does not fit.
    pub open spec fn latency_order(&self, r: Ordering, micros: u128) -> bool {
        match self.spec_latency_current() {
            Some(runner) => if micros * self.spec_window_frames() <= u128::MAX {
                orders(r, runner * 1, micros * self.spec_window_frames())
            } else {
                r == Ordering::Equal
            },
            None => r == Ordering::Equal,
        }
    }

    /// Compares the average filled level of the last completed window with
    /// the fraction `percent_full_num / percent_full_den` of the capacity.
    pub fn avg_filled_percentage(&self, percent_full_num: &u64, percent_full_den: &u64) -> (r: Ordering)
        requires
            self.wf(),
        ensures
            self.filled_percentage_order(r, *percent_full_num, *percent_full_den),
    {
        match self.filled.current() {
            Some(block) => {
                let frames = self.window_frames_u128();
                let capacity = self.capacity_u128();
                let lhs = mul_fits(block.runner(), widen(*percent_full_den));
                let scaled = widen(*percent_full_num) * 1000;
                let rhs = match mul_fits(scaled, capacity) {
                    Some(c) => mul_fits(c, frames),
                    None => None,
                };
                proof {
                    let num = *percent_full_num;
                    if scaled * capacity > u128::MAX {
                        assert(scaled * capacity * frames > u128::MAX) by (nonlinear_arith)
                            requires scaled * capacity > u128::MAX, frames >= 1;
                    }
                    assert(scaled * capacity * frames == num * 1000 * self.spec_capacity() * self.spec_window_frames());
                }
                match (lhs, rhs) {
                    (Some(l), Some(h)) => order_u128(l, h),
                    _ => Ordering::Equal,
                }
            },
            None => Ordering::Equal,
        }
    }

    /// Compares the average filled level of the last completed window with
    /// `exact_full` items.
    pub fn avg_filled_exact(&self, exact_full: &u64) -> (r: Ordering)
        requires
            self.wf(),
        ensures
            self.filled_exact_order(r, *exact_full),
    {
        match self.filled.current() {
            Some(block) => {
                let frames = self.window_frames_u128();
                let scaled = widen(*exact_full) * 1000;
                match mul_fits(scaled, frames) {
                    Some(h) => order_u128(block.runner(), h),
                    None => Ordering::Equal,
                }
            },
            None => Ordering::Equal,
        }
    }

    /// Compares the average latency of the last completed window with
    /// `micros` microseconds.
    pub fn avg_latency(&self, micros: u128) -> (r: Ordering)
        requires
            self.wf(),
        ensures
            self.latency_order(r, micros),
    {
        match self.latency.current() {
            Some(block) => {
                let frames = self.window_frames_u128();
                match mul_fits(micros, frames) {
                    Some(h) => order_u128(block.runner(), h),
                    None => Ordering::Equal,
                }
            },
            None => Ordering::Equal,
        }
    }
}

impl ChannelStatsComputer {
    /// Whether a rule on the rate holds for the last completed window: its
    /// running sum (scaled by `PLACES_TENS`) compared, by `avg_below` or
    /// `avg_above`, with the rule's units per milliseconds over the window's
    /// length in milliseconds per telemetry sample.
    pub open spec fn rate_rule_holds(&self, rule: Trigger<Rate>) -> bool {
        let window_ms = ((self.spec_frame_rate_ms() * self.spec_window_frames()) / 32) as u128;
        match rule {
            Trigger::AvgBelow(rate) => avg_below(self.spec_rate_current(), window_ms, 1000, rate@.0, rate@.1),
            Trigger::AvgAbove(rate) => avg_above(self.spec_rate_current(), window_ms, 1000, rate@.0, rate@.1),
        }
    }

    /// Whether a rule on the filled level holds for the last completed window.
    pub open spec fn filled_rule_holds(&self, rule: Trigger<Filled>) -> bool {
        match rule {
            Trigger::AvgAbove(Filled::Percentage(num, den)) => self.filled_percentage_order(Ordering::Greater, num, den),
            Trigger::AvgBelow(Filled::Percentage(num, den)) => self.filled_percentage_order(Ordering::Less, num, den),
            Trigger::AvgAbove(Filled::Exact(exact)) => self.filled_exact_order(Ordering::Greater, exact),
            Trigger::AvgBelow(Filled::Exact(exact)) => self.filled_exact_order(Ordering::Less, exact),
        }
    }

    /// Whether a rule on the latency holds for the last completed window.
    pub open spec fn latency_rule_holds(&self, rule: Trigger<u128>) -> bool {
        match rule {
            Trigger::AvgAbove(micros) => self.latency_order(Ordering::Greater, micros),
            Trigger::AvgBelow(micros) => self.latency_order(Ordering::Less, micros),
        }
    }

    /// Whether some rule of color `c` holds.
    pub open spec fn alert_raised(&self, c: AlertColor) -> bool {
        let (rates, filled, latency) = self.spec_triggers();
        ||| exists|i: int| 0 <= i < rates.len() && rates[i].1 == c && #[trigger] self.rate_rule_holds(rates[i].0)
        ||| exists|i: int| 0 <= i < filled.len() && filled[i].1 == c && #[trigger] self.filled_rule_holds(filled[i].0)
        ||| exists|i: int| 0 <= i < latency.len() && latency[i].1 == c && #[trigger] self.latency_rule_holds(latency[i].0)
    }

    /// Whether `rule` on the rate holds.
    pub fn triggered_rate(&self, rule: &Trigger<Rate>) -> (r: bool)
        requires
            self.wf(),
        ensures
            r == self.rate_rule_holds(*rule),
    {
        let window_ms = self.window_ms();
        match rule {
            Trigger::AvgBelow(rate) => is_less(avg_rational(window_ms, 1000, self.rate.current(), rate.rational_ms())),
            Trigger::AvgAbove(rate) => is_greater(avg_rational(window_ms, 1000, self.rate.current(), rate.rational_ms())),
        }
    }

    /// Whether `rule` on the filled level holds.
    pub fn triggered_filled(&self, rule: &Trigger<Filled>) -> (r: bool)
        requires
            self.wf(),
        ensures
            r == self.filled_rule_holds(*rule),
    {
        match rule {
            Trigger::AvgAbove(Filled::Percentage(num, den)) => is_greater(self.avg_filled_percentage(num, den)),
            Trigger::AvgBelow(Filled::Percentage(num, den)) => is_less(self.avg_filled_percentage(num, den)),
            Trigger::AvgAbove(Filled::Exact(exact)) => is_greater(self.avg_filled_exact(exact)),
            Trigger::AvgBelow(Filled::Exact(exact)) => is_less(self.avg_filled_exact(exact)),
        }
    }

    /// Whether `rule` on the latency holds.
    pub fn triggered_latency(&self, rule: &Trigger<u128>) -> (r: bool)
        requires
            self.wf(),
        ensures
            r == self.latency_rule_holds(*rule),
    {
        match rule {
            Trigger::AvgAbove(micros) => is_greater(self.avg_latency(*micros)),
            Trigger::AvgBelow(micros) => is_less(self.avg_latency(*micros)),
        }
    }

    /// Whether some rule of color `c1` holds, on the rate, the filled level
    /// or the latency.
    pub fn trigger_alert_level(&self, c1: &AlertColor) -> (r: bool)
        requires
            self.wf(),
        ensures
            r == self.alert_raised(*c1),
    {
        proof {
            assert(self.spec_triggers().0 == self.rate_trigger@);
            assert(self.spec_triggers().1 == self.filled_trigger@);
            assert(self.spec_triggers().2 == self.latency_trigger@);
        }
        let mut i: usize = 0;
        let mut found = false;
        while i < self.rate_trigger.len() && !found
            invariant
                self.wf(),
                i <= self.rate_trigger.len(),
                found ==> exists|j: int| 0 <= j < self.rate_trigger@.len() && self.rate_trigger@[j].1 == *c1
                    && #[trigger] self.rate_rule_holds(self.rate_trigger@[j].0),
                !found ==> forall|j: int| 0 <= j < i && self.rate_trigger@[j].1 == *c1
                    ==> !#[trigger] self.rate_rule_holds(self.rate_trigger@[j].0),
            decreases self.rate_trigger.len() - i,
        {
            let t = self.rate_trigger[i];
            if t.1 == *c1 && self.triggered_rate(&t.0) {
                found = true;
            }
            i += 1;
        }
        let mut i: usize = 0;
        while i < self.filled_trigger.len() && !found
            invariant
                self.wf(),
                i <= self.filled_trigger.len(),
                self.spec_triggers().0 == self.rate_trigger@,
                self.spec_triggers().1 == self.filled_trigger@,
                self.spec_triggers().2 == self.latency_trigger@,
                found ==> self.alert_raised(*c1),
                !found ==> forall|j: int| 0 <= j < self.rate_trigger@.len() && self.rate_trigger@[j].1 == *c1
                    ==> !#[trigger] self.rate_rule_holds(self.rate_trigger@[j].0),
                !found ==> forall|j: int| 0 <= j < i && self.filled_trigger@[j].1 == *c1
                    ==> !#[trigger] self.filled_rule_holds(self.filled_trigger@[j].0),
            decreases self.filled_trigger.len() - i,
        {
            let t = self.filled_trigger[i];
            if t.1 == *c1 && self.triggered_filled(&t.0) {
                found = true;
                proof {
                    assert(self.filled_rule_holds(self.filled_trigger@[i as int].0));
                }
            }
            i += 1;
        }
        let mut i: usize = 0;
        while i < self.latency_trigger.len() && !found
            invariant
                self.wf(),
                i <= self.latency_trigger.len(),
                self.spec_triggers().0 == self.rate_trigger@,
                self.spec_triggers().1 == self.filled_trigger@,
                self.spec_triggers().2 == self.latency_trigger@,
                found ==> self.alert_raised(*c1),
                !found ==> forall|j: int| 0 <= j < self.rate_trigger@.len() && self.rate_trigger@[j].1 == *c1
                    ==> !#[trigger] self.rate_rule_holds(self.rate_trigger@[j].0),
                !found ==> forall|j: int| 0 <= j < self.filled_trigger@.len() && self.filled_trigger@[j].1 == *c1
                    ==> !#[trigger] self.filled_rule_holds(self.filled_trigger@[j].0),
                !found ==> forall|j: int| 0 <= j < i && self.latency_trigger@[j].1 == *c1
                    ==> !#[trigger] self.latency_rule_holds(self.latency_trigger@[j].0),
            decreases self.latency_trigger.len() - i,
        {
            let t = self.latency_trigger[i];
            if t.1 == *c1 && self.triggered_latency(&t.0) {
                found = true;
                proof {
                    assert(self.latency_rule_holds(self.latency_trigger@[i as int].0));
                }
            }
            i += 1;
        }
        found
    }
}

/// Alerts raised by rules the library does not evaluate itself (rules on
/// the spread or on percentiles), one flag per color.
#[derive(Clone, Copy, Debug, PartialEq, Eq, Structural)]
pub struct AlertLevels {
    pub yellow: bool,
    pub orange: bool,
    pub red: bool,
}

/// The color of a channel by how much of its capacity was taken in the last
/// frame: red above 80%, orange above 40%, yellow above 10%, else grey.
pub open spec fn activity_color(delta: nat, capacity: nat) -> LineColor {
    if 10 * delta > 8 * capacity {
        LineColor::Red
    } else if 10 * delta > 4 * capacity {
        LineColor::Orange
    } else if 10 * delta > capacity {
        LineColor::Yellow
    } else {
        LineColor::Grey
    }
}

/// `base`, overridden by the most severe alert raised.
pub open spec fn alert_color(base: LineColor, yellow: bool, orange: bool, red: bool) -> LineColor {
    if red {
        LineColor::Red
    } else if orange {
        LineColor::Orange
    } else if yellow {
        LineColor::Yellow
    } else {
        base
    }
}

/// Items taken since the last frame: the growth of the take count, or the
/// take count itself when it went down (the counter was reset).
pub open spec fn consumed_delta(prev_take: i64, take: i64) -> u64 {
    if take >= prev_take {
        (take - prev_take) as u64
    } else {
        take as u64
    }
}

/// Each label followed by a space.
pub open spec fn label_words(labels: Seq<String>) -> Seq<char>
    decreases labels.len(),
{
    if labels.len() == 0 {
        Seq::empty()
    } else {
        label_words(labels.drop_last()) + labels.last()@ + " "@
    }
}

/// The label of a channel on the graph: its item type, its labels, and the
/// total taken, each on a line of its own when shown.
pub open spec fn channel_display_label(
    display_labels: Option<Seq<String>>,
    show_type: Option<String>,
    show_total: bool,
    total: nat,
) -> Seq<char> {
    (match show_type {
        Some(t) => t@ + "\n"@,
        None => Seq::empty(),
    }) + (match display_labels {
        Some(ls) => label_words(ls) + "\n"@,
        None => Seq::empty(),
    }) + (if show_total {
        "Total: "@ + compressed(total) + "\n"@
    } else {
        Seq::empty()
    })
}

/// Items taken since the last frame, from the take counter's last and
/// current readings.
fn consumed_since(prev_take: i64, take: i64) -> (r: u64)
    requires
        take >= prev_take ==> take - prev_take <= i64::MAX,
    ensures
        r == consumed_delta(prev_take, take),
{
    if take >= prev_take {
        (take - prev_take) as u64
    } else {
        take as u64
    }
}

impl ChannelStatsComputer {
    /// Appends the channel's graph label to `target`.
    fn push_display_label(&self, target: &mut String)
        ensures
            final(target)@ == old(target)@ + channel_display_label(
                self.spec_display_labels().0,
                self.spec_display_labels().1,
                self.spec_display_settings().2,
                self.spec_total_consumed(),
            ),
    {
        let ghost start = target@;
        match &self.show_type {
            Some(t) => {
                target.append(t.as_str());
                target.append("\n");
            },
            None => {},
        }
        let ghost after_type = target@;
        match &self.display_labels {
            Some(labels) => {
                let mut i: usize = 0;
                while i < labels.len()
                    invariant
                        i <= labels.len(),
                        target@ == after_type + label_words(labels@.take(i as int)),
                    decreases labels.len() - i,
                {
                    target.append(labels[i].as_str());
                    target.append(" ");
                    proof {
                        assert(labels@.take(i + 1).drop_last() =~= labels@.take(i as int));
                    }
                    i += 1;
                }
                proof {
                    assert(labels@.take(labels.len() as int) =~= labels@);
                }
                target.append("\n");
            },
            None => {},
        }
        let ghost after_labels = target@;
        if self.show_total {
            target.append("Total: ");
            format_compressed_u128(self.total_consumed, target);
            target.append("\n");
        }
        proof {
            let t = if self.show_type is Some {
                self.show_type->0@ + "\n"@
            } else {
                Seq::empty()
            };
            let l = if self.display_labels is Some {
                label_words(self.display_labels->0@) + "\n"@
            } else {
                Seq::empty()
            };
            let tot = if self.show_total {
                "Total: "@ + compressed(self.total_consumed as nat) + "\n"@
            } else {
                Seq::empty()
            };
            assert(after_type =~= start + t);
            assert(after_labels =~= start + t + l);
            assert(target@ =~= start + (t + l + tot));
        }
    }

    /// Records one frame of a set-up channel whose counters read `send`
    /// and `take`, and returns the items taken since the last frame.
    fn record_frame(&mut self, send: i64, take: i64) -> (delta: u64)
        requires
            old(self).wf(),
            old(self).spec_capacity() > 0,
            ({
                let delta = consumed_delta(old(self).spec_prev_take(), take);
                &&& send >= take
                &&& send - take <= i64::MAX
                &&& take >= old(self).spec_prev_take() ==> take - old(self).spec_prev_take() <= i64::MAX
                &&& old(self).spec_total_consumed() + delta <= u128::MAX
                &&& frame_fits(send - take, delta as int, old(self).spec_frame_rate_ms() as int)
            }),
        ensures
            final(self).wf(),
            final(self).same_config(old(self)),
            delta == consumed_delta(old(self).spec_prev_take(), take),
            ({
                let inflight = (send - take) as u64;
                &&& final(self).spec_capacity() == old(self).spec_capacity()
                &&& final(self).spec_total_consumed() == old(self).spec_total_consumed() + delta
                &&& final(self).spec_prev_take() == take
                &&& final(self).spec_last() == (send, take, (send - take) as i64)
                &&& final(self).spec_filled_frames() == old(self).spec_filled_frames().push((inflight * 1000) as u128)
                &&& final(self).spec_rate_frames() == old(self).spec_rate_frames().push((delta * 1000) as u128)
                &&& final(self).spec_latency_frames() == old(self).spec_latency_frames().push(
                    latency_micros(inflight, delta, old(self).spec_frame_rate_ms()) as u128)
                &&& final(self).spec_triggers() == old(self).spec_triggers()
                &&& final(self).spec_display_labels() == old(self).spec_display_labels()
                &&& final(self).spec_display_settings() == old(self).spec_display_settings()
                &&& final(self).spec_filled_high() == old(self).spec_filled_high()
                &&& final(self).spec_filled_hist_frames() == old(self).spec_filled_hist_frames().push(
                    if inflight > old(self).spec_filled_high() { old(self).spec_filled_high() } else { inflight })
                &&& final(self).spec_rate_hist_frames() == old(self).spec_rate_hist_frames().push(delta)
                &&& final(self).spec_latency_hist_frames() == old(self).spec_latency_hist_frames().push(
                    latency_micros(inflight, delta, old(self).spec_frame_rate_ms()) as u64)
            }),
    {
        let inflight: u64 = (send - take) as u64;
        let delta = consumed_since(self.prev_take, take);
        proof {
            assert(inflight == send - take);
        }
        self.total_consumed = self.total_consumed + delta as u128;
        self.accumulate_data_frame(inflight, delta);
        self.prev_take = take;
        self.last_send = send;
        self.last_take = take;
        self.last_total = inflight as i64;
        delta
    }

    /// Records one frame of a channel whose send and take counters read
    /// `send` and `take`, and returns its color and line width for the
    /// graph; `display_label` is set to its graph label. A channel with no
    /// capacity (not set up) is grey and records nothing. Otherwise the items
    /// in flight and the items taken since the last frame are recorded, the
    /// total taken grows by the latter, and the color is that of the activity
    /// unless some rule, or an alert in `outside_alerts`, raises an alert,
    /// the most severe of which wins.
    pub fn compute(&mut self, display_label: &mut String, send: i64, take: i64, outside_alerts: AlertLevels) -> (r: (LineColor, String))
        requires
            old(self).wf(),
            old(self).spec_capacity() > 0 ==> {
                let delta = consumed_delta(old(self).spec_prev_take(), take);
                &&& send >= take
                &&& send - take <= i64::MAX
                &&& take >= old(self).spec_prev_take() ==> take - old(self).spec_prev_take() <= i64::MAX
                &&& old(self).spec_total_consumed() + delta <= u128::MAX
                &&& frame_fits(send - take, delta as int, old(self).spec_frame_rate_ms() as int)
            },
        ensures
            final(self).wf(),
            final(self).same_config(old(self)),
            r.1@ == "1"@,
            old(self).spec_capacity() == 0 ==> {
                &&& r.0 == LineColor::Grey
                &&& final(display_label)@ == Seq::<char>::empty()
                &&& *final(self) == *old(self)
            },
            old(self).spec_capacity() > 0 ==> {
                let delta = consumed_delta(old(self).spec_prev_take(), take);
                let inflight = (send - take) as u64;
                &&& final(self).spec_capacity() == old(self).spec_capacity()
                &&& final(self).spec_total_consumed() == old(self).spec_total_consumed() + delta
                &&& take >= old(self).spec_prev_take() ==>
                    final(self).spec_total_consumed() == old(self).spec_total_consumed() + (take - old(self).spec_prev_take())
                &&& 0 <= take < old(self).spec_prev_take() ==>
                    final(self).spec_total_consumed() == old(self).spec_total_consumed() + take
                &&& final(self).spec_prev_take() == take
                &&& final(self).spec_last() == (send, take, (send - take) as i64)
                &&& final(self).spec_filled_frames() == old(self).spec_filled_frames().push((inflight * 1000) as u128)
                &&& final(self).spec_rate_frames() == old(self).spec_rate_frames().push((delta * 1000) as u128)
                &&& final(self).spec_latency_frames() == old(self).spec_latency_frames().push(
                    latency_micros(inflight, delta, old(self).spec_frame_rate_ms()) as u128)
                &&& final(self).spec_triggers() == old(self).spec_triggers()
                &&& final(self).spec_filled_high() == old(self).spec_filled_high()
                &&& final(self).spec_filled_hist_frames() == old(self).spec_filled_hist_frames().push(
                    if inflight > old(self).spec_filled_high() { old(self).spec_filled_high() } else { inflight })
                &&& final(self).spec_rate_hist_frames() == old(self).spec_rate_hist_frames().push(delta)
                &&& final(self).spec_latency_hist_frames() == old(self).spec_latency_hist_frames().push(
                    latency_micros(inflight, delta, old(self).spec_frame_rate_ms()) as u64)
                &&& final(display_label)@ == channel_display_label(
                    final(self).spec_display_labels().0,
                    final(self).spec_display_labels().1,
                    final(self).spec_display_settings().2,
                    final(self).spec_total_consumed(),
                )
                &&& r.0 == alert_color(
                    activity_color(delta as nat, final(self).spec_capacity()),
                    final(self).alert_raised(AlertColor::Yellow) || outside_alerts.yellow,
                    final(self).alert_raised(AlertColor::Orange) || outside_alerts.orange,
                    final(self).alert_raised(AlertColor::Red) || outside_alerts.red,
                )
            },
    {
        *display_label = String::new();
        if self.capacity == 0 {
            return (LineColor::Grey, String::from_str("1"));
        }
        let delta = self.record_frame(send, take);
        self.push_display_label(display_label);

        let moved = (delta as u128) * 10;
        let capacity = self.capacity as u128;
        let mut line_color = if moved > capacity * 8 {
            LineColor::Red
        } else if moved > capacity * 4 {
            LineColor::Orange
        } else if moved > capacity {
            LineColor::Yellow
        } else {
            LineColor::Grey
        };
        if self.trigger_alert_level(&AlertColor::Yellow) || outside_alerts.yellow {
            line_color = LineColor::Yellow;
        }
        if self.trigger_alert_level(&AlertColor::Orange) || outside_alerts.orange {
            line_color = LineColor::Orange;
        }
        if self.trigger_alert_level(&AlertColor::Red) || outside_alerts.red {
            line_color = LineColor::Red;
        }
        (line_color, String::from_str("1"))
    }
}

/// The items taken in a frame are what the take count grew by: none when
/// it did not move, so a frame that takes nothing leaves the total as it
/// was; growth over two frames is the sum of each frame's; and after the
/// counter was reset (it went down), the whole new count.
pub proof fn law_consumed_delta(prev_take: i64, mid: i64, take: i64)
    ensures
        consumed_delta(take, take) == 0,
        take >= prev_take ==> consumed_delta(prev_take, take) == take - prev_take,
        0 <= take < prev_take ==> consumed_delta(prev_take, take) == take,
        prev_take <= mid <= take ==>
            consumed_delta(prev_take, mid) + consumed_delta(mid, take) == consumed_delta(prev_take, take),
{
}

/// The activity color reads the share of the capacity taken in the frame:
/// red above 80%, orange above 40% up to 80%, yellow above 10% up to 40%,
/// grey up to 10%; so only that share matters, not the sizes themselves.
pub proof fn law_activity_color_share(delta: nat, capacity: nat, k: nat)
    requires
        k >= 1,
    ensures
        activity_color(delta, capacity) == LineColor::Red <==> 10 * delta > 8 * capacity,
        activity_color(delta, capacity) == LineColor::Orange <==> 4 * capacity < 10 * delta <= 8 * capacity,
        activity_color(delta, capacity) == LineColor::Yellow <==> capacity < 10 * delta <= 4 * capacity,
        activity_color(delta, capacity) == LineColor::Grey <==> 10 * delta <= capacity,
        activity_color(k * delta, k * capacity) == activity_color(delta, capacity),
{
    assert((10 * (k * delta) > 8 * (k * capacity)) == (10 * delta > 8 * capacity)) by (nonlinear_arith)
        requires k >= 1;
    assert((10 * (k * delta) > 4 * (k * capacity)) == (10 * delta > 4 * capacity)) by (nonlinear_arith)
        requires k >= 1;
    assert((10 * (k * delta) > k * capacity) == (10 * delta > capacity)) by (nonlinear_arith)
        requires k >= 1;
}

/// The most severe alert sets the color: a red alert makes the line red
/// whatever else holds, an orange one orange unless a red one is raised,
/// and a yellow one yellow unless a more severe one is raised.
pub proof fn law_alert_priority(base: LineColor, yellow: bool, orange: bool, red: bool)
    ensures
        red ==> alert_color(base, yellow, orange, red) == LineColor::Red,
        !red && orange ==> alert_color(base, yellow, orange, red) == LineColor::Orange,
        !red && !orange && yellow ==> alert_color(base, yellow, orange, red) == LineColor::Yellow,
        !red && !orange && !yellow ==> alert_color(base, yellow, orange, red) == base,
{
}

/// A filled histogram is never given more than the capacity it was made
/// for: a filled count above it is recorded as the capacity, a full channel.
pub proof fn law_filled_histogram_capped(c: ChannelStatsComputer)
    requires
        c.wf(),
    ensures
        forall|i: int| 0 <= i < c.spec_filled_hist_frames().len() ==>
            #[trigger] c.spec_filled_hist_frames()[i] <= c.spec_filled_high(),
{
}

/// While every bucket of a window could be made, the window's last
/// completed sum is there exactly when a whole window of frames was seen,
/// and it is the sum of the samples of the last whole window before the
/// last bucket boundary (saturating at `u128::MAX`); so for the filled
/// level, the rate and the latency alike.
pub proof fn law_windows_hold_last_window(c: ChannelStatsComputer)
    requires
        c.wf(),
    ensures
        ({
            let r = c.spec_refresh_frames();
            let n = c.spec_window_buckets();
            let seen = c.spec_filled_frames().len();
            let end = (seen / r) * r;
            &&& c.spec_rate_frames().len() == seen
            &&& c.spec_latency_frames().len() == seen
            &&& c.spec_windows_complete().0 ==> {
                &&& (seen / r >= n <==> c.spec_filled_current() is Some)
                &&& c.spec_filled_current() is Some ==> n * r <= end <= seen
                &&& c.spec_filled_current() matches Some(x) ==> x == saturating_sum(c.spec_filled_frames().subrange(end - n * r, end as int))
                &&& (c.spec_current_squares().0 is Some <==> c.spec_filled_current() is Some)
                &&& c.spec_current_squares().0 matches Some(x) ==> x == saturating_sum(squares(c.spec_filled_frames().subrange(end - n * r, end as int)))
            }
            &&& c.spec_windows_complete().1 ==> {
                &&& (seen / r >= n <==> c.spec_rate_current() is Some)
                &&& c.spec_rate_current() is Some ==> n * r <= end <= seen
                &&& c.spec_rate_current() matches Some(x) ==> x == saturating_sum(c.spec_rate_frames().subrange(end - n * r, end as int))
                &&& (c.spec_current_squares().1 is Some <==> c.spec_rate_current() is Some)
                &&& c.spec_current_squares().1 matches Some(x) ==> x == saturating_sum(squares(c.spec_rate_frames().subrange(end - n * r, end as int)))
            }
            &&& c.spec_windows_complete().2 ==> {
                &&& (seen / r >= n <==> c.spec_latency_current() is Some)
                &&& c.spec_latency_current() is Some ==> n * r <= end <= seen
                &&& c.spec_latency_current() matches Some(x) ==> x == saturating_sum(c.spec_latency_frames().subrange(end - n * r, end as int))
                &&& (c.spec_current_squares().2 is Some <==> c.spec_latency_current() is Some)
                &&& c.spec_current_squares().2 matches Some(x) ==> x == saturating_sum(squares(c.spec_latency_frames().subrange(end - n * r, end as int)))
            }
        }),
{
    let r = c.refresh_frames as nat;
    let n = c.window_buckets as nat;
    if c.filled.spec_all_made() {
        law_current_is_last_window(c.filled, r, n);
    }
    if c.rate.spec_all_made() {
        law_current_is_last_window(c.rate, r, n);
    }
    if c.latency.spec_all_made() {
        law_current_is_last_window(c.latency, r, n);
    }
}

impl ChannelStatsComputer {
    /// The channel's capacity.
    pub fn capacity(&self) -> (r: usize)
        ensures
            r == self.spec_capacity(),
    {
        self.capacity
    }

    /// Sets the capacity the computer believes the channel has.
    pub fn set_capacity(&mut self, capacity: usize)
        ensures
            final(self).spec_capacity() == capacity,
            final(self).wf() == old(self).wf(),
            final(self).spec_filled_current() == old(self).spec_filled_current(),
            final(self).spec_rate_current() == old(self).spec_rate_current(),
            final(self).spec_latency_current() == old(self).spec_latency_current(),
            final(self).spec_window_frames() == old(self).spec_window_frames(),
            final(self).spec_prev_take() == old(self).spec_prev_take(),
            final(self).spec_total_consumed() == old(self).spec_total_consumed(),
            final(self).spec_frame_rate_ms() == old(self).spec_frame_rate_ms(),
            final(self).spec_triggers() == old(self).spec_triggers(),
    {
        self.capacity = capacity;
    }

    /// Items taken so far, over all frames.
    pub fn total_consumed(&self) -> (r: u128)
        ensures
            r == self.spec_total_consumed(),
    {
        self.total_consumed
    }

    /// The bytes the channel's buffer takes.
    pub fn memory_footprint(&self) -> (r: usize)
        ensures
            r == self.spec_memory_footprint(),
    {
        self.memory_footprint
    }

    /// The channel's girth, whether its memory is shown and whether its total is shown.
    pub fn display_settings(&self) -> (r: (usize, bool, bool))
        ensures
            r == self.spec_display_settings(),
    {
        (self.girth, self.show_memory, self.show_total)
    }

    /// The channel's Prometheus labels.
    pub fn prometheus_labels(&self) -> (r: &String)
        ensures
            r@ == self.spec_prometheus_labels(),
    {
        &self.prometheus_labels
    }

    /// Whether a histogram is kept for the filled, rate and latency values.
    pub fn build_histograms(&self) -> (r: (bool, bool, bool))
        ensures
            r == self.spec_build_histograms(),
    {
        (self.build_filled_histogram, self.build_rate_histogram, self.build_latency_histogram)
    }

    /// The configured bucket and window sizes, in bits.
    pub closed spec fn spec_bits(&self) -> (u8, u8) {
        (self.refresh_rate_in_bits, self.window_bucket_in_bits)
    }

    /// The bucket and window sizes, in bits.
    pub fn refresh_window_bits(&self) -> (r: (u8, u8))
        ensures
            r == self.spec_bits(),
            self.wf() ==> pow2(r.0 as nat) == self.spec_refresh_frames() && pow2(r.1 as nat) == self.spec_window_buckets(),
    {
        (self.refresh_rate_in_bits, self.window_bucket_in_bits)
    }

    /// The filled, rate and latency buckets that last left their windows.
    pub fn current_blocks(&self) -> (r: (
        &Option<ChannelBlock<Histogram64>>,
        &Option<ChannelBlock<Histogram64>>,
        &Option<ChannelBlock<Histogram64>>,
    ))
        ensures
            runner_of(*r.0) == self.spec_filled_current(),
            runner_of(*r.1) == self.spec_rate_current(),
            runner_of(*r.2) == self.spec_latency_current(),
            (squares_of(*r.0), squares_of(*r.1), squares_of(*r.2)) == self.spec_current_squares(),
    {
        (self.filled.current(), self.rate.current(), self.latency.current())
    }

    /// The frame length, in milliseconds.
    pub fn frame_rate_ms(&self) -> (r: u64)
        ensures
            r == self.spec_frame_rate_ms(),
    {
        self.frame_rate_ms
    }

    /// The running sums of the filled, rate and latency windows last completed.
    pub fn current_runners(&self) -> (r: (Option<u128>, Option<u128>, Option<u128>))
        ensures
            r == (self.spec_filled_current(), self.spec_rate_current(), self.spec_latency_current()),
    {
        let f = match self.filled.current() {
            Some(b) => Some(b.runner()),
            None => None,
        };
        let r = match self.rate.current() {
            Some(b) => Some(b.runner()),
            None => None,
        };
        let l = match self.latency.current() {
            Some(b) => Some(b.runner()),
            None => None,
        };
        (f, r, l)
    }
}

/// For a channel that stays at `level` items in flight, the rules on an
/// exact fill level mean what they say: once a window is complete,
/// "average above `bound` items" holds exactly when `level > bound`, and
/// "average below" exactly when `level < bound`.
pub proof fn law_steady_fill_level(c: ChannelStatsComputer, level: u64, bound: u64)
    requires
        c.wf(),
        c.spec_windows_complete().0,
        c.spec_filled_current() is Some,
        forall|i: int| 0 <= i < c.spec_filled_frames().len() ==> #[trigger] c.spec_filled_frames()[i] == level * 1000,
        c.spec_window_frames() * 0x1_0000_0000_0000_0000 * 1000 <= u128::MAX,
    ensures
        c.filled_rule_holds(Trigger::AvgAbove(Filled::Exact(bound))) <==> level > bound,
        c.filled_rule_holds(Trigger::AvgBelow(Filled::Exact(bound))) <==> level < bound,
{
    law_windows_hold_last_window(c);
    let r = c.spec_refresh_frames();
    let n = c.spec_window_buckets();
    let w = c.spec_window_frames();
    let seen = c.spec_filled_frames().len();
    let end = (seen / r) * r;
    let v = (level * 1000) as u128;
    assert(n * r == w) by (nonlinear_arith)
        requires w == r * n;
    assert(w * v <= u128::MAX) by (nonlinear_arith)
        requires w * 0x1_0000_0000_0000_0000 * 1000 <= u128::MAX, v == level * 1000, level < 0x1_0000_0000_0000_0000;
    assert(bound * 1000 * w <= u128::MAX) by (nonlinear_arith)
        requires w * 0x1_0000_0000_0000_0000 * 1000 <= u128::MAX, bound < 0x1_0000_0000_0000_0000;
    let last = c.spec_filled_frames().subrange(end - n * r, end as int);
    assert forall|i: int| 0 <= i < last.len() implies #[trigger] last[i] == v by {
        assert(last[i] == c.spec_filled_frames()[i + (end - n * r)]);
    }
    lemma_saturating_sum_constant(last, v);
    let x = c.spec_filled_current()->0;
    assert(x == w * v);
    assert(w >= 1) by (nonlinear_arith)
        requires w == r * n, r >= 1, n >= 1;
    assert((w * v > bound * 1000 * w) <==> (level > bound)) by (nonlinear_arith)
        requires v == level * 1000, w >= 1;
    assert((w * v < bound * 1000 * w) <==> (level < bound)) by (nonlinear_arith)
        requires v == level * 1000, w >= 1;
}

/// Under a steady flow the window's sums are exact: when every frame saw
/// `filled` items in flight, `rate` items taken and so the latency
/// `latency`, a completed window sums to the frames per window times each
/// (the filled level and rate scaled by 1000), and its sum of squares to the
/// frames per window times each squared, as long as that total fits in a
/// `u128`.
pub proof fn law_channel_constant_load(c: ChannelStatsComputer, filled: u64, rate: u64, latency: u64)
    requires
        c.wf(),
        filled * 1000 <= u64::MAX,
        rate * 1000 <= u64::MAX,
        forall|i: int| 0 <= i < c.spec_filled_frames().len() ==> #[trigger] c.spec_filled_frames()[i] == filled * 1000,
        forall|i: int| 0 <= i < c.spec_rate_frames().len() ==> #[trigger] c.spec_rate_frames()[i] == rate * 1000,
        forall|i: int| 0 <= i < c.spec_latency_frames().len() ==> #[trigger] c.spec_latency_frames()[i] == latency,
    ensures
        ({
            let w = c.spec_window_frames();
            let (fv, rv, lv) = (filled * 1000, rate * 1000, latency as int);
            &&& c.spec_windows_complete().0 && w * fv <= u128::MAX ==>
                (c.spec_filled_current() matches Some(x) ==> x == w * fv)
            &&& c.spec_windows_complete().0 && w * (fv * fv) <= u128::MAX ==>
                (c.spec_current_squares().0 matches Some(x) ==> x == w * (fv * fv))
            &&& c.spec_windows_complete().1 && w * rv <= u128::MAX ==>
                (c.spec_rate_current() matches Some(x) ==> x == w * rv)
            &&& c.spec_windows_complete().1 && w * (rv * rv) <= u128::MAX ==>
                (c.spec_current_squares().1 matches Some(x) ==> x == w * (rv * rv))
            &&& c.spec_windows_complete().2 && w * lv <= u128::MAX ==>
                (c.spec_latency_current() matches Some(x) ==> x == w * lv)
            &&& c.spec_windows_complete().2 && w * (lv * lv) <= u128::MAX ==>
                (c.spec_current_squares().2 matches Some(x) ==> x == w * (lv * lv))
        }),
{
    law_windows_hold_last_window(c);
    let r = c.spec_refresh_frames();
    let n = c.spec_window_buckets();
    let w = c.spec_window_frames();
    let seen = c.spec_filled_frames().len();
    let end = (seen / r) * r;
    assert(n * r == w) by (nonlinear_arith)
        requires w == r * n;
    if c.spec_windows_complete().0 && c.spec_filled_current() is Some {
        lemma_constant_window(c.spec_filled_frames(), end as int, w, (filled * 1000) as u128);
    }
    if c.spec_windows_complete().1 && c.spec_rate_current() is Some {
        lemma_constant_window(c.spec_rate_frames(), end as int, w, (rate * 1000) as u128);
    }
    if c.spec_windows_complete().2 && c.spec_latency_current() is Some {
        lemma_constant_window(c.spec_latency_frames(), end as int, w, latency as u128);
    }
}

/// The last `w` frames before `end` of a constant sequence of `v` sum to
/// `w * v`, and their squares to `w * v * v`, when those fit in a `u128`.
proof fn lemma_constant_window(frames: Seq<u128>, end: int, w: nat, v: u128)
    requires
        w <= end <= frames.len(),
        v <= u64::MAX,
        forall|i: int| 0 <= i < frames.len() ==> #[trigger] frames[i] == v,
    ensures
        w * v <= u128::MAX ==> saturating_sum(frames.subrange(end - w, end)) == w * v,
        w * (v * v) <= u128::MAX ==> saturating_sum(squares(frames.subrange(end - w, end))) == w * (v * v),
{
    let last = frames.subrange(end - w, end);
    assert(last.len() == w);
    assert forall|i: int| 0 <= i < last.len() implies #[trigger] last[i] == v by {
        assert(last[i] == frames[i + (end - w)]);
    }
    if w * v <= u128::MAX {
        lemma_saturating_sum_constant(last, v);
    }
    lemma_squares_constant(last, v);
    assert(v * v <= u128::MAX) by (nonlinear_arith)
        requires v <= u64::MAX;
    if w * (v * v) <= u128::MAX {
        lemma_saturating_sum_constant(squares(last), (v * v) as u128);
    }
}

} // verus!
