use vstd::prelude::*;
use vstd::string::StringExecFns;
use crate::actor_units::{MCPU, Work};
use crate::channel_stats::{ActorName, AlertColor, AlertLevels, LineColor, Trigger, alert_color, copy_vec, copy_opt_string};
use crate::channel_stats_labels::{decimal, decimal_string};
use crate::rolling_window::{ChannelBlock, MetricWindow, Histogram16, Histogram8, HistogramShape, runner_of, squares_of, squares, saturating_sum, law_current_is_last_window, lemma_saturating_sum_constant, lemma_squares_constant};
use crate::stats_compare::{avg_rational, avg_below, avg_above, is_less, is_greater};
use crate::telemetry_window::{pow2, pow2_usize};

verus! {

/// An actor's identity: its id and its name.
#[derive(Clone, Debug)]
pub struct ActorIdentity {
    pub id: usize,
    pub label: ActorName,
}

/// What the statistics of one actor are configured from.
pub struct ActorMetaData {
    pub ident: ActorIdentity,
    pub avg_mcpu: bool,
    pub avg_work: bool,
    pub show_thread_info: bool,
    /// Whether percentiles of the CPU use are shown or watched by a trigger.
    pub mcpu_percentiles: bool,
    /// Whether percentiles of the work share are shown or watched by a trigger.
    pub work_percentiles: bool,
    pub trigger_mcpu: Vec<(Trigger<MCPU>, AlertColor)>,
    pub trigger_work: Vec<(Trigger<Work>, AlertColor)>,
    pub usage_review: bool,
    pub refresh_rate_in_bits: u8,
    pub window_bucket_in_bits: u8,
    /// Whether the graph shows actor ids next to their names.
    pub show_actor_ids: bool,
}

/// The Prometheus labels of an actor: its name, and its suffix if it has one.
pub open spec fn actor_prometheus_labels(a: ActorName) -> Seq<char> {
    "actor_name=\""@ + a.name@ + "\""@ + match a.suffix {
        Some(s) => ", "@ + "actor_suffix=\""@ + decimal(s as nat) + "\""@,
        None => Seq::empty(),
    }
}

/// The statistics of one actor: its CPU use (in milli-CPUs) and its work
/// share (in percent), each over a rolling window of frames.
pub struct ActorStatsComputer {
    pub(crate) ident: ActorIdentity,
    pub(crate) mcpu_trigger: Vec<(Trigger<MCPU>, AlertColor)>,
    pub(crate) work_trigger: Vec<(Trigger<Work>, AlertColor)>,
    pub(crate) bucket_frames_count: usize,
    pub(crate) refresh_rate_in_bits: u8,
    pub(crate) window_bucket_in_bits: u8,
    pub(crate) refresh_frames: usize,
    pub(crate) window_buckets: usize,
    pub(crate) frame_rate_ms: u64,
    pub(crate) time_label: String,
    pub(crate) show_avg_mcpu: bool,
    pub(crate) show_avg_work: bool,
    pub(crate) usage_review: bool,
    pub(crate) build_mcpu_histogram: bool,
    pub(crate) build_work_histogram: bool,
    pub(crate) mcpu: MetricWindow<Histogram16>,
    pub(crate) work: MetricWindow<Histogram8>,
    pub(crate) prometheus_labels: String,
    pub(crate) show_thread_id: bool,
    pub(crate) show_actor_ids: bool,
}

impl ActorStatsComputer {
    /// Frames per bucket.
    pub closed spec fn spec_refresh_frames(&self) -> nat {
        self.refresh_frames as nat
    }

    /// Buckets per window.
    pub closed spec fn spec_window_buckets(&self) -> nat {
        self.window_buckets as nat
    }

    /// Frames per window.
    pub open spec fn spec_window_frames(&self) -> nat {
        self.spec_refresh_frames() * self.spec_window_buckets()
    }

    /// The CPU samples recorded so far.
    pub closed spec fn spec_mcpu_frames(&self) -> Seq<u128> {
        self.mcpu.spec_frames()
    }

    /// The work samples recorded so far.
    pub closed spec fn spec_work_frames(&self) -> Seq<u128> {
        self.work.spec_frames()
    }

    /// The value each frame gave the CPU-use histograms.
    pub closed spec fn spec_mcpu_hist_frames(&self) -> Seq<u64> {
        self.mcpu.spec_hist_frames()
    }

    /// The value each frame gave the work-share histograms.
    pub closed spec fn spec_work_hist_frames(&self) -> Seq<u64> {
        self.work.spec_hist_frames()
    }

    /// The running sum of the CPU window last completed, if any.
    pub closed spec fn spec_mcpu_current(&self) -> Option<u128> {
        runner_of(self.mcpu.spec_current())
    }

    /// The running sum of the work window last completed, if any.
    pub closed spec fn spec_work_current(&self) -> Option<u128> {
        runner_of(self.work.spec_current())
    }

    /// The sum of squares of the CPU window last completed, if any.
    pub closed spec fn spec_mcpu_current_squares(&self) -> Option<u128> {
        squares_of(self.mcpu.spec_current())
    }

    /// The sum of squares of the work window last completed, if any.
    pub closed spec fn spec_work_current_squares(&self) -> Option<u128> {
        squares_of(self.work.spec_current())
    }

    /// The rules on the CPU use and on the work share.
    pub closed spec fn spec_triggers(&self) -> (Seq<(Trigger<MCPU>, AlertColor)>, Seq<(Trigger<Work>, AlertColor)>) {
        (self.mcpu_trigger@, self.work_trigger@)
    }

    /// The actor's identity, once set up.
    pub closed spec fn spec_ident(&self) -> ActorIdentity {
        self.ident
    }

    /// The Prometheus labels of the actor.
    pub closed spec fn spec_prometheus_labels(&self) -> Seq<char> {
        self.prometheus_labels@
    }

    /// The window's span, as shown on the graph.
    pub closed spec fn spec_time_label(&self) -> Seq<char> {
        self.time_label@
    }

    /// Whether histograms are kept of the CPU use and of the work share.
    pub closed spec fn spec_build_histograms(&self) -> (bool, bool) {
        (self.build_mcpu_histogram, self.build_work_histogram)
    }

    /// Whether every bucket of the CPU and work windows could be made so far.
    pub closed spec fn spec_windows_complete(&self) -> (bool, bool) {
        (self.mcpu.spec_all_made(), self.work.spec_all_made())
    }

    /// The frame length, in milliseconds.
    pub closed spec fn spec_frame_rate_ms(&self) -> u64 {
        self.frame_rate_ms
    }

    /// The configured bucket and window sizes, in bits.
    pub closed spec fn spec_bits(&self) -> (u8, u8) {
        (self.refresh_rate_in_bits, self.window_bucket_in_bits)
    }

    /// The computer's invariant: both windows share one bucket and window
    /// size (powers of two of the configured bits) and have seen the same
    /// frames, counted within the bucket by `bucket_frames_count`.
    pub closed spec fn wf(&self) -> bool {
        let r = self.refresh_frames as nat;
        let n = self.window_buckets as nat;
        &&& r == pow2(self.refresh_rate_in_bits as nat)
        &&& n == pow2(self.window_bucket_in_bits as nat)
        &&& r >= 1
        &&& n >= 1
        &&& self.mcpu.wf(r, n)
        &&& self.work.wf(r, n)
        &&& self.work.spec_frames().len() == self.mcpu.spec_frames().len()
        &&& self.bucket_frames_count == self.mcpu.spec_frames().len() % r
        &&& self.mcpu.spec_builds_histogram() == self.build_mcpu_histogram
        &&& self.work.spec_builds_histogram() == self.build_work_histogram
        &&& self.mcpu.spec_shape() == HistogramShape::Bounded(1, 1024, 1)
        &&& self.work.spec_shape() == HistogramShape::Bounded(1, 100, 1)
    }

    /// A computer with no actor yet: single-frame buckets and windows, no
    /// buckets and no triggers.
    pub fn new() -> (r: Self)
        ensures
            r.wf(),
            r.spec_ident().id == 0,
            r.spec_ident().label.name@ == Seq::<char>::empty(),
            r.spec_ident().label.suffix is None,
            r.spec_window_frames() == 1,
            r.spec_mcpu_frames().len() == 0,
            r.spec_mcpu_hist_frames().len() == 0,
            r.spec_work_hist_frames().len() == 0,
            r.spec_mcpu_current() is None,
            r.spec_work_current() is None,
            r.spec_triggers() == (Seq::<(Trigger<MCPU>, AlertColor)>::empty(), Seq::<(Trigger<Work>, AlertColor)>::empty()),
            r.spec_prometheus_labels() == Seq::<char>::empty(),
    {
        assert(pow2(0) == 1);
        let r = ActorStatsComputer {
            ident: ActorIdentity { id: 0, label: ActorName { name: String::new(), suffix: None } },
            mcpu_trigger: Vec::new(),
            work_trigger: Vec::new(),
            bucket_frames_count: 0,
            refresh_rate_in_bits: 0,
            window_bucket_in_bits: 0,
            refresh_frames: 1,
            window_buckets: 1,
            frame_rate_ms: 0,
            time_label: String::new(),
            show_avg_mcpu: false,
            show_avg_work: false,
            usage_review: false,
            build_mcpu_histogram: false,
            build_work_histogram: false,
            mcpu: MetricWindow::empty(false, HistogramShape::Bounded(1, 1024, 1), Ghost(1), Ghost(1)),
            work: MetricWindow::empty(false, HistogramShape::Bounded(1, 100, 1), Ghost(1), Ghost(1)),
            prometheus_labels: String::new(),
            show_thread_id: false,
            show_actor_ids: false,
        };
        assert(r.spec_window_frames() == 1) by {
            assert(r.spec_refresh_frames() == 1);
            assert(r.spec_window_buckets() == 1);
        }
        r
    }
}

/// Appends the Prometheus labels of actor `a` to `target`.
pub fn push_actor_prometheus_labels(target: &mut String, a: &ActorName)
    ensures
        final(target)@ == old(target)@ + actor_prometheus_labels(*a),
{
    let ghost start = target@;
    target.append("actor_name=\"");
    target.append(a.name.as_str());
    target.append("\"");
    match a.suffix {
        Some(s) => {
            target.append(", ");
            target.append("actor_suffix=\"");
            let digits = decimal_string(s as u128);
            target.append(digits.as_str());
            target.append("\"");
        },
        None => {},
    }
    proof {
        let tail = if a.suffix is Some {
            ", "@ + "actor_suffix=\""@ + decimal(a.suffix->0 as nat) + "\""@
        } else {
            Seq::empty()
        };
        assert(target@ =~= start + ("actor_name=\""@ + a.name@ + "\""@ + tail));
    }
}

/// The first line of an actor's graph label: its name and suffix, and its
/// id when ids are shown.
pub open spec fn actor_name_line(ident: ActorIdentity, show_ids: bool) -> Seq<char> {
    ident.label.name@
        + (match ident.label.suffix {
            Some(s) => decimal(s as nat),
            None => Seq::empty(),
        })
        + (if show_ids { "["@ + decimal(ident.id as nat) + "]"@ } else { Seq::empty() })
        + "\n"@
}

/// The further lines of an actor's graph label: one each for its thread,
/// its window span (for a window of more than one bucket), its restarts
/// (when it restarted) and whether it stopped.
pub open spec fn actor_status_lines(
    thread_line: Option<String>,
    window_bits: u8,
    time_label: Seq<char>,
    restarts: u32,
    stopped: bool,
) -> Seq<char> {
    (match thread_line {
        Some(t) => t@ + "\n"@,
        None => Seq::empty(),
    })
        + (if window_bits != 0 { "Window "@ + time_label + "\n"@ } else { Seq::empty() })
        + (if restarts > 0 { "restarts: "@ + decimal(restarts as nat) + "\n"@ } else { Seq::empty() })
        + (if stopped { "stopped"@ + "\n"@ } else { Seq::empty() })
}

/// The label of an actor on the graph.
pub open spec fn actor_dot_label(
    ident: ActorIdentity,
    show_ids: bool,
    thread_line: Option<String>,
    window_bits: u8,
    time_label: Seq<char>,
    restarts: u32,
    stopped: bool,
) -> Seq<char> {
    actor_name_line(ident, show_ids) + actor_status_lines(thread_line, window_bits, time_label, restarts, stopped)
}

/// An actor that restarted shows it: whenever `restarts` is above zero,
/// its label holds the line `restarts: <n>` with `n` the number of restarts
/// in decimal, right after the window line (or the thread line, or the
/// name, when those are not shown).
pub proof fn law_restarts_shown(
    ident: ActorIdentity,
    show_ids: bool,
    thread_line: Option<String>,
    window_bits: u8,
    time_label: Seq<char>,
    restarts: u32,
    stopped: bool,
)
    requires
        restarts > 0,
    ensures
        ({
            let label = actor_dot_label(ident, show_ids, thread_line, window_bits, time_label, restarts, stopped);
            let line = "restarts: "@ + decimal(restarts as nat) + "\n"@;
            exists|i: int| 0 <= i && i + line.len() <= label.len() && #[trigger] label.subrange(i, i + line.len()) == line
        }),
{
    let label = actor_dot_label(ident, show_ids, thread_line, window_bits, time_label, restarts, stopped);
    let line = "restarts: "@ + decimal(restarts as nat) + "\n"@;
    let head = actor_name_line(ident, show_ids)
        + (match thread_line {
            Some(t) => t@ + "\n"@,
            None => Seq::empty(),
        })
        + (if window_bits != 0 { "Window "@ + time_label + "\n"@ } else { Seq::empty() });
    let tail = if stopped { "stopped"@ + "\n"@ } else { Seq::<char>::empty() };
    assert(label =~= head + line + tail);
    let i = head.len() as int;
    assert(label.subrange(i, i + line.len()) =~= line);
}

/// Appends `line` and a line break to `target`.
fn push_line(target: &mut String, line: &str)
    ensures
        final(target)@ == old(target)@ + line@ + "\n"@,
{
    target.append(line);
    target.append("\n");
}

/// Appends the further lines of an actor's graph label to `target`.
#[verifier::rlimit(50)]
fn push_status_lines(
    target: &mut String,
    thread_line: &Option<String>,
    window_bits: u8,
    time_label: &String,
    total_count_restarts: u32,
    bool_stop: bool,
)
    ensures
        final(target)@ == old(target)@ + actor_status_lines(*thread_line, window_bits, time_label@, total_count_restarts, bool_stop),
{
    let ghost start = target@;
    let ghost th = if thread_line is Some { thread_line->0@ + "\n"@ } else { Seq::<char>::empty() };
    match thread_line {
        Some(t) => push_line(target, t.as_str()),
        None => {},
    }
    assert(target@ =~= start + th);
    let ghost win = if window_bits != 0 { "Window "@ + time_label@ + "\n"@ } else { Seq::<char>::empty() };
    if window_bits != 0 {
        target.append("Window ");
        push_line(target, time_label.as_str());
    }
    assert(target@ =~= start + th + win);
    let ghost rs = if total_count_restarts > 0 {
        "restarts: "@ + decimal(total_count_restarts as nat) + "\n"@
    } else {
        Seq::<char>::empty()
    };
    if total_count_restarts > 0 {
        target.append("restarts: ");
        let digits = decimal_string(total_count_restarts as u128);
        push_line(target, digits.as_str());
    }
    assert(target@ =~= start + th + win + rs);
    let ghost st = if bool_stop { "stopped"@ + "\n"@ } else { Seq::<char>::empty() };
    if bool_stop {
        push_line(target, "stopped");
    }
    assert(target@ =~= start + (th + win + rs + st));
}

/// `(m, 1)`: a CPU use as a rational.
fn mcpu_rational(m: &MCPU) -> (r: (u64, u64))
    ensures
        r == (m@ as u64, 1u64),
{
    (m.mcpu() as u64, 1)
}

impl ActorStatsComputer {
    /// Frames per window, as a `u128`.
    fn window_frames_u128(&self) -> (r: u128)
        requires
            self.wf(),
        ensures
            r == self.spec_window_frames(),
    {
        let a = self.refresh_frames as u128;
        let b = self.window_buckets as u128;
        proof {
            assert(a * b <= u128::MAX) by (nonlinear_arith)
                requires a <= 0xffff_ffff_ffff_ffffu128, b <= 0xffff_ffff_ffff_ffffu128;
        }
        a * b
    }

    /// Sets the computer up for the actor described by `meta`, with frames
    /// of `frame_rate_ms` and a window span shown as `time_label`. The
    /// windows restart empty, each with one bucket when its histogram (if
    /// one is kept) could be made, and the actor's Prometheus labels are
    /// appended to the ones held.
    pub fn init(&mut self, meta: ActorMetaData, frame_rate_ms: u64, time_label: String)
        requires
            pow2(meta.refresh_rate_in_bits as nat) <= usize::MAX,
            pow2(meta.window_bucket_in_bits as nat) <= usize::MAX,
        ensures
            final(self).wf(),
            final(self).spec_ident() == meta.ident,
            final(self).spec_bits() == (meta.refresh_rate_in_bits, meta.window_bucket_in_bits),
            final(self).spec_refresh_frames() == pow2(meta.refresh_rate_in_bits as nat),
            final(self).spec_window_buckets() == pow2(meta.window_bucket_in_bits as nat),
            final(self).spec_time_label() == time_label@,
            final(self).spec_prometheus_labels() == old(self).spec_prometheus_labels() + actor_prometheus_labels(meta.ident.label),
            final(self).spec_triggers() == (meta.trigger_mcpu@, meta.trigger_work@),
            final(self).spec_build_histograms() == (meta.mcpu_percentiles, meta.work_percentiles),
            final(self).spec_mcpu_frames().len() == 0,
            final(self).spec_mcpu_hist_frames().len() == 0,
            final(self).spec_work_hist_frames().len() == 0,
            final(self).spec_mcpu_current() is None,
            final(self).spec_work_current() is None,
            final(self).spec_windows_complete() == (true, true),
            final(self).spec_history_lens() == (1nat, 1nat),
    {
        let mut prometheus_labels = self.prometheus_labels.clone();
        push_actor_prometheus_labels(&mut prometheus_labels, &meta.ident.label);
        let refresh_frames = pow2_usize(meta.refresh_rate_in_bits);
        let window_buckets = pow2_usize(meta.window_bucket_in_bits);
        let ghost r = refresh_frames as nat;
        let ghost n = window_buckets as nat;
        let mcpu = MetricWindow::new(meta.mcpu_percentiles, HistogramShape::Bounded(1, 1024, 1), Ghost(r), Ghost(n));
        let work = MetricWindow::new(meta.work_percentiles, HistogramShape::Bounded(1, 100, 1), Ghost(r), Ghost(n));
        *self = ActorStatsComputer {
            ident: meta.ident,
            mcpu_trigger: meta.trigger_mcpu,
            work_trigger: meta.trigger_work,
            bucket_frames_count: 0,
            refresh_rate_in_bits: meta.refresh_rate_in_bits,
            window_bucket_in_bits: meta.window_bucket_in_bits,
            refresh_frames,
            window_buckets,
            frame_rate_ms,
            time_label,
            show_avg_mcpu: meta.avg_mcpu,
            show_avg_work: meta.avg_work,
            usage_review: meta.usage_review,
            build_mcpu_histogram: meta.mcpu_percentiles,
            build_work_histogram: meta.work_percentiles,
            mcpu,
            work,
            prometheus_labels,
            show_thread_id: meta.show_thread_info,
            show_actor_ids: meta.show_actor_ids,
        };
        proof {
            assert(0nat % r == 0) by (nonlinear_arith)
                requires r >= 1;
        }
    }

    /// Records one frame of `mcpu` milli-CPUs and a `work` share in percent;
    /// every `2^refresh_rate_in_bits` frames a bucket boundary is reached,
    /// where a bucket that spans a whole window leaves it and becomes the
    /// current one.
    pub fn accumulate_data_frame(&mut self, mcpu: u16, work: u16)
        requires
            old(self).wf(),
            mcpu <= 1024,
        ensures
            final(self).wf(),
            final(self).spec_mcpu_frames() == old(self).spec_mcpu_frames().push(mcpu as u128),
            final(self).spec_work_frames() == old(self).spec_work_frames().push(work as u128),
            final(self).spec_mcpu_hist_frames() == old(self).spec_mcpu_hist_frames().push(mcpu as u64),
            final(self).spec_work_hist_frames() == old(self).spec_work_hist_frames().push(work as u64),
            final(self).spec_triggers() == old(self).spec_triggers(),
            final(self).spec_ident() == old(self).spec_ident(),
            final(self).spec_bits() == old(self).spec_bits(),
            final(self).spec_time_label() == old(self).spec_time_label(),
            final(self).spec_prometheus_labels() == old(self).spec_prometheus_labels(),
            final(self).spec_build_histograms() == old(self).spec_build_histograms(),
            final(self).spec_refresh_frames() == old(self).spec_refresh_frames(),
            final(self).spec_window_buckets() == old(self).spec_window_buckets(),
            final(self).spec_show_ids() == old(self).spec_show_ids(),
            final(self).spec_windows_complete() == old(self).spec_windows_complete(),
    {
        let ghost r = self.refresh_frames as nat;
        let ghost len = self.mcpu.spec_frames().len();
        proof {
            crate::channel_stats::lemma_mod_step(len, r);
        }
        let rotate = self.bucket_frames_count + 1 >= self.refresh_frames;
        self.mcpu.accumulate(mcpu as u64, false, mcpu as u64, rotate, self.window_buckets, Ghost(r));
        self.work.accumulate(work as u64, false, work as u64, rotate, self.window_buckets, Ghost(r));
        if rotate {
            self.bucket_frames_count = 0;
        } else {
            self.bucket_frames_count = self.bucket_frames_count + 1;
        }
    }

    /// Whether a rule on the CPU use holds for the last completed window:
    /// the window's sum against the bound times the frames per window.
    pub open spec fn mcpu_rule_holds(&self, rule: Trigger<MCPU>) -> bool {
        let frames = self.spec_window_frames() as u128;
        match rule {
            Trigger::AvgBelow(m) => avg_below(self.spec_mcpu_current(), frames, 1, m@ as u64, 1),
            Trigger::AvgAbove(m) => avg_above(self.spec_mcpu_current(), frames, 1, m@ as u64, 1),
        }
    }

    /// Whether a rule on the work share holds for the last completed window:
    /// the window's sum (in percent) times 10 000 against 100 times the
    /// frames per window times the bound (in hundredths of a percent).
    pub open spec fn work_rule_holds(&self, rule: Trigger<Work>) -> bool {
        let frames = self.spec_window_frames() as u128;
        match rule {
            Trigger::AvgBelow(w) => avg_below(self.spec_work_current(), frames, 100, w@ as u64, 10_000),
            Trigger::AvgAbove(w) => avg_above(self.spec_work_current(), frames, 100, w@ as u64, 10_000),
        }
    }

    /// Whether some rule of color `c` holds.
    pub open spec fn alert_raised(&self, c: AlertColor) -> bool {
        let (mcpu, work) = self.spec_triggers();
        ||| exists|i: int| 0 <= i < mcpu.len() && mcpu[i].1 == c && #[trigger] self.mcpu_rule_holds(mcpu[i].0)
        ||| exists|i: int| 0 <= i < work.len() && work[i].1 == c && #[trigger] self.work_rule_holds(work[i].0)
    }

    /// Whether `rule` on the CPU use holds.
    pub fn triggered_mcpu(&self, rule: &Trigger<MCPU>) -> (r: bool)
        requires
            self.wf(),
        ensures
            r == self.mcpu_rule_holds(*rule),
    {
        let run_divisor = self.window_frames_u128();
        match rule {
            Trigger::AvgBelow(m) => is_less(avg_rational(run_divisor, 1, self.mcpu.current(), mcpu_rational(m))),
            Trigger::AvgAbove(m) => is_greater(avg_rational(run_divisor, 1, self.mcpu.current(), mcpu_rational(m))),
        }
    }

    /// Whether `rule` on the work share holds.
    pub fn triggered_work(&self, rule: &Trigger<Work>) -> (r: bool)
        requires
            self.wf(),
        ensures
            r == self.work_rule_holds(*rule),
    {
        let run_divisor = self.window_frames_u128();
        match rule {
            Trigger::AvgBelow(w) => is_less(avg_rational(run_divisor, 100, self.work.current(), w.rational())),
            Trigger::AvgAbove(w) => is_greater(avg_rational(run_divisor, 100, self.work.current(), w.rational())),
        }
    }

    /// Whether some rule of color `c1` holds, on the CPU use or the work share.
    pub fn trigger_alert_level(&self, c1: &AlertColor) -> (r: bool)
        requires
            self.wf(),
        ensures
            r == self.alert_raised(*c1),
    {
        proof {
            assert(self.spec_triggers().0 == self.mcpu_trigger@);
            assert(self.spec_triggers().1 == self.work_trigger@);
        }
        let mut i: usize = 0;
        let mut found = false;
        while i < self.mcpu_trigger.len() && !found
            invariant
                self.wf(),
                i <= self.mcpu_trigger.len(),
                self.spec_triggers().0 == self.mcpu_trigger@,
                self.spec_triggers().1 == self.work_trigger@,
                found ==> self.alert_raised(*c1),
                !found ==> forall|j: int| 0 <= j < i && self.mcpu_trigger@[j].1 == *c1
                    ==> !#[trigger] self.mcpu_rule_holds(self.mcpu_trigger@[j].0),
            decreases self.mcpu_trigger.len() - i,
        {
            let t = self.mcpu_trigger[i];
            if t.1 == *c1 && self.triggered_mcpu(&t.0) {
                found = true;
                proof {
                    assert(self.mcpu_rule_holds(self.mcpu_trigger@[i as int].0));
                }
            }
            i += 1;
        }
        let mut i: usize = 0;
        while i < self.work_trigger.len() && !found
            invariant
                self.wf(),
                i <= self.work_trigger.len(),
                self.spec_triggers().0 == self.mcpu_trigger@,
                self.spec_triggers().1 == self.work_trigger@,
                found ==> self.alert_raised(*c1),
                !found ==> forall|j: int| 0 <= j < self.mcpu_trigger@.len() && self.mcpu_trigger@[j].1 == *c1
                    ==> !#[trigger] self.mcpu_rule_holds(self.mcpu_trigger@[j].0),
                !found ==> forall|j: int| 0 <= j < i && self.work_trigger@[j].1 == *c1
                    ==> !#[trigger] self.work_rule_holds(self.work_trigger@[j].0),
            decreases self.work_trigger.len() - i,
        {
            let t = self.work_trigger[i];
            if t.1 == *c1 && self.triggered_work(&t.0) {
                found = true;
                proof {
                    assert(self.work_rule_holds(self.work_trigger@[i as int].0));
                }
            }
            i += 1;
        }
        found
    }
}

impl ActorStatsComputer {
    /// Whether the graph shows actor ids, and whether it shows the thread.
    pub closed spec fn spec_show_ids(&self) -> (bool, bool) {
        (self.show_actor_ids, self.show_thread_id)
    }

    /// Appends the first line of the actor's graph label to `target`.
    fn push_name_line(&self, target: &mut String)
        ensures
            final(target)@ == old(target)@ + actor_name_line(self.spec_ident(), self.spec_show_ids().0),
    {
        let ghost start = target@;
        target.append(self.ident.label.name.as_str());
        match self.ident.label.suffix {
            Some(suffix) => {
                let digits = decimal_string(suffix as u128);
                target.append(digits.as_str());
            },
            None => {},
        }
        let ghost named = target@;
        if self.show_actor_ids {
            target.append("[");
            let digits = decimal_string(self.ident.id as u128);
            target.append(digits.as_str());
            target.append("]");
        }
        let ghost with_id = target@;
        target.append("\n");
        proof {
            let ident = self.ident;
            let suf = if ident.label.suffix is Some {
                decimal(ident.label.suffix->0 as nat)
            } else {
                Seq::empty()
            };
            let ids = if self.show_actor_ids { "["@ + decimal(ident.id as nat) + "]"@ } else { Seq::empty() };
            assert(named =~= start + ident.label.name@ + suf);
            assert(with_id =~= start + ident.label.name@ + suf + ids);
            assert(target@ =~= start + (ident.label.name@ + suf + ids + "\n"@));
        }
    }

    /// Records a frame of CPU use and work share, when one is given, sets
    /// `dot_label` to the actor's graph label and returns its color: grey
    /// when no rule watches the actor (neither one of its own nor one
    /// evaluated elsewhere, whose alerts come in `outside_alerts`), else
    /// green unless an alert is raised, the most severe of which wins.
    pub fn compute(
        &mut self,
        dot_label: &mut String,
        mcpu_load: Option<(u16, u16)>,
        total_count_restarts: u32,
        bool_stop: bool,
        thread_line: Option<String>,
        outside_alerts: Option<AlertLevels>,
    ) -> (r: LineColor)
        requires
            old(self).wf(),
            mcpu_load matches Some((m, _)) ==> m <= 1024,
        ensures
            final(self).wf(),
            final(self).spec_triggers() == old(self).spec_triggers(),
            match mcpu_load {
                Some((m, w)) => {
                    &&& final(self).spec_mcpu_frames() == old(self).spec_mcpu_frames().push(m as u128)
                    &&& final(self).spec_work_frames() == old(self).spec_work_frames().push(w as u128)
                    &&& final(self).spec_mcpu_hist_frames() == old(self).spec_mcpu_hist_frames().push(m as u64)
                    &&& final(self).spec_work_hist_frames() == old(self).spec_work_hist_frames().push(w as u64)
                },
                None => *final(self) == *old(self),
            },
            final(dot_label)@ == actor_dot_label(
                old(self).spec_ident(),
                old(self).spec_show_ids().0,
                thread_line,
                old(self).spec_bits().1,
                old(self).spec_time_label(),
                total_count_restarts,
                bool_stop,
            ),
            ({
                let (mcpu_rules, work_rules) = old(self).spec_triggers();
                if mcpu_rules.len() == 0 && work_rules.len() == 0 && outside_alerts is None {
                    r == LineColor::Grey
                } else {
                    let o = match outside_alerts {
                        Some(a) => a,
                        None => AlertLevels { yellow: false, orange: false, red: false },
                    };
                    r == alert_color(
                        LineColor::Green,
                        final(self).alert_raised(AlertColor::Yellow) || o.yellow,
                        final(self).alert_raised(AlertColor::Orange) || o.orange,
                        final(self).alert_raised(AlertColor::Red) || o.red,
                    )
                }
            }),
    {
        match mcpu_load {
            Some((m, w)) => {
                self.accumulate_data_frame(m, w);
            },
            None => {},
        }
        *dot_label = String::new();
        self.push_name_line(dot_label);
        push_status_lines(dot_label, &thread_line, self.window_bucket_in_bits, &self.time_label, total_count_restarts, bool_stop);
        let outside = match outside_alerts {
            Some(a) => a,
            None => AlertLevels { yellow: false, orange: false, red: false },
        };
        let mut line_color = LineColor::Grey;
        if !self.mcpu_trigger.is_empty() || !self.work_trigger.is_empty() || outside_alerts.is_some() {
            line_color = LineColor::Green;
            if self.trigger_alert_level(&AlertColor::Yellow) || outside.yellow {
                line_color = LineColor::Yellow;
            }
            if self.trigger_alert_level(&AlertColor::Orange) || outside.orange {
                line_color = LineColor::Orange;
            }
            if self.trigger_alert_level(&AlertColor::Red) || outside.red {
                line_color = LineColor::Red;
            }
        }
        line_color
    }
}

/// While every bucket of a window could be made, the last completed sum of
/// the CPU use and of the work share is there exactly when a whole window
/// of frames was seen, and it is the sum of the samples of the last whole
/// window before the last bucket boundary.
pub proof fn law_actor_windows_hold_last_window(c: ActorStatsComputer)
    requires
        c.wf(),
    ensures
        ({
            let r = c.spec_refresh_frames();
            let n = c.spec_window_buckets();
            let seen = c.spec_mcpu_frames().len();
            let end = (seen / r) * r;
            &&& c.spec_work_frames().len() == seen
            &&& c.spec_windows_complete().0 ==> {
                &&& (seen / r >= n <==> c.spec_mcpu_current() is Some)
                &&& c.spec_mcpu_current() is Some ==> n * r <= end <= seen
                &&& c.spec_mcpu_current() matches Some(x) ==> x == saturating_sum(c.spec_mcpu_frames().subrange(end - n * r, end as int))
                &&& (c.spec_mcpu_current_squares() is Some <==> c.spec_mcpu_current() is Some)
                &&& c.spec_mcpu_current_squares() matches Some(x) ==> x == saturating_sum(squares(c.spec_mcpu_frames().subrange(end - n * r, end as int)))
            }
            &&& c.spec_windows_complete().1 ==> {
                &&& (seen / r >= n <==> c.spec_work_current() is Some)
                &&& c.spec_work_current() is Some ==> n * r <= end <= seen
                &&& c.spec_work_current() matches Some(x) ==> x == saturating_sum(c.spec_work_frames().subrange(end - n * r, end as int))
                &&& (c.spec_work_current_squares() is Some <==> c.spec_work_current() is Some)
                &&& c.spec_work_current_squares() matches Some(x) ==> x == saturating_sum(squares(c.spec_work_frames().subrange(end - n * r, end as int)))
            }
        }),
{
    let r = c.refresh_frames as nat;
    let n = c.window_buckets as nat;
    if c.mcpu.spec_all_made() {
        law_current_is_last_window(c.mcpu, r, n);
    }
    if c.work.spec_all_made() {
        law_current_is_last_window(c.work, r, n);
    }
}

impl ActorStatsComputer {
    /// Whether histograms are kept of the CPU use and of the work share.
    pub fn build_histograms(&self) -> (r: (bool, bool))
        ensures
            r == self.spec_build_histograms(),
    {
        (self.build_mcpu_histogram, self.build_work_histogram)
    }

    /// The number of buckets still filling in the CPU and work windows.
    pub closed spec fn spec_history_lens(&self) -> (nat, nat) {
        (self.mcpu.spec_history().len(), self.work.spec_history().len())
    }

    /// The number of buckets still filling in the CPU and work windows.
    pub fn history_lens(&self) -> (r: (usize, usize))
        ensures
            r.0 == self.spec_history_lens().0,
            r.1 == self.spec_history_lens().1,
    {
        (self.mcpu.history_len(), self.work.history_len())
    }

    /// The frame length, in milliseconds.
    pub fn frame_rate_ms(&self) -> (r: u64)
        ensures
            r == self.spec_frame_rate_ms(),
    {
        self.frame_rate_ms
    }

    /// The bucket and window sizes, in bits.
    pub fn refresh_window_bits(&self) -> (r: (u8, u8))
        ensures
            r == self.spec_bits(),
    {
        (self.refresh_rate_in_bits, self.window_bucket_in_bits)
    }

    /// The actor's Prometheus labels.
    pub fn prometheus_labels(&self) -> (r: &String)
        ensures
            r@ == self.spec_prometheus_labels(),
    {
        &self.prometheus_labels
    }

    /// The CPU and work buckets that last left their windows.
    pub fn current_blocks(&self) -> (r: (&Option<ChannelBlock<Histogram16>>, &Option<ChannelBlock<Histogram8>>))
        ensures
            runner_of(*r.0) == self.spec_mcpu_current(),
            runner_of(*r.1) == self.spec_work_current(),
            squares_of(*r.0) == self.spec_mcpu_current_squares(),
            squares_of(*r.1) == self.spec_work_current_squares(),
    {
        (self.mcpu.current(), self.work.current())
    }

    /// The rules on the CPU use and on the work share.
    pub fn triggers(&self) -> (r: (&Vec<(Trigger<MCPU>, AlertColor)>, &Vec<(Trigger<Work>, AlertColor)>))
        ensures
            r.0@ == self.spec_triggers().0,
            r.1@ == self.spec_triggers().1,
    {
        (&self.mcpu_trigger, &self.work_trigger)
    }

    /// The running sums of the CPU and work windows last completed.
    pub fn current_runners(&self) -> (r: (Option<u128>, Option<u128>))
        ensures
            r == (self.spec_mcpu_current(), self.spec_work_current()),
    {
        let m = match self.mcpu.current() {
            Some(b) => Some(b.runner()),
            None => None,
        };
        let w = match self.work.current() {
            Some(b) => Some(b.runner()),
            None => None,
        };
        (m, w)
    }

    /// Adds a rule on the CPU use.
    pub fn add_mcpu_trigger(&mut self, rule: Trigger<MCPU>, color: AlertColor)
        ensures
            final(self).spec_triggers() == (old(self).spec_triggers().0.push((rule, color)), old(self).spec_triggers().1),
            final(self).wf() == old(self).wf(),
            final(self).spec_mcpu_current() == old(self).spec_mcpu_current(),
            final(self).spec_work_current() == old(self).spec_work_current(),
            final(self).spec_window_frames() == old(self).spec_window_frames(),
    {
        self.mcpu_trigger.push((rule, color));
    }

    /// Adds a rule on the work share.
    pub fn add_work_trigger(&mut self, rule: Trigger<Work>, color: AlertColor)
        ensures
            final(self).spec_triggers() == (old(self).spec_triggers().0, old(self).spec_triggers().1.push((rule, color))),
            final(self).wf() == old(self).wf(),
            final(self).spec_mcpu_current() == old(self).spec_mcpu_current(),
            final(self).spec_work_current() == old(self).spec_work_current(),
            final(self).spec_window_frames() == old(self).spec_window_frames(),
    {
        self.work_trigger.push((rule, color));
    }
}

/// Under a constant load the window's sums are exact: when every CPU
/// sample equals `mcpu` and every work sample equals `work`, a completed
/// window sums to the frames per window times the sample, and its sum of
/// squares to the frames per window times the sample squared, as long as
/// that total fits in a `u128`; so a higher constant load gives a higher sum.
pub proof fn law_actor_constant_load(c: ActorStatsComputer, mcpu: u16, work: u16)
    requires
        c.wf(),
        forall|i: int| 0 <= i < c.spec_mcpu_frames().len() ==> #[trigger] c.spec_mcpu_frames()[i] == mcpu as u128,
        forall|i: int| 0 <= i < c.spec_work_frames().len() ==> #[trigger] c.spec_work_frames()[i] == work as u128,
    ensures
        c.spec_windows_complete().0 && c.spec_window_frames() * mcpu <= u128::MAX ==>
            (c.spec_mcpu_current() matches Some(x) ==> x == c.spec_window_frames() * mcpu),
        c.spec_windows_complete().0 && c.spec_window_frames() * (mcpu * mcpu) <= u128::MAX ==>
            (c.spec_mcpu_current_squares() matches Some(x) ==> x == c.spec_window_frames() * (mcpu * mcpu)),
        c.spec_windows_complete().1 && c.spec_window_frames() * work <= u128::MAX ==>
            (c.spec_work_current() matches Some(x) ==> x == c.spec_window_frames() * work),
        c.spec_windows_complete().1 && c.spec_window_frames() * (work * work) <= u128::MAX ==>
            (c.spec_work_current_squares() matches Some(x) ==> x == c.spec_window_frames() * (work * work)),
{
    law_actor_windows_hold_last_window(c);
    let r = c.spec_refresh_frames();
    let n = c.spec_window_buckets();
    let w = c.spec_window_frames();
    let seen = c.spec_mcpu_frames().len();
    let end = (seen / r) * r;
    assert(n * r == w) by (nonlinear_arith)
        requires w == r * n;
    if c.spec_windows_complete().0 && c.spec_mcpu_current() is Some {
        let last = c.spec_mcpu_frames().subrange(end - n * r, end as int);
        assert(last.len() == w);
        assert forall|i: int| 0 <= i < last.len() implies #[trigger] last[i] == mcpu as u128 by {
            assert(last[i] == c.spec_mcpu_frames()[i + (end - n * r)]);
        }
        if w * mcpu <= u128::MAX {
            lemma_saturating_sum_constant(last, mcpu as u128);
        }
        lemma_squares_constant(last, mcpu as u128);
        let sq = (mcpu * mcpu) as u128;
        assert(sq == mcpu * mcpu) by (nonlinear_arith)
            requires mcpu <= 0xffff, sq == (mcpu * mcpu) as u128;
        assert((mcpu as u128) * (mcpu as u128) == mcpu * mcpu);
        if w * (mcpu * mcpu) <= u128::MAX {
            assert(squares(last).len() * sq <= u128::MAX);
            lemma_saturating_sum_constant(squares(last), sq);
        }
    }
    if c.spec_windows_complete().1 && c.spec_work_current() is Some {
        let last = c.spec_work_frames().subrange(end - n * r, end as int);
        assert(last.len() == w);
        assert forall|i: int| 0 <= i < last.len() implies #[trigger] last[i] == work as u128 by {
            assert(last[i] == c.spec_work_frames()[i + (end - n * r)]);
        }
        if w * work <= u128::MAX {
            lemma_saturating_sum_constant(last, work as u128);
        }
        lemma_squares_constant(last, work as u128);
        let sq = (work * work) as u128;
        assert(sq == work * work) by (nonlinear_arith)
            requires work <= 0xffff, sq == (work * work) as u128;
        assert((work as u128) * (work as u128) == work * work);
        if w * (work * work) <= u128::MAX {
            assert(squares(last).len() * sq <= u128::MAX);
            lemma_saturating_sum_constant(squares(last), sq);
        }
    }
}

} // verus!
