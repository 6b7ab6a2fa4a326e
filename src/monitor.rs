//! The network monitor: a bounded window of latency samples, and a detector
//! that scores each new sample against the window before it joins it.
use std::collections::VecDeque;
use vstd::prelude::*;
use crate::wide::{gt_quad, gt_wide, mul_quad, mul_wide, quad_value, sub_wide, wide_value};

verus! {

/// Window size of a monitor built with defaults.
pub const DEFAULT_WINDOW_SIZE: usize = 100;

/// Anomaly threshold of a monitor built with defaults, in thousandths (2.0).
pub const DEFAULT_THRESHOLD: u32 = 2000;

/// One sample of network health. `latency` is in whole milliseconds,
/// `packet_loss` in whole percent, and `bandwidth` is not measured and is 0
/// in every sample that the sampler builds.
#[derive(Clone, Copy, Debug, PartialEq, Eq, Structural)]
pub struct NetworkMetrics {
    pub timestamp: u64,
    pub latency: u32,
    pub packet_loss: u64,
    pub bandwidth: u64,
    pub is_anomaly: bool,
}

/// How a monitor is (re)configured. `anomaly_threshold` is in thousandths:
/// 2000 is a threshold of 2.0. `sampling_interval` is for the caller that
/// drives the sampling; the monitor does not read it.
#[derive(Clone, Copy, Debug, PartialEq, Eq, Structural)]
pub struct MonitorConfig {
    pub window_size: usize,
    pub anomaly_threshold: u32,
    pub sampling_interval: u64,
}

/// Why a monitor could not be configured.
#[derive(Clone, Copy, Debug, PartialEq, Eq, Structural)]
pub enum MonitorError {
    /// The window size was zero.
    InvalidWindowSize,
}

/// The score of a sample against a window of `samples` entries with mean
/// `m` and population standard deviation `sd`, in exact form:
/// `deviation` is `samples * |latency - m|` and
/// `spread_low + spread_high * 2^128` is `samples * samples * sd * sd`. The score is
/// `deviation / (sqrt(spread) + samples * 1e-10)`, and 0 for an empty window.
#[derive(Clone, Copy, Debug, PartialEq, Eq, Structural)]
pub struct AnomalyScore {
    pub deviation: u128,
    pub spread_low: u128,
    pub spread_high: u128,
    pub samples: u64,
}

/// A scored sample, with the threshold it was scored against.
#[derive(Clone, Copy, Debug, PartialEq, Eq, Structural)]
pub struct AnomalyDetectionResult {
    pub metrics: NetworkMetrics,
    pub anomaly_score: AnomalyScore,
    pub threshold: u32,
}

/// Sum of the window's latencies.
pub open spec fn latency_sum(h: Seq<NetworkMetrics>) -> int
    decreases h.len(),
{
    if h.len() == 0 {
        0
    } else {
        latency_sum(h.drop_last()) + h.last().latency
    }
}

/// Sum of the squares of the window's latencies.
pub open spec fn latency_sq_sum(h: Seq<NetworkMetrics>) -> int
    decreases h.len(),
{
    if h.len() == 0 {
        0
    } else {
        latency_sq_sum(h.drop_last()) + h.last().latency * h.last().latency
    }
}

/// `n * n` times the population variance of the window's latencies.
pub open spec fn spread_of(h: Seq<NetworkMetrics>) -> int {
    h.len() * latency_sq_sum(h) - latency_sum(h) * latency_sum(h)
}

/// `n` times the distance of `x` from the window's mean latency.
pub open spec fn deviation_of(h: Seq<NetworkMetrics>, x: u32) -> int {
    let d = h.len() * x - latency_sum(h);
    if d >= 0 { d } else { -d }
}

/// Whether the score `deviation / (sqrt(spread) + n * 1e-10)` of a sample
/// against a window of `n` entries is strictly above `threshold / 1000`.
/// Multiplying out, with `l = deviation * 10^13 - threshold * n`, that is
/// `l > 10^10 * threshold * sqrt(spread)`, so `l > 0` and
/// `l * l > 10^20 * threshold^2 * spread`. An empty window scores 0, which
/// no threshold is below.
pub open spec fn exceeds(deviation: int, spread: int, n: int, threshold: int) -> bool {
    let l = deviation * 10_000_000_000_000 - threshold * n;
    &&& n > 0
    &&& l > 0
    &&& l * l > 100_000_000_000_000_000_000 * (threshold * threshold) * spread
}

/// Whether a sample of latency `x` is an anomaly against window `h`.
pub open spec fn is_anomalous(h: Seq<NetworkMetrics>, x: u32, threshold: u32) -> bool {
    exceeds(deviation_of(h, x), spread_of(h), h.len() as int, threshold as int)
}

/// The sample with its anomaly flag resolved against window `h`.
pub open spec fn scored(h: Seq<NetworkMetrics>, threshold: u32, m: NetworkMetrics) -> NetworkMetrics {
    NetworkMetrics { is_anomaly: is_anomalous(h, m.latency, threshold), ..m }
}

/// The window after `m` joins it: the oldest entry leaves first when the
/// window is full.
pub open spec fn slide(h: Seq<NetworkMetrics>, window: nat, m: NetworkMetrics) -> Seq<NetworkMetrics> {
    if h.len() >= window {
        h.drop_first().push(m)
    } else {
        h.push(m)
    }
}

/// The window after each of `ms` joins it in turn.
pub open spec fn slide_all(h: Seq<NetworkMetrics>, window: nat, ms: Seq<NetworkMetrics>) -> Seq<NetworkMetrics>
    decreases ms.len(),
{
    if ms.len() == 0 {
        h
    } else {
        slide(slide_all(h, window, ms.drop_last()), window, ms.last())
    }
}

/// The last `window` entries of `s`, in order.
pub open spec fn latest(s: Seq<NetworkMetrics>, window: nat) -> Seq<NetworkMetrics> {
    if s.len() <= window {
        s
    } else {
        s.subrange(s.len() - window, s.len() as int)
    }
}

/// Sum of squared distances of the window's latencies from `x`.
spec fn sq_dist_sum(h: Seq<NetworkMetrics>, x: int) -> int
    decreases h.len(),
{
    if h.len() == 0 {
        0
    } else {
        sq_dist_sum(h.drop_last(), x) + (h.last().latency - x) * (h.last().latency - x)
    }
}

proof fn lemma_sq_dist_sum(h: Seq<NetworkMetrics>, x: int)
    ensures
        sq_dist_sum(h, x) >= 0,
        sq_dist_sum(h, x) == latency_sq_sum(h) - 2 * x * latency_sum(h) + h.len() * x * x,
    decreases h.len(),
{
    if h.len() > 0 {
        let t = h.drop_last();
        let l = h.last().latency as int;
        let n = t.len() as int;
        let q = latency_sq_sum(t);
        let s = latency_sum(t);
        lemma_sq_dist_sum(t, x);
        assert((l - x) * (l - x) >= 0) by (nonlinear_arith);
        assert(h.len() as int == n + 1);
        assert(latency_sum(h) == s + l);
        assert(latency_sq_sum(h) == q + l * l);
        assert(sq_dist_sum(h, x) == sq_dist_sum(t, x) + (l - x) * (l - x));
        assert(h.len() * x * x == (n + 1) * x * x);
        assert((q - 2 * x * s + n * x * x) + (l - x) * (l - x)
            == (q + l * l) - 2 * x * (s + l) + (n + 1) * x * x) by (nonlinear_arith);
    } else {
        assert(h.len() * x * x == 0) by (nonlinear_arith)
            requires h.len() == 0;
    }
}

/// The spread of a window is never negative.
pub proof fn lemma_spread_nonnegative(h: Seq<NetworkMetrics>)
    ensures
        spread_of(h) >= 0,
    decreases h.len(),
{
    if h.len() > 0 {
        let t = h.drop_last();
        let y = h.last().latency as int;
        let n = t.len() as int;
        let s = latency_sum(t);
        let q = latency_sq_sum(t);
        lemma_spread_nonnegative(t);
        lemma_sq_dist_sum(t, y);
        assert((n + 1) * (q + y * y) - (s + y) * (s + y) == (n * q - s * s) + (q - 2 * y * s + n * y * y))
            by (nonlinear_arith);
    }
}

/// Once the window has filled, it holds exactly the latest `window` samples
/// fed to it, oldest first.
pub proof fn lemma_window_keeps_latest(h: Seq<NetworkMetrics>, window: nat, ms: Seq<NetworkMetrics>)
    requires
        h.len() <= window,
        window >= 1,
    ensures
        slide_all(h, window, ms) == latest(h + ms, window),
    decreases ms.len(),
{
    if ms.len() > 0 {
        let prev = ms.drop_last();
        let m = ms.last();
        lemma_window_keeps_latest(h, window, prev);
        let s = h + prev;
        assert(h + ms =~= s.push(m));
        let w = latest(s, window);
        assert(slide(w, window, m) =~= latest(s.push(m), window));
    }
}

/// Scoring a sample changes its anomaly flag and nothing else.
pub proof fn lemma_scoring_keeps_sample(h: Seq<NetworkMetrics>, threshold: u32, m: NetworkMetrics)
    ensures
        scored(h, threshold, m).timestamp == m.timestamp,
        scored(h, threshold, m).latency == m.latency,
        scored(h, threshold, m).packet_loss == m.packet_loss,
        scored(h, threshold, m).bandwidth == m.bandwidth,
        scored(h, threshold, m).is_anomaly == is_anomalous(h, m.latency, threshold),
        !is_anomalous(h, m.latency, threshold) ==> scored(h, threshold, m) == (NetworkMetrics { is_anomaly: false, ..m }),
{
}

/// An empty window scores every sample 0 and flags none.
pub proof fn lemma_empty_window_flags_nothing(threshold: u32, m: NetworkMetrics)
    ensures
        deviation_of(Seq::empty(), m.latency) == 0,
        spread_of(Seq::empty()) == 0,
        !scored(Seq::empty(), threshold, m).is_anomaly,
{
}

/// A window of equal latencies flags any sample whose latency differs, at
/// every threshold that a monitor can hold.
pub proof fn lemma_flat_window_flags_change(h: Seq<NetworkMetrics>, threshold: u32, m: NetworkMetrics)
    requires
        h.len() >= 1,
        forall|i: int| 0 <= i < h.len() ==> #[trigger] h[i].latency == h[0].latency,
        m.latency != h[0].latency,
    ensures
        spread_of(h) == 0,
        deviation_of(h, m.latency) > 0,
        scored(h, threshold, m).is_anomaly,
{
    let v = h[0].latency as int;
    lemma_flat_sums(h, v);
    let n = h.len() as int;
    assert(n * (n * (v * v)) - (n * v) * (n * v) == 0) by (nonlinear_arith);
    let x = m.latency as int;
    let d = n * x - n * v;
    let dev = deviation_of(h, m.latency);
    assert(dev >= n) by (nonlinear_arith)
        requires
            d == n * x - n * v,
            dev == if d >= 0 { d } else { -d },
            n >= 1,
            x != v,
    ;
    let l = dev * 10_000_000_000_000 - threshold * n;
    assert(l > 0 && l * l > 0) by (nonlinear_arith)
        requires l == dev * 10_000_000_000_000 - threshold * n, dev >= n, n >= 1, threshold <= 0xFFFF_FFFFint;
}

proof fn lemma_flat_sums(h: Seq<NetworkMetrics>, v: int)
    requires
        forall|i: int| 0 <= i < h.len() ==> #[trigger] h[i].latency == v,
    ensures
        latency_sum(h) == h.len() * v,
        latency_sq_sum(h) == h.len() * (v * v),
    decreases h.len(),
{
    if h.len() > 0 {
        let t = h.drop_last();
        assert forall|i: int| 0 <= i < t.len() implies #[trigger] t[i].latency == v by {
            assert(t[i] == h[i]);
        }
        lemma_flat_sums(t, v);
        assert(h.last() == h[h.len() - 1]);
        let n = t.len() as int;
        assert(h.len() as int == n + 1);
        assert((n + 1) * v == n * v + v) by (nonlinear_arith);
        assert((n + 1) * (v * v) == n * (v * v) + v * v) by (nonlinear_arith);
        assert(latency_sum(h) == latency_sum(t) + v);
        assert(h.len() * v == (n + 1) * v);
        assert(h.len() * (v * v) == (n + 1) * (v * v));
    } else {
        assert(h.len() * v == 0 && h.len() * (v * v) == 0) by (nonlinear_arith)
            requires h.len() == 0;
    }
}


proof fn lemma_sum_bounds(h: Seq<NetworkMetrics>)
    ensures
        0 <= latency_sum(h) <= h.len() * 0xFFFF_FFFFint,
        0 <= latency_sq_sum(h) <= h.len() * 0xFFFF_FFFE_0000_0001int,
    decreases h.len(),
{
    if h.len() > 0 {
        let l = h.last().latency as int;
        lemma_sum_bounds(h.drop_last());
        assert(0 <= l * l <= 0xFFFF_FFFE_0000_0001int) by (nonlinear_arith)
            requires 0 <= l <= 0xFFFF_FFFFint;
    }
}

/// A bounded window of latency samples, oldest first, with the threshold
/// that new samples are scored against.
pub struct NetworkMonitor {
    history: VecDeque<NetworkMetrics>,
    window_size: usize,
    anomaly_threshold: u32,
}

impl View for NetworkMonitor {
    type V = Seq<NetworkMetrics>;

    closed spec fn view(&self) -> Seq<NetworkMetrics> {
        self.history@
    }
}

impl NetworkMonitor {
    pub closed spec fn spec_window_size(&self) -> nat {
        self.window_size as nat
    }

    pub closed spec fn spec_threshold(&self) -> u32 {
        self.anomaly_threshold
    }

    /// The window size is in range and the window never exceeds it.
    pub open spec fn wf(&self) -> bool {
        &&& 1 <= self.spec_window_size()
        &&& self@.len() <= self.spec_window_size()
    }

    /// An empty monitor; fails when `window_size` is zero.
    pub fn new(window_size: usize, anomaly_threshold: u32) -> (r: Result<NetworkMonitor, MonitorError>)
        ensures
            r is Err <==> (window_size == 0),
            r is Err ==> r == Err::<NetworkMonitor, MonitorError>(MonitorError::InvalidWindowSize),
            r matches Ok(m) ==> {
                &&& m.wf()
                &&& m@ == Seq::<NetworkMetrics>::empty()
                &&& m.spec_window_size() == window_size
                &&& m.spec_threshold() == anomaly_threshold
            },
    {
        if window_size == 0 {
            return Err(MonitorError::InvalidWindowSize);
        }
        Ok(NetworkMonitor { history: VecDeque::new(), window_size, anomaly_threshold })
    }

    /// An empty monitor with a window of 100 and a threshold of 2.0.
    pub fn with_defaults() -> (r: NetworkMonitor)
        ensures
            r.wf(),
            r@ == Seq::<NetworkMetrics>::empty(),
            r.spec_window_size() == DEFAULT_WINDOW_SIZE,
            r.spec_threshold() == DEFAULT_THRESHOLD,
    {
        NetworkMonitor { history: VecDeque::new(), window_size: DEFAULT_WINDOW_SIZE, anomaly_threshold: DEFAULT_THRESHOLD }
    }

    pub fn window_size(&self) -> (r: usize)
        ensures
            r == self.spec_window_size(),
    {
        self.window_size
    }

    pub fn anomaly_threshold(&self) -> (r: u32)
        ensures
            r == self.spec_threshold(),
    {
        self.anomaly_threshold
    }

    /// Replaces the whole state: the window is emptied and takes the new
    /// size and threshold. On an invalid size nothing changes.
    pub fn reset(&mut self, window_size: usize, anomaly_threshold: u32) -> (r: Result<(), MonitorError>)
        requires
            old(self).wf(),
        ensures
            final(self).wf(),
            r is Err <==> (window_size == 0),
            r is Err ==> r == Err::<(), MonitorError>(MonitorError::InvalidWindowSize) && *final(self) == *old(self),
            r is Ok ==> {
                &&& final(self)@ == Seq::<NetworkMetrics>::empty()
                &&& final(self).spec_window_size() == window_size
                &&& final(self).spec_threshold() == anomaly_threshold
            },
    {
        match NetworkMonitor::new(window_size, anomaly_threshold) {
            Ok(fresh) => {
                *self = fresh;
                Ok(())
            },
            Err(e) => Err(e),
        }
    }

    /// A copy of the window, oldest first.
    pub fn snapshot(&self) -> (r: Vec<NetworkMetrics>)
        ensures
            r@ == self@,
    {
        let mut out: Vec<NetworkMetrics> = Vec::new();
        let mut i: usize = 0;
        while i < self.history.len()
            invariant
                i <= self.history@.len(),
                out@ == self.history@.take(i as int),
            decreases self.history@.len() - i,
        {
            out.push(self.history[i]);
            i = i + 1;
            assert(out@ =~= self.history@.take(i as int));
        }
        assert(self.history@.take(i as int) =~= self.history@);
        out
    }

    /// Scores `metrics` against the current window, sets its anomaly flag,
    /// and appends it, evicting the oldest entry when the window is full.
    pub fn detect_anomaly(&mut self, metrics: NetworkMetrics) -> (r: AnomalyDetectionResult)
        requires
            old(self).wf(),
        ensures
            final(self).wf(),
            final(self).spec_window_size() == old(self).spec_window_size(),
            final(self).spec_threshold() == old(self).spec_threshold(),
            r.metrics == scored(old(self)@, old(self).spec_threshold(), metrics),
            r.anomaly_score.deviation == deviation_of(old(self)@, metrics.latency),
            wide_value(r.anomaly_score.spread_high, r.anomaly_score.spread_low) == spread_of(old(self)@),
            r.anomaly_score.samples == old(self)@.len(),
            r.threshold == old(self).spec_threshold(),
            final(self)@ == slide(old(self)@, old(self).spec_window_size(), r.metrics),
    {
        let ghost h = self.history@;
        let n = self.history.len();
        let mut sum: u128 = 0;
        let mut sq: u128 = 0;
        let mut i: usize = 0;
        while i < n
            invariant
                n == h.len(),
                h == self.history@,
                i <= n,
                sum == latency_sum(h.take(i as int)),
                sq == latency_sq_sum(h.take(i as int)),
                sum <= i * 0xFFFF_FFFFint,
                sq <= i * 0xFFFF_FFFE_0000_0001int,
            decreases n - i,
        {
            let l = self.history[i].latency as u128;
            proof {
                assert(h.take(i + 1).drop_last() =~= h.take(i as int));
                assert(l * l <= 0xFFFF_FFFE_0000_0001int) by (nonlinear_arith)
                    requires l <= 0xFFFF_FFFFint;
            }
            sum = sum + l;
            sq = sq + l * l;
            i = i + 1;
        }
        proof {
            assert(h.take(n as int) =~= h);
            lemma_sum_bounds(h);
            lemma_spread_nonnegative(h);
            assert(n * metrics.latency <= 0xFFFF_FFFF_FFFF_FFFFint * 0xFFFF_FFFFint) by (nonlinear_arith)
                requires n <= 0xFFFF_FFFF_FFFF_FFFFint, metrics.latency <= 0xFFFF_FFFFint;
            assert(self.anomaly_threshold * n <= 0xFFFF_FFFFint * 0xFFFF_FFFF_FFFF_FFFFint) by (nonlinear_arith)
                requires n <= 0xFFFF_FFFF_FFFF_FFFFint, self.anomaly_threshold <= 0xFFFF_FFFFint;
        }
        let (nq_hi, nq_lo) = mul_wide(n as u128, sq);
        let (ss_hi, ss_lo) = mul_wide(sum, sum);
        let (spread_low, spread_high) = sub_wide(nq_lo, nq_hi, ss_lo, ss_hi);
        let scaled: u128 = n as u128 * metrics.latency as u128;
        let deviation: u128 = if scaled >= sum { scaled - sum } else { sum - scaled };
        let t = self.anomaly_threshold as u128;
        let is_anomaly = if n == 0 {
            false
        } else {
            let tn: u128 = t * n as u128;
            let (dev_hi, dev_lo) = mul_wide(deviation, 10_000_000_000_000);
            if !gt_wide(dev_hi, dev_lo, 0, tn) {
                false
            } else {
                let (l_lo, l_hi) = sub_wide(dev_lo, dev_hi, tn, 0);
                let lhs = mul_quad(l_lo, l_hi, l_lo, l_hi);
                proof {
                    assert(t <= 0xFFFF_FFFFint);
                }
                let m: u128 = t * 10_000_000_000;
                let (mm_hi, mm_lo) = mul_wide(m, m);
                let rhs = mul_quad(mm_lo, mm_hi, spread_low, spread_high);
                proof {
                    let ti = t as int;
                    let sp = spread_of(h);
                    assert(wide_value(mm_hi, mm_lo) == 100_000_000_000_000_000_000int * (ti * ti)) by (nonlinear_arith)
                        requires wide_value(mm_hi, mm_lo) == (ti * 10_000_000_000) * (ti * 10_000_000_000);
                    assert(100_000_000_000_000_000_000int * (ti * ti) * sp
                        == (100_000_000_000_000_000_000int * (ti * ti)) * sp) by (nonlinear_arith);
                    assert(wide_value(0, tn) == tn);
                }
                gt_quad(lhs, rhs)
            }
        };
        let stored = NetworkMetrics { is_anomaly, ..metrics };
        if self.history.len() >= self.window_size {
            let _ = self.history.pop_front();
        }
        self.history.push_back(stored);
        proof {
            assert(self.history@ =~= slide(h, self.window_size as nat, stored));
        }
        AnomalyDetectionResult {
            metrics: stored,
            anomaly_score: AnomalyScore { deviation, spread_low, spread_high, samples: n as u64 },
            threshold: self.anomaly_threshold,
        }
    }
}

/// Reconfigures `monitor` from `config`, emptying its window.
pub fn start_network_monitoring(monitor: &mut NetworkMonitor, config: &MonitorConfig) -> (r: Result<(), MonitorError>)
    requires
        old(monitor).wf(),
    ensures
        final(monitor).wf(),
        r is Err <==> (config.window_size == 0),
        r is Err ==> *final(monitor) == *old(monitor),
        r is Ok ==> {
            &&& final(monitor)@ == Seq::<NetworkMetrics>::empty()
            &&& final(monitor).spec_window_size() == config.window_size
            &&& final(monitor).spec_threshold() == config.anomaly_threshold
        },
{
    monitor.reset(config.window_size, config.anomaly_threshold)
}

} // verus!
