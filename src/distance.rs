//! The integer core of the distance engine: per-device RSSI tracking,
//! confidence bands, reference TX powers, and the adaptive calibrator.
//!
//! The path-loss exponent is kept in ten-thousandths (30000 is 3.0), which
//! holds every value that the calibrator's steps can reach exactly.
use vstd::prelude::*;

verus! {

/// Samples a tracker keeps unless told otherwise.
pub const DEFAULT_TRACKER_CAPACITY: u16 = 5;

pub open spec fn seq_sum(s: Seq<i32>) -> int
    decreases s.len(),
{
    if s.len() == 0 {
        0
    } else {
        seq_sum(s.drop_last()) + s.last() as int
    }
}

/// Sum of the samples weighted 1, 2, ... from oldest to newest.
pub open spec fn seq_weighted_sum(s: Seq<i32>) -> int
    decreases s.len(),
{
    if s.len() == 0 {
        0
    } else {
        seq_weighted_sum(s.drop_last()) + s.len() * (s.last() as int)
    }
}

pub open spec fn seq_square_sum(s: Seq<i32>) -> int
    decreases s.len(),
{
    if s.len() == 0 {
        0
    } else {
        seq_square_sum(s.drop_last()) + (s.last() as int) * (s.last() as int)
    }
}

/// The last `n` items of `h` (all of them when it is shorter).
pub open spec fn recent(h: Seq<i32>, n: int) -> Seq<i32> {
    if h.len() <= n {
        h
    } else {
        h.subrange(h.len() - n, h.len() as int)
    }
}

/// The most recent RSSI samples of one device, oldest first.
pub struct RssiTracker {
    samples: Vec<i32>,
    capacity: u16,
    /// Every sample ever added, oldest first.
    history: Ghost<Seq<i32>>,
    total: u64,
}

impl RssiTracker {
    pub closed spec fn held(&self) -> Seq<i32> {
        self.samples@
    }

    pub closed spec fn all_samples(&self) -> Seq<i32> {
        self.history@
    }

    pub closed spec fn cap(&self) -> nat {
        self.capacity as nat
    }

    /// The held samples are the latest `capacity` ones, in the order they
    /// came; the count is of every sample added.
    pub closed spec fn wf(&self) -> bool {
        &&& self.samples@ == recent(self.history@, self.capacity as int)
        &&& self.total == self.history@.len()
    }

    pub fn with_capacity(capacity: u16) -> (r: RssiTracker)
        ensures
            r.wf(),
            r.cap() == capacity,
            r.all_samples() == Seq::<i32>::empty(),
            r.held() == Seq::<i32>::empty(),
    {
        RssiTracker { samples: Vec::new(), capacity, history: Ghost(Seq::empty()), total: 0 }
    }

    pub fn new() -> (r: RssiTracker)
        ensures
            r.wf(),
            r.cap() == DEFAULT_TRACKER_CAPACITY,
            r.all_samples() == Seq::<i32>::empty(),
            r.held() == Seq::<i32>::empty(),
    {
        RssiTracker::with_capacity(DEFAULT_TRACKER_CAPACITY)
    }

    /// Records a sample; the oldest one leaves when the tracker is full.
    pub fn add_sample(&mut self, rssi: i32)
        requires
            old(self).wf(),
            old(self).all_samples().len() < u64::MAX,
        ensures
            final(self).wf(),
            final(self).cap() == old(self).cap(),
            final(self).all_samples() == old(self).all_samples().push(rssi),
            final(self).held() == recent(old(self).all_samples().push(rssi), old(self).cap() as int),
    {
        let ghost h = self.history@.push(rssi);
        let ghost before = self.samples@;
        self.samples.push(rssi);
        if self.samples.len() > self.capacity as usize {
            self.samples.remove(0);
        }
        self.history = Ghost(h);
        self.total = self.total + 1;
        proof {
            let c = self.capacity as int;
            let old_h = h.drop_last();
            assert(old_h.push(rssi) =~= h);
            if h.len() <= c {
                assert(self.samples@ =~= h);
            } else if old_h.len() <= c {
                assert(self.samples@ =~= h.subrange(h.len() - c, h.len() as int));
            } else {
                assert(self.samples@ =~= h.subrange(h.len() - c, h.len() as int));
            }
        }
    }

    pub fn capacity(&self) -> (r: u16)
        ensures
            r == self.cap(),
    {
        self.capacity
    }

    /// Number of samples held (at most the capacity).
    pub fn len(&self) -> (r: usize)
        requires
            self.wf(),
        ensures
            r == self.held().len(),
            r <= self.cap(),
    {
        self.samples.len()
    }

    /// Number of samples added since the tracker was made.
    pub fn sample_count(&self) -> (r: u64)
        requires
            self.wf(),
        ensures
            r == self.all_samples().len(),
    {
        self.total
    }

    /// The held samples, oldest first.
    pub fn samples(&self) -> (r: &Vec<i32>)
        ensures
            r@ == self.held(),
    {
        &self.samples
    }

    pub fn sum(&self) -> (r: i64)
        requires
            self.wf(),
        ensures
            r == seq_sum(self.held()),
    {
        let s = &self.samples;
        let mut acc: i64 = 0;
        let mut i: usize = 0;
        while i < s.len()
            invariant
                i <= s@.len() <= 0xffff,
                acc == seq_sum(s@.subrange(0, i as int)),
                -0x8000_0000 * i <= acc <= 0x7fff_ffff * i,
            decreases s@.len() - i,
        {
            assert(s@.subrange(0, i as int + 1).drop_last() =~= s@.subrange(0, i as int));
            acc = acc + s[i] as i64;
            i = i + 1;
        }
        assert(s@.subrange(0, s@.len() as int) =~= s@);
        acc
    }

    /// Sum of the held samples weighted 1, 2, ... from oldest to newest.
    pub fn weighted_sum(&self) -> (r: i128)
        requires
            self.wf(),
        ensures
            r == seq_weighted_sum(self.held()),
    {
        let s = &self.samples;
        let mut acc: i128 = 0;
        let mut i: usize = 0;
        while i < s.len()
            invariant
                i <= s@.len() <= 0xffff,
                acc == seq_weighted_sum(s@.subrange(0, i as int)),
                -0x8000_0000_0000 * i <= acc <= 0x8000_0000_0000 * i,
            decreases s@.len() - i,
        {
            let ghost p = s@.subrange(0, i as int + 1);
            assert(p.drop_last() =~= s@.subrange(0, i as int));
            assert(-0x8000_0000_0000 <= (i + 1) * (s@[i as int] as int) <= 0x8000_0000_0000) by (nonlinear_arith)
                requires
                    0 <= i < 0xffff,
                    -0x8000_0000 <= s@[i as int] <= 0x7fff_ffff;
            let w = (i as i128 + 1) * (s[i] as i128);
            acc = acc + w;
            i = i + 1;
        }
        assert(s@.subrange(0, s@.len() as int) =~= s@);
        acc
    }

    /// Sum of the squares of the held samples.
    pub fn square_sum(&self) -> (r: i128)
        requires
            self.wf(),
        ensures
            r == seq_square_sum(self.held()),
    {
        let s = &self.samples;
        let mut acc: i128 = 0;
        let mut i: usize = 0;
        while i < s.len()
            invariant
                i <= s@.len() <= 0xffff,
                acc == seq_square_sum(s@.subrange(0, i as int)),
                0 <= acc <= 0x4000_0000_0000_0000 * i,
            decreases s@.len() - i,
        {
            assert(s@.subrange(0, i as int + 1).drop_last() =~= s@.subrange(0, i as int));
            let x = s[i] as i128;
            assert(0 <= x * x <= 0x4000_0000_0000_0000) by (nonlinear_arith)
                requires -0x8000_0000 <= x <= 0x7fff_ffff;
            acc = acc + x * x;
            i = i + 1;
        }
        assert(s@.subrange(0, s@.len() as int) =~= s@);
        acc
    }

    pub fn min(&self) -> (r: Option<i32>)
        ensures
            r is None <==> self.held().len() == 0,
            r matches Some(m) ==> self.held().contains(m) && forall|i: int|
                0 <= i < self.held().len() ==> m <= #[trigger] self.held()[i],
    {
        if self.samples.len() == 0 {
            return None;
        }
        let mut m = self.samples[0];
        assert(self.samples@.subrange(0, 1)[0] == m);
        let mut i: usize = 1;
        while i < self.samples.len()
            invariant
                1 <= i <= self.samples@.len(),
                self.samples@.subrange(0, i as int).contains(m),
                forall|j: int| 0 <= j < i ==> m <= #[trigger] self.samples@[j],
            decreases self.samples@.len() - i,
        {
            if self.samples[i] < m {
                m = self.samples[i];
                assert(self.samples@.subrange(0, i as int + 1)[i as int] == m);
            } else {
                proof {
                    let k = choose|k: int| 0 <= k < i && self.samples@.subrange(0, i as int)[k] == m;
                    assert(self.samples@.subrange(0, i as int + 1)[k] == m);
                }
            }
            i = i + 1;
        }
        assert(self.samples@.subrange(0, i as int) =~= self.samples@);
        Some(m)
    }

    pub fn max(&self) -> (r: Option<i32>)
        ensures
            r is None <==> self.held().len() == 0,
            r matches Some(m) ==> self.held().contains(m) && forall|i: int|
                0 <= i < self.held().len() ==> #[trigger] self.held()[i] <= m,
    {
        if self.samples.len() == 0 {
            return None;
        }
        let mut m = self.samples[0];
        assert(self.samples@.subrange(0, 1)[0] == m);
        let mut i: usize = 1;
        while i < self.samples.len()
            invariant
                1 <= i <= self.samples@.len(),
                self.samples@.subrange(0, i as int).contains(m),
                forall|j: int| 0 <= j < i ==> #[trigger] self.samples@[j] <= m,
            decreases self.samples@.len() - i,
        {
            if self.samples[i] > m {
                m = self.samples[i];
                assert(self.samples@.subrange(0, i as int + 1)[i as int] == m);
            } else {
                proof {
                    let k = choose|k: int| 0 <= k < i && self.samples@.subrange(0, i as int)[k] == m;
                    assert(self.samples@.subrange(0, i as int + 1)[k] == m);
                }
            }
            i = i + 1;
        }
        assert(self.samples@.subrange(0, i as int) =~= self.samples@);
        Some(m)
    }

    /// Stationary: at least 10 samples seen, and the held samples have a
    /// standard deviation below 5 dBm (`n * sum(x^2) - sum(x)^2 < 25 n^2`).
    pub fn is_stationary(&self) -> (r: bool)
        requires
            self.wf(),
        ensures
            r == (self.all_samples().len() >= 10 && self.held().len() > 0 && self.held().len()
                * seq_square_sum(self.held()) - seq_sum(self.held()) * seq_sum(self.held()) < 25
                * self.held().len() * self.held().len()),
    {
        if self.total < 10 || self.samples.len() == 0 {
            return false;
        }
        let n = self.samples.len() as i128;
        let s = self.sum() as i128;
        let q = self.square_sum();
        proof {
            lemma_sum_bounds(self.samples@);
            lemma_square_sum_bounds(self.samples@);
            assert(self.samples@.len() <= self.capacity);
        }
        assert(n * q <= 0x1_0000 * (0x4000_0000_0000_0000 * 0x1_0000)) by (nonlinear_arith)
            requires 0 <= n <= 0xffff, 0 <= q <= 0x4000_0000_0000_0000 * n;
        assert(s * s <= 0x4000_0000_0000_0000_0000_0000) by (nonlinear_arith)
            requires -0x8000_0000 * n <= s <= 0x7fff_ffff * n, 0 <= n <= 0xffff;
        assert(0 <= s * s) by (nonlinear_arith);
        assert(25 * n * n <= 25 * 0x1_0000 * 0x1_0000) by (nonlinear_arith)
            requires 0 <= n <= 0xffff;
        n * q - s * s < 25 * n * n
    }
}

/// A tracker holds the last `min(capacity, n)` of the `n` samples it was
/// given, in the order they came.
pub proof fn lemma_tracker_window(t: RssiTracker)
    requires
        t.wf(),
    ensures
        t.held() == recent(t.all_samples(), t.cap() as int),
        t.held().len() == if t.all_samples().len() <= t.cap() {
            t.all_samples().len()
        } else {
            t.cap() as nat
        },
        t.held().len() <= t.cap(),
        t.held().len() <= t.all_samples().len(),
        t.held() == t.all_samples().subrange(
            t.all_samples().len() - t.held().len(),
            t.all_samples().len() as int,
        ),
{
    let h = t.all_samples();
    if h.len() <= t.cap() {
        assert(h.subrange(0, h.len() as int) =~= h);
    }
}

proof fn lemma_square_sum_bounds(s: Seq<i32>)
    ensures
        0 <= seq_square_sum(s) <= 0x4000_0000_0000_0000 * s.len(),
    decreases s.len(),
{
    if s.len() > 0 {
        lemma_square_sum_bounds(s.drop_last());
        let x = s.last() as int;
        assert(0 <= x * x <= 0x4000_0000_0000_0000) by (nonlinear_arith)
            requires -0x8000_0000 <= x <= 0x7fff_ffff;
    }
}

proof fn lemma_sum_bounds(s: Seq<i32>)
    ensures
        -0x8000_0000 * s.len() <= seq_sum(s) <= 0x7fff_ffff * s.len(),
    decreases s.len(),
{
    if s.len() > 0 {
        lemma_sum_bounds(s.drop_last());
    }
}

/// How far a distance estimate can be trusted, from the number of samples.
#[derive(Clone, Copy, Debug, PartialEq, Eq)]
pub enum Confidence {
    Low,
    Medium,
    High,
}

pub open spec fn confidence_spec(n: int) -> Confidence {
    if n <= 2 {
        Confidence::Low
    } else if n <= 4 {
        Confidence::Medium
    } else {
        Confidence::High
    }
}

/// 0 to 2 samples: low; 3 or 4: medium; 5 or more: high.
pub fn confidence_for_samples(n: u64) -> (r: Confidence)
    ensures
        r == confidence_spec(n as int),
{
    if n <= 2 {
        Confidence::Low
    } else if n <= 4 {
        Confidence::Medium
    } else {
        Confidence::High
    }
}

/// Typical TX power at one metre (dBm) for a Wi-Fi generation label.
pub open spec fn generation_tx_power(g: Option<Seq<char>>) -> int {
    match g {
        None => -43,
        Some(s) => if s == "802.11ax"@ || s == "WiFi 6"@ {
            -38
        } else if s == "802.11ac"@ || s == "WiFi 5"@ {
            -41
        } else if s == "802.11n"@ || s == "WiFi 4"@ {
            -45
        } else if s == "802.11a"@ || s == "802.11g"@ {
            -48
        } else if s == "802.11b"@ {
            -50
        } else {
            -43
        },
    }
}

fn text_is(a: &str, b: &str) -> (r: bool)
    ensures
        r == (a@ == b@),
{
    let n = a.unicode_len();
    if n != b.unicode_len() {
        return false;
    }
    let mut i: usize = 0;
    while i < n
        invariant
            n == a@.len() == b@.len(),
            i <= n,
            forall|k: int| 0 <= k < i ==> a@[k] == b@[k],
        decreases n - i,
    {
        if a.get_char(i) != b.get_char(i) {
            return false;
        }
        i = i + 1;
    }
    assert(a@ =~= b@);
    true
}

/// Typical TX power at one metre (dBm) for a Wi-Fi generation label:
/// ax / WiFi 6: -38, ac / WiFi 5: -41, n / WiFi 4: -45, a or g: -48,
/// b: -50, anything else: -43.
pub fn estimate_tx_power_from_wifi_gen(generation: Option<&str>) -> (r: i32)
    ensures
        r == generation_tx_power(match generation { Some(g) => Some(g@), None => None }),
{
    match generation {
        None => -43,
        Some(g) => {
            if text_is(g, "802.11ax") || text_is(g, "WiFi 6") {
                -38
            } else if text_is(g, "802.11ac") || text_is(g, "WiFi 5") {
                -41
            } else if text_is(g, "802.11n") || text_is(g, "WiFi 4") {
                -45
            } else if text_is(g, "802.11a") || text_is(g, "802.11g") {
                -48
            } else if text_is(g, "802.11b") {
                -50
            } else {
                -43
            }
        },
    }
}

/// Path-loss exponent bounds and default, in ten-thousandths.
pub const PLE_MIN: u32 = 20000;
pub const PLE_MAX: u32 = 50000;
pub const PLE_DEFAULT: u32 = 30000;
/// Signals stronger than this (dBm) are candidates for the peak.
pub const PEAK_FLOOR_DBM: i32 = -45;
/// Peak sightings needed before a TX power is inferred.
pub const PEAK_MIN_COUNT: u32 = 3;
/// Observations between two adjustments of the exponent.
pub const OBSERVATIONS_PER_STEP: u32 = 10;

/// How the spread of a stationary device's distance estimate compares with
/// the target ratio of 0.25 (expected standard deviation over distance).
#[derive(Clone, Copy, Debug, PartialEq, Eq)]
pub enum SpreadVerdict {
    /// Ratio above 1.5 times the target: raise the exponent.
    TooWide,
    /// Ratio below half the target: lower the exponent.
    TooNarrow,
    /// Within the band: no push either way.
    OnTarget,
}

/// Learns the environment's path-loss exponent and the reference TX power
/// from what the sensor observes.
pub struct AdaptiveCalibrator {
    /// Path-loss exponent, in ten-thousandths.
    ple: u32,
    /// Pending push on the exponent, in tenths.
    accumulator: i32,
    obs_count: u32,
    peak_rssi: Option<i32>,
    peak_count: u32,
}

/// The exponent after applying a pending push of `acc` tenths: with the
/// learning rate 0.01 over 10 observations, a tenth moves it by 0.0001.
pub open spec fn stepped_ple(ple: int, acc: int) -> int {
    if ple + acc < PLE_MIN {
        PLE_MIN as int
    } else if ple + acc > PLE_MAX {
        PLE_MAX as int
    } else {
        ple + acc
    }
}

/// What recording a signal does to the peak: a signal above -45 dBm that
/// beats the peak becomes the peak, seen once; one within 3 dBm of the peak
/// counts as another sighting (saturating); anything else changes nothing.
pub open spec fn peak_step(c: AdaptiveCalibrator, rssi: i32, d: AdaptiveCalibrator) -> bool {
    &&& d.ple_spec() == c.ple_spec()
    &&& d.accumulator_spec() == c.accumulator_spec()
    &&& d.observations_spec() == c.observations_spec()
    &&& if rssi <= PEAK_FLOOR_DBM {
        d.peak_spec() == c.peak_spec() && d.peak_count_spec() == c.peak_count_spec()
    } else {
        match c.peak_spec() {
            None => d.peak_spec() == Some(rssi) && d.peak_count_spec() == 1,
            Some(p) => if rssi > p {
                d.peak_spec() == Some(rssi) && d.peak_count_spec() == 1
            } else if p - rssi <= 3 {
                d.peak_spec() == c.peak_spec() && d.peak_count_spec() == if c.peak_count_spec()
                    < u32::MAX {
                    c.peak_count_spec() + 1
                } else {
                    c.peak_count_spec()
                }
            } else {
                d.peak_spec() == c.peak_spec() && d.peak_count_spec() == c.peak_count_spec()
            },
        }
    }
}

impl AdaptiveCalibrator {
    pub closed spec fn ple_spec(&self) -> int {
        self.ple as int
    }

    pub closed spec fn accumulator_spec(&self) -> int {
        self.accumulator as int
    }

    pub closed spec fn observations_spec(&self) -> int {
        self.obs_count as int
    }

    pub closed spec fn peak_spec(&self) -> Option<i32> {
        self.peak_rssi
    }

    pub closed spec fn peak_count_spec(&self) -> int {
        self.peak_count as int
    }

    /// The exponent stays within [2.0, 5.0]; fewer than 10 observations are
    /// pending, each having pushed by at most one tenth.
    pub closed spec fn wf(&self) -> bool {
        &&& PLE_MIN <= self.ple <= PLE_MAX
        &&& self.obs_count < OBSERVATIONS_PER_STEP
        &&& -(self.obs_count as int) <= self.accumulator <= self.obs_count
        &&& (self.peak_rssi matches Some(p) ==> p > PEAK_FLOOR_DBM)
    }

    pub fn new() -> (r: AdaptiveCalibrator)
        ensures
            r.wf(),
            r.ple_spec() == PLE_DEFAULT,
            r.observations_spec() == 0,
            r.accumulator_spec() == 0,
            r.peak_spec() is None,
            r.peak_count_spec() == 0,
    {
        AdaptiveCalibrator {
            ple: PLE_DEFAULT,
            accumulator: 0,
            obs_count: 0,
            peak_rssi: None,
            peak_count: 0,
        }
    }

    /// Current path-loss exponent, in ten-thousandths.
    pub fn path_loss_e4(&self) -> (r: u32)
        requires
            self.wf(),
        ensures
            r == self.ple_spec(),
            PLE_MIN <= r <= PLE_MAX,
    {
        self.ple
    }

    /// Records an observed RSSI for peak-based TX inference: a signal above
    /// -45 dBm that beats the peak becomes the peak, seen once; one within 3
    /// dBm of the peak counts as another sighting of it.
    pub fn record_peak_rssi(&mut self, rssi: i32)
        requires
            old(self).wf(),
        ensures
            final(self).wf(),
            peak_step(*old(self), rssi, *final(self)),
    {
        if rssi <= PEAK_FLOOR_DBM {
            return;
        }
        match self.peak_rssi {
            None => {
                self.peak_rssi = Some(rssi);
                self.peak_count = 1;
            },
            Some(p) => {
                if rssi > p {
                    self.peak_rssi = Some(rssi);
                    self.peak_count = 1;
                } else if p as i64 - rssi as i64 <= 3 {
                    self.peak_count = self.peak_count.saturating_add(1);
                }
            },
        }
    }

    /// TX power inferred from the peak once it was seen 3 times: the peak
    /// less 3 dBm, as the peak comes from under a metre away.
    pub fn inferred_tx_power(&self) -> (r: Option<i32>)
        requires
            self.wf(),
        ensures
            r matches Some(t) ==> self.peak_count_spec() >= PEAK_MIN_COUNT && (self.peak_spec()
                matches Some(p) && t == p - 3),
            r is None ==> self.peak_count_spec() < PEAK_MIN_COUNT || self.peak_spec() is None,
    {
        if self.peak_count < PEAK_MIN_COUNT {
            return None;
        }
        match self.peak_rssi {
            Some(p) => Some(p - 3),
            None => None,
        }
    }

    /// Records how one stationary device's spread compares with the target:
    /// a wide spread adds a tenth to the pending push, a narrow one removes
    /// a tenth. At every tenth observation the push moves the exponent,
    /// which is then clamped to its bounds, and the push starts over.
    pub fn observe_spread(&mut self, verdict: SpreadVerdict)
        requires
            old(self).wf(),
        ensures
            final(self).wf(),
            final(self).peak_spec() == old(self).peak_spec(),
            final(self).peak_count_spec() == old(self).peak_count_spec(),
            ({
                let acc = old(self).accumulator_spec() + match verdict {
                    SpreadVerdict::TooWide => 1int,
                    SpreadVerdict::TooNarrow => -1int,
                    SpreadVerdict::OnTarget => 0int,
                };
                if old(self).observations_spec() + 1 >= OBSERVATIONS_PER_STEP {
                    &&& final(self).ple_spec() == stepped_ple(old(self).ple_spec(), acc)
                    &&& final(self).accumulator_spec() == 0
                    &&& final(self).observations_spec() == 0
                } else {
                    &&& final(self).ple_spec() == old(self).ple_spec()
                    &&& final(self).accumulator_spec() == acc
                    &&& final(self).observations_spec() == old(self).observations_spec() + 1
                }
            }),
    {
        let push: i32 = match verdict {
            SpreadVerdict::TooWide => 1,
            SpreadVerdict::TooNarrow => -1,
            SpreadVerdict::OnTarget => 0,
        };
        self.accumulator = self.accumulator + push;
        self.obs_count = self.obs_count + 1;
        if self.obs_count >= OBSERVATIONS_PER_STEP {
            let next: i64 = self.ple as i64 + self.accumulator as i64;
            self.ple = if next < PLE_MIN as i64 {
                PLE_MIN
            } else if next > PLE_MAX as i64 {
                PLE_MAX
            } else {
                next as u32
            };
            self.accumulator = 0;
            self.obs_count = 0;
        }
    }
}

/// Whatever sequence of signals and verdicts it is fed, the calibrator's
/// exponent stays within [2.0, 5.0].
pub proof fn lemma_ple_in_bounds(c: AdaptiveCalibrator)
    requires
        c.wf(),
    ensures
        PLE_MIN <= c.ple_spec() <= PLE_MAX,
{
}

} // verus!
