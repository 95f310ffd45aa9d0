//! Surveillance analysis: a persistence score for each device seen within a
//! horizon, and the ranked alerts for those at or above a threshold.
//!
//! The score is kept exact, as a numerator over a scale that is the same for
//! every device of one analysis: `score = num / scale`, with
//! `scale = 100 * max(1, windows) * max(1, span)`.
use vstd::prelude::*;
use crate::store::{Device, ProbeSighting};

verus! {

/// Seconds in an hour.
pub const SECS_PER_HOUR: i64 = 3600;

/// Some probe of `ps` lies within the last `minutes` minutes before `end`.
pub open spec fn seen_within(ps: Seq<ProbeSighting>, end: int, minutes: int) -> bool {
    exists|i: int| 0 <= i < ps.len() && end - 60 * minutes <= #[trigger] ps[i].timestamp <= end
}

/// Number of windows (in minutes, counted back from `end`) in which some
/// probe of `ps` lies.
pub open spec fn windows_hit(ps: Seq<ProbeSighting>, end: int, ws: Seq<u32>) -> nat
    decreases ws.len(),
{
    if ws.len() == 0 {
        0
    } else {
        windows_hit(ps, end, ws.drop_last()) + if seen_within(ps, end, ws.last() as int) {
            1nat
        } else {
            0nat
        }
    }
}

/// The grid cells of the probes that carry a position, in order.
pub open spec fn sighting_cells(ps: Seq<ProbeSighting>) -> Seq<(i64, i64)>
    decreases ps.len(),
{
    if ps.len() == 0 {
        Seq::empty()
    } else {
        let rest = sighting_cells(ps.drop_last());
        match ps.last().cell {
            Some(c) => rest.push(c),
            None => rest,
        }
    }
}

/// Number of distinct 100-metre cells among the probes.
pub open spec fn cell_count(ps: Seq<ProbeSighting>) -> nat {
    sighting_cells(ps).to_set().len()
}

/// The non-empty SSIDs that the probes asked for.
pub open spec fn probed_ssid_set(ps: Seq<ProbeSighting>) -> Set<Seq<char>> {
    Set::new(|s: Seq<char>| s.len() > 0 && exists|i: int| 0 <= i < ps.len() && #[trigger] ps[i].ssid@ == s)
}

/// The location term in tenths: none without positions, 0.2 for one
/// cell, 0.5 for two, 1 for three or more.
pub open spec fn location_tenths(cells: nat) -> nat {
    if cells == 0 {
        0
    } else if cells == 1 {
        2
    } else if cells == 2 {
        5
    } else {
        10
    }
}

/// Length of the horizon, at least 1 so that it can divide.
pub open spec fn span_d(start: int, end: int) -> int {
    if end - start > 0 {
        end - start
    } else {
        1
    }
}

pub open spec fn windows_d(ws: Seq<u32>) -> int {
    if ws.len() > 0 {
        ws.len() as int
    } else {
        1
    }
}

pub open spec fn min_int(a: int, b: int) -> int {
    if a <= b {
        a
    } else {
        b
    }
}

pub open spec fn clamp_int(v: int, lo: int, hi: int) -> int {
    if v < lo {
        lo
    } else if v > hi {
        hi
    } else {
        v
    }
}

/// Denominator of every score of one analysis.
pub open spec fn score_scale(ws: Seq<u32>, start: int, end: int) -> int {
    100 * windows_d(ws) * span_d(start, end)
}

/// Frequency term over `10 * span_d`: probes per hour (hours at least 1)
/// divided by 10, at most 1.
pub open spec fn frequency_part(n: int, start: int, end: int) -> int {
    let per = if span_d(start, end) >= 3600 { 3600 } else { span_d(start, end) };
    min_int(n * per, 10 * span_d(start, end))
}

/// Duration term over `span_d`: the device's active time over the horizon,
/// clamped to `[0, 1]`.
pub open spec fn duration_part(d: Device, start: int, end: int) -> int {
    clamp_int(d.last_seen - d.first_seen, 0, span_d(start, end))
}

/// Numerator of the persistence score,
/// `0.4 window + 0.3 frequency + 0.2 duration + 0.1 location`, capped at 1.
pub open spec fn score_num(
    d: Device,
    ps: Seq<ProbeSighting>,
    ws: Seq<u32>,
    start: int,
    end: int,
) -> int {
    let total = 40 * windows_hit(ps, end, ws) * span_d(start, end) + 3 * frequency_part(
        ps.len() as int,
        start,
        end,
    ) * windows_d(ws) + 20 * duration_part(d, start, end) * windows_d(ws) + location_tenths(
        cell_count(ps),
    ) * windows_d(ws) * span_d(start, end);
    min_int(total, score_scale(ws, start, end))
}

/// Why a device was flagged.
#[derive(Clone, Copy, Debug, PartialEq, Eq)]
pub enum AlertReason {
    /// Seen in at least three quarters of the time windows.
    MultipleWindows,
    /// More than 5 probes an hour over its active time (at least 6 minutes).
    HighFrequency { probes: u64, active_secs: i64 },
    /// Seen in more than one 100-metre cell.
    MultipleLocations { count: u64 },
    /// Active for more than 30 minutes.
    LongDuration { minutes: i64 },
    /// None of the above holds; the score alone flagged it.
    ScoreOnly,
}

/// The reasons reported for a device, in this order: window coverage
/// (windows counted back from its last sighting), frequency, locations,
/// duration; the score alone when none applies.
pub open spec fn alert_reasons(d: Device, ps: Seq<ProbeSighting>, ws: Seq<u32>) -> Seq<
    AlertReason,
> {
    let active = d.last_seen - d.first_seen;
    let hits = windows_hit(ps, d.last_seen as int, ws);
    let r1 = if ws.len() > 0 && 4 * hits >= 3 * ws.len() {
        seq![AlertReason::MultipleWindows]
    } else {
        Seq::empty()
    };
    let r2 = if ps.len() * 3600 > 5 * (if active >= 360 { active } else { 360 }) {
        r1.push(AlertReason::HighFrequency { probes: ps.len() as u64, active_secs: active as i64 })
    } else {
        r1
    };
    let r3 = if cell_count(ps) > 1 {
        r2.push(AlertReason::MultipleLocations { count: cell_count(ps) as u64 })
    } else {
        r2
    };
    let r4 = if active >= 1860 {
        r3.push(AlertReason::LongDuration { minutes: (active / 60) as i64 })
    } else {
        r3
    };
    if r4.len() == 0 {
        seq![AlertReason::ScoreOnly]
    } else {
        r4
    }
}

/// Tells whether some probe lies within `minutes` minutes before `end`.
fn probe_within(ps: &Vec<ProbeSighting>, end: i64, minutes: u32) -> (r: bool)
    ensures
        r == seen_within(ps@, end as int, minutes as int),
{
    let lo: i128 = end as i128 - 60 * (minutes as i128);
    let mut i: usize = 0;
    while i < ps.len()
        invariant
            i <= ps@.len(),
            lo == end as int - 60 * minutes as int,
            forall|j: int|
                0 <= j < i ==> !(lo <= #[trigger] ps@[j].timestamp <= end),
        decreases ps@.len() - i,
    {
        let t = ps[i].timestamp;
        if lo <= t as i128 && t <= end {
            return true;
        }
        i = i + 1;
    }
    false
}

/// Counts the windows in which some probe lies.
pub fn count_windows_hit(ps: &Vec<ProbeSighting>, end: i64, ws: &Vec<u32>) -> (r: u64)
    ensures
        r == windows_hit(ps@, end as int, ws@),
        r <= ws@.len(),
{
    let mut n: u64 = 0;
    let mut i: usize = 0;
    while i < ws.len()
        invariant
            i <= ws@.len(),
            n == windows_hit(ps@, end as int, ws@.subrange(0, i as int)),
            n <= i,
        decreases ws@.len() - i,
    {
        assert(ws@.subrange(0, i as int + 1).drop_last() =~= ws@.subrange(0, i as int));
        if probe_within(ps, end, ws[i]) {
            n = n + 1;
        }
        i = i + 1;
    }
    assert(ws@.subrange(0, ws@.len() as int) =~= ws@);
    n
}

/// Counts the distinct 100-metre cells among the probes.
pub fn count_locations(ps: &Vec<ProbeSighting>) -> (r: u64)
    ensures
        r == cell_count(ps@),
{
    let mut seen: Vec<(i64, i64)> = Vec::new();
    let mut i: usize = 0;
    while i < ps.len()
        invariant
            i <= ps@.len(),
            seen@.no_duplicates(),
            seen@.to_set() == sighting_cells(ps@.subrange(0, i as int)).to_set(),
            seen@.len() <= i,
        decreases ps@.len() - i,
    {
        let ghost prefix = ps@.subrange(0, i as int + 1);
        assert(prefix.drop_last() =~= ps@.subrange(0, i as int));
        if let Some(c) = ps[i].cell {
            let mut k: usize = 0;
            let mut found = false;
            while k < seen.len()
                invariant
                    k <= seen@.len(),
                    found == exists|j: int| 0 <= j < k && seen@[j] == c,
                decreases seen@.len() - k,
            {
                if seen[k].0 == c.0 && seen[k].1 == c.1 {
                    found = true;
                }
                k = k + 1;
            }
            proof {
                sighting_cells(prefix.drop_last()).lemma_push_to_set_commute(c);
            }
            if !found {
                let ghost before = seen@;
                seen.push(c);
                proof {
                    before.lemma_push_to_set_commute(c);
                    assert forall|a: int, b: int|
                        0 <= a < seen@.len() && 0 <= b < seen@.len() && a != b implies seen@[a]
                        != seen@[b] by {
                        if a < before.len() && b < before.len() {
                        } else if a == before.len() {
                            assert(!before.contains(c));
                        } else {
                            assert(!before.contains(c));
                        }
                    }
                }
            } else {
                proof {
                    assert(seen@.to_set().insert(c) =~= seen@.to_set());
                }
            }
        }
        i = i + 1;
    }
    assert(ps@.subrange(0, ps@.len() as int) =~= ps@);
    proof {
        seen@.unique_seq_to_set();
    }
    seen.len() as u64
}


/// Collects the distinct non-empty SSIDs that the probes asked for.
pub fn unique_ssids(ps: &Vec<ProbeSighting>) -> (r: Vec<String>)
    ensures
        r@.map_values(|s: String| s@).no_duplicates(),
        r@.map_values(|s: String| s@).to_set() == probed_ssid_set(ps@),
{
    let mut set = crate::keyset::KeySet::new();
    let mut i: usize = 0;
    while i < ps.len()
        invariant
            i <= ps@.len(),
            set.wf(),
            set.view() == probed_ssid_set(ps@.subrange(0, i as int)),
        decreases ps@.len() - i,
    {
        let ghost before = set.view();
        let s = ps[i].ssid.clone();
        let empty = s.as_str().is_empty();
        if !empty {
            set.insert(s);
        }
        proof {
            let pre = ps@.subrange(0, i as int);
            let post = ps@.subrange(0, i as int + 1);
            assert forall|x: Seq<char>| #[trigger] probed_ssid_set(post).contains(x) <==> set.view().contains(x) by {
                if probed_ssid_set(post).contains(x) {
                    let j = choose|j: int| 0 <= j < post.len() && #[trigger] post[j].ssid@ == x;
                    if j < i {
                        assert(pre[j].ssid@ == x);
                        assert(probed_ssid_set(pre).contains(x));
                    }
                }
                if before.contains(x) {
                    let j = choose|j: int| 0 <= j < pre.len() && #[trigger] pre[j].ssid@ == x;
                    assert(post[j].ssid@ == x);
                }
                if !empty && x == ps@[i as int].ssid@ {
                    assert(post[i as int].ssid@ == x);
                }
            }
            assert(probed_ssid_set(post) =~= set.view());
        }
        i = i + 1;
    }
    assert(ps@.subrange(0, ps@.len() as int) =~= ps@);
    set.into_vec()
}

/// Numerator of a device's persistence score over the horizon
/// `[start, end]`; the scale is `score_scale(ws, start, end)`.
pub fn persistence_score(d: &Device, ps: &Vec<ProbeSighting>, ws: &Vec<u32>, start: i64, end: i64) -> (r: u128)
    requires
        end - start <= SECS_PER_HOUR * 0xffff_ffff,
        ws@.len() <= 0xffff_ffff,
    ensures
        r == score_num(*d, ps@, ws@, start as int, end as int),
        r <= score_scale(ws@, start as int, end as int) <= 0x10_0000_0000_0000_0000_0000,
{
    let span: i128 = end as i128 - start as i128;
    let sd: u128 = if span > 0 { span as u128 } else { 1 };
    let wd: u128 = if ws.len() > 0 { ws.len() as u128 } else { 1 };
    let hits = count_windows_hit(ps, end, ws) as u128;
    let n = ps.len() as u128;
    let per: u128 = if sd >= 3600 { 3600 } else { sd };
    assert(sd <= 0x1000_0000_0000) by {
        assert(3600 * 0xffff_ffffint < 0x1000_0000_0000);
    }
    assert(n * per <= 0x1_0000_0000_0000_0000 * 3600) by (nonlinear_arith)
        requires n <= 0x1_0000_0000_0000_0000, per <= 3600;
    let np = n * per;
    let fpart: u128 = if np <= 10 * sd { np } else { 10 * sd };
    let active: i128 = d.last_seen as i128 - d.first_seen as i128;
    let dpart: u128 = if active < 0 { 0 } else if active as u128 > sd { sd } else { active as u128 };
    let lt: u128 = match count_locations(ps) {
        0 => 0,
        1 => 2,
        2 => 5,
        _ => 10,
    };
    assert(hits * sd <= 0x1_0000_0000 * 0x1000_0000_0000) by (nonlinear_arith)
        requires hits <= 0x1_0000_0000, sd <= 0x1000_0000_0000;
    assert(fpart * wd <= 0x10_0000_0000_0000 * 0x1_0000_0000) by (nonlinear_arith)
        requires fpart <= 0x10_0000_0000_0000, wd <= 0x1_0000_0000;
    assert(dpart * wd <= 0x1000_0000_0000 * 0x1_0000_0000) by (nonlinear_arith)
        requires dpart <= 0x1000_0000_0000, wd <= 0x1_0000_0000;
    assert(wd * sd <= 0x1_0000_0000 * 0x1000_0000_0000) by (nonlinear_arith)
        requires wd <= 0x1_0000_0000, sd <= 0x1000_0000_0000;
    let ws_prod = wd * sd;
    assert(lt * ws_prod <= 10 * ws_prod) by (nonlinear_arith)
        requires lt <= 10;
    assert(ws_prod <= 0x1000_0000_0000_0000_0000);
    assert(100 * ws_prod <= 0x10_0000_0000_0000_0000_0000);
    let total = 40 * (hits * sd) + 3 * (fpart * wd) + 20 * (dpart * wd) + lt * ws_prod;
    let scale = 100 * ws_prod;
    proof {
        assert(40 * (hits * sd) == 40 * hits * sd) by (nonlinear_arith);
        assert(3 * (fpart * wd) == 3 * fpart * wd) by (nonlinear_arith);
        assert(20 * (dpart * wd) == 20 * dpart * wd) by (nonlinear_arith);
        assert(lt * ws_prod == lt * wd * sd) by (nonlinear_arith)
            requires ws_prod == wd * sd;
        assert(100 * ws_prod == 100 * wd * sd) by (nonlinear_arith)
            requires ws_prod == wd * sd;
        assert(wd == windows_d(ws@));
        assert(sd == span_d(start as int, end as int));
    }
    if total <= scale { total } else { scale }
}

/// Lists the reasons reported for a flagged device.
pub fn alert_reasons_for(d: &Device, ps: &Vec<ProbeSighting>, ws: &Vec<u32>) -> (r: Vec<AlertReason>)
    ensures
        r@ == alert_reasons(*d, ps@, ws@),
{
    let active: i128 = d.last_seen as i128 - d.first_seen as i128;
    let hits = count_windows_hit(ps, d.last_seen, ws) as u128;
    let mut r: Vec<AlertReason> = Vec::new();
    if ws.len() > 0 && 4 * hits >= 3 * (ws.len() as u128) {
        r.push(AlertReason::MultipleWindows);
    }
    let floor: i128 = if active >= 360 { active } else { 360 };
    if (ps.len() as i128) * 3600 > 5 * floor {
        r.push(AlertReason::HighFrequency { probes: ps.len() as u64, active_secs: active as i64 });
    }
    let cells = count_locations(ps);
    if cells > 1 {
        r.push(AlertReason::MultipleLocations { count: cells });
    }
    if active >= 1860 {
        r.push(AlertReason::LongDuration { minutes: (active / 60) as i64 });
    }
    if r.len() == 0 {
        r.push(AlertReason::ScoreOnly);
    }
    proof {
        let e = alert_reasons(*d, ps@, ws@);
        assert(r@ =~= e);
    }
    r
}

/// A device with the probes stored for it.
pub struct DeviceActivity {
    pub device: Device,
    pub probes: Vec<ProbeSighting>,
}

/// A device flagged by the analysis.
pub struct SurveillanceAlert {
    pub device: Device,
    /// Numerator of the score; the score is `score / scale`.
    pub score: u128,
    pub scale: u128,
    pub reasons: Vec<AlertReason>,
    pub probed_ssids: Vec<String>,
    pub location_count: u64,
    pub appearance_count: u64,
}

/// Scores devices over a horizon and reports those that look persistent.
pub struct SurveillanceAnalyzer {
    pub time_windows_minutes: Vec<u32>,
    /// Threshold on the score, in millionths.
    pub persistence_threshold_ppm: u32,
}

/// A ranking key: score numerator and position of the device in the input.
pub type RankKey = (u128, usize);

/// Position at which `k` enters a list ordered by descending score: after
/// every entry whose score is at least `k`'s.
pub open spec fn rank_pos(s: Seq<RankKey>, k: u128) -> int
    decreases s.len(),
{
    if s.len() == 0 {
        0
    } else if s[0].0 < k {
        0
    } else {
        1 + rank_pos(s.drop_first(), k)
    }
}

/// Stable ordering by descending score (insertion order among equals).
pub open spec fn rank(s: Seq<RankKey>) -> Seq<RankKey>
    decreases s.len(),
{
    if s.len() == 0 {
        s
    } else {
        let r = rank(s.drop_last());
        r.insert(rank_pos(r, s.last().0), s.last())
    }
}

pub open spec fn sorted_desc(s: Seq<RankKey>) -> bool {
    forall|i: int, j: int| 0 <= i < j < s.len() ==> s[i].0 >= s[j].0
}

/// The device is within the horizon, has probes, and scores at least the
/// threshold (`score / scale >= ppm / 1_000_000`).
pub open spec fn flagged(a: DeviceActivity, ws: Seq<u32>, ppm: int, start: int, end: int) -> bool {
    &&& start <= a.device.last_seen <= end
    &&& a.probes@.len() > 0
    &&& score_num(a.device, a.probes@, ws, start, end) * 1_000_000 >= ppm * score_scale(
        ws,
        start,
        end,
    )
}

/// Keys of the flagged devices, in input order.
pub open spec fn flagged_keys(
    hs: Seq<DeviceActivity>,
    ws: Seq<u32>,
    ppm: int,
    start: int,
    end: int,
) -> Seq<RankKey>
    decreases hs.len(),
{
    if hs.len() == 0 {
        Seq::empty()
    } else {
        let r = flagged_keys(hs.drop_last(), ws, ppm, start, end);
        let a = hs.last();
        if flagged(a, ws, ppm, start, end) {
            r.push(
                (
                    score_num(a.device, a.probes@, ws, start, end) as u128,
                    (hs.len() - 1) as usize,
                ),
            )
        } else {
            r
        }
    }
}

proof fn lemma_rank_pos_bounds(s: Seq<RankKey>, k: u128)
    ensures
        0 <= rank_pos(s, k) <= s.len(),
        forall|i: int| 0 <= i < rank_pos(s, k) ==> s[i].0 >= k,
        rank_pos(s, k) < s.len() ==> s[rank_pos(s, k)].0 < k,
    decreases s.len(),
{
    if s.len() > 0 && s[0].0 >= k {
        lemma_rank_pos_bounds(s.drop_first(), k);
        assert forall|i: int| 0 <= i < rank_pos(s, k) implies s[i].0 >= k by {
            if i > 0 {
                assert(s[i] == s.drop_first()[i - 1]);
            }
        }
    }
}

/// Ranking orders scores from highest to lowest.
pub proof fn lemma_rank_sorted(s: Seq<RankKey>)
    ensures
        sorted_desc(rank(s)),
        rank(s).len() == s.len(),
    decreases s.len(),
{
    if s.len() > 0 {
        let r = rank(s.drop_last());
        lemma_rank_sorted(s.drop_last());
        let k = s.last();
        let p = rank_pos(r, k.0);
        lemma_rank_pos_bounds(r, k.0);
        let t = r.insert(p, k);
        assert forall|i: int, j: int| 0 <= i < j < t.len() implies t[i].0 >= t[j].0 by {
            if j < p {
            } else if j == p {
                assert(t[i] == r[i]);
            } else if i < p {
                assert(t[j] == r[j - 1]);
                if j - 1 >= p {
                    assert(r[p].0 < k.0);
                }
            } else if i == p {
                assert(t[j] == r[j - 1]);
                assert(r[j - 1].0 <= r[p].0);
            } else {
                assert(t[i] == r[i - 1]);
                assert(t[j] == r[j - 1]);
            }
        }
    }
}

/// Inserts `k` where `rank` puts it.
fn rank_insert(r: &mut Vec<RankKey>, k: RankKey)
    ensures
        final(r)@ == old(r)@.insert(rank_pos(old(r)@, k.0), k),
{
    let ghost s = r@;
    assert(s.subrange(0, s.len() as int) =~= s);
    let mut i: usize = 0;
    while i < r.len() && r[i].0 >= k.0
        invariant
            r@ == s,
            i <= s.len(),
            rank_pos(s, k.0) == i + rank_pos(s.subrange(i as int, s.len() as int), k.0),
        decreases s.len() - i,
    {
        let ghost rest = s.subrange(i as int, s.len() as int);
        assert(rest.drop_first() =~= s.subrange(i as int + 1, s.len() as int));
        i = i + 1;
    }
    proof {
        let rest = s.subrange(i as int, s.len() as int);
        if i < s.len() {
            assert(rest[0] == s[i as int]);
        }
    }
    r.insert(i, k);
}

impl SurveillanceAnalyzer {
    pub fn new(time_windows_minutes: Vec<u32>, persistence_threshold_ppm: u32) -> (r: SurveillanceAnalyzer)
        ensures
            r.time_windows_minutes == time_windows_minutes,
            r.persistence_threshold_ppm == persistence_threshold_ppm,
    {
        SurveillanceAnalyzer { time_windows_minutes, persistence_threshold_ppm }
    }

    /// The alert for one device.
    fn alert_for(&self, a: &DeviceActivity, start: i64, end: i64) -> (r: SurveillanceAlert)
        requires
            end - start <= SECS_PER_HOUR * 0xffff_ffff,
            self.time_windows_minutes@.len() <= 0xffff_ffff,
        ensures
            alert_describes(r, *a, self.time_windows_minutes@, start as int, end as int),
    {
        let ws = &self.time_windows_minutes;
        let score = persistence_score(&a.device, &a.probes, ws, start, end);
        let span: i128 = end as i128 - start as i128;
        let sd: u128 = if span > 0 { span as u128 } else { 1 };
        let wd: u128 = if ws.len() > 0 { ws.len() as u128 } else { 1 };
        assert(wd * sd <= 0x1_0000_0000 * 0x1000_0000_0000) by (nonlinear_arith)
            requires wd <= 0x1_0000_0000, sd <= 0x1000_0000_0000;
        let scale = 100 * (wd * sd);
        assert(100 * (wd * sd) == 100 * wd * sd) by (nonlinear_arith);
        SurveillanceAlert {
            device: a.device.copied(),
            score,
            scale,
            reasons: alert_reasons_for(&a.device, &a.probes, ws),
            probed_ssids: unique_ssids(&a.probes),
            location_count: count_locations(&a.probes),
            appearance_count: a.probes.len() as u64,
        }
    }

    /// Scores each device seen within `[now - 3600 * hours, now]` that has
    /// probes, and reports those whose score reaches the threshold, highest
    /// score first (devices with equal scores keep their input order).
    pub fn analyze(&self, devices: &Vec<DeviceActivity>, now: i64, hours: u32) -> (r: Vec<SurveillanceAlert>)
        requires
            now >= i64::MIN + SECS_PER_HOUR * 0xffff_ffff,
            self.time_windows_minutes@.len() <= 0xffff_ffff,
        ensures
            r@.len() == rank(
                flagged_keys(
                    devices@,
                    self.time_windows_minutes@,
                    self.persistence_threshold_ppm as int,
                    now - 3600 * hours,
                    now as int,
                ),
            ).len(),
            forall|k: int|
                0 <= k < r@.len() ==> {
                    let key = rank(
                        flagged_keys(
                            devices@,
                            self.time_windows_minutes@,
                            self.persistence_threshold_ppm as int,
                            now - 3600 * hours,
                            now as int,
                        ),
                    )[k];
                    &&& key.1 < devices@.len()
                    &&& alert_describes(
                        #[trigger] r@[k],
                        devices@[key.1 as int],
                        self.time_windows_minutes@,
                        now - 3600 * hours,
                        now as int,
                    )
                },
    {
        let start: i64 = now - 3600 * (hours as i64);
        let ws = &self.time_windows_minutes;
        let ppm = self.persistence_threshold_ppm;
        let ghost keys_spec = flagged_keys(devices@, ws@, ppm as int, start as int, now as int);
        let mut keys: Vec<RankKey> = Vec::new();
        let mut i: usize = 0;
        while i < devices.len()
            invariant
                i <= devices@.len(),
                start == now - 3600 * hours,
                end_ok(start, now),
                ws@.len() <= 0xffff_ffff,
                keys@ == rank(flagged_keys(devices@.subrange(0, i as int), ws@, ppm as int, start as int, now as int)),
                forall|j: int| 0 <= j < keys@.len() ==> #[trigger] keys@[j].1 < i,
            decreases devices@.len() - i,
        {
            let a = &devices[i];
            let ghost pre = devices@.subrange(0, i as int + 1);
            assert(pre.drop_last() =~= devices@.subrange(0, i as int));
            assert(pre.last() == devices@[i as int]);
            if start <= a.device.last_seen && a.device.last_seen <= now && a.probes.len() > 0 {
                let score = persistence_score(&a.device, &a.probes, ws, start, now);
                let span: i128 = now as i128 - start as i128;
                let sd: u128 = if span > 0 { span as u128 } else { 1 };
                let wd: u128 = if ws.len() > 0 { ws.len() as u128 } else { 1 };
                assert(wd * sd <= 0x1_0000_0000 * 0x1000_0000_0000) by (nonlinear_arith)
                    requires wd <= 0x1_0000_0000, sd <= 0x1000_0000_0000;
                let scale = 100 * (wd * sd);
                assert(100 * (wd * sd) == 100 * wd * sd) by (nonlinear_arith);
                assert(score * 1_000_000 <= 0x10_0000_0000_0000_0000_0000 * 1_000_000) by (nonlinear_arith)
                    requires score <= 0x10_0000_0000_0000_0000_0000;
                assert((ppm as u128) * scale <= 0x1_0000_0000 * 0x10_0000_0000_0000_0000_0000) by (nonlinear_arith)
                    requires ppm <= 0xffff_ffff, scale <= 0x10_0000_0000_0000_0000_0000;
                if score * 1_000_000 >= (ppm as u128) * scale {
                    let ghost before = keys@;
                    rank_insert(&mut keys, (score, i));
                    proof {
                        let fk = flagged_keys(pre.drop_last(), ws@, ppm as int, start as int, now as int);
                        assert(flagged(pre.last(), ws@, ppm as int, start as int, now as int));
                        assert(flagged_keys(pre, ws@, ppm as int, start as int, now as int) == fk.push((score, i)));
                        assert(fk.push((score, i)).drop_last() =~= fk);
                        lemma_rank_pos_bounds(before, score);
                        assert forall|j: int| 0 <= j < keys@.len() implies #[trigger] keys@[j].1 < i + 1 by {
                            let p = rank_pos(before, score);
                            if j < p {
                                assert(keys@[j] == before[j]);
                            } else if j > p {
                                assert(keys@[j] == before[j - 1]);
                            }
                        }
                    }
                } else {
                    assert(!flagged(pre.last(), ws@, ppm as int, start as int, now as int));
                    assert(keys@ == rank(flagged_keys(pre, ws@, ppm as int, start as int, now as int)));
                }
            } else {
                assert(!flagged(pre.last(), ws@, ppm as int, start as int, now as int));
            }
            i = i + 1;
        }
        assert(devices@.subrange(0, devices@.len() as int) =~= devices@);
        let mut r: Vec<SurveillanceAlert> = Vec::new();
        let mut k: usize = 0;
        while k < keys.len()
            invariant
                k <= keys@.len(),
                keys@ == rank(keys_spec),
                start == now - 3600 * hours,
                end_ok(start, now),
                ws == &self.time_windows_minutes,
                ws@.len() <= 0xffff_ffff,
                forall|j: int| 0 <= j < keys@.len() ==> #[trigger] keys@[j].1 < devices@.len(),
                r@.len() == k,
                forall|j: int|
                    0 <= j < k ==> alert_describes(
                        #[trigger] r@[j],
                        devices@[keys@[j].1 as int],
                        ws@,
                        start as int,
                        now as int,
                    ),
            decreases keys@.len() - k,
        {
            let idx = keys[k].1;
            let alert = self.alert_for(&devices[idx], start, now);
            let ghost before = r@;
            r.push(alert);
            assert(forall|j: int| 0 <= j < k ==> r@[j] == before[j]);
            k = k + 1;
        }
        r
    }
}

pub open spec fn end_ok(start: i64, end: i64) -> bool {
    end - start <= SECS_PER_HOUR * 0xffff_ffff
}

/// What an alert reports of a device.
pub open spec fn alert_describes(
    r: SurveillanceAlert,
    a: DeviceActivity,
    ws: Seq<u32>,
    start: int,
    end: int,
) -> bool {
    &&& r.device == a.device
    &&& r.score == score_num(a.device, a.probes@, ws, start, end)
    &&& r.scale == score_scale(ws, start, end)
    &&& r.reasons@ == alert_reasons(a.device, a.probes@, ws)
    &&& r.probed_ssids@.map_values(|s: String| s@).no_duplicates()
    &&& r.probed_ssids@.map_values(|s: String| s@).to_set() == probed_ssid_set(a.probes@)
    &&& r.location_count == cell_count(a.probes@)
    &&& r.appearance_count == a.probes@.len()
}

/// With no device last seen within the horizon, nothing is flagged.
pub proof fn lemma_empty_horizon_no_alerts(
    hs: Seq<DeviceActivity>,
    ws: Seq<u32>,
    ppm: int,
    start: int,
    end: int,
)
    requires
        forall|i: int|
            0 <= i < hs.len() ==> !(start <= #[trigger] hs[i].device.last_seen <= end),
    ensures
        rank(flagged_keys(hs, ws, ppm, start, end)).len() == 0,
    decreases hs.len(),
{
    if hs.len() > 0 {
        let pre = hs.drop_last();
        assert(hs.last() == hs[hs.len() - 1]);
        assert forall|i: int| 0 <= i < pre.len() implies !(start <= #[trigger] pre[i].device.last_seen
            <= end) by {
            assert(pre[i] == hs[i]);
        }
        lemma_empty_horizon_no_alerts(pre, ws, ppm, start, end);
        lemma_rank_sorted(flagged_keys(pre, ws, ppm, start, end));
    }
}

/// The devices last seen within one window before now.
pub struct TimeWindowAnalysis {
    pub window_minutes: u32,
    pub device_count: u64,
    /// MAC addresses of those devices, in input order.
    pub devices: Vec<String>,
}

/// MACs of the devices last seen within `[now - 60 * minutes, now]`.
pub open spec fn macs_in_window(ds: Seq<Device>, now: int, minutes: int) -> Seq<Seq<char>>
    decreases ds.len(),
{
    if ds.len() == 0 {
        Seq::empty()
    } else {
        let r = macs_in_window(ds.drop_last(), now, minutes);
        if now - 60 * minutes <= ds.last().last_seen <= now {
            r.push(ds.last().mac@)
        } else {
            r
        }
    }
}

fn window_devices(ds: &Vec<Device>, now: i64, minutes: u32) -> (r: Vec<String>)
    ensures
        r@.map_values(|s: String| s@) == macs_in_window(ds@, now as int, minutes as int),
{
    let lo: i128 = now as i128 - 60 * (minutes as i128);
    let mut r: Vec<String> = Vec::new();
    let mut i: usize = 0;
    while i < ds.len()
        invariant
            i <= ds@.len(),
            lo == now - 60 * minutes,
            r@.map_values(|s: String| s@) == macs_in_window(ds@.subrange(0, i as int), now as int, minutes as int),
        decreases ds@.len() - i,
    {
        let ghost pre = ds@.subrange(0, i as int + 1);
        assert(pre.drop_last() =~= ds@.subrange(0, i as int));
        let d = &ds[i];
        if lo <= d.last_seen as i128 && d.last_seen <= now {
            let ghost before = r@;
            r.push(d.mac.clone());
            assert(r@.map_values(|s: String| s@) =~= before.map_values(|s: String| s@).push(d.mac@));
        }
        i = i + 1;
    }
    assert(ds@.subrange(0, ds@.len() as int) =~= ds@);
    r
}

/// For each window (in minutes), the devices last seen within it before
/// `now`.
pub fn analyze_time_windows(ds: &Vec<Device>, windows: &Vec<u32>, now: i64) -> (r: Vec<TimeWindowAnalysis>)
    ensures
        r@.len() == windows@.len(),
        forall|k: int|
            0 <= k < r@.len() ==> {
                &&& (#[trigger] r@[k]).window_minutes == windows@[k]
                &&& r@[k].devices@.map_values(|s: String| s@) == macs_in_window(
                    ds@,
                    now as int,
                    windows@[k] as int,
                )
                &&& r@[k].device_count == r@[k].devices@.len()
            },
{
    let mut r: Vec<TimeWindowAnalysis> = Vec::new();
    let mut k: usize = 0;
    while k < windows.len()
        invariant
            k <= windows@.len(),
            r@.len() == k,
            forall|j: int|
                0 <= j < k ==> {
                    &&& (#[trigger] r@[j]).window_minutes == windows@[j]
                    &&& r@[j].devices@.map_values(|s: String| s@) == macs_in_window(
                        ds@,
                        now as int,
                        windows@[j] as int,
                    )
                    &&& r@[j].device_count == r@[j].devices@.len()
                },
        decreases windows@.len() - k,
    {
        let w = windows[k];
        let devices = window_devices(ds, now, w);
        let n = devices.len() as u64;
        let ghost before = r@;
        r.push(TimeWindowAnalysis { window_minutes: w, device_count: n, devices });
        assert(forall|j: int| 0 <= j < k ==> r@[j] == before[j]);
        k = k + 1;
    }
    r
}

/// Without any position among the probes the location term is 0, not the
/// 0.2 that a single cell gives.
pub proof fn lemma_no_positions_no_location_term(ps: Seq<ProbeSighting>)
    requires
        forall|i: int| 0 <= i < ps.len() ==> (#[trigger] ps[i]).cell is None,
    ensures
        cell_count(ps) == 0,
        location_tenths(cell_count(ps)) == 0,
{
    lemma_no_cells(ps);
    assert(sighting_cells(ps).to_set() =~= Set::<(i64, i64)>::empty());
}

proof fn lemma_no_cells(ps: Seq<ProbeSighting>)
    requires
        forall|i: int| 0 <= i < ps.len() ==> (#[trigger] ps[i]).cell is None,
    ensures
        sighting_cells(ps).len() == 0,
    decreases ps.len(),
{
    if ps.len() > 0 {
        let pre = ps.drop_last();
        assert forall|i: int| 0 <= i < pre.len() implies (#[trigger] pre[i]).cell is None by {
            assert(pre[i] == ps[i]);
        }
        assert(ps.last() == ps[ps.len() - 1]);
        lemma_no_cells(pre);
    }
}

} // verus!
