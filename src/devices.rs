//! The live table of devices seen in this session, each with its RSSI
//! tracker, and the calibrator that their signals feed.
use vstd::prelude::*;
use crate::capabilities::WifiGeneration;
use crate::distance::{lemma_tracker_window, peak_step, recent, AdaptiveCalibrator, RssiTracker};

verus! {

/// What the session knows of one device.
pub struct DeviceEntry {
    pub mac: String,
    pub first_seen: i64,
    pub last_seen: i64,
    pub probe_count: u64,
    /// Non-empty SSIDs it asked for, each once, in order of first request.
    pub ssids: Vec<String>,
    pub last_signal: Option<i32>,
    /// Generation from its most recent probe that carried capabilities.
    pub wifi_generation: Option<WifiGeneration>,
    pub rssi_tracker: RssiTracker,
}

/// Devices seen in this session, one entry per MAC, in order of first
/// sighting.
pub struct DeviceTable {
    pub entries: Vec<DeviceEntry>,
    pub calibrator: AdaptiveCalibrator,
    pub tracker_capacity: u16,
}

pub open spec fn ssid_texts(v: Seq<String>) -> Seq<Seq<char>> {
    v.map_values(|s: String| s@)
}

/// The SSID list after a probe for `ssid`: a new non-empty SSID is appended.
pub open spec fn ssids_after(old: Seq<Seq<char>>, ssid: Seq<char>) -> Seq<Seq<char>> {
    if ssid.len() > 0 && !old.contains(ssid) {
        old.push(ssid)
    } else {
        old
    }
}

/// The samples a tracker has after a probe with signal `signal`.
pub open spec fn samples_after(old: Seq<i32>, signal: Option<i32>) -> Seq<i32> {
    match signal {
        Some(v) => if old.len() < u64::MAX { old.push(v) } else { old },
        None => old,
    }
}

/// How a known device's entry changes with a probe.
pub open spec fn entry_updated(
    o: DeviceEntry,
    n: DeviceEntry,
    ssid: Seq<char>,
    timestamp: i64,
    signal: Option<i32>,
    generation: Option<WifiGeneration>,
) -> bool {
    &&& n.mac == o.mac
    &&& n.first_seen == o.first_seen
    &&& n.last_seen == timestamp
    &&& n.probe_count == if o.probe_count < u64::MAX { o.probe_count + 1 } else { o.probe_count as int }
    &&& ssid_texts(n.ssids@) == ssids_after(ssid_texts(o.ssids@), ssid)
    &&& n.last_signal == signal
    &&& n.wifi_generation == if generation is Some { generation } else { o.wifi_generation }
    &&& n.rssi_tracker.wf()
    &&& n.rssi_tracker.cap() == o.rssi_tracker.cap()
    &&& n.rssi_tracker.all_samples() == samples_after(o.rssi_tracker.all_samples(), signal)
    &&& n.rssi_tracker.held() == recent(n.rssi_tracker.all_samples(), n.rssi_tracker.cap() as int)
}

/// The entry of a device first seen with a probe.
pub open spec fn entry_created(
    n: DeviceEntry,
    mac: Seq<char>,
    ssid: Seq<char>,
    timestamp: i64,
    signal: Option<i32>,
    generation: Option<WifiGeneration>,
    cap: u16,
) -> bool {
    &&& n.mac@ == mac
    &&& n.first_seen == timestamp
    &&& n.last_seen == timestamp
    &&& n.probe_count == 1
    &&& ssid_texts(n.ssids@) == ssids_after(Seq::empty(), ssid)
    &&& n.last_signal == signal
    &&& n.wifi_generation == generation
    &&& n.rssi_tracker.wf()
    &&& n.rssi_tracker.cap() == cap
    &&& n.rssi_tracker.all_samples() == samples_after(Seq::empty(), signal)
    &&& n.rssi_tracker.held() == recent(n.rssi_tracker.all_samples(), cap as int)
}

pub open spec fn calibrator_after(c: AdaptiveCalibrator, signal: Option<i32>, d: AdaptiveCalibrator) -> bool {
    match signal {
        Some(v) => peak_step(c, v, d),
        None => d == c,
    }
}

/// A device's first sighting never follows its last: a new entry starts
/// with both at the probe's time, and a probe no earlier than the first
/// sighting moves the last one to its own time, within the two.
pub proof fn lemma_entry_times_ordered(
    o: DeviceEntry,
    n: DeviceEntry,
    mac: Seq<char>,
    ssid: Seq<char>,
    timestamp: i64,
    signal: Option<i32>,
    generation: Option<WifiGeneration>,
    cap: u16,
)
    requires
        entry_created(n, mac, ssid, timestamp, signal, generation, cap) || (entry_updated(
            o,
            n,
            ssid,
            timestamp,
            signal,
            generation,
        ) && o.first_seen <= timestamp),
    ensures
        n.first_seen <= timestamp <= n.last_seen,
{
}

impl DeviceTable {
    pub open spec fn wf(&self) -> bool {
        &&& self.calibrator.wf()
        &&& forall|i: int| 0 <= i < self.entries@.len() ==> (#[trigger] self.entries@[i]).rssi_tracker.wf()
        &&& forall|i: int, j: int|
            0 <= i < j < self.entries@.len() ==> (#[trigger] self.entries@[i]).mac@ != (
            #[trigger] self.entries@[j]).mac@
    }

    pub fn new(tracker_capacity: u16) -> (r: DeviceTable)
        ensures
            r.wf(),
            r.entries@.len() == 0,
            r.tracker_capacity == tracker_capacity,
    {
        DeviceTable { entries: Vec::new(), calibrator: AdaptiveCalibrator::new(), tracker_capacity }
    }

    /// Position of the device with this MAC.
    pub fn position(&self, mac: &str) -> (r: Option<usize>)
        ensures
            r matches Some(i) ==> i < self.entries@.len() && self.entries@[i as int].mac@ == mac@,
            r is None ==> forall|i: int| 0 <= i < self.entries@.len() ==> (#[trigger] self.entries@[i]).mac@ != mac@,
    {
        let key = String::from_str(mac);
        let mut i: usize = 0;
        while i < self.entries.len()
            invariant
                i <= self.entries@.len(),
                key@ == mac@,
                forall|j: int| 0 <= j < i ==> (#[trigger] self.entries@[j]).mac@ != mac@,
            decreases self.entries@.len() - i,
        {
            if self.entries[i].mac == key {
                return Some(i);
            }
            i = i + 1;
        }
        None
    }

    /// Records a probe from `mac`: the known device's entry is updated, or
    /// an entry is created for a new one; its signal feeds the device's
    /// tracker and the calibrator's peak.
    pub fn record_probe(
        &mut self,
        mac: &str,
        ssid: &str,
        timestamp: i64,
        signal: Option<i32>,
        generation: Option<WifiGeneration>,
    )
        requires
            old(self).wf(),
        ensures
            final(self).wf(),
            final(self).tracker_capacity == old(self).tracker_capacity,
            calibrator_after(old(self).calibrator, signal, final(self).calibrator),
            (exists|i: int| 0 <= i < old(self).entries@.len() && (#[trigger] old(self).entries@[i]).mac@ == mac@)
                ==> {
                &&& final(self).entries@.len() == old(self).entries@.len()
                &&& forall|i: int|
                    0 <= i < old(self).entries@.len() ==> if (#[trigger] old(self).entries@[i]).mac@
                        == mac@ {
                        entry_updated(old(self).entries@[i], final(self).entries@[i], ssid@, timestamp, signal, generation)
                    } else {
                        final(self).entries@[i] == old(self).entries@[i]
                    }
            },
            (forall|i: int| 0 <= i < old(self).entries@.len() ==> (#[trigger] old(self).entries@[i]).mac@ != mac@)
                ==> {
                &&& final(self).entries@.len() == old(self).entries@.len() + 1
                &&& final(self).entries@.subrange(0, old(self).entries@.len() as int) == old(self).entries@
                &&& entry_created(final(self).entries@.last(), mac@, ssid@, timestamp, signal, generation, old(self).tracker_capacity)
            },
    {
        if let Some(v) = signal {
            self.calibrator.record_peak_rssi(v);
        }
        match self.position(mac) {
            Some(i) => {
                let ghost before = self.entries@;
                let e = &mut self.entries[i];
                update_entry(e, ssid, timestamp, signal, generation);
                proof {
                    assert forall|j: int| 0 <= j < self.entries@.len() implies (#[trigger] self.entries@[j]).mac@
                        == before[j].mac@ by {}
                    assert forall|j: int| 0 <= j < self.entries@.len() implies (#[trigger] self.entries@[j]).rssi_tracker.wf() by {
                        if j != i {
                            assert(self.entries@[j] == before[j]);
                        }
                    }
                }
            },
            None => {
                let mut tracker = RssiTracker::with_capacity(self.tracker_capacity);
                if let Some(v) = signal {
                    tracker.add_sample(v);
                }
                let mut ssids: Vec<String> = Vec::new();
                if !ssid.is_empty() {
                    ssids.push(String::from_str(ssid));
                }
                proof {
                    lemma_tracker_window(tracker);
                    assert(ssid_texts(ssids@) =~= ssids_after(Seq::empty(), ssid@));
                    assert(tracker.all_samples() =~= samples_after(Seq::empty(), signal));
                }
                let ghost before = self.entries@;
                self.entries.push(
                    DeviceEntry {
                        mac: String::from_str(mac),
                        first_seen: timestamp,
                        last_seen: timestamp,
                        probe_count: 1,
                        ssids,
                        last_signal: signal,
                        wifi_generation: generation,
                        rssi_tracker: tracker,
                    },
                );
                proof {
                    assert(self.entries@.subrange(0, before.len() as int) =~= before);
                    assert forall|j: int| 0 <= j < self.entries@.len() implies (#[trigger] self.entries@[j]).rssi_tracker.wf() by {
                        if j < before.len() {
                            assert(self.entries@[j] == before[j]);
                        }
                    }
                    assert forall|a: int, b: int| 0 <= a < b < self.entries@.len() implies (#[trigger] self.entries@[a]).mac@
                        != (#[trigger] self.entries@[b]).mac@ by {
                        assert(self.entries@[a] == before[a]);
                        if b < before.len() {
                            assert(self.entries@[b] == before[b]);
                        }
                    }
                }
            },
        }
    }
}

fn contains_text(v: &Vec<String>, s: &String) -> (r: bool)
    ensures
        r == ssid_texts(v@).contains(s@),
{
    let mut i: usize = 0;
    while i < v.len()
        invariant
            i <= v@.len(),
            forall|j: int| 0 <= j < i ==> v@[j]@ != s@,
        decreases v@.len() - i,
    {
        if v[i] == *s {
            assert(ssid_texts(v@)[i as int] == s@);
            return true;
        }
        i = i + 1;
    }
    proof {
        if ssid_texts(v@).contains(s@) {
            let j = choose|j: int| 0 <= j < ssid_texts(v@).len() && ssid_texts(v@)[j] == s@;
            assert(v@[j]@ == s@);
        }
    }
    false
}

fn update_entry(
    e: &mut DeviceEntry,
    ssid: &str,
    timestamp: i64,
    signal: Option<i32>,
    generation: Option<WifiGeneration>,
)
    requires
        old(e).rssi_tracker.wf(),
    ensures
        entry_updated(*old(e), *final(e), ssid@, timestamp, signal, generation),
{
    e.probe_count = e.probe_count.saturating_add(1);
    e.last_seen = timestamp;
    e.last_signal = signal;
    let s = String::from_str(ssid);
    if !ssid.is_empty() && !contains_text(&e.ssids, &s) {
        let ghost before = e.ssids@;
        e.ssids.push(s);
        assert(ssid_texts(e.ssids@) =~= ssid_texts(before).push(ssid@));
    }
    if generation.is_some() {
        e.wifi_generation = generation;
    }
    if let Some(v) = signal {
        if e.rssi_tracker.sample_count() < u64::MAX {
            e.rssi_tracker.add_sample(v);
        }
    }
    proof {
        lemma_tracker_window(e.rssi_tracker);
    }
}

} // verus!
