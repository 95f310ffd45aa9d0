//! Records of the persistent store: devices and the probe facts that the
//! analysis reads.
use vstd::prelude::*;

verus! {

/// A device, identified by its canonical MAC text.
#[derive(Clone, Debug)]
pub struct Device {
    pub id: i64,
    pub mac: String,
    pub first_seen: i64,
    pub last_seen: i64,
}

impl Device {
    /// A copy with equal fields.
    pub fn copied(&self) -> (r: Device)
        ensures
            r == *self,
    {
        Device {
            id: self.id,
            mac: self.mac.clone(),
            first_seen: self.first_seen,
            last_seen: self.last_seen,
        }
    }
}

/// What the analysis reads of one stored probe: when it was seen, the SSID
/// it asked for, and the 100-metre grid cell of its position, if any
/// (latitude and longitude times 1000, truncated).
#[derive(Clone, Debug)]
pub struct ProbeSighting {
    pub timestamp: i64,
    pub ssid: String,
    pub cell: Option<(i64, i64)>,
}

/// The device write that storing a probe makes.
pub enum DeviceWrite {
    /// The device is known: its `last_seen` becomes the probe's time.
    Touch { id: i64, last_seen: i64 },
    /// A new device, first and last seen at the probe's time.
    Create { mac: String, first_seen: i64, last_seen: i64 },
}

/// Decides how a probe seen at `now` from `mac` updates the devices: the
/// device already stored under that MAC (its id) is touched, else one is
/// created.
pub fn plan_device_write(existing: Option<i64>, mac: &str, now: i64) -> (r: DeviceWrite)
    ensures
        existing matches Some(id) ==> r == (DeviceWrite::Touch { id, last_seen: now }),
        existing is None ==> (r matches DeviceWrite::Create { mac: m, first_seen, last_seen }
            && m@ == mac@ && first_seen == now && last_seen == now),
{
    match existing {
        Some(id) => DeviceWrite::Touch { id, last_seen: now },
        None => DeviceWrite::Create { mac: String::from_str(mac), first_seen: now, last_seen: now },
    }
}

/// The device as a write leaves it.
pub open spec fn after_write(d: Device, w: DeviceWrite) -> Device {
    match w {
        DeviceWrite::Touch { id, last_seen } => Device { last_seen, ..d },
        DeviceWrite::Create { mac, first_seen, last_seen } => Device {
            id: d.id,
            mac,
            first_seen,
            last_seen,
        },
    }
}

/// A created device has `first_seen == last_seen`; touching a device at a
/// time no earlier than its first sighting keeps `first_seen <= last_seen`
/// and puts the probe's time within `[first_seen, last_seen]`.
pub proof fn lemma_write_keeps_order(d: Device, existing: Option<i64>, mac: Seq<char>, now: i64, w: DeviceWrite)
    requires
        existing is Some ==> w == (DeviceWrite::Touch { id: existing->0, last_seen: now }) && d.first_seen <= now,
        existing is None ==> (w matches DeviceWrite::Create { mac: m, first_seen, last_seen }
            && m@ == mac && first_seen == now && last_seen == now),
    ensures
        after_write(d, w).first_seen <= after_write(d, w).last_seen,
        after_write(d, w).first_seen <= now <= after_write(d, w).last_seen,
{
}

} // verus!
