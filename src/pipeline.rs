//! The per-packet decisions of the capture loop: signal, probe request,
//! ignore filter.
use vstd::prelude::*;
use crate::frame::{parse_probe_request, parsed_probe, ParsedProbeRequest};
use crate::ignore::IgnoreLists;
use crate::radiotap::{extract_signal_dbm, radiotap_signal};

verus! {

/// What the capture loop does with one packet.
pub enum PacketOutcome {
    /// Not a probe request, or malformed: skip it.
    Malformed,
    /// A probe request that the ignore lists drop.
    Ignored(ParsedProbeRequest),
    /// A probe request to stamp and store.
    Admitted(ParsedProbeRequest),
}

/// Decodes one captured packet and applies the ignore filter.
pub fn classify_packet(data: &[u8], lists: &IgnoreLists) -> (r: PacketOutcome)
    ensures
        r is Malformed <==> parsed_probe(data@) is None,
        r matches PacketOutcome::Admitted(p) ==> lists.admits_spec(p.source_mac@, p.ssid@)
            && parsed_probe(data@) == Some((p.source_mac@, p.ssid@)) && (p.signal_dbm matches Some(
            v) ==> radiotap_signal(data@) == Some(v as int)) && (p.signal_dbm is None
            ==> radiotap_signal(data@) is None),
        r matches PacketOutcome::Ignored(p) ==> !lists.admits_spec(p.source_mac@, p.ssid@)
            && parsed_probe(data@) == Some((p.source_mac@, p.ssid@)),
{
    let signal = extract_signal_dbm(data);
    match parse_probe_request(data, signal) {
        None => PacketOutcome::Malformed,
        Some(p) => {
            if lists.admits(p.source_mac.as_str(), p.ssid.as_str()) {
                PacketOutcome::Admitted(p)
            } else {
                PacketOutcome::Ignored(p)
            }
        },
    }
}

} // verus!
