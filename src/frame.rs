//! 802.11 probe-request recognition and decoding.
use vstd::prelude::*;
use crate::radiotap::le_u16;
use crate::capabilities::{
    capabilities_describe, extract_capabilities, has_unterminated_wps_state, unterminated_wps_state,
    ProbeCapabilities,
};
use crate::text::{hex_byte, hex_char, is_upper_hex, push_char};

verus! {

/// A probe request as the capture pipeline sees it.
pub struct ParsedProbeRequest {
    /// Transmitter address in canonical form, `AA:BB:CC:DD:EE:FF`.
    pub source_mac: String,
    /// Requested SSID; empty for a wildcard probe.
    pub ssid: String,
    pub signal_dbm: Option<i32>,
    /// What the frame's information elements say of the station.
    pub capabilities: ProbeCapabilities,
}

/// The 802.11 frame that follows an optional radiotap header; `None` when
/// the header claims more bytes than the buffer holds.
pub open spec fn frame_after_radiotap(b: Seq<u8>) -> Option<Seq<u8>> {
    if b.len() > 4 && b[0] == 0 {
        let l = le_u16(b, 2);
        if l > b.len() {
            None
        } else {
            Some(b.subrange(l, b.len() as int))
        }
    } else {
        Some(b)
    }
}

/// Frame control byte of a management frame (type 0) of subtype 4.
pub open spec fn is_probe_request_fc(fc: u8) -> bool {
    (fc >> 2u8) & 3u8 == 0u8 && (fc >> 4u8) & 15u8 == 4u8
}

/// Canonical text of a MAC address: two upper-case hex digits per byte,
/// separated by colons.
pub open spec fn mac_text(m: Seq<u8>) -> Seq<char>
    decreases m.len(),
{
    if m.len() == 0 {
        Seq::empty()
    } else if m.len() == 1 {
        hex_byte(m[0])
    } else {
        mac_text(m.drop_last()) + seq![':'] + hex_byte(m.last())
    }
}

/// Canonical MAC text: six upper-case hex pairs joined by colons.
pub open spec fn is_canonical_mac(s: Seq<char>) -> bool {
    &&& s.len() == 17
    &&& forall|i: int| 0 <= i < 17 ==> (#[trigger] s[i] == ':') == (i % 3 == 2)
    &&& forall|i: int| 0 <= i < 17 && i % 3 != 2 ==> is_upper_hex(#[trigger] s[i])
}

/// What libwifi's frame decoder yields for a buffer: the requested SSID
/// (empty when the frame names none) when it decodes a probe request.
pub uninterp spec fn decoded_probe_ssid(frame: Seq<u8>) -> Option<Seq<char>>;

/// The probe request that `parse_probe_request` reports for a packet. A
/// frame with a WPS element that libwifi cannot decode safely is rejected.
pub open spec fn parsed_probe(b: Seq<u8>) -> Option<(Seq<char>, Seq<char>)> {
    match frame_after_radiotap(b) {
        None => None,
        Some(f) => if f.len() < 24 || unterminated_wps_state(f) {
            None
        } else {
            match decoded_probe_ssid(f) {
                None => None,
                Some(ssid) => Some((mac_text(f.subrange(10, 16)), ssid)),
            }
        },
    }
}

proof fn lemma_hex_byte_upper(b: u8)
    ensures
        is_upper_hex(hex_byte(b)[0]),
        is_upper_hex(hex_byte(b)[1]),
{
}

/// The text of six bytes is canonical MAC text.
pub proof fn lemma_mac_text_canonical(m: Seq<u8>)
    requires
        m.len() == 6,
    ensures
        is_canonical_mac(mac_text(m)),
{
    reveal_with_fuel(mac_text, 6);
    let s = mac_text(m);
    let parts = seq![m[0], m[1], m[2], m[3], m[4], m[5]];
    assert(m =~= parts);
    assert(m.drop_last() =~= m.subrange(0, 5));
    assert(m.subrange(0, 5).drop_last() =~= m.subrange(0, 4));
    assert(m.subrange(0, 4).drop_last() =~= m.subrange(0, 3));
    assert(m.subrange(0, 3).drop_last() =~= m.subrange(0, 2));
    assert(m.subrange(0, 2).drop_last() =~= m.subrange(0, 1));
    let e = hex_byte(m[0]) + seq![':'] + hex_byte(m[1]) + seq![':'] + hex_byte(m[2]) + seq![
        ':',
    ] + hex_byte(m[3]) + seq![':'] + hex_byte(m[4]) + seq![':'] + hex_byte(m[5]);
    assert(s =~= e);
    lemma_hex_byte_upper(m[0]);
    lemma_hex_byte_upper(m[1]);
    lemma_hex_byte_upper(m[2]);
    lemma_hex_byte_upper(m[3]);
    lemma_hex_byte_upper(m[4]);
    lemma_hex_byte_upper(m[5]);
}

/// Relies on libwifi::parse_frame (without FCS): it yields a probe request
/// only for a management frame of subtype 4 of at least 24 bytes, whose
/// second address is bytes 10 to 16. Its WPS decoder indexes past the end
/// of an element that ends on a value-less 0x1057 attribute, so such frames
/// are not handed to it.
#[verifier::external_body]
fn decode_probe_request(frame: &[u8]) -> (r: Option<(Vec<u8>, String)>)
    requires
        !unterminated_wps_state(frame@),
    ensures
        r is Some <==> decoded_probe_ssid(frame@) is Some,
        r matches Some(p) ==> {
            &&& frame@.len() >= 24
            &&& is_probe_request_fc(frame@[0])
            &&& p.0@ == frame@.subrange(10, 16)
            &&& decoded_probe_ssid(frame@) == Some(p.1@)
        },
{
    match libwifi::parse_frame(frame, false) {
        Ok(libwifi::Frame::ProbeRequest(p)) => Some(
            (p.header.address_2.0.to_vec(), p.station_info.ssid.unwrap_or_default()),
        ),
        _ => None,
    }
}

/// Formats a MAC address as upper-case hex pairs joined by colons.
pub fn format_mac(mac: &[u8]) -> (r: String)
    ensures
        r@ == mac_text(mac@),
        mac@.len() == 6 ==> is_canonical_mac(r@),
{
    let mut s = String::new();
    let mut i: usize = 0;
    while i < mac.len()
        invariant
            i <= mac@.len(),
            s@ == mac_text(mac@.subrange(0, i as int)),
        decreases mac@.len() - i,
    {
        let b = mac[i];
        proof {
            let m = mac@.subrange(0, i as int + 1);
            assert(m.drop_last() =~= mac@.subrange(0, i as int));
            assert(m.last() == b);
        }
        if i > 0 {
            push_char(&mut s, ':');
        }
        push_char(&mut s, hex_char(b / 16));
        push_char(&mut s, hex_char(b % 16));
        proof {
            let m = mac@.subrange(0, i as int + 1);
            if i == 0 {
                assert(s@ =~= hex_byte(b));
            } else {
                assert(s@ =~= mac_text(m.drop_last()) + seq![':'] + hex_byte(b));
            }
        }
        i = i + 1;
    }
    assert(mac@.subrange(0, mac@.len() as int) =~= mac@);
    proof {
        if mac@.len() == 6 {
            lemma_mac_text_canonical(mac@);
        }
    }
    s
}

/// Strips a radiotap header when the buffer starts with one.
fn skip_radiotap(data: &[u8]) -> (r: Option<&[u8]>)
    ensures
        r matches Some(f) ==> frame_after_radiotap(data@) == Some(f@),
        r is None ==> frame_after_radiotap(data@) is None,
{
    if data.len() > 4 && data[0] == 0 {
        let l = data[2] as usize + 256 * (data[3] as usize);
        if l > data.len() {
            None
        } else {
            Some(vstd::slice::slice_subrange(data, l, data.len()))
        }
    } else {
        Some(data)
    }
}

/// Checks the frame control field: a management frame of subtype probe
/// request, after an optional radiotap header.
pub fn is_probe_request(data: &[u8]) -> (r: bool)
    ensures
        r == (frame_after_radiotap(data@) matches Some(f) && f.len() >= 2
            && is_probe_request_fc(f[0])),
{
    match skip_radiotap(data) {
        None => false,
        Some(f) => {
            if f.len() < 2 {
                false
            } else {
                let fc = f[0];
                (fc >> 2u8) & 3u8 == 0u8 && (fc >> 4u8) & 15u8 == 4u8
            }
        },
    }
}

/// Decodes a probe request from a captured packet, with the signal that
/// the radiotap header carried.
pub fn parse_probe_request(data: &[u8], signal_dbm: Option<i32>) -> (r: Option<ParsedProbeRequest>)
    ensures
        r matches Some(p) ==> parsed_probe(data@) == Some((p.source_mac@, p.ssid@))
            && p.signal_dbm == signal_dbm && is_canonical_mac(p.source_mac@) && capabilities_describe(
            p.capabilities,
            frame_after_radiotap(data@)->0,
        ),
        r is None ==> parsed_probe(data@) is None,
        frame_after_radiotap(data@) matches Some(f) && f.len() < 24 ==> r is None,
        frame_after_radiotap(data@) matches Some(f) && unterminated_wps_state(f) ==> r is None,
        frame_after_radiotap(data@) matches Some(f) && f.len() >= 1 && !is_probe_request_fc(f[0])
            ==> r is None,
{
    let f = match skip_radiotap(data) {
        None => return None,
        Some(f) => f,
    };
    if f.len() < 24 || has_unterminated_wps_state(f) {
        return None;
    }
    match decode_probe_request(f) {
        None => None,
        Some((addr, ssid)) => {
            let source_mac = format_mac(addr.as_slice());
            let capabilities = extract_capabilities(f);
            Some(ParsedProbeRequest { source_mac, ssid, signal_dbm, capabilities })
        },
    }
}

} // verus!
