//! Station capabilities carried in the information elements (IEs) of a
//! probe request: rates, HT / VHT / HE support, DS channel, vendor IEs.
use vstd::prelude::*;
use crate::oui::{oui_vendor, oui_vendor_of, Vendor};

verus! {

/// Offset of the first IE in a probe request (right after the MAC header).
pub const IE_START: usize = 24;
pub const IE_SUPPORTED_RATES: u8 = 1;
pub const IE_DS_PARAMETER: u8 = 3;
pub const IE_HT_CAPABILITIES: u8 = 45;
pub const IE_EXTENDED_RATES: u8 = 50;
pub const IE_VHT_CAPABILITIES: u8 = 191;
pub const IE_VENDOR_SPECIFIC: u8 = 221;
pub const IE_EXTENSION: u8 = 255;
pub const IE_RSN: u8 = 48;
/// OUI and type of the WPA vendor IE (00:50:F2, type 1).
pub const WPA_OUI: u32 = 0x0050f2;
pub const WPA_OUI_TYPE: u8 = 1;
pub const WPS_OUI_TYPE: u8 = 4;
pub const WPS_DEVICE_NAME: u16 = 0x1011;
pub const WPS_MANUFACTURER: u16 = 0x1021;
pub const WPS_MODEL_NAME: u16 = 0x1023;
pub const WPS_MODEL_NUMBER: u16 = 0x1024;
pub const WPS_SERIAL_NUMBER: u16 = 0x1042;
pub const WPS_STATE: u16 = 0x1044;
pub const WPS_PRIMARY_DEVICE_TYPE: u16 = 0x1054;
/// The attribute that libwifi decodes as its setup state (one value byte).
pub const WPS_AP_SETUP_LOCKED: u16 = 0x1057;
pub const EXT_HE_CAPABILITIES: u8 = 35;

/// An IE as (id, payload offset, payload length) within the frame.
pub type IeSpan = (u8, usize, usize);

/// The IEs of `b` from offset `o` on: id, length, payload; the walk stops
/// at an IE whose payload runs past the end.
pub open spec fn ie_spans(b: Seq<u8>, o: int) -> Seq<IeSpan>
    decreases b.len() - o,
{
    if o < 0 || o + 2 > b.len() {
        Seq::empty()
    } else {
        let l = b[o + 1] as int;
        if o + 2 + l > b.len() {
            Seq::empty()
        } else {
            seq![(b[o], (o + 2) as usize, l as usize)] + ie_spans(b, o + 2 + l)
        }
    }
}

pub open spec fn payload(b: Seq<u8>, e: IeSpan) -> Seq<u8> {
    b.subrange(e.1 as int, e.1 + e.2)
}

/// Wi-Fi generation, the newest that the capabilities show.
#[derive(Clone, Copy, Debug, PartialEq, Eq)]
pub enum WifiGeneration {
    Ax,
    Ac,
    N,
    Legacy,
}

pub open spec fn generation_label(g: WifiGeneration) -> &'static str {
    match g {
        WifiGeneration::Ax => "802.11ax",
        WifiGeneration::Ac => "802.11ac",
        WifiGeneration::N => "802.11n",
        WifiGeneration::Legacy => "Legacy",
    }
}

impl WifiGeneration {
    pub fn label(&self) -> (r: &'static str)
        ensures
            r == generation_label(*self),
    {
        match self {
            WifiGeneration::Ax => "802.11ax",
            WifiGeneration::Ac => "802.11ac",
            WifiGeneration::N => "802.11n",
            WifiGeneration::Legacy => "Legacy",
        }
    }
}

/// Summary of an HT Capabilities IE (first two bytes of capability info).
#[derive(Clone, Copy, Debug, PartialEq, Eq)]
pub struct HtSummary {
    pub width_40mhz: bool,
    pub short_gi_20: bool,
    pub short_gi_40: bool,
    pub tx_stbc: bool,
    /// RX STBC streams (bits 8-9).
    pub rx_stbc: u8,
}

/// Summary of a VHT Capabilities IE (first four bytes of capability info).
#[derive(Clone, Copy, Debug, PartialEq, Eq)]
pub struct VhtSummary {
    /// Maximum MPDU length; `None` for the reserved selector 3.
    pub max_mpdu: Option<u16>,
    /// Supported channel width set (bits 2-3).
    pub channel_width: u8,
    pub short_gi_80: bool,
    pub short_gi_160: bool,
    pub su_beamformer: bool,
    pub mu_beamformer: bool,
}

/// A vendor-specific IE: its OUI (24-bit), OUI type if present, payload
/// length.
#[derive(Clone, Copy, Debug, PartialEq, Eq)]
pub struct VendorIe {
    pub oui: u32,
    pub oui_type: Option<u8>,
    pub length: usize,
    /// The maker registered for the OUI, when the table knows it.
    pub vendor: Option<Vendor>,
}

/// Security parameters of an RSN IE or a WPA vendor IE. Cipher and AKM
/// suites are `OUI << 8 | type` (00-0F-AC:4, CCMP, is `0x000FAC04`).
pub struct SecuritySummary {
    pub version: u16,
    pub group_cipher: u32,
    pub pairwise_ciphers: Vec<u32>,
    pub akm_suites: Vec<u32>,
    /// Management-frame protection required (RSN capabilities bit 6).
    pub mfp_required: bool,
    /// Management-frame protection capable (RSN capabilities bit 7).
    pub mfp_capable: bool,
}

/// What a WPS vendor IE says of the device; texts are raw bytes.
pub struct WpsSummary {
    pub device_name: Option<Vec<u8>>,
    pub manufacturer: Option<Vec<u8>>,
    pub model_name: Option<Vec<u8>>,
    pub model_number: Option<Vec<u8>>,
    pub serial_number: Option<Vec<u8>>,
    /// Category and subcategory of the primary device type.
    pub primary_device_type: Option<(u16, u16)>,
    /// Whether the device reports itself configured (state 2).
    pub configured: Option<bool>,
}

pub struct ProbeCapabilities {
    /// Supported rates in units of 500 kb/s (basic-rate flag cleared).
    pub supported_rates: Vec<u8>,
    /// Extended supported rates, same units.
    pub extended_rates: Vec<u8>,
    /// Highest of all the rates, same units.
    pub max_rate: Option<u8>,
    pub has_ht: bool,
    pub has_vht: bool,
    pub has_he: bool,
    pub wifi_generation: WifiGeneration,
    pub ht: Option<HtSummary>,
    pub vht: Option<VhtSummary>,
    pub ds_channel: Option<u8>,
    pub vendor_ies: Vec<VendorIe>,
    /// The first RSN IE, when it is well formed.
    pub rsn: Option<SecuritySummary>,
    /// The first WPA vendor IE, when it is well formed.
    pub wpa: Option<SecuritySummary>,
    /// The first WPS vendor IE.
    pub wps: Option<WpsSummary>,
    /// The IDs of all IEs, in frame order.
    pub ie_ids: Vec<u8>,
}

/// Bit `k` of `v`.
pub open spec fn bit(v: u32, k: u32) -> bool {
    (v >> k) & 1u32 == 1u32
}

/// The rates of the IEs with id `id`, in order, flag bit cleared.
pub open spec fn rates_of(b: Seq<u8>, es: Seq<IeSpan>, id: u8) -> Seq<u8>
    decreases es.len(),
{
    if es.len() == 0 {
        Seq::empty()
    } else {
        let r = rates_of(b, es.drop_last(), id);
        if es.last().0 == id {
            r + payload(b, es.last()).map_values(|x: u8| (x % 128) as u8)
        } else {
            r
        }
    }
}

/// Payload of the first IE with id `id` that has at least `min` bytes.
pub open spec fn first_payload(b: Seq<u8>, es: Seq<IeSpan>, id: u8, min: int) -> Option<Seq<u8>>
    decreases es.len(),
{
    if es.len() == 0 {
        None
    } else if es[0].0 == id && es[0].2 >= min {
        Some(payload(b, es[0]))
    } else {
        first_payload(b, es.drop_first(), id, min)
    }
}

pub open spec fn has_ie(es: Seq<IeSpan>, id: u8) -> bool {
    exists|k: int| 0 <= k < es.len() && (#[trigger] es[k]).0 == id
}

/// Some Extension IE carries the HE Capabilities extension ID.
pub open spec fn has_he_ie(b: Seq<u8>, es: Seq<IeSpan>) -> bool {
    exists|k: int|
        0 <= k < es.len() && (#[trigger] es[k]).0 == IE_EXTENSION && es[k].2 >= 1 && b[es[k].1 as int]
            == EXT_HE_CAPABILITIES
}

pub open spec fn ht_summary(p: Seq<u8>) -> HtSummary {
    let v = (p[0] as int + 256 * (p[1] as int)) as u32;
    HtSummary {
        width_40mhz: bit(v, 1),
        short_gi_20: bit(v, 5),
        short_gi_40: bit(v, 6),
        tx_stbc: bit(v, 7),
        rx_stbc: ((v / 256) % 4) as u8,
    }
}

pub open spec fn vht_summary(p: Seq<u8>) -> VhtSummary {
    let v = (p[0] as int + 256 * (p[1] as int) + 65536 * (p[2] as int)) as u32;
    let sel = v % 4;
    VhtSummary {
        max_mpdu: if sel == 0 {
            Some(3895u16)
        } else if sel == 1 {
            Some(7991u16)
        } else if sel == 2 {
            Some(11454u16)
        } else {
            None
        },
        channel_width: ((v / 4) % 4) as u8,
        short_gi_80: bit(v, 5),
        short_gi_160: bit(v, 6),
        su_beamformer: bit(v, 11),
        mu_beamformer: bit(v, 19),
    }
}

pub open spec fn vendor_ie(b: Seq<u8>, e: IeSpan) -> VendorIe {
    let p = payload(b, e);
    VendorIe {
        oui: if p.len() >= 3 {
            (p[0] as int * 65536 + p[1] as int * 256 + p[2] as int) as u32
        } else {
            0
        },
        oui_type: if p.len() >= 4 {
            Some(p[3])
        } else {
            None
        },
        length: e.2,
        vendor: if p.len() >= 3 {
            oui_vendor((p[0] as int * 65536 + p[1] as int * 256 + p[2] as int) as u32)
        } else {
            None
        },
    }
}

pub open spec fn vendor_ies(b: Seq<u8>, es: Seq<IeSpan>) -> Seq<VendorIe>
    decreases es.len(),
{
    if es.len() == 0 {
        Seq::empty()
    } else {
        let r = vendor_ies(b, es.drop_last());
        if es.last().0 == IE_VENDOR_SPECIFIC {
            r.push(vendor_ie(b, es.last()))
        } else {
            r
        }
    }
}

pub open spec fn generation(he: bool, vht: bool, ht: bool) -> WifiGeneration {
    if he {
        WifiGeneration::Ax
    } else if vht {
        WifiGeneration::Ac
    } else if ht {
        WifiGeneration::N
    } else {
        WifiGeneration::Legacy
    }
}

/// Walks the IE list of a frame from `IE_START`.
pub fn ie_list(frame: &[u8]) -> (r: Vec<IeSpan>)
    ensures
        r@ == ie_spans(frame@, IE_START as int),
        forall|k: int|
            0 <= k < r@.len() ==> (#[trigger] r@[k]).1 + r@[k].2 <= frame@.len(),
{
    let mut r: Vec<IeSpan> = Vec::new();
    let mut o: usize = IE_START;
    let n = frame.len();
    while o < n && n - o >= 2 && n - o - 2 >= frame[o + 1] as usize
        invariant
            n == frame@.len(),
            o >= IE_START,
            o <= n || o == IE_START,
            r@ + ie_spans(frame@, o as int) == ie_spans(frame@, IE_START as int),
            forall|k: int| 0 <= k < r@.len() ==> (#[trigger] r@[k]).1 + r@[k].2 <= frame@.len(),
        decreases n - o,
    {
        let l = frame[o + 1] as usize;
        let ghost rest = ie_spans(frame@, o as int + 2 + l as int);
        assert(ie_spans(frame@, o as int) == seq![(frame@[o as int], (o + 2) as usize, l)] + rest);
        r.push((frame[o], o + 2, l));
        assert(r@ + rest =~= ie_spans(frame@, IE_START as int));
        o = o + 2 + l;
    }
    assert(ie_spans(frame@, o as int) =~= Seq::<IeSpan>::empty());
    assert(r@ =~= r@ + ie_spans(frame@, o as int));
    r
}

fn collect_rates(frame: &[u8], es: &Vec<IeSpan>, id: u8) -> (r: Vec<u8>)
    requires
        forall|k: int| 0 <= k < es@.len() ==> (#[trigger] es@[k]).1 + es@[k].2 <= frame@.len(),
    ensures
        r@ == rates_of(frame@, es@, id),
{
    let mut r: Vec<u8> = Vec::new();
    let mut k: usize = 0;
    while k < es.len()
        invariant
            k <= es@.len(),
            forall|j: int| 0 <= j < es@.len() ==> (#[trigger] es@[j]).1 + es@[j].2 <= frame@.len(),
            r@ == rates_of(frame@, es@.subrange(0, k as int), id),
        decreases es@.len() - k,
    {
        let e = es[k];
        let ghost pre = es@.subrange(0, k as int + 1);
        assert(pre.drop_last() =~= es@.subrange(0, k as int));
        assert(pre.last() == e);
        assert(es@[k as int].1 + es@[k as int].2 <= frame@.len());
        if e.0 == id {
            let ghost before = r@;
            let fl = frame.len();
            let mut j: usize = 0;
            while j < e.2
                invariant
                    fl == frame@.len(),
                    e.1 + e.2 <= frame@.len(),
                    j <= e.2,
                    r@ == before + payload(frame@, e).subrange(0, j as int).map_values(
                        |x: u8| (x % 128) as u8,
                    ),
                decreases e.2 - j,
            {
                let idx = e.1 + j;
                r.push(frame[idx] % 128);
                assert(payload(frame@, e).subrange(0, j as int + 1) =~= payload(frame@, e).subrange(
                    0,
                    j as int,
                ).push(frame@[e.1 + j]));
                assert(r@ =~= before + payload(frame@, e).subrange(0, j as int + 1).map_values(
                    |x: u8| (x % 128) as u8,
                ));
                j = j + 1;
            }
            assert(payload(frame@, e).subrange(0, e.2 as int) =~= payload(frame@, e));
        }
        k = k + 1;
    }
    assert(es@.subrange(0, es@.len() as int) =~= es@);
    r
}

fn find_payload(es: &Vec<IeSpan>, id: u8, min: usize) -> (r: Option<IeSpan>)
    ensures
        r matches Some(e) ==> exists|k: int| 0 <= k < es@.len() && es@[k] == e && e.0 == id && e.2 >= min
            && (forall|j: int| 0 <= j < k ==> !(es@[j].0 == id && es@[j].2 >= min)),
        r is None ==> forall|j: int| 0 <= j < es@.len() ==> !(es@[j].0 == id && es@[j].2 >= min),
{
    let mut k: usize = 0;
    while k < es.len()
        invariant
            k <= es@.len(),
            forall|j: int| 0 <= j < k ==> !(es@[j].0 == id && es@[j].2 >= min),
        decreases es@.len() - k,
    {
        if es[k].0 == id && es[k].2 >= min {
            return Some(es[k]);
        }
        k = k + 1;
    }
    None
}

proof fn lemma_first_payload(b: Seq<u8>, es: Seq<IeSpan>, id: u8, min: int, k: int)
    requires
        0 <= k <= es.len(),
        forall|j: int| 0 <= j < k ==> !(es[j].0 == id && es[j].2 >= min),
    ensures
        first_payload(b, es, id, min) == first_payload(b, es.subrange(k, es.len() as int), id, min),
    decreases k,
{
    if k > 0 {
        assert forall|j: int| 0 <= j < k - 1 implies !(es.drop_first()[j].0 == id
            && es.drop_first()[j].2 >= min) by {
            assert(es.drop_first()[j] == es[j + 1]);
        }
        lemma_first_payload(b, es.drop_first(), id, min, k - 1);
        assert(es.drop_first().subrange(k - 1, es.drop_first().len() as int) =~= es.subrange(
            k,
            es.len() as int,
        ));
    } else {
        assert(es.subrange(0, es.len() as int) =~= es);
    }
}

fn first_payload_of(frame: &[u8], es: &Vec<IeSpan>, id: u8, min: usize) -> (r: Option<IeSpan>)
    requires
        forall|k: int| 0 <= k < es@.len() ==> (#[trigger] es@[k]).1 + es@[k].2 <= frame@.len(),
    ensures
        r matches Some(e) ==> first_payload(frame@, es@, id, min as int) == Some(payload(frame@, e))
            && e.2 >= min && e.1 + e.2 <= frame@.len(),
        r is None ==> first_payload(frame@, es@, id, min as int) is None,
{
    let r = find_payload(es, id, min);
    proof {
        match r {
            Some(e) => {
                let k = choose|k: int| 0 <= k < es@.len() && es@[k] == e && e.0 == id && e.2 >= min
                    && (forall|j: int| 0 <= j < k ==> !(es@[j].0 == id && es@[j].2 >= min));
                lemma_first_payload(frame@, es@, id, min as int, k);
                assert(es@.subrange(k, es@.len() as int)[0] == e);
            },
            None => {
                lemma_first_payload(frame@, es@, id, min as int, es@.len() as int);
            },
        }
    }
    r
}

fn has_id(es: &Vec<IeSpan>, id: u8) -> (r: bool)
    ensures
        r == has_ie(es@, id),
{
    let mut k: usize = 0;
    while k < es.len()
        invariant
            k <= es@.len(),
            forall|j: int| 0 <= j < k ==> (#[trigger] es@[j]).0 != id,
        decreases es@.len() - k,
    {
        if es[k].0 == id {
            return true;
        }
        k = k + 1;
    }
    false
}

fn has_he(frame: &[u8], es: &Vec<IeSpan>) -> (r: bool)
    requires
        forall|k: int| 0 <= k < es@.len() ==> (#[trigger] es@[k]).1 + es@[k].2 <= frame@.len(),
    ensures
        r == has_he_ie(frame@, es@),
{
    let mut k: usize = 0;
    while k < es.len()
        invariant
            k <= es@.len(),
            forall|j: int| 0 <= j < es@.len() ==> (#[trigger] es@[j]).1 + es@[j].2 <= frame@.len(),
            forall|j: int|
                0 <= j < k ==> !((#[trigger] es@[j]).0 == IE_EXTENSION && es@[j].2 >= 1
                    && frame@[es@[j].1 as int] == EXT_HE_CAPABILITIES),
        decreases es@.len() - k,
    {
        let e = es[k];
        assert(es@[k as int].1 + es@[k as int].2 <= frame@.len());
        if e.0 == IE_EXTENSION && e.2 >= 1 && frame[e.1] == EXT_HE_CAPABILITIES {
            return true;
        }
        k = k + 1;
    }
    false
}

fn bit_of(v: u32, k: u32) -> (r: bool)
    requires
        k < 32,
    ensures
        r == bit(v, k),
{
    (v >> k) & 1u32 == 1u32
}

fn vendor_list(frame: &[u8], es: &Vec<IeSpan>) -> (r: Vec<VendorIe>)
    requires
        forall|k: int| 0 <= k < es@.len() ==> (#[trigger] es@[k]).1 + es@[k].2 <= frame@.len(),
    ensures
        r@ == vendor_ies(frame@, es@),
{
    let mut r: Vec<VendorIe> = Vec::new();
    let mut k: usize = 0;
    while k < es.len()
        invariant
            k <= es@.len(),
            forall|j: int| 0 <= j < es@.len() ==> (#[trigger] es@[j]).1 + es@[j].2 <= frame@.len(),
            r@ == vendor_ies(frame@, es@.subrange(0, k as int)),
        decreases es@.len() - k,
    {
        let e = es[k];
        let ghost pre = es@.subrange(0, k as int + 1);
        assert(pre.drop_last() =~= es@.subrange(0, k as int));
        assert(pre.last() == e);
        assert(es@[k as int].1 + es@[k as int].2 <= frame@.len());
        if e.0 == IE_VENDOR_SPECIFIC {
            let oui: u32 = if e.2 >= 3 {
                frame[e.1] as u32 * 65536 + frame[e.1 + 1] as u32 * 256 + frame[e.1 + 2] as u32
            } else {
                0
            };
            let oui_type = if e.2 >= 4 {
                Some(frame[e.1 + 3])
            } else {
                None
            };
            let vendor = if e.2 >= 3 {
                oui_vendor_of(oui)
            } else {
                None
            };
            r.push(VendorIe { oui, oui_type, length: e.2, vendor });
        }
        k = k + 1;
    }
    assert(es@.subrange(0, es@.len() as int) =~= es@);
    r
}

/// The IDs of the IEs, in order.
fn ids_of(es: &Vec<IeSpan>) -> (r: Vec<u8>)
    ensures
        r@ == es@.map_values(|e: IeSpan| e.0),
{
    let mut r: Vec<u8> = Vec::new();
    let mut k: usize = 0;
    while k < es.len()
        invariant
            k <= es@.len(),
            r@ == es@.subrange(0, k as int).map_values(|e: IeSpan| e.0),
        decreases es@.len() - k,
    {
        r.push(es[k].0);
        assert(es@.subrange(0, k as int + 1).map_values(|e: IeSpan| e.0) =~= r@);
        k = k + 1;
    }
    assert(es@.subrange(0, es@.len() as int) =~= es@);
    r
}

/// The largest item of `s`, if any.
pub open spec fn seq_max(s: Seq<u8>) -> Option<u8>
    decreases s.len(),
{
    if s.len() == 0 {
        None
    } else {
        match seq_max(s.drop_last()) {
            Some(m) => if m >= s.last() { Some(m) } else { Some(s.last()) },
            None => Some(s.last()),
        }
    }
}

/// Folds the items of `t` into a running maximum.
fn max_into(m: Option<u8>, t: &Vec<u8>, seen: Ghost<Seq<u8>>) -> (r: Option<u8>)
    requires
        m == seq_max(seen@),
    ensures
        r == seq_max(seen@ + t@),
{
    let ghost pre = seen@;
    let mut m = m;
    let mut i: usize = 0;
    assert(pre + t@.subrange(0, 0) =~= pre);
    while i < t.len()
        invariant
            i <= t@.len(),
            m == seq_max(pre + t@.subrange(0, i as int)),
        decreases t@.len() - i,
    {
        let x = t[i];
        assert((pre + t@.subrange(0, i as int + 1)).drop_last() =~= pre + t@.subrange(0, i as int));
        m = match m {
            Some(v) => if v >= x { Some(v) } else { Some(x) },
            None => Some(x),
        };
        i = i + 1;
    }
    assert(t@.subrange(0, t@.len() as int) =~= t@);
    m
}

fn max_of(s: &Vec<u8>, t: &Vec<u8>) -> (r: Option<u8>)
    ensures
        r == seq_max(s@ + t@),
{
    let m = max_into(None, s, Ghost(Seq::empty()));
    assert(Seq::<u8>::empty() + s@ =~= s@);
    max_into(m, t, Ghost(s@))
}

pub open spec fn le16_at(p: Seq<u8>, i: int) -> int {
    p[i] as int + 256 * (p[i + 1] as int)
}

/// A cipher or AKM suite at `i`: three OUI bytes and a type.
pub open spec fn suite_at(p: Seq<u8>, i: int) -> u32 {
    (p[i] as int * 0x100_0000 + p[i + 1] as int * 0x1_0000 + p[i + 2] as int * 0x100 + p[i
        + 3] as int) as u32
}

pub open spec fn suites_at(p: Seq<u8>, i: int, n: int) -> Seq<u32> {
    Seq::new(n as nat, |k: int| suite_at(p, i + 4 * k))
}

/// Offset of the pairwise count, of the AKM count, and of the end of the
/// AKM list, for security parameters that start at `o`.
pub open spec fn pairwise_at(o: int) -> int {
    o + 6
}

pub open spec fn akm_at(p: Seq<u8>, o: int) -> int {
    pairwise_at(o) + 2 + 4 * le16_at(p, pairwise_at(o))
}

pub open spec fn akm_end(p: Seq<u8>, o: int) -> int {
    akm_at(p, o) + 2 + 4 * le16_at(p, akm_at(p, o))
}

/// Version, group suite, both counted suite lists: all within `p`.
pub open spec fn security_fits(p: Seq<u8>, o: int) -> bool {
    &&& 0 <= o
    &&& pairwise_at(o) + 2 <= p.len()
    &&& akm_at(p, o) + 2 <= p.len()
    &&& akm_end(p, o) <= p.len()
}

pub open spec fn security_describes(s: SecuritySummary, p: Seq<u8>, o: int) -> bool {
    let caps = if akm_end(p, o) + 2 <= p.len() { le16_at(p, akm_end(p, o)) } else { 0 };
    &&& s.version as int == le16_at(p, o)
    &&& s.group_cipher == suite_at(p, o + 2)
    &&& s.pairwise_ciphers@ == suites_at(p, pairwise_at(o) + 2, le16_at(p, pairwise_at(o)))
    &&& s.akm_suites@ == suites_at(p, akm_at(p, o) + 2, le16_at(p, akm_at(p, o)))
    &&& s.mfp_required == ((caps / 64) % 2 == 1)
    &&& s.mfp_capable == ((caps / 128) % 2 == 1)
}

/// A vendor IE under the OUI 00:50:F2 with type `t` (1: WPA, 4: WPS).
pub open spec fn is_ms_ie(b: Seq<u8>, e: IeSpan, t: u8) -> bool {
    e.0 == IE_VENDOR_SPECIFIC && e.2 >= 4 && vendor_ie(b, e).oui == WPA_OUI && vendor_ie(b, e).oui_type
        == Some(t)
}

/// The first vendor IE under the OUI 00:50:F2 with type `t`.
pub open spec fn first_ms_ie(b: Seq<u8>, es: Seq<IeSpan>, t: u8) -> Option<IeSpan>
    decreases es.len(),
{
    if es.len() == 0 {
        None
    } else if is_ms_ie(b, es[0], t) {
        Some(es[0])
    } else {
        first_ms_ie(b, es.drop_first(), t)
    }
}

fn read_le16(frame: &[u8], i: usize) -> (r: usize)
    requires
        i + 1 < frame@.len(),
    ensures
        r == le16_at(frame@, i as int),
        r <= 0xffff,
{
    frame[i] as usize + 256 * (frame[i + 1] as usize)
}

fn read_suites(frame: &[u8], base: usize, i: usize, n: usize) -> (r: Vec<u32>)
    requires
        base + i + 4 * n <= frame@.len(),
    ensures
        r@ == suites_at(frame@.subrange(base as int, frame@.len() as int), i as int, n as int),
{
    let ghost p = frame@.subrange(base as int, frame@.len() as int);
    let mut r: Vec<u32> = Vec::new();
    let fl = frame.len();
    let mut k: usize = 0;
    while k < n
        invariant
            fl == frame@.len(),
            base + i + 4 * n <= frame@.len(),
            k <= n,
            p == frame@.subrange(base as int, frame@.len() as int),
            r@ == suites_at(p, i as int, k as int),
        decreases n - k,
    {
        let j = base + i + 4 * k;
        let v = frame[j] as u32 * 0x100_0000 + frame[j + 1] as u32 * 0x1_0000 + frame[j + 2] as u32
            * 0x100 + frame[j + 3] as u32;
        assert(v == suite_at(p, i + 4 * k));
        r.push(v);
        assert(r@ =~= suites_at(p, i as int, k as int + 1));
        k = k + 1;
    }
    r
}

/// Reads security parameters at offset `o` of the payload of `e`.
fn parse_security(frame: &[u8], e: IeSpan, o: usize) -> (r: Option<SecuritySummary>)
    requires
        e.1 + e.2 <= frame@.len(),
        o <= 4,
    ensures
        r is Some <==> security_fits(payload(frame@, e), o as int),
        r matches Some(s) ==> security_describes(s, payload(frame@, e), o as int),
{
    let ghost p = payload(frame@, e);
    let base = e.1;
    let len = e.2;
    assert(base + len <= frame.len());
    let pw = o + 6;
    if pw + 2 > len {
        return None;
    }
    let pc = read_le16(frame, base + pw);
    assert(pc == le16_at(p, pw as int));
    let ak = pw + 2 + 4 * pc;
    if ak + 2 > len {
        return None;
    }
    let ac = read_le16(frame, base + ak);
    assert(ac == le16_at(p, ak as int));
    let end = ak + 2 + 4 * ac;
    if end > len {
        return None;
    }
    let version = read_le16(frame, base + o) as u16;
    assert(version == le16_at(p, o as int));
    let j = base + o + 2;
    let group_cipher = frame[j] as u32 * 0x100_0000 + frame[j + 1] as u32 * 0x1_0000 + frame[j + 2] as u32
        * 0x100 + frame[j + 3] as u32;
    assert(group_cipher == suite_at(p, o + 2));
    let tail = vstd::slice::slice_subrange(frame, 0, base + len);
    assert(tail@.subrange(base as int, tail@.len() as int) =~= p);
    let pairwise_ciphers = read_suites(tail, base, pw + 2, pc);
    let akm_suites = read_suites(tail, base, ak + 2, ac);
    let caps: usize = if end + 2 <= len {
        read_le16(frame, base + end)
    } else {
        0
    };
    assert(end + 2 <= len ==> caps == le16_at(p, end as int));
    Some(
        SecuritySummary {
            version,
            group_cipher,
            pairwise_ciphers,
            akm_suites,
            mfp_required: (caps / 64) % 2 == 1,
            mfp_capable: (caps / 128) % 2 == 1,
        },
    )
}

proof fn lemma_first_ms_ie(b: Seq<u8>, es: Seq<IeSpan>, t: u8, k: int)
    requires
        0 <= k <= es.len(),
        forall|j: int| 0 <= j < k ==> !is_ms_ie(b, #[trigger] es[j], t),
    ensures
        first_ms_ie(b, es, t) == first_ms_ie(b, es.subrange(k, es.len() as int), t),
    decreases k,
{
    if k > 0 {
        assert forall|j: int| 0 <= j < k - 1 implies !is_ms_ie(b, #[trigger] es.drop_first()[j], t) by {
            assert(es.drop_first()[j] == es[j + 1]);
        }
        lemma_first_ms_ie(b, es.drop_first(), t, k - 1);
        assert(es.drop_first().subrange(k - 1, es.drop_first().len() as int) =~= es.subrange(
            k,
            es.len() as int,
        ));
    } else {
        assert(es.subrange(0, es.len() as int) =~= es);
    }
}

/// The first vendor IE under the OUI 00:50:F2 with type `t`.
fn find_ms_ie(frame: &[u8], es: &Vec<IeSpan>, t: u8) -> (r: Option<IeSpan>)
    requires
        forall|k: int| 0 <= k < es@.len() ==> (#[trigger] es@[k]).1 + es@[k].2 <= frame@.len(),
    ensures
        r matches Some(e) ==> first_ms_ie(frame@, es@, t) == Some(e) && e.1 + e.2 <= frame@.len()
            && e.2 >= 4,
        r is None ==> first_ms_ie(frame@, es@, t) is None,
{
    let mut k: usize = 0;
    while k < es.len()
        invariant
            k <= es@.len(),
            forall|j: int| 0 <= j < es@.len() ==> (#[trigger] es@[j]).1 + es@[j].2 <= frame@.len(),
            forall|j: int| 0 <= j < k ==> !is_ms_ie(frame@, #[trigger] es@[j], t),
        decreases es@.len() - k,
    {
        let e = es[k];
        assert(es@[k as int].1 + es@[k as int].2 <= frame@.len());
        if e.0 == IE_VENDOR_SPECIFIC && e.2 >= 4 {
            let oui = frame[e.1] as u32 * 65536 + frame[e.1 + 1] as u32 * 256 + frame[e.1 + 2] as u32;
            let ty = frame[e.1 + 3];
            if oui == WPA_OUI && ty == t {
                proof {
                    lemma_first_ms_ie(frame@, es@, t, k as int);
                    assert(es@.subrange(k as int, es@.len() as int)[0] == e);
                }
                return Some(e);
            }
        }
        k = k + 1;
    }
    proof {
        lemma_first_ms_ie(frame@, es@, t, es@.len() as int);
    }
    None
}

/// A WPS attribute as (type, value offset, value length) within the frame.
pub type AttrSpan = (u16, usize, usize);

pub open spec fn be16_at(b: Seq<u8>, i: int) -> int {
    256 * (b[i] as int) + b[i + 1] as int
}

/// The WPS attributes of `b` from `o` up to `end`: big-endian type and
/// length, then the value; the walk stops at one that runs past `end`.
pub open spec fn wps_spans(b: Seq<u8>, o: int, end: int) -> Seq<AttrSpan>
    decreases end - o,
{
    if o < 0 || end > b.len() || o + 4 > end {
        Seq::empty()
    } else {
        let l = be16_at(b, o + 2);
        if o + 4 + l > end {
            Seq::empty()
        } else {
            seq![(be16_at(b, o) as u16, (o + 4) as usize, l as usize)] + wps_spans(b, o + 4 + l, end)
        }
    }
}

/// The first attribute of type `t` with at least `min` bytes.
pub open spec fn first_attr(xs: Seq<AttrSpan>, t: u16, min: int) -> Option<AttrSpan>
    decreases xs.len(),
{
    if xs.len() == 0 {
        None
    } else if xs[0].0 == t && xs[0].2 >= min {
        Some(xs[0])
    } else {
        first_attr(xs.drop_first(), t, min)
    }
}

pub open spec fn attr_value(b: Seq<u8>, a: AttrSpan) -> Seq<u8> {
    b.subrange(a.1 as int, a.1 + a.2)
}

pub open spec fn text_attr(o: Option<Vec<u8>>, b: Seq<u8>, xs: Seq<AttrSpan>, t: u16) -> bool {
    match first_attr(xs, t, 0) {
        Some(a) => o matches Some(v) && v@ == attr_value(b, a),
        None => o is None,
    }
}

pub open spec fn wps_describes(w: WpsSummary, b: Seq<u8>, xs: Seq<AttrSpan>) -> bool {
    &&& text_attr(w.device_name, b, xs, WPS_DEVICE_NAME)
    &&& text_attr(w.manufacturer, b, xs, WPS_MANUFACTURER)
    &&& text_attr(w.model_name, b, xs, WPS_MODEL_NAME)
    &&& text_attr(w.model_number, b, xs, WPS_MODEL_NUMBER)
    &&& text_attr(w.serial_number, b, xs, WPS_SERIAL_NUMBER)
    &&& w.primary_device_type == match first_attr(xs, WPS_PRIMARY_DEVICE_TYPE, 8) {
        Some(a) => Some((be16_at(b, a.1 as int) as u16, be16_at(b, a.1 + 6) as u16)),
        None => None,
    }
    &&& w.configured == match first_attr(xs, WPS_STATE, 1) {
        Some(a) => Some(b[a.1 as int] == 2),
        None => None,
    }
}

/// Walks the WPS attributes of `frame[o..end]`.
pub(crate) fn wps_attrs(frame: &[u8], o: usize, end: usize) -> (r: Vec<AttrSpan>)
    requires
        o <= end <= frame@.len(),
    ensures
        r@ == wps_spans(frame@, o as int, end as int),
        forall|k: int| 0 <= k < r@.len() ==> (#[trigger] r@[k]).1 + r@[k].2 <= end,
{
    let mut r: Vec<AttrSpan> = Vec::new();
    let mut i = o;
    while i < end && end - i >= 4 && end - i - 4 >= frame[i + 2] as usize * 256 + frame[i + 3] as usize
        invariant
            o <= i <= end <= frame@.len(),
            r@ + wps_spans(frame@, i as int, end as int) == wps_spans(frame@, o as int, end as int),
            forall|k: int| 0 <= k < r@.len() ==> (#[trigger] r@[k]).1 + r@[k].2 <= end,
        decreases end - i,
    {
        let t = frame[i] as u16 * 256 + frame[i + 1] as u16;
        let l = frame[i + 2] as usize * 256 + frame[i + 3] as usize;
        let ghost rest = wps_spans(frame@, i + 4 + l, end as int);
        assert(wps_spans(frame@, i as int, end as int) == seq![(t, (i + 4) as usize, l)] + rest);
        r.push((t, i + 4, l));
        assert(r@ + rest =~= wps_spans(frame@, o as int, end as int));
        i = i + 4 + l;
    }
    assert(wps_spans(frame@, i as int, end as int) =~= Seq::<AttrSpan>::empty());
    assert(r@ =~= r@ + wps_spans(frame@, i as int, end as int));
    r
}

proof fn lemma_first_attr(xs: Seq<AttrSpan>, t: u16, min: int, k: int)
    requires
        0 <= k <= xs.len(),
        forall|j: int| 0 <= j < k ==> !((#[trigger] xs[j]).0 == t && xs[j].2 >= min),
    ensures
        first_attr(xs, t, min) == first_attr(xs.subrange(k, xs.len() as int), t, min),
    decreases k,
{
    if k > 0 {
        assert forall|j: int| 0 <= j < k - 1 implies !((#[trigger] xs.drop_first()[j]).0 == t
            && xs.drop_first()[j].2 >= min) by {
            assert(xs.drop_first()[j] == xs[j + 1]);
        }
        lemma_first_attr(xs.drop_first(), t, min, k - 1);
        assert(xs.drop_first().subrange(k - 1, xs.drop_first().len() as int) =~= xs.subrange(
            k,
            xs.len() as int,
        ));
    } else {
        assert(xs.subrange(0, xs.len() as int) =~= xs);
    }
}

fn find_attr(xs: &Vec<AttrSpan>, t: u16, min: usize) -> (r: Option<AttrSpan>)
    ensures
        r == first_attr(xs@, t, min as int),
{
    let mut k: usize = 0;
    while k < xs.len()
        invariant
            k <= xs@.len(),
            forall|j: int| 0 <= j < k ==> !((#[trigger] xs@[j]).0 == t && xs@[j].2 >= min),
        decreases xs@.len() - k,
    {
        if xs[k].0 == t && xs[k].2 >= min {
            proof {
                lemma_first_attr(xs@, t, min as int, k as int);
                assert(xs@.subrange(k as int, xs@.len() as int)[0] == xs@[k as int]);
            }
            return Some(xs[k]);
        }
        k = k + 1;
    }
    proof {
        lemma_first_attr(xs@, t, min as int, xs@.len() as int);
    }
    None
}

fn copy_bytes(frame: &[u8], start: usize, len: usize) -> (r: Vec<u8>)
    requires
        start + len <= frame@.len(),
    ensures
        r@ == frame@.subrange(start as int, start + len),
{
    assert(start + len <= frame.len());
    let s = vstd::slice::slice_subrange(frame, start, start + len);
    vstd::slice::slice_to_vec(s)
}

fn text_of(frame: &[u8], xs: &Vec<AttrSpan>, t: u16) -> (r: Option<Vec<u8>>)
    requires
        forall|k: int| 0 <= k < xs@.len() ==> (#[trigger] xs@[k]).1 + xs@[k].2 <= frame@.len(),
    ensures
        text_attr(r, frame@, xs@, t),
{
    match find_attr(xs, t, 0) {
        Some(a) => {
            proof {
                lemma_first_attr_in(xs@, t, 0);
                let k = choose|k: int| 0 <= k < xs@.len() && xs@[k] == a;
                assert(xs@[k].1 + xs@[k].2 <= frame@.len());
            }
            Some(copy_bytes(frame, a.1, a.2))
        },
        None => None,
    }
}

proof fn lemma_first_attr_in(xs: Seq<AttrSpan>, t: u16, min: int)
    ensures
        first_attr(xs, t, min) matches Some(a) ==> xs.contains(a) && a.2 >= min,
    decreases xs.len(),
{
    if xs.len() > 0 && !(xs[0].0 == t && xs[0].2 >= min) {
        lemma_first_attr_in(xs.drop_first(), t, min);
        if first_attr(xs, t, min) is Some {
            let a = first_attr(xs, t, min)->0;
            let j = choose|j: int| 0 <= j < xs.drop_first().len() && xs.drop_first()[j] == a;
            assert(xs[j + 1] == a);
        }
    }
}

/// Reads the WPS attributes of a WPS vendor IE.
fn parse_wps(frame: &[u8], e: IeSpan) -> (r: WpsSummary)
    requires
        e.1 + e.2 <= frame@.len(),
        e.2 >= 4,
    ensures
        wps_describes(r, frame@, wps_spans(frame@, e.1 + 4, e.1 + e.2)),
{
    assert(e.1 + e.2 <= frame.len());
    let xs = wps_attrs(frame, e.1 + 4, e.1 + e.2);
    let primary_device_type = match find_attr(&xs, WPS_PRIMARY_DEVICE_TYPE, 8) {
        Some(a) => {
            proof {
                lemma_first_attr_in(xs@, WPS_PRIMARY_DEVICE_TYPE, 8);
                let k = choose|k: int| 0 <= k < xs@.len() && xs@[k] == a;
                assert(xs@[k].1 + xs@[k].2 <= e.1 + e.2);
            }
            let c = frame[a.1] as u16 * 256 + frame[a.1 + 1] as u16;
            let s = frame[a.1 + 6] as u16 * 256 + frame[a.1 + 7] as u16;
            Some((c, s))
        },
        None => None,
    };
    let configured = match find_attr(&xs, WPS_STATE, 1) {
        Some(a) => {
            proof {
                lemma_first_attr_in(xs@, WPS_STATE, 1);
                let k = choose|k: int| 0 <= k < xs@.len() && xs@[k] == a;
                assert(xs@[k].1 + xs@[k].2 <= e.1 + e.2);
            }
            Some(frame[a.1] == 2)
        },
        None => None,
    };
    WpsSummary {
        device_name: text_of(frame, &xs, WPS_DEVICE_NAME),
        manufacturer: text_of(frame, &xs, WPS_MANUFACTURER),
        model_name: text_of(frame, &xs, WPS_MODEL_NAME),
        model_number: text_of(frame, &xs, WPS_MODEL_NUMBER),
        serial_number: text_of(frame, &xs, WPS_SERIAL_NUMBER),
        primary_device_type,
        configured,
    }
}

/// A WPS vendor IE whose attribute walk ends on an 0x1057 attribute with no
/// value, right at the end of the IE.
pub open spec fn wps_state_at_end(b: Seq<u8>, e: IeSpan) -> bool {
    exists|k: int|
        0 <= k < wps_spans(b, e.1 + 4, e.1 + e.2).len() && #[trigger] wps_spans(
            b,
            e.1 + 4,
            e.1 + e.2,
        )[k] == (WPS_AP_SETUP_LOCKED, (e.1 + e.2) as usize, 0usize)
}

/// Some WPS vendor IE of the frame ends on a value-less 0x1057 attribute.
pub open spec fn unterminated_wps_state(f: Seq<u8>) -> bool {
    exists|j: int|
        0 <= j < ie_spans(f, IE_START as int).len() && is_ms_ie(
            f,
            #[trigger] ie_spans(f, IE_START as int)[j],
            WPS_OUI_TYPE,
        ) && wps_state_at_end(f, ie_spans(f, IE_START as int)[j])
}

fn ends_on_empty_state(frame: &[u8], e: IeSpan) -> (r: bool)
    requires
        e.1 + e.2 <= frame@.len(),
        e.2 >= 4,
    ensures
        r == wps_state_at_end(frame@, e),
{
    assert(e.1 + e.2 <= frame.len());
    let end = e.1 + e.2;
    let xs = wps_attrs(frame, e.1 + 4, end);
    let mut k: usize = 0;
    while k < xs.len()
        invariant
            k <= xs@.len(),
            xs@ == wps_spans(frame@, e.1 + 4, e.1 + e.2),
            end == e.1 + e.2,
            forall|i: int| 0 <= i < k ==> xs@[i] != (WPS_AP_SETUP_LOCKED, end, 0usize),
        decreases xs@.len() - k,
    {
        let a = xs[k];
        if a.0 == WPS_AP_SETUP_LOCKED && a.1 == end && a.2 == 0 {
            assert(xs@[k as int] == (WPS_AP_SETUP_LOCKED, end, 0usize));
            return true;
        }
        k = k + 1;
    }
    false
}

/// Whether some WPS vendor IE of the frame ends on an 0x1057 attribute with
/// no value.
pub fn has_unterminated_wps_state(frame: &[u8]) -> (r: bool)
    ensures
        r == unterminated_wps_state(frame@),
{
    let es = ie_list(frame);
    let mut k: usize = 0;
    while k < es.len()
        invariant
            k <= es@.len(),
            es@ == ie_spans(frame@, IE_START as int),
            forall|j: int| 0 <= j < es@.len() ==> (#[trigger] es@[j]).1 + es@[j].2 <= frame@.len(),
            forall|j: int|
                0 <= j < k ==> !(is_ms_ie(frame@, #[trigger] es@[j], WPS_OUI_TYPE) && wps_state_at_end(
                    frame@,
                    es@[j],
                )),
        decreases es@.len() - k,
    {
        let e = es[k];
        assert(es@[k as int].1 + es@[k as int].2 <= frame@.len());
        if e.0 == IE_VENDOR_SPECIFIC && e.2 >= 4 {
            let oui = frame[e.1] as u32 * 65536 + frame[e.1 + 1] as u32 * 256 + frame[e.1 + 2] as u32;
            let ty = frame[e.1 + 3];
            if oui == WPA_OUI && ty == WPS_OUI_TYPE && ends_on_empty_state(frame, e) {
                assert(is_ms_ie(frame@, es@[k as int], WPS_OUI_TYPE));
                return true;
            }
        }
        k = k + 1;
    }
    false
}

/// What a probe request's IEs say of the station.
pub open spec fn capabilities_describe(c: ProbeCapabilities, frame: Seq<u8>) -> bool {
    let es = ie_spans(frame, IE_START as int);
    &&& c.ie_ids@ == es.map_values(|e: IeSpan| e.0)
    &&& c.supported_rates@ == rates_of(frame, es, IE_SUPPORTED_RATES)
    &&& c.extended_rates@ == rates_of(frame, es, IE_EXTENDED_RATES)
    &&& c.max_rate == seq_max(c.supported_rates@ + c.extended_rates@)
    &&& c.has_ht == has_ie(es, IE_HT_CAPABILITIES)
    &&& c.has_vht == has_ie(es, IE_VHT_CAPABILITIES)
    &&& c.has_he == has_he_ie(frame, es)
    &&& c.wifi_generation == generation(c.has_he, c.has_vht, c.has_ht)
    &&& c.ht == match first_payload(frame, es, IE_HT_CAPABILITIES, 2) {
        Some(p) => Some(ht_summary(p)),
        None => None,
    }
    &&& c.vht == match first_payload(frame, es, IE_VHT_CAPABILITIES, 4) {
        Some(p) => Some(vht_summary(p)),
        None => None,
    }
    &&& c.ds_channel == match first_payload(frame, es, IE_DS_PARAMETER, 1) {
        Some(p) => Some(p[0]),
        None => None,
    }
    &&& c.vendor_ies@ == vendor_ies(frame, es)
    &&& match first_payload(frame, es, IE_RSN, 0) {
        Some(p) => (c.rsn is Some <==> security_fits(p, 0)) && (c.rsn matches Some(r)
            ==> security_describes(r, p, 0)),
        None => c.rsn is None,
    }
    &&& match first_ms_ie(frame, es, WPA_OUI_TYPE) {
        Some(e) => (c.wpa is Some <==> security_fits(payload(frame, e), 4)) && (c.wpa matches Some(r)
            ==> security_describes(r, payload(frame, e), 4)),
        None => c.wpa is None,
    }
    &&& match first_ms_ie(frame, es, WPS_OUI_TYPE) {
        Some(e) => c.wps matches Some(w) && wps_describes(w, frame, wps_spans(frame, e.1 + 4, e.1 + e.2)),
        None => c.wps is None,
    }
}

/// Extracts the station capabilities from the IEs of an 802.11 probe
/// request (the frame without radiotap header).
pub fn extract_capabilities(frame: &[u8]) -> (r: ProbeCapabilities)
    ensures
        capabilities_describe(r, frame@),
{
    let es = ie_list(frame);
    let has_ht = has_id(&es, IE_HT_CAPABILITIES);
    let has_vht = has_id(&es, IE_VHT_CAPABILITIES);
    let he = has_he(frame, &es);
    let wifi_generation = if he {
        WifiGeneration::Ax
    } else if has_vht {
        WifiGeneration::Ac
    } else if has_ht {
        WifiGeneration::N
    } else {
        WifiGeneration::Legacy
    };
    let ht = match first_payload_of(frame, &es, IE_HT_CAPABILITIES, 2) {
        Some(e) => {
            let v = frame[e.1] as u32 + 256 * (frame[e.1 + 1] as u32);
            proof {
                let p = payload(frame@, e);
                assert(p[0] == frame@[e.1 as int] && p[1] == frame@[e.1 + 1]);
            }
            Some(
                HtSummary {
                    width_40mhz: bit_of(v, 1),
                    short_gi_20: bit_of(v, 5),
                    short_gi_40: bit_of(v, 6),
                    tx_stbc: bit_of(v, 7),
                    rx_stbc: ((v / 256) % 4) as u8,
                },
            )
        },
        None => None,
    };
    let vht = match first_payload_of(frame, &es, IE_VHT_CAPABILITIES, 4) {
        Some(e) => {
            let v = frame[e.1] as u32 + 256 * (frame[e.1 + 1] as u32) + 65536 * (frame[e.1
                + 2] as u32);
            proof {
                let p = payload(frame@, e);
                assert(p[0] == frame@[e.1 as int] && p[1] == frame@[e.1 + 1] && p[2] == frame@[e.1
                    + 2]);
            }
            let sel = v % 4;
            let max_mpdu = if sel == 0 {
                Some(3895u16)
            } else if sel == 1 {
                Some(7991u16)
            } else if sel == 2 {
                Some(11454u16)
            } else {
                None
            };
            Some(
                VhtSummary {
                    max_mpdu,
                    channel_width: ((v / 4) % 4) as u8,
                    short_gi_80: bit_of(v, 5),
                    short_gi_160: bit_of(v, 6),
                    su_beamformer: bit_of(v, 11),
                    mu_beamformer: bit_of(v, 19),
                },
            )
        },
        None => None,
    };
    let ds_channel = match first_payload_of(frame, &es, IE_DS_PARAMETER, 1) {
        Some(e) => {
            proof {
                assert(payload(frame@, e)[0] == frame@[e.1 as int]);
            }
            Some(frame[e.1])
        },
        None => None,
    };
    let rsn = match first_payload_of(frame, &es, IE_RSN, 0) {
        Some(e) => parse_security(frame, e, 0),
        None => None,
    };
    let wpa = match find_ms_ie(frame, &es, WPA_OUI_TYPE) {
        Some(e) => parse_security(frame, e, 4),
        None => None,
    };
    let wps = match find_ms_ie(frame, &es, WPS_OUI_TYPE) {
        Some(e) => Some(parse_wps(frame, e)),
        None => None,
    };
    let supported_rates = collect_rates(frame, &es, IE_SUPPORTED_RATES);
    let extended_rates = collect_rates(frame, &es, IE_EXTENDED_RATES);
    let max_rate = max_of(&supported_rates, &extended_rates);
    ProbeCapabilities {
        rsn,
        wpa,
        wps,
        supported_rates,
        extended_rates,
        max_rate,
        has_ht,
        has_vht,
        has_he: he,
        wifi_generation,
        ht,
        vht,
        ds_channel,
        vendor_ies: vendor_list(frame, &es),
        ie_ids: ids_of(&es),
    }
}

} // verus!
