//! Radiotap header decoding: the dBm antenna signal of a captured frame.
use vstd::prelude::*;

verus! {

/// Little-endian 16-bit value at byte `i`.
pub open spec fn le_u16(b: Seq<u8>, i: int) -> int {
    b[i] as int + 256 * (b[i + 1] as int)
}

/// Bit `k` of byte `p`.
pub open spec fn bit_set(p: u8, k: u8) -> bool {
    (p >> k) & 1u8 == 1u8
}

/// A byte read as a two's-complement signed value.
pub open spec fn signed_byte(v: u8) -> int {
    if v < 128 {
        v as int
    } else {
        v as int - 256
    }
}

/// Smallest multiple of `a` that is at least `o`.
pub open spec fn align_up(o: int, a: int) -> int
    recommends
        a > 0,
{
    ((o + a - 1) / a) * a
}

/// Offset just past the chain of present words that starts at `o`, where
/// each word whose bit 31 is set is followed by another one; `None` when
/// the chain runs past `limit`.
pub open spec fn present_chain_end(b: Seq<u8>, o: int, limit: int) -> Option<int>
    decreases limit - o,
{
    if o < 0 || o + 4 > limit || limit > b.len() {
        None
    } else if bit_set(b[o + 3], 7) {
        present_chain_end(b, o + 4, limit)
    } else {
        Some(o + 4)
    }
}

/// Offset of the dBm antenna signal field, given the first present byte and
/// the start of the fixed fields: TSFT (8 bytes, aligned to 8), Flags (1),
/// Rate (1), Channel (4, aligned to 2) and FHSS (2) come before it.
pub open spec fn signal_offset(p: u8, start: int) -> int {
    let o1 = if bit_set(p, 0) { align_up(start, 8) + 8 } else { start };
    let o2 = if bit_set(p, 1) { o1 + 1 } else { o1 };
    let o3 = if bit_set(p, 2) { o2 + 1 } else { o2 };
    let o4 = if bit_set(p, 3) { align_up(o3, 2) + 4 } else { o3 };
    if bit_set(p, 4) { o4 + 2 } else { o4 }
}

/// The dBm antenna signal carried by a radiotap header at the start of `b`.
pub open spec fn radiotap_signal(b: Seq<u8>) -> Option<int> {
    if b.len() < 4 || b[0] != 0 || le_u16(b, 2) > b.len() {
        None
    } else {
        let it_len = le_u16(b, 2);
        match present_chain_end(b, 4, it_len) {
            None => None,
            Some(start) => if !bit_set(b[4], 5) {
                None
            } else {
                let off = signal_offset(b[4], start);
                if off < it_len {
                    Some(signed_byte(b[off]))
                } else {
                    None
                }
            },
        }
    }
}

fn has_bit(p: u8, k: u8) -> (r: bool)
    requires
        k < 8,
    ensures
        r == bit_set(p, k),
{
    (p >> k) & 1u8 == 1u8
}

fn read_le_u16(b: &[u8], i: usize) -> (r: usize)
    requires
        i + 1 < b@.len(),
    ensures
        r as int == le_u16(b@, i as int),
        r <= 65535,
{
    b[i] as usize + 256 * (b[i + 1] as usize)
}

/// Walks the present-word chain from offset 4; returns the offset where the
/// fixed fields start.
fn walk_present_chain(b: &[u8], it_len: usize) -> (r: Option<usize>)
    requires
        it_len <= b@.len(),
        it_len <= 65535,
    ensures
        r matches Some(v) ==> v <= it_len && present_chain_end(b@, 4, it_len as int) == Some(v as int),
        r is None ==> present_chain_end(b@, 4, it_len as int) is None,
{
    let mut o: usize = 4;
    while o + 4 <= it_len && has_bit(b[o + 3], 7)
        invariant
            it_len <= b@.len(),
            it_len <= 65535,
            4 <= o <= it_len + 4,
            present_chain_end(b@, o as int, it_len as int) == present_chain_end(
                b@,
                4,
                it_len as int,
            ),
        decreases it_len - o,
    {
        o = o + 4;
    }
    if o + 4 <= it_len {
        Some(o + 4)
    } else {
        None
    }
}

/// Extracts the dBm antenna signal from the radiotap header of a captured
/// packet.
pub fn extract_signal_dbm(data: &[u8]) -> (r: Option<i32>)
    ensures
        r matches Some(v) ==> radiotap_signal(data@) == Some(v as int),
        r is None ==> radiotap_signal(data@) is None,
        data@.len() >= 4 && le_u16(data@, 2) > data@.len() ==> r is None,
        data@.len() >= 5 && !bit_set(data@[4], 5) ==> r is None,
        data@.len() >= 4 && le_u16(data@, 2) <= data@.len() && present_chain_end(
            data@,
            4,
            le_u16(data@, 2),
        ) is None ==> r is None,
{
    if data.len() < 4 || data[0] != 0 {
        return None;
    }
    let it_len = read_le_u16(data, 2);
    if it_len > data.len() {
        return None;
    }
    let start = match walk_present_chain(data, it_len) {
        None => return None,
        Some(s) => s,
    };
    let p = data[4];
    if !has_bit(p, 5) {
        return None;
    }
    let mut off = start;
    if has_bit(p, 0) {
        off = ((off + 7) / 8) * 8 + 8;
    }
    if has_bit(p, 1) {
        off = off + 1;
    }
    if has_bit(p, 2) {
        off = off + 1;
    }
    if has_bit(p, 3) {
        off = ((off + 1) / 2) * 2 + 4;
    }
    if has_bit(p, 4) {
        off = off + 2;
    }
    assert(off as int == signal_offset(p, start as int));
    if off < it_len {
        let v = data[off];
        if v < 128 {
            Some(v as i32)
        } else {
            Some(v as i32 - 256)
        }
    } else {
        None
    }
}

} // verus!
