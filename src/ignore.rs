//! Ignore filter: MAC addresses and SSIDs whose probes are dropped.
use vstd::prelude::*;
use crate::keyset::KeySet;
use crate::text::{ascii_lower, ascii_upper, push_char, upper_char};

verus! {

/// One character of MAC normalisation: `-` and `.` become `:`, ASCII
/// letters are upper-cased.
pub open spec fn normal_mac_char(c: char) -> char {
    if c == '-' || c == '.' {
        ':'
    } else {
        ascii_upper(c)
    }
}

/// Normalised MAC text, the form in which ignored MACs are kept.
pub open spec fn normal_mac(s: Seq<char>) -> Seq<char> {
    s.map_values(|c: char| normal_mac_char(c))
}

/// ASCII lower-casing of a text.
pub open spec fn lower_text(s: Seq<char>) -> Seq<char> {
    s.map_values(|c: char| ascii_lower(c))
}

/// Normalising twice gives what normalising once gives.
pub proof fn lemma_normal_mac_idempotent(s: Seq<char>)
    ensures
        normal_mac(normal_mac(s)) == normal_mac(s),
{
    assert(normal_mac(normal_mac(s)) =~= normal_mac(s));
}

/// MAC normalisation ignores the case of ASCII letters.
pub proof fn lemma_normal_mac_case_invariant(s: Seq<char>)
    ensures
        normal_mac(lower_text(s)) == normal_mac(s),
{
    assert forall|i: int| 0 <= i < s.len() implies normal_mac_char(ascii_lower(s[i]))
        == normal_mac_char(s[i]) by {
        let c = s[i];
        if 'A' <= c && c <= 'Z' {
            assert((((c as u32) + 32) as u8) as char as u32 == c as u32 + 32);
        }
    }
    assert(normal_mac(lower_text(s)) =~= normal_mac(s));
}

/// Normalises a MAC address: `-` and `.` become `:`, letters upper case.
pub fn normalise_mac(mac: &str) -> (r: String)
    ensures
        r@ == normal_mac(mac@),
{
    let n = mac.unicode_len();
    let mut s = String::new();
    let mut i: usize = 0;
    while i < n
        invariant
            n == mac@.len(),
            i <= n,
            s@ == normal_mac(mac@.subrange(0, i as int)),
        decreases n - i,
    {
        let c = mac.get_char(i);
        let d = if c == '-' || c == '.' {
            ':'
        } else {
            upper_char(c)
        };
        push_char(&mut s, d);
        assert(mac@.subrange(0, i as int + 1) =~= mac@.subrange(0, i as int).push(c));
        assert(s@ =~= normal_mac(mac@.subrange(0, i as int + 1)));
        i = i + 1;
    }
    assert(mac@.subrange(0, n as int) =~= mac@);
    s
}

/// MAC addresses (normalised) and SSIDs (verbatim, case-sensitive) whose
/// probes the capture pipeline drops.
pub struct IgnoreLists {
    mac_list: KeySet,
    ssid_list: KeySet,
}

/// The ignore lists are finite sets, so their counts are their sizes.
pub proof fn lemma_lists_finite(l: &IgnoreLists)
    ensures
        l.macs().finite(),
        l.ssids().finite(),
{
    broadcast use vstd::seq_lib::seq_to_set_is_finite;
}

impl IgnoreLists {
    pub closed spec fn wf(&self) -> bool {
        self.mac_list.wf() && self.ssid_list.wf()
    }

    /// The ignored MACs, in normal form.
    pub closed spec fn macs(&self) -> Set<Seq<char>> {
        self.mac_list.view()
    }

    /// The ignored SSIDs.
    pub closed spec fn ssids(&self) -> Set<Seq<char>> {
        self.ssid_list.view()
    }

    /// Whether a probe from `mac` for `ssid` passes the filter.
    pub open spec fn admits_spec(&self, mac: Seq<char>, ssid: Seq<char>) -> bool {
        !self.macs().contains(normal_mac(mac)) && (ssid.len() == 0 || !self.ssids().contains(
            ssid,
        ))
    }

    pub fn new() -> (r: IgnoreLists)
        ensures
            r.wf(),
            r.macs().finite(),
            r.ssids().finite(),
            r.macs() == Set::<Seq<char>>::empty(),
            r.ssids() == Set::<Seq<char>>::empty(),
    {
        IgnoreLists { mac_list: KeySet::new(), ssid_list: KeySet::new() }
    }

    /// Builds the lists from loaded entries; MACs are normalised.
    pub fn load(macs: Vec<String>, ssids: Vec<String>) -> (r: IgnoreLists)
        ensures
            r.wf(),
            r.macs().finite(),
            r.ssids().finite(),
            r.macs() == macs@.map_values(|m: String| normal_mac(m@)).to_set(),
            r.ssids() == ssids@.map_values(|s: String| s@).to_set(),
    {
        let mut lists = IgnoreLists::new();
        let mut i: usize = 0;
        while i < macs.len()
            invariant
                i <= macs@.len(),
                lists.wf(),
                lists.ssids() == Set::<Seq<char>>::empty(),
                lists.macs() == macs@.subrange(0, i as int).map_values(
                    |m: String| normal_mac(m@),
                ).to_set(),
            decreases macs@.len() - i,
        {
            lists.add_mac(macs[i].as_str());
            proof {
                let f = |m: String| normal_mac(m@);
                let before = macs@.subrange(0, i as int).map_values(f);
                assert(macs@.subrange(0, i as int + 1).map_values(f) =~= before.push(
                    normal_mac(macs@[i as int]@),
                ));
                before.lemma_push_to_set_commute(normal_mac(macs@[i as int]@));
            }
            i = i + 1;
        }
        assert(macs@.subrange(0, macs@.len() as int) =~= macs@);
        let mut j: usize = 0;
        while j < ssids.len()
            invariant
                j <= ssids@.len(),
                lists.wf(),
                lists.macs() == macs@.map_values(|m: String| normal_mac(m@)).to_set(),
                lists.ssids() == ssids@.subrange(0, j as int).map_values(|s: String| s@).to_set(),
            decreases ssids@.len() - j,
        {
            lists.add_ssid(ssids[j].as_str());
            proof {
                let f = |s: String| s@;
                let before = ssids@.subrange(0, j as int).map_values(f);
                assert(ssids@.subrange(0, j as int + 1).map_values(f) =~= before.push(
                    ssids@[j as int]@,
                ));
                before.lemma_push_to_set_commute(ssids@[j as int]@);
            }
            j = j + 1;
        }
        assert(ssids@.subrange(0, ssids@.len() as int) =~= ssids@);
        lists
    }

    pub fn should_ignore_mac(&self, mac: &str) -> (r: bool)
        ensures
            r == self.macs().contains(normal_mac(mac@)),
    {
        let n = normalise_mac(mac);
        self.mac_list.contains(&n)
    }

    pub fn should_ignore_ssid(&self, ssid: &str) -> (r: bool)
        ensures
            r == self.ssids().contains(ssid@),
    {
        let s = String::from_str(ssid);
        self.ssid_list.contains(&s)
    }

    /// Whether a probe from `mac` for `ssid` passes the filter: its MAC is
    /// not ignored, and its SSID is empty or not ignored.
    pub fn admits(&self, mac: &str, ssid: &str) -> (r: bool)
        ensures
            r == self.admits_spec(mac@, ssid@),
    {
        if self.should_ignore_mac(mac) {
            return false;
        }
        ssid.is_empty() || !self.should_ignore_ssid(ssid)
    }

    pub fn add_mac(&mut self, mac: &str)
        requires
            old(self).wf(),
        ensures
            final(self).wf(),
            final(self).macs().finite(),
            final(self).ssids().finite(),
            final(self).macs() == old(self).macs().insert(normal_mac(mac@)),
            final(self).ssids() == old(self).ssids(),
    {
        let n = normalise_mac(mac);
        self.mac_list.insert(n);
    }

    pub fn add_ssid(&mut self, ssid: &str)
        requires
            old(self).wf(),
        ensures
            final(self).wf(),
            final(self).macs().finite(),
            final(self).ssids().finite(),
            final(self).ssids() == old(self).ssids().insert(ssid@),
            final(self).macs() == old(self).macs(),
    {
        self.ssid_list.insert(String::from_str(ssid));
    }

    pub fn remove_mac(&mut self, mac: &str) -> (r: bool)
        requires
            old(self).wf(),
        ensures
            final(self).wf(),
            final(self).macs().finite(),
            final(self).ssids().finite(),
            r == old(self).macs().contains(normal_mac(mac@)),
            final(self).macs() == old(self).macs().remove(normal_mac(mac@)),
            final(self).ssids() == old(self).ssids(),
    {
        let n = normalise_mac(mac);
        self.mac_list.remove(&n)
    }

    pub fn remove_ssid(&mut self, ssid: &str) -> (r: bool)
        requires
            old(self).wf(),
        ensures
            final(self).wf(),
            final(self).macs().finite(),
            final(self).ssids().finite(),
            r == old(self).ssids().contains(ssid@),
            final(self).ssids() == old(self).ssids().remove(ssid@),
            final(self).macs() == old(self).macs(),
    {
        let s = String::from_str(ssid);
        self.ssid_list.remove(&s)
    }

    /// The ignored MACs (normalised), each once.
    pub fn mac_entries(&self) -> (r: Vec<String>)
        requires
            self.wf(),
        ensures
            r@.map_values(|s: String| s@).no_duplicates(),
            r@.map_values(|s: String| s@).to_set() == self.macs(),
    {
        self.mac_list.to_vec()
    }

    /// The ignored SSIDs, each once.
    pub fn ssid_entries(&self) -> (r: Vec<String>)
        requires
            self.wf(),
        ensures
            r@.map_values(|s: String| s@).no_duplicates(),
            r@.map_values(|s: String| s@).to_set() == self.ssids(),
    {
        self.ssid_list.to_vec()
    }

    pub fn mac_count(&self) -> (r: usize)
        requires
            self.wf(),
        ensures
            r == self.macs().len(),
    {
        self.mac_list.len()
    }

    pub fn ssid_count(&self) -> (r: usize)
        requires
            self.wf(),
        ensures
            r == self.ssids().len(),
    {
        self.ssid_list.len()
    }
}

} // verus!
