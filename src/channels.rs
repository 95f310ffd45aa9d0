//! Channel plans for the hopper and the text form in which they are
//! configured.
use vstd::prelude::*;
use crate::ignore::lower_text;
use crate::text::lower_char;

verus! {

/// Rotates the NIC over a sequence of channels, dwelling on each.
pub struct ChannelHopper {
    pub interface: String,
    pub channels: Vec<u8>,
    pub hop_interval_ms: u64,
}

/// A step of the hopper: the channel to tune to now and the index of the
/// next one; `None` when there are no channels (the hopper does nothing).
pub open spec fn hop_step(chs: Seq<u8>, idx: int) -> Option<(u8, int)> {
    if chs.len() == 0 {
        None
    } else {
        let i = idx % (chs.len() as int);
        Some((chs[i], (i + 1) % (chs.len() as int)))
    }
}

impl ChannelHopper {
    pub fn new(interface: String, channels: Vec<u8>, hop_interval_ms: u64) -> (r: ChannelHopper)
        ensures
            r.interface == interface,
            r.channels == channels,
            r.hop_interval_ms == hop_interval_ms,
    {
        ChannelHopper { interface, channels, hop_interval_ms }
    }

    pub fn channels(&self) -> (r: &[u8])
        ensures
            r@ == self.channels@,
    {
        self.channels.as_slice()
    }

    pub fn hop_interval_ms(&self) -> (r: u64)
        ensures
            r == self.hop_interval_ms,
    {
        self.hop_interval_ms
    }

    /// The channel to tune to at position `idx` of the rotation, and the
    /// position that follows it.
    pub fn next_hop(&self, idx: usize) -> (r: Option<(u8, usize)>)
        ensures
            r matches Some(p) ==> hop_step(self.channels@, idx as int) == Some((p.0, p.1 as int)),
            r is None ==> hop_step(self.channels@, idx as int) is None,
    {
        let n = self.channels.len();
        if n == 0 {
            None
        } else {
            let i = idx % n;
            Some((self.channels[i], (i + 1) % n))
        }
    }
}

pub open spec fn channels_2ghz() -> Seq<u8> {
    seq![1u8, 2, 3, 4, 5, 6, 7, 8, 9, 10, 11, 12, 13, 14]
}

pub open spec fn channels_5ghz() -> Seq<u8> {
    seq![
        36u8, 40, 44, 48, 52, 56, 60, 64, 100, 104, 108, 112, 116, 120, 124, 128, 132, 136, 140,
        144, 149, 153, 157, 161, 165,
    ]
}

/// Channels 1 to 14 of the 2.4 GHz band.
pub fn get_2ghz_channels() -> (r: Vec<u8>)
    ensures
        r@ == channels_2ghz(),
{
    let r = vec![1u8, 2, 3, 4, 5, 6, 7, 8, 9, 10, 11, 12, 13, 14];
    assert(r@ =~= channels_2ghz());
    r
}

/// The common 5 GHz channels.
pub fn get_5ghz_channels() -> (r: Vec<u8>)
    ensures
        r@ == channels_5ghz(),
{
    let r = vec![
        36u8, 40, 44, 48, 52, 56, 60, 64, 100, 104, 108, 112, 116, 120, 124, 128, 132, 136, 140,
        144, 149, 153, 157, 161, 165,
    ];
    assert(r@ =~= channels_5ghz());
    r
}

/// The 2.4 GHz channels followed by the 5 GHz ones.
pub fn get_all_channels() -> (r: Vec<u8>)
    ensures
        r@ == channels_2ghz() + channels_5ghz(),
{
    let mut r = get_2ghz_channels();
    let mut more = get_5ghz_channels();
    r.append(&mut more);
    r
}

/// White space as `char::is_whitespace` defines it (Unicode White_Space).
pub open spec fn is_space(c: char) -> bool {
    ('\u{9}' <= c && c <= '\u{d}') || c == ' ' || c == '\u{85}' || c == '\u{a0}' || c
        == '\u{1680}' || ('\u{2000}' <= c && c <= '\u{200a}') || c == '\u{2028}' || c
        == '\u{2029}' || c == '\u{202f}' || c == '\u{205f}' || c == '\u{3000}'
}

pub open spec fn trim_start(s: Seq<char>) -> Seq<char>
    decreases s.len(),
{
    if s.len() > 0 && is_space(s[0]) {
        trim_start(s.drop_first())
    } else {
        s
    }
}

pub open spec fn trim_end(s: Seq<char>) -> Seq<char>
    decreases s.len(),
{
    if s.len() > 0 && is_space(s.last()) {
        trim_end(s.drop_last())
    } else {
        s
    }
}

pub open spec fn is_digit(c: char) -> bool {
    '0' <= c && c <= '9'
}

/// Value of a run of decimal digits.
pub open spec fn digits_value(s: Seq<char>) -> int
    decreases s.len(),
{
    if s.len() == 0 {
        0
    } else {
        10 * digits_value(s.drop_last()) + (s.last() as int - '0' as int)
    }
}

/// The text after an optional leading `+`.
pub open spec fn unsigned_part(s: Seq<char>) -> Seq<char> {
    if s.len() > 0 && s[0] == '+' {
        s.drop_first()
    } else {
        s
    }
}

pub open spec fn all_digits(d: Seq<char>) -> bool {
    forall|i: int| 0 <= i < d.len() ==> is_digit(#[trigger] d[i])
}

/// A `u8` in decimal as `str::parse` reads it: an optional `+`, then one or
/// more digits, with a value of at most 255.
pub open spec fn parse_u8_text(s: Seq<char>) -> Option<u8> {
    let d = unsigned_part(s);
    if d.len() == 0 || !all_digits(d) {
        None
    } else if digits_value(d) <= 255 {
        Some(digits_value(d) as u8)
    } else {
        None
    }
}

/// The pieces of `s` between commas, as `str::split(',')` gives them.
pub open spec fn comma_fields(s: Seq<char>) -> Seq<Seq<char>>
    decreases s.len(),
{
    if s.len() == 0 {
        seq![Seq::empty()]
    } else {
        let f = comma_fields(s.drop_last());
        if s.last() == ',' {
            f.push(Seq::empty())
        } else {
            f.update(f.len() - 1, f.last().push(s.last()))
        }
    }
}

/// The channels of the fields that read as numbers, in order.
pub open spec fn field_channels(fs: Seq<Seq<char>>) -> Seq<u8>
    decreases fs.len(),
{
    if fs.len() == 0 {
        Seq::empty()
    } else {
        let r = field_channels(fs.drop_last());
        match parse_u8_text(trim_end(trim_start(fs.last()))) {
            Some(v) => r.push(v),
            None => r,
        }
    }
}

/// The channel plan that a configuration text names: `all`, `2ghz` (or
/// `2.4ghz`), `5ghz` in any case, else the comma-separated numbers in it.
pub open spec fn channel_plan(s: Seq<char>) -> Seq<u8> {
    let l = lower_text(s);
    if l == seq!['a', 'l', 'l'] {
        channels_2ghz() + channels_5ghz()
    } else if l == seq!['2', 'g', 'h', 'z'] || l == seq!['2', '.', '4', 'g', 'h', 'z'] {
        channels_2ghz()
    } else if l == seq!['5', 'g', 'h', 'z'] {
        channels_5ghz()
    } else {
        field_channels(comma_fields(s))
    }
}

fn space_char(c: char) -> (r: bool)
    ensures
        r == is_space(c),
{
    ('\u{9}' <= c && c <= '\u{d}') || c == ' ' || c == '\u{85}' || c == '\u{a0}' || c
        == '\u{1680}' || ('\u{2000}' <= c && c <= '\u{200a}') || c == '\u{2028}' || c
        == '\u{2029}' || c == '\u{202f}' || c == '\u{205f}' || c == '\u{3000}'
}

proof fn lemma_trim_start_step(s: Seq<char>, i: int)
    requires
        0 <= i < s.len(),
        is_space(s[i]),
    ensures
        trim_start(s.subrange(i, s.len() as int)) == trim_start(s.subrange(i + 1, s.len() as int)),
{
    let t = s.subrange(i, s.len() as int);
    assert(t.drop_first() =~= s.subrange(i + 1, s.len() as int));
}

/// Reads an optional `+` and decimal digits from `f[a..b]`.
fn parse_u8_range(f: &Vec<char>, a: usize, b: usize) -> (r: Option<u8>)
    requires
        a <= b <= f@.len(),
    ensures
        r == parse_u8_text(f@.subrange(a as int, b as int)),
{
    let ghost s = f@.subrange(a as int, b as int);
    let mut i = a;
    if i < b && f[i] == '+' {
        i = i + 1;
    }
    let ghost d = f@.subrange(i as int, b as int);
    assert(d == unsigned_part(s));
    if i == b {
        return None;
    }
    let mut v: u32 = 0;
    let mut k = i;
    while k < b
        invariant
            a <= i <= k <= b <= f@.len(),
            i < b,
            d == f@.subrange(i as int, b as int),
            s == f@.subrange(a as int, b as int),
            d == unsigned_part(s),
            v as int == digits_value(f@.subrange(i as int, k as int)),
            v <= 255,
            forall|t: int| i <= t < k ==> is_digit(#[trigger] f@[t]),
        decreases b - k,
    {
        let c = f[k];
        let ghost pre = f@.subrange(i as int, k as int + 1);
        assert(pre.drop_last() =~= f@.subrange(i as int, k as int));
        if !('0' <= c && c <= '9') {
            assert(d[k - i] == c);
            assert(!is_digit(d[k - i]));
            assert(!all_digits(d));
            return None;
        }
        let nv = 10 * v + ((c as u32) - ('0' as u32));
        if nv > 255 {
            proof {
                assert(pre =~= d.subrange(0, k - i + 1));
                if all_digits(d) {
                    lemma_digits_prefix_bound(d, k - i + 1);
                }
            }
            return None;
        }
        v = nv;
        k = k + 1;
    }
    assert(f@.subrange(i as int, b as int) =~= d);
    Some(v as u8)
}

/// A run of digits is at least as large as each of its prefixes.
proof fn lemma_digits_prefix_bound(d: Seq<char>, n: int)
    requires
        0 <= n <= d.len(),
        forall|t: int| 0 <= t < d.len() ==> is_digit(#[trigger] d[t]),
    ensures
        digits_value(d) >= digits_value(d.subrange(0, n)),
    decreases d.len() - n,
{
    if n < d.len() {
        lemma_digits_prefix_bound(d, n + 1);
        let p = d.subrange(0, n + 1);
        assert(p.drop_last() =~= d.subrange(0, n));
        lemma_digits_nonneg(d.subrange(0, n));
        assert(digits_value(p) >= digits_value(d.subrange(0, n))) by (nonlinear_arith)
            requires
                digits_value(p) == 10 * digits_value(d.subrange(0, n)) + (p.last() as int - '0' as int),
                digits_value(d.subrange(0, n)) >= 0,
                p.last() as int >= '0' as int,
        {
        }
    } else {
        assert(d.subrange(0, n) =~= d);
    }
}

proof fn lemma_digits_nonneg(d: Seq<char>)
    requires
        forall|t: int| 0 <= t < d.len() ==> is_digit(#[trigger] d[t]),
    ensures
        digits_value(d) >= 0,
    decreases d.len(),
{
    if d.len() > 0 {
        lemma_digits_nonneg(d.drop_last());
    }
}

/// Bounds of `f` without its leading and trailing white space.
pub(crate) fn trim_bounds(f: &Vec<char>) -> (r: (usize, usize))
    ensures
        r.0 <= r.1 <= f@.len(),
        f@.subrange(r.0 as int, r.1 as int) == trim_end(trim_start(f@)),
{
    let n = f.len();
    let mut a: usize = 0;
    assert(f@.subrange(0, n as int) =~= f@);
    while a < n && space_char(f[a])
        invariant
            a <= n == f@.len(),
            trim_start(f@) == trim_start(f@.subrange(a as int, n as int)),
        decreases n - a,
    {
        proof {
            lemma_trim_start_step(f@, a as int);
        }
        a = a + 1;
    }
    let ghost ts = f@.subrange(a as int, n as int);
    assert(trim_start(f@) == ts);
    let mut b: usize = n;
    assert(ts.subrange(0, ts.len() as int) =~= ts);
    while b > a && space_char(f[b - 1])
        invariant
            a <= b <= n == f@.len(),
            ts == f@.subrange(a as int, n as int),
            trim_end(ts) == trim_end(f@.subrange(a as int, b as int)),
        decreases b - a,
    {
        proof {
            let t = f@.subrange(a as int, b as int);
            assert(t.drop_last() =~= f@.subrange(a as int, b as int - 1));
        }
        b = b - 1;
    }
    assert(trim_end(f@.subrange(a as int, b as int)) == f@.subrange(a as int, b as int));
    (a, b)
}

/// The channel read from one comma-separated field, if it is a number.
fn field_channel(f: &Vec<char>) -> (r: Option<u8>)
    ensures
        r == parse_u8_text(trim_end(trim_start(f@))),
{
    let (a, b) = trim_bounds(f);
    parse_u8_range(f, a, b)
}

/// The channel plan that a configuration text names: `all`, `2ghz` (or
/// `2.4ghz`), `5ghz` in any case, else the comma-separated numbers in it
/// (fields that are not numbers from 0 to 255 are skipped).
pub fn parse_channels(config: &str) -> (r: Vec<u8>)
    ensures
        r@ == channel_plan(config@),
{
    let n = config.unicode_len();
    let mut lower: Vec<char> = Vec::new();
    let mut fields_done: Vec<u8> = Vec::new();
    let mut cur: Vec<char> = Vec::new();
    let mut i: usize = 0;
    while i < n
        invariant
            n == config@.len(),
            i <= n,
            lower@ == lower_text(config@.subrange(0, i as int)),
            comma_fields(config@.subrange(0, i as int)).len() >= 1,
            cur@ == comma_fields(config@.subrange(0, i as int)).last(),
            fields_done@ == field_channels(comma_fields(config@.subrange(0, i as int)).drop_last()),
        decreases n - i,
    {
        let c = config.get_char(i);
        let ghost pre = config@.subrange(0, i as int + 1);
        assert(pre.drop_last() =~= config@.subrange(0, i as int));
        assert(pre.last() == c);
        lower.push(lower_char(c));
        assert(lower@ =~= lower_text(pre));
        if c == ',' {
            let ghost fs = comma_fields(config@.subrange(0, i as int));
            let v = field_channel(&cur);
            if let Some(ch) = v {
                fields_done.push(ch);
            }
            cur = Vec::new();
            proof {
                assert(fs.push(Seq::empty()).drop_last() =~= fs);
                assert(fs.drop_last().push(fs.last()) =~= fs);
                assert(fs =~= fs.drop_last().push(fs.last()));
            }
        } else {
            cur.push(c);
            proof {
                let fs = comma_fields(config@.subrange(0, i as int));
                let g = fs.update(fs.len() - 1, fs.last().push(c));
                assert(g.drop_last() =~= fs.drop_last());
            }
        }
        i = i + 1;
    }
    assert(config@.subrange(0, n as int) =~= config@);
    if lower.len() == 3 && lower[0] == 'a' && lower[1] == 'l' && lower[2] == 'l' {
        assert(lower@ =~= seq!['a', 'l', 'l']);
        return get_all_channels();
    }
    if lower.len() == 4 && lower[0] == '2' && lower[1] == 'g' && lower[2] == 'h' && lower[3] == 'z' {
        assert(lower@ =~= seq!['2', 'g', 'h', 'z']);
        return get_2ghz_channels();
    }
    if lower.len() == 6 && lower[0] == '2' && lower[1] == '.' && lower[2] == '4' && lower[3] == 'g'
        && lower[4] == 'h' && lower[5] == 'z' {
        assert(lower@ =~= seq!['2', '.', '4', 'g', 'h', 'z']);
        return get_2ghz_channels();
    }
    if lower.len() == 4 && lower[0] == '5' && lower[1] == 'g' && lower[2] == 'h' && lower[3] == 'z' {
        assert(lower@ =~= seq!['5', 'g', 'h', 'z']);
        return get_5ghz_channels();
    }
    let last = field_channel(&cur);
    if let Some(ch) = last {
        fields_done.push(ch);
    }
    proof {
        let fs = comma_fields(config@);
        assert(fs.drop_last().push(fs.last()) =~= fs);
        assert(lower@ != seq!['a', 'l', 'l']);
    }
    fields_done
}

} // verus!
