//! Reading the interface listing of `iw dev`: which interface is already in
//! monitor mode.
use vstd::prelude::*;
use crate::channels::{trim_bounds, trim_end, trim_start};
use crate::text::push_char;

verus! {

/// The lines of `s`, split at each newline.
pub open spec fn newline_fields(s: Seq<char>) -> Seq<Seq<char>>
    decreases s.len(),
{
    if s.len() == 0 {
        seq![Seq::empty()]
    } else {
        let f = newline_fields(s.drop_last());
        if s.last() == '\n' {
            f.push(Seq::empty())
        } else {
            f.update(f.len() - 1, f.last().push(s.last()))
        }
    }
}

pub open spec fn has_prefix(t: Seq<char>, p: Seq<char>) -> bool {
    p.len() <= t.len() && t.subrange(0, p.len() as int) == p
}

pub open spec fn has_infix(t: Seq<char>, p: Seq<char>) -> bool {
    exists|i: int| 0 <= i && i + p.len() <= t.len() && #[trigger] t.subrange(i, i + p.len()) == p
}

pub open spec fn interface_word() -> Seq<char> {
    seq!['I', 'n', 't', 'e', 'r', 'f', 'a', 'c', 'e', ' ']
}

pub open spec fn type_word() -> Seq<char> {
    seq!['t', 'y', 'p', 'e', ' ']
}

pub open spec fn monitor_word() -> Seq<char> {
    seq!['m', 'o', 'n', 'i', 't', 'o', 'r']
}

/// Scanning state: the interface whose block is being read, and the first
/// one found in monitor mode.
pub type ScanState = (Option<Seq<char>>, Option<Seq<char>>);

/// One line of the listing: `Interface <name>` opens a block; a `type ...`
/// line naming monitor mode reports the open block's interface (a second
/// such line in the same block reports nothing). The first report stands.
pub open spec fn scan_line(st: ScanState, line: Seq<char>) -> ScanState {
    let t = trim_end(trim_start(line));
    if st.1 is Some {
        st
    } else if has_prefix(t, interface_word()) {
        (Some(t.subrange(10, t.len() as int)), None)
    } else if has_prefix(t, type_word()) && has_infix(t, monitor_word()) {
        match st.0 {
            Some(i) => (None, Some(i)),
            None => (None, None),
        }
    } else {
        st
    }
}

pub open spec fn scan_lines(ls: Seq<Seq<char>>) -> ScanState
    decreases ls.len(),
{
    if ls.len() == 0 {
        (None, None)
    } else {
        scan_line(scan_lines(ls.drop_last()), ls.last())
    }
}

/// The first interface that the listing shows in monitor mode.
pub open spec fn monitor_interface_in(listing: Seq<char>) -> Option<Seq<char>> {
    scan_lines(newline_fields(listing)).1
}

pub open spec fn opt_chars(o: Option<Vec<char>>) -> Option<Seq<char>> {
    match o {
        Some(v) => Some(v@),
        None => None,
    }
}

/// Whether `v[a..b]` starts with `p`.
fn starts_with_at(v: &Vec<char>, a: usize, b: usize, p: &Vec<char>) -> (r: bool)
    requires
        a <= b <= v@.len(),
    ensures
        r == has_prefix(v@.subrange(a as int, b as int), p@),
{
    if b - a < p.len() {
        return false;
    }
    let mut k: usize = 0;
    while k < p.len()
        invariant
            a <= b <= v@.len(),
            p@.len() <= b - a,
            k <= p@.len(),
            forall|j: int| 0 <= j < k ==> v@[a + j] == p@[j],
        decreases p@.len() - k,
    {
        if v[a + k] != p[k] {
            assert(v@.subrange(a as int, b as int).subrange(0, p@.len() as int)[k as int] != p@[k as int]);
            return false;
        }
        k = k + 1;
    }
    assert(v@.subrange(a as int, b as int).subrange(0, p@.len() as int) =~= p@);
    true
}

/// Whether `p` occurs in `v[a..b]`.
fn contains_at(v: &Vec<char>, a: usize, b: usize, p: &Vec<char>) -> (r: bool)
    requires
        a <= b <= v@.len(),
    ensures
        r == has_infix(v@.subrange(a as int, b as int), p@),
{
    let ghost t = v@.subrange(a as int, b as int);
    let mut i: usize = a;
    while i < b
        invariant
            a <= i <= b <= v@.len(),
            t == v@.subrange(a as int, b as int),
            forall|j: int|
                0 <= j < i - a && j + p@.len() <= t.len() ==> #[trigger] t.subrange(j, j + p@.len()) != p@,
        decreases b - i,
    {
        if starts_with_at(v, i, b, p) {
            assert(v@.subrange(i as int, b as int) =~= t.subrange(i - a, t.len() as int));
            assert(t.subrange(i - a, i - a + p@.len()) =~= v@.subrange(i as int, b as int).subrange(
                0,
                p@.len() as int,
            ));
            return true;
        }
        proof {
            if i - a + p@.len() <= t.len() {
                assert(t.subrange(i - a, i - a + p@.len()) =~= v@.subrange(i as int, b as int).subrange(
                    0,
                    p@.len() as int,
                ));
            }
        }
        i = i + 1;
    }
    proof {
        if p@.len() == 0 {
            assert(t.subrange(0, 0 + p@.len() as int) =~= p@);
        } else if has_infix(t, p@) {
            let j = choose|j: int| 0 <= j && j + p@.len() <= t.len() && #[trigger] t.subrange(j, j + p@.len()) == p@;
            assert(j < i - a);
        }
    }
    p.len() == 0
}

fn copy_range(v: &Vec<char>, a: usize, b: usize) -> (r: Vec<char>)
    requires
        a <= b <= v@.len(),
    ensures
        r@ == v@.subrange(a as int, b as int),
{
    let mut r: Vec<char> = Vec::new();
    let mut i = a;
    while i < b
        invariant
            a <= i <= b <= v@.len(),
            r@ == v@.subrange(a as int, i as int),
        decreases b - i,
    {
        r.push(v[i]);
        assert(r@ =~= v@.subrange(a as int, i as int + 1));
        i = i + 1;
    }
    r
}

/// Applies one line of the listing to the scanning state.
fn scan_one(cur: Option<Vec<char>>, found: Option<Vec<char>>, line: &Vec<char>) -> (r: (Option<Vec<char>>, Option<Vec<char>>))
    ensures
        (opt_chars(r.0), opt_chars(r.1)) == scan_line((opt_chars(cur), opt_chars(found)), line@),
{
    if found.is_some() {
        return (cur, found);
    }
    let (a, b) = trim_bounds(line);
    let iw = vec!['I', 'n', 't', 'e', 'r', 'f', 'a', 'c', 'e', ' '];
    let tw = vec!['t', 'y', 'p', 'e', ' '];
    let mw = vec!['m', 'o', 'n', 'i', 't', 'o', 'r'];
    assert(iw@ =~= interface_word());
    assert(tw@ =~= type_word());
    assert(mw@ =~= monitor_word());
    let ghost t = line@.subrange(a as int, b as int);
    if starts_with_at(line, a, b, &iw) {
        let name = copy_range(line, a + 10, b);
        assert(name@ =~= t.subrange(10, t.len() as int));
        return (Some(name), None);
    }
    if starts_with_at(line, a, b, &tw) && contains_at(line, a, b, &mw) {
        return match cur {
            Some(i) => (None, Some(i)),
            None => (None, None),
        };
    }
    (cur, found)
}

/// The first interface that `iw dev` output shows in monitor mode.
pub fn find_monitor_interface(listing: &str) -> (r: Option<String>)
    ensures
        match r {
            Some(s) => monitor_interface_in(listing@) == Some(s@),
            None => monitor_interface_in(listing@) is None,
        },
{
    let n = listing.unicode_len();
    let mut cur: Option<Vec<char>> = None;
    let mut found: Option<Vec<char>> = None;
    let mut line: Vec<char> = Vec::new();
    let mut i: usize = 0;
    while i < n
        invariant
            n == listing@.len(),
            i <= n,
            newline_fields(listing@.subrange(0, i as int)).len() >= 1,
            line@ == newline_fields(listing@.subrange(0, i as int)).last(),
            (opt_chars(cur), opt_chars(found)) == scan_lines(
                newline_fields(listing@.subrange(0, i as int)).drop_last(),
            ),
        decreases n - i,
    {
        let c = listing.get_char(i);
        let ghost pre = listing@.subrange(0, i as int + 1);
        let ghost fs = newline_fields(listing@.subrange(0, i as int));
        assert(pre.drop_last() =~= listing@.subrange(0, i as int));
        assert(pre.last() == c);
        if c == '\n' {
            let st = scan_one(cur, found, &line);
            cur = st.0;
            found = st.1;
            line = Vec::new();
            proof {
                assert(fs.push(Seq::empty()).drop_last() =~= fs);
                assert(fs =~= fs.drop_last().push(fs.last()));
            }
        } else {
            line.push(c);
            proof {
                let g = fs.update(fs.len() - 1, fs.last().push(c));
                assert(g.drop_last() =~= fs.drop_last());
            }
        }
        i = i + 1;
    }
    assert(listing@.subrange(0, n as int) =~= listing@);
    let st = scan_one(cur, found, &line);
    proof {
        let fs = newline_fields(listing@);
        assert(fs =~= fs.drop_last().push(fs.last()));
    }
    match st.1 {
        None => None,
        Some(v) => {
            let mut s = String::new();
            let mut k: usize = 0;
            while k < v.len()
                invariant
                    k <= v@.len(),
                    s@ == v@.subrange(0, k as int),
                decreases v@.len() - k,
            {
                push_char(&mut s, v[k]);
                assert(s@ =~= v@.subrange(0, k as int + 1));
                k = k + 1;
            }
            assert(v@.subrange(0, v@.len() as int) =~= v@);
            Some(s)
        },
    }
}

} // verus!
