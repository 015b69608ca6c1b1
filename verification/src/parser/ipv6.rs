//! Reading IPv6 addresses in their text form: eight colon-separated groups
//! of one to four hexadecimal digits, where the last two groups may be
//! written as a dotted IPv4 address, and one run of zero groups may be left
//! out as `::`.

use vstd::prelude::*;

use super::number::{digit_value, digits_value, lemma_digits_value_prefix};
use super::split::{ipv4_octets, parts_view, read_ipv4, split_chars, split_on, chars_between};

verus! {

/// The value of a group: one to four hexadecimal digits.
pub open spec fn h16_value(p: Seq<char>) -> Option<int> {
    if 1 <= p.len() <= 4 {
        digits_value(p, 16)
    } else {
        None
    }
}

/// The groups of parts that are all groups.
pub open spec fn h16_groups(parts: Seq<Seq<char>>) -> Option<Seq<u16>>
    decreases parts.len(),
{
    if parts.len() == 0 {
        Some(Seq::<u16>::empty())
    } else {
        match (h16_groups(parts.drop_last()), h16_value(parts.last())) {
            (Some(g), Some(v)) => Some(g.push(v as u16)),
            _ => None,
        }
    }
}

/// The two groups that an embedded IPv4 address stands for.
pub open spec fn ipv4_groups(o: Seq<u8>) -> Seq<u16> {
    seq![(o[0] * 256 + o[1]) as u16, (o[2] * 256 + o[3]) as u16]
}

/// The groups of parts that are all groups, except that the last may be an
/// embedded IPv4 address.
pub open spec fn groups_with_ipv4(parts: Seq<Seq<char>>) -> Option<Seq<u16>> {
    if parts.len() == 0 {
        Some(Seq::<u16>::empty())
    } else {
        match h16_groups(parts.drop_last()) {
            None => None,
            Some(init) => match h16_value(parts.last()) {
                Some(v) => Some(init.push(v as u16)),
                None => match ipv4_octets(parts.last()) {
                    Some(o) => Some(init + ipv4_groups(o)),
                    None => None,
                },
            },
        }
    }
}

/// The position of the first `::` at or after position `i`.
pub open spec fn double_colon_from(s: Seq<char>, i: int) -> Option<int>
    decreases s.len() - i,
{
    if i < 0 || i + 1 >= s.len() {
        None
    } else if s[i] == ':' && s[i + 1] == ':' {
        Some(i)
    } else {
        double_colon_from(s, i + 1)
    }
}

/// The groups of the text on one side of `::`; no text has no groups.
pub open spec fn side_groups(t: Seq<char>, ipv4_allowed: bool) -> Option<Seq<u16>> {
    if t.len() == 0 {
        Some(Seq::<u16>::empty())
    } else if ipv4_allowed {
        groups_with_ipv4(split_on(t, ':'))
    } else {
        h16_groups(split_on(t, ':'))
    }
}

/// The eight groups of an IPv6 address in text form.
pub open spec fn ipv6_groups(s: Seq<char>) -> Option<Seq<u16>> {
    match double_colon_from(s, 0) {
        Some(k) => compressed_groups(s, k),
        None => match groups_with_ipv4(split_on(s, ':')) {
            Some(g) => if g.len() == 8 {
                Some(g)
            } else {
                None
            },
            None => None,
        },
    }
}

proof fn lemma_h16_groups_prefix(parts: Seq<Seq<char>>, k: int)
    requires
        0 <= k <= parts.len(),
        h16_groups(parts) is Some,
    ensures
        h16_groups(parts.take(k)) is Some,
    decreases parts.len(),
{
    if k == parts.len() {
        assert(parts.take(k) =~= parts);
    } else {
        assert(parts.drop_last().take(k) =~= parts.take(k));
        lemma_h16_groups_prefix(parts.drop_last(), k);
    }
}

proof fn lemma_h16_groups_len(parts: Seq<Seq<char>>)
    requires
        h16_groups(parts) is Some,
    ensures
        h16_groups(parts)->0.len() == parts.len(),
    decreases parts.len(),
{
    if parts.len() > 0 {
        lemma_h16_groups_len(parts.drop_last());
    }
}

/// Reads one group of one to four hexadecimal digits.
fn read_h16(p: &Vec<char>) -> (res: Option<u16>)
    ensures
        match h16_value(p@) {
            Some(v) => res matches Some(r) && r == v,
            None => res is None,
        },
{
    let n = p.len();
    if n < 1 || n > 4 {
        return None;
    }
    let mut acc: u32 = 0;
    let mut i: usize = 0;
    assert(p@.take(0) =~= Seq::<char>::empty());
    while i < n
        invariant
            n == p@.len(),
            1 <= n <= 4,
            i <= n,
            i == 0 ==> acc == 0,
            i == 1 ==> acc < 16,
            i == 2 ==> acc < 256,
            i == 3 ==> acc < 4096,
            i == 4 ==> acc < 65536,
            digits_value(p@.take(i as int), 16) == Some(acc as int),
        decreases n - i,
    {
        assert(p@.take(i + 1).drop_last() =~= p@.take(i as int));
        match super::number::char_digit(p[i], 16) {
            Some(d) => {
                acc = acc * 16 + d;
            },
            None => {
                proof {
                    if digits_value(p@, 16) is Some {
                        lemma_digits_value_prefix(p@, 16, i + 1);
                    }
                }
                return None;
            },
        }
        i = i + 1;
    }
    assert(p@.take(n as int) =~= p@);
    Some(acc as u16)
}

/// Reads the first `upto` parts, all of them groups.
fn read_h16_groups(parts: &Vec<Vec<char>>, upto: usize) -> (res: Option<Vec<u16>>)
    requires
        upto <= parts@.len(),
    ensures
        match h16_groups(parts_view(parts@).take(upto as int)) {
            Some(g) => res matches Some(r) && r@ == g,
            None => res is None,
        },
{
    let ghost pv = parts_view(parts@).take(upto as int);
    let mut res: Vec<u16> = Vec::new();
    let mut i: usize = 0;
    assert(pv.take(0) =~= Seq::<Seq<char>>::empty());
    while i < upto
        invariant
            upto <= parts@.len(),
            pv == parts_view(parts@).take(upto as int),
            i <= upto,
            h16_groups(pv.take(i as int)) == Some(res@),
        decreases upto - i,
    {
        assert(pv.take(i + 1).drop_last() =~= pv.take(i as int));
        assert(pv.take(i + 1).last() == parts@[i as int]@);
        match read_h16(&parts[i]) {
            Some(v) => {
                res.push(v);
            },
            None => {
                proof {
                    if h16_groups(pv) is Some {
                        lemma_h16_groups_prefix(pv, i + 1);
                    }
                }
                return None;
            },
        }
        i = i + 1;
    }
    assert(pv.take(upto as int) =~= pv);
    Some(res)
}

/// Reads parts that are all groups, except that the last may be an
/// embedded IPv4 address.
fn read_groups_with_ipv4(parts: &Vec<Vec<char>>) -> (res: Option<Vec<u16>>)
    ensures
        match groups_with_ipv4(parts_view(parts@)) {
            Some(g) => res matches Some(r) && r@ == g,
            None => res is None,
        },
{
    let ghost pv = parts_view(parts@);
    let n = parts.len();
    if n == 0 {
        return Some(Vec::new());
    }
    assert(pv.drop_last() =~= pv.take(n - 1));
    let mut init = match read_h16_groups(parts, n - 1) {
        Some(g) => g,
        None => return None,
    };
    assert(pv.last() == parts@[n - 1]@);
    match read_h16(&parts[n - 1]) {
        Some(v) => {
            init.push(v);
            Some(init)
        },
        None => match read_ipv4(&parts[n - 1]) {
            Some(o) => {
                let g1 = (o[0] as u16) * 256 + (o[1] as u16);
                let g2 = (o[2] as u16) * 256 + (o[3] as u16);
                let ghost before = init@;
                init.push(g1);
                init.push(g2);
                assert(init@ =~= before + ipv4_groups(o@));
                Some(init)
            },
            None => None,
        },
    }
}

/// Reads the groups of the text on one side of `::`.
fn read_side(t: &Vec<char>, ipv4_allowed: bool) -> (res: Option<Vec<u16>>)
    ensures
        match side_groups(t@, ipv4_allowed) {
            Some(g) => res matches Some(r) && r@ == g,
            None => res is None,
        },
{
    if t.len() == 0 {
        return Some(Vec::new());
    }
    let parts = split_chars(t, ':');
    if ipv4_allowed {
        read_groups_with_ipv4(&parts)
    } else {
        let r = read_h16_groups(&parts, parts.len());
        assert(parts_view(parts@).take(parts@.len() as int) =~= parts_view(parts@));
        r
    }
}

/// The groups of an IPv6 text with its first `::` at position `k`.
pub open spec fn compressed_groups(s: Seq<char>, k: int) -> Option<Seq<u16>> {
    match (side_groups(s.take(k), false), side_groups(s.skip(k + 2), true)) {
        (Some(h), Some(t)) => if h.len() + t.len() <= 7 {
            Some(h + Seq::new((8 - h.len() - t.len()) as nat, |i: int| 0u16) + t)
        } else {
            None
        },
        _ => None,
    }
}

/// Reads an IPv6 text with its first `::` at position `k`.
fn read_compressed(s: &Vec<char>, k: usize) -> (res: Option<Vec<u16>>)
    requires
        k + 2 <= s@.len(),
    ensures
        match compressed_groups(s@, k as int) {
            Some(g) => res matches Some(r) && r@ == g,
            None => res is None,
        },
{
    let n = s.len();
    let head = chars_between(s, 0, k);
    let tail = chars_between(s, k + 2, n);
    assert(head@ =~= s@.take(k as int));
    assert(tail@ =~= s@.skip(k + 2));
    let h = match read_side(&head, false) {
        Some(h) => h,
        None => return None,
    };
    let t = match read_side(&tail, true) {
        Some(t) => t,
        None => return None,
    };
    if h.len() > 7 || t.len() > 7 - h.len() {
        return None;
    }
    let mut g = h;
    let zeros = 8 - g.len() - t.len();
    let ghost hv = g@;
    let mut z: usize = 0;
    assert(g@ =~= hv + Seq::new(0, |i: int| 0u16));
    while z < zeros
        invariant
            zeros + hv.len() + t@.len() == 8,
            z <= zeros,
            g@ == hv + Seq::new(z as nat, |i: int| 0u16),
        decreases zeros - z,
    {
        g.push(0);
        assert(g@ =~= hv + Seq::new((z + 1) as nat, |i: int| 0u16));
        z = z + 1;
    }
    let ghost gz = g@;
    let mut j: usize = 0;
    assert(g@ =~= gz + t@.take(0));
    while j < t.len()
        invariant
            j <= t@.len(),
            g@ == gz + t@.take(j as int),
        decreases t@.len() - j,
    {
        g.push(t[j]);
        assert(t@.take(j + 1) =~= t@.take(j as int).push(t@[j as int]));
        assert(g@ =~= gz + t@.take(j + 1));
        j = j + 1;
    }
    assert(t@.take(j as int) =~= t@);
    Some(g)
}

/// Reads an IPv6 address in text form.
pub fn read_ipv6(s: &Vec<char>) -> (res: Option<[u16; 8]>)
    ensures
        match ipv6_groups(s@) {
            Some(g) => res matches Some(a) && a@ == g,
            None => res is None,
        },
{
    let n = s.len();
    let mut k: usize = 0;
    while n > 0 && k < n - 1 && !(s[k] == ':' && s[k + 1] == ':')
        invariant
            n == s@.len(),
            k <= n,
            double_colon_from(s@, 0) == double_colon_from(s@, k as int),
        decreases n - k,
    {
        k = k + 1;
    }
    let groups: Vec<u16> = if n > 0 && k < n - 1 {
        assert(double_colon_from(s@, 0) == Some(k as int));
        match read_compressed(s, k) {
            Some(g) => g,
            None => return None,
        }
    } else {
        assert(double_colon_from(s@, 0) is None);
        let parts = split_chars(s, ':');
        match read_groups_with_ipv4(&parts) {
            Some(g) => if g.len() == 8 {
                g
            } else {
                return None;
            },
            None => return None,
        }
    };
    assert(groups@.len() == 8);
    let a = [
        groups[0],
        groups[1],
        groups[2],
        groups[3],
        groups[4],
        groups[5],
        groups[6],
        groups[7],
    ];
    assert(a@ =~= groups@);
    Some(a)
}

} // verus!
