//! Splitting token text into the parts between separator characters.

use vstd::prelude::*;

use vstd::string::StrSliceExecFns;

use super::number::{digit_value, digits_value, lemma_digits_value_prefix};

verus! {

/// The parts of a text between the occurrences of a separator character:
/// one more part than there are separators; parts may be empty.
pub open spec fn split_on(s: Seq<char>, sep: char) -> Seq<Seq<char>>
    decreases s.len(),
{
    if s.len() == 0 {
        seq![Seq::<char>::empty()]
    } else {
        let r = split_on(s.drop_last(), sep);
        if s.last() == sep {
            r.push(Seq::<char>::empty())
        } else {
            r.update(r.len() - 1, r.last().push(s.last()))
        }
    }
}

pub proof fn lemma_split_on_nonempty(s: Seq<char>, sep: char)
    ensures
        split_on(s, sep).len() >= 1,
    decreases s.len(),
{
    if s.len() > 0 {
        lemma_split_on_nonempty(s.drop_last(), sep);
    }
}

/// The views of a list of character lists.
pub open spec fn parts_view(v: Seq<Vec<char>>) -> Seq<Seq<char>> {
    v.map_values(|p: Vec<char>| p@)
}

/// The characters of a text.
pub fn chars_of(s: &str) -> (res: Vec<char>)
    ensures
        res@ == s@,
{
    let n = s.unicode_len();
    let mut res: Vec<char> = Vec::new();
    let mut i: usize = 0;
    while i < n
        invariant
            n == s@.len(),
            i <= n,
            res@ == s@.take(i as int),
        decreases n - i,
    {
        res.push(s.get_char(i));
        assert(s@.take(i + 1) =~= s@.take(i as int).push(s@[i as int]));
        i = i + 1;
    }
    assert(s@.take(n as int) =~= s@);
    res
}

/// The characters of a text from position `from` up to `to`.
pub fn chars_between(s: &Vec<char>, from: usize, to: usize) -> (res: Vec<char>)
    requires
        from <= to <= s@.len(),
    ensures
        res@ == s@.subrange(from as int, to as int),
{
    let mut res: Vec<char> = Vec::new();
    let mut i: usize = from;
    while i < to
        invariant
            from <= i <= to <= s@.len(),
            res@ == s@.subrange(from as int, i as int),
        decreases to - i,
    {
        res.push(s[i]);
        assert(s@.subrange(from as int, i + 1) =~= s@.subrange(from as int, i as int).push(
            s@[i as int],
        ));
        i = i + 1;
    }
    res
}

/// Splits a text at each occurrence of the separator.
pub fn split_chars(s: &Vec<char>, sep: char) -> (res: Vec<Vec<char>>)
    ensures
        parts_view(res@) == split_on(s@, sep),
        res@.len() >= 1,
{
    let n = s.len();
    let mut parts: Vec<Vec<char>> = Vec::new();
    parts.push(Vec::new());
    let mut i: usize = 0;
    assert(s@.take(0) =~= Seq::<char>::empty());
    assert(parts_view(parts@) =~= split_on(s@.take(0), sep));
    while i < n
        invariant
            n == s@.len(),
            i <= n,
            parts@.len() >= 1,
            parts_view(parts@) == split_on(s@.take(i as int), sep),
        decreases n - i,
    {
        let c = s[i];
        let ghost before = parts@;
        assert(s@.take(i + 1).drop_last() =~= s@.take(i as int));
        assert(s@.take(i + 1).last() == c);
        proof {
            lemma_split_on_nonempty(s@.take(i as int), sep);
        }
        if c == sep {
            parts.push(Vec::new());
            assert(parts_view(parts@) =~= parts_view(before).push(Seq::<char>::empty()));
        } else {
            let last = parts.len() - 1;
            let mut cur = parts.pop().unwrap();
            let ghost cur_before = cur@;
            cur.push(c);
            parts.push(cur);
            assert(parts_view(parts@) =~= parts_view(before).update(
                last as int,
                parts_view(before)[last as int].push(c),
            )) by {
                assert(parts_view(before)[last as int] == cur_before);
            }
        }
        i = i + 1;
    }
    assert(s@.take(n as int) =~= s@);
    parts
}

/// The value of a decimal IPv4 octet: one to three digits, no leading zero
/// unless the octet is `0`, at most 255.
pub open spec fn octet_value(p: Seq<char>) -> Option<int> {
    if 1 <= p.len() <= 3 && !(p.len() > 1 && p[0] == '0') {
        match digits_value(p, 10) {
            Some(v) => if v <= 255 {
                Some(v)
            } else {
                None
            },
            None => None,
        }
    } else {
        None
    }
}

/// The four octets of an IPv4 address in dotted decimal notation.
pub open spec fn ipv4_octets(s: Seq<char>) -> Option<Seq<u8>> {
    let parts = split_on(s, '.');
    if parts.len() == 4 && (forall|i: int| 0 <= i < 4 ==> (#[trigger] octet_value(parts[i])) is Some) {
        Some(Seq::new(4, |i: int| octet_value(parts[i])->0 as u8))
    } else {
        None
    }
}

/// Reads one decimal digit.
fn decimal_digit(c: char) -> (res: Option<u8>)
    ensures
        match digit_value(c, 10) {
            Some(v) => res matches Some(r) && r == v,
            None => res is None,
        },
{
    if '0' <= c && c <= '9' {
        Some(((c as u32) - ('0' as u32)) as u8)
    } else {
        None
    }
}

/// Reads a decimal IPv4 octet.
fn read_octet(p: &Vec<char>) -> (res: Option<u8>)
    ensures
        match octet_value(p@) {
            Some(v) => res matches Some(r) && r == v,
            None => res is None,
        },
{
    let n = p.len();
    if n < 1 || n > 3 || (n > 1 && p[0] == '0') {
        return None;
    }
    let mut acc: u32 = 0;
    let mut i: usize = 0;
    assert(p@.take(0) =~= Seq::<char>::empty());
    while i < n
        invariant
            n == p@.len(),
            1 <= n <= 3,
            i <= n,
            i == 0 ==> acc == 0,
            i == 1 ==> acc < 10,
            i == 2 ==> acc < 100,
            i == 3 ==> acc < 1000,
            digits_value(p@.take(i as int), 10) == Some(acc as int),
        decreases n - i,
    {
        assert(p@.take(i + 1).drop_last() =~= p@.take(i as int));
        match decimal_digit(p[i]) {
            Some(d) => {
                acc = acc * 10 + d as u32;
            },
            None => {
                proof {
                    if digits_value(p@, 10) is Some {
                        lemma_digits_value_prefix(p@, 10, i + 1);
                    }
                }
                return None;
            },
        }
        i = i + 1;
    }
    assert(p@.take(n as int) =~= p@);
    if acc <= 255 {
        Some(acc as u8)
    } else {
        None
    }
}

/// Reads an IPv4 address in dotted decimal notation.
pub fn read_ipv4(s: &Vec<char>) -> (res: Option<[u8; 4]>)
    ensures
        match ipv4_octets(s@) {
            Some(o) => res matches Some(a) && a@ == o,
            None => res is None,
        },
{
    let parts = split_chars(s, '.');
    let ghost pv = split_on(s@, '.');
    if parts.len() != 4 {
        return None;
    }
    assert(forall|i: int| 0 <= i < 4 ==> (#[trigger] pv[i]) == parts@[i]@);
    let o0 = read_octet(&parts[0]);
    let o1 = read_octet(&parts[1]);
    let o2 = read_octet(&parts[2]);
    let o3 = read_octet(&parts[3]);
    match (o0, o1, o2, o3) {
        (Some(a), Some(b), Some(c), Some(d)) => {
            let r = [a, b, c, d];
            assert(r@ =~= Seq::new(4, |i: int| octet_value(pv[i])->0 as u8));
            Some(r)
        },
        _ => {
            assert(octet_value(pv[0]) is None || octet_value(pv[1]) is None || octet_value(pv[2]) is None
                || octet_value(pv[3]) is None);
            None
        },
    }
}

} // verus!
