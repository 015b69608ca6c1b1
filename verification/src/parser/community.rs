//! Community literals. The text of a community token is first rewritten so
//! that every hexadecimal part (`0x..`) is written in decimal; the result is
//! then read as a BGP community by routecore.

use vstd::prelude::*;

use routecore::bgp::communities::Community;

use crate::ast::{ExtendedCommunity, LargeCommunity, StandardCommunity};
use crate::syntax::LiteralExpr;
use crate::text::string_from_chars;

use super::number::{digit_value, digits_value, lemma_digits_value_nonneg, unsigned_digits, unsigned_value};
use super::split::{chars_of, lemma_split_on_nonempty, parts_view, split_chars, split_on};

verus! {

/// A BGP community as routecore reads it, by its parts.
#[derive(Clone, Copy, Debug)]
pub enum CommunityValue {
    /// A standard community, as its 32-bit value.
    Standard(u32),
    /// An extended community, as its eight octets.
    Extended([u8; 8]),
    /// An IPv6 extended community, as its twenty octets.
    Ipv6Extended([u8; 20]),
    /// A large community, as its global administrator and two local parts.
    Large(u32, u32, u32),
}

/// The community that routecore reads from a text, if it reads one.
pub uninterp spec fn routecore_community(text: Seq<char>) -> Option<CommunityValue>;

/// One or more decimal digits and nothing else.
pub open spec fn is_decimal(p: Seq<char>) -> bool {
    p.len() > 0 && forall|i: int| 0 <= i < p.len() ==> '0' <= #[trigger] p[i] <= '9'
}

/// The two numbers of a text `a:b` of decimal digits, each at most 65535.
pub open spec fn standard_form(s: Seq<char>) -> Option<(int, int)> {
    let parts = split_on(s, ':');
    if parts.len() == 2 && is_decimal(parts[0]) && is_decimal(parts[1]) {
        match (digits_value(parts[0], 10), digits_value(parts[1], 10)) {
            (Some(a), Some(b)) => if a <= 0xffff && b <= 0xffff {
                Some((a, b))
            } else {
                None
            },
            _ => None,
        }
    } else {
        None
    }
}

/// The three numbers of a text `a:b:c` of decimal digits, each fitting in
/// 32 bits.
pub open spec fn large_form(s: Seq<char>) -> Option<(int, int, int)> {
    let parts = split_on(s, ':');
    if parts.len() == 3 && is_decimal(parts[0]) && is_decimal(parts[1]) && is_decimal(parts[2]) {
        match (digits_value(parts[0], 10), digits_value(parts[1], 10), digits_value(parts[2], 10)) {
            (Some(g), Some(l1), Some(l2)) => if g <= 0xffff_ffff && l1 <= 0xffff_ffff && l2
                <= 0xffff_ffff {
                Some((g, l1, l2))
            } else {
                None
            },
            _ => None,
        }
    } else {
        None
    }
}

/// The text starts with `0x`.
pub open spec fn starts_hex(s: Seq<char>) -> bool {
    s.len() >= 2 && s[0] == '0' && s[1] == 'x'
}

/// Reads a community from its text.
///
/// Trusted: calls routecore's `FromStr` for `Community`, which tries, in
/// turn, a standard, a large, an extended and an IPv6 extended community,
/// and converts the result to its parts. The contract claims that the
/// result depends on the text alone, and what routecore's source shows for
/// the plain decimal forms: `a:b` with both parts at most 65535 is the
/// standard community `a * 65536 + b` (no well-known name is made of
/// digits), and `a:b:c` with parts that fit in 32 bits, which is no
/// standard community, is the large community of the three parts. What
/// routecore reads from other texts is not stated. A text that starts with
/// `0x` is not admitted: routecore cuts such a text at fixed byte offsets,
/// which panics where the cut falls inside a character.
#[verifier::external_body]
fn read_community(text: &str) -> (res: Option<CommunityValue>)
    requires
        !starts_hex(text@),
    ensures
        res == routecore_community(text@),
        standard_form(text@) matches Some((a, b)) ==> res == Some(
            CommunityValue::Standard((a * 0x10000 + b) as u32),
        ),
        large_form(text@) matches Some((g, l1, l2)) ==> res == Some(
            CommunityValue::Large(g as u32, l1 as u32, l2 as u32),
        ),
{
    match text.parse::<Community>() {
        Ok(Community::Standard(c)) => Some(CommunityValue::Standard(c.to_u32())),
        Ok(Community::Extended(c)) => Some(CommunityValue::Extended(c.to_raw())),
        Ok(Community::Ipv6Extended(c)) => Some(CommunityValue::Ipv6Extended(c.to_raw())),
        Ok(Community::Large(c)) => Some(CommunityValue::Large(c.global(), c.local1(), c.local2())),
        Err(_) => None,
    }
}

/// The character of a decimal digit.
pub open spec fn digit_char(d: nat) -> char {
    ((d + 48) as u32) as char
}

/// The decimal digits of a number, without leading zeros.
pub open spec fn decimal_digits(v: nat) -> Seq<char>
    decreases v,
{
    if v < 10 {
        seq![digit_char(v)]
    } else {
        decimal_digits(v / 10).push(digit_char(v % 10))
    }
}

/// A part of a community text, with a hexadecimal number (`0x..`) written
/// in decimal; absent when the hexadecimal number is not a valid 32-bit
/// number.
pub open spec fn community_part(p: Seq<char>) -> Option<Seq<char>> {
    if p.len() >= 2 && p[0] == '0' && p[1] == 'x' {
        match unsigned_value(p.skip(2), 16, 0xffff_ffff) {
            Some(v) => Some(decimal_digits(v as nat)),
            None => None,
        }
    } else {
        Some(p)
    }
}

/// The rewritten parts, if every part can be rewritten.
pub open spec fn community_parts(parts: Seq<Seq<char>>) -> Option<Seq<Seq<char>>>
    decreases parts.len(),
{
    if parts.len() == 0 {
        Some(Seq::<Seq<char>>::empty())
    } else {
        match (community_parts(parts.drop_last()), community_part(parts.last())) {
            (Some(init), Some(p)) => Some(init.push(p)),
            _ => None,
        }
    }
}

/// Parts joined by a separator character.
pub open spec fn join_parts(parts: Seq<Seq<char>>, sep: char) -> Seq<char>
    decreases parts.len(),
{
    if parts.len() == 0 {
        Seq::<char>::empty()
    } else if parts.len() == 1 {
        parts[0]
    } else {
        join_parts(parts.drop_last(), sep).push(sep) + parts.last()
    }
}

/// The text of a community token with its hexadecimal parts written in
/// decimal.
pub open spec fn community_text(s: Seq<char>) -> Option<Seq<char>> {
    match community_parts(split_on(s, ':')) {
        Some(parts) => Some(join_parts(parts, ':')),
        None => None,
    }
}

/// The community that a community token stands for: absent when a
/// hexadecimal part is not a valid number or routecore reads no community.
pub open spec fn community_of_token(s: Seq<char>) -> Option<CommunityValue> {
    match community_text(s) {
        Some(t) => routecore_community(t),
        None => None,
    }
}

/// The decimal digits of a number.
fn decimal_chars(v: u32) -> (res: Vec<char>)
    ensures
        res@ == decimal_digits(v as nat),
    decreases v,
{
    let d = ((v % 10) + 48) as u8 as char;
    if v < 10 {
        let mut r = Vec::new();
        r.push(d);
        assert(r@ =~= seq![digit_char(v as nat)]);
        r
    } else {
        let mut r = decimal_chars(v / 10);
        r.push(d);
        r
    }
}

/// Rewrites one part of a community text.
fn rewrite_part(p: &Vec<char>) -> (res: Option<Vec<char>>)
    ensures
        match community_part(p@) {
            Some(t) => res matches Some(r) && r@ == t,
            None => res is None,
        },
{
    if p.len() >= 2 && p[0] == '0' && p[1] == 'x' {
        let hex = super::split::chars_between(p, 2, p.len());
        assert(hex@ =~= p@.skip(2));
        let text = string_from_chars(&hex);
        match super::number::read_unsigned(text.as_str(), 16, 0xffff_ffff) {
            Some(v) => Some(decimal_chars(v as u32)),
            None => None,
        }
    } else {
        let mut r = Vec::new();
        let mut i: usize = 0;
        while i < p.len()
            invariant
                i <= p@.len(),
                r@ == p@.take(i as int),
            decreases p@.len() - i,
        {
            r.push(p[i]);
            assert(p@.take(i + 1) =~= p@.take(i as int).push(p@[i as int]));
            i = i + 1;
        }
        assert(p@.take(i as int) =~= p@);
        Some(r)
    }
}

proof fn lemma_community_parts_prefix(parts: Seq<Seq<char>>, k: int)
    requires
        0 <= k <= parts.len(),
        community_parts(parts) is Some,
    ensures
        community_parts(parts.take(k)) is Some,
    decreases parts.len(),
{
    if k == parts.len() {
        assert(parts.take(k) =~= parts);
    } else {
        assert(parts.drop_last().take(k) =~= parts.take(k));
        lemma_community_parts_prefix(parts.drop_last(), k);
    }
}

/// The text of a community token with its hexadecimal parts written in
/// decimal; absent when a hexadecimal part is not a valid 32-bit number.
pub fn rewrite_community(s: &str) -> (res: Option<String>)
    ensures
        match community_text(s@) {
            Some(t) => res matches Some(r) && r@ == t,
            None => res is None,
        },
{
    let chars = chars_of(s);
    let parts = split_chars(&chars, ':');
    let ghost pv = parts_view(parts@);
    let mut out: Vec<char> = Vec::new();
    let ghost mut done: Seq<Seq<char>> = Seq::empty();
    let mut i: usize = 0;
    assert(pv.take(0) =~= Seq::<Seq<char>>::empty());
    while i < parts.len()
        invariant
            pv == parts_view(parts@),
            pv == split_on(s@, ':'),
            i <= parts@.len(),
            community_parts(pv.take(i as int)) == Some(done),
            done.len() == i,
            out@ == join_parts(done, ':'),
        decreases parts@.len() - i,
    {
        assert(pv.take(i + 1).drop_last() =~= pv.take(i as int));
        assert(pv.take(i + 1).last() == parts@[i as int]@);
        let part = match rewrite_part(&parts[i]) {
            Some(r) => r,
            None => {
                proof {
                    if community_parts(pv) is Some {
                        lemma_community_parts_prefix(pv, i + 1);
                    }
                }
                return None;
            },
        };
        let ghost before = out@;
        if i > 0 {
            out.push(':');
        }
        let mut j: usize = 0;
        let ghost mid = out@;
        while j < part.len()
            invariant
                j <= part@.len(),
                out@ == mid + part@.take(j as int),
            decreases part@.len() - j,
        {
            out.push(part[j]);
            assert(part@.take(j + 1) =~= part@.take(j as int).push(part@[j as int]));
            assert(out@ =~= mid + part@.take(j + 1));
            j = j + 1;
        }
        assert(part@.take(j as int) =~= part@);
        proof {
            let nd = done.push(part@);
            assert(nd.drop_last() =~= done);
            if i == 0 {
                assert(done.len() == 0);
                assert(out@ =~= part@);
            } else {
                assert(out@ =~= join_parts(done, ':').push(':') + part@);
            }
            done = nd;
        }
        i = i + 1;
    }
    assert(pv.take(i as int) =~= pv);
    Some(string_from_chars(&out))
}

/// Reads the community that a community token stands for.
pub fn read_community_token(s: &str) -> (res: Option<CommunityValue>)
    ensures
        res == community_of_token(s@),
{
    match rewrite_community(s) {
        Some(t) => {
            proof {
                lemma_rewritten_not_hex(s@);
            }
            read_community(t.as_str())
        },
        None => None,
    }
}

proof fn lemma_decimal_digits_are_digits(v: nat)
    ensures
        forall|i: int|
            0 <= i < decimal_digits(v).len() ==> '0' <= #[trigger] decimal_digits(v)[i] <= '9',
    decreases v,
{
    let d = digit_char(v % 10);
    assert(d as int == (v % 10) + 48);
    if v >= 10 {
        lemma_decimal_digits_are_digits(v / 10);
        let s = decimal_digits(v);
        assert forall|i: int| 0 <= i < s.len() implies '0' <= #[trigger] s[i] <= '9' by {
            if i < s.len() - 1 {
                assert(s[i] == decimal_digits(v / 10)[i]);
            }
        }
    }
}

proof fn lemma_part_not_hex(p: Seq<char>)
    requires
        community_part(p) is Some,
    ensures
        !starts_hex(community_part(p)->0),
{
    if p.len() >= 2 && p[0] == '0' && p[1] == 'x' {
        let v = unsigned_value(p.skip(2), 16, 0xffff_ffff)->0;
        lemma_digits_value_nonneg(unsigned_digits(p.skip(2)), 16);
        lemma_decimal_digits_are_digits(v as nat);
        let q = decimal_digits(v as nat);
        if q.len() >= 2 {
            assert('0' <= q[1] <= '9');
        }
    }
}

proof fn lemma_community_parts_first(parts: Seq<Seq<char>>)
    requires
        community_parts(parts) is Some,
    ensures
        community_parts(parts)->0.len() == parts.len(),
        parts.len() > 0 ==> community_part(parts[0]) is Some && community_parts(parts)->0[0]
            == community_part(parts[0])->0,
    decreases parts.len(),
{
    if parts.len() > 0 {
        lemma_community_parts_first(parts.drop_last());
    }
}

proof fn lemma_join_head(parts: Seq<Seq<char>>, sep: char)
    requires
        parts.len() >= 1,
    ensures
        join_parts(parts, sep).len() >= parts[0].len(),
        join_parts(parts, sep).take(parts[0].len() as int) == parts[0],
        parts.len() > 1 ==> join_parts(parts, sep).len() > parts[0].len() && join_parts(parts, sep)[parts[0].len() as int] == sep,
    decreases parts.len(),
{
    if parts.len() > 1 {
        let init = parts.drop_last();
        lemma_join_head(init, sep);
        let j = join_parts(init, sep);
        let whole = j.push(sep) + parts.last();
        assert(join_parts(parts, sep) == whole);
        assert(whole.take(parts[0].len() as int) =~= j.take(parts[0].len() as int));
        if init.len() == 1 {
            assert(whole[parts[0].len() as int] == sep);
        } else {
            assert(whole[parts[0].len() as int] == j[parts[0].len() as int]);
        }
    } else {
        assert(join_parts(parts, sep).take(parts[0].len() as int) =~= parts[0]);
    }
}

/// The rewritten text of a community token never starts with `0x`.
proof fn lemma_rewritten_not_hex(s: Seq<char>)
    requires
        community_text(s) is Some,
    ensures
        !starts_hex(community_text(s)->0),
{
    let parts = split_on(s, ':');
    lemma_split_on_nonempty(s, ':');
    lemma_community_parts_first(parts);
    let r = community_parts(parts)->0;
    lemma_part_not_hex(parts[0]);
    lemma_join_head(r, ':');
    let t = join_parts(r, ':');
    let q = r[0];
    if t.len() >= 2 {
        if q.len() >= 2 {
            assert(t[0] == t.take(q.len() as int)[0]);
            assert(t[1] == t.take(q.len() as int)[1]);
        } else if q.len() == 1 {
            assert(t[0] == t.take(1)[0]);
            assert(t[1] == ':');
        } else {
            assert(t[0] == ':');
        }
    }
}

/// The literal that a community stands for; IPv6 extended communities have
/// no literal.
pub fn community_literal(c: CommunityValue) -> (res: LiteralExpr)
    requires
        !(c is Ipv6Extended),
    ensures
        match c {
            CommunityValue::Standard(v) => res matches LiteralExpr::StandardCommunityLiteral(x) && x.0
                == v,
            CommunityValue::Extended(o) => res matches LiteralExpr::ExtendedCommunityLiteral(x) && x.0
                == o,
            CommunityValue::Large(g, l1, l2) => res matches LiteralExpr::LargeCommunityLiteral(x)
                && x.global == g && x.local1 == l1 && x.local2 == l2,
            CommunityValue::Ipv6Extended(_) => false,
        },
{
    match c {
        CommunityValue::Standard(v) => LiteralExpr::StandardCommunityLiteral(StandardCommunity(v)),
        CommunityValue::Extended(o) => LiteralExpr::ExtendedCommunityLiteral(ExtendedCommunity(o)),
        CommunityValue::Large(g, l1, l2) => LiteralExpr::LargeCommunityLiteral(
            LargeCommunity { global: g, local1: l1, local2: l2 },
        ),
        CommunityValue::Ipv6Extended(_) => LiteralExpr::BooleanLiteral(false),
    }
}

// ------------ Laws ------------------------------------------------------------------

/// Splitting a text on a separator and joining the parts with it gives the
/// text back.
pub proof fn law_join_split(s: Seq<char>, sep: char)
    ensures
        join_parts(split_on(s, sep), sep) == s,
    decreases s.len(),
{
    if s.len() > 0 {
        let init = s.drop_last();
        let r = split_on(init, sep);
        law_join_split(init, sep);
        lemma_split_on_nonempty(init, sep);
        if s.last() == sep {
            let next = r.push(Seq::<char>::empty());
            assert(next.drop_last() =~= r);
            assert(join_parts(next, sep) =~= join_parts(r, sep).push(sep));
            assert(s =~= init.push(sep));
        } else {
            let next = r.update(r.len() - 1, r.last().push(s.last()));
            if r.len() == 1 {
                assert(join_parts(next, sep) == next[0]);
                assert(s =~= init.push(s.last()));
            } else {
                assert(next.drop_last() =~= r.drop_last());
                assert(join_parts(next, sep) =~= (join_parts(r.drop_last(), sep).push(sep)
                    + r.last()).push(s.last()));
                assert(s =~= init.push(s.last()));
            }
        }
    }
}

/// Parts of which none is written in hexadecimal are kept as they are.
proof fn lemma_parts_kept(parts: Seq<Seq<char>>)
    requires
        forall|i: int|
            0 <= i < parts.len() ==> !((#[trigger] parts[i]).len() >= 2 && parts[i][0] == '0'
                && parts[i][1] == 'x'),
    ensures
        community_parts(parts) == Some(parts),
    decreases parts.len(),
{
    if parts.len() > 0 {
        lemma_parts_kept(parts.drop_last());
        assert(parts.drop_last().push(parts.last()) =~= parts);
    }
}

/// Only hexadecimal parts are rewritten: a community text none of whose
/// parts starts with `0x` is handed to routecore as it is.
pub proof fn law_community_text_without_hex(s: Seq<char>)
    requires
        forall|i: int|
            0 <= i < split_on(s, ':').len() ==> !((#[trigger] split_on(s, ':')[i]).len() >= 2
                && split_on(s, ':')[i][0] == '0' && split_on(s, ':')[i][1] == 'x'),
    ensures
        community_text(s) == Some(s),
{
    lemma_parts_kept(split_on(s, ':'));
    law_join_split(s, ':');
}

proof fn lemma_digit_char(d: nat)
    requires
        d < 10,
    ensures
        digit_value(digit_char(d), 10) == Some(d as int),
{
    let c = digit_char(d);
    assert(c as int == d + 48);
}

/// The decimal digits of a number read back as that number.
pub proof fn law_decimal_digits_value(v: nat)
    ensures
        digits_value(decimal_digits(v), 10) == Some(v as int),
        decimal_digits(v).len() >= 1,
        digit_value(decimal_digits(v)[0], 10) is Some,
    decreases v,
{
    lemma_digit_char(v % 10);
    if v < 10 {
        assert(v % 10 == v);
        let d = decimal_digits(v);
        assert(d.drop_last() =~= Seq::<char>::empty());
        assert(d.last() == digit_char(v));
        assert(digits_value(d.drop_last(), 10) == Some(0int));
    } else {
        law_decimal_digits_value(v / 10);
        let d = decimal_digits(v);
        assert(d.drop_last() =~= decimal_digits(v / 10));
        assert(d[0] == decimal_digits(v / 10)[0]);
        assert((v / 10) * 10 + v % 10 == v) by (nonlinear_arith);
        assert(d.last() == digit_char(v % 10));
        assert(digits_value(d.drop_last(), 10) == Some((v / 10) as int));
    }
}

/// A hexadecimal part is rewritten as the decimal digits of the same
/// number, which read back as that number.
pub proof fn law_hex_part_keeps_its_value(p: Seq<char>)
    requires
        p.len() >= 2 && p[0] == '0' && p[1] == 'x',
        community_part(p) is Some,
    ensures
        unsigned_value(community_part(p)->0, 10, 0xffff_ffff) == unsigned_value(
            p.skip(2),
            16,
            0xffff_ffff,
        ),
{
    let v = unsigned_value(p.skip(2), 16, 0xffff_ffff)->0;
    lemma_digits_value_nonneg(unsigned_digits(p.skip(2)), 16);
    law_decimal_digits_value(v as nat);
    assert(decimal_digits(v as nat)[0] != '+');
}

} // verus!
