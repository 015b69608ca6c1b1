//! Reading integers from the text of number tokens, in the way the standard
//! library's integer parsing reads them: an optional sign, then one or more
//! digits of the radix, with no other characters and no overflow.

use vstd::prelude::*;

use vstd::string::StrSliceExecFns;

verus! {

/// The value of a digit character in the given radix (at most 36).
pub open spec fn digit_value(c: char, radix: int) -> Option<int> {
    let v: int = if '0' <= c && c <= '9' {
        c as int - '0' as int
    } else if 'a' <= c && c <= 'z' {
        c as int - 'a' as int + 10
    } else if 'A' <= c && c <= 'Z' {
        c as int - 'A' as int + 10
    } else {
        radix
    };
    if v < radix {
        Some(v)
    } else {
        None
    }
}

/// The value of a sequence of digits, most significant first; absent when a
/// character is not a digit of the radix. The empty sequence has value 0.
pub open spec fn digits_value(s: Seq<char>, radix: int) -> Option<int>
    decreases s.len(),
{
    if s.len() == 0 {
        Some(0)
    } else {
        match (digits_value(s.drop_last(), radix), digit_value(s.last(), radix)) {
            (Some(v), Some(d)) => Some(v * radix + d),
            _ => None,
        }
    }
}

/// The digits of an unsigned number text: all of it, or what follows a
/// leading `+`.
pub open spec fn unsigned_digits(s: Seq<char>) -> Seq<char> {
    if s.len() > 0 && s[0] == '+' {
        s.drop_first()
    } else {
        s
    }
}

/// The value of an unsigned number text in the given radix, if it has at
/// least one digit, nothing but digits after an optional `+`, and a value of
/// at most `max`.
pub open spec fn unsigned_value(s: Seq<char>, radix: int, max: int) -> Option<int> {
    let digits = unsigned_digits(s);
    if digits.len() == 0 {
        None
    } else {
        match digits_value(digits, radix) {
            Some(v) => if v <= max {
                Some(v)
            } else {
                None
            },
            None => None,
        }
    }
}

/// The value of a decimal text for a signed 64-bit integer: an optional `+`
/// or `-`, then at least one decimal digit and nothing else, in range.
pub open spec fn i64_value(s: Seq<char>) -> Option<int> {
    if s.len() > 0 && s[0] == '-' {
        let digits = s.drop_first();
        if digits.len() == 0 {
            None
        } else {
            match digits_value(digits, 10) {
                Some(v) => if v <= 0x8000_0000_0000_0000 {
                    Some(-v)
                } else {
                    None
                },
                None => None,
            }
        }
    } else {
        unsigned_value(s, 10, 0x7fff_ffff_ffff_ffff)
    }
}

pub proof fn lemma_digits_value_nonneg(s: Seq<char>, radix: int)
    requires
        radix >= 1,
        digits_value(s, radix) is Some,
    ensures
        digits_value(s, radix)->0 >= 0,
    decreases s.len(),
{
    if s.len() > 0 {
        lemma_digits_value_nonneg(s.drop_last(), radix);
    }
}

/// The value of a prefix of digits is no larger than that of the whole.
pub proof fn lemma_digits_value_prefix(s: Seq<char>, radix: int, k: int)
    requires
        radix >= 1,
        0 <= k <= s.len(),
        digits_value(s, radix) is Some,
    ensures
        digits_value(s.take(k), radix) is Some,
        0 <= digits_value(s.take(k), radix)->0 <= digits_value(s, radix)->0,
    decreases s.len(),
{
    lemma_digits_value_nonneg(s, radix);
    if k == s.len() {
        assert(s.take(k) =~= s);
    } else {
        let t = s.drop_last();
        assert(t.take(k) =~= s.take(k));
        lemma_digits_value_prefix(t, radix, k);
        lemma_digits_value_nonneg(t, radix);
        let v = digits_value(t, radix)->0;
        let d = digit_value(s.last(), radix)->0;
        assert(v <= v * radix + d) by (nonlinear_arith)
            requires
                v >= 0,
                radix >= 1,
                d >= 0,
        ;
    }
}

/// The value of a digit character, read in the given radix.
pub fn char_digit(c: char, radix: u32) -> (res: Option<u32>)
    requires
        2 <= radix <= 36,
    ensures
        match digit_value(c, radix as int) {
            Some(v) => res == Some(v as u32),
            None => res is None,
        },
{
    let code = c as u32;
    let v: u32 = if '0' <= c && c <= '9' {
        code - ('0' as u32)
    } else if 'a' <= c && c <= 'z' {
        code - ('a' as u32) + 10
    } else if 'A' <= c && c <= 'Z' {
        code - ('A' as u32) + 10
    } else {
        radix
    };
    if v < radix {
        Some(v)
    } else {
        None
    }
}

/// The value of the digits of `s` from character position `start` on, if
/// all of them are digits of the radix and the value is at most `max`.
pub fn read_digits(s: &str, start: usize, radix: u32, max: u64) -> (res: Option<u64>)
    requires
        2 <= radix <= 36,
        start <= s@.len(),
    ensures
        match digits_value(s@.skip(start as int), radix as int) {
            Some(v) => if v <= max {
                res matches Some(r) && r == v
            } else {
                res is None
            },
            None => res is None,
        },
{
    let n = s.unicode_len();
    let ghost digits = s@.skip(start as int);
    let mut acc: u64 = 0;
    let mut i: usize = start;
    assert(digits.take(0) =~= Seq::<char>::empty());
    while i < n
        invariant
            n == s@.len(),
            start <= i <= n,
            digits == s@.skip(start as int),
            2 <= radix <= 36,
            acc <= max,
            digits_value(digits.take(i - start), radix as int) == Some(acc as int),
        decreases n - i,
    {
        let c = s.get_char(i);
        let ghost k = i - start;
        assert(digits[k] == c);
        assert(digits.take(k + 1).drop_last() =~= digits.take(k));
        assert(digits.take(k + 1).last() == c);
        let d = match char_digit(c, radix) {
            Some(d) => d,
            None => {
                proof {
                    if digits_value(digits, radix as int) is Some {
                        lemma_digits_value_prefix(digits, radix as int, k + 1);
                    }
                }
                return None;
            },
        };
        assert((acc as u128) * (radix as u128) <= (u64::MAX as u128) * 36) by (nonlinear_arith)
            requires
                acc <= u64::MAX,
                radix <= 36,
        ;
        let next: u128 = (acc as u128) * (radix as u128) + (d as u128);
        assert(next == acc * radix + d) by (nonlinear_arith)
            requires
                next == (acc as u128) * (radix as u128) + (d as u128),
                acc <= u64::MAX,
                radix <= 36,
                d <= 36,
        ;
        if next > max as u128 {
            proof {
                if digits_value(digits, radix as int) is Some {
                    lemma_digits_value_prefix(digits, radix as int, k + 1);
                }
            }
            return None;
        }
        acc = next as u64;
        i = i + 1;
    }
    assert(digits.take(i - start) =~= digits);
    Some(acc)
}

/// Reads an unsigned number text in the given radix, with an optional
/// leading `+`, up to `max`.
pub fn read_unsigned(s: &str, radix: u32, max: u64) -> (res: Option<u64>)
    requires
        2 <= radix <= 36,
    ensures
        match unsigned_value(s@, radix as int, max as int) {
            Some(v) => res matches Some(r) && r == v,
            None => res is None,
        },
{
    let n = s.unicode_len();
    let start: usize = if n > 0 && s.get_char(0) == '+' {
        1
    } else {
        0
    };
    assert(unsigned_digits(s@) =~= s@.skip(start as int));
    if start == n {
        return None;
    }
    read_digits(s, start, radix, max)
}

/// Reads a decimal text as a signed 64-bit integer.
pub fn read_i64(s: &str) -> (res: Option<i64>)
    ensures
        match i64_value(s@) {
            Some(v) => res matches Some(r) && r == v,
            None => res is None,
        },
{
    let n = s.unicode_len();
    if n > 0 && s.get_char(0) == '-' {
        assert(s@.drop_first() =~= s@.skip(1));
        if n == 1 {
            return None;
        }
        let r = read_digits(s, 1, 10, 0x8000_0000_0000_0000);
        match r {
            Some(v) => {
                if v == 0x8000_0000_0000_0000 {
                    Some(i64::MIN)
                } else {
                    let m = v as i64;
                    Some(-m)
                }
            },
            None => None,
        }
    } else {
        match read_unsigned(s, 10, 0x7fff_ffff_ffff_ffff) {
            Some(v) => Some(v as i64),
            None => None,
        }
    }
}

} // verus!
