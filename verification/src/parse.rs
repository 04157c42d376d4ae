//! Parsing of the interval argument: whitespace trimming and decimal
//! conversion of the command-line string, with an exact account of which
//! strings are accepted and of the value they denote.

use vstd::prelude::*;
use vstd::string::StringSliceAdditionalSpecFns;

verus! {

/// Whether `b` is an ASCII whitespace byte (the bytes that trimming
/// removes: space, tab, line feed, vertical tab, form feed, carriage
/// return).
pub open spec fn is_space(b: u8) -> bool {
    b == 32 || (9 <= b && b <= 13)
}

/// Whether `b` is an ASCII decimal digit.
pub open spec fn is_digit(b: u8) -> bool {
    48 <= b && b <= 57
}

/// `s` with its leading whitespace bytes removed.
pub open spec fn drop_leading_spaces(s: Seq<u8>) -> Seq<u8>
    decreases s.len(),
{
    if s.len() > 0 && is_space(s[0]) {
        drop_leading_spaces(s.drop_first())
    } else {
        s
    }
}

/// `s` with its trailing whitespace bytes removed.
pub open spec fn drop_trailing_spaces(s: Seq<u8>) -> Seq<u8>
    decreases s.len(),
{
    if s.len() > 0 && is_space(s.last()) {
        drop_trailing_spaces(s.drop_last())
    } else {
        s
    }
}

/// `s` with leading and trailing whitespace removed.
pub open spec fn trimmed(s: Seq<u8>) -> Seq<u8> {
    drop_trailing_spaces(drop_leading_spaces(s))
}

/// The digit part of a trimmed number: an optional leading plus sign is
/// dropped.
pub open spec fn unsigned_body(s: Seq<u8>) -> Seq<u8> {
    if s.len() > 0 && s[0] == 43 {
        s.drop_first()
    } else {
        s
    }
}

/// The value of a sequence of decimal digit bytes, most significant first.
pub open spec fn digits_value(d: Seq<u8>) -> nat
    recommends
        forall|i: int| 0 <= i < d.len() ==> is_digit(d[i]),
    decreases d.len(),
{
    if d.len() == 0 {
        0
    } else {
        (digits_value(d.drop_last()) * 10 + (d.last() - 48)) as nat
    }
}

/// Whether the bytes of `s`, after trimming and an optional leading plus
/// sign, are one or more decimal digits.
pub open spec fn is_number(s: Seq<u8>) -> bool {
    let d = unsigned_body(trimmed(s));
    d.len() > 0 && (forall|i: int| 0 <= i < d.len() ==> is_digit(d[i]))
}

/// The value the digits of `s` denote.
pub open spec fn number_value(s: Seq<u8>) -> nat {
    digits_value(unsigned_body(trimmed(s)))
}

/// If the first `k` bytes of `s` are whitespace and the byte after them (if
/// any) is not, dropping leading whitespace drops exactly those `k` bytes.
proof fn lemma_drop_leading(s: Seq<u8>, k: int)
    requires
        0 <= k <= s.len(),
        forall|i: int| 0 <= i < k ==> is_space(s[i]),
        k < s.len() ==> !is_space(s[k]),
    ensures
        drop_leading_spaces(s) =~= s.skip(k),
    decreases k,
{
    if k == 0 {
        assert(s.skip(0) =~= s);
    } else {
        lemma_drop_leading(s.drop_first(), k - 1);
        assert(s.drop_first().skip(k - 1) =~= s.skip(k));
    }
}

/// If the bytes of `s` from position `k` on are whitespace and the byte
/// before them (if any) is not, dropping trailing whitespace keeps exactly
/// the first `k` bytes.
proof fn lemma_drop_trailing(s: Seq<u8>, k: int)
    requires
        0 <= k <= s.len(),
        forall|i: int| k <= i < s.len() ==> is_space(s[i]),
        k > 0 ==> !is_space(s[k - 1]),
    ensures
        drop_trailing_spaces(s) =~= s.take(k),
    decreases s.len() - k,
{
    if k == s.len() {
        assert(s.take(k) =~= s);
    } else {
        lemma_drop_trailing(s.drop_last(), k);
        assert(s.drop_last().take(k) =~= s.take(k));
    }
}

/// The value of an all-digit sequence only grows as more digits are taken.
proof fn lemma_digits_value_monotone(d: Seq<u8>, i: int)
    requires
        0 <= i <= d.len(),
        forall|j: int| 0 <= j < d.len() ==> is_digit(d[j]),
    ensures
        digits_value(d.take(i)) <= digits_value(d),
    decreases d.len() - i,
{
    if i == d.len() {
        assert(d.take(i) =~= d);
    } else {
        assert(d.take(i + 1).drop_last() =~= d.take(i));
        assert(d.take(i + 1).last() == d[i]);
        lemma_digits_value_monotone(d, i + 1);
    }
}

/// Whether `c` is an ASCII whitespace byte.
fn space_byte(c: u8) -> (r: bool)
    ensures
        r == is_space(c),
{
    c == 32 || (9 <= c && c <= 13)
}

/// Parses the interval argument as the original command line does: trims
/// surrounding whitespace, accepts an optional leading plus sign followed
/// by one or more decimal digits, and rejects anything else as well as any
/// value that does not fit in 64 bits.
pub fn parse_interval(s: &str) -> (r: Option<u64>)
    ensures
        r is Some <==> is_number(s.spec_bytes()) && number_value(s.spec_bytes()) <= u64::MAX,
        r matches Some(n) ==> n == number_value(s.spec_bytes()),
{
    let b = s.as_bytes();
    let n = b.len();
    let mut lo: usize = 0;
    while lo < n && space_byte(b[lo])
        invariant
            0 <= lo <= n,
            n == b@.len(),
            b@ == s.spec_bytes(),
            forall|i: int| 0 <= i < lo ==> is_space(b@[i]),
        decreases n - lo,
    {
        lo = lo + 1;
    }
    let mut hi: usize = n;
    while hi > lo && space_byte(b[hi - 1])
        invariant
            lo <= hi <= n,
            n == b@.len(),
            b@ == s.spec_bytes(),
            forall|i: int| hi <= i < n ==> is_space(b@[i]),
        decreases hi,
    {
        hi = hi - 1;
    }
    proof {
        lemma_drop_leading(b@, lo as int);
        lemma_drop_trailing(b@.skip(lo as int), hi - lo);
        assert(b@.skip(lo as int).take(hi - lo) =~= b@.subrange(lo as int, hi as int));
        assert(trimmed(b@) =~= b@.subrange(lo as int, hi as int));
    }
    let body_lo: usize = if lo < hi && b[lo] == 43 {
        lo + 1
    } else {
        lo
    };
    proof {
        if lo < hi && b@[lo as int] == 43 {
            assert(b@.subrange(lo as int, hi as int).drop_first() =~= b@.subrange(
                body_lo as int,
                hi as int,
            ));
        }
        assert(unsigned_body(trimmed(b@)) =~= b@.subrange(body_lo as int, hi as int));
    }
    let ghost d = unsigned_body(trimmed(b@));
    if body_lo == hi {
        return None;
    }
    let mut acc: u64 = 0;
    let mut i: usize = body_lo;
    while i < hi
        invariant
            body_lo <= i <= hi <= n,
            n == b@.len(),
            b@ == s.spec_bytes(),
            d == unsigned_body(trimmed(b@)),
            d =~= b@.subrange(body_lo as int, hi as int),
            acc == digits_value(d.take(i - body_lo)),
            forall|j: int| body_lo <= j < i ==> is_digit(b@[j]),
        decreases hi - i,
    {
        let c = b[i];
        proof {
            assert(d.take(i - body_lo + 1).drop_last() =~= d.take(i - body_lo));
            assert(d.take(i - body_lo + 1).last() == b@[i as int]);
        }
        if c < 48 || c > 57 {
            proof {
                assert(!is_digit(d[i - body_lo]));
            }
            return None;
        }
        let digit = (c - 48) as u64;
        let shifted = match acc.checked_mul(10) {
            Some(v) => v,
            None => {
                proof {
                    if is_number(s.spec_bytes()) {
                        assert(digits_value(d.take(i - body_lo + 1)) > u64::MAX);
                        lemma_digits_value_monotone(d, i - body_lo + 1);
                    }
                }
                return None;
            },
        };
        acc = match shifted.checked_add(digit) {
            Some(v) => v,
            None => {
                proof {
                    if is_number(s.spec_bytes()) {
                        assert(digits_value(d.take(i - body_lo + 1)) > u64::MAX);
                        lemma_digits_value_monotone(d, i - body_lo + 1);
                    }
                }
                return None;
            },
        };
        i = i + 1;
    }
    proof {
        assert(d.take(hi - body_lo) =~= d);
    }
    Some(acc)
}

} // verus!
