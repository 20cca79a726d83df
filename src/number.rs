use vstd::prelude::*;

verus! {

pub open spec fn is_digit(c: char) -> bool {
    48 <= (c as u32) <= 57
}

pub open spec fn all_digits(s: Seq<char>) -> bool {
    forall|i: int| 0 <= i < s.len() ==> is_digit(#[trigger] s[i])
}

/// The decimal value of a digit string.
pub open spec fn digits_value(s: Seq<char>) -> int
    decreases s.len(),
{
    if s.len() == 0 {
        0
    } else {
        digits_value(s.drop_last()) * 10 + (s.last() as u32 - 48)
    }
}

/// Without a leading `+` or `-`.
pub open spec fn unsigned_part(s: Seq<char>) -> Seq<char> {
    if s.len() > 0 && (s[0] == '+' || s[0] == '-') {
        s.drop_first()
    } else {
        s
    }
}

/// A decimal `u64` as `u64::from_str` reads it: an optional `+`, then at
/// least one digit, with a value that fits.
pub open spec fn parse_u64_spec(s: Seq<char>) -> Option<u64> {
    let d = unsigned_part(s);
    if s.len() > 0 && s[0] != '-' && d.len() > 0 && all_digits(d) && digits_value(d) <= u64::MAX {
        Some(digits_value(d) as u64)
    } else {
        None
    }
}

/// A decimal `i64` as `i64::from_str` reads it: an optional sign, then at
/// least one digit, with a value that fits.
pub open spec fn parse_i64_spec(s: Seq<char>) -> Option<i64> {
    let d = unsigned_part(s);
    let v = if s.len() > 0 && s[0] == '-' { -digits_value(d) } else { digits_value(d) };
    if d.len() > 0 && all_digits(d) && i64::MIN <= v <= i64::MAX {
        Some(v as i64)
    } else {
        None
    }
}

proof fn lemma_digits_nonneg(s: Seq<char>)
    requires
        all_digits(s),
    ensures
        digits_value(s) >= 0,
    decreases s.len(),
{
    if s.len() > 0 {
        lemma_digits_nonneg(s.drop_last());
    }
}

proof fn lemma_digits_grow(s: Seq<char>, i: int)
    requires
        all_digits(s),
        0 <= i <= s.len(),
    ensures
        digits_value(s) >= digits_value(s.take(i)),
    decreases s.len() - i,
{
    if i < s.len() {
        lemma_digits_grow(s, i + 1);
        assert(s.take(i + 1).drop_last() =~= s.take(i));
        lemma_digits_nonneg(s.take(i));
    } else {
        assert(s.take(i) =~= s);
    }
}

/// The value of the digits of `v` from `lo` on, when they are at least one
/// digit, all digits, and at most `cap`.
fn digits_from(v: &Vec<char>, lo: usize, cap: u64) -> (r: Option<u64>)
    requires
        lo <= v.len(),
    ensures
        ({
            let d = v@.subrange(lo as int, v@.len() as int);
            r == if d.len() > 0 && all_digits(d) && digits_value(d) <= cap {
                Some(digits_value(d) as u64)
            } else {
                None
            }
        }),
        r is Some ==> r->0 as int == digits_value(v@.subrange(lo as int, v@.len() as int)),
{
    let ghost d = v@.subrange(lo as int, v@.len() as int);
    if lo == v.len() {
        return None;
    }
    let mut acc: u64 = 0;
    let mut i = lo;
    while i < v.len()
        invariant
            lo <= i <= v.len(),
            d == v@.subrange(lo as int, v@.len() as int),
            all_digits(d.take(i - lo)),
            acc == digits_value(d.take(i - lo)),
            acc <= cap,
        decreases v.len() - i,
    {
        let c = v[i] as u32;
        assert(d[i - lo] == v@[i as int]);
        if c < 48 || c > 57 {
            assert(!is_digit(d[i - lo]));
            return None;
        }
        let digit = (c - 48) as u64;
        assert(d.take(i - lo + 1).drop_last() =~= d.take(i - lo));
        if digit > cap || acc > (cap - digit) / 10 {
            proof {
                assert(acc * 10 + digit > cap) by (nonlinear_arith)
                    requires
                        digit > cap || acc > (cap - digit) / 10,
                        acc >= 0,
                ;
                assert(all_digits(d.take(i - lo + 1)));
                if all_digits(d) {
                    lemma_digits_grow(d, i - lo + 1);
                }
            }
            return None;
        }
        proof {
            assert(acc * 10 + digit <= cap) by (nonlinear_arith)
                requires
                    acc <= (cap - digit) / 10,
                    digit <= cap,
            ;
        }
        acc = acc * 10 + digit;
        i += 1;
    }
    assert(d.take(i - lo) =~= d);
    proof {
        lemma_digits_nonneg(d);
    }
    Some(acc)
}

/// Reads a decimal `u64` as `u64::from_str` does.
pub fn parse_u64(v: &Vec<char>) -> (r: Option<u64>)
    ensures
        r == parse_u64_spec(v@),
{
    if v.len() == 0 || v[0] == '-' {
        return None;
    }
    let lo: usize = if v[0] == '+' { 1 } else { 0 };
    assert(unsigned_part(v@) =~= v@.subrange(lo as int, v@.len() as int));
    digits_from(v, lo, u64::MAX)
}

/// Reads a decimal `i64` as `i64::from_str` does.
pub fn parse_i64(v: &Vec<char>) -> (r: Option<i64>)
    ensures
        r == parse_i64_spec(v@),
{
    if v.len() == 0 {
        return None;
    }
    let neg = v[0] == '-';
    let lo: usize = if v[0] == '+' || v[0] == '-' { 1 } else { 0 };
    assert(unsigned_part(v@) =~= v@.subrange(lo as int, v@.len() as int));
    let ghost d = unsigned_part(v@);
    if neg {
        match digits_from(v, lo, 0x8000_0000_0000_0000u64) {
            None => None,
            Some(m) => {
                assert(m as int == digits_value(d) && m <= 0x8000_0000_0000_0000u64);
                if m == 0x8000_0000_0000_0000u64 {
                    Some(i64::MIN)
                } else {
                    Some(-(m as i64))
                }
            },
        }
    } else {
        match digits_from(v, lo, 0x7FFF_FFFF_FFFF_FFFFu64) {
            None => None,
            Some(m) => {
                assert(m as int == digits_value(d) && m <= 0x7FFF_FFFF_FFFF_FFFFu64);
                Some(m as i64)
            },
        }
    }
}

} // verus!
