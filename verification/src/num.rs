//! Decimal integers: parsing as `str::parse` does it, and printing as `Display` does.
use vstd::prelude::*;
use crate::text::push_char;

verus! {

broadcast use vstd::string::group_string_axioms;

pub open spec fn is_digit(c: char) -> bool {
    '0' <= c && c <= '9'
}

pub open spec fn digit_of(c: char) -> nat {
    ((c as u32) - ('0' as u32)) as nat
}

pub open spec fn all_digits(s: Seq<char>) -> bool {
    forall|i: int| 0 <= i < s.len() ==> is_digit(#[trigger] s[i])
}

/// The value of a string of decimal digits (most significant first).
pub open spec fn digits_value(s: Seq<char>) -> nat
    decreases s.len(),
{
    if s.len() == 0 {
        0
    } else {
        digits_value(s.drop_last()) * 10 + digit_of(s.last())
    }
}

/// What `str::parse` gives for an integer type whose range is `lo..=hi`:
/// an optional `+` (or `-` when the type is signed) and then at least one
/// ASCII digit; out of range is an error.
pub open spec fn parse_int_spec(s: Seq<char>, signed: bool, lo: int, hi: int) -> Option<int> {
    if s.len() == 0 {
        None
    } else if (s[0] == '+' || s[0] == '-') && s.len() == 1 {
        None
    } else {
        let neg = signed && s[0] == '-';
        let ds = if s[0] == '+' || neg {
            s.drop_first()
        } else {
            s
        };
        if all_digits(ds) {
            let v: int = if neg {
                -(digits_value(ds) as int)
            } else {
                digits_value(ds) as int
            };
            if lo <= v <= hi {
                Some(v)
            } else {
                None
            }
        } else {
            None
        }
    }
}

/// `s.parse::<i64>()`
pub open spec fn parse_i64_spec(s: Seq<char>) -> Option<int> {
    parse_int_spec(s, true, i64::MIN as int, i64::MAX as int)
}

/// `s.parse::<u16>()`
pub open spec fn parse_u16_spec(s: Seq<char>) -> Option<int> {
    parse_int_spec(s, false, 0, u16::MAX as int)
}

/// Appending digits never makes the value smaller.
pub proof fn lemma_digits_value_prefix(s: Seq<char>, k: int)
    requires
        0 <= k <= s.len(),
    ensures
        digits_value(s.take(k)) <= digits_value(s),
    decreases s.len() - k,
{
    if k < s.len() {
        assert(s.drop_last().take(k) =~= s.take(k));
        lemma_digits_value_prefix(s.drop_last(), k);
    } else {
        assert(s.take(k) =~= s);
    }
}

/// Value of the digits `v[lo..hi]`, when they all are digits and the value is at most `limit`.
fn parse_digits(v: &Vec<char>, lo: usize, hi: usize, limit: u64) -> (r: Option<u64>)
    requires
        lo <= hi <= v.len(),
        limit >= 9,
    ensures
        match r {
            Some(x) => all_digits(v@.subrange(lo as int, hi as int)) && x == digits_value(
                v@.subrange(lo as int, hi as int),
            ) && x <= limit,
            None => !all_digits(v@.subrange(lo as int, hi as int)) || digits_value(
                v@.subrange(lo as int, hi as int),
            ) > limit,
        },
{
    let ghost s = v@.subrange(lo as int, hi as int);
    let mut acc: u64 = 0;
    let mut i = lo;
    while i < hi
        invariant
            lo <= i <= hi <= v.len(),
            s == v@.subrange(lo as int, hi as int),
            all_digits(v@.subrange(lo as int, i as int)),
            acc == digits_value(v@.subrange(lo as int, i as int)),
            acc <= limit,
            limit >= 9,
        decreases hi - i,
    {
        let c = v[i];
        if !('0' <= c && c <= '9') {
            proof {
                assert(!is_digit(s[i - lo]));
            }
            return None;
        }
        let d = (c as u32 - '0' as u32) as u64;
        assert(d <= 9);
        let ghost t = v@.subrange(lo as int, i + 1);
        proof {
            assert(t.drop_last() =~= v@.subrange(lo as int, i as int));
            assert(t.last() == c);
        }
        if acc > (limit - d) / 10 {
            proof {
                assert(digits_value(t) > limit) by (nonlinear_arith)
                    requires
                        digits_value(t) == acc * 10 + d,
                        acc > (limit - d) / 10,
                        d <= 9,
                        d <= limit || acc * 10 + d > limit,
                ;
                assert(t =~= s.take(i + 1 - lo));
                lemma_digits_value_prefix(s, i + 1 - lo);
                if all_digits(s) {
                }
            }
            return None;
        }
        proof {
            assert(acc * 10 + d <= limit) by (nonlinear_arith)
                requires
                    acc <= (limit - d) / 10,
                    d <= 9,
                    d <= limit,
            ;
        }
        acc = acc * 10 + d;
        i = i + 1;
        proof {
            assert forall|j: int| 0 <= j < t.len() implies is_digit(#[trigger] t[j]) by {
                if j < t.len() - 1 {
                    assert(t[j] == v@.subrange(lo as int, i - 1)[j]);
                }
            }
        }
    }
    Some(acc)
}

/// `v[lo..hi].parse::<i64>()`
pub fn parse_i64(v: &Vec<char>, lo: usize, hi: usize) -> (r: Option<i64>)
    requires
        lo <= hi <= v.len(),
    ensures
        match r {
            Some(x) => parse_i64_spec(v@.subrange(lo as int, hi as int)) == Some(x as int),
            None => parse_i64_spec(v@.subrange(lo as int, hi as int)) == None::<int>,
        },
{
    let ghost s = v@.subrange(lo as int, hi as int);
    if lo == hi {
        return None;
    }
    let c = v[lo];
    assert(s[0] == c);
    if (c == '+' || c == '-') && hi - lo == 1 {
        return None;
    }
    let neg = c == '-';
    let start = if c == '+' || neg {
        lo + 1
    } else {
        lo
    };
    proof {
        if c == '+' || neg {
            assert(s.drop_first() =~= v@.subrange(start as int, hi as int));
        }
    }
    let limit: u64 = if neg {
        9223372036854775808
    } else {
        9223372036854775807
    };
    match parse_digits(v, start, hi, limit) {
        Some(x) => {
            if neg {
                if x == 9223372036854775808 {
                    Some(i64::MIN)
                } else {
                    Some(-(x as i64))
                }
            } else {
                Some(x as i64)
            }
        },
        None => None,
    }
}

/// `v[lo..hi].parse::<u16>()`
pub fn parse_u16(v: &Vec<char>, lo: usize, hi: usize) -> (r: Option<u16>)
    requires
        lo <= hi <= v.len(),
    ensures
        match r {
            Some(x) => parse_u16_spec(v@.subrange(lo as int, hi as int)) == Some(x as int),
            None => parse_u16_spec(v@.subrange(lo as int, hi as int)) == None::<int>,
        },
{
    let ghost s = v@.subrange(lo as int, hi as int);
    if lo == hi {
        return None;
    }
    let c = v[lo];
    assert(s[0] == c);
    if (c == '+' || c == '-') && hi - lo == 1 {
        return None;
    }
    let start = if c == '+' {
        lo + 1
    } else {
        lo
    };
    proof {
        if c == '+' {
            assert(s.drop_first() =~= v@.subrange(start as int, hi as int));
        } else {
            assert(s =~= v@.subrange(start as int, hi as int));
        }
    }
    match parse_digits(v, start, hi, 65535) {
        Some(x) => Some(x as u16),
        None => None,
    }
}

/// The decimal digits of `n`, without leading zeros ("0" for zero).
pub open spec fn decimal(n: nat) -> Seq<char>
    decreases n,
{
    if n < 10 {
        seq![char_of_digit(n)]
    } else {
        decimal(n / 10).push(char_of_digit(n % 10))
    }
}

pub open spec fn char_of_digit(d: nat) -> char {
    (('0' as u32) + d) as char
}

/// How `Display` prints a signed integer.
pub open spec fn int_decimal(i: int) -> Seq<char> {
    if i < 0 {
        seq!['-'] + decimal((-i) as nat)
    } else {
        decimal(i as nat)
    }
}

/// `n.to_string()` for `u64`.
pub fn u64_to_string(n: u64) -> (s: String)
    ensures
        s@ == decimal(n as nat),
{
    u128_to_string(n as u128)
}

/// `n.to_string()` for `u128`.
pub fn u128_to_string(n: u128) -> (s: String)
    ensures
        s@ == decimal(n as nat),
{
    // digits, least significant first
    let mut rev: Vec<char> = Vec::new();
    let mut m = n;
    loop
        invariant_except_break
            decimal(n as nat) == decimal(m as nat) + rev@.reverse(),
        ensures
            decimal(n as nat) == rev@.reverse(),
        decreases m,
    {
        let d = m % 10;
        let c = (('0' as u32) + (d as u32)) as u8 as char;
        proof {
            assert(c == char_of_digit(d as nat));
        }
        if m < 10 {
            rev.push(c);
            proof {
                assert(decimal(m as nat) == seq![c]);
                assert(rev@.reverse() =~= seq![c] + rev@.drop_last().reverse());
            }
            break;
        }
        proof {
            assert(decimal(m as nat) == decimal((m / 10) as nat).push(c));
            assert(rev@.push(c).reverse() =~= seq![c] + rev@.reverse());
        }
        rev.push(c);
        m = m / 10;
    }
    let mut s = String::new();
    let mut i = rev.len();
    while i > 0
        invariant
            i <= rev.len(),
            decimal(n as nat) == rev@.reverse(),
            s@ == rev@.reverse().take(rev.len() - i),
        decreases i,
    {
        i = i - 1;
        push_char(&mut s, rev[i]);
        assert(rev@.reverse()[rev.len() - 1 - i] == rev@[i as int]);
        assert(s@ =~= rev@.reverse().take(rev.len() - i));
    }
    assert(rev@.reverse().take(rev.len() as int) =~= rev@.reverse());
    s
}

/// `n.to_string()` for `i64`.
pub fn i64_to_string(n: i64) -> (s: String)
    ensures
        s@ == int_decimal(n as int),
{
    if n < 0 {
        let mag: u64 = if n == i64::MIN {
            9223372036854775808
        } else {
            (-n) as u64
        };
        let digits = u64_to_string(mag);
        let mut s = String::new();
        push_char(&mut s, '-');
        s.append(digits.as_str());
        assert(s@ =~= int_decimal(n as int));
        s
    } else {
        u64_to_string(n as u64)
    }
}

} // verus!
