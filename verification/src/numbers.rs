//! Verified conversion of captured text into typed field values: unsigned
//! decimal numbers and four-octet network addresses.
use vstd::prelude::*;

use crate::Ipv4;
use crate::text::chars_of;

verus! {

/// A decimal digit: code points 48 through 57 are '0' through '9'.
pub open spec fn is_digit(c: char) -> bool {
    48 <= c as u32 <= 57
}

/// The numeric value of one decimal digit.
pub open spec fn digit_val(c: char) -> int {
    c as u32 - 48
}

pub open spec fn all_digits(s: Seq<char>) -> bool {
    forall|i: int| 0 <= i < s.len() ==> is_digit(#[trigger] s[i])
}

/// The value of a digit string read as a decimal number.
pub open spec fn digits_val(s: Seq<char>) -> int
    decreases s.len(),
{
    if s.len() == 0 {
        0
    } else {
        digits_val(s.drop_last()) * 10 + digit_val(s.last())
    }
}

/// What a nonempty, all-digit string of text denotes as an unsigned 64-bit
/// number; `None` where the text is empty, has a non-digit, or overflows.
pub open spec fn spec_parse_u64(s: Seq<char>) -> Option<u64> {
    if s.len() > 0 && all_digits(s) && digits_val(s) <= u64::MAX {
        Some(digits_val(s) as u64)
    } else {
        None
    }
}

pub proof fn lemma_digits_val_nonneg(s: Seq<char>)
    requires
        all_digits(s),
    ensures
        digits_val(s) >= 0,
    decreases s.len(),
{
    if s.len() == 0 {
    } else {
        assert(all_digits(s.drop_last()));
        lemma_digits_val_nonneg(s.drop_last());
    }
}

/// Reading more digits never lowers the value.
pub proof fn lemma_digits_prefix_le(s: Seq<char>, i: int, j: int)
    requires
        0 <= i <= j <= s.len(),
        all_digits(s.subrange(0, j)),
    ensures
        digits_val(s.subrange(0, i)) <= digits_val(s.subrange(0, j)),
    decreases j - i,
{
    if i == j {
    } else {
        assert(s.subrange(0, j).drop_last() =~= s.subrange(0, j - 1));
        assert(all_digits(s.subrange(0, j - 1)));
        lemma_digits_val_nonneg(s.subrange(0, j - 1));
        lemma_digits_prefix_le(s, i, j - 1);
        assert(s.subrange(0, j).last() == s[j - 1]);
        assert(is_digit(s.subrange(0, j)[j - 1]));
    }
}

/// Parse a decimal number, exactly where the text is nonempty, all digits,
/// and fits in 64 bits.
pub fn parse_u64(s: &Vec<char>) -> (r: Option<u64>)
    ensures
        r == spec_parse_u64(s@),
{
    let n = s.len();
    if n == 0 {
        return None;
    }
    let mut acc: u64 = 0;
    let mut i: usize = 0;
    while i < n
        invariant
            n == s@.len(),
            i <= n,
            all_digits(s@.subrange(0, i as int)),
            acc == digits_val(s@.subrange(0, i as int)),
        decreases n - i,
    {
        let c = s[i];
        let u = c as u32;
        if u < 48 || u > 57 {
            proof {
                assert(!is_digit(s@[i as int]));
                assert(!all_digits(s@));
            }
            return None;
        }
        let d = (u - 48) as u64;
        proof {
            assert(s@.subrange(0, i + 1).drop_last() =~= s@.subrange(0, i as int));
            assert(s@.subrange(0, i + 1).last() == s@[i as int]);
            assert(all_digits(s@.subrange(0, i + 1)));
        }
        if acc > (u64::MAX - d) / 10 {
            proof {
                assert(acc * 10 + d > u64::MAX) by (nonlinear_arith)
                    requires
                        acc > (u64::MAX - d) / 10,
                        0 <= d <= 9,
                ;
                if all_digits(s@) {
                    assert(s@.subrange(0, n as int) =~= s@);
                    lemma_digits_prefix_le(s@, i + 1, n as int);
                    assert(digits_val(s@) > u64::MAX);
                }
            }
            return None;
        }
        proof {
            assert(acc * 10 + d <= u64::MAX) by (nonlinear_arith)
                requires
                    acc <= (u64::MAX - d) / 10,
                    0 <= d <= 9,
            ;
        }
        acc = acc * 10 + d;
        i = i + 1;
    }
    proof {
        assert(s@.subrange(0, n as int) =~= s@);
    }
    Some(acc)
}

/// One octet of an address as text: one to three digits, at most 255, with
/// no leading zero.
pub open spec fn valid_octet(p: Seq<char>) -> bool {
    &&& 1 <= p.len() <= 3
    &&& all_digits(p)
    &&& digits_val(p) <= 255
    &&& (p.len() > 1 ==> p[0] != '0')
}

/// The least position `i >= from` holding a dot.
pub open spec fn dot_from(s: Seq<char>, from: int) -> Option<int>
    decreases s.len() - from,
{
    if from < 0 || from >= s.len() {
        None
    } else if s[from] == '.' {
        Some(from)
    } else {
        dot_from(s, from + 1)
    }
}

/// What a piece of text denotes as a four-octet address: four valid octets
/// joined by exactly three dots.
pub open spec fn spec_parse_ipv4(s: Seq<char>) -> Option<Ipv4> {
    match dot_from(s, 0) {
        None => None,
        Some(i) => match dot_from(s, i + 1) {
            None => None,
            Some(j) => match dot_from(s, j + 1) {
                None => None,
                Some(k) => {
                    let p0 = s.subrange(0, i);
                    let p1 = s.subrange(i + 1, j);
                    let p2 = s.subrange(j + 1, k);
                    let p3 = s.subrange(k + 1, s.len() as int);
                    if dot_from(s, k + 1) is None && valid_octet(p0) && valid_octet(p1)
                        && valid_octet(p2) && valid_octet(p3) {
                        Some(
                            Ipv4 {
                                a: digits_val(p0) as u8,
                                b: digits_val(p1) as u8,
                                c: digits_val(p2) as u8,
                                d: digits_val(p3) as u8,
                            },
                        )
                    } else {
                        None
                    }
                },
            },
        },
    }
}

fn find_dot(s: &Vec<char>, from: usize) -> (r: Option<usize>)
    requires
        from <= s@.len(),
    ensures
        r matches Some(i) ==> from <= i && i < s@.len() && dot_from(s@, from as int) == Some(
            i as int,
        ),
        r is None ==> dot_from(s@, from as int) is None,
{
    let n = s.len();
    let mut i = from;
    while i < n
        invariant
            n == s@.len(),
            from <= i <= n,
            dot_from(s@, from as int) == dot_from(s@, i as int),
        decreases n - i,
    {
        if s[i] == '.' {
            proof {
                assert(dot_from(s@, i as int) == Some(i as int));
            }
            return Some(i);
        }
        proof {
            assert(dot_from(s@, i as int) == dot_from(s@, i + 1));
        }
        i = i + 1;
    }
    proof {
        assert(dot_from(s@, i as int) is None);
    }
    None
}

/// Parse one octet out of `s[from..to]`.
fn parse_octet(s: &Vec<char>, from: usize, to: usize) -> (r: Option<u8>)
    requires
        from <= to <= s@.len(),
    ensures
        r matches Some(v) ==> valid_octet(s@.subrange(from as int, to as int)) && v as int
            == digits_val(s@.subrange(from as int, to as int)),
        r is None ==> !valid_octet(s@.subrange(from as int, to as int)),
{
    let ghost p = s@.subrange(from as int, to as int);
    let len = to - from;
    if len < 1 || len > 3 {
        return None;
    }
    if len > 1 && s[from] == '0' {
        proof {
            assert(p[0] == s@[from as int]);
        }
        return None;
    }
    let mut acc: u32 = 0;
    let mut i: usize = 0;
    while i < len
        invariant
            from + len <= s@.len(),
            p == s@.subrange(from as int, to as int),
            len == to - from,
            i <= len <= 3,
            all_digits(p.subrange(0, i as int)),
            acc == digits_val(p.subrange(0, i as int)),
            i == 0 ==> acc == 0,
            i == 1 ==> acc <= 9,
            i == 2 ==> acc <= 99,
            i == 3 ==> acc <= 999,
        decreases len - i,
    {
        let c = s[from + i];
        let u = c as u32;
        proof {
            assert(p[i as int] == s@[from + i]);
        }
        if u < 48 || u > 57 {
            proof {
                assert(!is_digit(p[i as int]));
                assert(!all_digits(p));
            }
            return None;
        }
        proof {
            assert(p.subrange(0, i + 1).drop_last() =~= p.subrange(0, i as int));
            assert(p.subrange(0, i + 1).last() == p[i as int]);
            assert(all_digits(p.subrange(0, i + 1)));
        }
        acc = acc * 10 + (u - 48);
        i = i + 1;
    }
    proof {
        assert(p.subrange(0, len as int) =~= p);
    }
    if acc > 255 {
        return None;
    }
    Some(acc as u8)
}

/// Parse a four-octet address, exactly where the text is four valid octets
/// joined by three dots.
pub fn parse_ipv4(s: &Vec<char>) -> (r: Option<Ipv4>)
    ensures
        r == spec_parse_ipv4(s@),
{
    let n = s.len();
    let d0 = match find_dot(s, 0) {
        None => {
            return None;
        },
        Some(i) => i,
    };
    let d1 = match find_dot(s, d0 + 1) {
        None => {
            return None;
        },
        Some(i) => i,
    };
    let d2 = match find_dot(s, d1 + 1) {
        None => {
            return None;
        },
        Some(i) => i,
    };
    match find_dot(s, d2 + 1) {
        Some(_) => {
            return None;
        },
        None => {},
    }
    let o0 = parse_octet(s, 0, d0);
    let o1 = parse_octet(s, d0 + 1, d1);
    let o2 = parse_octet(s, d1 + 1, d2);
    let o3 = parse_octet(s, d2 + 1, n);
    match (o0, o1, o2, o3) {
        (Some(a), Some(b), Some(c), Some(d)) => Some(Ipv4 { a, b, c, d }),
        _ => None,
    }
}

/// Parse a decimal number out of a string slice.
pub fn parse_u64_str(s: &str) -> (r: Option<u64>)
    ensures
        r == spec_parse_u64(s@),
{
    let v = chars_of(s);
    parse_u64(&v)
}

/// Parse a four-octet address out of a string slice.
pub fn parse_ipv4_str(s: &str) -> (r: Option<Ipv4>)
    ensures
        r == spec_parse_ipv4(s@),
{
    let v = chars_of(s);
    parse_ipv4(&v)
}

} // verus!
