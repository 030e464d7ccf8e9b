//! Verified decimal rendering and parsing of integers.

use vstd::prelude::*;
use vstd::string::StringExecFns;

verus! {

pub open spec fn is_ascii_digit(c: char) -> bool {
    c == '0' || c == '1' || c == '2' || c == '3' || c == '4' || c == '5' || c == '6' || c == '7'
        || c == '8' || c == '9'
}

pub open spec fn digit_val(c: char) -> int {
    match c {
        '0' => 0,
        '1' => 1,
        '2' => 2,
        '3' => 3,
        '4' => 4,
        '5' => 5,
        '6' => 6,
        '7' => 7,
        '8' => 8,
        '9' => 9,
        _ => 0,
    }
}

pub open spec fn dec_digit(d: int) -> char {
    if d == 0 {
        '0'
    } else if d == 1 {
        '1'
    } else if d == 2 {
        '2'
    } else if d == 3 {
        '3'
    } else if d == 4 {
        '4'
    } else if d == 5 {
        '5'
    } else if d == 6 {
        '6'
    } else if d == 7 {
        '7'
    } else if d == 8 {
        '8'
    } else if d == 9 {
        '9'
    } else {
        '0'
    }
}

/// Decimal rendering of a non-negative integer, most significant digit
/// first, without leading zeros (except for zero itself).
pub open spec fn dec_str(n: nat) -> Seq<char>
    decreases n,
{
    if n < 10 {
        seq![dec_digit(n as int)]
    } else {
        dec_str(n / 10) + seq![dec_digit((n % 10) as int)]
    }
}

/// Decimal rendering of a possibly negative integer.
pub open spec fn int_str(i: int) -> Seq<char> {
    if i < 0 {
        seq!['-'] + dec_str((-i) as nat)
    } else {
        dec_str(i as nat)
    }
}

/// Numeric value of a digit string (0 for the empty string).
pub open spec fn dec_value(s: Seq<char>) -> int
    decreases s.len(),
{
    if s.len() == 0 {
        0
    } else {
        dec_value(s.drop_last()) * 10 + digit_val(s.last())
    }
}

pub open spec fn all_digits(s: Seq<char>) -> bool {
    forall|i: int| 0 <= i < s.len() ==> is_ascii_digit(#[trigger] s[i])
}

/// A digit string's value only grows as more digits are appended.
pub proof fn lemma_dec_value_prefix_le(s: Seq<char>, i: int)
    requires
        0 <= i <= s.len(),
        all_digits(s),
    ensures
        dec_value(s.subrange(0, i)) <= dec_value(s),
        dec_value(s) >= 0,
    decreases s.len() - i,
{
    if i == s.len() {
        assert(s.subrange(0, i) =~= s);
        lemma_dec_value_nonneg(s);
    } else {
        lemma_dec_value_prefix_le(s, i + 1);
        let p = s.subrange(0, i);
        let q = s.subrange(0, i + 1);
        assert(q.drop_last() =~= p);
        lemma_dec_value_nonneg(p);
    }
}

pub proof fn lemma_dec_value_nonneg(s: Seq<char>)
    ensures
        dec_value(s) >= 0,
    decreases s.len(),
{
    if s.len() > 0 {
        lemma_dec_value_nonneg(s.drop_last());
    }
}

pub proof fn lemma_dec_str_len(n: nat)
    ensures
        dec_str(n).len() >= 1,
        n >= 10 ==> dec_str(n).len() >= 2,
    decreases n,
{
    if n >= 10 {
        lemma_dec_str_len(n / 10);
    }
}

/// Decimal rendering is injective: distinct numbers render distinctly.
pub proof fn lemma_dec_str_injective(a: nat, b: nat)
    requires
        dec_str(a) == dec_str(b),
    ensures
        a == b,
    decreases a + b,
{
    lemma_dec_str_len(a);
    lemma_dec_str_len(b);
    if a < 10 && b < 10 {
        assert(dec_str(a)[0] == dec_digit(a as int));
        assert(dec_str(b)[0] == dec_digit(b as int));
    } else if a < 10 {
        assert(dec_str(a).len() == 1);
    } else if b < 10 {
        assert(dec_str(b).len() == 1);
    } else {
        assert(dec_str(a).last() == dec_digit((a % 10) as int));
        assert(dec_str(b).last() == dec_digit((b % 10) as int));
        assert(dec_str(a).drop_last() =~= dec_str(a / 10));
        assert(dec_str(b).drop_last() =~= dec_str(b / 10));
        lemma_dec_str_injective(a / 10, b / 10);
        assert(a % 10 == b % 10);
    }
}

fn digit_str(d: u64) -> (r: &'static str)
    requires
        d < 10,
    ensures
        r@ == seq![dec_digit(d as int)],
{
    proof {
        reveal_strlit("0");
        reveal_strlit("1");
        reveal_strlit("2");
        reveal_strlit("3");
        reveal_strlit("4");
        reveal_strlit("5");
        reveal_strlit("6");
        reveal_strlit("7");
        reveal_strlit("8");
        reveal_strlit("9");
    }
    let r = if d == 0 {
        "0"
    } else if d == 1 {
        "1"
    } else if d == 2 {
        "2"
    } else if d == 3 {
        "3"
    } else if d == 4 {
        "4"
    } else if d == 5 {
        "5"
    } else if d == 6 {
        "6"
    } else if d == 7 {
        "7"
    } else if d == 8 {
        "8"
    } else {
        "9"
    };
    proof {
        assert(r@ =~= seq![dec_digit(d as int)]);
    }
    r
}

/// Decimal rendering of a `u64`.
pub fn u64_to_string(n: u64) -> (r: String)
    ensures
        r@ == dec_str(n as nat),
    decreases n,
{
    if n < 10 {
        String::from_str(digit_str(n))
    } else {
        let mut s = u64_to_string(n / 10);
        s.append(digit_str(n % 10));
        proof {
            assert(s@ =~= dec_str(n as nat));
        }
        s
    }
}

/// Decimal rendering of an `i32` (with a leading minus sign if negative).
pub fn i32_to_string(n: i32) -> (r: String)
    ensures
        r@ == int_str(n as int),
{
    if n >= 0 {
        u64_to_string(n as u64)
    } else {
        let magnitude: u64 = (-(n as i64)) as u64;
        let mut s = String::from_str("-");
        let t = u64_to_string(magnitude);
        s.append(t.as_str());
        proof {
            reveal_strlit("-");
            assert(s@ =~= int_str(n as int));
        }
        s
    }
}

/// Parse a `u16` from the digits of `v[from..to]`. Returns the value when
/// the range is non-empty, holds only digits, and fits; `None` otherwise.
pub fn parse_u16_digits(v: &Vec<char>, from: usize, to: usize) -> (r: Option<u16>)
    requires
        from <= to <= v@.len(),
    ensures
        ({
            let s = v@.subrange(from as int, to as int);
            if s.len() > 0 && all_digits(s) && dec_value(s) <= u16::MAX {
                r == Some(dec_value(s) as u16)
            } else {
                r is None
            }
        }),
{
    let ghost s = v@.subrange(from as int, to as int);
    if from == to {
        return None;
    }
    let mut acc: u32 = 0;
    let mut i: usize = from;
    while i < to
        invariant
            from <= i <= to <= v@.len(),
            s == v@.subrange(from as int, to as int),
            acc <= u16::MAX,
            all_digits(s.subrange(0, i - from)),
            acc == dec_value(s.subrange(0, i - from)),
        decreases to - i,
    {
        let c = v[i];
        let d: u32 = match c {
            '0' => 0,
            '1' => 1,
            '2' => 2,
            '3' => 3,
            '4' => 4,
            '5' => 5,
            '6' => 6,
            '7' => 7,
            '8' => 8,
            '9' => 9,
            _ => 10,
        };
        if d == 10 {
            proof {
                assert(s[i - from] == v@[i as int]);
                assert(!is_ascii_digit(s[i - from]));
            }
            return None;
        }
        proof {
            assert(s.subrange(0, i + 1 - from).drop_last() =~= s.subrange(0, i - from));
            assert(s.subrange(0, i + 1 - from).last() == v@[i as int]);
        }
        acc = acc * 10 + d;
        i = i + 1;
        if acc > 65535 {
            proof {
                let p = s.subrange(0, i - from);
                if all_digits(s) && dec_value(s) <= u16::MAX {
                    lemma_dec_value_prefix_le(s, i - from);
                    assert(dec_value(p) <= dec_value(s));
                }
            }
            return None;
        }
    }
    proof {
        assert(s.subrange(0, to - from) =~= s);
    }
    Some(acc as u16)
}

/// Parse a `u64` from all of `v`, as version tags use it: the value when
/// the text is non-empty, digits only, and fits in a `u64`; `0` otherwise.
pub fn parse_u64_or_zero(v: &Vec<char>) -> (r: u64)
    ensures
        r == ({
            let s = v@;
            if s.len() > 0 && all_digits(s) && dec_value(s) <= u64::MAX {
                dec_value(s) as u64
            } else {
                0
            }
        }),
{
    let n = v.len();
    if n == 0 {
        return 0;
    }
    let mut acc: u64 = 0;
    let mut i: usize = 0;
    while i < n
        invariant
            i <= n,
            n == v@.len(),
            acc <= u64::MAX,
            all_digits(v@.subrange(0, i as int)),
            acc == dec_value(v@.subrange(0, i as int)),
        decreases n - i,
    {
        let c = v[i];
        let d: u64 = match c {
            '0' => 0,
            '1' => 1,
            '2' => 2,
            '3' => 3,
            '4' => 4,
            '5' => 5,
            '6' => 6,
            '7' => 7,
            '8' => 8,
            '9' => 9,
            _ => 10,
        };
        if d == 10 {
            proof {
                assert(!is_ascii_digit(v@[i as int]));
            }
            return 0;
        }
        if acc > (u64::MAX - d) / 10 {
            proof {
                let p = v@.subrange(0, i as int);
                let q = v@.subrange(0, i + 1);
                assert(q.drop_last() =~= p);
                assert(q.last() == v@[i as int]);
                assert(dec_value(q) > u64::MAX) by (nonlinear_arith)
                    requires
                        dec_value(q) == dec_value(p) * 10 + digit_val(v@[i as int]),
                        digit_val(v@[i as int]) == d,
                        acc == dec_value(p),
                        0 <= d < 10,
                        acc > (u64::MAX - d) / 10,
                        acc <= u64::MAX,
                ;
                if all_digits(v@) && dec_value(v@) <= u64::MAX {
                    lemma_dec_value_prefix_le(v@, i + 1);
                }
            }
            return 0;
        }
        proof {
            assert(v@.subrange(0, i + 1).drop_last() =~= v@.subrange(0, i as int));
            assert(v@.subrange(0, i + 1).last() == v@[i as int]);
        }
        acc = acc * 10 + d;
        i = i + 1;
    }
    proof {
        assert(v@.subrange(0, n as int) =~= v@);
    }
    acc
}

} // verus!
