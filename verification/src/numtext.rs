//! Decimal rendering of integers, used to build composite lookup keys and
//! templated request paths.

use vstd::prelude::*;
use vstd::string::*;

verus! {

/// The decimal digit character for a value below ten.
pub open spec fn spec_digit_char(d: int) -> char {
    if d == 0 {
        '0'
    } else if d == 1 {
        '1'
    } else if d == 2 {
        '2'
    } else if d == 3 {
        '3'
    } else if d == 4 {
        '4'
    } else if d == 5 {
        '5'
    } else if d == 6 {
        '6'
    } else if d == 7 {
        '7'
    } else if d == 8 {
        '8'
    } else {
        '9'
    }
}

/// The decimal rendering of a non-negative integer, most significant digit
/// first.
pub open spec fn spec_decimal(n: nat) -> Seq<char>
    decreases n,
{
    if n < 10 {
        seq![spec_digit_char(n as int)]
    } else {
        spec_decimal(n / 10).push(spec_digit_char((n % 10) as int))
    }
}

/// The decimal rendering of a signed integer: a minus sign followed by the
/// digits when negative.
pub open spec fn spec_decimal_signed(n: int) -> Seq<char> {
    if n >= 0 {
        spec_decimal(n as nat)
    } else {
        seq!['-'] + spec_decimal((-n) as nat)
    }
}

fn digit_str(d: u64) -> (s: &'static str)
    requires
        d < 10,
    ensures
        s@ == seq![spec_digit_char(d as int)],
{
    proof {
        reveal_strlit("0");
        reveal_strlit("1");
        reveal_strlit("2");
        reveal_strlit("3");
        reveal_strlit("4");
        reveal_strlit("5");
        reveal_strlit("6");
        reveal_strlit("7");
        reveal_strlit("8");
        reveal_strlit("9");
    }
    let s: &'static str = if d == 0 {
        "0"
    } else if d == 1 {
        "1"
    } else if d == 2 {
        "2"
    } else if d == 3 {
        "3"
    } else if d == 4 {
        "4"
    } else if d == 5 {
        "5"
    } else if d == 6 {
        "6"
    } else if d == 7 {
        "7"
    } else if d == 8 {
        "8"
    } else {
        "9"
    };
    proof {
        assert(s@ =~= seq![spec_digit_char(d as int)]);
    }
    s
}

/// Renders an unsigned value in decimal.
pub fn u64_to_string(n: u64) -> (s: String)
    ensures
        s@ == spec_decimal(n as nat),
    decreases n,
{
    if n < 10 {
        String::from_str(digit_str(n))
    } else {
        let prefix = u64_to_string(n / 10);
        let s = prefix.concat(digit_str(n % 10));
        proof {
            assert(s@ =~= spec_decimal((n / 10) as nat).push(spec_digit_char((n % 10) as int)));
        }
        s
    }
}

/// Renders a signed value in decimal.
pub fn i32_to_string(n: i32) -> (s: String)
    ensures
        s@ == spec_decimal_signed(n as int),
{
    if n >= 0 {
        u64_to_string(n as u64)
    } else {
        let m: u64 = (-(n as i64)) as u64;
        proof {
            reveal_strlit("-");
        }
        let digits = u64_to_string(m);
        let s = String::from_str("-").concat(digits.as_str());
        proof {
            assert(s@ =~= seq!['-'] + spec_decimal((-(n as int)) as nat));
        }
        s
    }
}


/// Whether every character is a decimal digit, and there is at least one.
pub open spec fn is_digits(s: Seq<char>) -> bool {
    s.len() > 0 && forall|i: int| 0 <= i < s.len() ==> '0' <= #[trigger] s[i] <= '9'
}

/// The value of a digit string, leading zeros allowed.
pub open spec fn digits_value(s: Seq<char>) -> int
    decreases s.len(),
{
    if s.len() == 0 {
        0
    } else {
        digits_value(s.drop_last()) * 10 + (s.last() as int - '0' as int)
    }
}

/// What std's decimal parse accepts: an optional sign followed by digits.
pub open spec fn spec_parse_signed(s: Seq<char>) -> Option<int> {
    if s.len() > 0 && (s.first() == '-' || s.first() == '+') {
        if is_digits(s.drop_first()) {
            if s.first() == '-' {
                Some(-digits_value(s.drop_first()))
            } else {
                Some(digits_value(s.drop_first()))
            }
        } else {
            None
        }
    } else if is_digits(s) {
        Some(digits_value(s))
    } else {
        None
    }
}

proof fn lemma_digits_value_nonneg(s: Seq<char>)
    requires
        forall|i: int| 0 <= i < s.len() ==> '0' <= #[trigger] s[i] <= '9',
    ensures
        digits_value(s) >= 0,
    decreases s.len(),
{
    if s.len() > 0 {
        lemma_digits_value_nonneg(s.drop_last());
    }
}

/// Parses a decimal integer exactly as std does: an optional sign and at
/// least one digit, with any number of leading zeros; `None` on any other
/// shape and on a value outside the target range.
pub fn parse_i32(s: &str) -> (r: Option<i32>)
    ensures
        r is Some <==> (spec_parse_signed(s@) matches Some(v) && i32::MIN <= v <= i32::MAX),
        r matches Some(x) ==> spec_parse_signed(s@) == Some(x as int),
{
    let total = s.unicode_len();
    if total == 0 {
        return None;
    }
    let first = s.get_char(0);
    let negative = first == '-';
    let start: usize = if first == '-' || first == '+' {
        1
    } else {
        0
    };
    if start == total {
        return None;
    }
    // The accumulator saturates just above the target range: past that
    // point the exact value no longer matters, only that it is out of
    // range.
    let cap: i64 = 0x1_0000_0000;
    let mut acc: i64 = 0;
    let mut j = start;
    while j < total
        invariant
            start <= j <= total,
            total == s@.len(),
            start < total,
            start == 0 || start == 1,
            start == 0 ==> !(s@.first() == '-' || s@.first() == '+'),
            start == 1 ==> (s@.first() == '-' || s@.first() == '+'),
            cap == 0x1_0000_0000,
            forall|i: int| start <= i < j ==> '0' <= #[trigger] s@[i] <= '9',
            0 <= acc <= cap,
            digits_value(s@.subrange(start as int, j as int)) < cap ==> acc == digits_value(
                s@.subrange(start as int, j as int),
            ),
            digits_value(s@.subrange(start as int, j as int)) >= cap ==> acc == cap,
        decreases total - j,
    {
        let c = s.get_char(j);
        if c < '0' || c > '9' {
            proof {
                if start == 0 {
                    assert(!('0' <= s@[j as int] <= '9'));
                    assert(!is_digits(s@));
                } else {
                    assert(s@.drop_first() =~= s@.subrange(1, total as int));
                    assert(s@.drop_first()[j - 1] == s@[j as int]);
                    assert(!is_digits(s@.drop_first()));
                }
            }
            return None;
        }
        let d: i64 = (c as u32 as i64) - ('0' as u32 as i64);
        proof {
            let prefix = s@.subrange(start as int, j as int);
            let extended = s@.subrange(start as int, j + 1);
            assert(extended.drop_last() =~= prefix);
            assert(extended.last() == s@[j as int]);
            lemma_digits_value_nonneg(prefix);
        }
        let t = acc * 10 + d;
        if t >= cap {
            acc = cap;
        } else {
            acc = t;
        }
        j = j + 1;
    }
    proof {
        assert(s@.subrange(start as int, total as int) =~= if start == 0 {
            s@
        } else {
            s@.drop_first()
        });
        lemma_digits_value_nonneg(s@.subrange(start as int, total as int));
    }
    if negative {
        if acc > 2147483648 {
            None
        } else {
            Some((-acc) as i32)
        }
    } else {
        if acc > 2147483647 {
            None
        } else {
            Some(acc as i32)
        }
    }
}


} // verus!
