//! Numbers in decimal notation, as servers write them.

#[allow(unused_imports)]
use crate::text::{decimal, digit, signed_decimal};
use crate::text::chars_of;
use vstd::prelude::*;

verus! {

/// A decimal digit.
pub open spec fn is_digit(c: char) -> bool {
    '0' <= c && c <= '9'
}

/// Only decimal digits, and at least one.
pub open spec fn is_digits(s: Seq<char>) -> bool {
    s.len() > 0 && forall|i: int| 0 <= i < s.len() ==> is_digit(#[trigger] s[i])
}

/// The number that these digits stand for.
pub open spec fn digits_value(s: Seq<char>) -> nat
    decreases s.len(),
{
    if s.len() == 0 {
        0
    } else {
        10 * digits_value(s.drop_last()) + (s.last() as int - '0' as int) as nat
    }
}

/// The number that a text stands for: digits with a sign in front, or without one.
pub open spec fn number_value(s: Seq<char>) -> Option<int> {
    if s.len() > 0 && s[0] == '-' && is_digits(s.skip(1)) {
        Some(-(digits_value(s.skip(1)) as int))
    } else if s.len() > 0 && s[0] == '+' && is_digits(s.skip(1)) {
        Some(digits_value(s.skip(1)) as int)
    } else if is_digits(s) {
        Some(digits_value(s) as int)
    } else {
        None
    }
}

/// The value of the digits from `from` on, if they are digits and the value is no larger than
/// `max`.
fn parse_digits(s: &Vec<char>, from: usize, max: u64) -> (r: Option<u64>)
    requires
        from <= s@.len(),
        max <= 0xFFFF_FFFF,
    ensures
        r == if is_digits(s@.skip(from as int)) && digits_value(s@.skip(from as int)) <= max {
            Some(digits_value(s@.skip(from as int)) as u64)
        } else {
            None
        },
{
    let ghost digits = s@.skip(from as int);
    if from >= s.len() {
        return None;
    }
    let mut value: u64 = 0;
    let mut too_large = false;
    let mut i: usize = from;
    assert(digits.take(0) == Seq::<char>::empty());
    while i < s.len()
        invariant
            from <= i <= s@.len(),
            max <= 0xFFFF_FFFF,
            digits == s@.skip(from as int),
            forall|k: int| 0 <= k < i - from ==> is_digit(#[trigger] digits[k]),
            if too_large {
                digits_value(digits.take(i - from)) > max
            } else {
                value == digits_value(digits.take(i - from)) && value <= max
            },
        decreases s@.len() - i,
    {
        let c = s[i];
        assert(digits[i - from] == c);
        if c < '0' || c > '9' {
            return None;
        }
        assert(digits.take(i + 1 - from).drop_last() == digits.take(i - from));
        let d: u64 = (c as u64) - 48;
        if !too_large {
            value = value * 10 + d;
            if value > max {
                too_large = true;
            }
        }
        i = i + 1;
    }
    assert(digits.take(digits.len() as int) == digits);
    if too_large {
        None
    } else {
        Some(value)
    }
}

/// The unsigned number of 32 bits that a text stands for, if it stands for one.
pub fn parse_u32(text: &str) -> (r: Option<u32>)
    ensures
        r == match number_value(text@) {
            Some(n) => if text@[0] != '-' && n <= u32::MAX {
                Some(n as u32)
            } else {
                None
            },
            None => None,
        },
{
    let s = chars_of(text);
    let mut from: usize = 0;
    if s.len() > 0 {
        if s[0] == '+' {
            from = 1;
        }
        proof {
            if s@[0] == '+' || s@[0] == '-' {
                assert(!is_digit(s@[0]));
            }
        }
    }
    assert(s@.skip(0) == s@);
    match parse_digits(&s, from, 0xFFFF_FFFF) {
        Some(n) => Some(n as u32),
        None => None,
    }
}

/// The signed number of 32 bits that a text stands for, if it stands for one.
pub fn parse_i32(text: &str) -> (r: Option<i32>)
    ensures
        r == match number_value(text@) {
            Some(n) => if i32::MIN <= n <= i32::MAX {
                Some(n as i32)
            } else {
                None
            },
            None => None,
        },
{
    let s = chars_of(text);
    assert(s@.skip(0) == s@);
    if s.len() > 0 {
        proof {
            if s@[0] == '+' || s@[0] == '-' {
                assert(!is_digit(s@[0]));
            }
        }
        if s[0] == '-' {
            return match parse_digits(&s, 1, 0x8000_0000) {
                Some(n) => Some((-(n as i64)) as i32),
                None => None,
            };
        }
        if s[0] == '+' {
            return match parse_digits(&s, 1, 0x7FFF_FFFF) {
                Some(n) => Some(n as i32),
                None => None,
            };
        }
    }
    match parse_digits(&s, 0, 0x7FFF_FFFF) {
        Some(n) => Some(n as i32),
        None => None,
    }
}

/// What is written as a number reads as that number.
pub proof fn numbers_round_trip(n: nat)
    ensures
        is_digits(decimal(n)),
        digits_value(decimal(n)) == n,
        number_value(decimal(n)) == Some(n as int),
        decimal(n)[0] != '-',
    decreases n,
{
    lemma_decimal(n);
    assert(is_digit(decimal(n)[0]));
}

proof fn lemma_decimal(n: nat)
    ensures
        is_digits(decimal(n)),
        digits_value(decimal(n)) == n,
    decreases n,
{
    if n < 10 {
        assert(seq![digit(n)].drop_last() == Seq::<char>::empty());
        reveal_with_fuel(digits_value, 2);
    } else {
        lemma_decimal(n / 10);
        let shorter = decimal(n / 10);
        let last = digit(n % 10);
        assert(is_digit(last) && last as int - '0' as int == n % 10);
        assert(shorter.push(last).drop_last() == shorter);
        assert forall|i: int| 0 <= i < decimal(n).len() implies is_digit(
            #[trigger] decimal(n)[i],
        ) by {
            if i < shorter.len() {
                assert(decimal(n)[i] == shorter[i]);
            }
        }
    }
}

/// A sign in front of digits is read as one, a text that holds anything but digits behind it is no
/// number, and another digit makes a number ten times as large and adds its value.
pub proof fn numbers_are_read_digit_by_digit(s: Seq<char>, c: char)
    requires
        is_digits(s),
        '0' <= c && c <= '9',
    ensures
        number_value(s.push(c)) == Some(10 * number_value(s)->Some_0 + (c as int - 48)),
        number_value(seq!['-'] + s) == Some(-number_value(s)->Some_0),
        number_value(seq!['+'] + s) == number_value(s),
        number_value(s.push('x')) is None,
        number_value(Seq::<char>::empty()) is None,
{
    let p = s.push(c);
    assert(p.drop_last() == s);
    assert forall|i: int| 0 <= i < p.len() implies is_digit(#[trigger] p[i]) by {
        if i < s.len() {
            assert(p[i] == s[i]);
        }
    }
    assert(is_digit(s[0]));
    assert(p[0] == s[0]);
    assert((seq!['-'] + s).skip(1) == s);
    assert((seq!['+'] + s).skip(1) == s);
    let x = s.push('x');
    assert(x[0] == s[0]);
    assert(!is_digit(x[s.len() as int]));
    assert(!is_digits(x));
}

} // verus!
