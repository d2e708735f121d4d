//! What the bot is configured with: numbers out of the environment.

use crate::text::{chars_of, decimal, digit, trim, trimmed};
use vstd::prelude::*;

verus! {

/// The port of the health check where none is configured.
pub const DEFAULT_PORT: u16 = 8080;

/// What the health check answers.
pub const HEALTH_RESPONSE: &'static str =
    "HTTP/1.1 200 OK\r\nContent-Type: text/plain\r\nContent-Length: 2\r\n\r\nOK";

/// Whether `c` is a decimal digit.
pub open spec fn is_digit(c: char) -> bool {
    '0' <= c <= '9'
}

/// Whether `s` is a string of at least one digit.
pub open spec fn all_digits(s: Seq<char>) -> bool {
    s.len() > 0 && forall|i: int| 0 <= i < s.len() ==> is_digit(#[trigger] s[i])
}

/// The number that a string of digits stands for.
pub open spec fn digits_value(s: Seq<char>) -> nat
    decreases s.len(),
{
    if s.len() == 0 {
        0
    } else {
        10 * digits_value(s.drop_last()) + (s.last() as nat - '0' as nat) as nat
    }
}

/// The number that `s` stands for: digits, with a plus sign before them, or with a
/// minus sign where numbers may be negative.
pub open spec fn integer_of(s: Seq<char>, negative: bool) -> Option<int> {
    if s.len() > 0 && (s[0] == '+' || (negative && s[0] == '-')) {
        if all_digits(s.skip(1)) {
            Some(
                if s[0] == '-' {
                    -(digits_value(s.skip(1)) as int)
                } else {
                    digits_value(s.skip(1)) as int
                },
            )
        } else {
            None
        }
    } else if all_digits(s) {
        Some(digits_value(s) as int)
    } else {
        None
    }
}

/// The number that `s` stands for, if it is one from `min` to `max`.
pub open spec fn integer_within(s: Seq<char>, min: int, max: int) -> Option<int> {
    match integer_of(s, min < 0) {
        Some(n) => if min <= n <= max {
            Some(n)
        } else {
            None
        },
        None => None,
    }
}

/// The number that the digits from `from` on stand for, if they are digits and it
/// is no larger than `max`.
fn read_digits(chars: &Vec<char>, from: usize, max: u64) -> (value: Option<u64>)
    requires
        from <= chars@.len(),
        max < 0x1_0000_0000,
    ensures
        match value {
            Some(n) => {
                &&& all_digits(chars@.skip(from as int))
                &&& n == digits_value(chars@.skip(from as int))
                &&& n <= max
            },
            None => {
                ||| !all_digits(chars@.skip(from as int))
                ||| digits_value(chars@.skip(from as int)) > max
            },
        },
{
    let ghost s = chars@.skip(from as int);
    let n: usize = chars.len();
    if from == n {
        return None;
    }
    let mut value: u64 = 0;
    let mut large = false;
    let mut i: usize = from;
    while i < n
        invariant
            from <= i <= n,
            n == chars@.len(),
            s == chars@.skip(from as int),
            max < 0x1_0000_0000,
            forall|j: int| 0 <= j < i - from ==> is_digit(#[trigger] s[j]),
            large ==> digits_value(s.take(i - from)) > max,
            !large ==> value == digits_value(s.take(i - from)) && value <= max,
        decreases n - i,
    {
        let c = chars[i];
        assert(s[i - from] == c);
        if c < '0' || c > '9' {
            assert(!is_digit(s[i - from]));
            return None;
        }
        let d: u64 = c as u64 - '0' as u64;
        assert(s.take(i - from + 1).drop_last() =~= s.take(i - from));
        if !large {
            value = value * 10 + d;
            large = value > max;
        }
        i += 1;
    }
    assert(s.take(n - from) =~= s);
    if large {
        None
    } else {
        Some(value)
    }
}

/// Reads a number from `min` to `max`.
fn parse_integer(s: &str, min: i64, max: i64) -> (number: Option<i64>)
    requires
        -0x1_0000_0000 < min <= 0 <= max < 0x1_0000_0000,
    ensures
        match number {
            Some(n) => integer_within(s@, min as int, max as int) == Some(n as int),
            None => integer_within(s@, min as int, max as int) is None,
        },
{
    let chars = chars_of(s);
    assert(chars@.skip(0) =~= chars@);
    if chars.len() > 0 && chars[0] == '-' && min < 0 {
        match read_digits(&chars, 1, (-min) as u64) {
            Some(value) => Some(-(value as i64)),
            None => None,
        }
    } else if chars.len() > 0 && chars[0] == '+' {
        match read_digits(&chars, 1, max as u64) {
            Some(value) => Some(value as i64),
            None => None,
        }
    } else {
        match read_digits(&chars, 0, max as u64) {
            Some(value) => Some(value as i64),
            None => None,
        }
    }
}

/// Reads the number of the application, which may stand between white space. What
/// cannot be read is reported as it was given.
pub fn parse_api_id(text: &str) -> (id: Result<i32, String>)
    ensures
        match id {
            Ok(n) => integer_within(trimmed(text@), i32::MIN as int, i32::MAX as int) == Some(
                n as int,
            ),
            Err(reason) => {
                &&& integer_within(trimmed(text@), i32::MIN as int, i32::MAX as int) is None
                &&& reason@ == "Failed to parse API_ID: '"@ + text@ + "'"@
            },
        },
{
    match parse_integer(trim(text), i32::MIN as i64, i32::MAX as i64) {
        Some(n) => Ok(n as i32),
        None => {
            let mut reason = String::new();
            reason.append("Failed to parse API_ID: '");
            reason.append(text);
            reason.append("'");
            assert(reason@ =~= "Failed to parse API_ID: '"@ + text@ + "'"@);
            Err(reason)
        },
    }
}

/// Reads the port of the health check; one that is missing or cannot be read is
/// the default one.
pub fn parse_port(text: Option<&str>) -> (port: u16)
    ensures
        port == match text {
            Some(text) => match integer_within(text@, 0, u16::MAX as int) {
                Some(n) => n,
                None => DEFAULT_PORT as int,
            },
            None => DEFAULT_PORT as int,
        },
{
    match text {
        Some(text) => match parse_integer(text, 0, u16::MAX as i64) {
            Some(n) => n as u16,
            None => DEFAULT_PORT,
        },
        None => DEFAULT_PORT,
    }
}

/// Law: a number reads back from its decimal notation, which consists of digits, so
/// that two numbers never have the same one.
pub proof fn law_decimal_reads_back(n: nat)
    ensures
        digits_value(decimal(n)) == n,
        decimal(n).len() > 0,
        forall|i: int| 0 <= i < decimal(n).len() ==> '0' <= #[trigger] decimal(n)[i] <= '9',
    decreases n,
{
    if n >= 10 {
        let high = decimal(n / 10);
        law_decimal_reads_back(n / 10);
        assert(decimal(n) == high.push(digit(n % 10)));
        assert(decimal(n).drop_last() =~= high);
        assert forall|i: int| 0 <= i < decimal(n).len() implies '0' <= #[trigger] decimal(n)[i]
            <= '9' by {
            if i < high.len() {
                assert(decimal(n)[i] == high[i]);
            }
        }
    } else {
        assert(decimal(n).drop_last() =~= Seq::empty());
        assert(digits_value(Seq::empty()) == 0);
    }
}

/// Law: a digit behind a number counts once, and the number ten times.
pub proof fn law_digits_count_by_ten(s: Seq<char>, d: nat)
    requires
        d < 10,
    ensures
        digits_value(s.push((48 + d) as char)) == 10 * digits_value(s) + d,
        digits_value(Seq::empty()) == 0,
{
    assert(s.push((48 + d) as char).drop_last() =~= s);
}

/// Law: a number in decimal notation is read as that number, also behind a plus sign,
/// and behind a minus sign as its negative where numbers may be negative; one that is
/// out of range is not read.
pub proof fn law_numbers_are_read(n: nat, min: int, max: int)
    requires
        min <= 0 <= max,
    ensures
        integer_within(decimal(n), min, max) == if n <= max {
            Some(n as int)
        } else {
            None
        },
        integer_within(seq!['+'] + decimal(n), min, max) == if n <= max {
            Some(n as int)
        } else {
            None
        },
        integer_within(seq!['-'] + decimal(n), min, max) == if min < 0 && min <= -n {
            Some(-n)
        } else {
            None
        },
{
    law_decimal_reads_back(n);
    law_digits_are_read(decimal(n), min, max);
}

/// Law: zeros before the digits of a number do not count.
pub proof fn law_leading_zeros_do_not_count(digits: Seq<char>, min: int, max: int)
    requires
        digits.len() > 0,
        forall|i: int| 0 <= i < digits.len() ==> '0' <= #[trigger] digits[i] <= '9',
    ensures
        integer_within(seq!['0'] + digits, min, max) == integer_within(digits, min, max),
{
    let longer = seq!['0'] + digits;
    zero_before_digits(digits);
    assert(all_digits(digits));
    assert forall|i: int| 0 <= i < longer.len() implies is_digit(#[trigger] longer[i]) by {
        if i > 0 {
            assert(longer[i] == digits[i - 1]);
        }
    }
    assert('0' <= digits[0] <= '9');
}

proof fn zero_before_digits(digits: Seq<char>)
    ensures
        digits_value(seq!['0'] + digits) == digits_value(digits),
    decreases digits.len(),
{
    let longer = seq!['0'] + digits;
    if digits.len() == 0 {
        assert(longer.drop_last() =~= Seq::empty());
        assert(digits =~= Seq::empty());
        assert(digits_value(Seq::empty()) == 0);
    } else {
        assert(longer.drop_last() =~= seq!['0'] + digits.drop_last());
        zero_before_digits(digits.drop_last());
    }
}

/// Law: only digits are read as a number, at least one, and before them at most one
/// sign: a minus sign only where numbers may be negative. What is read is in range.
pub proof fn law_other_texts_are_no_numbers(s: Seq<char>, min: int, max: int)
    requires
        integer_within(s, min, max) is Some,
    ensures
        min <= integer_within(s, min, max)->0 <= max,
        s.len() > 0,
        '0' <= s[0] <= '9' || (s.len() > 1 && (s[0] == '+' || (s[0] == '-' && min < 0))),
        forall|i: int| 1 <= i < s.len() ==> '0' <= #[trigger] s[i] <= '9',
{
    if !all_digits(s) {
        let rest = s.skip(1);
        assert(all_digits(rest));
        assert forall|i: int| 1 <= i < s.len() implies '0' <= #[trigger] s[i] <= '9' by {
            assert(is_digit(rest[i - 1]));
        }
    } else {
        assert(is_digit(s[0]));
        assert forall|i: int| 1 <= i < s.len() implies '0' <= #[trigger] s[i] <= '9' by {
            assert(is_digit(s[i]));
        }
    }
}

/// Law: digits are read as the number that they stand for, zeros before it or not, also
/// behind a plus sign, and behind a minus sign as its negative where numbers may be
/// negative; a number that is out of range is not read.
pub proof fn law_digits_are_read(digits: Seq<char>, min: int, max: int)
    requires
        min <= 0 <= max,
        digits.len() > 0,
        forall|i: int| 0 <= i < digits.len() ==> '0' <= #[trigger] digits[i] <= '9',
    ensures
        integer_within(digits, min, max) == if digits_value(digits) <= max {
            Some(digits_value(digits) as int)
        } else {
            None
        },
        integer_within(seq!['+'] + digits, min, max) == if digits_value(digits) <= max {
            Some(digits_value(digits) as int)
        } else {
            None
        },
        integer_within(seq!['-'] + digits, min, max) == if min < 0 && min <= -digits_value(
            digits,
        ) {
            Some(-digits_value(digits))
        } else {
            None
        },
{
    assert('0' <= digits[0] <= '9');
    assert(all_digits(digits));
    assert((seq!['+'] + digits).skip(1) =~= digits);
    assert((seq!['-'] + digits).skip(1) =~= digits);
    let minus = seq!['-'] + digits;
    assert(!is_digit(minus[0]));
}

}
