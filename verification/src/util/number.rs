use crate::util::json::is_digit;
use crate::util::text::chars_of;
use vstd::prelude::*;

verus! {

/// The value of a digit.
pub open spec fn digit_value(c: char) -> int {
    c as int - '0' as int
}

/// The number that decimal digits say.
pub open spec fn digits_value(s: Seq<char>) -> int
    decreases s.len(),
{
    if s.len() == 0 {
        0
    } else {
        digits_value(s.drop_last()) * 10 + digit_value(s.last())
    }
}

pub open spec fn all_digits(s: Seq<char>) -> bool {
    forall|i: int| 0 <= i < s.len() ==> is_digit(#[trigger] s[i])
}

/// The integer that decimal text says: an optional sign, then one digit or more,
/// for a number that an `i64` holds.
pub open spec fn decimal_i64(s: Seq<char>) -> Option<i64> {
    let signed = s.len() > 0 && (s[0] == '-' || s[0] == '+');
    let digits = if signed {
        s.skip(1)
    } else {
        s
    };
    let value = if s.len() > 0 && s[0] == '-' {
        -digits_value(digits)
    } else {
        digits_value(digits)
    };
    if digits.len() > 0 && all_digits(digits) && i64::MIN <= value <= i64::MAX {
        Some(value as i64)
    } else {
        None
    }
}

/// The integer that a JSON number says: decimal text without a plus sign and
/// without a needless zero in front, and not zero with a minus sign.
pub open spec fn json_i64(s: Seq<char>) -> Option<i64> {
    let digits = if s.len() > 0 && s[0] == '-' {
        s.skip(1)
    } else {
        s
    };
    if s.len() > 0 && s[0] == '+' {
        None
    } else if digits.len() > 1 && digits[0] == '0' {
        None
    } else if s.len() == 2 && s[0] == '-' && s[1] == '0' {
        None
    } else {
        decimal_i64(s)
    }
}

/// Digits say no less than the digits in front of them say.
pub proof fn lemma_digits_value_grows(s: Seq<char>, n: int)
    requires
        all_digits(s),
        0 <= n <= s.len(),
    ensures
        0 <= digits_value(s.take(n)) <= digits_value(s),
    decreases s.len() - n,
{
    if n == s.len() {
        assert(s.take(n) =~= s);
        lemma_digits_value_nonnegative(s);
    } else {
        lemma_digits_value_nonnegative(s.take(n));
        assert(s.take(n + 1).drop_last() =~= s.take(n));
        assert(s.take(n + 1).last() == s[n]);
        lemma_digits_value_grows(s, n + 1);
    }
}

pub proof fn lemma_digits_value_nonnegative(s: Seq<char>)
    requires
        all_digits(s),
    ensures
        0 <= digits_value(s),
    decreases s.len(),
{
    if s.len() > 0 {
        assert(all_digits(s.drop_last())) by {
            assert forall|i: int| 0 <= i < s.drop_last().len() implies is_digit(
                #[trigger] s.drop_last()[i],
            ) by {
                assert(s.drop_last()[i] == s[i]);
            }
        }
        lemma_digits_value_nonnegative(s.drop_last());
        assert(is_digit(s[s.len() - 1]));
    }
}

/// The least `i64` that can be multiplied by ten.
const LEAST_TENTH: i64 = -922_337_203_685_477_580;

/// Reads decimal text as an integer.
pub fn parse_i64(text: &str) -> (r: Option<i64>)
    ensures
        r == decimal_i64(text@),
{
    let chars = chars_of(text);
    parse_i64_chars(chars.as_slice())
}

/// Reads the characters of decimal text as an integer.
pub fn parse_i64_chars(chars: &[char]) -> (r: Option<i64>)
    ensures
        r == decimal_i64(chars@),
{
    let n = chars.len();
    if n == 0 {
        return None;
    }
    let negative = chars[0] == '-';
    let start: usize = if chars[0] == '-' || chars[0] == '+' {
        1
    } else {
        0
    };
    if start == n {
        return None;
    }
    let ghost digits = chars@.skip(start as int);
    // The number is built below zero, where an `i64` reaches one further.
    let mut acc: i64 = 0;
    let mut i: usize = start;
    assert(digits.take(0) =~= Seq::<char>::empty());
    assert(chars@.skip(0) =~= chars@);
    while i < n
        invariant
            start <= i <= n,
            n == chars.len(),
            negative == (chars@[0] == '-'),
            start == (if chars@[0] == '-' || chars@[0] == '+' {
                1int
            } else {
                0int
            }),
            digits == chars@.skip(start as int),
            start == 0 ==> digits == chars@,
            all_digits(digits.take(i - start)),
            acc == -digits_value(digits.take(i - start)),
            acc <= 0,
        decreases n - i,
    {
        let c = chars[i];
        let ghost next = digits.take(i + 1 - start);
        proof {
            assert(next.drop_last() =~= digits.take(i - start));
            assert(next.last() == c);
        }
        if !(c >= '0' && c <= '9') {
            assert(!all_digits(digits)) by {
                assert(digits[i - start] == c);
            }
            return None;
        }
        let d = (c as u32 - '0' as u32) as i64;
        assert(all_digits(next)) by {
            assert forall|k: int| 0 <= k < next.len() implies is_digit(#[trigger] next[k]) by {
                if k < next.len() - 1 {
                    assert(next[k] == digits.take(i - start)[k]);
                }
            }
        }
        // acc * 10 - d, unless that is below the least `i64`
        if acc < LEAST_TENTH || acc * 10 < i64::MIN + d {
            proof {
                lemma_below_least(digits, i + 1 - start);
            }
            return None;
        }
        acc = acc * 10 - d;
        i = i + 1;
        proof {
            lemma_digits_value_nonnegative(next);
        }
    }
    assert(digits.take(n - start) =~= digits);
    if negative {
        Some(acc)
    } else if acc == i64::MIN {
        None
    } else {
        Some(-acc)
    }
}

/// Where the digits in front say more than an `i64` can hold with a minus sign,
/// all the digits say more than it can hold with either sign.
proof fn lemma_below_least(digits: Seq<char>, n: int)
    requires
        0 <= n <= digits.len(),
        all_digits(digits.take(n)),
        -digits_value(digits.take(n)) < i64::MIN,
    ensures
        !all_digits(digits) || (-digits_value(digits) < i64::MIN && digits_value(digits)
            > i64::MAX),
{
    if all_digits(digits) {
        lemma_digits_value_grows(digits, n);
    }
}

/// Reads the decimal text of a JSON number as an integer.
pub fn parse_json_i64(text: &str) -> (r: Option<i64>)
    ensures
        r == json_i64(text@),
{
    let chars = chars_of(text);
    let n = chars.len();
    if n > 0 && chars[0] == '+' {
        return None;
    }
    let start: usize = if n > 0 && chars[0] == '-' {
        1
    } else {
        0
    };
    if n - start > 1 && chars[start] == '0' {
        return None;
    }
    if n == 2 && chars[0] == '-' && chars[1] == '0' {
        return None;
    }
    parse_i64(text)
}

} // verus!
