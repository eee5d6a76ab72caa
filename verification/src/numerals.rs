//! Numbers as decimal digits.

use vstd::prelude::*;

use crate::text::to_chars;

verus! {

/// The character for a digit.
pub open spec fn digit_char(digit: nat) -> char {
    (48 + digit) as char
}

/// A number in decimal, without leading zeros.
pub open spec fn decimal(n: nat) -> Seq<char>
    decreases n,
{
    if n < 10 {
        seq![digit_char(n)]
    } else {
        decimal(n / 10).push(digit_char(n % 10))
    }
}

fn digit(n: u64) -> (c: char)
    requires
        n < 10,
    ensures
        c == digit_char(n as nat),
{
    match n {
        0 => '0',
        1 => '1',
        2 => '2',
        3 => '3',
        4 => '4',
        5 => '5',
        6 => '6',
        7 => '7',
        8 => '8',
        _ => '9',
    }
}

/// A number in decimal, without leading zeros.
pub fn decimal_text(n: u64) -> (s: String)
    ensures
        s@ == decimal(n as nat),
    decreases n,
{
    if n < 10 {
        let mut s = String::new();
        s.push(digit(n));
        assert(s@ =~= decimal(n as nat));
        s
    } else {
        let mut s = decimal_text(n / 10);
        s.push(digit(n % 10));
        s
    }
}

/// The value of a digit.
pub open spec fn digit_value(c: char) -> Option<nat> {
    if '0' <= c <= '9' {
        Some((c as int - 48) as nat)
    } else {
        None
    }
}

/// The value of a run of digits, however long; `None` where a character is no
/// digit. No digits at all are worth zero.
pub open spec fn digits_value(s: Seq<char>) -> Option<nat>
    decreases s.len(),
{
    if s.len() == 0 {
        Some(0)
    } else {
        match (digits_value(s.drop_last()), digit_value(s.last())) {
            (Some(front), Some(digit)) => Some(front * 10 + digit),
            _ => None,
        }
    }
}

/// The integer that a text spells: one digit or more after at most one sign,
/// within the range of an `i64`.
pub open spec fn integer_value(s: Seq<char>) -> Option<int> {
    let signed = s.len() > 0 && (s[0] == '+' || s[0] == '-');
    let digits = if signed {
        s.skip(1)
    } else {
        s
    };
    if digits.len() == 0 {
        None
    } else {
        match digits_value(digits) {
            Some(value) => {
                let value = if s[0] == '-' {
                    -(value as int)
                } else {
                    value as int
                };
                if i64::MIN <= value <= i64::MAX {
                    Some(value)
                } else {
                    None
                }
            },
            None => None,
        }
    }
}

fn value_of_digit(c: char) -> (value: Option<i128>)
    ensures
        (match value {
            Some(v) => Some(v as nat),
            None => None,
        }) == digit_value(c),
        value matches Some(v) ==> 0 <= v < 10,
{
    if '0' <= c && c <= '9' {
        Some((c as u32 - 48) as i128)
    } else {
        None
    }
}

/// A text holds digits only exactly if each of its front parts does.
proof fn lemma_prefix_has_digits(s: Seq<char>, i: int)
    requires
        0 <= i <= s.len(),
        digits_value(s) is Some,
    ensures
        digits_value(s.take(i)) is Some,
        digits_value(s.take(i))->0 <= digits_value(s)->0,
    decreases s.len() - i,
{
    if i < s.len() {
        lemma_prefix_has_digits(s, i + 1);
        assert(s.take(i + 1).drop_last() =~= s.take(i));
    } else {
        assert(s.take(i) =~= s);
    }
}

/// Decimal digits spell the number that they were made of.
pub proof fn decimal_is_read_back(n: nat)
    ensures
        digits_value(decimal(n)) == Some(n),
        decimal(n).len() > 0,
        forall|i: int| 0 <= i < decimal(n).len() ==> digit_value(#[trigger] decimal(n)[i]) is Some,
        n <= i64::MAX ==> integer_value(decimal(n)) == Some(n as int),
    decreases n,
{
    reveal_with_fuel(digits_value, 2);
    let last = digit_char(n % 10);
    assert(digit_value(last) == Some(n % 10));
    if n >= 10 {
        let front = decimal(n / 10);
        decimal_is_read_back(n / 10);
        assert(front.push(last).drop_last() =~= front);
        assert forall|i: int| 0 <= i < decimal(n).len() implies digit_value(
            #[trigger] decimal(n)[i],
        ) is Some by {
            if i < front.len() {
                assert(digit_value(front[i]) is Some);
            }
        }
    } else {
        assert(seq![last].drop_last() =~= Seq::<char>::empty());
    }
    assert(digit_value(decimal(n)[0]) is Some);
}

/// Past this, a run of digits is out of the range of an `i64` with either sign.
const TOO_LARGE: i128 = 9223372036854775809;

/// The integer that a text spells in decimal, as `i64` is parsed.
pub fn parse_integer(s: &str) -> (value: Option<i64>)
    ensures
        (match value {
            Some(v) => Some(v as int),
            None => None,
        }) == integer_value(s@),
{
    let chars = to_chars(s);
    if chars.len() == 0 {
        return None;
    }
    let signed = chars[0] == '+' || chars[0] == '-';
    let start: usize = if signed { 1 } else { 0 };
    if chars.len() == start {
        return None;
    }
    let ghost digits = s@.skip(start as int);
    assert(!signed ==> digits =~= s@);
    let mut total: i128 = 0;
    let mut large = false;
    let mut i: usize = start;
    assert(digits.take(0) =~= Seq::<char>::empty());
    while i < chars.len()
        invariant
            start <= i <= chars.len(),
            start <= 1,
            chars@ == s@,
            digits == s@.skip(start as int),
            0 <= total < TOO_LARGE,
            digits_value(digits.take(i - start)) is Some,
            large ==> digits_value(digits.take(i - start))->0 >= TOO_LARGE,
            !large ==> digits_value(digits.take(i - start)) == Some(total as nat),
            chars.len() > start,
            signed == (s@[0] == '+' || s@[0] == '-'),
            signed == (start == 1),
        decreases chars.len() - i,
    {
        assert(digits.take(i + 1 - start).drop_last() =~= digits.take(i - start));
        assert(digits.take(i + 1 - start).last() == chars@[i as int]);
        match value_of_digit(chars[i]) {
            Some(digit) => {
                if !large {
                    let next: i128 = total * 10 + digit;
                    if next >= TOO_LARGE {
                        large = true;
                    } else {
                        total = next;
                    }
                }
            },
            None => {
                proof {
                    if digits_value(digits) is Some {
                        lemma_prefix_has_digits(digits, i + 1 - start);
                    }
                    assert(digits_value(digits) is None);
                    assert(start == 0 ==> digits =~= s@);
                }
                return None;
            },
        }
        i += 1;
    }
    assert(digits.take(i - start) =~= digits);
    if large {
        return None;
    }
    let value: i128 = if chars[0] == '-' { -total } else { total };
    if i64::MIN as i128 <= value && value <= i64::MAX as i128 {
        Some(value as i64)
    } else {
        None
    }
}

/// A number is spelled with its digits from the first to the last: the digits of
/// what ten times it and one more digit come to are its own and that one.
pub proof fn numbers_are_spelled_digit_by_digit(n: nat, digit: nat)
    requires
        digit < 10,
    ensures
        decimal(digit) == seq![('0' as int + digit) as char],
        n > 0 ==> decimal(10 * n + digit) == decimal(n).push(('0' as int + digit) as char),
{
    assert((10 * n + digit) / 10 == n);
    assert((10 * n + digit) % 10 == digit);
}

/// Digits count by their place: one more digit behind a number makes it ten times
/// as much and that digit. Anything but digits, after at most one sign, spells no
/// integer, and neither does what an `i64` cannot hold.
pub proof fn integers_are_read_digit_by_digit(digits: Seq<char>, c: char, value: int)
    requires
        digits.len() > 0,
        '0' <= digits[0] <= '9',
        integer_value(digits) == Some(value),
    ensures
        value >= 0,
        integer_value(digits.push(c)) == (if '0' <= c <= '9' && 10 * value + (c as int
            - '0' as int) <= i64::MAX {
            Some(10 * value + (c as int - '0' as int))
        } else {
            None
        }),
        integer_value(seq!['+'] + digits) == Some(value),
        integer_value(seq!['-'] + digits) == Some(-value),
{
    let longer = digits.push(c);
    assert(longer.drop_last() =~= digits);
    assert((seq!['+'] + digits).skip(1) =~= digits);
    assert((seq!['-'] + digits).skip(1) =~= digits);
}

/// A single digit spells its value, and no digit at all spells none.
pub proof fn single_digits_spell_their_value(c: char)
    ensures
        integer_value(seq![c]) == (if '0' <= c <= '9' {
            Some(c as int - '0' as int)
        } else {
            None
        }),
        integer_value(Seq::empty()) is None,
{
    reveal_with_fuel(digits_value, 2);
    assert(seq![c].drop_last() =~= Seq::<char>::empty());
    assert(seq![c].skip(1) =~= Seq::<char>::empty());
}

/// What stands behind a digit that is none makes a text spell no integer.
pub proof fn only_digits_spell_integers(s: Seq<char>, i: int)
    requires
        0 <= i < s.len(),
        !('0' <= s[i] <= '9'),
        i > 0 || (s[i] != '+' && s[i] != '-') || s.len() == 1,
    ensures
        integer_value(s) is None,
{
    if s[0] == '+' || s[0] == '-' {
        if i > 0 {
            assert(s.skip(1)[i - 1] == s[i]);
            lemma_no_value(s.skip(1), i - 1);
        }
    } else {
        lemma_no_value(s, i);
    }
}

proof fn lemma_no_value(s: Seq<char>, i: int)
    requires
        0 <= i < s.len(),
        !('0' <= s[i] <= '9'),
    ensures
        digits_value(s) is None,
    decreases s.len(),
{
    if i < s.len() - 1 {
        lemma_no_value(s.drop_last(), i);
    }
}

/// The least `i64` is spelled too, though its size is more than any.
pub proof fn the_least_integer_is_spelled(digits: Seq<char>)
    requires
        digits_value(digits) == Some(0x8000_0000_0000_0000nat),
    ensures
        digits.len() > 0 ==> integer_value(seq!['-'] + digits) == Some(i64::MIN as int),
{
    assert((seq!['-'] + digits).skip(1) =~= digits);
}

} // verus!
