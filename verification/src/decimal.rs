//! Decimal numerals: what the numeral of a number is, what a run of digits
//! is worth, and the executable code that writes the one and reads the other.

use crate::error::IntErrorKind;
use vstd::prelude::*;
use vstd::string::*;

verus! {

/// The character that stands for the digit `d`, for `d` from 0 to 9.
pub open spec fn digit_char(d: int) -> char {
    (d + 48) as char
}

/// Whether `c` is one of the ASCII digits `0` to `9`.
pub open spec fn is_digit(c: char) -> bool {
    '0' <= c <= '9'
}

/// The number that the digit `c` stands for.
pub open spec fn digit_value(c: char) -> int {
    c as int - 48
}

/// The decimal numeral of `n`: its digits from the most significant to the
/// least, with no leading zero except for zero itself.
pub open spec fn decimal(n: nat) -> Seq<char>
    decreases n,
{
    if n < 10 {
        seq![digit_char(n as int)]
    } else {
        decimal(n / 10).push(digit_char((n % 10) as int))
    }
}

/// The decimal numeral of a signed number: a minus sign in front of the
/// numeral of the magnitude where the number is negative.
pub open spec fn signed_decimal(n: int) -> Seq<char> {
    if n < 0 {
        seq!['-'] + decimal((-n) as nat)
    } else {
        decimal(n as nat)
    }
}

/// The number that a sequence of digits denotes, read from the most
/// significant digit to the least.
pub open spec fn digits_value(s: Seq<char>) -> nat
    decreases s.len(),
{
    if s.len() == 0 {
        0
    } else {
        (digits_value(s.drop_last()) * 10 + digit_value(s.last())) as nat
    }
}

/// How many digits stand at the front of `s` before its first character that
/// is no digit.
pub open spec fn digit_run(s: Seq<char>) -> nat
    decreases s.len(),
{
    if s.len() > 0 && is_digit(s[0]) {
        1 + digit_run(s.drop_first())
    } else {
        0
    }
}

/// What reading a count off the front of `s` gives: the value of the leading
/// run of digits, `Empty` where `s` begins with no digit, and `Overflow`
/// where the value is too large for an `i64`.
pub open spec fn read_count(s: Seq<char>) -> Result<i64, IntErrorKind> {
    let value = digits_value(s.take(digit_run(s) as int));
    if digit_run(s) == 0 {
        Err(IntErrorKind::Empty)
    } else if value > i64::MAX {
        Err(IntErrorKind::Overflow)
    } else {
        Ok(value as i64)
    }
}

/// The one-character string of a digit.
fn digit_str(d: u64) -> (s: &'static str)
    requires
        d < 10,
    ensures
        s@ == seq![digit_char(d as int)],
{
    let s = match d {
        0 => "0",
        1 => "1",
        2 => "2",
        3 => "3",
        4 => "4",
        5 => "5",
        6 => "6",
        7 => "7",
        8 => "8",
        _ => "9",
    };
    proof {
        reveal_strlit("0");
        reveal_strlit("1");
        reveal_strlit("2");
        reveal_strlit("3");
        reveal_strlit("4");
        reveal_strlit("5");
        reveal_strlit("6");
        reveal_strlit("7");
        reveal_strlit("8");
        reveal_strlit("9");
        assert(s@ =~= seq![digit_char(d as int)]);
    }
    s
}

/// Appends the decimal numeral of `n` to `out`.
pub(crate) fn push_decimal(out: &mut String, n: u64)
    ensures
        final(out)@ == old(out)@ + decimal(n as nat),
    decreases n,
{
    if n >= 10 {
        push_decimal(out, n / 10);
    }
    out.append(digit_str(n % 10));
    proof {
        if n >= 10 {
            assert(old(out)@ + decimal((n / 10) as nat) + seq![digit_char((n % 10) as int)]
                =~= old(out)@ + decimal(n as nat));
        }
    }
}

/// Appends the decimal numeral of a signed number to `out`.
pub(crate) fn push_signed_decimal(out: &mut String, n: i64)
    ensures
        final(out)@ == old(out)@ + signed_decimal(n as int),
{
    if n < 0 {
        out.append("-");
        proof {
            reveal_strlit("-");
            assert("-"@ =~= seq!['-']);
        }
        let magnitude: u64 = if n == i64::MIN {
            9_223_372_036_854_775_808u64
        } else {
            (-n) as u64
        };
        push_decimal(out, magnitude);
        assert(old(out)@ + seq!['-'] + decimal(magnitude as nat) =~= old(out)@ + signed_decimal(
            n as int,
        ));
    } else {
        push_decimal(out, n as u64);
    }
}

/// A run of `k` digits at the front of `s`, with no digit after it, is the
/// leading run of digits of `s`.
pub proof fn lemma_digit_run(s: Seq<char>, k: int)
    requires
        0 <= k <= s.len(),
        forall|i: int| 0 <= i < k ==> is_digit(#[trigger] s[i]),
        k < s.len() ==> !is_digit(s[k]),
    ensures
        digit_run(s) == k,
    decreases k,
{
    if k > 0 {
        let rest = s.drop_first();
        assert forall|i: int| 0 <= i < k - 1 implies is_digit(#[trigger] rest[i]) by {
            assert(rest[i] == s[i + 1]);
        }
        lemma_digit_run(rest, k - 1);
    }
}

/// A numeral has at least one character, and all its characters are digits.
pub proof fn lemma_decimal_digits(n: nat)
    ensures
        decimal(n).len() >= 1,
        forall|i: int| 0 <= i < decimal(n).len() ==> is_digit(#[trigger] decimal(n)[i]),
    decreases n,
{
    if n >= 10 {
        lemma_decimal_digits(n / 10);
    }
}

/// A numeral denotes the number it was written for.
pub proof fn lemma_decimal_value(n: nat)
    ensures
        digits_value(decimal(n)) == n,
    decreases n,
{
    let d = (n % 10) as int;
    assert(digit_value(digit_char(d)) == d);
    if n >= 10 {
        lemma_decimal_value(n / 10);
        assert(decimal(n).drop_last() =~= decimal(n / 10));
        assert(decimal(n).last() == digit_char(d));
    } else {
        assert(decimal(n).drop_last() =~= Seq::<char>::empty());
        assert(decimal(n).last() == digit_char(d));
        assert(digits_value(Seq::<char>::empty()) == 0);
    }
}

/// Reading a count off a numeral that is followed by no further digit gives
/// back the number, and the count ends where the numeral ends.
pub proof fn lemma_read_numeral(n: nat, rest: Seq<char>)
    requires
        n <= i64::MAX,
        rest.len() > 0 ==> !is_digit(rest[0]),
    ensures
        digit_run(decimal(n) + rest) == decimal(n).len(),
        read_count(decimal(n) + rest) == Ok::<i64, IntErrorKind>(n as i64),
{
    let s = decimal(n) + rest;
    let k = decimal(n).len() as int;
    lemma_decimal_digits(n);
    lemma_decimal_value(n);
    assert forall|i: int| 0 <= i < k implies is_digit(#[trigger] s[i]) by {
        assert(s[i] == decimal(n)[i]);
    }
    if k < s.len() {
        assert(s[k] == rest[0]);
    }
    lemma_digit_run(s, k);
    assert(s.take(k) =~= decimal(n));
}

/// The number that a digit stands for.
fn digit_of(c: char) -> (d: i64)
    requires
        is_digit(c),
    ensures
        d == digit_value(c),
{
    (c as u32 - 48) as i64
}

/// Reads the count that starts at `chars[start]`: the value of the run of
/// digits there and the index just after the run. Fails with `Empty` where
/// no digit stands at `start`, and with `Overflow` where the value does not
/// fit in an `i64`.
pub(crate) fn parse_count(chars: &Vec<char>, start: usize) -> (r: Result<(i64, usize), IntErrorKind>)
    requires
        start <= chars.len(),
    ensures
        match r {
            Ok((value, end)) => {
                &&& read_count(chars@.skip(start as int)) == Ok::<i64, IntErrorKind>(value)
                &&& end == start + digit_run(chars@.skip(start as int))
                &&& end <= chars.len()
            },
            Err(kind) => read_count(chars@.skip(start as int)) == Err::<i64, IntErrorKind>(kind),
        },
{
    let mut pos = start;
    let mut value: i64 = 0;
    let mut too_large = false;
    while pos < chars.len() && '0' <= chars[pos] && chars[pos] <= '9'
        invariant
            start <= pos <= chars.len(),
            forall|i: int| start <= i < pos ==> is_digit(#[trigger] chars@[i]),
            !too_large ==> value == digits_value(chars@.subrange(start as int, pos as int)),
            too_large ==> digits_value(chars@.subrange(start as int, pos as int)) > i64::MAX,
            0 <= value,
        decreases chars.len() - pos,
    {
        let d = digit_of(chars[pos]);
        proof {
            let longer = chars@.subrange(start as int, pos + 1);
            assert(longer.drop_last() =~= chars@.subrange(start as int, pos as int));
            assert(longer.last() == chars@[pos as int]);
        }
        if !too_large {
            if value > (i64::MAX - d) / 10 {
                too_large = true;
            } else {
                value = value * 10 + d;
            }
        }
        pos = pos + 1;
    }
    proof {
        let s = chars@.skip(start as int);
        let k = pos - start;
        assert forall|i: int| 0 <= i < k implies is_digit(#[trigger] s[i]) by {
            assert(s[i] == chars@[start + i]);
        }
        if k < s.len() {
            assert(s[k] == chars@[pos as int]);
        }
        lemma_digit_run(s, k);
        assert(s.take(k) =~= chars@.subrange(start as int, pos as int));
    }
    if pos == start {
        Err(IntErrorKind::Empty)
    } else if too_large {
        Err(IntErrorKind::Overflow)
    } else {
        Ok((value, pos))
    }
}

} // verus!
