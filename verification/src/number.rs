//! Decimal text of 32-bit integers: writing it and reading it back.

use vstd::prelude::*;
use vstd::string::StringExecFns;

use crate::text::chars_of;

verus! {

/// Why a text is not the decimal numeral of a 32-bit integer.
#[derive(Clone, Copy, Debug, PartialEq, Eq, Structural)]
pub enum IntErrorKind {
    /// The text is empty.
    Empty,
    /// A character is not a digit, or a sign stands alone.
    InvalidDigit,
    /// The digits name a number above `i32::MAX`.
    PosOverflow,
    /// The digits name a number below `i32::MIN`.
    NegOverflow,
}

pub open spec fn is_digit(c: char) -> bool {
    '0' <= c <= '9'
}

pub open spec fn digit_value(c: char) -> nat {
    (c as int - '0' as int) as nat
}

pub open spec fn digit_char(d: int) -> char {
    ('0' as int + d) as char
}

/// The number that a run of digits spells, most significant digit first.
pub open spec fn digits_value(s: Seq<char>) -> nat
    decreases s.len(),
{
    if s.len() == 0 {
        0
    } else {
        digits_value(s.drop_last()) * 10 + digit_value(s.last())
    }
}

/// Length of the longest prefix of `s` that consists of digits.
pub open spec fn digit_run(s: Seq<char>) -> nat
    decreases s.len(),
{
    if s.len() > 0 && is_digit(s[0]) {
        1 + digit_run(s.drop_first())
    } else {
        0
    }
}

/// The numeral of a natural number, without leading zeros.
pub open spec fn nat_decimal(n: nat) -> Seq<char>
    decreases n,
{
    if n < 10 {
        seq![digit_char(n as int)]
    } else {
        nat_decimal(n / 10).push(digit_char((n % 10) as int))
    }
}

/// The numeral of an integer: a minus sign for negative numbers, no sign
/// otherwise, and no leading zeros.
pub open spec fn decimal(n: int) -> Seq<char> {
    if n < 0 {
        seq!['-'] + nat_decimal((-n) as nat)
    } else {
        nat_decimal(n as nat)
    }
}

/// What reading `digits` gives, once the sign is taken off. The text is read
/// from the left: digits that leave the range are reported before a
/// character further right that is no digit.
pub open spec fn parse_digits_spec(digits: Seq<char>, negative: bool) -> Result<i32, IntErrorKind> {
    let run = digits.take(digit_run(digits) as int);
    let value = digits_value(run);
    if negative && value > 0x8000_0000 {
        Err(IntErrorKind::NegOverflow)
    } else if !negative && value > 0x7fff_ffff {
        Err(IntErrorKind::PosOverflow)
    } else if run.len() < digits.len() {
        Err(IntErrorKind::InvalidDigit)
    } else if negative {
        Ok((-(value as int)) as i32)
    } else {
        Ok(value as i32)
    }
}

/// What reading `s` as a 32-bit integer gives: an optional `+` or `-`, then
/// at least one digit and nothing else.
pub open spec fn parse_i32_spec(s: Seq<char>) -> Result<i32, IntErrorKind> {
    if s.len() == 0 {
        Err(IntErrorKind::Empty)
    } else {
        let signed = s[0] == '-' || s[0] == '+';
        let digits = if signed { s.drop_first() } else { s };
        if digits.len() == 0 {
            Err(IntErrorKind::InvalidDigit)
        } else {
            parse_digits_spec(digits, s[0] == '-')
        }
    }
}

/// `digit_run` stays inside the text, covers digits only, and stops at the
/// first character that is no digit.
pub proof fn lemma_digit_run(s: Seq<char>)
    ensures
        digit_run(s) <= s.len(),
        forall|j: int| 0 <= j < digit_run(s) ==> is_digit(#[trigger] s[j]),
        digit_run(s) < s.len() ==> !is_digit(s[digit_run(s) as int]),
    decreases s.len(),
{
    if s.len() > 0 && is_digit(s[0]) {
        let t = s.drop_first();
        lemma_digit_run(t);
        assert forall|j: int| 0 <= j < digit_run(s) implies is_digit(#[trigger] s[j]) by {
            if j > 0 {
                assert(s[j] == t[j - 1]);
            }
        }
        if digit_run(s) < s.len() {
            assert(s[digit_run(s) as int] == t[digit_run(t) as int]);
        }
    }
}

/// A prefix of digits that ends the text, or that a non-digit follows, is
/// the whole run.
pub proof fn lemma_digit_run_is(s: Seq<char>, k: int)
    requires
        0 <= k <= s.len(),
        forall|j: int| 0 <= j < k ==> is_digit(#[trigger] s[j]),
        k < s.len() ==> !is_digit(s[k]),
    ensures
        digit_run(s) == k,
    decreases s.len(),
{
    if k > 0 {
        let t = s.drop_first();
        assert(is_digit(s[0]));
        assert forall|j: int| 0 <= j < k - 1 implies is_digit(#[trigger] t[j]) by {
            assert(t[j] == s[j + 1]);
        }
        lemma_digit_run_is(t, k - 1);
    }
}

/// Reading more digits never gives a smaller number.
pub proof fn lemma_digits_value_prefix(s: Seq<char>, k: int)
    requires
        0 <= k <= s.len(),
    ensures
        digits_value(s.take(k)) <= digits_value(s),
    decreases s.len(),
{
    if k == s.len() {
        assert(s.take(k) =~= s);
    } else {
        lemma_digits_value_prefix(s.drop_last(), k);
        assert(s.drop_last().take(k) =~= s.take(k));
    }
}

/// Reads `s` as a 32-bit integer in decimal notation.
pub fn parse_i32(s: &str) -> (r: Result<i32, IntErrorKind>)
    ensures
        r == parse_i32_spec(s@),
{
    let chars = chars_of(s);
    let n: usize = chars.len();
    if n == 0 {
        return Err(IntErrorKind::Empty);
    }
    let first: char = chars[0];
    let negative: bool = first == '-';
    let start: usize = if first == '-' || first == '+' { 1 } else { 0 };
    if start == n {
        assert(chars@.drop_first().len() == 0);
        return Err(IntErrorKind::InvalidDigit);
    }
    let ghost digits = chars@.subrange(start as int, n as int);
    assert(digits =~= if start == 1 { chars@.drop_first() } else { chars@ });
    let limit: u64 = if negative { 0x8000_0000 } else { 0x7fff_ffff };
    let mut acc: u64 = 0;
    let mut i: usize = start;
    assert(digits.take(0) =~= Seq::<char>::empty());
    while i < n
        invariant
            start <= i <= n,
            n == chars.len(),
            digits == chars@.subrange(start as int, n as int),
            forall|j: int| 0 <= j < i - start ==> is_digit(#[trigger] digits[j]),
            acc == digits_value(digits.take(i - start)),
            acc <= limit,
            limit == (if negative { 0x8000_0000u64 } else { 0x7fff_ffffu64 }),
            s@ == chars@,
            s@.len() > 0,
            negative == (s@[0] == '-'),
            digits == (if s@[0] == '-' || s@[0] == '+' { s@.drop_first() } else { s@ }),
            digits.len() > 0,
        decreases n - i,
    {
        let c: char = chars[i];
        let ghost k = i - start;
        assert(digits[k] == c);
        if !(c >= '0' && c <= '9') {
            proof {
                lemma_digit_run_is(digits, k);
            }
            return Err(IntErrorKind::InvalidDigit);
        }
        let d: u64 = (c as u64) - ('0' as u64);
        acc = acc * 10 + d;
        proof {
            assert(digits.take(k + 1).drop_last() =~= digits.take(k));
            assert(digits.take(k + 1).last() == c);
            assert(acc == digits_value(digits.take(k + 1)));
        }
        if acc > limit {
            proof {
                lemma_digit_run(digits);
                let run_len = digit_run(digits) as int;
                if run_len < k + 1 {
                    assert(is_digit(digits[run_len]));
                }
                let run = digits.take(run_len);
                lemma_digits_value_prefix(run, k + 1);
                assert(run.take(k + 1) =~= digits.take(k + 1));
            }
            if negative {
                return Err(IntErrorKind::NegOverflow);
            } else {
                return Err(IntErrorKind::PosOverflow);
            }
        }
        i += 1;
    }
    proof {
        lemma_digit_run_is(digits, digits.len() as int);
        assert(digits.take(digits.len() as int) =~= digits);
    }
    if negative {
        Ok((-(acc as i64)) as i32)
    } else {
        Ok(acc as i32)
    }
}

/// The one-character text of a digit.
fn digit_text(d: u64) -> (t: &'static str)
    requires
        d < 10,
    ensures
        t@ == seq![digit_char(d as int)],
{
    proof {
        reveal_strlit("0");
        reveal_strlit("1");
        reveal_strlit("2");
        reveal_strlit("3");
        reveal_strlit("4");
        reveal_strlit("5");
        reveal_strlit("6");
        reveal_strlit("7");
        reveal_strlit("8");
        reveal_strlit("9");
    }
    let t = match d {
        0 => "0",
        1 => "1",
        2 => "2",
        3 => "3",
        4 => "4",
        5 => "5",
        6 => "6",
        7 => "7",
        8 => "8",
        _ => "9",
    };
    assert(t@ =~= seq![digit_char(d as int)]);
    t
}

/// Writes `n` in decimal notation.
pub fn format_i32(n: i32) -> (text: String)
    ensures
        text@ == decimal(n as int),
{
    let magnitude: u64 = if n < 0 { (-(n as i64)) as u64 } else { n as u64 };
    let mut rest: u64 = magnitude / 10;
    let mut text = String::from_str(digit_text(magnitude % 10));
    while rest > 0
        invariant
            nat_decimal(magnitude as nat) == (if rest > 0 {
                nat_decimal(rest as nat)
            } else {
                Seq::<char>::empty()
            }) + text@,
        decreases rest,
    {
        let digit = String::from_str(digit_text(rest % 10));
        text = digit.concat(text.as_str());
        rest = rest / 10;
    }
    if n < 0 {
        proof {
            reveal_strlit("-");
        }
        text = String::from_str("-").concat(text.as_str());
        assert(text@ =~= decimal(n as int));
    }
    text
}

/// A numeral without sign is a non-empty run of digits that spells its
/// number.
pub proof fn lemma_nat_decimal(n: nat)
    ensures
        nat_decimal(n).len() >= 1,
        forall|j: int| 0 <= j < nat_decimal(n).len() ==> is_digit(#[trigger] nat_decimal(n)[j]),
        digits_value(nat_decimal(n)) == n,
    decreases n,
{
    if n < 10 {
        let s = nat_decimal(n);
        assert(s.drop_last() =~= Seq::<char>::empty());
        assert(digits_value(s.drop_last()) == 0);
    } else {
        lemma_nat_decimal(n / 10);
        let s = nat_decimal(n);
        assert(s.drop_last() =~= nat_decimal(n / 10));
    }
}

/// Reading back what `format_i32` wrote gives the number that was written.
pub proof fn lemma_parse_decimal(n: i32)
    ensures
        parse_i32_spec(decimal(n as int)) == Ok::<i32, IntErrorKind>(n),
{
    let magnitude: nat = if n < 0 { (-(n as int)) as nat } else { n as nat };
    let digits = nat_decimal(magnitude);
    lemma_nat_decimal(magnitude);
    lemma_digit_run_is(digits, digits.len() as int);
    assert(digits.take(digits.len() as int) =~= digits);
    assert(is_digit(digits[0]));
    if n < 0 {
        assert(decimal(n as int).drop_first() =~= digits);
    }
}

} // verus!
