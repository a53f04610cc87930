//! Decimal numerals: writing and reading integers.
use vstd::prelude::*;

use crate::text::chars_of;

verus! {

/// The digit character of `d`.
pub open spec fn digit_char(d: nat) -> char {
    (48 + d) as char
}

/// The decimal numeral of `n`, without leading zeros.
pub open spec fn numeral(n: nat) -> Seq<char>
    decreases n,
{
    if n < 10 {
        seq![digit_char(n)]
    } else {
        numeral(n / 10).push(digit_char(n % 10))
    }
}

/// The decimal numeral of `n`, led by its sign even when it is not negative.
pub open spec fn signed_numeral(n: int) -> Seq<char> {
    if n < 0 {
        seq!['-'] + numeral((-n) as nat)
    } else {
        seq!['+'] + numeral(n as nat)
    }
}

/// The decimal numeral of `n`.
pub fn show(n: u64) -> (out: String)
    ensures
        out@ == numeral(n as nat),
    decreases n,
{
    if n < 10 {
        let mut out = String::new();
        out.push(((48 + n) as u8) as char);
        assert(out@ == numeral(n as nat));
        out
    } else {
        let mut out = show(n / 10);
        out.push(((48 + n % 10) as u8) as char);
        out
    }
}

/// The decimal numeral of `n`.
pub fn show_usize(n: usize) -> (out: String)
    ensures
        out@ == numeral(n as nat),
{
    show(n as u64)
}

/// The decimal numeral of `n`, led by its sign.
pub fn show_signed(n: i64) -> (out: String)
    ensures
        out@ == signed_numeral(n as int),
{
    let mut out = String::new();
    if n < 0 {
        out.push('-');
        let m: u64 = (-(n as i128)) as u64;
        let digits = show(m);
        out.append(digits.as_str());
    } else {
        out.push('+');
        let digits = show(n as u64);
        out.append(digits.as_str());
    }
    assert(out@ == signed_numeral(n as int));
    out
}

/// Whether `c` is one of the ten ASCII digits.
pub open spec fn is_digit(c: char) -> bool {
    '0' <= c <= '9'
}

/// The number that a run of digits denotes.
pub open spec fn digits_value(s: Seq<char>) -> nat
    decreases s.len(),
{
    if s.len() == 0 {
        0
    } else {
        digits_value(s.drop_last()) * 10 + (s.last() as nat - 48) as nat
    }
}

/// `s` without one leading plus sign.
pub open spec fn without_plus(s: Seq<char>) -> Seq<char> {
    if s.len() > 0 && s.first() == '+' {
        s.drop_first()
    } else {
        s
    }
}

/// The unsigned number that `s` denotes: an optional plus sign, then one or
/// more digits and nothing else, for a value that fits 64 bits.
pub open spec fn parsed_u64(s: Seq<char>) -> Option<u64> {
    let d = without_plus(s);
    if d.len() > 0 && (forall|i: int| 0 <= i < d.len() ==> is_digit(#[trigger] d[i]))
        && digits_value(d) <= u64::MAX {
        Some(digits_value(d) as u64)
    } else {
        None
    }
}

/// A longer run of digits denotes at least as much.
proof fn digits_value_grows(s: Seq<char>, n: int)
    requires
        0 <= n <= s.len(),
        forall|i: int| 0 <= i < s.len() ==> is_digit(#[trigger] s[i]),
    ensures
        digits_value(s.take(n)) <= digits_value(s),
    decreases s.len() - n,
{
    if n == s.len() {
        assert(s.take(n) == s);
    } else {
        assert(s.take(n + 1).drop_last() == s.take(n));
        assert(s.take(n + 1).last() == s[n]);
        digits_value_grows(s, n + 1);
    }
}

/// Reads an unsigned 64-bit number.
pub fn parse_u64(v: &[char]) -> (r: Option<u64>)
    ensures
        r == parsed_u64(v@),
{
    let start: usize = if v.len() > 0 && v[0] == '+' {
        1
    } else {
        0
    };
    let ghost d = without_plus(v@);
    assert(d == v@.skip(start as int));
    if start == v.len() {
        return None;
    }
    let mut n: u64 = 0;
    let mut i: usize = start;
    assert(d.take(0) == Seq::<char>::empty());
    while i < v.len()
        invariant
            start <= i <= v@.len(),
            start <= 1,
            d == without_plus(v@),
            d == v@.skip(start as int),
            n == digits_value(d.take(i - start)),
            forall|j: int| 0 <= j < i - start ==> is_digit(#[trigger] d[j]),
        decreases v@.len() - i,
    {
        let c = v[i];
        assert(c == d[i - start]);
        if !('0' <= c && c <= '9') {
            return None;
        }
        let k: u64 = (c as u32 - 48) as u64;
        proof {
            assert(d.take(i - start + 1).drop_last() == d.take(i - start));
            assert(d.take(i - start + 1).last() == c);
        }
        if n > (u64::MAX - k) / 10 {
            proof {
                assert(n * 10 + k > u64::MAX);
                assert(digits_value(d.take(i - start + 1)) > u64::MAX);
                if forall|j: int| 0 <= j < d.len() ==> is_digit(#[trigger] d[j]) {
                    digits_value_grows(d, i - start + 1);
                }
            }
            return None;
        }
        n = n * 10 + k;
        i += 1;
    }
    assert(d.take(d.len() as int) == d);
    Some(n)
}

/// Reads an unsigned 64-bit number.
pub fn parse_u64_text(s: &str) -> (r: Option<u64>)
    ensures
        r == parsed_u64(s@),
{
    let v = chars_of(s);
    parse_u64(v.as_slice())
}

/// A numeral is made of the ten digits, does not begin with a zero unless it
/// is one, and one digit more stands for ten times as much and that digit.
pub proof fn numeral_is_decimal(n: nat, d: nat)
    requires
        d < 10,
    ensures
        numeral(n).len() > 0,
        forall|i: int| 0 <= i < numeral(n).len() ==> '0' <= #[trigger] numeral(n)[i] <= '9',
        n > 0 ==> numeral(n)[0] != '0',
        numeral(d).len() == 1 && numeral(d)[0] as int - '0' as int == d,
        n > 0 ==> numeral(n * 10 + d) == numeral(n) + numeral(d),
    decreases n,
{
    if n >= 10 {
        numeral_is_decimal(n / 10, d);
        let m = numeral(n / 10);
        assert forall|i: int| 0 <= i < numeral(n).len() implies '0' <= #[trigger] numeral(n)[i]
            <= '9' by {
            if i < m.len() {
                assert(numeral(n)[i] == m[i]);
            }
        }
        assert(numeral(n)[0] == m[0]);
    }
    if n > 0 {
        assert((n * 10 + d) / 10 == n && (n * 10 + d) % 10 == d);
        assert(numeral(n * 10 + d) == numeral(n) + numeral(d));
    }
}

/// A number that is written and read again is the same, with a plus sign
/// before it too.
pub proof fn written_number_is_read(n: u64)
    ensures
        parsed_u64(numeral(n as nat)) == Some(n),
        parsed_u64(signed_numeral(n as int)) == Some(n),
{
    let s = numeral(n as nat);
    numeral_is_decimal(n as nat, 0);
    numeral_has_its_value(n as nat);
    assert(without_plus(s) == s);
    assert(without_plus(signed_numeral(n as int)) == s);
    assert forall|i: int| 0 <= i < s.len() implies is_digit(#[trigger] s[i]) by {}
}

proof fn numeral_has_its_value(n: nat)
    ensures
        digits_value(numeral(n)) == n,
    decreases n,
{
    if n >= 10 {
        numeral_has_its_value(n / 10);
        assert(numeral(n).drop_last() == numeral(n / 10));
    } else {
        assert(numeral(n).drop_last() == Seq::<char>::empty());
        assert(digits_value(Seq::<char>::empty()) == 0);
    }
}

/// A number is read only from digits, with at most a plus sign before them,
/// and leading zeros do not change it.
pub proof fn only_digits_are_read(s: Seq<char>)
    ensures
        parsed_u64(s) is Some ==> s.len() > 0 && (forall|i: int|
            0 < i < s.len() ==> '0' <= #[trigger] s[i] <= '9') && ('0' <= s[0] <= '9' || s[0] == '+'
            && s.len() > 1),
        (s.len() > 0 && '0' <= s[0] <= '9') ==> parsed_u64(seq!['0'] + s) == parsed_u64(s),
{
    let d = without_plus(s);
    if parsed_u64(s) is Some {
        assert forall|i: int| 0 < i < s.len() implies '0' <= #[trigger] s[i] <= '9' by {
            if s[0] == '+' {
                assert(is_digit(d[i - 1]));
            } else {
                assert(is_digit(d[i]));
            }
        }
        if s[0] != '+' {
            assert(is_digit(d[0]));
        }
    }
    if s.len() > 0 && '0' <= s[0] <= '9' {
        let z = seq!['0'] + s;
        assert(without_plus(z) == z);
        leading_zero_counts_nothing(s);
        if forall|i: int| 0 <= i < s.len() ==> is_digit(#[trigger] s[i]) {
            assert forall|i: int| 0 <= i < z.len() implies is_digit(#[trigger] z[i]) by {
                if i > 0 {
                    assert(is_digit(s[i - 1]));
                }
            }
        }
        if forall|i: int| 0 <= i < z.len() ==> is_digit(#[trigger] z[i]) {
            assert forall|i: int| 0 <= i < s.len() implies is_digit(#[trigger] s[i]) by {
                assert(is_digit(z[i + 1]));
            }
        }
    }
}

proof fn leading_zero_counts_nothing(s: Seq<char>)
    ensures
        digits_value(seq!['0'] + s) == digits_value(s),
    decreases s.len(),
{
    let z = seq!['0'] + s;
    if s.len() > 0 {
        leading_zero_counts_nothing(s.drop_last());
        assert(z.drop_last() == seq!['0'] + s.drop_last());
    } else {
        assert(z.drop_last() == Seq::<char>::empty());
        assert(digits_value(Seq::<char>::empty()) == 0);
    }
}

/// A negative number is written with its sign before what it would be
/// without it.
pub proof fn sign_leads(n: int)
    ensures
        n >= 0 ==> signed_numeral(n) == "+"@ + numeral(n as nat),
        n < 0 ==> signed_numeral(n) == "-"@ + numeral((-n) as nat),
{
    reveal_strlit("+");
    reveal_strlit("-");
    assert("+"@ == seq!['+']);
    assert("-"@ == seq!['-']);
}

} // verus!
