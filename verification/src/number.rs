//! Decimal numbers: written for output and read from input.

use vstd::prelude::*;
use crate::chars::to_chars;
use crate::text::{lemma_trim_is_range, trim, trim_range};

verus! {

/// The character of the decimal digit `d`.
pub open spec fn digit_char(d: nat) -> char
    recommends
        d < 10,
{
    (48 + d) as u8 as char
}

/// The decimal form of `n`, without leading zeros.
pub open spec fn digits(n: nat) -> Seq<char>
    decreases n,
{
    if n < 10 {
        seq![digit_char(n)]
    } else {
        digits(n / 10).push(digit_char(n % 10))
    }
}

/// Whether `c` is a decimal digit.
pub open spec fn is_digit(c: char) -> bool {
    48 <= c as u32 <= 57
}

/// Whether `s` holds decimal digits only.
pub open spec fn all_digits(s: Seq<char>) -> bool {
    forall|i: int| 0 <= i < s.len() ==> is_digit(#[trigger] s[i])
}

/// The number that the decimal digits `s` write.
pub open spec fn value(s: Seq<char>) -> nat
    decreases s.len(),
{
    if s.len() == 0 {
        0
    } else {
        value(s.drop_last()) * 10 + (s.last() as u32 - 48) as nat
    }
}

/// `s` without the plus sign that may open it.
pub open spec fn unsigned(s: Seq<char>) -> Seq<char> {
    if s.len() > 0 && s[0] == '+' {
        s.drop_first()
    } else {
        s
    }
}

/// The number that `s` writes: once trimmed, an optional plus sign and then
/// one or more decimal digits. Anything else writes no number.
pub open spec fn number_of(s: Seq<char>) -> Option<nat> {
    let d = unsigned(trim(s));
    if d.len() > 0 && all_digits(d) {
        Some(value(d))
    } else {
        None
    }
}

/// A number is at least the number that any of its leading digits write.
pub proof fn lemma_value_grows(s: Seq<char>, k: int)
    requires
        all_digits(s),
        0 <= k <= s.len(),
    ensures
        value(s.take(k)) <= value(s),
    decreases s.len() - k,
{
    if k < s.len() {
        lemma_value_grows(s, k + 1);
        assert(s.take(k + 1).drop_last() =~= s.take(k));
        assert(is_digit(s[k]));
    } else {
        assert(s.take(k) =~= s);
    }
}

/// The decimal form of `n` holds digits only, and they write `n`.
pub proof fn lemma_digits_value(n: nat)
    ensures
        digits(n).len() > 0,
        all_digits(digits(n)),
        value(digits(n)) == n,
    decreases n,
{
    if n < 10 {
        assert(seq![digit_char(n)].drop_last() =~= Seq::<char>::empty());
        assert(value(seq![digit_char(n)].drop_last()) == 0);
    } else {
        lemma_digits_value(n / 10);
        assert(digits(n).drop_last() =~= digits(n / 10));
    }
}

/// The decimal form of `n` reads back as `n`: the number that the listing
/// shows before a todo is the number that names it.
pub proof fn lemma_number_of_digits(n: nat)
    ensures
        number_of(digits(n)) == Some(n),
{
    lemma_digits_value(n);
    let d = digits(n);
    assert(is_digit(d[0]) && is_digit(d.last()));
    lemma_trim_is_range(d, 0, d.len() as int);
    assert(d.subrange(0, d.len() as int) =~= d);
}

/// Appends the decimal form of `n` to `out`.
pub fn push_decimal(out: &mut String, n: usize)
    ensures
        final(out)@ == old(out)@ + digits(n as nat),
    decreases n,
{
    if n >= 10 {
        push_decimal(out, n / 10);
    }
    let d: u8 = (n % 10) as u8;
    out.push((48u8 + d) as char);
    assert(out@ =~= old(out)@ + digits(n as nat));
}

/// The number that `text` writes, where it writes one that fits a `usize`.
pub fn parse_number(text: &str) -> (r: Option<usize>)
    ensures
        r is Some <==> number_of(text@) is Some && number_of(text@)->Some_0 <= usize::MAX,
        r is Some ==> r->Some_0 == number_of(text@)->Some_0,
{
    let chars = to_chars(text);
    let s = chars.as_slice();
    let n: usize = s.len();
    assert(s@.subrange(0, n as int) =~= text@);
    let (a, b) = trim_range(s, 0, n);
    let start: usize = if a < b && s[a] == '+' {
        a + 1
    } else {
        a
    };
    let ghost d = unsigned(trim(text@));
    assert(d =~= s@.subrange(start as int, b as int));
    if start == b {
        return None;
    }
    let mut acc: usize = 0;
    let mut i: usize = start;
    assert(d.take(0) =~= Seq::<char>::empty());
    while i < b
        invariant
            start <= i <= b <= n,
            n == s@.len(),
            d == s@.subrange(start as int, b as int),
            d == unsigned(trim(text@)),
            d.len() > 0,
            all_digits(d.take(i - start)),
            acc == value(d.take(i - start)),
        decreases b - i,
    {
        let c: u32 = s[i] as u32;
        assert(d[i - start] == s@[i as int]);
        if c < 48 || c > 57 {
            assert(!is_digit(d[i - start]));
            return None;
        }
        let digit: usize = (c - 48) as usize;
        proof {
            assert(d.take(i + 1 - start).drop_last() =~= d.take(i - start));
            assert forall|k: int| 0 <= k < i + 1 - start implies is_digit(
                #[trigger] d.take(i + 1 - start)[k],
            ) by {
                if k < i - start {
                    assert(d.take(i - start)[k] == d[k]);
                }
            }
        }
        assert(value(d.take(i + 1 - start)) == acc * 10 + digit);
        if acc > (usize::MAX - digit) / 10 {
            proof {
                if all_digits(d) {
                    lemma_value_grows(d, i + 1 - start);
                }
            }
            return None;
        }
        acc = acc * 10 + digit;
        i += 1;
    }
    assert(d.take(b - start) =~= d);
    Some(acc)
}

} // verus!
