//! Numerals: writing and reading numbers in base ten and base sixteen.

use crate::text::basic::chars_of;
use vstd::prelude::*;

verus! {

/// The digit for `d`, which is under sixteen.
pub open spec fn digit(d: int) -> char {
    if d < 10 {
        (('0' as int) + d) as char
    } else {
        (('a' as int) + (d - 10)) as char
    }
}

fn digit_char(d: u8) -> (r: char)
    requires
        d < 16,
    ensures
        r == digit(d as int),
{
    if d < 10 {
        (48u8 + d) as char
    } else {
        (97u8 + (d - 10)) as char
    }
}

/// The numeral of `n` in the given base, without leading zeros.
pub open spec fn numeral(n: nat, base: nat) -> Seq<char>
    decreases n,
{
    if base < 2 || n < base {
        seq![digit(n as int)]
    } else {
        proof {
            assert(n / base < n) by (nonlinear_arith)
                requires
                    n >= base,
                    base >= 2,
            ;
        }
        numeral(n / base, base).push(digit((n % base) as int))
    }
}

/// The decimal numeral of `n`.
pub open spec fn decimal(n: nat) -> Seq<char> {
    numeral(n, 10)
}

fn numeral_text(n: u64, base: u64) -> (r: String)
    requires
        base == 10 || base == 16,
    ensures
        r@ == numeral(n as nat, base as nat),
    decreases n,
{
    if n < base {
        let mut r = String::new();
        r.push(digit_char(n as u8));
        assert(r@ == seq![digit(n as int)]);
        r
    } else {
        assert(n / base < n && 0 <= n % base < base) by (nonlinear_arith)
            requires
                n >= base,
                base >= 2,
        ;
        let mut r = numeral_text(n / base, base);
        let d = (n % base) as u8;
        r.push(digit_char(d));
        r
    }
}

/// The decimal numeral of `n`.
pub fn decimal_text(n: u64) -> (r: String)
    ensures
        r@ == decimal(n as nat),
{
    numeral_text(n, 10)
}

/// The hexadecimal numeral of `n`.
pub fn hex_text(n: u64) -> (r: String)
    ensures
        r@ == numeral(n as nat, 16),
{
    numeral_text(n, 16)
}

/// The sixteen hexadecimal digits of `n`, leading zeros included.
pub open spec fn hex16(n: nat) -> Seq<char> {
    Seq::new(16, |i: int| digit(((n / hex_weight(i)) % 16) as int))
}

/// What the digit at position `i` of sixteen weighs.
pub open spec fn hex_weight(i: int) -> nat
    decreases 15 - i,
{
    if i >= 15 {
        1
    } else {
        16 * hex_weight(i + 1)
    }
}

/// The sixteen hexadecimal digits of `n`.
pub fn hex16_text(n: u64) -> (r: String)
    ensures
        r@ == hex16(n as nat),
{
    let mut r = String::new();
    let mut w: u64 = 1_152_921_504_606_846_976;
    let mut i: usize = 0;
    assert(hex_weight(0) == 1_152_921_504_606_846_976) by {
        reveal_with_fuel(hex_weight, 17);
    }
    while i < 16
        invariant
            i <= 16,
            i < 16 ==> w == hex_weight(i as int),
            r@.len() == i,
            forall|j: int|
                0 <= j < i ==> #[trigger] r@[j] == digit(((n as nat / hex_weight(j)) % 16) as int),
        decreases 16 - i,
    {
        assert(w >= 1) by {
            lemma_hex_weight(i as int);
        }
        let d = ((n / w) % 16) as u8;
        r.push(digit_char(d));
        if i < 15 {
            assert(hex_weight(i as int) == 16 * hex_weight(i + 1));
            w = w / 16;
        }
        i += 1;
    }
    assert(r@ == hex16(n as nat));
    r
}

proof fn lemma_hex_weight(i: int)
    ensures
        hex_weight(i) >= 1,
    decreases 15 - i,
{
    if i < 15 {
        lemma_hex_weight(i + 1);
    }
}

// Reading

/// `c` is a decimal digit.
pub open spec fn is_digit(c: char) -> bool {
    '0' <= c <= '9'
}

/// Every character of `s` is a decimal digit.
pub open spec fn all_digits(s: Seq<char>) -> bool {
    forall|i: int| 0 <= i < s.len() ==> is_digit(#[trigger] s[i])
}

/// The number that the digits `s` write.
pub open spec fn value_of(s: Seq<char>) -> nat
    decreases s.len(),
{
    if s.len() == 0 {
        0
    } else {
        (value_of(s.drop_last()) * 10 + (s.last() as int - '0' as int)) as nat
    }
}

/// The digits of a numeral: what follows the plus sign that may lead it.
pub open spec fn unsigned_digits(s: Seq<char>) -> Seq<char> {
    if s.len() > 1 && s[0] == '+' {
        s.drop_first()
    } else {
        s
    }
}

/// The number at most `max` that `s` writes: decimal digits, at least one,
/// with at most one plus sign before them.
pub open spec fn number_of(s: Seq<char>, max: nat) -> Option<nat> {
    let d = unsigned_digits(s);
    if d.len() > 0 && all_digits(d) && value_of(d) <= max {
        Some(value_of(d))
    } else {
        None
    }
}

proof fn lemma_value_grows(s: Seq<char>, i: int)
    requires
        all_digits(s),
        0 <= i <= s.len(),
    ensures
        value_of(s.take(i)) <= value_of(s),
    decreases s.len() - i,
{
    if i < s.len() {
        lemma_value_grows(s, i + 1);
        assert(s.take(i + 1).drop_last() == s.take(i));
        assert(is_digit(s[i]));
    } else {
        assert(s.take(i) == s);
    }
}

/// The number that `s` writes, where it is at most `max`.
pub fn parse_number(s: &str, max: u64) -> (r: Option<u64>)
    ensures
        r matches Some(n) ==> number_of(s@, max as nat) == Some(n as nat) && n <= max,
        r is None ==> number_of(s@, max as nat) is None,
{
    let sv = chars_of(s);
    let start: usize = if sv.len() > 1 && sv[0] == '+' {
        1
    } else {
        0
    };
    let ghost d = unsigned_digits(s@);
    assert(d == s@.skip(start as int));
    if start == sv.len() {
        return None;
    }
    let mut n: u64 = 0;
    let mut i: usize = start;
    assert(d.take(0) == Seq::<char>::empty());
    while i < sv.len()
        invariant
            sv@ == s@,
            start <= i <= sv.len(),
            start <= 1,
            d == unsigned_digits(s@),
            d == s@.skip(start as int),
            d.len() > 0,
            n == value_of(d.take(i - start)),
            n <= max,
            all_digits(d.take(i - start)),
        decreases sv.len() - i,
    {
        let c = sv[i];
        let ghost k = i - start;
        assert(d.take(k + 1).drop_last() == d.take(k));
        assert(d.take(k + 1).last() == c);
        if c < '0' || c > '9' {
            assert(!is_digit(d[k]));
            return None;
        }
        assert(is_digit(c));
        let v = (c as u32 - 48u32) as u64;
        assert(all_digits(d.take(k + 1))) by {
            assert forall|j: int| 0 <= j < k + 1 implies is_digit(#[trigger] d.take(k + 1)[j]) by {
                if j < k {
                    assert(d.take(k + 1)[j] == d.take(k)[j]);
                }
            }
        }
        let ghost next = value_of(d.take(k + 1));
        assert(next == n * 10 + v);
        if n > max / 10 || v > max || n * 10 > max - v {
            proof {
                if all_digits(d) {
                    lemma_value_grows(d, k + 1);
                    assert(value_of(d) >= next > max);
                }
            }
            return None;
        }
        n = n * 10 + v;
        i += 1;
    }
    assert(d.take(d.len() as int) == d);
    Some(n)
}

/// A numeral has digits only, and reads back as the number it was written for.
pub proof fn lemma_decimal_value(n: nat)
    ensures
        decimal(n).len() > 0,
        all_digits(decimal(n)),
        value_of(decimal(n)) == n,
    decreases n,
{
    assert(decimal(n).len() > 0);
    if n < 10 {
        assert(decimal(n).drop_last() == Seq::<char>::empty());
        assert(value_of(decimal(n).drop_last()) == 0);
    } else {
        lemma_decimal_value(n / 10);
        assert(decimal(n).drop_last() == decimal(n / 10));
        assert forall|i: int| 0 <= i < decimal(n).len() implies is_digit(
            #[trigger] decimal(n)[i],
        ) by {
            if i < decimal(n).len() - 1 {
                assert(decimal(n)[i] == decimal(n / 10)[i]);
            }
        }
    }
}

/// Reading the decimal numeral of `n` gives `n` back.
pub proof fn law_decimal_reads_back(n: nat, max: nat)
    requires
        n <= max,
    ensures
        number_of(decimal(n), max) == Some(n),
{
    lemma_decimal_value(n);
    assert(is_digit(decimal(n)[0]));
}

/// Every digit counts for its place: a digit that is written behind others
/// makes their number ten times as large and adds its own, from nought to
/// nine, and no two numbers have one numeral.
pub proof fn law_digits_count(s: Seq<char>, d: nat, m: nat, n: nat)
    requires
        d < 10,
    ensures
        decimal(d) == seq![(('0' as int) + d) as char],
        value_of(s + decimal(d)) == 10 * value_of(s) + d,
        decimal(m) == decimal(n) ==> m == n,
{
    assert((s + decimal(d)).drop_last() == s);
    lemma_decimal_value(m);
    lemma_decimal_value(n);
}

/// A text with anything but digits behind its sign writes no number, nor does
/// one whose number is too large.
pub proof fn law_only_digits_write_numbers(s: Seq<char>, max: nat)
    ensures
        number_of(s, max) matches Some(n) ==> n <= max && s.len() > 0 && (is_digit(s[0]) || s[0]
            == '+') && forall|i: int| 1 <= i < s.len() ==> is_digit(#[trigger] s[i]),
        forall|n: nat| n > max ==> number_of(#[trigger] decimal(n), max) is None,
{
    if number_of(s, max) is Some {
        let d = unsigned_digits(s);
        assert(is_digit(d[0]));
        assert forall|i: int| 1 <= i < s.len() implies is_digit(#[trigger] s[i]) by {
            if d != s {
                assert(d[i - 1] == s[i]);
            }
        }
    }
    assert forall|n: nat| n > max implies number_of(#[trigger] decimal(n), max) is None by {
        lemma_decimal_value(n);
        assert(is_digit(decimal(n)[0]));
    }
}

/// Sixteen hexadecimal digits are the digits of the number from the highest
/// place to the lowest: each counts sixteen times the one behind it. A shorter
/// numeral grows by one digit with each power of sixteen.
pub proof fn law_hexadecimal_places(n: nat, d: nat, i: int)
    requires
        d < 16,
    ensures
        hex16(n).len() == 16,
        0 <= i < 16 ==> hex16(n)[i] == digit(
            ((n / vstd::arithmetic::power::pow(16, (15 - i) as nat) as nat) % 16) as int,
        ),
        numeral(d, 16) == seq![digit(d as int)],
        n > 0 ==> numeral(16 * n + d, 16) == numeral(n, 16).push(digit(d as int)),
        d < 10 ==> digit(d as int) == (('0' as int) + d) as char,
        d >= 10 ==> digit(d as int) == (('a' as int) + (d - 10)) as char,
{
    if 0 <= i < 16 {
        lemma_hex_weight_power(i);
    }
    if n > 0 {
        assert((16 * n + d) / 16 == n && (16 * n + d) % 16 == d);
    }
}

proof fn lemma_hex_weight_power(i: int)
    requires
        0 <= i < 16,
    ensures
        hex_weight(i) == vstd::arithmetic::power::pow(16, (15 - i) as nat),
    decreases 15 - i,
{
    if i < 15 {
        lemma_hex_weight_power(i + 1);
        reveal(vstd::arithmetic::power::pow);
    } else {
        vstd::arithmetic::power::lemma_pow0(16);
    }
}

} // verus!
