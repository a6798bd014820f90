//! Clock rates written as text: a decimal number and a unit, such as
//! `1.76MHz`.

use crate::scheduler::DEFAULT_FREQUENCY_HZ;
use vstd::prelude::*;

verus! {

/// The most digits a rate may be written with, before and after the point
/// together.
pub const MAX_DIGITS: usize = 18;

/// Whether the byte is an ASCII digit.
pub open spec fn is_digit(b: u8) -> bool {
    0x30 <= b <= 0x39
}

/// The byte with an ASCII capital letter turned into its small letter.
pub open spec fn lowercase(b: u8) -> u8 {
    if 0x41 <= b <= 0x5A {
        (b + 0x20) as u8
    } else {
        b
    }
}

/// How many digits stand in `text` from position `from` on, one after the
/// other.
pub open spec fn digit_run(text: Seq<u8>, from: int) -> int
    decreases text.len() - from,
{
    if 0 <= from < text.len() && is_digit(text[from]) {
        1 + digit_run(text, from + 1)
    } else {
        0
    }
}

/// The number that a run of decimal digits spells.
pub open spec fn numeral(digits: Seq<u8>) -> nat
    decreases digits.len(),
{
    if digits.len() == 0 {
        0
    } else {
        numeral(digits.drop_last()) * 10 + (digits.last() - 0x30) as nat
    }
}

/// Ten to the power `n`.
pub open spec fn pow10(n: nat) -> nat
    decreases n,
{
    if n == 0 {
        1
    } else {
        10 * pow10((n - 1) as nat)
    }
}

/// How many hertz one of the unit is: `Hz`, `kHz` or `MHz`, in capital or
/// small letters.
pub open spec fn unit_scale(unit: Seq<u8>) -> Option<nat> {
    if unit.len() == 2 && lowercase(unit[0]) == 0x68 && lowercase(unit[1]) == 0x7A {
        Some(1)
    } else if unit.len() == 3 && lowercase(unit[0]) == 0x6B && lowercase(unit[1]) == 0x68
        && lowercase(unit[2]) == 0x7A {
        Some(1_000)
    } else if unit.len() == 3 && lowercase(unit[0]) == 0x6D && lowercase(unit[1]) == 0x68
        && lowercase(unit[2]) == 0x7A {
        Some(1_000_000)
    } else {
        None
    }
}

/// The rate written as the digits `whole`, then, if there are any, a point
/// and the digits `fraction`, then `unit`.
pub open spec fn spelling(whole: Seq<u8>, fraction: Seq<u8>, unit: Seq<u8>) -> Seq<u8> {
    if fraction.len() > 0 {
        whole + seq![0x2Eu8] + fraction + unit
    } else {
        whole + unit
    }
}

/// The whole hertz in a rate of `whole.fraction` units of `scale` hertz,
/// what is left of a hertz dropped.
pub open spec fn hertz(whole: Seq<u8>, fraction: Seq<u8>, scale: nat) -> nat {
    numeral(whole + fraction) * scale / pow10(fraction.len())
}

/// Whether every byte is a digit.
pub open spec fn all_digits(digits: Seq<u8>) -> bool {
    forall|k: int| 0 <= k < digits.len() ==> is_digit(#[trigger] digits[k])
}

/// The rate in hertz that `text` spells. The text is one or more digits,
/// then optionally a point and one or more digits, then a unit, with
/// nothing before, between or after, and at most eighteen digits in all.
/// Any other text spells no rate, nor does one whose rate is beyond
/// `u64`.
pub open spec fn parse_spec(text: Seq<u8>) -> Option<u64> {
    let whole = digit_run(text, 0);
    let point = whole < text.len() && text[whole] == 0x2E;
    let fraction = if point {
        digit_run(text, whole + 1)
    } else {
        0
    };
    let end = if point {
        whole + 1 + fraction
    } else {
        whole
    };
    if whole == 0 || (point && fraction == 0) || whole + fraction > 18 {
        None
    } else {
        match unit_scale(text.subrange(end, text.len() as int)) {
            None => None,
            Some(scale) => {
                let hz = hertz(
                    text.subrange(0, whole),
                    text.subrange(end - fraction, end),
                    scale,
                );
                if hz <= u64::MAX {
                    Some(hz as u64)
                } else {
                    None
                }
            },
        }
    }
}

/// The digits from `from` on are digits, and what follows them is none.
pub proof fn lemma_digit_run(text: Seq<u8>, from: int)
    requires
        0 <= from <= text.len(),
    ensures
        0 <= digit_run(text, from) <= text.len() - from,
        forall|k: int| from <= k < from + digit_run(text, from) ==> is_digit(#[trigger] text[k]),
        from + digit_run(text, from) < text.len() ==> !is_digit(
            text[from + digit_run(text, from)],
        ),
    decreases text.len() - from,
{
    if from < text.len() && is_digit(text[from]) {
        lemma_digit_run(text, from + 1);
    }
}

/// A stretch of digits that ends at the end of the text or before a byte
/// that is no digit is the whole run of digits from where it starts.
pub proof fn lemma_digit_run_is(text: Seq<u8>, from: int, to: int)
    requires
        0 <= from <= to <= text.len(),
        forall|k: int| from <= k < to ==> is_digit(#[trigger] text[k]),
        to < text.len() ==> !is_digit(text[to]),
    ensures
        digit_run(text, from) == to - from,
    decreases to - from,
{
    if from < to {
        lemma_digit_run_is(text, from + 1, to);
    }
}

/// A number of at most `n` digits is below ten to the `n`.
pub proof fn lemma_numeral_bound(digits: Seq<u8>)
    requires
        all_digits(digits),
    ensures
        numeral(digits) < pow10(digits.len()),
    decreases digits.len(),
{
    if digits.len() > 0 {
        lemma_numeral_bound(digits.drop_last());
    }
}

/// Ten to a power grows with the power.
pub proof fn lemma_pow10_grows(n: nat, m: nat)
    requires
        n <= m,
    ensures
        1 <= pow10(n) <= pow10(m),
    decreases m,
{
    if n < m {
        lemma_pow10_grows(n, (m - 1) as nat);
    } else if n > 0 {
        lemma_pow10_grows((n - 1) as nat, (n - 1) as nat);
    }
}

/// Ten to the eighteenth.
pub proof fn lemma_pow10_eighteen()
    ensures
        pow10(18) == 1_000_000_000_000_000_000,
{
    reveal_with_fuel(pow10, 19);
}

/// Reading undoes writing: a rate spelt with digits, an optional fraction
/// and a unit reads as the hertz it stands for, or as nothing if those are
/// beyond `u64`.
pub proof fn lemma_parse_spelling(whole: Seq<u8>, fraction: Seq<u8>, unit: Seq<u8>)
    requires
        whole.len() >= 1,
        all_digits(whole),
        all_digits(fraction),
        whole.len() + fraction.len() <= 18,
        unit_scale(unit) is Some,
    ensures
        ({
            let hz = hertz(whole, fraction, unit_scale(unit)->0);
            parse_spec(spelling(whole, fraction, unit)) == if hz <= u64::MAX {
                Some(hz as u64)
            } else {
                None
            }
        }),
{
    let text = spelling(whole, fraction, unit);
    let w = whole.len() as int;
    let f = fraction.len() as int;
    assert(!is_digit(unit[0]));
    if f > 0 {
        assert forall|k: int| 0 <= k < w implies is_digit(#[trigger] text[k]) by {
            assert(text[k] == whole[k]);
        }
        assert(text[w] == 0x2E);
        lemma_digit_run_is(text, 0, w);
        assert forall|k: int| w + 1 <= k < w + 1 + f implies is_digit(#[trigger] text[k]) by {
            assert(text[k] == fraction[k - w - 1]);
        }
        assert(text[w + 1 + f] == unit[0]);
        lemma_digit_run_is(text, w + 1, w + 1 + f);
        assert(text.subrange(0, w) =~= whole);
        assert(text.subrange(w + 1, w + 1 + f) =~= fraction);
        assert(text.subrange(w + 1 + f, text.len() as int) =~= unit);
    } else {
        assert forall|k: int| 0 <= k < w implies is_digit(#[trigger] text[k]) by {
            assert(text[k] == whole[k]);
        }
        assert(text[w] == unit[0]);
        lemma_digit_run_is(text, 0, w);
        assert(text.subrange(0, w) =~= whole);
        assert(text.subrange(w, w) =~= fraction);
        assert(text.subrange(w, text.len() as int) =~= unit);
    }
}

/// Whatever reads as a rate is spelt as digits, an optional fraction and a
/// unit.
pub proof fn lemma_parse_sound(text: Seq<u8>)
    requires
        parse_spec(text) is Some,
    ensures
        exists|whole: Seq<u8>, fraction: Seq<u8>, unit: Seq<u8>|
            {
                &&& #[trigger] spelling(whole, fraction, unit) == text
                &&& whole.len() >= 1
                &&& all_digits(whole)
                &&& all_digits(fraction)
                &&& whole.len() + fraction.len() <= 18
                &&& unit_scale(unit) matches Some(scale)
                &&& parse_spec(text) == Some(hertz(whole, fraction, scale) as u64)
            },
{
    let w = digit_run(text, 0);
    lemma_digit_run(text, 0);
    let point = w < text.len() && text[w] == 0x2E;
    if point {
        lemma_digit_run(text, w + 1);
    }
    let f = if point {
        digit_run(text, w + 1)
    } else {
        0
    };
    let end = if point {
        w + 1 + f
    } else {
        w
    };
    let whole = text.subrange(0, w);
    let fraction = text.subrange(end - f, end);
    let unit = text.subrange(end, text.len() as int);
    assert(spelling(whole, fraction, unit) =~= text);
}

fn digit_of(b: u8) -> (d: Option<u64>)
    ensures
        d is Some <==> is_digit(b),
        d matches Some(v) ==> v == b - 0x30,
{
    if 0x30 <= b && b <= 0x39 {
        Some((b - 0x30) as u64)
    } else {
        None
    }
}

fn lower(b: u8) -> (l: u8)
    ensures
        l == lowercase(b),
{
    if 0x41 <= b && b <= 0x5A {
        b + 0x20
    } else {
        b
    }
}

fn scale_of(text: &[u8], from: usize) -> (scale: Option<u64>)
    requires
        from <= text@.len(),
    ensures
        scale matches Some(s) ==> unit_scale(text@.subrange(from as int, text@.len() as int))
            == Some(s as nat),
        scale is None ==> unit_scale(text@.subrange(from as int, text@.len() as int)) is None,
{
    let ghost unit = text@.subrange(from as int, text@.len() as int);
    let n = text.len() - from;
    if n == 2 {
        assert(unit[0] == text@[from as int] && unit[1] == text@[from + 1]);
        if lower(text[from]) == 0x68 && lower(text[from + 1]) == 0x7A {
            return Some(1);
        }
        None
    } else if n == 3 {
        assert(unit[0] == text@[from as int] && unit[1] == text@[from + 1] && unit[2] == text@[from
            + 2]);
        if lower(text[from + 1]) == 0x68 && lower(text[from + 2]) == 0x7A {
            let prefix = lower(text[from]);
            if prefix == 0x6B {
                return Some(1_000);
            }
            if prefix == 0x6D {
                return Some(1_000_000);
            }
        }
        None
    } else {
        None
    }
}

/// Reads a clock rate such as `60Hz`, `500kHz` or `1.76MHz` and gives it in
/// whole hertz; `None` for text that spells no rate.
pub fn parse_frequency(text: &[u8]) -> (hz: Option<u64>)
    ensures
        hz == parse_spec(text@),
{
    let n = text.len();
    let mut mantissa: u64 = 0;
    let mut i: usize = 0;
    proof {
        lemma_pow10_eighteen();
        assert(text@.subrange(0, 0) =~= Seq::<u8>::empty());
    }
    while i < n && digit_of(text[i]).is_some()
        invariant
            i <= n == text@.len(),
            i <= 18,
            digit_run(text@, 0) == i + digit_run(text@, i as int),
            mantissa == numeral(text@.subrange(0, i as int)),
            all_digits(text@.subrange(0, i as int)),
            pow10(18) == 1_000_000_000_000_000_000,
        decreases n - i,
    {
        if i == 18 {
            proof {
                let run = digit_run(text@, 0);
                lemma_digit_run(text@, i as int + 1);
                assert(digit_run(text@, i as int) == 1 + digit_run(text@, i as int + 1));
                lemma_digit_run(text@, 0);
                if run < n {
                    lemma_digit_run(text@, run + 1);
                }
            }
            return None;
        }
        let digit = digit_of(text[i]).unwrap();
        proof {
            let seen = text@.subrange(0, i as int);
            let next = text@.subrange(0, i as int + 1);
            assert(next.drop_last() =~= seen);
            assert forall|k: int| 0 <= k < next.len() implies is_digit(#[trigger] next[k]) by {
                if k < i {
                    assert(next[k] == seen[k]);
                }
            }
            lemma_numeral_bound(seen);
            lemma_pow10_grows(i as nat, 17);
            assert(pow10(18) == 10 * pow10(17));
        }
        mantissa = mantissa * 10 + digit;
        i = i + 1;
    }
    let whole = i;
    if whole == 0 {
        return None;
    }
    assert(digit_run(text@, 0) == whole);
    let mut divisor: u64 = 1;
    let mut fraction: usize = 0;
    let point = i < n && text[i] == 0x2E;
    let ghost head = text@.subrange(0, whole as int);
    if point {
        i = i + 1;
        proof {
            assert(head + text@.subrange(whole as int + 1, i as int) =~= head);
        }
        while i < n && digit_of(text[i]).is_some()
            invariant
                whole + 1 <= i <= n == text@.len(),
                1 <= whole,
                head == text@.subrange(0, whole as int),
                digit_run(text@, 0) == whole,
                text@[whole as int] == 0x2E,
                fraction == i - whole - 1,
                whole + fraction <= 18,
                digit_run(text@, whole as int + 1) == fraction + digit_run(text@, i as int),
                mantissa == numeral(head + text@.subrange(whole as int + 1, i as int)),
                all_digits(head + text@.subrange(whole as int + 1, i as int)),
                divisor == pow10(fraction as nat),
                pow10(18) == 1_000_000_000_000_000_000,
            decreases n - i,
        {
            if whole + fraction == 18 {
                proof {
                    lemma_digit_run(text@, i as int + 1);
                }
                return None;
            }
            let digit = digit_of(text[i]).unwrap();
            proof {
                let seen = head + text@.subrange(whole as int + 1, i as int);
                let next = head + text@.subrange(whole as int + 1, i as int + 1);
                assert(next.drop_last() =~= seen);
                assert(next.last() == text@[i as int]);
                assert forall|k: int| 0 <= k < next.len() implies is_digit(#[trigger] next[k]) by {
                    if k < seen.len() {
                        assert(next[k] == seen[k]);
                    }
                }
                lemma_numeral_bound(seen);
                lemma_pow10_grows((whole + fraction) as nat, 17);
                lemma_pow10_grows(fraction as nat + 1, 18);
                assert(pow10(18) == 10 * pow10(17));
            }
            mantissa = mantissa * 10 + digit;
            divisor = divisor * 10;
            fraction = fraction + 1;
            i = i + 1;
        }
        if fraction == 0 {
            return None;
        }
        assert(digit_run(text@, whole as int + 1) == fraction);
    } else {
        proof {
            assert(head + text@.subrange(whole as int, whole as int) =~= head);
        }
    }
    let ghost digits = head + text@.subrange(i as int - fraction as int, i as int);
    proof {
        assert(mantissa == numeral(digits));
        lemma_numeral_bound(digits);
        lemma_pow10_grows((whole + fraction) as nat, 18);
        lemma_pow10_grows(fraction as nat, fraction as nat);
    }
    match scale_of(text, i) {
        None => None,
        Some(scale) => {
            assert(mantissa < 1_000_000_000_000_000_000);
            assert(scale == 1 || scale == 1_000 || scale == 1_000_000);
            assert(mantissa * scale <= 1_000_000_000_000_000_000 * 1_000_000) by (nonlinear_arith)
                requires
                    mantissa < 1_000_000_000_000_000_000,
                    scale <= 1_000_000,
            ;
            let hz: u128 = (mantissa as u128 * scale as u128) / (divisor as u128);
            if hz > u64::MAX as u128 {
                None
            } else {
                Some(hz as u64)
            }
        },
    }
}

/// The clock rate to run at: what `text` spells, or the default where it
/// spells no rate or a rate of zero.
pub fn frequency_or_default(text: &[u8]) -> (hz: u64)
    ensures
        hz == match parse_spec(text@) {
            Some(rate) if rate > 0 => rate,
            _ => DEFAULT_FREQUENCY_HZ,
        },
{
    match parse_frequency(text) {
        Some(rate) => if rate > 0 {
            rate
        } else {
            DEFAULT_FREQUENCY_HZ
        },
        None => DEFAULT_FREQUENCY_HZ,
    }
}

} // verus!
