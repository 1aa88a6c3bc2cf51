//! Decimal text: how integers are written on the wire and in names.

use vstd::prelude::*;
use vstd::string::*;

verus! {

/// The character of a decimal digit.
pub open spec fn digit_char(d: int) -> char {
    (d + 48) as char
}

/// A natural number in decimal, without sign or leading zeros.
pub open spec fn decimal_digits(n: nat) -> Seq<char>
    decreases n,
{
    if n < 10 {
        seq![digit_char(n as int)]
    } else {
        decimal_digits(n / 10).push(digit_char((n % 10) as int))
    }
}

/// An integer in decimal: a minus sign before negative numbers, no plus sign.
pub open spec fn decimal(n: int) -> Seq<char> {
    if n < 0 {
        seq!['-'] + decimal_digits((-n) as nat)
    } else {
        decimal_digits(n as nat)
    }
}

/// The text of one decimal digit.
pub fn digit_str(d: u8) -> (s: &'static str)
    requires
        d < 10,
    ensures
        s@ == seq![digit_char(d as int)],
{
    proof {
        reveal_strlit("0");
        reveal_strlit("1");
        reveal_strlit("2");
        reveal_strlit("3");
        reveal_strlit("4");
        reveal_strlit("5");
        reveal_strlit("6");
        reveal_strlit("7");
        reveal_strlit("8");
        reveal_strlit("9");
    }
    let s = match d {
        0 => "0",
        1 => "1",
        2 => "2",
        3 => "3",
        4 => "4",
        5 => "5",
        6 => "6",
        7 => "7",
        8 => "8",
        _ => "9",
    };
    assert(s@ =~= seq![digit_char(d as int)]);
    s
}

/// Appends a natural number in decimal.
pub fn push_decimal_digits(out: &mut String, n: u128)
    ensures
        final(out)@ == old(out)@ + decimal_digits(n as nat),
    decreases n,
{
    if n >= 10 {
        push_decimal_digits(out, n / 10);
    }
    let d = (n % 10) as u8;
    out.append(digit_str(d));
    assert(out@ =~= old(out)@ + decimal_digits(n as nat));
}

/// Appends an integer in decimal.
pub fn push_decimal(out: &mut String, n: i128)
    ensures
        final(out)@ == old(out)@ + decimal(n as int),
{
    if n < 0 {
        proof {
            reveal_strlit("-");
        }
        out.append("-");
        let magnitude: u128 = ((-(n + 1)) as u128) + 1;
        push_decimal_digits(out, magnitude);
        assert(out@ =~= old(out)@ + decimal(n as int));
    } else {
        push_decimal_digits(out, n as u128);
    }
}

/// The digits after the decimal point of a number of thousandths below 1000:
/// nothing for zero, else a point and up to three digits, without trailing zeros.
pub open spec fn fraction_text(r: nat) -> Seq<char> {
    if r == 0 {
        Seq::empty()
    } else if r % 100 == 0 {
        seq!['.', digit_char((r / 100) as int)]
    } else if r % 10 == 0 {
        seq!['.', digit_char((r / 100) as int), digit_char(((r / 10) % 10) as int)]
    } else {
        seq![
            '.',
            digit_char((r / 100) as int),
            digit_char(((r / 10) % 10) as int),
            digit_char((r % 10) as int),
        ]
    }
}

/// A frequency given in hertz, written in kilohertz: the whole kilohertz in
/// decimal, then the remaining hertz as a decimal fraction without trailing
/// zeros (`7850000` is `7850`, `7850500` is `7850.5`, `1` is `0.001`).
pub open spec fn khz_text(hz: nat) -> Seq<char> {
    decimal_digits(hz / 1000) + fraction_text(hz % 1000)
}

/// Appends a frequency given in hertz, written in kilohertz.
pub fn push_khz(out: &mut String, hz: u64)
    ensures
        final(out)@ == old(out)@ + khz_text(hz as nat),
{
    push_decimal_digits(out, (hz / 1000) as u128);
    let r = hz % 1000;
    if r != 0 {
        proof {
            reveal_strlit(".");
        }
        out.append(".");
        out.append(digit_str((r / 100) as u8));
        if r % 100 != 0 {
            out.append(digit_str(((r / 10) % 10) as u8));
            if r % 10 != 0 {
                out.append(digit_str((r % 10) as u8));
            }
        }
    }
    assert(out@ =~= old(out)@ + khz_text(hz as nat));
}

/// Whether a character is a decimal digit.
pub open spec fn is_digit_char(c: char) -> bool {
    '0' <= c <= '9'
}

/// Whether a text is made of decimal digits only.
pub open spec fn all_digit_chars(s: Seq<char>) -> bool {
    forall|i: int| 0 <= i < s.len() ==> is_digit_char(#[trigger] s[i])
}

/// The number that a run of decimal digits stands for.
pub open spec fn digits_number(s: Seq<char>) -> nat
    decreases s.len(),
{
    if s.len() == 0 {
        0
    } else {
        digits_number(s.drop_last()) * 10 + (s.last() as int - 48) as nat
    }
}

/// The index of the first `c` in `s`, or the length of `s` where there is none.
pub open spec fn first_char(s: Seq<char>, c: char) -> int
    decreases s.len(),
{
    if s.len() == 0 {
        0
    } else if s[0] == c {
        0
    } else {
        1 + first_char(s.drop_first(), c)
    }
}

/// The frequency in hertz that a text in kilohertz stands for: decimal
/// digits, and after a point up to three more.
pub open spec fn read_khz(s: Seq<char>) -> Option<nat> {
    let p = first_char(s, '.');
    let whole = s.take(p);
    if whole.len() == 0 || !all_digit_chars(whole) {
        None
    } else if p >= s.len() {
        Some(digits_number(whole) * 1000)
    } else {
        let fraction = s.skip(p + 1);
        if fraction.len() == 0 || fraction.len() > 3 || !all_digit_chars(fraction) {
            None
        } else {
            let scale: nat = if fraction.len() == 1 {
                100
            } else if fraction.len() == 2 {
                10
            } else {
                1
            };
            Some(digits_number(whole) * 1000 + digits_number(fraction) * scale)
        }
    }
}

/// The decimal text of a number is made of digits, and stands for the number.
pub proof fn lemma_decimal_digits(n: nat)
    ensures
        decimal_digits(n).len() >= 1,
        all_digit_chars(decimal_digits(n)),
        digits_number(decimal_digits(n)) == n,
    decreases n,
{
    let d = decimal_digits(n);
    if n < 10 {
        assert(d.drop_last() =~= Seq::<char>::empty());
        assert(d.last() == digit_char(n as int));
        assert(digits_number(d.drop_last()) == 0);
    } else {
        lemma_decimal_digits(n / 10);
        assert(d.drop_last() =~= decimal_digits(n / 10));
        assert(d.last() == digit_char((n % 10) as int));
    }
}

/// The first `c` of a text that starts with a part without `c` lies in what
/// follows that part.
pub proof fn lemma_first_char_skips(a: Seq<char>, b: Seq<char>, c: char)
    requires
        forall|i: int| 0 <= i < a.len() ==> a[i] != c,
    ensures
        first_char(a + b, c) == a.len() + first_char(b, c),
    decreases a.len(),
{
    if a.len() == 0 {
        assert(a + b =~= b);
    } else {
        assert((a + b)[0] == a[0]);
        assert((a + b).drop_first() =~= a.drop_first() + b);
        assert forall|i: int| 0 <= i < a.drop_first().len() implies a.drop_first()[i] != c by {
            assert(a.drop_first()[i] == a[i + 1]);
        }
        lemma_first_char_skips(a.drop_first(), b, c);
    }
}

/// The text of a frequency in kilohertz stands for the frequency: read as a
/// decimal number, it is the number of hertz divided by 1000.
pub proof fn lemma_khz_text_is_the_frequency(hz: nat)
    ensures
        read_khz(khz_text(hz)) == Some(hz),
{
    let whole = decimal_digits(hz / 1000);
    let fraction = fraction_text(hz % 1000);
    let r = hz % 1000;
    let text = khz_text(hz);
    lemma_decimal_digits(hz / 1000);
    assert forall|i: int| 0 <= i < whole.len() implies whole[i] != '.' by {
        assert(is_digit_char(whole[i]));
    }
    lemma_first_char_skips(whole, fraction, '.');
    if r == 0 {
        assert(text =~= whole);
        assert(text.take(whole.len() as int) =~= whole);
    } else {
        assert(fraction[0] == '.');
        assert(first_char(fraction, '.') == 0);
        assert(text.take(whole.len() as int) =~= whole);
        let digits = text.skip(whole.len() as int + 1);
        assert(digits =~= fraction.drop_first());
        reveal_with_fuel(digits_number, 4);
        if r % 100 == 0 {
            assert(digits =~= seq![digit_char((r / 100) as int)]);
            assert(digits.drop_last() =~= Seq::<char>::empty());
        } else if r % 10 == 0 {
            let two = seq![digit_char((r / 100) as int), digit_char(((r / 10) % 10) as int)];
            assert(digits =~= two);
            assert(two.drop_last() =~= seq![digit_char((r / 100) as int)]);
            assert(two.drop_last().drop_last() =~= Seq::<char>::empty());
        } else {
            let three = seq![
                digit_char((r / 100) as int),
                digit_char(((r / 10) % 10) as int),
                digit_char((r % 10) as int),
            ];
            assert(digits =~= three);
            assert(three.drop_last() =~= seq![
                digit_char((r / 100) as int),
                digit_char(((r / 10) % 10) as int),
            ]);
            assert(three.drop_last().drop_last() =~= seq![digit_char((r / 100) as int)]);
            assert(three.drop_last().drop_last().drop_last() =~= Seq::<char>::empty());
        }
    }
}

/// The number of a run of digits is no less than that of any of its prefixes.
pub proof fn lemma_digits_number_grows(s: Seq<char>, k: int)
    requires
        0 <= k <= s.len(),
        all_digit_chars(s),
    ensures
        digits_number(s.take(k)) <= digits_number(s),
    decreases s.len() - k,
{
    if k == s.len() {
        assert(s.take(k) =~= s);
    } else {
        lemma_digits_number_grows(s, k + 1);
        assert(s.take(k + 1).drop_last() =~= s.take(k));
        assert(is_digit_char(s[k]));
        assert(s.take(k + 1).last() == s[k]);
    }
}

} // verus!
