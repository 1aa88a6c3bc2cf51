//! Reading a client's line, in executable form.

use crate::sdr::kiwi::command::{
    after_prefix, digit_run, hex_value, is_i64, percent_decoded, percent_decoded_text,
    read_agc, read_ar_ok, read_command, read_compression, read_field, read_flag,
    read_flag_field, read_identity, read_int, read_location, read_login, read_tune, tuning_of,
    CommandView,
};
use crate::sdr::kiwi::message::KiwiClientMessage;
use crate::sdr::kiwi::text_of_utf8;
use crate::sdr::Tuning;
use crate::text::{
    all_digit_chars, digits_number, first_char, is_digit_char, lemma_digits_number_grows,
    read_khz,
};
use vstd::prelude::*;
use vstd::string::*;
use vstd::utf8::encode_utf8_decode_utf8;

verus! {

/// Whether a character is a decimal digit.
pub fn char_is_digit(c: char) -> (r: bool)
    ensures
        r == is_digit_char(c),
{
    '0' <= c && c <= '9'
}

/// What follows `prefix` in `s`, where `s` starts with it.
pub fn strip_prefix<'a>(s: &'a str, prefix: &str) -> (rest: Option<&'a str>)
    ensures
        match rest {
            Some(r) => after_prefix(s@, prefix@) == Some(r@),
            None => after_prefix(s@, prefix@) is None,
        },
{
    reveal(after_prefix);
    let n = s.unicode_len();
    let k = prefix.unicode_len();
    if k > n {
        return None;
    }
    let mut i: usize = 0;
    while i < k
        invariant
            i <= k,
            k <= n,
            n == s@.len(),
            k == prefix@.len(),
            forall|j: int| 0 <= j < i ==> s@[j] == prefix@[j],
        decreases k - i,
    {
        if s.get_char(i) != prefix.get_char(i) {
            proof {
                reveal(after_prefix);
                assert(s@.take(k as int)[i as int] != prefix@[i as int]);
            }
            return None;
        }
        i += 1;
    }
    assert(s@.take(k as int) =~= prefix@);
    let rest = s.substring_char(k, n);
    assert(rest@ =~= s@.skip(k as int));
    Some(rest)
}

/// The flag that `s` starts with, and what follows it.
pub fn take_flag<'a>(s: &'a str) -> (r: Option<(bool, &'a str)>)
    ensures
        match r {
            Some((on, rest)) => read_flag(s@) == Some((on, rest@)),
            None => read_flag(s@) is None,
        },
{
    reveal(read_flag);
    let n = s.unicode_len();
    if n == 0 {
        return None;
    }
    let c = s.get_char(0);
    if c == '1' || c == '0' {
        let rest = s.substring_char(1, n);
        assert(rest@ =~= s@.drop_first());
        Some((c == '1', rest))
    } else {
        None
    }
}

/// Where the run of digits ends that starts at `from`.
fn digit_run_end(s: &str, from: usize) -> (end: usize)
    requires
        from <= s@.len(),
    ensures
        from <= end <= s@.len(),
        end - from == digit_run(s@.skip(from as int)),
{
    let n = s.unicode_len();
    let mut i: usize = from;
    while i < n && char_is_digit(s.get_char(i))
        invariant
            from <= i <= n,
            n == s@.len(),
            digit_run(s@.skip(from as int)) == (i - from) + digit_run(s@.skip(i as int)),
        decreases n - i,
    {
        proof {
            let here = s@.skip(i as int);
            assert(here[0] == s@[i as int]);
            assert(here.drop_first() =~= s@.skip(i + 1));
        }
        i += 1;
    }
    proof {
        let here = s@.skip(i as int);
        if i < n {
            assert(here[0] == s@[i as int]);
        }
    }
    i
}

/// The number that the characters from `from` to `to` stand for, where they
/// are digits and the number is no more than `cap`.
fn number_between(s: &str, from: usize, to: usize, cap: u128) -> (r: Option<u128>)
    requires
        from <= to <= s@.len(),
        cap <= 0xFFFF_FFFF_FFFF_FFFF_FFFF,
    ensures
        match r {
            Some(v) => all_digit_chars(s@.subrange(from as int, to as int)) && digits_number(
                s@.subrange(from as int, to as int),
            ) == v && v <= cap,
            None => !all_digit_chars(s@.subrange(from as int, to as int)) || digits_number(
                s@.subrange(from as int, to as int),
            ) > cap,
        },
{
    let ghost digits = s@.subrange(from as int, to as int);
    let mut acc: u128 = 0;
    let mut i: usize = from;
    assert(digits.take(0) =~= Seq::<char>::empty());
    while i < to
        invariant
            from <= i <= to,
            to <= s@.len(),
            digits == s@.subrange(from as int, to as int),
            all_digit_chars(digits.take(i - from)),
            acc == digits_number(digits.take(i - from)),
            acc <= cap,
            cap <= 0xFFFF_FFFF_FFFF_FFFF_FFFF,
        decreases to - i,
    {
        let c = s.get_char(i);
        assert(digits[i - from] == c);
        if !char_is_digit(c) {
            return None;
        }
        proof {
            let next = digits.take(i - from + 1);
            assert(next.drop_last() =~= digits.take(i - from));
            assert(next.last() == c);
            assert forall|j: int| 0 <= j < next.len() implies is_digit_char(#[trigger] next[j]) by {
                if j < i - from {
                    assert(digits.take(i - from)[j] == next[j]);
                }
            }
        }
        acc = acc * 10 + (c as u32 - 48) as u128;
        if acc > cap {
            proof {
                if all_digit_chars(digits) {
                    lemma_digits_number_grows(digits, i - from + 1);
                }
            }
            return None;
        }
        i += 1;
    }
    assert(digits.take(i - from) =~= digits);
    Some(acc)
}

/// The integer that `s` starts with, and what follows it, where the
/// integer is one that a message can hold.
pub fn take_int<'a>(s: &'a str) -> (r: Option<(i64, &'a str)>)
    ensures
        match r {
            Some((n, rest)) => read_int(s@) == Some((n as int, rest@)),
            None => match read_int(s@) {
                Some((n, _)) => !is_i64(n),
                None => true,
            },
        },
{
    reveal(read_int);
    let n = s.unicode_len();
    let negative = n > 0 && s.get_char(0) == '-';
    let start: usize = if negative {
        1
    } else {
        0
    };
    let ghost body = if negative {
        s@.drop_first()
    } else {
        s@
    };
    assert(body =~= s@.skip(start as int));
    let end = digit_run_end(s, start);
    if end == start {
        return None;
    }
    assert(body.take(end - start) =~= s@.subrange(start as int, end as int));
    assert(body.skip(end - start) =~= s@.subrange(end as int, n as int));
    match number_between(s, start, end, 0x8000_0000_0000_0000) {
        None => {
            proof {
                let digits = s@.subrange(start as int, end as int);
                lemma_run_is_digits(body, end - start);
            }
            None
        },
        Some(magnitude) => {
            let rest = s.substring_char(end, n);
            if negative {
                if magnitude == 0x8000_0000_0000_0000 {
                    Some((i64::MIN, rest))
                } else {
                    Some((-(magnitude as i64), rest))
                }
            } else if magnitude == 0x8000_0000_0000_0000 {
                None
            } else {
                Some((magnitude as i64, rest))
            }
        },
    }
}

/// The run of digits that a text starts with is made of digits.
pub proof fn lemma_run_is_digits(s: Seq<char>, k: int)
    requires
        0 <= k <= digit_run(s),
    ensures
        k <= s.len(),
        all_digit_chars(s.take(k)),
    decreases k,
{
    if k > 0 {
        lemma_run_is_digits(s.drop_first(), k - 1);
        assert forall|j: int| 0 <= j < k implies is_digit_char(#[trigger] s.take(k)[j]) by {
            if j > 0 {
                assert(s.take(k)[j] == s.drop_first().take(k - 1)[j - 1]);
            }
        }
    }
}

/// The integer that follows `label` at the start of `s`, and what follows it.
pub fn take_field<'a>(s: &'a str, label: &str) -> (r: Option<(i64, &'a str)>)
    ensures
        match r {
            Some((n, rest)) => read_field(s@, label@) == Some((n as int, rest@)),
            None => read_field(s@, label@) is None,
        },
{
    reveal(read_field);
    match strip_prefix(s, label) {
        Some(rest) => take_int(rest),
        None => None,
    }
}

/// The flag that follows `label` at the start of `s`, and what follows it.
pub fn take_flag_field<'a>(s: &'a str, label: &str) -> (r: Option<(bool, &'a str)>)
    ensures
        match r {
            Some((on, rest)) => read_flag_field(s@, label@) == Some((on, rest@)),
            None => read_flag_field(s@, label@) is None,
        },
{
    reveal(read_flag_field);
    match strip_prefix(s, label) {
        Some(rest) => take_flag(rest),
        None => None,
    }
}

/// The index of the first `c` in `s`, or the length of `s`.
pub fn find_char(s: &str, c: char) -> (k: usize)
    ensures
        k as int == first_char(s@, c),
        k <= s@.len(),
{
    let n = s.unicode_len();
    let mut i: usize = 0;
    assert(s@.skip(0) =~= s@);
    while i < n && s.get_char(i) != c
        invariant
            i <= n,
            n == s@.len(),
            first_char(s@, c) == i + first_char(s@.skip(i as int), c),
        decreases n - i,
    {
        proof {
            let here = s@.skip(i as int);
            assert(here[0] == s@[i as int]);
            assert(here.drop_first() =~= s@.skip(i + 1));
        }
        i += 1;
    }
    proof {
        let here = s@.skip(i as int);
        if i < n {
            assert(here[0] == s@[i as int]);
        }
    }
    i
}

/// Up to three digits stand for a number below 1000.
pub proof fn lemma_three_digits(s: Seq<char>)
    requires
        s.len() <= 3,
        all_digit_chars(s),
    ensures
        digits_number(s) <= 999,
{
    reveal_with_fuel(digits_number, 4);
    if s.len() >= 1 {
        let a = s.drop_last();
        assert(is_digit_char(s[s.len() - 1]));
        if a.len() >= 1 {
            let b = a.drop_last();
            assert(a[a.len() - 1] == s[s.len() - 2]);
            assert(is_digit_char(s[s.len() - 2]));
            if b.len() >= 1 {
                assert(b[b.len() - 1] == s[s.len() - 3]);
                assert(is_digit_char(s[s.len() - 3]));
                assert(b.drop_last().len() == 0);
            }
        }
    }
}

/// The frequency in hertz that a text in kilohertz stands for, where it
/// fits.
pub fn take_khz(s: &str) -> (r: Option<u64>)
    ensures
        match r {
            Some(hz) => read_khz(s@) == Some(hz as nat),
            None => match read_khz(s@) {
                Some(hz) => hz > u64::MAX,
                None => true,
            },
        },
{
    let n = s.unicode_len();
    let p = find_char(s, '.');
    assert(s@.take(p as int) =~= s@.subrange(0, p as int));
    if p == 0 {
        return None;
    }
    let whole = match number_between(s, 0, p, 0xFFFF_FFFF_FFFF_FFFF) {
        Some(whole) => whole,
        None => {
            return None;
        },
    };
    let hz: u128 = if p >= n {
        whole * 1000
    } else {
        let len = n - (p + 1);
        assert(s@.skip(p + 1) =~= s@.subrange(p + 1, n as int));
        if len == 0 || len > 3 {
            return None;
        }
        let fraction = match number_between(s, p + 1, n, 999) {
            Some(fraction) => fraction,
            None => {
                proof {
                    if all_digit_chars(s@.subrange(p + 1, n as int)) {
                        lemma_three_digits(s@.subrange(p + 1, n as int));
                    }
                }
                return None;
            },
        };
        let scale: u128 = if len == 1 {
            100
        } else if len == 2 {
            10
        } else {
            1
        };
        whole * 1000 + fraction * scale
    };
    if hz > 0xFFFF_FFFF_FFFF_FFFF {
        None
    } else {
        Some(hz as u64)
    }
}

/// The value of a hexadecimal digit in upper case.
pub fn hex_digit(c: char) -> (v: Option<u8>)
    ensures
        match v {
            Some(x) => hex_value(c) == Some(x as int),
            None => hex_value(c) is None,
        },
{
    if '0' <= c && c <= '9' {
        Some((c as u32 - 48) as u8)
    } else if 'A' <= c && c <= 'F' {
        Some((c as u32 - 55) as u8)
    } else {
        None
    }
}

/// The bytes that a percent-encoded text stands for.
pub fn percent_decode(s: &str) -> (r: Option<Vec<u8>>)
    ensures
        match r {
            Some(bytes) => percent_decoded(s@) == Some(bytes@),
            None => percent_decoded(s@) is None,
        },
{
    let n = s.unicode_len();
    let mut out: Vec<u8> = Vec::new();
    let mut i: usize = 0;
    assert(s@.skip(0) =~= s@);
    assert(out@ + Seq::<u8>::empty() =~= out@);
    while i < n
        invariant
            i <= n,
            n == s@.len(),
            percent_decoded(s@) == match percent_decoded(s@.skip(i as int)) {
                Some(rest) => Some(out@ + rest),
                None => None,
            },
        decreases n - i,
    {
        let ghost here = s@.skip(i as int);
        let ghost before = out@;
        let c = s.get_char(i);
        assert(here[0] == c);
        if c == '%' {
            if n - i < 3 {
                return None;
            }
            assert(here[1] == s@[i + 1] && here[2] == s@[i + 2]);
            let high = match hex_digit(s.get_char(i + 1)) {
                Some(high) => high,
                None => {
                    return None;
                },
            };
            let low = match hex_digit(s.get_char(i + 2)) {
                Some(low) => low,
                None => {
                    return None;
                },
            };
            let byte = 16 * high + low;
            out.push(byte);
            proof {
                assert(here.skip(3) =~= s@.skip(i + 3));
                assert forall|rest: Seq<u8>| before + (seq![byte] + rest) == out@ + rest by {
                    assert(before + (seq![byte] + rest) =~= out@ + rest);
                }
            }
            i += 3;
        } else {
            let code = c as u32;
            if code > 127 {
                return None;
            }
            let byte = code as u8;
            if !((0x30 <= byte && byte <= 0x39) || (0x41 <= byte && byte <= 0x5A) || (0x61 <= byte
                && byte <= 0x7A)) {
                return None;
            }
            out.push(byte);
            proof {
                assert(here.drop_first() =~= s@.skip(i + 1));
                assert forall|rest: Seq<u8>| before + (seq![byte] + rest) == out@ + rest by {
                    assert(before + (seq![byte] + rest) =~= out@ + rest);
                }
            }
            i += 1;
        }
    }
    assert(out@ + Seq::<u8>::empty() =~= out@);
    Some(out)
}

/// The text that a percent-encoded text stands for.
pub fn percent_decode_text(s: &str) -> (r: Option<String>)
    ensures
        match r {
            Some(text) => percent_decoded_text(s@) == Some(text@),
            None => percent_decoded_text(s@) is None,
        },
{
    reveal(percent_decoded_text);
    match percent_decode(s) {
        Some(bytes) => match text_of_utf8(bytes) {
            Some(text) => {
                proof {
                    encode_utf8_decode_utf8(text@);
                }
                Some(text)
            },
            None => None,
        },
        None => None,
    }
}

/// Whether two texts are the same.
pub fn text_is(s: &str, other: &str) -> (same: bool)
    ensures
        same == (s@ == other@),
{
    reveal(after_prefix);
    match strip_prefix(s, other) {
        Some(rest) => {
            let left = rest.unicode_len();
            proof {
                if left == 0 {
                    assert(s@ =~= s@.take(other@.len() as int));
                }
            }
            left == 0
        },
        None => {
            proof {
                if s@ == other@ {
                    assert(s@.take(other@.len() as int) =~= other@);
                }
            }
            false
        },
    }
}

/// The plain values of a message that may have been read.
pub open spec fn read_view(m: Option<KiwiClientMessage>) -> Option<CommandView> {
    match m {
        Some(message) => Some(message@),
        None => None,
    }
}

fn take_login(line: &str) -> (m: Option<KiwiClientMessage>)
    ensures
        read_view(m) == read_login(line@),
{
    match strip_prefix(line, "SET auth t=kiwi p=") {
        Some(pass) => if text_is(pass, "#") {
            Some(KiwiClientMessage::Login(None))
        } else {
            Some(KiwiClientMessage::Login(Some(String::from_str(pass))))
        },
        None => None,
    }
}

fn take_ar_ok(line: &str) -> (m: Option<KiwiClientMessage>)
    ensures
        read_view(m) == read_ar_ok(line@),
{
    match take_field(line, "SET AR OK in=") {
        Some((input_rate, a)) => match take_field(a, " out=") {
            Some((output_rate, b)) => if b.unicode_len() == 0 {
                Some(KiwiClientMessage::AROk { input_rate, output_rate })
            } else {
                None
            },
            None => None,
        },
        None => None,
    }
}

fn take_compression(line: &str) -> (m: Option<KiwiClientMessage>)
    ensures
        read_view(m) == read_compression(line@),
{
    match take_flag_field(line, "SET compression=") {
        Some((enabled, rest)) => if rest.unicode_len() == 0 {
            Some(KiwiClientMessage::SetCompression(enabled))
        } else {
            None
        },
        None => None,
    }
}

fn take_identity(line: &str) -> (m: Option<KiwiClientMessage>)
    ensures
        read_view(m) == read_identity(line@),
{
    match strip_prefix(line, "SET ident_user=") {
        Some(encoded) => match percent_decode_text(encoded) {
            Some(identity) => Some(KiwiClientMessage::SetIdentity(identity)),
            None => None,
        },
        None => None,
    }
}

fn take_location(line: &str) -> (m: Option<KiwiClientMessage>)
    ensures
        read_view(m) == read_location(line@),
{
    match strip_prefix(line, "SET geoloc=") {
        Some(encoded) => match percent_decode_text(encoded) {
            Some(location) => Some(KiwiClientMessage::SetLocation(location)),
            None => None,
        },
        None => None,
    }
}

fn take_agc(line: &str) -> (m: Option<KiwiClientMessage>)
    ensures
        read_view(m) == read_agc(line@),
{
    match take_flag_field(line, "SET agc=") {
        Some((enabled, a)) => match take_flag_field(a, " hang=") {
            Some((hang, b)) => match take_field(b, " thresh=") {
                Some((thresh, c)) => match take_field(c, " slope=") {
                    Some((slope, d)) => match take_field(d, " decay=") {
                        Some((decay, e)) => match take_field(e, "  manGain=") {
                            Some((gain, f)) => if f.unicode_len() == 0 {
                                Some(
                                    KiwiClientMessage::SetAgc {
                                        enabled,
                                        decay,
                                        hang,
                                        slope,
                                        thresh,
                                        gain,
                                    },
                                )
                            } else {
                                None
                            },
                            None => None,
                        },
                        None => None,
                    },
                    None => None,
                },
                None => None,
            },
            None => None,
        },
        None => None,
    }
}

/// The tuning of a mode with the given passband edges and frequency, where
/// there is one.
pub fn make_tuning(mode: &str, low_cut: i64, high_cut: i64, hz: u64) -> (t: Option<Tuning>)
    ensures
        t == tuning_of(mode@, low_cut as int, high_cut as int, hz as nat),
{
    if low_cut < -2147483648 || low_cut > 2147483647 || high_cut < -2147483648 || high_cut
        > 2147483647 {
        return None;
    }
    if text_is(mode, "am") {
        if low_cut == -high_cut && -1073741824 <= high_cut && high_cut <= 1073741823 {
            Some(Tuning::AM { bandwidth: (2 * high_cut) as i32, frequency: hz })
        } else {
            None
        }
    } else if text_is(mode, "fm") {
        Some(Tuning::FM { low_cut: low_cut as i32, high_cut: high_cut as i32, frequency: hz })
    } else if text_is(mode, "lsb") {
        Some(Tuning::LSB { low_cut: low_cut as i32, high_cut: high_cut as i32, frequency: hz })
    } else if text_is(mode, "usb") {
        Some(Tuning::USB { low_cut: low_cut as i32, high_cut: high_cut as i32, frequency: hz })
    } else {
        None
    }
}

fn take_tune(line: &str) -> (m: Option<KiwiClientMessage>)
    ensures
        read_view(m) == read_tune(line@),
{
    let a = match strip_prefix(line, "SET mod=") {
        Some(a) => a,
        None => {
            return None;
        },
    };
    let n = find_char(a, ' ');
    let mode = a.substring_char(0, n);
    let after_mode = a.substring_char(n, a.unicode_len());
    assert(mode@ =~= a@.take(n as int));
    assert(after_mode@ =~= a@.skip(n as int));
    match take_field(after_mode, " low_cut=") {
        Some((low_cut, b)) => match take_field(b, " high_cut=") {
            Some((high_cut, c)) => match strip_prefix(c, " freq=") {
                Some(d) => match take_khz(d) {
                    Some(hz) => match make_tuning(mode, low_cut, high_cut, hz) {
                        Some(tuning) => Some(KiwiClientMessage::Tune(tuning)),
                        None => None,
                    },
                    None => None,
                },
                None => None,
            },
            None => None,
        },
        None => None,
    }
}

impl KiwiClientMessage {
    /// Reads a line of a client: the message that is written as that line,
    /// where one is, and the line as a raw message else.
    pub fn parse(line: &str) -> (m: KiwiClientMessage)
        ensures
            m@ == read_command(line@),
    {
        let known = if text_is(line, "SET keepalive") {
            Some(KiwiClientMessage::KeepAlive)
        } else if line.unicode_len() < 6 {
            None
        } else if strip_prefix(line, "SET ").is_none() {
            None
        } else {
            let c = line.get_char(4);
            let d = line.get_char(5);
            if c == 'a' && d == 'u' {
                take_login(line)
            } else if c == 'a' {
                take_agc(line)
            } else if c == 'A' {
                take_ar_ok(line)
            } else if c == 'm' {
                take_tune(line)
            } else if c == 'i' {
                take_identity(line)
            } else if c == 'g' {
                take_location(line)
            } else if c == 'c' {
                take_compression(line)
            } else {
                None
            }
        };
        match known {
            Some(message) => message,
            None => KiwiClientMessage::Unknown(String::from_str(line)),
        }
    }
}

} // verus!
