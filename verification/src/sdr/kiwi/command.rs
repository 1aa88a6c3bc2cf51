//! Reading a client's line back: the inverse of the encoding, for the
//! messages that have one.

use crate::sdr::kiwi::message::{
    agc_text, ar_ok_text, compression_text, flag_text, hex_char, identity_text, is_alphanumeric,
    keepalive_text, location_text, login_text, percent_encoded, percent_encoded_byte, tune_text,
    KiwiClientMessage,
};
use crate::sdr::Tuning;
use crate::text::{
    all_digit_chars, decimal, decimal_digits, digits_number, first_char, is_digit_char, khz_text,
    lemma_decimal_digits, lemma_first_char_skips, lemma_khz_text_is_the_frequency, read_khz,
};
use vstd::prelude::*;
use vstd::utf8::{
    decode_utf8, encode_utf8, encode_utf8_decode_utf8, encode_utf8_valid_utf8, valid_utf8,
};

verus! {

/// What follows `prefix` in `s`, where `s` starts with it.
#[verifier::opaque]
pub open spec fn after_prefix(s: Seq<char>, prefix: Seq<char>) -> Option<Seq<char>> {
    if prefix.len() <= s.len() && s.take(prefix.len() as int) == prefix {
        Some(s.skip(prefix.len() as int))
    } else {
        None
    }
}

/// The length of the run of decimal digits that `s` starts with.
pub open spec fn digit_run(s: Seq<char>) -> nat
    decreases s.len(),
{
    if s.len() > 0 && is_digit_char(s[0]) {
        1 + digit_run(s.drop_first())
    } else {
        0
    }
}

/// The integer that `s` starts with, and what follows it: a minus sign or
/// none, and all the decimal digits that follow, of which there is one at
/// least.
#[verifier::opaque]
pub open spec fn read_int(s: Seq<char>) -> Option<(int, Seq<char>)> {
    let negative = s.len() > 0 && s[0] == '-';
    let body = if negative {
        s.drop_first()
    } else {
        s
    };
    let n = digit_run(body);
    if n == 0 {
        None
    } else {
        let magnitude = digits_number(body.take(n as int)) as int;
        Some(
            (
                if negative {
                    -magnitude
                } else {
                    magnitude
                },
                body.skip(n as int),
            ),
        )
    }
}

/// The flag that `s` starts with, and what follows it.
#[verifier::opaque]
pub open spec fn read_flag(s: Seq<char>) -> Option<(bool, Seq<char>)> {
    if s.len() > 0 && s[0] == '1' {
        Some((true, s.drop_first()))
    } else if s.len() > 0 && s[0] == '0' {
        Some((false, s.drop_first()))
    } else {
        None
    }
}

/// The value of a hexadecimal digit in upper case.
pub open spec fn hex_value(c: char) -> Option<int> {
    if '0' <= c <= '9' {
        Some(c as int - 48)
    } else if 'A' <= c <= 'F' {
        Some(c as int - 55)
    } else {
        None
    }
}

/// The bytes that a percent-encoded text stands for: a letter or digit for
/// itself, `%` and two hexadecimal digits for the byte of that value. A text
/// of another form stands for none.
pub open spec fn percent_decoded(s: Seq<char>) -> Option<Seq<u8>>
    decreases s.len(),
{
    if s.len() == 0 {
        Some(Seq::empty())
    } else if s[0] == '%' {
        if s.len() >= 3 && hex_value(s[1]) is Some && hex_value(s[2]) is Some {
            match percent_decoded(s.skip(3)) {
                Some(rest) => Some(
                    seq![(16 * hex_value(s[1])->0 + hex_value(s[2])->0) as u8] + rest,
                ),
                None => None,
            }
        } else {
            None
        }
    } else if s[0] as int <= 127 && is_alphanumeric(s[0] as u8) {
        match percent_decoded(s.drop_first()) {
            Some(rest) => Some(seq![s[0] as u8] + rest),
            None => None,
        }
    } else {
        None
    }
}

/// A text that starts with `prefix` has the rest after it.
pub proof fn lemma_after_prefix(prefix: Seq<char>, rest: Seq<char>)
    ensures
        after_prefix(prefix + rest, prefix) == Some(rest),
{
    reveal(after_prefix);
    let s = prefix + rest;
    assert(s.take(prefix.len() as int) =~= prefix);
    assert(s.skip(prefix.len() as int) =~= rest);
}

/// A run of digits, followed by something else, is the whole run of digits
/// that the text starts with.
pub proof fn lemma_digit_run(digits: Seq<char>, rest: Seq<char>)
    requires
        all_digit_chars(digits),
        rest.len() == 0 || !is_digit_char(rest[0]),
    ensures
        digit_run(digits + rest) == digits.len(),
    decreases digits.len(),
{
    if digits.len() == 0 {
        assert(digits + rest =~= rest);
    } else {
        let s = digits + rest;
        assert(s[0] == digits[0]);
        assert(is_digit_char(digits[0]));
        assert(s.drop_first() =~= digits.drop_first() + rest);
        assert forall|i: int| 0 <= i < digits.drop_first().len() implies is_digit_char(
            #[trigger] digits.drop_first()[i],
        ) by {
            assert(digits.drop_first()[i] == digits[i + 1]);
        }
        lemma_digit_run(digits.drop_first(), rest);
    }
}

/// An integer in decimal, followed by something that is no digit, is read
/// back as that integer.
pub proof fn lemma_read_int(n: int, rest: Seq<char>)
    requires
        rest.len() == 0 || !is_digit_char(rest[0]),
    ensures
        read_int(decimal(n) + rest) == Some((n, rest)),
{
    reveal(read_int);
    let s = decimal(n) + rest;
    if n < 0 {
        let digits = decimal_digits((-n) as nat);
        lemma_decimal_digits((-n) as nat);
        assert(s[0] == '-');
        assert(s.drop_first() =~= digits + rest);
        lemma_digit_run(digits, rest);
        assert((digits + rest).take(digits.len() as int) =~= digits);
        assert((digits + rest).skip(digits.len() as int) =~= rest);
    } else {
        let digits = decimal_digits(n as nat);
        lemma_decimal_digits(n as nat);
        assert(s[0] == digits[0]);
        assert(is_digit_char(digits[0]));
        lemma_digit_run(digits, rest);
        assert(s.take(digits.len() as int) =~= digits);
        assert(s.skip(digits.len() as int) =~= rest);
    }
}

/// A flag is read back as it was written.
pub proof fn lemma_read_flag(on: bool, rest: Seq<char>)
    ensures
        read_flag(flag_text(on) + rest) == Some((on, rest)),
{
    reveal(read_flag);
    reveal_strlit("1");
    reveal_strlit("0");
    let s = flag_text(on) + rest;
    assert(s.drop_first() =~= rest);
}

/// A percent-encoded byte, and what follows it, is read back as the byte
/// and what follows it.
pub proof fn lemma_percent_byte(b: u8, rest: Seq<char>)
    ensures
        percent_decoded(percent_encoded_byte(b) + rest) == match percent_decoded(rest) {
            Some(bytes) => Some(seq![b] + bytes),
            None => None,
        },
{
    let s = percent_encoded_byte(b) + rest;
    if is_alphanumeric(b) {
        assert(s[0] == b as char);
        assert(s[0] != '%');
        assert(s[0] as u8 == b);
        assert(s.drop_first() =~= rest);
    } else {
        let high = (b / 16) as int;
        let low = (b % 16) as int;
        assert(s[0] == '%');
        assert(s[1] == hex_char(high));
        assert(s[2] == hex_char(low));
        assert(hex_value(hex_char(high)) == Some(high));
        assert(hex_value(hex_char(low)) == Some(low));
        assert(s.skip(3) =~= rest);
        assert((16 * high + low) as u8 == b);
    }
}

/// Percent-encoding loses nothing: the encoded bytes are read back as they
/// were.
pub proof fn lemma_percent_round_trip(bytes: Seq<u8>)
    ensures
        percent_decoded(percent_encoded(bytes)) == Some(bytes),
    decreases bytes.len(),
{
    if bytes.len() == 0 {
    } else {
        lemma_percent_round_trip(bytes.drop_first());
        lemma_percent_byte(bytes[0], percent_encoded(bytes.drop_first()));
        assert(seq![bytes[0]] + bytes.drop_first() =~= bytes);
    }
}

/// A message of the client as plain values.
pub enum CommandView {
    AROk { input_rate: int, output_rate: int },
    Login(Option<Seq<char>>),
    KeepAlive,
    SetCompression(bool),
    SetIdentity(Seq<char>),
    SetLocation(Seq<char>),
    SetAgc { enabled: bool, decay: int, hang: bool, slope: int, thresh: int, gain: int },
    Tune(Tuning),
    Unknown(Seq<char>),
}

impl View for KiwiClientMessage {
    type V = CommandView;

    open spec fn view(&self) -> CommandView {
        match *self {
            KiwiClientMessage::AROk { input_rate, output_rate } => CommandView::AROk {
                input_rate: input_rate as int,
                output_rate: output_rate as int,
            },
            KiwiClientMessage::Login(pass) => CommandView::Login(
                match pass {
                    Some(p) => Some(p@),
                    None => None,
                },
            ),
            KiwiClientMessage::KeepAlive => CommandView::KeepAlive,
            KiwiClientMessage::SetCompression(enabled) => CommandView::SetCompression(enabled),
            KiwiClientMessage::SetIdentity(identity) => CommandView::SetIdentity(identity@),
            KiwiClientMessage::SetLocation(location) => CommandView::SetLocation(location@),
            KiwiClientMessage::SetAgc {
                enabled,
                decay,
                hang,
                slope,
                thresh,
                gain,
            } => CommandView::SetAgc {
                enabled,
                decay: decay as int,
                hang,
                slope: slope as int,
                thresh: thresh as int,
                gain: gain as int,
            },
            KiwiClientMessage::Tune(tuning) => CommandView::Tune(tuning),
            KiwiClientMessage::Unknown(text) => CommandView::Unknown(text@),
        }
    }
}

/// The line of a message on the wire.
pub open spec fn command_text(m: CommandView) -> Seq<char> {
    match m {
        CommandView::KeepAlive => keepalive_text(),
        CommandView::Login(pass) => login_text(pass),
        CommandView::AROk { input_rate, output_rate } => ar_ok_text(input_rate, output_rate),
        CommandView::Tune(tuning) => tune_text(tuning),
        CommandView::SetCompression(enabled) => compression_text(enabled),
        CommandView::SetIdentity(identity) => identity_text(identity),
        CommandView::SetLocation(location) => location_text(location),
        CommandView::SetAgc { enabled, decay, hang, slope, thresh, gain } => agc_text(
            enabled,
            hang,
            thresh,
            slope,
            decay,
            gain,
        ),
        CommandView::Unknown(text) => text,
    }
}

/// Whether an integer is one that a message can hold.
pub open spec fn is_i64(n: int) -> bool {
    i64::MIN <= n <= i64::MAX
}

/// The integer that follows `label` at the start of `s`, and what follows
/// it. An integer that no message can hold is not read.
#[verifier::opaque]
pub open spec fn read_field(s: Seq<char>, label: Seq<char>) -> Option<(int, Seq<char>)> {
    match after_prefix(s, label) {
        Some(rest) => match read_int(rest) {
            Some((n, tail)) => if is_i64(n) {
                Some((n, tail))
            } else {
                None
            },
            None => None,
        },
        None => None,
    }
}

/// The flag that follows `label` at the start of `s`, and what follows it.
#[verifier::opaque]
pub open spec fn read_flag_field(s: Seq<char>, label: Seq<char>) -> Option<(bool, Seq<char>)> {
    match after_prefix(s, label) {
        Some(rest) => read_flag(rest),
        None => None,
    }
}

/// Reads a login line.
pub open spec fn read_login(line: Seq<char>) -> Option<CommandView> {
    match after_prefix(line, "SET auth t=kiwi p="@) {
        Some(pass) => Some(
            CommandView::Login(
                if pass == "#"@ {
                    None
                } else {
                    Some(pass)
                },
            ),
        ),
        None => None,
    }
}

/// Reads the line that settles the audio rates.
pub open spec fn read_ar_ok(line: Seq<char>) -> Option<CommandView> {
    match read_field(line, "SET AR OK in="@) {
        Some((input_rate, a)) => match read_field(a, " out="@) {
            Some((output_rate, b)) => if b.len() == 0 {
                Some(CommandView::AROk { input_rate, output_rate })
            } else {
                None
            },
            None => None,
        },
        None => None,
    }
}

/// Reads the line that switches the compression.
pub open spec fn read_compression(line: Seq<char>) -> Option<CommandView> {
    match read_flag_field(line, "SET compression="@) {
        Some((enabled, rest)) => if rest.len() == 0 {
            Some(CommandView::SetCompression(enabled))
        } else {
            None
        },
        None => None,
    }
}

/// The text that a percent-encoded text stands for.
#[verifier::opaque]
pub open spec fn percent_decoded_text(s: Seq<char>) -> Option<Seq<char>> {
    match percent_decoded(s) {
        Some(bytes) => if valid_utf8(bytes) {
            Some(decode_utf8(bytes))
        } else {
            None
        },
        None => None,
    }
}

/// Reads the line that tells who listens.
pub open spec fn read_identity(line: Seq<char>) -> Option<CommandView> {
    match after_prefix(line, "SET ident_user="@) {
        Some(encoded) => match percent_decoded_text(encoded) {
            Some(identity) => Some(CommandView::SetIdentity(identity)),
            None => None,
        },
        None => None,
    }
}

/// Reads the line that tells where the listener is.
pub open spec fn read_location(line: Seq<char>) -> Option<CommandView> {
    match after_prefix(line, "SET geoloc="@) {
        Some(encoded) => match percent_decoded_text(encoded) {
            Some(location) => Some(CommandView::SetLocation(location)),
            None => None,
        },
        None => None,
    }
}

/// Reads the line that sets the automatic gain control.
pub open spec fn read_agc(line: Seq<char>) -> Option<CommandView> {
    match read_flag_field(line, "SET agc="@) {
        Some((enabled, a)) => match read_flag_field(a, " hang="@) {
            Some((hang, b)) => match read_field(b, " thresh="@) {
                Some((thresh, c)) => match read_field(c, " slope="@) {
                    Some((slope, d)) => match read_field(d, " decay="@) {
                        Some((decay, e)) => match read_field(e, "  manGain="@) {
                            Some((gain, f)) => if f.len() == 0 {
                                Some(
                                    CommandView::SetAgc { enabled, decay, hang, slope, thresh, gain },
                                )
                            } else {
                                None
                            },
                            None => None,
                        },
                        None => None,
                    },
                    None => None,
                },
                None => None,
            },
            None => None,
        },
        None => None,
    }
}

/// The tuning of a mode with the given passband edges and frequency, where
/// the values fit. An AM passband is symmetric, and has the bandwidth of
/// twice its upper edge.
pub open spec fn tuning_of(mode: Seq<char>, low_cut: int, high_cut: int, hz: nat) -> Option<Tuning> {
    if hz > u64::MAX || low_cut < i32::MIN || low_cut > i32::MAX || high_cut < i32::MIN || high_cut
        > i32::MAX {
        None
    } else if mode == "am"@ {
        if low_cut == -high_cut && i32::MIN <= 2 * high_cut <= i32::MAX {
            Some(Tuning::AM { bandwidth: (2 * high_cut) as i32, frequency: hz as u64 })
        } else {
            None
        }
    } else if mode == "fm"@ {
        Some(Tuning::FM { low_cut: low_cut as i32, high_cut: high_cut as i32, frequency: hz as u64 })
    } else if mode == "lsb"@ {
        Some(
            Tuning::LSB { low_cut: low_cut as i32, high_cut: high_cut as i32, frequency: hz as u64 },
        )
    } else if mode == "usb"@ {
        Some(
            Tuning::USB { low_cut: low_cut as i32, high_cut: high_cut as i32, frequency: hz as u64 },
        )
    } else {
        None
    }
}

/// Reads the line that tunes the receiver.
pub open spec fn read_tune(line: Seq<char>) -> Option<CommandView> {
    match after_prefix(line, "SET mod="@) {
        Some(a) => {
            let n = first_char(a, ' ');
            match read_field(a.skip(n), " low_cut="@) {
                Some((low_cut, b)) => match read_field(b, " high_cut="@) {
                    Some((high_cut, c)) => match after_prefix(c, " freq="@) {
                        Some(d) => match read_khz(d) {
                            Some(hz) => match tuning_of(a.take(n), low_cut, high_cut, hz) {
                                Some(tuning) => Some(CommandView::Tune(tuning)),
                                None => None,
                            },
                            None => None,
                        },
                        None => None,
                    },
                    None => None,
                },
                None => None,
            }
        },
        None => None,
    }
}

/// Reads a line of the client. The fifth character of a line that starts
/// with `SET ` tells which message it can be, with the sixth where the
/// fifth is `a`. A line that is none of the known messages is passed on
/// whole.
pub open spec fn read_command(line: Seq<char>) -> CommandView {
    let known = if line == keepalive_text() {
        Some(CommandView::KeepAlive)
    } else if line.len() < 6 || after_prefix(line, "SET "@) is None {
        None
    } else if line[4] == 'a' && line[5] == 'u' {
        read_login(line)
    } else if line[4] == 'a' {
        read_agc(line)
    } else if line[4] == 'A' {
        read_ar_ok(line)
    } else if line[4] == 'm' {
        read_tune(line)
    } else if line[4] == 'i' {
        read_identity(line)
    } else if line[4] == 'g' {
        read_location(line)
    } else if line[4] == 'c' {
        read_compression(line)
    } else {
        None
    };
    match known {
        Some(message) => message,
        None => CommandView::Unknown(line),
    }
}

/// Whether a message can be told from its line: a password is not `#`, an
/// AM bandwidth is even, and a raw line is none of the other messages.
pub open spec fn has_inverse(m: CommandView) -> bool {
    match m {
        CommandView::Login(Some(pass)) => pass != "#"@,
        CommandView::Tune(Tuning::AM { bandwidth, .. }) => bandwidth % 2 == 0,
        CommandView::Unknown(text) => read_command(text) == CommandView::Unknown(text),
        _ => true,
    }
}

/// Whether the integers of a message are such as a message can hold. The
/// plain values of every message are.
pub open spec fn fits(m: CommandView) -> bool {
    match m {
        CommandView::AROk { input_rate, output_rate } => is_i64(input_rate) && is_i64(output_rate),
        CommandView::SetAgc { decay, slope, thresh, gain, .. } => is_i64(decay) && is_i64(slope)
            && is_i64(thresh) && is_i64(gain),
        _ => true,
    }
}

/// An integer after its label is read back, where no digit follows it.
pub proof fn lemma_read_field(label: Seq<char>, n: int, rest: Seq<char>)
    requires
        is_i64(n),
        rest.len() == 0 || !is_digit_char(rest[0]),
    ensures
        read_field(label + (decimal(n) + rest), label) == Some((n, rest)),
{
    reveal(read_field);
    lemma_after_prefix(label, decimal(n) + rest);
    lemma_read_int(n, rest);
}

/// A flag after its label is read back.
pub proof fn lemma_read_flag_field(label: Seq<char>, on: bool, rest: Seq<char>)
    ensures
        read_flag_field(label + (flag_text(on) + rest), label) == Some((on, rest)),
{
    reveal(read_flag_field);
    lemma_after_prefix(label, flag_text(on) + rest);
    lemma_read_flag(on, rest);
}

/// A percent-encoded text is read back as the text.
pub proof fn lemma_percent_text_round_trip(text: Seq<char>)
    ensures
        percent_decoded_text(percent_encoded(encode_utf8(text))) == Some(text),
{
    reveal(percent_decoded_text);
    lemma_percent_round_trip(encode_utf8(text));
    encode_utf8_valid_utf8(text);
    encode_utf8_decode_utf8(text);
}

/// The start of a line decides how it is read: a line that starts with one
/// of the known labels is no keepalive line, and has the label's fifth and
/// sixth character.
pub proof fn lemma_line_start(label: Seq<char>, rest: Seq<char>)
    requires
        label.len() >= 6,
        label.take(4) == "SET "@,
        label[4] != 'k',
    ensures
        (label + rest).len() >= 6,
        (label + rest) != keepalive_text(),
        after_prefix(label + rest, "SET "@) is Some,
        (label + rest)[4] == label[4],
        (label + rest)[5] == label[5],
{
    reveal(after_prefix);
    reveal_strlit("SET ");
    reveal_strlit("SET keepalive");
    let line = label + rest;
    assert(line.take(4) =~= label.take(4));
    assert(keepalive_text()[4] == 'k');
}

/// A login line is read back.
pub proof fn lemma_login_round_trip(pass: Option<Seq<char>>)
    requires
        has_inverse(CommandView::Login(pass)),
    ensures
        read_command(login_text(pass)) == CommandView::Login(pass),
{
    reveal_strlit("SET auth t=kiwi p=");
    reveal_strlit("SET ");
    let label = "SET auth t=kiwi p="@;
    let rest = match pass {
        Some(p) => p,
        None => "#"@,
    };
    assert(label.take(4) =~= "SET "@);
    lemma_line_start(label, rest);
    lemma_after_prefix(label, rest);
}

/// The line that settles the audio rates is read back.
pub proof fn lemma_ar_ok_round_trip(input_rate: int, output_rate: int)
    requires
        is_i64(input_rate),
        is_i64(output_rate),
    ensures
        read_command(ar_ok_text(input_rate, output_rate)) == (CommandView::AROk {
            input_rate,
            output_rate,
        }),
{
    reveal_strlit("SET AR OK in=");
    reveal_strlit(" out=");
    reveal_strlit("SET ");
    let label = "SET AR OK in="@;
    let tail = " out="@ + (decimal(output_rate) + Seq::<char>::empty());
    let rest = decimal(input_rate) + tail;
    let line = ar_ok_text(input_rate, output_rate);
    assert(line =~= label + rest);
    assert(label.take(4) =~= "SET "@);
    lemma_line_start(label, rest);
    assert(tail[0] == ' ');
    lemma_read_field(label, input_rate, tail);
    lemma_read_field(" out="@, output_rate, Seq::<char>::empty());
}

/// The line that switches the compression is read back.
pub proof fn lemma_compression_round_trip(enabled: bool)
    ensures
        read_command(compression_text(enabled)) == CommandView::SetCompression(enabled),
{
    reveal_strlit("SET compression=");
    reveal_strlit("SET ");
    let label = "SET compression="@;
    let rest = flag_text(enabled) + Seq::<char>::empty();
    let line = compression_text(enabled);
    assert(line =~= label + rest);
    assert(label.take(4) =~= "SET "@);
    lemma_line_start(label, rest);
    lemma_read_flag_field(label, enabled, Seq::<char>::empty());
}

/// The line that tells who listens is read back.
pub proof fn lemma_identity_round_trip(identity: Seq<char>)
    ensures
        read_command(identity_text(identity)) == CommandView::SetIdentity(identity),
{
    reveal_strlit("SET ident_user=");
    reveal_strlit("SET ");
    let label = "SET ident_user="@;
    let rest = percent_encoded(encode_utf8(identity));
    assert(label.take(4) =~= "SET "@);
    lemma_line_start(label, rest);
    lemma_after_prefix(label, rest);
    lemma_percent_text_round_trip(identity);
}

/// The line that tells where the listener is is read back.
pub proof fn lemma_location_round_trip(location: Seq<char>)
    ensures
        read_command(location_text(location)) == CommandView::SetLocation(location),
{
    reveal_strlit("SET geoloc=");
    reveal_strlit("SET ");
    let label = "SET geoloc="@;
    let rest = percent_encoded(encode_utf8(location));
    assert(label.take(4) =~= "SET "@);
    lemma_line_start(label, rest);
    lemma_after_prefix(label, rest);
    lemma_percent_text_round_trip(location);
}

/// The line that sets the automatic gain control, as a label and what
/// follows it, field by field.
#[verifier::opaque]
pub open spec fn agc_fields(
    enabled: bool,
    hang: bool,
    thresh: int,
    slope: int,
    decay: int,
    gain: int,
) -> Seq<char> {
    let gain_field = "  manGain="@ + (decimal(gain) + Seq::<char>::empty());
    let decay_field = " decay="@ + (decimal(decay) + gain_field);
    let slope_field = " slope="@ + (decimal(slope) + decay_field);
    let thresh_field = " thresh="@ + (decimal(thresh) + slope_field);
    let hang_field = " hang="@ + (flag_text(hang) + thresh_field);
    flag_text(enabled) + hang_field
}

/// Joining texts does not depend on the grouping.
pub proof fn lemma_join(a: Seq<char>, b: Seq<char>, c: Seq<char>)
    ensures
        (a + b) + c == a + (b + c),
{
    assert((a + b) + c =~= a + (b + c));
}

proof fn lemma_agc_shape(
    enabled: bool,
    hang: bool,
    thresh: int,
    slope: int,
    decay: int,
    gain: int,
)
    ensures
        agc_text(enabled, hang, thresh, slope, decay, gain) == "SET agc="@ + agc_fields(
            enabled,
            hang,
            thresh,
            slope,
            decay,
            gain,
        ),
{
    reveal(agc_fields);
    let label = "SET agc="@;
    let part1 = flag_text(enabled);
    let part2 = " hang="@;
    let part3 = flag_text(hang);
    let part4 = " thresh="@;
    let part5 = decimal(thresh);
    let part6 = " slope="@;
    let part7 = decimal(slope);
    let part8 = " decay="@;
    let part9 = decimal(decay);
    let part10 = "  manGain="@;
    let part11 = decimal(gain) + Seq::<char>::empty();
    assert(part11 =~= decimal(gain));
    let tail10 = part10 + part11;
    let tail9 = part9 + tail10;
    let tail8 = part8 + tail9;
    let tail7 = part7 + tail8;
    let tail6 = part6 + tail7;
    let tail5 = part5 + tail6;
    let tail4 = part4 + tail5;
    let tail3 = part3 + tail4;
    let tail2 = part2 + tail3;
    let tail1 = part1 + tail2;
    let head1 = label + part1;
    let head2 = head1 + part2;
    let head3 = head2 + part3;
    let head4 = head3 + part4;
    let head5 = head4 + part5;
    let head6 = head5 + part6;
    let head7 = head6 + part7;
    let head8 = head7 + part8;
    let head9 = head8 + part9;
    let head10 = head9 + part10;
    lemma_join(head9, part10, part11);
    lemma_join(head8, part9, tail10);
    lemma_join(head7, part8, tail9);
    lemma_join(head6, part7, tail8);
    lemma_join(head5, part6, tail7);
    lemma_join(head4, part5, tail6);
    lemma_join(head3, part4, tail5);
    lemma_join(head2, part3, tail4);
    lemma_join(head1, part2, tail3);
    lemma_join(label, part1, tail2);
}

/// A text that starts with a label that starts with a space starts with a
/// space, which is no digit.
pub proof fn lemma_label_is_no_digit(label: Seq<char>, rest: Seq<char>)
    requires
        label.len() > 0,
        label[0] == ' ',
    ensures
        (label + rest).len() > 0,
        !is_digit_char((label + rest)[0]),
{
    assert((label + rest)[0] == label[0]);
}

proof fn lemma_read_agc_fields(
    enabled: bool,
    hang: bool,
    thresh: int,
    slope: int,
    decay: int,
    gain: int,
)
    requires
        is_i64(thresh),
        is_i64(slope),
        is_i64(decay),
        is_i64(gain),
    ensures
        read_agc("SET agc="@ + agc_fields(enabled, hang, thresh, slope, decay, gain)) == Some(
            CommandView::SetAgc { enabled, decay, hang, slope, thresh, gain },
        ),
{
    reveal(agc_fields);
    let none = Seq::<char>::empty();
    let f = "  manGain="@ + (decimal(gain) + none);
    let e = " decay="@ + (decimal(decay) + f);
    let d = " slope="@ + (decimal(slope) + e);
    let c = " thresh="@ + (decimal(thresh) + d);
    let b = " hang="@ + (flag_text(hang) + c);
    lemma_read_flag_field("SET agc="@, enabled, b);
    lemma_read_flag_field(" hang="@, hang, c);
    assert(" slope="@.len() > 0 && " slope="@[0] == ' ') by {
        reveal_strlit(" slope=");
    }
    assert(" decay="@.len() > 0 && " decay="@[0] == ' ') by {
        reveal_strlit(" decay=");
    }
    assert("  manGain="@.len() > 0 && "  manGain="@[0] == ' ') by {
        reveal_strlit("  manGain=");
    }
    lemma_label_is_no_digit(" slope="@, decimal(slope) + e);
    lemma_label_is_no_digit(" decay="@, decimal(decay) + f);
    lemma_label_is_no_digit("  manGain="@, decimal(gain) + none);
    lemma_read_field(" thresh="@, thresh, d);
    lemma_read_field(" slope="@, slope, e);
    lemma_read_field(" decay="@, decay, f);
    lemma_read_field("  manGain="@, gain, none);
}

/// A line whose fifth and sixth characters are `a` and `g` is read as the
/// line that sets the automatic gain control, or passed on whole.
proof fn lemma_agc_line(line: Seq<char>)
    requires
        line.len() >= 6,
        line != keepalive_text(),
        after_prefix(line, "SET "@) is Some,
        line[4] == 'a',
        line[5] == 'g',
    ensures
        read_command(line) == match read_agc(line) {
            Some(message) => message,
            None => CommandView::Unknown(line),
        },
{
}

/// The line that sets the automatic gain control is read back.
pub proof fn lemma_agc_round_trip(
    enabled: bool,
    hang: bool,
    thresh: int,
    slope: int,
    decay: int,
    gain: int,
)
    requires
        is_i64(thresh),
        is_i64(slope),
        is_i64(decay),
        is_i64(gain),
    ensures
        read_command(agc_text(enabled, hang, thresh, slope, decay, gain)) == (CommandView::SetAgc {
            enabled,
            decay,
            hang,
            slope,
            thresh,
            gain,
        }),
{
    let label = "SET agc="@;
    let fields = agc_fields(enabled, hang, thresh, slope, decay, gain);
    let line = label + fields;
    assert(agc_text(enabled, hang, thresh, slope, decay, gain) == line) by {
        lemma_agc_shape(enabled, hang, thresh, slope, decay, gain);
    }
    assert(read_agc(line) == Some(
        CommandView::SetAgc { enabled, decay, hang, slope, thresh, gain },
    )) by {
        lemma_read_agc_fields(enabled, hang, thresh, slope, decay, gain);
    }
    assert(label.len() >= 6 && label.take(4) =~= "SET "@ && label[4] == 'a' && label[5] == 'g') by {
        reveal_strlit("SET agc=");
        reveal_strlit("SET ");
    }
    assert(read_command(line) == match read_agc(line) {
        Some(message) => message,
        None => CommandView::Unknown(line),
    }) by {
        lemma_line_start(label, fields);
        lemma_agc_line(line);
    }
}

/// What follows the label of the line that tunes the receiver, field by field.
#[verifier::opaque]
pub open spec fn tune_fields(mode: Seq<char>, low_cut: int, high_cut: int, hz: nat) -> Seq<char> {
    let frequency_field = " freq="@ + khz_text(hz);
    let high_field = " high_cut="@ + (decimal(high_cut) + frequency_field);
    let low_field = " low_cut="@ + (decimal(low_cut) + high_field);
    mode + low_field
}

proof fn lemma_tune_shape(tuning: Tuning)
    ensures
        tune_text(tuning) == "SET mod="@ + tune_fields(
            tuning.mode_text(),
            tuning.spec_low_cut(),
            tuning.spec_high_cut(),
            tuning.spec_frequency(),
        ),
{
    reveal(tune_fields);
    let label = "SET mod="@;
    let part1 = tuning.mode_text();
    let part2 = " low_cut="@;
    let part3 = decimal(tuning.spec_low_cut());
    let part4 = " high_cut="@;
    let part5 = decimal(tuning.spec_high_cut());
    let part6 = " freq="@;
    let part7 = khz_text(tuning.spec_frequency());
    let tail6 = part6 + part7;
    let tail5 = part5 + tail6;
    let tail4 = part4 + tail5;
    let tail3 = part3 + tail4;
    let tail2 = part2 + tail3;
    let head1 = label + part1;
    let head2 = head1 + part2;
    let head3 = head2 + part3;
    let head4 = head3 + part4;
    let head5 = head4 + part5;
    lemma_join(head5, part6, part7);
    lemma_join(head4, part5, tail6);
    lemma_join(head3, part4, tail5);
    lemma_join(head2, part3, tail4);
    lemma_join(head1, part2, tail3);
    lemma_join(label, part1, tail2);
}

/// The names of the modes hold no space, and are four different names.
proof fn lemma_mode_names(tuning: Tuning)
    ensures
        forall|i: int| 0 <= i < tuning.mode_text().len() ==> tuning.mode_text()[i] != ' ',
        tuning is AM <==> tuning.mode_text() == "am"@,
        tuning is FM <==> tuning.mode_text() == "fm"@,
        tuning is LSB <==> tuning.mode_text() == "lsb"@,
        tuning is USB <==> tuning.mode_text() == "usb"@,
{
    reveal_strlit("am");
    reveal_strlit("fm");
    reveal_strlit("lsb");
    reveal_strlit("usb");
    assert("am"@[0] == 'a' && "fm"@[0] == 'f' && "lsb"@[0] == 'l' && "usb"@[0] == 'u');
}

/// A word without a space, followed by a text that starts with a space, is
/// what stands before the first space.
pub proof fn lemma_word_before_space(word: Seq<char>, rest: Seq<char>)
    requires
        forall|i: int| 0 <= i < word.len() ==> word[i] != ' ',
        rest.len() > 0,
        rest[0] == ' ',
    ensures
        first_char(word + rest, ' ') == word.len(),
        (word + rest).take(word.len() as int) == word,
        (word + rest).skip(word.len() as int) == rest,
{
    lemma_first_char_skips(word, rest, ' ');
    assert(first_char(rest, ' ') == 0);
    assert((word + rest).take(word.len() as int) =~= word);
    assert((word + rest).skip(word.len() as int) =~= rest);
}

/// The passband edges and the frequency of a tuning are read back.
proof fn lemma_read_cuts(low_cut: int, high_cut: int, hz: nat)
    requires
        is_i64(low_cut),
        is_i64(high_cut),
    ensures
        ({
            let d = khz_text(hz);
            let c = " freq="@ + d;
            let b = " high_cut="@ + (decimal(high_cut) + c);
            let after_mode = " low_cut="@ + (decimal(low_cut) + b);
            &&& after_mode.len() > 0
            &&& after_mode[0] == ' '
            &&& read_field(after_mode, " low_cut="@) == Some((low_cut, b))
            &&& read_field(b, " high_cut="@) == Some((high_cut, c))
            &&& after_prefix(c, " freq="@) == Some(d)
            &&& read_khz(d) == Some(hz)
        }),
{
    let d = khz_text(hz);
    let c = " freq="@ + d;
    let b = " high_cut="@ + (decimal(high_cut) + c);
    let after_mode = " low_cut="@ + (decimal(low_cut) + b);
    assert(" low_cut="@.len() > 0 && " low_cut="@[0] == ' ') by {
        reveal_strlit(" low_cut=");
    }
    assert(" high_cut="@.len() > 0 && " high_cut="@[0] == ' ') by {
        reveal_strlit(" high_cut=");
    }
    assert(" freq="@.len() > 0 && " freq="@[0] == ' ') by {
        reveal_strlit(" freq=");
    }
    assert(after_mode[0] == ' ');
    lemma_label_is_no_digit(" high_cut="@, decimal(high_cut) + c);
    lemma_label_is_no_digit(" freq="@, d);
    lemma_read_field(" low_cut="@, low_cut, b);
    lemma_read_field(" high_cut="@, high_cut, c);
    lemma_after_prefix(" freq="@, d);
    lemma_khz_text_is_the_frequency(hz);
}

/// The tuning that the fields of a tuning stand for is that tuning.
proof fn lemma_tuning_of(tuning: Tuning)
    requires
        has_inverse(CommandView::Tune(tuning)),
    ensures
        tuning_of(
            tuning.mode_text(),
            tuning.spec_low_cut(),
            tuning.spec_high_cut(),
            tuning.spec_frequency(),
        ) == Some(tuning),
{
    lemma_mode_names(tuning);
}

proof fn lemma_read_tune_fields(tuning: Tuning)
    requires
        has_inverse(CommandView::Tune(tuning)),
    ensures
        read_tune(
            "SET mod="@ + tune_fields(
                tuning.mode_text(),
                tuning.spec_low_cut(),
                tuning.spec_high_cut(),
                tuning.spec_frequency(),
            ),
        ) == Some(CommandView::Tune(tuning)),
{
    reveal(tune_fields);
    let mode = tuning.mode_text();
    let low_cut = tuning.spec_low_cut();
    let high_cut = tuning.spec_high_cut();
    let hz = tuning.spec_frequency();
    let d = khz_text(hz);
    let c = " freq="@ + d;
    let b = " high_cut="@ + (decimal(high_cut) + c);
    let after_mode = " low_cut="@ + (decimal(low_cut) + b);
    let a = mode + after_mode;
    lemma_after_prefix("SET mod="@, a);
    lemma_read_cuts(low_cut, high_cut, hz);
    assert(forall|i: int| 0 <= i < mode.len() ==> mode[i] != ' ') by {
        lemma_mode_names(tuning);
    }
    lemma_word_before_space(mode, after_mode);
    lemma_tuning_of(tuning);
}

/// The line that tunes the receiver is read back, but for the last bit of
/// an odd AM bandwidth.
pub proof fn lemma_tune_round_trip(tuning: Tuning)
    requires
        has_inverse(CommandView::Tune(tuning)),
    ensures
        read_command(tune_text(tuning)) == CommandView::Tune(tuning),
{
    let label = "SET mod="@;
    lemma_tune_shape(tuning);
    lemma_read_tune_fields(tuning);
    assert(label.len() >= 6 && label.take(4) =~= "SET "@ && label[4] == 'm') by {
        reveal_strlit("SET mod=");
        reveal_strlit("SET ");
    }
    lemma_line_start(
        label,
        tune_fields(
            tuning.mode_text(),
            tuning.spec_low_cut(),
            tuning.spec_high_cut(),
            tuning.spec_frequency(),
        ),
    );
}

/// Wire round trip: a message that can be told from its line is read back
/// from the line that it is written as.
pub proof fn lemma_wire_round_trip(m: CommandView)
    requires
        has_inverse(m),
        fits(m),
    ensures
        read_command(command_text(m)) == m,
{
    match m {
        CommandView::KeepAlive => {},
        CommandView::Login(pass) => {
            lemma_login_round_trip(pass);
        },
        CommandView::AROk { input_rate, output_rate } => {
            lemma_ar_ok_round_trip(input_rate, output_rate);
        },
        CommandView::Tune(tuning) => {
            lemma_tune_round_trip(tuning);
        },
        CommandView::SetCompression(enabled) => {
            lemma_compression_round_trip(enabled);
        },
        CommandView::SetIdentity(identity) => {
            lemma_identity_round_trip(identity);
        },
        CommandView::SetLocation(location) => {
            lemma_location_round_trip(location);
        },
        CommandView::SetAgc { enabled, decay, hang, slope, thresh, gain } => {
            lemma_agc_round_trip(enabled, hang, thresh, slope, decay, gain);
        },
        CommandView::Unknown(text) => {},
    }
}

/// The line of a message is the line of its plain values, and its integers
/// are such as a message can hold.
pub proof fn lemma_wire_text_of_view(m: KiwiClientMessage)
    ensures
        m.wire_text() == command_text(m@),
        fits(m@),
{
}

/// Wire round trip, for the messages themselves: a message that can be
/// told from its line is read back from the line that `encode` writes.
pub proof fn lemma_message_round_trip(m: KiwiClientMessage)
    requires
        has_inverse(m@),
    ensures
        read_command(m.wire_text()) == m@,
{
    lemma_wire_text_of_view(m);
    lemma_wire_round_trip(m@);
}

/// Two messages that can be told from their lines, and are written as the
/// same line, are the same message.
pub proof fn lemma_lines_tell_messages_apart(a: CommandView, b: CommandView)
    requires
        has_inverse(a),
        has_inverse(b),
        fits(a),
        fits(b),
        command_text(a) == command_text(b),
    ensures
        a == b,
{
    lemma_wire_round_trip(a);
    lemma_wire_round_trip(b);
}

} // verus!
