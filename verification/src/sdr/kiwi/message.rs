//! The text sub-protocol: commands of the client, notifications of the server.

use crate::sdr::kiwi::command::{has_inverse, lemma_message_round_trip, read_command};
use crate::sdr::kiwi::lex::{
    contains_key, contains_token, find_key, first_with_key, has_key, has_token, parse_u32,
    read_u32, split_tokens, token_value, tokens, value_of,
};
use crate::sdr::kiwi::DecodeError;
use crate::sdr::Tuning;
use crate::sdr::half;
use crate::text::{
    decimal, khz_text, lemma_khz_text_is_the_frequency, push_decimal, push_khz, read_khz,
};
use percent_encoding::{percent_encode, NON_ALPHANUMERIC};
use vstd::prelude::*;
use vstd::std_specs::convert::FromSpecImpl;
use vstd::string::*;
use vstd::utf8::encode_utf8;

verus! {

/// Whether a byte is an ASCII letter or digit.
pub open spec fn is_alphanumeric(b: u8) -> bool {
    (0x30 <= b <= 0x39) || (0x41 <= b <= 0x5A) || (0x61 <= b <= 0x7A)
}

/// The character of a hexadecimal digit, in upper case.
pub open spec fn hex_char(d: int) -> char {
    if d < 10 {
        (d + 48) as char
    } else {
        (d + 55) as char
    }
}

/// One byte, percent-encoded: ASCII letters and digits stand for themselves,
/// every other byte becomes `%` and its two hexadecimal digits in upper case.
pub open spec fn percent_encoded_byte(b: u8) -> Seq<char> {
    if is_alphanumeric(b) {
        seq![b as char]
    } else {
        seq!['%', hex_char((b / 16) as int), hex_char((b % 16) as int)]
    }
}

/// A run of bytes, percent-encoded byte by byte.
pub open spec fn percent_encoded(bytes: Seq<u8>) -> Seq<char>
    decreases bytes.len(),
{
    if bytes.len() == 0 {
        Seq::empty()
    } else {
        percent_encoded_byte(bytes[0]) + percent_encoded(bytes.drop_first())
    }
}

/// `percent_encoding::percent_encode` with the set `NON_ALPHANUMERIC`, on the
/// UTF-8 bytes of `text`, collected through its `Display`. The crate encodes
/// every byte that is not ASCII or is in the set, and the set holds every
/// ASCII byte but letters and digits; an encoded byte is `%` and two upper
/// case hexadecimal digits. Trusted, not proved.
#[verifier::external_body]
fn percent_encode_text(text: &str) -> (encoded: String)
    ensures
        encoded@ == percent_encoded(text.spec_bytes()),
{
    percent_encode(text.as_bytes(), NON_ALPHANUMERIC).to_string()
}

/// The request to log in, with the station's password if it has one.
pub struct LoginMessage {
    pub pass: Option<String>,
}

/// `1` for true, `0` for false.
pub open spec fn flag_text(on: bool) -> Seq<char> {
    if on {
        "1"@
    } else {
        "0"@
    }
}

/// The line that logs in: the password, or `#` where there is none.
pub open spec fn login_text(pass: Option<Seq<char>>) -> Seq<char> {
    "SET auth t=kiwi p="@ + match pass {
        Some(p) => p,
        None => "#"@,
    }
}

/// The line that keeps the session alive.
pub open spec fn keepalive_text() -> Seq<char> {
    "SET keepalive"@
}

/// The line that settles the audio rates, in hertz.
pub open spec fn ar_ok_text(input_rate: int, output_rate: int) -> Seq<char> {
    "SET AR OK in="@ + decimal(input_rate) + " out="@ + decimal(output_rate)
}

/// The line that switches the compression of the audio.
pub open spec fn compression_text(enabled: bool) -> Seq<char> {
    "SET compression="@ + flag_text(enabled)
}

/// The line that tells who listens: the name, percent-encoded.
pub open spec fn identity_text(identity: Seq<char>) -> Seq<char> {
    "SET ident_user="@ + percent_encoded(encode_utf8(identity))
}

/// The line that tells where the listener is: the place, percent-encoded.
pub open spec fn location_text(location: Seq<char>) -> Seq<char> {
    "SET geoloc="@ + percent_encoded(encode_utf8(location))
}

/// The line that tunes the receiver: mode, passband edges in hertz, and the
/// carrier frequency in kilohertz.
pub open spec fn tune_text(tuning: Tuning) -> Seq<char> {
    "SET mod="@ + tuning.mode_text() + " low_cut="@ + decimal(tuning.spec_low_cut())
        + " high_cut="@ + decimal(tuning.spec_high_cut()) + " freq="@ + khz_text(
        tuning.spec_frequency(),
    )
}

/// The line that sets the automatic gain control. Two spaces stand before
/// `manGain`: receivers expect the line byte for byte.
pub open spec fn agc_text(
    enabled: bool,
    hang: bool,
    thresh: int,
    slope: int,
    decay: int,
    gain: int,
) -> Seq<char> {
    "SET agc="@ + flag_text(enabled) + " hang="@ + flag_text(hang) + " thresh="@ + decimal(thresh)
        + " slope="@ + decimal(slope) + " decay="@ + decimal(decay) + "  manGain="@ + decimal(gain)
}

fn login_line(pass: &Option<String>) -> (text: String)
    ensures
        text@ == login_text(
            match *pass {
                Some(p) => Some(p@),
                None => None,
            },
        ),
{
    let mut out = String::from_str("SET auth t=kiwi p=");
    match pass {
        Some(p) => out.append(p.as_str()),
        None => out.append("#"),
    }
    out
}

fn flag_str(on: bool) -> (s: &'static str)
    ensures
        s@ == flag_text(on),
{
    if on {
        "1"
    } else {
        "0"
    }
}

impl LoginMessage {
    pub fn new(pass: Option<String>) -> (m: Self)
        ensures
            m.pass == pass,
    {
        LoginMessage { pass }
    }

    /// The text of this request on the wire.
    pub open spec fn wire_text(self) -> Seq<char> {
        login_text(
            match self.pass {
                Some(p) => Some(p@),
                None => None,
            },
        )
    }

    /// Writes this request as it goes over the wire.
    pub fn encode(&self) -> (text: String)
        ensures
            text@ == self.wire_text(),
    {
        login_line(&self.pass)
    }
}

/// What the client can say to the receiver.
#[derive(Debug)]
pub enum KiwiClientMessage {
    AROk { input_rate: i64, output_rate: i64 },
    Login(Option<String>),
    KeepAlive,
    SetCompression(bool),
    SetIdentity(String),
    SetLocation(String),
    SetAgc { enabled: bool, decay: i64, hang: bool, slope: i64, thresh: i64, gain: i64 },
    Tune(Tuning),
    Unknown(String),
}

impl KiwiClientMessage {
    /// The text of this message on the wire.
    pub open spec fn wire_text(self) -> Seq<char> {
        match self {
            KiwiClientMessage::KeepAlive => keepalive_text(),
            KiwiClientMessage::Login(pass) => login_text(
                match pass {
                    Some(p) => Some(p@),
                    None => None,
                },
            ),
            KiwiClientMessage::AROk { input_rate, output_rate } => ar_ok_text(
                input_rate as int,
                output_rate as int,
            ),
            KiwiClientMessage::Tune(tuning) => tune_text(tuning),
            KiwiClientMessage::SetCompression(enabled) => compression_text(enabled),
            KiwiClientMessage::SetIdentity(identity) => identity_text(identity@),
            KiwiClientMessage::SetLocation(location) => location_text(location@),
            KiwiClientMessage::SetAgc { enabled, decay, hang, slope, thresh, gain } => agc_text(
                enabled,
                hang,
                thresh as int,
                slope as int,
                decay as int,
                gain as int,
            ),
            KiwiClientMessage::Unknown(text) => text@,
        }
    }

    /// Writes this message as it goes over the wire: one line of text. The
    /// line of a message that can be told from its line is read back as
    /// that message.
    pub fn encode(&self) -> (text: String)
        ensures
            text@ == self.wire_text(),
            has_inverse(self@) ==> read_command(text@) == self@,
    {
        proof {
            if has_inverse(self@) {
                lemma_message_round_trip(*self);
            }
        }
        match self {
            KiwiClientMessage::KeepAlive => String::from_str("SET keepalive"),
            KiwiClientMessage::Login(pass) => login_line(pass),
            KiwiClientMessage::AROk { input_rate, output_rate } => {
                let mut out = String::from_str("SET AR OK in=");
                push_decimal(&mut out, *input_rate as i128);
                out.append(" out=");
                push_decimal(&mut out, *output_rate as i128);
                out
            },
            KiwiClientMessage::Tune(tuning) => {
                let mut out = String::from_str("SET mod=");
                out.append(mode_str(tuning));
                out.append(" low_cut=");
                push_decimal(&mut out, tuning.low_cut() as i128);
                out.append(" high_cut=");
                push_decimal(&mut out, tuning.high_cut() as i128);
                out.append(" freq=");
                push_khz(&mut out, tuning.frequency());
                out
            },
            KiwiClientMessage::SetCompression(enabled) => {
                let mut out = String::from_str("SET compression=");
                out.append(flag_str(*enabled));
                out
            },
            KiwiClientMessage::SetIdentity(identity) => {
                let mut out = String::from_str("SET ident_user=");
                let encoded = percent_encode_text(identity.as_str());
                out.append(encoded.as_str());
                out
            },
            KiwiClientMessage::SetLocation(location) => {
                let mut out = String::from_str("SET geoloc=");
                let encoded = percent_encode_text(location.as_str());
                out.append(encoded.as_str());
                out
            },
            KiwiClientMessage::SetAgc { enabled, decay, hang, slope, thresh, gain } => {
                let mut out = String::from_str("SET agc=");
                out.append(flag_str(*enabled));
                out.append(" hang=");
                out.append(flag_str(*hang));
                out.append(" thresh=");
                push_decimal(&mut out, *thresh as i128);
                out.append(" slope=");
                push_decimal(&mut out, *slope as i128);
                out.append(" decay=");
                push_decimal(&mut out, *decay as i128);
                out.append("  manGain=");
                push_decimal(&mut out, *gain as i128);
                out
            },
            KiwiClientMessage::Unknown(text) => text.clone(),
        }
    }
}

fn mode_str(tuning: &Tuning) -> (s: &'static str)
    ensures
        s@ == tuning.mode_text(),
{
    match tuning {
        Tuning::AM { .. } => "am",
        Tuning::FM { .. } => "fm",
        Tuning::LSB { .. } => "lsb",
        Tuning::USB { .. } => "usb",
    }
}

/// The sample rate of a receiver that announces audio without naming a rate.
pub const DEFAULT_AUDIO_RATE: u32 = 12000;

/// What a notification tells, going by its tokens.
#[derive(Debug, Clone, Copy, PartialEq, Eq, Structural)]
pub enum Notice {
    /// The receiver answered the login: true where it let the client in.
    Authentication(bool),
    /// The receiver starts the audio stream, at this sample rate in hertz.
    AudioInit(u32),
    /// The receiver starts the audio stream, and its rate cannot be read.
    BadRate,
    /// Anything else.
    Other,
}

/// What a notification tells. A token with the key `badp` makes it the
/// answer to the login, which failed if and only if a token is `badp=1`.
/// Otherwise a token with the key `audio_init` makes it the start of the
/// audio stream: the rate is the value of the first token with the key
/// `audio_rate`, read as a `u32`, and the default where no token has that
/// key.
pub open spec fn notice_of(text: Seq<u8>) -> Notice {
    let toks = tokens(text);
    if has_key(toks, "badp".spec_bytes()) {
        Notice::Authentication(!has_token(toks, "badp=1".spec_bytes()))
    } else if has_key(toks, "audio_init".spec_bytes()) {
        match first_with_key(toks, "audio_rate".spec_bytes()) {
            None => Notice::AudioInit(DEFAULT_AUDIO_RATE),
            Some(t) => match token_value(t) {
                None => Notice::BadRate,
                Some(v) => match parse_u32(v) {
                    None => Notice::BadRate,
                    Some(rate) => Notice::AudioInit(rate),
                },
            },
        }
    } else {
        Notice::Other
    }
}

/// Reads what a notification tells.
pub fn classify(text: &[u8]) -> (notice: Notice)
    ensures
        notice == notice_of(text@),
{
    let toks = split_tokens(text);
    if contains_key(&toks, "badp".as_bytes()) {
        Notice::Authentication(!contains_token(&toks, "badp=1".as_bytes()))
    } else if contains_key(&toks, "audio_init".as_bytes()) {
        match find_key(&toks, "audio_rate".as_bytes()) {
            None => Notice::AudioInit(DEFAULT_AUDIO_RATE),
            Some(i) => match value_of(toks[i].as_slice()) {
                None => Notice::BadRate,
                Some(v) => match read_u32(v) {
                    None => Notice::BadRate,
                    Some(rate) => Notice::AudioInit(rate),
                },
            },
        }
    } else {
        Notice::Other
    }
}

/// What the receiver can say to the client.
#[derive(Debug)]
pub enum KiwiServerMessage {
    AuthenticationResult(bool),
    Unknown(String),
    AudioInit(u32),
    SoundData(Vec<u8>),
}

impl KiwiServerMessage {
    /// The message that a notification stands for. One that tells nothing
    /// this client knows, or whose rate cannot be read, is passed on whole.
    pub open spec fn of_text(msg: String) -> KiwiServerMessage {
        match notice_of(encode_utf8(msg@)) {
            Notice::Authentication(ok) => KiwiServerMessage::AuthenticationResult(ok),
            Notice::AudioInit(rate) => KiwiServerMessage::AudioInit(rate),
            Notice::BadRate => KiwiServerMessage::Unknown(msg),
            Notice::Other => KiwiServerMessage::Unknown(msg),
        }
    }

    /// Reads a notification. It fails, with `InvalidRate`, if and only if
    /// the notification starts the audio stream at a rate that cannot be read.
    pub fn parse(msg: String) -> (r: Result<KiwiServerMessage, DecodeError>)
        ensures
            notice_of(encode_utf8(msg@)) == Notice::BadRate ==> r == Err::<
                KiwiServerMessage,
                DecodeError,
            >(DecodeError::InvalidRate),
            notice_of(encode_utf8(msg@)) != Notice::BadRate ==> r == Ok::<
                KiwiServerMessage,
                DecodeError,
            >(KiwiServerMessage::of_text(msg)),
    {
        let notice = classify(msg.as_str().as_bytes());
        match notice {
            Notice::Authentication(ok) => Ok(KiwiServerMessage::AuthenticationResult(ok)),
            Notice::AudioInit(rate) => Ok(KiwiServerMessage::AudioInit(rate)),
            Notice::BadRate => Err(DecodeError::InvalidRate),
            Notice::Other => Ok(KiwiServerMessage::Unknown(msg)),
        }
    }
}

impl From<String> for KiwiServerMessage {
    fn from(msg: String) -> (m: KiwiServerMessage) {
        let notice = classify(msg.as_str().as_bytes());
        match notice {
            Notice::Authentication(ok) => KiwiServerMessage::AuthenticationResult(ok),
            Notice::AudioInit(rate) => KiwiServerMessage::AudioInit(rate),
            Notice::BadRate => KiwiServerMessage::Unknown(msg),
            Notice::Other => KiwiServerMessage::Unknown(msg),
        }
    }
}

impl FromSpecImpl<String> for KiwiServerMessage {
    open spec fn obeys_from_spec() -> bool {
        true
    }

    open spec fn from_spec(msg: String) -> KiwiServerMessage {
        KiwiServerMessage::of_text(msg)
    }
}

/// Units of the line that tunes to AM: the passband edges are minus and
/// plus half the bandwidth, in hertz, and the frequency is written in
/// kilohertz, so that the number written is the number of hertz divided by
/// 1000.
pub proof fn lemma_am_tune_units(bandwidth: i32, frequency: u64)
    ensures
        tune_text(Tuning::AM { bandwidth, frequency }) == "SET mod="@ + "am"@ + " low_cut="@
            + decimal(-half(bandwidth as int)) + " high_cut="@ + decimal(half(bandwidth as int))
            + " freq="@ + khz_text(frequency as nat),
        bandwidth >= 0 ==> half(bandwidth as int) == bandwidth / 2,
        read_khz(khz_text(frequency as nat)) == Some(frequency as nat),
{
    lemma_khz_text_is_the_frequency(frequency as nat);
}

/// Units of every line that tunes: the frequency is written in kilohertz,
/// and the passband edges in hertz.
pub proof fn lemma_tune_units(tuning: Tuning)
    ensures
        tune_text(tuning) == "SET mod="@ + tuning.mode_text() + " low_cut="@ + decimal(
            tuning.spec_low_cut(),
        ) + " high_cut="@ + decimal(tuning.spec_high_cut()) + " freq="@ + khz_text(
            tuning.spec_frequency(),
        ),
        read_khz(khz_text(tuning.spec_frequency())) == Some(tuning.spec_frequency()),
{
    lemma_khz_text_is_the_frequency(tuning.spec_frequency());
}

/// Whether a character can stand in a percent-encoded text: an ASCII letter
/// or digit, or `%`.
pub open spec fn is_encoded_char(c: char) -> bool {
    c == '%' || (c as int <= 127 && is_alphanumeric(c as u8))
}

/// A percent-encoded text holds nothing but ASCII letters, digits and `%`:
/// every other byte of what was encoded is escaped.
pub proof fn lemma_percent_encoded_chars(bytes: Seq<u8>)
    ensures
        forall|i: int|
            0 <= i < percent_encoded(bytes).len() ==> is_encoded_char(
                #[trigger] percent_encoded(bytes)[i],
            ),
    decreases bytes.len(),
{
    if bytes.len() > 0 {
        let first = percent_encoded_byte(bytes[0]);
        let rest = percent_encoded(bytes.drop_first());
        lemma_percent_encoded_chars(bytes.drop_first());
        assert forall|j: int| 0 <= j < first.len() implies is_encoded_char(#[trigger] first[j]) by {
            let b = bytes[0];
            if is_alphanumeric(b) {
                assert(first[j] == b as char);
                assert((b as char) as u8 == b);
            } else {
                let high = (b / 16) as int;
                let low = (b % 16) as int;
                assert(is_encoded_char(hex_char(high)));
                assert(is_encoded_char(hex_char(low)));
            }
        }
        assert forall|i: int| 0 <= i < percent_encoded(bytes).len() implies is_encoded_char(
            #[trigger] percent_encoded(bytes)[i],
        ) by {
            if i < first.len() {
                assert(percent_encoded(bytes)[i] == first[i]);
            } else {
                assert(percent_encoded(bytes)[i] == rest[i - first.len()]);
            }
        }
    }
}

} // verus!
