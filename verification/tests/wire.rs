use sdr_scraper::sdr::kiwi::lex::{find_byte, key_of, read_u32, split_tokens, value_of};
use sdr_scraper::sdr::kiwi::message::{
    classify, KiwiClientMessage, KiwiServerMessage, LoginMessage, Notice,
};
use sdr_scraper::sdr::kiwi::DecodeError;
use sdr_scraper::sdr::Tuning;
use sdr_scraper::text::{digit_str, push_decimal, push_decimal_digits, push_khz};

fn khz(hz: u64) -> String {
    let mut out = String::new();
    push_khz(&mut out, hz);
    out
}

fn dec(n: i128) -> String {
    let mut out = String::from("x");
    push_decimal(&mut out, n);
    out
}

#[test]
fn decimal_text() {
    assert_eq!(dec(0), "x0");
    assert_eq!(dec(7), "x7");
    assert_eq!(dec(10), "x10");
    assert_eq!(dec(-1), "x-1");
    assert_eq!(dec(1234567890), "x1234567890");
    assert_eq!(dec(i64::MIN as i128), format!("x{}", i64::MIN));
    assert_eq!(dec(i128::MIN), format!("x{}", i128::MIN));
    assert_eq!(dec(i128::MAX), format!("x{}", i128::MAX));
    let mut out = String::new();
    push_decimal_digits(&mut out, u128::MAX);
    assert_eq!(out, u128::MAX.to_string());
    for d in 0..10u8 {
        assert_eq!(digit_str(d), d.to_string());
    }
}

#[test]
fn kilohertz_text() {
    assert_eq!(khz(7_850_000), "7850");
    assert_eq!(khz(7_850_500), "7850.5");
    assert_eq!(khz(7_850_050), "7850.05");
    assert_eq!(khz(7_850_001), "7850.001");
    assert_eq!(khz(7_850_120), "7850.12");
    assert_eq!(khz(7_850_123), "7850.123");
    assert_eq!(khz(0), "0");
    assert_eq!(khz(1), "0.001");
    assert_eq!(khz(10), "0.01");
    assert_eq!(khz(100), "0.1");
    assert_eq!(khz(999), "0.999");
    assert_eq!(khz(1000), "1");
}

#[test]
fn kilohertz_text_is_the_quotient_by_1000() {
    let mut x: u64 = 1;
    for _ in 0..5000 {
        x = x.wrapping_mul(6364136223846793005).wrapping_add(1442695040888963407);
        let hz = (x >> 20) % 40_000_000_000;
        assert_eq!(khz(hz), format!("{}", hz as f64 / 1000.0), "{} Hz", hz);
    }
    for hz in 0..3000u64 {
        assert_eq!(khz(hz), format!("{}", hz as f64 / 1000.0));
    }
}

#[test]
fn tune_encode() {
    let m = KiwiClientMessage::Tune(Tuning::AM { bandwidth: 5000, frequency: 7_850_000 });
    assert_eq!(m.encode(), "SET mod=am low_cut=-2500 high_cut=2500 freq=7850");
}

#[test]
fn tune_am_halves_the_bandwidth() {
    let m = KiwiClientMessage::Tune(Tuning::AM { bandwidth: 9001, frequency: 1_008_500 });
    assert_eq!(m.encode(), "SET mod=am low_cut=-4500 high_cut=4500 freq=1008.5");
    let m = KiwiClientMessage::Tune(Tuning::AM { bandwidth: 1, frequency: 5 });
    assert_eq!(m.encode(), "SET mod=am low_cut=0 high_cut=0 freq=0.005");
    let m = KiwiClientMessage::Tune(Tuning::AM { bandwidth: -5001, frequency: 1000 });
    assert_eq!(m.encode(), "SET mod=am low_cut=2500 high_cut=-2500 freq=1");
    let m = KiwiClientMessage::Tune(Tuning::AM { bandwidth: i32::MIN, frequency: 1000 });
    assert_eq!(m.encode(), "SET mod=am low_cut=1073741824 high_cut=-1073741824 freq=1");
    let m = KiwiClientMessage::Tune(Tuning::AM { bandwidth: i32::MAX, frequency: 1000 });
    assert_eq!(m.encode(), "SET mod=am low_cut=-1073741823 high_cut=1073741823 freq=1");
}

#[test]
fn tune_other_modes() {
    let m = KiwiClientMessage::Tune(Tuning::USB { low_cut: 300, high_cut: 2700, frequency: 14_074_000 });
    assert_eq!(m.encode(), "SET mod=usb low_cut=300 high_cut=2700 freq=14074");
    let m = KiwiClientMessage::Tune(Tuning::LSB { low_cut: -2700, high_cut: -300, frequency: 3_573_000 });
    assert_eq!(m.encode(), "SET mod=lsb low_cut=-2700 high_cut=-300 freq=3573");
    let m = KiwiClientMessage::Tune(Tuning::FM { low_cut: -6000, high_cut: 6000, frequency: 29_600_250 });
    assert_eq!(m.encode(), "SET mod=fm low_cut=-6000 high_cut=6000 freq=29600.25");
}

#[test]
fn tuning_accessors() {
    let am = Tuning::AM { bandwidth: 5000, frequency: 7_850_000 };
    assert_eq!((am.low_cut(), am.high_cut(), am.frequency()), (-2500, 2500, 7_850_000));
    assert!(am.is_valid());
    assert!(!Tuning::AM { bandwidth: 0, frequency: 7_850_000 }.is_valid());
    assert!(!Tuning::AM { bandwidth: 10, frequency: 0 }.is_valid());
    let usb = Tuning::USB { low_cut: 300, high_cut: 2700, frequency: 1 };
    assert_eq!((usb.low_cut(), usb.high_cut(), usb.frequency()), (300, 2700, 1));
    assert!(usb.is_valid());
    assert!(!Tuning::USB { low_cut: 2700, high_cut: 2700, frequency: 1 }.is_valid());
    assert!(!Tuning::LSB { low_cut: 1, high_cut: 0, frequency: 1 }.is_valid());
    assert!(!Tuning::FM { low_cut: 0, high_cut: 1, frequency: 0 }.is_valid());
}

#[test]
fn tuning_in_words() {
    assert_eq!(
        Tuning::AM { bandwidth: 5000, frequency: 7_850_000 }.describe(),
        "AM: 7850000 Hz, 5000 Hz bandwidth"
    );
    assert_eq!(
        Tuning::FM { low_cut: 1, high_cut: 2, frequency: 3 }.describe(),
        "FM: 3 Hz, -1->2 Hz"
    );
    assert_eq!(
        Tuning::LSB { low_cut: -2700, high_cut: -300, frequency: 3_573_000 }.describe(),
        "LSB: 3573000 Hz, --2700->-300 Hz"
    );
    assert_eq!(
        Tuning::USB { low_cut: 300, high_cut: 2700, frequency: 14_074_000 }.describe(),
        "USB: 14074000 Hz, -300->2700 Hz"
    );
}

#[test]
fn login_lines() {
    assert_eq!(LoginMessage::new(None).encode(), "SET auth t=kiwi p=#");
    assert_eq!(LoginMessage::new(Some("w8edu".to_string())).encode(), "SET auth t=kiwi p=w8edu");
    assert_eq!(KiwiClientMessage::Login(None).encode(), "SET auth t=kiwi p=#");
    assert_eq!(
        KiwiClientMessage::Login(Some("s e c".to_string())).encode(),
        "SET auth t=kiwi p=s e c"
    );
    assert_eq!(LoginMessage::new(Some(String::new())).pass, Some(String::new()));
}

#[test]
fn plain_commands() {
    assert_eq!(KiwiClientMessage::KeepAlive.encode(), "SET keepalive");
    assert_eq!(
        KiwiClientMessage::AROk { input_rate: 12000, output_rate: 48000 }.encode(),
        "SET AR OK in=12000 out=48000"
    );
    assert_eq!(
        KiwiClientMessage::AROk { input_rate: -1, output_rate: i64::MAX }.encode(),
        "SET AR OK in=-1 out=9223372036854775807"
    );
    assert_eq!(KiwiClientMessage::SetCompression(true).encode(), "SET compression=1");
    assert_eq!(KiwiClientMessage::SetCompression(false).encode(), "SET compression=0");
    assert_eq!(
        KiwiClientMessage::Unknown("SET squelch=0 param=0.00".to_string()).encode(),
        "SET squelch=0 param=0.00"
    );
    assert_eq!(KiwiClientMessage::Unknown(String::new()).encode(), "");
}

#[test]
fn agc_line_keeps_its_double_space() {
    let m = KiwiClientMessage::SetAgc {
        enabled: true,
        decay: 1370,
        hang: false,
        slope: 6,
        thresh: -96,
        gain: 70,
    };
    assert_eq!(m.encode(), "SET agc=1 hang=0 thresh=-96 slope=6 decay=1370  manGain=70");
    let m = KiwiClientMessage::SetAgc {
        enabled: false,
        decay: 0,
        hang: true,
        slope: -1,
        thresh: i64::MIN,
        gain: 1,
    };
    assert_eq!(
        m.encode(),
        "SET agc=0 hang=1 thresh=-9223372036854775808 slope=-1 decay=0  manGain=1"
    );
}

#[test]
fn identity_and_location_are_percent_encoded() {
    assert_eq!(
        KiwiClientMessage::SetIdentity("W8EDU".to_string()).encode(),
        "SET ident_user=W8EDU"
    );
    assert_eq!(
        KiwiClientMessage::SetLocation("Cleveland, OH".to_string()).encode(),
        "SET geoloc=Cleveland%2C%20OH"
    );
    assert_eq!(
        KiwiClientMessage::SetIdentity("a-b_c.d~e%f/g".to_string()).encode(),
        "SET ident_user=a%2Db%5Fc%2Ed%7Ee%25f%2Fg"
    );
    assert_eq!(
        KiwiClientMessage::SetLocation("Z\u{fc}rich\n".to_string()).encode(),
        "SET geoloc=Z%C3%BCrich%0A"
    );
    assert_eq!(KiwiClientMessage::SetIdentity(String::new()).encode(), "SET ident_user=");
}

#[test]
fn audio_init_parse() {
    let m = KiwiServerMessage::from(
        "audio_init=1 audio_rate=12000 sample_rate=12000.000".to_string(),
    );
    assert!(matches!(m, KiwiServerMessage::AudioInit(12000)));
    let m = KiwiServerMessage::parse("audio_init=0 audio_rate=44100".to_string());
    assert!(matches!(m, Ok(KiwiServerMessage::AudioInit(44100))));
    let m = KiwiServerMessage::parse("sample_rate=1 audio_rate=8000 audio_init".to_string());
    assert!(matches!(m, Ok(KiwiServerMessage::AudioInit(8000))));
    let m = KiwiServerMessage::parse("audio_init=1 audio_rate=+4294967295".to_string());
    assert!(matches!(m, Ok(KiwiServerMessage::AudioInit(u32::MAX))));
    let m = KiwiServerMessage::parse("audio_init=1 audio_rate=7=9 audio_rate=5".to_string());
    assert!(matches!(m, Ok(KiwiServerMessage::AudioInit(7))));
}

#[test]
fn audio_init_without_a_rate_takes_the_default() {
    assert!(matches!(
        KiwiServerMessage::from("audio_init=1".to_string()),
        KiwiServerMessage::AudioInit(12000)
    ));
    assert!(matches!(
        KiwiServerMessage::parse("  audio_init  sample_rate=5 ".to_string()),
        Ok(KiwiServerMessage::AudioInit(12000))
    ));
}

#[test]
fn audio_init_with_an_unreadable_rate() {
    for text in [
        "audio_init=1 audio_rate=fast",
        "audio_init=1 audio_rate=",
        "audio_init=1 audio_rate",
        "audio_init=1 audio_rate=4294967296",
        "audio_init=1 audio_rate=-1",
        "audio_init=1 audio_rate=+",
        "audio_init=1 audio_rate=99999999999999999999999999",
    ] {
        assert!(matches!(
            KiwiServerMessage::parse(text.to_string()),
            Err(DecodeError::InvalidRate)
        ));
        match KiwiServerMessage::from(text.to_string()) {
            KiwiServerMessage::Unknown(raw) => assert_eq!(raw, text),
            other => panic!("{:?}", other),
        }
        assert_eq!(classify(text.as_bytes()), Notice::BadRate);
    }
}

#[test]
fn login_answers() {
    assert!(matches!(
        KiwiServerMessage::from("badp=1".to_string()),
        KiwiServerMessage::AuthenticationResult(false)
    ));
    assert!(matches!(
        KiwiServerMessage::from("badp=0".to_string()),
        KiwiServerMessage::AuthenticationResult(true)
    ));
    assert!(matches!(
        KiwiServerMessage::from("rx_chans=4 badp=1 x".to_string()),
        KiwiServerMessage::AuthenticationResult(false)
    ));
    assert!(matches!(
        KiwiServerMessage::from("badp=2".to_string()),
        KiwiServerMessage::AuthenticationResult(true)
    ));
    assert!(matches!(
        KiwiServerMessage::from("badp=10".to_string()),
        KiwiServerMessage::AuthenticationResult(true)
    ));
    assert!(matches!(
        KiwiServerMessage::from("badp".to_string()),
        KiwiServerMessage::AuthenticationResult(true)
    ));
    // the login answer goes before the audio announcement
    assert!(matches!(
        KiwiServerMessage::from("audio_init=1 audio_rate=x badp=0".to_string()),
        KiwiServerMessage::AuthenticationResult(true)
    ));
}

#[test]
fn other_notifications_are_passed_on() {
    for text in ["", "   ", "rx_chans=4", "xbadp=1", "badpx=1", "my_audio_init=1 audio_rate=5", "=badp"] {
        match KiwiServerMessage::from(text.to_string()) {
            KiwiServerMessage::Unknown(raw) => assert_eq!(raw, text),
            other => panic!("{:?}", other),
        }
        assert_eq!(classify(text.as_bytes()), Notice::Other);
    }
}

#[test]
fn tokens_are_split_at_white_space() {
    let toks = split_tokens(b"  a=1\tbb \r\n c=\x0b\x0cd  ");
    assert_eq!(toks, vec![b"a=1".to_vec(), b"bb".to_vec(), b"c=".to_vec(), b"d".to_vec()]);
    assert!(split_tokens(b"").is_empty());
    assert!(split_tokens(b" \n").is_empty());
    assert_eq!(split_tokens(b"x"), vec![b"x".to_vec()]);
    assert_eq!(split_tokens("a\u{a0}b".as_bytes()), vec!["a\u{a0}b".as_bytes().to_vec()]);
}

#[test]
fn keys_and_values() {
    assert_eq!(key_of(b"audio_rate=12000"), b"audio_rate");
    assert_eq!(key_of(b"flag"), b"flag");
    assert_eq!(key_of(b"=x"), b"");
    assert_eq!(value_of(b"audio_rate=12000"), Some(&b"12000"[..]));
    assert_eq!(value_of(b"a=b=c"), Some(&b"b"[..]));
    assert_eq!(value_of(b"a="), Some(&b""[..]));
    assert_eq!(value_of(b"a"), None);
    assert_eq!(find_byte(b"abc", b'c'), 2);
    assert_eq!(find_byte(b"abc", b'x'), 3);
    assert_eq!(find_byte(b"", b'x'), 0);
}

#[test]
fn unsigned_numbers() {
    assert_eq!(read_u32(b"0"), Some(0));
    assert_eq!(read_u32(b"007"), Some(7));
    assert_eq!(read_u32(b"+12"), Some(12));
    assert_eq!(read_u32(b"4294967295"), Some(u32::MAX));
    assert_eq!(read_u32(b"4294967296"), None);
    assert_eq!(read_u32(b"0000000000000000000004294967295"), Some(u32::MAX));
    assert_eq!(read_u32(b""), None);
    assert_eq!(read_u32(b"+"), None);
    assert_eq!(read_u32(b"++1"), None);
    assert_eq!(read_u32(b"-1"), None);
    assert_eq!(read_u32(b"1 "), None);
    assert_eq!(read_u32(b"12a"), None);
    for text in ["0", "12000", "+5", "", "x", "4294967295", "4294967296", "00", "-0", "1e3"] {
        assert_eq!(read_u32(text.as_bytes()), text.parse::<u32>().ok(), "{:?}", text);
    }
}

#[test]
fn distinct_messages_have_distinct_lines() {
    let messages = vec![
        KiwiClientMessage::KeepAlive,
        KiwiClientMessage::Login(None),
        KiwiClientMessage::Login(Some("pw".to_string())),
        KiwiClientMessage::Login(Some(String::new())),
        KiwiClientMessage::AROk { input_rate: 12000, output_rate: 48000 },
        KiwiClientMessage::AROk { input_rate: 1200, output_rate: 48000 },
        KiwiClientMessage::AROk { input_rate: 12000, output_rate: -48000 },
        KiwiClientMessage::SetCompression(true),
        KiwiClientMessage::SetCompression(false),
        KiwiClientMessage::SetIdentity("W8EDU".to_string()),
        KiwiClientMessage::SetIdentity("W8 EDU".to_string()),
        KiwiClientMessage::SetIdentity("W8%20EDU".to_string()),
        KiwiClientMessage::SetLocation("W8EDU".to_string()),
        KiwiClientMessage::SetAgc { enabled: true, decay: 1, hang: false, slope: 2, thresh: 3, gain: 4 },
        KiwiClientMessage::SetAgc { enabled: true, decay: 1, hang: false, slope: 2, thresh: 34, gain: 4 },
        KiwiClientMessage::SetAgc { enabled: true, decay: 1, hang: true, slope: 2, thresh: 3, gain: 4 },
        KiwiClientMessage::Tune(Tuning::AM { bandwidth: 5000, frequency: 7_850_000 }),
        KiwiClientMessage::Tune(Tuning::AM { bandwidth: 5002, frequency: 7_850_000 }),
        KiwiClientMessage::Tune(Tuning::AM { bandwidth: 5000, frequency: 7_850_001 }),
        KiwiClientMessage::Tune(Tuning::FM { low_cut: -2500, high_cut: 2500, frequency: 7_850_000 }),
        KiwiClientMessage::Tune(Tuning::LSB { low_cut: -2500, high_cut: 2500, frequency: 7_850_000 }),
        KiwiClientMessage::Tune(Tuning::USB { low_cut: -2500, high_cut: 2500, frequency: 7_850_000 }),
        KiwiClientMessage::Unknown("SET squelch=0 param=0.00".to_string()),
    ];
    let lines: Vec<String> = messages.iter().map(|m| m.encode()).collect();
    for i in 0..lines.len() {
        for j in 0..i {
            assert_ne!(lines[i], lines[j], "{:?} and {:?}", messages[i], messages[j]);
        }
    }
    // what has no inverse: the last bit of an odd bandwidth, the password `#`, a raw line
    assert_eq!(
        KiwiClientMessage::Tune(Tuning::AM { bandwidth: 5001, frequency: 1 }).encode(),
        KiwiClientMessage::Tune(Tuning::AM { bandwidth: 5000, frequency: 1 }).encode()
    );
    assert_eq!(
        KiwiClientMessage::Login(Some("#".to_string())).encode(),
        KiwiClientMessage::Login(None).encode()
    );
    assert_eq!(
        KiwiClientMessage::Unknown("SET keepalive".to_string()).encode(),
        KiwiClientMessage::KeepAlive.encode()
    );
}

fn same(a: &KiwiClientMessage, b: &KiwiClientMessage) -> bool {
    format!("{:?}", a) == format!("{:?}", b)
}

#[test]
fn wire_round_trip() {
    let messages = vec![
        KiwiClientMessage::KeepAlive,
        KiwiClientMessage::Login(None),
        KiwiClientMessage::Login(Some("pw".to_string())),
        KiwiClientMessage::Login(Some("two words = ok #".to_string())),
        KiwiClientMessage::Login(Some(String::new())),
        KiwiClientMessage::AROk { input_rate: 12000, output_rate: 48000 },
        KiwiClientMessage::AROk { input_rate: i64::MIN, output_rate: i64::MAX },
        KiwiClientMessage::AROk { input_rate: 0, output_rate: -1 },
        KiwiClientMessage::SetCompression(true),
        KiwiClientMessage::SetCompression(false),
        KiwiClientMessage::SetIdentity("W8EDU".to_string()),
        KiwiClientMessage::SetIdentity("W8%20EDU Z\u{fc}rich \u{1F4FB}".to_string()),
        KiwiClientMessage::SetIdentity(String::new()),
        KiwiClientMessage::SetLocation("Cleveland, OH".to_string()),
        KiwiClientMessage::SetAgc {
            enabled: true,
            decay: 1370,
            hang: false,
            slope: 6,
            thresh: -96,
            gain: 70,
        },
        KiwiClientMessage::SetAgc {
            enabled: false,
            decay: i64::MAX,
            hang: true,
            slope: i64::MIN,
            thresh: 0,
            gain: -1,
        },
        KiwiClientMessage::Tune(Tuning::AM { bandwidth: 5000, frequency: 7_850_000 }),
        KiwiClientMessage::Tune(Tuning::AM { bandwidth: 0, frequency: 0 }),
        KiwiClientMessage::Tune(Tuning::AM { bandwidth: -5000, frequency: 1 }),
        KiwiClientMessage::Tune(Tuning::AM { bandwidth: i32::MIN, frequency: u64::MAX }),
        KiwiClientMessage::Tune(Tuning::AM { bandwidth: i32::MAX - 1, frequency: 7_850_120 }),
        KiwiClientMessage::Tune(Tuning::FM { low_cut: -6000, high_cut: 6000, frequency: 29_600_250 }),
        KiwiClientMessage::Tune(Tuning::LSB { low_cut: i32::MIN, high_cut: i32::MAX, frequency: 10 }),
        KiwiClientMessage::Tune(Tuning::USB { low_cut: 300, high_cut: 2700, frequency: 14_074_000 }),
        KiwiClientMessage::Unknown("SET squelch=0 param=0.00".to_string()),
        KiwiClientMessage::Unknown("SERVER DE CLIENT openwebrx.js SND".to_string()),
        KiwiClientMessage::Unknown(String::new()),
    ];
    for m in &messages {
        let line = m.encode();
        let back = KiwiClientMessage::parse(&line);
        assert!(same(&back, m), "{:?} was read back as {:?}", m, back);
        assert_eq!(back.encode(), line);
    }
}

#[test]
fn messages_without_an_inverse_are_read_as_their_nearest() {
    let odd = KiwiClientMessage::Tune(Tuning::AM { bandwidth: 5001, frequency: 7_850_000 });
    let even = KiwiClientMessage::Tune(Tuning::AM { bandwidth: 5000, frequency: 7_850_000 });
    assert!(same(&KiwiClientMessage::parse(&odd.encode()), &even));
    let hash = KiwiClientMessage::Login(Some("#".to_string()));
    assert!(same(&KiwiClientMessage::parse(&hash.encode()), &KiwiClientMessage::Login(None)));
    let raw = KiwiClientMessage::Unknown("SET compression=1".to_string());
    assert!(same(
        &KiwiClientMessage::parse(&raw.encode()),
        &KiwiClientMessage::SetCompression(true)
    ));
}

#[test]
fn lines_that_are_no_message_are_passed_on() {
    for line in [
        "SET keepalive ",
        "set keepalive",
        "SET compression=2",
        "SET compression=1 ",
        "SET compression=",
        "SET AR OK in=12000 out=",
        "SET AR OK in=12000  out=48000",
        "SET AR OK in=+12000 out=48000",
        "SET AR OK in=9223372036854775808 out=1",
        "SET AR OK in=1 out=-9223372036854775809",
        "SET AR OK in=1 out=2x",
        "SET agc=1 hang=0 thresh=-96 slope=6 decay=1370 manGain=70",
        "SET agc=1 hang=0 thresh=-96 slope=6 decay=1370  manGain=",
        "SET ident_user=W8 EDU",
        "SET ident_user=%2",
        "SET ident_user=%2g",
        "SET ident_user=%c3%bc",
        "SET ident_user=%FF",
        "SET geoloc=a-b",
        "SET mod=am low_cut=-2500 high_cut=2501 freq=7850",
        "SET mod=am low_cut=-2500 high_cut=2500 freq=7850.",
        "SET mod=am low_cut=-2500 high_cut=2500 freq=7850.1234",
        "SET mod=am low_cut=-2500 high_cut=2500 freq=.5",
        "SET mod=am low_cut=-2500 high_cut=2500 freq=18446744073709552",
        "SET mod=am low_cut=-1073741824 high_cut=1073741824 freq=1",
        "SET mod=cw low_cut=-2500 high_cut=2500 freq=7850",
        "SET mod=usb low_cut=2147483648 high_cut=1 freq=7850",
        "SET mod=usb  low_cut=1 high_cut=2 freq=7850",
        "SET mod=usb low_cut=1 high_cut=2 freq=7850 ",
        "SET squelch=0 param=0.00",
        "SET ",
        "SET a",
        "",
        "MSG badp=1",
    ] {
        match KiwiClientMessage::parse(line) {
            KiwiClientMessage::Unknown(raw) => assert_eq!(raw, line),
            other => panic!("{:?} was read as {:?}", line, other),
        }
    }
}

#[test]
fn lines_of_other_writers_are_read_too() {
    assert!(same(
        &KiwiClientMessage::parse("SET AR OK in=007 out=-0"),
        &KiwiClientMessage::AROk { input_rate: 7, output_rate: 0 }
    ));
    assert!(same(
        &KiwiClientMessage::parse("SET mod=usb low_cut=300 high_cut=2700 freq=7850.50"),
        &KiwiClientMessage::Tune(Tuning::USB { low_cut: 300, high_cut: 2700, frequency: 7_850_500 })
    ));
    assert!(same(
        &KiwiClientMessage::parse("SET mod=am low_cut=-0 high_cut=0 freq=18446744073709551.615"),
        &KiwiClientMessage::Tune(Tuning::AM { bandwidth: 0, frequency: u64::MAX })
    ));
    assert!(same(
        &KiwiClientMessage::parse("SET ident_user=%41%42"),
        &KiwiClientMessage::SetIdentity("AB".to_string())
    ));
    assert!(same(
        &KiwiClientMessage::parse("SET auth t=kiwi p="),
        &KiwiClientMessage::Login(Some(String::new()))
    ));
}
