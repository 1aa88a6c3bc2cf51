use std::sync::atomic::Ordering;

use sdr_scraper::sdr::kiwi::atomic::AtomicF64;
use sdr_scraper::sdr::kiwi::event::{KiwiCloseReason, KiwiEvent};
use sdr_scraper::sdr::kiwi::scraper::{
    log_excerpt, setup_messages, KiwiSDRScraper, KiwiSDRScraperSettings, ScraperAction,
};
use sdr_scraper::sdr::kiwi::{Frame, KiwiSDR};
use sdr_scraper::sdr::scraper::ScraperStatus;
use sdr_scraper::sdr::Tuning;

const T0: i64 = 1_431_648_000;

fn settings() -> KiwiSDRScraperSettings {
    KiwiSDRScraperSettings {
        name: "w8edu_7850".to_string(),
        endpoint: "ws://kiwi.example:8073/".to_string(),
        password: Some("pw".to_string()),
        station: Tuning::USB { low_cut: 300, high_cut: 2700, frequency: 7_850_000 },
        agc: true,
    }
}

fn running() -> KiwiSDRScraper {
    let mut s = KiwiSDRScraper::new(settings());
    s.start();
    s
}

fn lines(actions: &[ScraperAction]) -> Vec<String> {
    actions
        .iter()
        .map(|a| match a {
            ScraperAction::Connect => "connect".to_string(),
            ScraperAction::RunEventLoop => "events".to_string(),
            ScraperAction::Send(m) => format!("send {}", m.encode()),
            ScraperAction::StartKeepalive { every_secs } => format!("keepalive {}", every_secs),
            ScraperAction::CreateFile(f) => {
                format!("create {} {} Hz", f.file_name, f.format.sample_rate)
            }
            ScraperAction::WriteSamples(s) => format!("write {:?}", s),
            ScraperAction::FinalizeFile => "finalize".to_string(),
            ScraperAction::Sleep { secs } => format!("sleep {}", secs),
            ScraperAction::Cancel => "cancel".to_string(),
        })
        .collect()
}

#[test]
fn a_new_supervisor_is_stopped() {
    let s = KiwiSDRScraper::new(settings());
    assert_eq!(s.status(), ScraperStatus::Stopped);
    assert_eq!(s.name(), "w8edu_7850");
    assert_eq!(s.endpoint(), "ws://kiwi.example:8073/");
    assert_eq!(s.password().as_deref(), Some("pw"));
    let stats = s.get_stats();
    assert_eq!(stats.name, "w8edu_7850");
    assert_eq!(stats.smeter, None);
}

#[test]
fn start_and_stop() {
    let mut s = KiwiSDRScraper::new(settings());
    assert!(s.stop().is_empty());
    assert_eq!(lines(&s.start()), ["connect", "events"]);
    assert_eq!(s.status(), ScraperStatus::Running);
    assert!(s.start().is_empty());
    assert_eq!(s.status(), ScraperStatus::Running);
    assert_eq!(lines(&s.stop()), ["cancel"]);
    assert_eq!(s.status(), ScraperStatus::Stopped);
    assert!(s.stop().is_empty());
    assert_eq!(lines(&s.start()), ["connect", "events"]);
}

#[test]
fn stop_closes_the_sink() {
    let mut s = running();
    s.handle_event(KiwiEvent::SoundData { data: vec![0], smeter: 1 }, T0);
    assert_eq!(lines(&s.stop()), ["cancel", "finalize"]);
    assert_eq!(lines(&s.start()), ["connect", "events"]);
    let again = s.handle_event(KiwiEvent::SoundData { data: vec![0], smeter: 1 }, T0 + 5);
    assert_eq!(lines(&again)[0], "create w8edu_7850_20150515_000005.wav 12000 Hz");
}

#[test]
fn ready_sends_the_setup_script() {
    let mut s = running();
    let actions = s.handle_event(KiwiEvent::Ready(44100), T0);
    assert_eq!(
        lines(&actions),
        [
            "send SET AR OK in=12000 out=48000",
            "send SERVER DE CLIENT openwebrx.js SND",
            "send SET browser=Mozilla/5.0 (Macintosh; Intel Mac OS X 10_15_7) AppleWebKit/605.1.15 (KHTML, like Gecko) Version/17.0 Safari/605.1.15",
            "send SET squelch=0 param=0.00",
            "send SET mod=usb low_cut=300 high_cut=2700 freq=7850",
            "send SET ident_user=W8EDU",
            "send SET geoloc=Cleveland%2C%20OH",
            "send SET agc=1 hang=0 thresh=-96 slope=6 decay=1370  manGain=70",
            "send SET compression=1",
            "keepalive 5",
        ]
    );
    let sound = s.handle_event(KiwiEvent::SoundData { data: vec![], smeter: 0 }, T0);
    assert_eq!(lines(&sound)[0], "create w8edu_7850_20150515_000000.wav 44100 Hz");
    assert_eq!(s.status(), ScraperStatus::Running);
}

#[test]
fn setup_script_tunes_to_the_station() {
    let msgs = setup_messages(Tuning::AM { bandwidth: 5000, frequency: 7_850_000 });
    assert_eq!(msgs.len(), 9);
    assert_eq!(msgs[4].encode(), "SET mod=am low_cut=-2500 high_cut=2500 freq=7850");
    assert_eq!(msgs[0].encode(), "SET AR OK in=12000 out=48000");
    assert_eq!(msgs[8].encode(), "SET compression=1");
}

#[test]
fn sound_is_written_and_its_reading_kept() {
    let mut s = running();
    let a = s.handle_event(KiwiEvent::SoundData { data: vec![0x77, 0x77], smeter: 1250 }, T0);
    assert_eq!(
        lines(&a),
        ["create w8edu_7850_20150515_000000.wav 12000 Hz", "write [11, 41, 104, 240]"]
    );
    assert_eq!(s.get_stats().smeter, Some(1250));
    let a = s.handle_event(KiwiEvent::SoundData { data: vec![0x77], smeter: 900 }, T0 + 1800);
    assert_eq!(lines(&a), ["write [533, 1164]"]);
    assert_eq!(s.get_stats().smeter, Some(900));
    let a = s.handle_event(KiwiEvent::SoundData { data: vec![0x00], smeter: 901 }, T0 + 1801);
    assert_eq!(lines(&a), ["write [1254, 1336]", "finalize"]);
    let a = s.handle_event(KiwiEvent::SoundData { data: vec![0x77], smeter: 902 }, T0 + 1802);
    assert_eq!(lines(&a), ["create w8edu_7850_20150515_003002.wav 12000 Hz", "write [11, 41]"]);
    assert_eq!(s.get_stats().smeter, Some(902));
}

#[test]
fn sound_at_a_time_without_a_date_is_left_out() {
    let mut s = running();
    let a = s.handle_event(KiwiEvent::SoundData { data: vec![1], smeter: 7 }, i64::MAX);
    assert!(a.is_empty());
    assert_eq!(s.get_stats().smeter, Some(7));
    assert_eq!(s.status(), ScraperStatus::Running);
}

#[test]
fn reconnection() {
    let mut s = running();
    s.handle_event(KiwiEvent::SoundData { data: vec![1], smeter: 7 }, T0);
    let a = s.handle_event(KiwiEvent::Close(KiwiCloseReason::ServerClosed), T0 + 1);
    assert_eq!(lines(&a), ["finalize", "sleep 4", "connect"]);
    assert_eq!(s.status(), ScraperStatus::Running);
    // the session cannot be connected again, time after time
    for _ in 0..5 {
        assert_eq!(lines(&s.connect_failed()), ["sleep 4", "connect"]);
        assert_eq!(s.status(), ScraperStatus::Running);
    }
    // a session that closes again right away is connected again as well
    let a = s.handle_event(KiwiEvent::Close(KiwiCloseReason::ServerClosed), T0 + 30);
    assert_eq!(lines(&a), ["sleep 4", "connect"]);
    let a = s.handle_event(KiwiEvent::SoundData { data: vec![1], smeter: 7 }, T0 + 60);
    assert_eq!(lines(&a)[0], "create w8edu_7850_20150515_000100.wav 12000 Hz");
}

#[test]
fn authentication_failure_is_followed_by_a_new_attempt() {
    let mut session = KiwiSDR::new("ws://kiwi.example:8073/".to_string());
    session.begin_connect();
    session.opened(Some("wrong".to_string()));
    let mut s = running();
    s.handle_event(KiwiEvent::SoundData { data: vec![1], smeter: 7 }, T0);
    let out = session.on_frame(Frame::Binary(b"MSG badp=1".to_vec()));
    assert!(out.cancel);
    let event = out.event.expect("no event");
    assert!(matches!(event, KiwiEvent::Close(KiwiCloseReason::AuthenticationFailed)));
    let a = s.handle_event(event, T0 + 2);
    assert_eq!(lines(&a), ["finalize", "sleep 4", "connect"]);
    assert_eq!(s.status(), ScraperStatus::Running);
}

#[test]
fn other_events_ask_for_nothing() {
    let mut s = running();
    assert!(s.handle_event(KiwiEvent::Ping, T0).is_empty());
    assert!(s.handle_event(KiwiEvent::Message("rx_chans=4".to_string()), T0).is_empty());
    assert_eq!(s.status(), ScraperStatus::Running);
    assert_eq!(s.get_stats().smeter, None);
}

#[test]
fn a_stopped_supervisor_does_nothing() {
    let mut s = KiwiSDRScraper::new(settings());
    assert!(s.handle_event(KiwiEvent::Ready(8000), T0).is_empty());
    assert!(s.handle_event(KiwiEvent::Close(KiwiCloseReason::ServerClosed), T0).is_empty());
    assert!(s.handle_event(KiwiEvent::SoundData { data: vec![1], smeter: 7 }, T0).is_empty());
    assert_eq!(s.get_stats().smeter, None);
    assert_eq!(s.status(), ScraperStatus::Stopped);
    s.start();
    let a = s.handle_event(KiwiEvent::SoundData { data: vec![], smeter: 7 }, T0);
    assert_eq!(lines(&a)[0], "create w8edu_7850_20150515_000000.wav 12000 Hz");
}

#[test]
fn a_failed_write_gives_the_file_up() {
    let mut s = running();
    s.handle_event(KiwiEvent::SoundData { data: vec![0x77], smeter: 7 }, T0);
    s.write_failed();
    let a = s.handle_event(KiwiEvent::SoundData { data: vec![0x77], smeter: 8 }, T0 + 3);
    assert_eq!(lines(&a), ["create w8edu_7850_20150515_000003.wav 12000 Hz", "write [11, 41]"]);
    assert_eq!(s.status(), ScraperStatus::Running);
    s.write_failed();
    s.write_failed();
    assert_eq!(lines(&s.stop()), ["cancel"]);
}

#[test]
fn long_notifications_are_cut_for_the_log() {
    assert_eq!(log_excerpt(""), "");
    assert_eq!(log_excerpt("rx_chans=4"), "rx_chans=4");
    let exactly = "a".repeat(100);
    assert_eq!(log_excerpt(&exactly), exactly);
    let longer = "b".repeat(101);
    assert_eq!(log_excerpt(&longer), format!("{}...", "b".repeat(100)));
    assert_eq!(log_excerpt(&longer), format!("{:.100}...", longer));
    // 60 characters in 120 bytes: more than 100 bytes, fewer than 100 characters
    let wide = "\u{e9}".repeat(60);
    assert_eq!(log_excerpt(&wide), format!("{}...", wide));
    let wide_and_long = "\u{e9}".repeat(150);
    assert_eq!(log_excerpt(&wide_and_long), format!("{}...", "\u{e9}".repeat(100)));
}

#[test]
fn the_cell_holds_what_was_stored() {
    let cell = AtomicF64::new((-2.0f64).to_bits());
    assert_eq!(f64::from_bits(cell.load(Ordering::Relaxed)), -2.0);
    cell.store(0.1f64.to_bits(), Ordering::Relaxed);
    assert_eq!(cell.load(Ordering::SeqCst), 0.1f64.to_bits());
    cell.store(u64::MAX, Ordering::Release);
    assert_eq!(cell.load(Ordering::Acquire), u64::MAX);
    assert!(f64::from_bits(cell.load(Ordering::Relaxed)).is_nan());
}

#[test]
fn failed_attempts_are_retried_while_running() {
    let mut s = KiwiSDRScraper::new(settings());
    assert!(s.connect_failed().is_empty());
    s.start();
    // the first attempt fails as well
    assert_eq!(lines(&s.connect_failed()), ["sleep 4", "connect"]);
    s.handle_event(KiwiEvent::SoundData { data: vec![0x77], smeter: 7 }, T0);
    // a failed attempt leaves the sink and the reading as they are
    assert_eq!(lines(&s.connect_failed()), ["sleep 4", "connect"]);
    assert_eq!(s.get_stats().smeter, Some(7));
    let a = s.handle_event(KiwiEvent::SoundData { data: vec![0x77], smeter: 8 }, T0 + 1);
    assert_eq!(lines(&a), ["write [104, 240]"]);
    s.stop();
    assert!(s.connect_failed().is_empty());
    assert_eq!(s.status(), ScraperStatus::Stopped);
}
