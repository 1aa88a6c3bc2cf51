use sdr_scraper::config::{
    fleet_settings, scraper_name, station_settings, Config, SDRKind, SDRStationConfig,
};
use sdr_scraper::sdr::{SDRError, Tuning};

fn station(name: &str, endpoint: &str, frequency: Vec<u64>) -> SDRStationConfig {
    SDRStationConfig {
        name: name.to_string(),
        endpoint: endpoint.to_string(),
        password: None,
        agc: false,
        gain: None,
        frequency,
    }
}

#[test]
fn names_carry_the_frequency_in_kilohertz() {
    assert_eq!(scraper_name("w8edu", 7_850_000), "w8edu_7850");
    assert_eq!(scraper_name("w8edu", 7_850_499), "w8edu_7850");
    assert_eq!(scraper_name("w8edu", 7_850_500), "w8edu_7850");
    assert_eq!(scraper_name("w8edu", 7_850_501), "w8edu_7851");
    assert_eq!(scraper_name("w8edu", 7_851_500), "w8edu_7852");
    assert_eq!(scraper_name("w8edu", 0), "w8edu_0");
    assert_eq!(scraper_name("w8edu", 500), "w8edu_0");
    assert_eq!(scraper_name("w8edu", 1500), "w8edu_2");
    assert_eq!(scraper_name("", 999), "_1");
    assert_eq!(scraper_name("x", u64::MAX), "x_18446744073709552");
}

#[test]
fn names_round_like_the_formatter() {
    let mut x: u64 = 7;
    for _ in 0..5000 {
        x = x.wrapping_mul(6364136223846793005).wrapping_add(1442695040888963407);
        let hz = (x >> 20) % 40_000_000_000;
        assert_eq!(scraper_name("s", hz), format!("s_{:.0}", hz as f64 / 1000.0), "{} Hz", hz);
    }
    for hz in 0..4000u64 {
        assert_eq!(scraper_name("s", hz), format!("s_{:.0}", hz as f64 / 1000.0), "{} Hz", hz);
    }
}

#[test]
fn one_supervisor_for_each_frequency() {
    let mut first = station("alpha", "kiwi.example:8073", vec![7_850_000, 14_074_000]);
    first.password = Some("pw".to_string());
    first.agc = true;
    let config = Config {
        location: "Cleveland, OH".to_string(),
        identity: "W8EDU".to_string(),
        stations: vec![
            first,
            station("empty", "other.example:1", vec![]),
            station("beta", "KIWI2.example:80", vec![3_573_500]),
        ],
    };
    let fleet = fleet_settings(&config).expect("no fleet");
    assert_eq!(fleet.len(), 3);
    assert_eq!(fleet[0].name, "alpha_7850");
    assert_eq!(fleet[0].endpoint, "ws://kiwi.example:8073/");
    assert_eq!(fleet[0].password.as_deref(), Some("pw"));
    assert!(fleet[0].agc);
    assert_eq!(
        fleet[0].station,
        Tuning::USB { low_cut: 300, high_cut: 2700, frequency: 7_850_000 }
    );
    assert_eq!(fleet[1].name, "alpha_14074");
    assert_eq!(fleet[1].endpoint, "ws://kiwi.example:8073/");
    assert_eq!(
        fleet[1].station,
        Tuning::USB { low_cut: 300, high_cut: 2700, frequency: 14_074_000 }
    );
    assert_eq!(fleet[2].name, "beta_3574");
    assert_eq!(fleet[2].endpoint, "ws://kiwi2.example/");
    assert_eq!(fleet[2].password, None);
    assert!(!fleet[2].agc);
}

#[test]
fn an_empty_configuration_has_an_empty_fleet() {
    let config = Config { location: String::new(), identity: String::new(), stations: vec![] };
    assert!(fleet_settings(&config).expect("no fleet").is_empty());
}

#[test]
fn a_bad_address_leaves_no_fleet() {
    let config = Config {
        location: String::new(),
        identity: String::new(),
        stations: vec![
            station("good", "kiwi.example:8073", vec![1000]),
            station("bad", "kiwi.example:port", vec![1000]),
        ],
    };
    assert!(fleet_settings(&config).is_none());
    let config = Config {
        location: String::new(),
        identity: String::new(),
        stations: vec![station("bad", "", vec![])],
    };
    assert!(fleet_settings(&config).is_none());
}

#[test]
fn plain_enums() {
    assert_eq!(SDRKind::KiwiSDR, SDRKind::KiwiSDR);
    assert_ne!(SDRError::NotConnected, SDRError::Timeout);
    assert_ne!(SDRError::NotReady, SDRError::Timeout);
}

#[test]
fn the_settings_of_one_station() {
    let mut alpha = station("alpha", "ignored", vec![7_850_000, 7_850_501, 1]);
    alpha.password = Some("pw".to_string());
    alpha.agc = true;
    let fleet = station_settings(&alpha, "ws://kiwi.example:8073/");
    assert_eq!(fleet.len(), 3);
    let names: Vec<&str> = fleet.iter().map(|s| s.name.as_str()).collect();
    assert_eq!(names, ["alpha_7850", "alpha_7851", "alpha_0"]);
    for (settings, hz) in fleet.iter().zip([7_850_000u64, 7_850_501, 1]) {
        assert_eq!(settings.endpoint, "ws://kiwi.example:8073/");
        assert_eq!(settings.password.as_deref(), Some("pw"));
        assert!(settings.agc);
        assert_eq!(settings.station, Tuning::USB { low_cut: 300, high_cut: 2700, frequency: hz });
    }
    assert!(station_settings(&station("none", "x", vec![]), "ws://h/").is_empty());
}
