//! The fleet as it is configured: stations and their frequencies, and the
//! supervisors' settings that follow from them.

use crate::sdr::kiwi::scraper::{settings_views, KiwiSDRScraperSettings, SettingsView};
use crate::sdr::kiwi::{parse_url, url_parsed};
use crate::sdr::Tuning;
use crate::text::{decimal_digits, push_decimal_digits};
use vstd::prelude::*;
use vstd::string::*;

verus! {

#[derive(Debug, Clone, Copy, PartialEq, Eq, Structural)]
pub enum SDRKind {
    KiwiSDR,
}

/// One receiver: its name, its address as host and port, its password, and
/// the frequencies to record, in hertz.
#[derive(Debug)]
pub struct SDRStationConfig {
    pub name: String,
    pub endpoint: String,
    pub password: Option<String>,
    pub agc: bool,
    pub gain: Option<i32>,
    pub frequency: Vec<u64>,
}

#[derive(Debug)]
pub struct Config {
    pub location: String,
    pub identity: String,
    pub stations: Vec<SDRStationConfig>,
}

/// Lower passband edge of every recording, in hertz.
pub const RECORD_LOW_CUT: i32 = 300;

/// Upper passband edge of every recording, in hertz.
pub const RECORD_HIGH_CUT: i32 = 2700;

/// A frequency in whole kilohertz: the nearest, and of two that are equally
/// near the even one.
pub open spec fn rounded_khz(hz: nat) -> nat {
    if hz % 1000 > 500 || (hz % 1000 == 500 && (hz / 1000) % 2 == 1) {
        hz / 1000 + 1
    } else {
        hz / 1000
    }
}

/// The name of the supervisor of one frequency of a station: the station's
/// name, an underscore, and the frequency in whole kilohertz.
pub open spec fn scraper_name_of(station: Seq<char>, hz: nat) -> Seq<char> {
    station + "_"@ + decimal_digits(rounded_khz(hz))
}

/// The name of the supervisor of one frequency of a station.
pub fn scraper_name(station: &str, hz: u64) -> (name: String)
    ensures
        name@ == scraper_name_of(station@, hz as nat),
{
    let whole = hz / 1000;
    let rest = hz % 1000;
    let khz = if rest > 500 || (rest == 500 && whole % 2 == 1) {
        whole + 1
    } else {
        whole
    };
    let mut out = String::from_str(station);
    out.append("_");
    push_decimal_digits(&mut out, khz as u128);
    out
}

/// The settings of the supervisor of the frequency `hz` of `station`, whose
/// address as a URL is `url`: upper sideband between 300 and 2700 hertz.
pub open spec fn settings_of(station: SDRStationConfig, url: Seq<char>, hz: u64) -> SettingsView {
    SettingsView {
        name: scraper_name_of(station.name@, hz as nat),
        endpoint: url,
        password: match station.password {
            Some(p) => Some(p@),
            None => None,
        },
        station: Tuning::USB { low_cut: 300, high_cut: 2700, frequency: hz },
        agc: station.agc,
    }
}

/// The supervisors of one station: one for each of its frequencies, in order.
pub open spec fn station_fleet(station: SDRStationConfig, url: Seq<char>) -> Seq<SettingsView> {
    Seq::new(station.frequency@.len(), |i: int| settings_of(station, url, station.frequency@[i]))
}

/// The address of a station as a WebSocket URL, where it is one.
pub open spec fn station_url(station: SDRStationConfig) -> Option<Seq<char>> {
    url_parsed("ws://"@ + station.endpoint@)
}

/// The supervisors of a list of stations: those of each station, in the
/// order of the stations. There are none at all where the address of one of
/// the stations is no URL.
pub open spec fn fleet_of(stations: Seq<SDRStationConfig>) -> Option<Seq<SettingsView>>
    decreases stations.len(),
{
    if stations.len() == 0 {
        Some(Seq::empty())
    } else {
        match (fleet_of(stations.drop_last()), station_url(stations.last())) {
            (Some(before), Some(url)) => Some(before + station_fleet(stations.last(), url)),
            _ => None,
        }
    }
}

fn clone_password(password: &Option<String>) -> (copy: Option<String>)
    ensures
        copy is Some <==> *password is Some,
        copy matches Some(c) ==> c@ == password->0@,
{
    match password {
        Some(p) => Some(p.clone()),
        None => None,
    }
}

/// The settings of the supervisors of one station, whose address as a URL
/// is `url`: one for each of its frequencies, in order.
pub fn station_settings(station: &SDRStationConfig, url: &str) -> (fleet: Vec<
    KiwiSDRScraperSettings,
>)
    ensures
        settings_views(fleet@) == station_fleet(*station, url@),
{
    let mut fleet: Vec<KiwiSDRScraperSettings> = Vec::new();
    let mut f: usize = 0;
    assert(settings_views(fleet@) =~= station_fleet(*station, url@).take(0));
    while f < station.frequency.len()
        invariant
            f <= station.frequency.len(),
            settings_views(fleet@) == station_fleet(*station, url@).take(f as int),
        decreases station.frequency.len() - f,
    {
        let hz = station.frequency[f];
        let ghost before = fleet@;
        let settings = KiwiSDRScraperSettings {
            name: scraper_name(station.name.as_str(), hz),
            endpoint: String::from_str(url),
            password: clone_password(&station.password),
            station: Tuning::USB {
                low_cut: RECORD_LOW_CUT,
                high_cut: RECORD_HIGH_CUT,
                frequency: hz,
            },
            agc: station.agc,
        };
        assert(settings@ == settings_of(*station, url@, hz));
        fleet.push(settings);
        proof {
            let all = station_fleet(*station, url@);
            assert(all.take(f + 1) =~= all.take(f as int).push(all[f as int]));
            assert(settings_views(fleet@) =~= settings_views(before).push(settings@));
        }
        f += 1;
    }
    proof {
        let all = station_fleet(*station, url@);
        assert(all.take(f as int) =~= all);
    }
    fleet
}

/// The settings of the supervisors that a configuration asks for, or
/// nothing where the address of one of its stations is no URL.
pub fn fleet_settings(config: &Config) -> (fleet: Option<Vec<KiwiSDRScraperSettings>>)
    ensures
        match fleet_of(config.stations@) {
            Some(expected) => fleet matches Some(f) && settings_views(f@) == expected,
            None => fleet is None,
        },
{
    let mut fleet: Vec<KiwiSDRScraperSettings> = Vec::new();
    let mut s: usize = 0;
    assert(config.stations@.take(0) =~= Seq::<SDRStationConfig>::empty());
    assert(settings_views(fleet@) =~= Seq::<SettingsView>::empty());
    while s < config.stations.len()
        invariant
            s <= config.stations.len(),
            fleet_of(config.stations@.take(s as int)) == Some(settings_views(fleet@)),
        decreases config.stations.len() - s,
    {
        let station = &config.stations[s];
        let ghost upto = config.stations@.take(s + 1);
        proof {
            assert(upto.drop_last() =~= config.stations@.take(s as int));
            assert(upto.last() == *station);
        }
        let mut address = String::from_str("ws://");
        address.append(station.endpoint.as_str());
        let url = match parse_url(address.as_str()) {
            Some(url) => url,
            None => {
                proof {
                    lemma_fleet_needs_every_url(config.stations@, s + 1);
                }
                return None;
            },
        };
        let ghost before = fleet@;
        let mut added = station_settings(station, url.as_str());
        let ghost new = added@;
        fleet.append(&mut added);
        assert(settings_views(fleet@) =~= settings_views(before) + settings_views(new));
        s += 1;
    }
    assert(config.stations@.take(s as int) =~= config.stations@);
    Some(fleet)
}

/// A list of stations has no fleet once one of its prefixes has none.
pub proof fn lemma_fleet_needs_every_url(stations: Seq<SDRStationConfig>, upto: int)
    requires
        0 <= upto <= stations.len(),
        fleet_of(stations.take(upto)) is None,
    ensures
        fleet_of(stations) is None,
    decreases stations.len() - upto,
{
    if upto == stations.len() {
        assert(stations.take(upto) =~= stations);
    } else {
        let next = stations.take(upto + 1);
        assert(next.drop_last() =~= stations.take(upto));
        lemma_fleet_needs_every_url(stations, upto + 1);
    }
}

} // verus!
