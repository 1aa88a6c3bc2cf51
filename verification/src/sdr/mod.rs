//! Receivers: what a station is tuned to, and the KiwiSDR client.

use crate::text::{decimal, push_decimal};
use vstd::prelude::*;
use vstd::string::*;

pub mod kiwi;
pub mod scraper;

pub use scraper::ScraperStatus;

verus! {

#[derive(Debug, Clone, Copy, PartialEq, Eq, Structural)]
pub enum SDRError {
    NotConnected,
    NotReady,
    Timeout,
}

/// What a receiver is tuned to: the demodulation mode, the passband and the
/// carrier frequency. Frequencies are whole hertz, passband edges are hertz
/// relative to the carrier.
#[derive(Debug, Clone, Copy, PartialEq, Eq, Structural)]
pub enum Tuning {
    AM { bandwidth: i32, frequency: u64 },
    FM { low_cut: i32, high_cut: i32, frequency: u64 },
    LSB { low_cut: i32, high_cut: i32, frequency: u64 },
    USB { low_cut: i32, high_cut: i32, frequency: u64 },
}

/// Half of `x`, rounded towards zero.
pub open spec fn half(x: int) -> int {
    if x >= 0 {
        x / 2
    } else {
        -((-x) / 2)
    }
}

/// Half of `x`, rounded towards zero.
pub fn half_of(x: i32) -> (h: i32)
    ensures
        h as int == half(x as int),
{
    if x >= 0 {
        x / 2
    } else if x == i32::MIN {
        -1073741824
    } else {
        -((-x) / 2)
    }
}

impl Tuning {
    /// The carrier frequency in hertz.
    pub open spec fn spec_frequency(self) -> nat {
        match self {
            Tuning::AM { frequency, .. } => frequency as nat,
            Tuning::FM { frequency, .. } => frequency as nat,
            Tuning::LSB { frequency, .. } => frequency as nat,
            Tuning::USB { frequency, .. } => frequency as nat,
        }
    }

    /// The lower passband edge in hertz: for AM, minus half the bandwidth.
    pub open spec fn spec_low_cut(self) -> int {
        match self {
            Tuning::AM { bandwidth, .. } => -half(bandwidth as int),
            Tuning::FM { low_cut, .. } => low_cut as int,
            Tuning::LSB { low_cut, .. } => low_cut as int,
            Tuning::USB { low_cut, .. } => low_cut as int,
        }
    }

    /// The upper passband edge in hertz: for AM, half the bandwidth.
    pub open spec fn spec_high_cut(self) -> int {
        match self {
            Tuning::AM { bandwidth, .. } => half(bandwidth as int),
            Tuning::FM { high_cut, .. } => high_cut as int,
            Tuning::LSB { high_cut, .. } => high_cut as int,
            Tuning::USB { high_cut, .. } => high_cut as int,
        }
    }

    /// The mode as the receiver names it.
    pub open spec fn mode_text(self) -> Seq<char> {
        match self {
            Tuning::AM { .. } => "am"@,
            Tuning::FM { .. } => "fm"@,
            Tuning::LSB { .. } => "lsb"@,
            Tuning::USB { .. } => "usb"@,
        }
    }

    /// A tuning that a receiver can take: a positive frequency, and a
    /// passband that is not empty.
    pub open spec fn valid(self) -> bool {
        &&& self.spec_frequency() > 0
        &&& match self {
            Tuning::AM { bandwidth, .. } => bandwidth > 0,
            Tuning::FM { low_cut, high_cut, .. } => low_cut < high_cut,
            Tuning::LSB { low_cut, high_cut, .. } => low_cut < high_cut,
            Tuning::USB { low_cut, high_cut, .. } => low_cut < high_cut,
        }
    }

    /// Whether this tuning is valid.
    pub fn is_valid(&self) -> (ok: bool)
        ensures
            ok == self.valid(),
    {
        match *self {
            Tuning::AM { bandwidth, frequency } => frequency > 0 && bandwidth > 0,
            Tuning::FM { low_cut, high_cut, frequency } => frequency > 0 && low_cut < high_cut,
            Tuning::LSB { low_cut, high_cut, frequency } => frequency > 0 && low_cut < high_cut,
            Tuning::USB { low_cut, high_cut, frequency } => frequency > 0 && low_cut < high_cut,
        }
    }

    /// The carrier frequency in hertz.
    pub fn frequency(&self) -> (hz: u64)
        ensures
            hz as nat == self.spec_frequency(),
    {
        match *self {
            Tuning::AM { frequency, .. } => frequency,
            Tuning::FM { frequency, .. } => frequency,
            Tuning::LSB { frequency, .. } => frequency,
            Tuning::USB { frequency, .. } => frequency,
        }
    }

    /// The lower passband edge in hertz.
    pub fn low_cut(&self) -> (hz: i32)
        ensures
            hz as int == self.spec_low_cut(),
    {
        match *self {
            Tuning::AM { bandwidth, .. } => -half_of(bandwidth),
            Tuning::FM { low_cut, .. } => low_cut,
            Tuning::LSB { low_cut, .. } => low_cut,
            Tuning::USB { low_cut, .. } => low_cut,
        }
    }

    /// The upper passband edge in hertz.
    pub fn high_cut(&self) -> (hz: i32)
        ensures
            hz as int == self.spec_high_cut(),
    {
        match *self {
            Tuning::AM { bandwidth, .. } => half_of(bandwidth),
            Tuning::FM { high_cut, .. } => high_cut,
            Tuning::LSB { high_cut, .. } => high_cut,
            Tuning::USB { high_cut, .. } => high_cut,
        }
    }

    /// The tuning in words, as it is shown to a person.
    pub open spec fn description(self) -> Seq<char> {
        match self {
            Tuning::AM { bandwidth, frequency } => "AM: "@ + decimal(frequency as int) + " Hz, "@
                + decimal(bandwidth as int) + " Hz bandwidth"@,
            Tuning::FM { low_cut, high_cut, frequency } => "FM: "@ + decimal(frequency as int)
                + " Hz, -"@ + decimal(low_cut as int) + "->"@ + decimal(high_cut as int) + " Hz"@,
            Tuning::LSB { low_cut, high_cut, frequency } => "LSB: "@ + decimal(frequency as int)
                + " Hz, -"@ + decimal(low_cut as int) + "->"@ + decimal(high_cut as int) + " Hz"@,
            Tuning::USB { low_cut, high_cut, frequency } => "USB: "@ + decimal(frequency as int)
                + " Hz, -"@ + decimal(low_cut as int) + "->"@ + decimal(high_cut as int) + " Hz"@,
        }
    }

    /// The tuning in words, as it is shown to a person.
    pub fn describe(&self) -> (text: String)
        ensures
            text@ == self.description(),
    {
        match *self {
            Tuning::AM { bandwidth, frequency } => {
                let mut out = String::from_str("AM: ");
                push_decimal(&mut out, frequency as i128);
                out.append(" Hz, ");
                push_decimal(&mut out, bandwidth as i128);
                out.append(" Hz bandwidth");
                assert(out@ =~= self.description());
                out
            },
            Tuning::FM { low_cut, high_cut, frequency } => {
                let out = describe_cuts("FM: ", low_cut, high_cut, frequency);
                assert(out@ =~= self.description());
                out
            },
            Tuning::LSB { low_cut, high_cut, frequency } => {
                let out = describe_cuts("LSB: ", low_cut, high_cut, frequency);
                assert(out@ =~= self.description());
                out
            },
            Tuning::USB { low_cut, high_cut, frequency } => {
                let out = describe_cuts("USB: ", low_cut, high_cut, frequency);
                assert(out@ =~= self.description());
                out
            },
        }
    }
}

fn describe_cuts(mode: &str, low_cut: i32, high_cut: i32, frequency: u64) -> (text: String)
    ensures
        text@ == mode@ + decimal(frequency as int) + " Hz, -"@ + decimal(low_cut as int) + "->"@
            + decimal(high_cut as int) + " Hz"@,
{
    let mut out = String::from_str(mode);
    push_decimal(&mut out, frequency as i128);
    out.append(" Hz, -");
    push_decimal(&mut out, low_cut as i128);
    out.append("->");
    push_decimal(&mut out, high_cut as i128);
    out.append(" Hz");
    out
}

} // verus!
