//! Audio path: ADPCM decoding and the rotating WAV sink.

use crate::audio::ima_adpcm::{
    codes_of, initial_state, samples_of, state_after, DecoderState, IMA_ADPCM_Decoder,
};
use chrono::DateTime;
use vstd::prelude::*;
use vstd::string::*;

pub mod ima_adpcm;

verus! {

/// Seconds that a file may have been open when a write returns. A file open
/// for longer is closed, and the next write opens a new one.
pub const ROTATE_AFTER_SECS: i64 = 1800;

/// The sample rate of a sink that was not told another.
pub const DEFAULT_SAMPLE_RATE: u32 = 12000;

/// The header of a WAV file: signed integer PCM with these parameters.
#[derive(Debug, Clone, Copy, PartialEq, Eq, Structural)]
pub struct WavFormat {
    pub channels: u16,
    pub sample_rate: u32,
    pub bits_per_sample: u16,
}

/// The header of the files that a sink writes: one channel of 16 bits.
pub open spec fn format_of(sample_rate: u32) -> WavFormat {
    WavFormat { channels: 1, sample_rate, bits_per_sample: 16 }
}

/// Why a write could not be done.
#[derive(Debug, Clone, Copy, PartialEq, Eq, Structural)]
pub enum WavError {
    /// The time of the write has no calendar date, so the file has no name.
    NoTimestamp,
}

/// How the time is written in the name of a file: year, month, day, an
/// underscore, hour, minute and second, in digits.
pub open spec fn stamp_layout() -> Seq<char> {
    "%Y%m%d_%H%M%S"@
}

/// The calendar date and time of day, in UTC, of a number of seconds since
/// the start of 1970, written in the given layout, where the calendar
/// reaches that far.
pub uninterp spec fn utc_stamp_text(secs: int, layout: Seq<char>) -> Option<Seq<char>>;

/// `chrono::DateTime::from_timestamp` and `chrono::DateTime::format` with
/// the layout, collected through `Display`. The layout is the one of the
/// file names: chrono fails on a layout that it cannot read. Trusted: the
/// result is a function of the seconds and the layout alone, and is given a
/// name.
#[verifier::external_body]
fn utc_stamp(secs: i64, layout: &str) -> (stamp: Option<String>)
    requires
        layout@ == stamp_layout(),
    ensures
        (match stamp {
            Some(s) => Some(s@),
            None => None,
        }) == utc_stamp_text(secs as int, layout@),
{
    match DateTime::from_timestamp(secs, 0) {
        Some(t) => Some(t.format(layout).to_string()),
        None => None,
    }
}

/// The name of the file that a sink named `name` opens at the time `stamp`.
pub open spec fn file_name_of(name: Seq<char>, stamp: Seq<char>) -> Seq<char> {
    name + "_"@ + stamp + ".wav"@
}

/// The name of the file that a sink named `name` opens at the time `stamp`.
pub fn file_name(name: &str, stamp: &str) -> (file: String)
    ensures
        file@ == file_name_of(name@, stamp@),
{
    let mut out = String::from_str(name);
    out.append("_");
    out.append(stamp);
    out.append(".wav");
    out
}

/// A file to create: its name within the sink's directory, and its header.
#[derive(Debug)]
pub struct NewFile {
    pub file_name: String,
    pub format: WavFormat,
}

/// A file to create, as plain values.
pub struct NewFileView {
    pub file_name: Seq<char>,
    pub format: WavFormat,
}

impl View for NewFile {
    type V = NewFileView;

    open spec fn view(&self) -> NewFileView {
        NewFileView { file_name: self.file_name@, format: self.format }
    }
}

/// What one write asks of whoever holds the file, in this order: create a
/// file, if `open` names one; append `samples` and flush; finalize the file,
/// if `close` is set.
#[derive(Debug)]
pub struct WriteStep {
    pub open: Option<NewFile>,
    pub samples: Vec<i16>,
    pub close: bool,
}

/// The demands of one write, as plain values.
pub struct WriteStepView {
    pub open: Option<NewFileView>,
    pub samples: Seq<i16>,
    pub close: bool,
}

impl View for WriteStep {
    type V = WriteStepView;

    open spec fn view(&self) -> WriteStepView {
        WriteStepView {
            open: match self.open {
                Some(file) => Some(file@),
                None => None,
            },
            samples: self.samples@,
            close: self.close,
        }
    }
}

/// A sink as plain values: `open_since` is the time at which the current
/// file was opened, if one is open.
pub struct WriterView {
    pub name: Seq<char>,
    pub dir: Seq<char>,
    pub sample_rate: u32,
    pub open_since: Option<int>,
    pub decoder: DecoderState,
}

/// The time at which the file that a write at `now` goes to was opened.
pub open spec fn written_since(open_since: Option<int>, now: int) -> int {
    match open_since {
        Some(since) => since,
        None => now,
    }
}

/// Whether a write at `now` leaves its file open for too long: rotation.
pub open spec fn rotates(open_since: Option<int>, now: int) -> bool {
    now - written_since(open_since, now) > 1800
}

/// Whether a file is open after a write at `now`, and since when.
pub open spec fn open_after_write(open_since: Option<int>, now: int) -> Option<int> {
    if rotates(open_since, now) {
        None
    } else {
        Some(written_since(open_since, now))
    }
}

/// What a write of `bytes` at the time `now` does to a sink, and what it
/// asks for. Where no file is open, a file is opened first, named after the
/// sink and the time, with the sink's sample rate, and decoded from the
/// initial state. Where the file has then been open for more than 1800
/// seconds, it is closed. There is no such write where a file has to be
/// opened and the time has no calendar date.
pub open spec fn write_of(w: WriterView, bytes: Seq<u8>, now: int) -> Option<
    (WriterView, WriteStepView),
> {
    if w.open_since is None && utc_stamp_text(now, stamp_layout()) is None {
        None
    } else {
        let start = if w.open_since is None {
            initial_state()
        } else {
            w.decoder
        };
        Some(
            (
                WriterView {
                    open_since: open_after_write(w.open_since, now),
                    decoder: state_after(start, codes_of(bytes)),
                    ..w
                },
                WriteStepView {
                    open: if w.open_since is None {
                        Some(
                            NewFileView {
                                file_name: file_name_of(
                                    w.name,
                                    utc_stamp_text(now, stamp_layout())->0,
                                ),
                                format: format_of(w.sample_rate),
                            },
                        )
                    } else {
                        None
                    },
                    samples: samples_of(start, codes_of(bytes)),
                    close: rotates(w.open_since, now),
                },
            ),
        )
    }
}

/// How many files a sink opens for writes at the given times.
pub open spec fn files_opened(open_since: Option<int>, times: Seq<int>) -> nat
    decreases times.len(),
{
    if times.len() == 0 {
        0
    } else {
        let opened: nat = if open_since is None {
            1
        } else {
            0
        };
        opened + files_opened(open_after_write(open_since, times[0]), times.drop_first())
    }
}

/// The sink for one station's audio: it decodes what it is given and says
/// which file the samples go to. Each file has a decoder of its own.
pub struct Writer {
    name: String,
    dir: String,
    open_since: Option<i64>,
    decoder: IMA_ADPCM_Decoder,
    sample_rate: u32,
}

impl View for Writer {
    type V = WriterView;

    closed spec fn view(&self) -> WriterView {
        WriterView {
            name: self.name@,
            dir: self.dir@,
            sample_rate: self.sample_rate,
            open_since: match self.open_since {
                Some(since) => Some(since as int),
                None => None,
            },
            decoder: self.decoder@,
        }
    }
}

impl Writer {
    /// A sink named `name` that writes into the directory `dir`. No file is
    /// open.
    pub fn new(name: String, dir: String) -> (w: Self)
        ensures
            w@ == (WriterView {
                name: name@,
                dir: dir@,
                sample_rate: DEFAULT_SAMPLE_RATE,
                open_since: None,
                decoder: initial_state(),
            }),
    {
        Writer {
            name,
            dir,
            open_since: None,
            sample_rate: DEFAULT_SAMPLE_RATE,
            decoder: IMA_ADPCM_Decoder::new(),
        }
    }

    /// Sets the sample rate of the files opened from now on. A file that is
    /// open keeps the rate it was opened with.
    pub fn set_sample_rate(&mut self, sample_rate: u32)
        ensures
            final(self)@ == (WriterView { sample_rate, ..old(self)@ }),
    {
        self.sample_rate = sample_rate;
    }

    /// The sink's name.
    pub fn name(&self) -> (name: &str)
        ensures
            name@ == self@.name,
    {
        self.name.as_str()
    }

    /// The directory that the files go to.
    pub fn dir(&self) -> (dir: &str)
        ensures
            dir@ == self@.dir,
    {
        self.dir.as_str()
    }

    /// The sample rate of the files opened from now on.
    pub fn sample_rate(&self) -> (rate: u32)
        ensures
            rate == self@.sample_rate,
    {
        self.sample_rate
    }

    /// Whether a file is open.
    pub fn is_open(&self) -> (open: bool)
        ensures
            open == self@.open_since is Some,
    {
        self.open_since.is_some()
    }

    /// Decodes `samples`, two samples for each byte, for the current file,
    /// at the time `now`, in seconds since the start of 1970.
    ///
    /// The write fails if and only if a file has to be opened and `now` has
    /// no calendar date. The sink is then unchanged.
    pub fn write_samples(&mut self, samples: &Vec<u8>, now: i64) -> (r: Result<WriteStep, WavError>)
        ensures
            match write_of(old(self)@, samples@, now as int) {
                Some((sink, step)) => r matches Ok(asked) && asked@ == step && final(self)@ == sink,
                None => r == Err::<WriteStep, WavError>(WavError::NoTimestamp) && final(self)@
                    == old(self)@,
            },
    {
        let mut opened: Option<NewFile> = None;
        let since = match self.open_since {
            Some(since) => since,
            None => {
                match utc_stamp(now, "%Y%m%d_%H%M%S") {
                    None => {
                        return Err(WavError::NoTimestamp);
                    },
                    Some(stamp) => {
                        opened = Some(
                            NewFile {
                                file_name: file_name(self.name.as_str(), stamp.as_str()),
                                format: WavFormat {
                                    channels: 1,
                                    sample_rate: self.sample_rate,
                                    bits_per_sample: 16,
                                },
                            },
                        );
                        self.decoder = IMA_ADPCM_Decoder::new();
                        now
                    },
                }
            },
        };
        let pcm = self.decoder.decode_bytes(samples.as_slice());
        let close = (now as i128) - (since as i128) > ROTATE_AFTER_SECS as i128;
        self.open_since = if close {
            None
        } else {
            Some(since)
        };
        Ok(WriteStep { open: opened, samples: pcm, close })
    }

    /// Closes the current file, if one is open. Returns whether there is a
    /// file to finalize.
    pub fn close(&mut self) -> (finalize: bool)
        ensures
            finalize == old(self)@.open_since is Some,
            final(self)@ == (WriterView { open_since: None, ..old(self)@ }),
    {
        let finalize = self.open_since.is_some();
        self.open_since = None;
        finalize
    }
}

/// Times that never go back.
pub open spec fn nondecreasing(times: Seq<int>) -> bool {
    forall|i: int, j: int| 0 <= i <= j < times.len() ==> times[i] <= times[j]
}

/// Times that all lie between `from` and `to`.
pub open spec fn all_within(times: Seq<int>, from: int, to: int) -> bool {
    forall|i: int| 0 <= i < times.len() ==> from <= #[trigger] times[i] <= to
}

/// No rotation within the limit: an open file takes every write of its
/// first 1800 seconds, and no other file is opened.
pub proof fn lemma_file_stays_open(since: int, times: Seq<int>)
    requires
        all_within(times, since, since + 1800),
    ensures
        files_opened(Some(since), times) == 0,
    decreases times.len(),
{
    if times.len() > 0 {
        let rest = times.drop_first();
        assert(since <= times[0] <= since + 1800);
        assert forall|i: int| 0 <= i < rest.len() implies since <= #[trigger] rest[i] <= since
            + 1800 by {
            assert(rest[i] == times[i + 1]);
        }
        lemma_file_stays_open(since, rest);
    }
}

/// An open file that is written to for more than 1800 seconds is closed by
/// the first write past the limit, and the write after that opens the one
/// other file.
pub proof fn lemma_open_file_rotates_once(since: int, times: Seq<int>, k: int)
    requires
        nondecreasing(times),
        all_within(times, since, since + 1801),
        0 <= k < times.len() - 1,
        times[k] > since + 1800,
    ensures
        files_opened(Some(since), times) == 1,
    decreases times.len(),
{
    let rest = times.drop_first();
    assert(since <= times[0] <= since + 1801);
    assert forall|i: int| 0 <= i < rest.len() implies since <= #[trigger] rest[i] <= since
        + 1801 by {
        assert(rest[i] == times[i + 1]);
    }
    assert forall|i: int, j: int| 0 <= i <= j < rest.len() implies rest[i] <= rest[j] by {
        assert(rest[i] == times[i + 1] && rest[j] == times[j + 1]);
    }
    if times[0] > since + 1800 {
        assert(open_after_write(Some(since), times[0]) is None);
        let later = rest.drop_first();
        assert(rest[0] == times[1]);
        assert(times[0] <= times[1]);
        assert forall|i: int| 0 <= i < later.len() implies rest[0] <= #[trigger] later[i]
            <= rest[0] + 1800 by {
            assert(later[i] == rest[i + 1]);
            assert(rest[0] <= rest[i + 1]);
            assert(since <= rest[i + 1] <= since + 1801);
        }
        lemma_file_stays_open(rest[0], later);
        assert(open_after_write(None, rest[0]) == Some(rest[0]));
        assert(files_opened(None, rest) == 1 + files_opened(Some(rest[0]), later));
        assert(files_opened(Some(since), times) == files_opened(None, rest));
    } else {
        assert(open_after_write(Some(since), times[0]) == Some(since));
        assert(rest[k - 1] == times[k]);
        lemma_open_file_rotates_once(since, rest, k - 1);
        assert(files_opened(Some(since), times) == files_opened(Some(since), rest));
    }
}

/// Rotation: a closed sink that is written to at times that never go back,
/// over 1801 seconds, with a write after the first one past 1800 seconds,
/// opens exactly two files. A file is opened only by a write that finds the
/// sink closed, so the first file was closed before the second was opened.
pub proof fn lemma_rotation_opens_two_files(times: Seq<int>, k: int)
    requires
        nondecreasing(times),
        times.len() >= 2,
        times.last() - times[0] <= 1801,
        0 <= k < times.len() - 1,
        times[k] - times[0] > 1800,
    ensures
        files_opened(None, times) == 2,
{
    let start = times[0];
    let rest = times.drop_first();
    assert(open_after_write(None, start) == Some(start));
    assert forall|i: int| 0 <= i < rest.len() implies start <= #[trigger] rest[i] <= start
        + 1801 by {
        assert(rest[i] == times[i + 1]);
        assert(times[0] <= times[i + 1]);
        assert(times[i + 1] <= times[times.len() - 1]);
    }
    assert forall|i: int, j: int| 0 <= i <= j < rest.len() implies rest[i] <= rest[j] by {
        assert(rest[i] == times[i + 1] && rest[j] == times[j + 1]);
    }
    assert(k >= 1);
    assert(rest[k - 1] == times[k]);
    lemma_open_file_rotates_once(start, rest, k - 1);
}

/// No rotation: a closed sink that is written to for no more than 1800
/// seconds, at times that never go back, opens exactly one file.
pub proof fn lemma_short_feed_opens_one_file(times: Seq<int>)
    requires
        nondecreasing(times),
        times.len() >= 1,
        times.last() - times[0] <= 1800,
    ensures
        files_opened(None, times) == 1,
{
    let start = times[0];
    let rest = times.drop_first();
    assert(open_after_write(None, start) == Some(start));
    assert forall|i: int| 0 <= i < rest.len() implies start <= #[trigger] rest[i] <= start
        + 1800 by {
        assert(rest[i] == times[i + 1]);
        assert(times[0] <= times[i + 1]);
        assert(times[i + 1] <= times[times.len() - 1]);
    }
    lemma_file_stays_open(start, rest);
}

} // verus!
