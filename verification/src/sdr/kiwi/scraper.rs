//! The supervisor of one station: what it does about each event of its
//! session, and what it tells about itself.

use crate::audio::ima_adpcm::initial_state;
use crate::audio::{
    write_of, NewFile, NewFileView, WriteStep, WriteStepView, Writer, WriterView,
    DEFAULT_SAMPLE_RATE,
};
use crate::sdr::kiwi::event::{EventView, KiwiCloseReason, KiwiEvent};
use crate::sdr::kiwi::message::{
    agc_text, ar_ok_text, compression_text, identity_text, location_text, tune_text,
    KiwiClientMessage,
};
use crate::sdr::scraper::ScraperStatus;
use crate::sdr::Tuning;
use vstd::prelude::*;
use vstd::string::*;
use vstd::utf8::encode_utf8;

verus! {

/// Seconds to wait after a session has closed, before connecting again.
pub const RECONNECT_DELAY_SECS: u64 = 4;

/// Seconds between two keepalive lines.
pub const KEEPALIVE_SECS: u64 = 5;

/// Seconds to wait for an event before looking again.
pub const POLL_TIMEOUT_SECS: u64 = 1;

/// What a supervisor is made for: a station, how to reach it, and its tuning.
#[derive(Debug)]
pub struct KiwiSDRScraperSettings {
    pub name: String,
    pub endpoint: String,
    pub password: Option<String>,
    pub station: Tuning,
    pub agc: bool,
}

/// A supervisor's settings as plain values.
pub struct SettingsView {
    pub name: Seq<char>,
    pub endpoint: Seq<char>,
    pub password: Option<Seq<char>>,
    pub station: Tuning,
    pub agc: bool,
}

impl View for KiwiSDRScraperSettings {
    type V = SettingsView;

    open spec fn view(&self) -> SettingsView {
        SettingsView {
            name: self.name@,
            endpoint: self.endpoint@,
            password: match self.password {
                Some(p) => Some(p@),
                None => None,
            },
            station: self.station,
            agc: self.agc,
        }
    }
}

/// The settings of a list of supervisors as plain values.
pub open spec fn settings_views(fleet: Seq<KiwiSDRScraperSettings>) -> Seq<SettingsView> {
    Seq::new(fleet.len(), |i: int| fleet[i]@)
}

/// A station's name and the S-meter reading that came with its latest
/// sound, if any sound has come.
#[derive(Debug)]
pub struct KiwiScraperStats {
    pub name: String,
    pub smeter: Option<u16>,
}

/// One thing that the supervisor asks of whoever runs it. Actions are
/// carried out in the order given.
#[derive(Debug)]
pub enum ScraperAction {
    /// Connect the session, with the station's password.
    Connect,
    /// Read the session's events, one after the other, until cancelled.
    RunEventLoop,
    /// Send a message to the receiver.
    Send(KiwiClientMessage),
    /// Send a keepalive line at this interval, until cancelled.
    StartKeepalive { every_secs: u64 },
    /// Create a WAV file and make it the current one.
    CreateFile(NewFile),
    /// Append samples to the current file, and flush.
    WriteSamples(Vec<i16>),
    /// Finalize the current file.
    FinalizeFile,
    /// Wait.
    Sleep { secs: u64 },
    /// Cancel the supervisor's token, and with it the session.
    Cancel,
}

/// An action as plain values. A message is the line that goes on the wire.
pub enum ActionView {
    Connect,
    RunEventLoop,
    Send(Seq<char>),
    StartKeepalive { every_secs: u64 },
    CreateFile(NewFileView),
    WriteSamples(Seq<i16>),
    FinalizeFile,
    Sleep { secs: u64 },
    Cancel,
}

impl View for ScraperAction {
    type V = ActionView;

    open spec fn view(&self) -> ActionView {
        match *self {
            ScraperAction::Connect => ActionView::Connect,
            ScraperAction::RunEventLoop => ActionView::RunEventLoop,
            ScraperAction::Send(message) => ActionView::Send(message.wire_text()),
            ScraperAction::StartKeepalive { every_secs } => ActionView::StartKeepalive {
                every_secs,
            },
            ScraperAction::CreateFile(file) => ActionView::CreateFile(file@),
            ScraperAction::WriteSamples(samples) => ActionView::WriteSamples(samples@),
            ScraperAction::FinalizeFile => ActionView::FinalizeFile,
            ScraperAction::Sleep { secs } => ActionView::Sleep { secs },
            ScraperAction::Cancel => ActionView::Cancel,
        }
    }
}

/// A list of actions as plain values.
pub open spec fn action_views(actions: Seq<ScraperAction>) -> Seq<ActionView> {
    Seq::new(actions.len(), |i: int| actions[i]@)
}

/// The lines of a list of messages.
pub open spec fn wire_texts(messages: Seq<KiwiClientMessage>) -> Seq<Seq<char>> {
    Seq::new(messages.len(), |i: int| messages[i].wire_text())
}

/// The lines that configure a receiver once it is ready, in the order in
/// which they are sent.
pub open spec fn setup_script(station: Tuning) -> Seq<Seq<char>> {
    seq![
        ar_ok_text(12000, 48000),
        "SERVER DE CLIENT openwebrx.js SND"@,
        "SET browser=Mozilla/5.0 (Macintosh; Intel Mac OS X 10_15_7) AppleWebKit/605.1.15 (KHTML, like Gecko) Version/17.0 Safari/605.1.15"@,
        "SET squelch=0 param=0.00"@,
        tune_text(station),
        identity_text("W8EDU"@),
        location_text("Cleveland, OH"@),
        agc_text(true, false, -96, 6, 1370, 70),
        compression_text(true),
    ]
}

/// The messages that configure a receiver once it is ready.
pub fn setup_messages(station: Tuning) -> (messages: Vec<KiwiClientMessage>)
    ensures
        wire_texts(messages@) == setup_script(station),
{
    let mut messages: Vec<KiwiClientMessage> = Vec::new();
    messages.push(KiwiClientMessage::AROk { input_rate: 12000, output_rate: 48000 });
    messages.push(KiwiClientMessage::Unknown(String::from_str("SERVER DE CLIENT openwebrx.js SND")));
    messages.push(
        KiwiClientMessage::Unknown(
            String::from_str(
                "SET browser=Mozilla/5.0 (Macintosh; Intel Mac OS X 10_15_7) AppleWebKit/605.1.15 (KHTML, like Gecko) Version/17.0 Safari/605.1.15",
            ),
        ),
    );
    messages.push(KiwiClientMessage::Unknown(String::from_str("SET squelch=0 param=0.00")));
    messages.push(KiwiClientMessage::Tune(station));
    messages.push(KiwiClientMessage::SetIdentity(String::from_str("W8EDU")));
    messages.push(KiwiClientMessage::SetLocation(String::from_str("Cleveland, OH")));
    messages.push(
        KiwiClientMessage::SetAgc {
            enabled: true,
            decay: 1370,
            hang: false,
            slope: 6,
            thresh: -96,
            gain: 70,
        },
    );
    messages.push(KiwiClientMessage::SetCompression(true));
    assert(wire_texts(messages@) =~= setup_script(station));
    messages
}

/// The actions that send `lines`, in order.
pub open spec fn sends(lines: Seq<Seq<char>>) -> Seq<ActionView> {
    Seq::new(lines.len(), |i: int| ActionView::Send(lines[i]))
}

/// The action that finalizes the current file, where there is one.
pub open spec fn finalize_if(open: bool) -> Seq<ActionView> {
    if open {
        seq![ActionView::FinalizeFile]
    } else {
        Seq::empty()
    }
}

/// The actions that carry out one write: create the file, where the write
/// opens one; append the samples; finalize the file, where the write closes
/// it.
pub open spec fn write_actions(step: WriteStepView) -> Seq<ActionView> {
    (match step.open {
        Some(file) => seq![ActionView::CreateFile(file)],
        None => Seq::empty(),
    }) + seq![ActionView::WriteSamples(step.samples)] + finalize_if(step.close)
}

/// What a supervisor does about an attempt to connect that failed: while
/// it runs, it waits four seconds and connects again.
pub open spec fn retry(status: ScraperStatus) -> Seq<ActionView> {
    if status == ScraperStatus::Running {
        seq![ActionView::Sleep { secs: 4 }, ActionView::Connect]
    } else {
        Seq::empty()
    }
}

/// A supervisor as plain values.
pub struct ScraperView {
    pub name: Seq<char>,
    pub endpoint: Seq<char>,
    pub password: Option<Seq<char>>,
    pub agc: bool,
    pub station: Tuning,
    pub status: ScraperStatus,
    pub writer: WriterView,
    pub smeter: Option<u16>,
}

/// What a supervisor does about an event at the time `now`, and what it is
/// afterwards. A stopped supervisor does nothing.
///
/// When the session has closed, the current file is finalized, and after a
/// pause of four seconds the session is connected again. When the receiver
/// is ready, its sample rate becomes that of the files opened from then on,
/// the setup script is sent, and the keepalive starts. Sound is written to
/// the sink, and its S-meter reading is kept; sound that the sink cannot
/// take is left out. Other events ask for nothing.
pub open spec fn react(s: ScraperView, event: EventView, now: int) -> (
    ScraperView,
    Seq<ActionView>,
) {
    if s.status == ScraperStatus::Stopped {
        (s, Seq::empty())
    } else {
        match event {
            EventView::Close(_) => (
                ScraperView { writer: WriterView { open_since: None, ..s.writer }, ..s },
                finalize_if(s.writer.open_since is Some) + seq![
                    ActionView::Sleep { secs: 4 },
                    ActionView::Connect,
                ],
            ),
            EventView::Ready(rate) => (
                ScraperView { writer: WriterView { sample_rate: rate, ..s.writer }, ..s },
                sends(setup_script(s.station)) + seq![ActionView::StartKeepalive { every_secs: 5 }],
            ),
            EventView::SoundData { data, smeter } => match write_of(s.writer, data, now) {
                Some((sink, step)) => (
                    ScraperView { writer: sink, smeter: Some(smeter), ..s },
                    write_actions(step),
                ),
                None => (ScraperView { smeter: Some(smeter), ..s }, Seq::empty()),
            },
            EventView::Message(_) => (s, Seq::empty()),
            EventView::Ping => (s, Seq::empty()),
        }
    }
}

/// The supervisor of one station.
pub struct KiwiSDRScraper {
    settings: KiwiSDRScraperSettings,
    status: ScraperStatus,
    writer: Writer,
    smeter: Option<u16>,
}

impl View for KiwiSDRScraper {
    type V = ScraperView;

    closed spec fn view(&self) -> ScraperView {
        ScraperView {
            name: self.settings.name@,
            endpoint: self.settings.endpoint@,
            password: match self.settings.password {
                Some(p) => Some(p@),
                None => None,
            },
            agc: self.settings.agc,
            station: self.settings.station,
            status: self.status,
            writer: self.writer@,
            smeter: self.smeter,
        }
    }
}

fn write_step_actions(step: WriteStep) -> (actions: Vec<ScraperAction>)
    ensures
        action_views(actions@) == write_actions(step@),
{
    let mut actions: Vec<ScraperAction> = Vec::new();
    let WriteStep { open, samples, close } = step;
    match open {
        Some(file) => {
            actions.push(ScraperAction::CreateFile(file));
        },
        None => {},
    }
    actions.push(ScraperAction::WriteSamples(samples));
    if close {
        actions.push(ScraperAction::FinalizeFile);
    }
    assert(action_views(actions@) =~= write_actions(step@));
    actions
}

impl KiwiSDRScraper {
    /// The settings that the supervisor was made with.
    pub closed spec fn settings(&self) -> KiwiSDRScraperSettings {
        self.settings
    }

    /// A stopped supervisor for the station of `settings`, with a sink of
    /// the station's name that writes into `./RECORD`.
    pub fn new(settings: KiwiSDRScraperSettings) -> (scraper: KiwiSDRScraper)
        ensures
            scraper.settings() == settings,
            scraper@.name == settings.name@,
            scraper@.endpoint == settings.endpoint@,
            scraper@.password == settings@.password,
            scraper@.agc == settings.agc,
            scraper@.station == settings.station,
            scraper@.status == ScraperStatus::Stopped,
            scraper@.smeter is None,
            scraper@.writer == (WriterView {
                name: settings.name@,
                dir: "./RECORD"@,
                sample_rate: DEFAULT_SAMPLE_RATE,
                open_since: None,
                decoder: initial_state(),
            }),
    {
        let writer = Writer::new(settings.name.clone(), String::from_str("./RECORD"));
        KiwiSDRScraper { settings, status: ScraperStatus::Stopped, writer, smeter: None }
    }

    /// Starts a stopped supervisor: it connects its session and reads its
    /// events. A running supervisor is left as it is.
    pub fn start(&mut self) -> (actions: Vec<ScraperAction>)
        ensures
            final(self)@ == (ScraperView { status: ScraperStatus::Running, ..old(self)@ }),
            final(self).settings() == old(self).settings(),
            action_views(actions@) == if old(self)@.status == ScraperStatus::Stopped {
                seq![ActionView::Connect, ActionView::RunEventLoop]
            } else {
                Seq::empty()
            },
    {
        let mut actions: Vec<ScraperAction> = Vec::new();
        match self.status {
            ScraperStatus::Running => {
                assert(action_views(actions@) =~= Seq::<ActionView>::empty());
            },
            ScraperStatus::Stopped => {
                actions.push(ScraperAction::Connect);
                actions.push(ScraperAction::RunEventLoop);
                self.status = ScraperStatus::Running;
                assert(action_views(actions@) =~= seq![
                    ActionView::Connect,
                    ActionView::RunEventLoop,
                ]);
            },
        }
        actions
    }

    /// Stops a running supervisor: its tasks and its session are cancelled,
    /// and the current file is finalized. A stopped supervisor is left as
    /// it is.
    pub fn stop(&mut self) -> (actions: Vec<ScraperAction>)
        ensures
            final(self).settings() == old(self).settings(),
            old(self)@.status == ScraperStatus::Stopped ==> final(self)@ == old(self)@
                && actions@.len() == 0,
            old(self)@.status == ScraperStatus::Running ==> final(self)@ == (ScraperView {
                status: ScraperStatus::Stopped,
                writer: WriterView { open_since: None, ..old(self)@.writer },
                ..old(self)@
            }) && action_views(actions@) == seq![ActionView::Cancel] + finalize_if(
                old(self)@.writer.open_since is Some,
            ),
    {
        let mut actions: Vec<ScraperAction> = Vec::new();
        match self.status {
            ScraperStatus::Stopped => {},
            ScraperStatus::Running => {
                actions.push(ScraperAction::Cancel);
                if self.writer.close() {
                    actions.push(ScraperAction::FinalizeFile);
                }
                self.status = ScraperStatus::Stopped;
                assert(action_views(actions@) =~= seq![ActionView::Cancel] + finalize_if(
                    old(self)@.writer.open_since is Some,
                ));
            },
        }
        actions
    }

    /// Whether the supervisor is at work.
    pub fn status(&self) -> (status: ScraperStatus)
        ensures
            status == self@.status,
    {
        self.status
    }

    /// The station's name.
    pub fn name(&self) -> (name: &str)
        ensures
            name@ == self@.name,
    {
        self.settings.name.as_str()
    }

    /// The station's password, if it has one.
    pub fn password(&self) -> (password: &Option<String>)
        ensures
            *password == self.settings().password,
    {
        &self.settings.password
    }

    /// The station's address.
    pub fn endpoint(&self) -> (endpoint: &str)
        ensures
            endpoint@ == self.settings().endpoint@,
    {
        self.settings.endpoint.as_str()
    }

    /// The station's name and its latest S-meter reading.
    pub fn get_stats(&self) -> (stats: KiwiScraperStats)
        ensures
            stats.name@ == self@.name,
            stats.smeter == self@.smeter,
    {
        KiwiScraperStats { name: self.settings.name.clone(), smeter: self.smeter }
    }

    /// An attempt to connect the session has failed, the first or one after
    /// the session had closed: a running supervisor waits four seconds and
    /// connects again, however often that fails. A stopped one lets it be.
    pub fn connect_failed(&mut self) -> (actions: Vec<ScraperAction>)
        ensures
            final(self)@ == old(self)@,
            final(self).settings() == old(self).settings(),
            action_views(actions@) == retry(old(self)@.status),
    {
        let mut actions: Vec<ScraperAction> = Vec::new();
        match self.status {
            ScraperStatus::Stopped => {
                assert(action_views(actions@) =~= Seq::<ActionView>::empty());
            },
            ScraperStatus::Running => {
                actions.push(ScraperAction::Sleep { secs: RECONNECT_DELAY_SECS });
                actions.push(ScraperAction::Connect);
                assert(action_views(actions@) =~= seq![
                    ActionView::Sleep { secs: 4 },
                    ActionView::Connect,
                ]);
            },
        }
        actions
    }

    /// The current file could not be written: it is given up, and the next
    /// sound opens a new one.
    pub fn write_failed(&mut self)
        ensures
            final(self)@ == (ScraperView {
                writer: WriterView { open_since: None, ..old(self)@.writer },
                ..old(self)@
            }),
            final(self).settings() == old(self).settings(),
    {
        self.writer.close();
    }

    /// Takes one event of the session, at the time `now` in seconds since
    /// the start of 1970, and says what is to be done about it.
    pub fn handle_event(&mut self, event: KiwiEvent, now: i64) -> (actions: Vec<ScraperAction>)
        ensures
            (final(self)@, action_views(actions@)) == react(old(self)@, event@, now as int),
            final(self).settings() == old(self).settings(),
            final(self)@.status == old(self)@.status,
    {
        let mut actions: Vec<ScraperAction> = Vec::new();
        assert(action_views(actions@) =~= Seq::<ActionView>::empty());
        match self.status {
            ScraperStatus::Stopped => {
                return actions;
            },
            ScraperStatus::Running => {},
        }
        match event {
            KiwiEvent::Close(_) => {
                if self.writer.close() {
                    actions.push(ScraperAction::FinalizeFile);
                }
                actions.push(ScraperAction::Sleep { secs: RECONNECT_DELAY_SECS });
                actions.push(ScraperAction::Connect);
                assert(action_views(actions@) =~= finalize_if(old(self)@.writer.open_since is Some)
                    + seq![ActionView::Sleep { secs: 4 }, ActionView::Connect]);
                actions
            },
            KiwiEvent::Ready(rate) => {
                self.writer.set_sample_rate(rate);
                let messages = setup_messages(self.settings.station);
                let ghost script = setup_script(self.settings.station);
                let ghost total = messages@;
                let mut i: usize = 0;
                let n = messages.len();
                let mut rest = messages;
                let mut sent: Vec<ScraperAction> = Vec::new();
                assert(action_views(sent@) =~= sends(script.take(0)));
                while rest.len() > 0
                    invariant
                        wire_texts(total) == script,
                        script.len() == total.len(),
                        total.len() == n,
                        i + rest@.len() == total.len(),
                        sent@.len() == i,
                        rest@ == total.skip(i as int),
                        action_views(sent@) == sends(script.take(i as int)),
                    decreases rest@.len(),
                {
                    let ghost before = sent@;
                    let message = rest.remove(0);
                    proof {
                        assert(message == total[i as int]);
                        assert(script[i as int] == total[i as int].wire_text());
                        assert(rest@ =~= total.skip(i + 1));
                    }
                    sent.push(ScraperAction::Send(message));
                    proof {
                        let next = script.take(i + 1);
                        assert(next.len() == i + 1);
                        assert forall|j: int| 0 <= j < i + 1 implies action_views(sent@)[j]
                            == sends(next)[j] by {
                            if j < i {
                                assert(sent@[j] == before[j]);
                                assert(action_views(before)[j] == sends(script.take(i as int))[j]);
                            }
                        }
                        assert(action_views(sent@) =~= sends(next));
                    }
                    i += 1;
                }
                assert(script.take(i as int) =~= script);
                sent.push(ScraperAction::StartKeepalive { every_secs: KEEPALIVE_SECS });
                assert(action_views(sent@) =~= sends(script) + seq![
                    ActionView::StartKeepalive { every_secs: 5 },
                ]);
                sent
            },
            KiwiEvent::SoundData { data, smeter } => {
                self.smeter = Some(smeter);
                match self.writer.write_samples(&data, now) {
                    Ok(step) => write_step_actions(step),
                    Err(_) => actions,
                }
            },
            KiwiEvent::Message(_) => actions,
            KiwiEvent::Ping => actions,
        }
    }
}

/// Reconnection: a running supervisor whose session has closed, for
/// whatever reason, finalizes the current file if one is open, waits four
/// seconds, and connects again. It goes on running, with its sink closed.
pub proof fn lemma_close_reconnects(s: ScraperView, reason: KiwiCloseReason, now: int)
    requires
        s.status == ScraperStatus::Running,
    ensures
        react(s, EventView::Close(reason), now).1 == finalize_if(s.writer.open_since is Some)
            + seq![ActionView::Sleep { secs: 4 }, ActionView::Connect],
        react(s, EventView::Close(reason), now).0.status == ScraperStatus::Running,
        react(s, EventView::Close(reason), now).0.writer.open_since is None,
{
}

/// Reconnection without bound: the attempt that follows a failed one is
/// asked for in the same way as the one that follows a closed session, after
/// the same pause, and a failed attempt changes nothing in the supervisor.
/// So a running supervisor asks for a new attempt after every failure.
pub proof fn lemma_failed_attempts_are_retried(s: ScraperView, reason: KiwiCloseReason, now: int)
    requires
        s.status == ScraperStatus::Running,
    ensures
        retry(s.status) == seq![ActionView::Sleep { secs: 4 }, ActionView::Connect],
        react(s, EventView::Close(reason), now).1 == finalize_if(s.writer.open_since is Some)
            + retry(s.status),
{
}

/// No event stops a supervisor or starts one: whatever comes from the
/// session, and however often it closes, a running supervisor goes on
/// running.
pub proof fn lemma_events_keep_the_status(s: ScraperView, event: EventView, now: int)
    ensures
        react(s, event, now).0.status == s.status,
        react(s, event, now).0.name == s.name,
        react(s, event, now).0.endpoint == s.endpoint,
        react(s, event, now).0.password == s.password,
        react(s, event, now).0.agc == s.agc,
        react(s, event, now).0.station == s.station,
{
}

/// A file is created only while none is open, and finalized only while
/// one is: the actions of a supervisor never open a second file beside the
/// current one.
pub proof fn lemma_one_file_at_a_time(s: ScraperView, event: EventView, now: int)
    ensures
        forall|i: int|
            0 <= i < react(s, event, now).1.len() && (#[trigger] react(s, event, now).1[i])
                is CreateFile ==> s.writer.open_since is None && i == 0,
        forall|i: int|
            0 <= i < react(s, event, now).1.len() && (#[trigger] react(s, event, now).1[i])
                is FinalizeFile ==> react(s, event, now).0.writer.open_since is None,
{
}

/// How many characters of a notification are shown in the log.
pub const LOG_EXCERPT_CHARS: usize = 100;

/// A notification as it is shown in the log: whole where its UTF-8 encoding
/// has no more than 100 bytes, else its first 100 characters and `...`.
pub open spec fn excerpt_of(text: Seq<char>) -> Seq<char> {
    if encode_utf8(text).len() > 100 {
        (if text.len() > 100 {
            text.take(100)
        } else {
            text
        }) + "..."@
    } else {
        text
    }
}

/// A notification as it is shown in the log.
pub fn log_excerpt(text: &str) -> (shown: String)
    ensures
        shown@ == excerpt_of(text@),
{
    if text.as_bytes().len() > LOG_EXCERPT_CHARS {
        let chars = text.unicode_len();
        let kept = if chars > LOG_EXCERPT_CHARS {
            LOG_EXCERPT_CHARS
        } else {
            chars
        };
        let mut shown = String::from_str(text.substring_char(0, kept));
        shown.append("...");
        assert(text@.subrange(0, kept as int) =~= if text@.len() > 100 {
            text@.take(100)
        } else {
            text@
        });
        shown
    } else {
        String::from_str(text)
    }
}

} // verus!
