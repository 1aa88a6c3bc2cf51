//! The KiwiSDR client: messages, events and the session.

use crate::sdr::kiwi::event::{EventView, KiwiCloseReason, KiwiEvent};
use crate::sdr::kiwi::lex::bytes_eq;
use crate::sdr::kiwi::message::{classify, login_text, notice_of, LoginMessage, Notice};
use crate::text::{decimal, push_decimal};
use byteorder::{BigEndian, ByteOrder, LittleEndian};
use rand::Rng;
use url::Url;
use vstd::prelude::*;
use vstd::slice::{slice_subrange, slice_to_vec};
use vstd::string::*;
use vstd::utf8::{decode_utf8, encode_utf8, encode_utf8_decode_utf8, valid_utf8};

pub mod atomic;
pub mod command;
pub mod event;
pub mod lex;
pub mod message;
pub mod reader;
pub mod scraper;

verus! {

/// Why a frame of the receiver could not be read.
#[derive(Debug, Clone, Copy, PartialEq, Eq, Structural)]
pub enum DecodeError {
    /// A binary frame ends before its header does.
    ShortFrame,
    /// The text of a notification is not UTF-8.
    InvalidText,
    /// The sample rate of an audio announcement is not a `u32`.
    InvalidRate,
}

/// What a receiver answers when asked for its version.
#[derive(Debug, Clone, Copy, PartialEq, Eq)]
pub struct VerResponse {
    pub major: i32,
    pub minor: i32,
    pub code: Option<i128>,
}

/// The unsigned 32-bit integer that four bytes hold, lowest byte first.
pub open spec fn le_u32(b: Seq<u8>) -> int {
    b[0] + b[1] * 0x100 + b[2] * 0x1_0000 + b[3] * 0x100_0000
}

/// The unsigned 16-bit integer that two bytes hold, highest byte first.
pub open spec fn be_u16(b: Seq<u8>) -> int {
    b[0] * 0x100 + b[1]
}

/// `byteorder::LittleEndian::read_u32`: the first four bytes of `buf` read
/// as an integer, lowest byte first. The crate panics on a shorter buffer.
/// Trusted, not proved.
#[verifier::external_body]
fn read_u32_le(buf: &[u8]) -> (n: u32)
    requires
        buf@.len() >= 4,
    ensures
        n as int == le_u32(buf@),
{
    LittleEndian::read_u32(buf)
}

/// `byteorder::BigEndian::read_u16`: the first two bytes of `buf` read as an
/// integer, highest byte first. The crate panics on a shorter buffer.
/// Trusted, not proved.
#[verifier::external_body]
fn read_u16_be(buf: &[u8]) -> (n: u16)
    requires
        buf@.len() >= 2,
    ensures
        n as int == be_u16(buf@),
{
    BigEndian::read_u16(buf)
}

/// `String::from_utf8`: the text whose UTF-8 encoding the bytes are, where
/// they are the encoding of a text at all. Trusted, not proved.
#[verifier::external_body]
pub(crate) fn text_of_utf8(bytes: Vec<u8>) -> (text: Option<String>)
    ensures
        text is Some <==> valid_utf8(bytes@),
        text matches Some(t) ==> encode_utf8(t@) == bytes@,
{
    match String::from_utf8(bytes) {
        Ok(t) => Some(t),
        Err(_) => None,
    }
}

/// Length of the header of a sound frame, after its tag.
pub const SOUND_HEADER_LEN: usize = 7;

/// A sound frame, after its tag: flags, sequence number, S-meter reading,
/// and the compressed samples.
#[derive(Debug)]
pub struct SoundFrame {
    pub flags: u8,
    pub seq: u32,
    pub smeter: u16,
    pub data: Vec<u8>,
}

/// Reads a sound frame, given what follows its tag: one byte of flags, the
/// sequence number in four bytes, lowest first, the S-meter reading in two
/// bytes, highest first, and the samples. It fails, with `ShortFrame`, if
/// and only if `body` is shorter than the header.
pub fn parse_sound_frame(body: &[u8]) -> (r: Result<SoundFrame, DecodeError>)
    ensures
        r is Err <==> body@.len() < 7,
        r matches Err(e) ==> e == DecodeError::ShortFrame,
        r matches Ok(f) ==> {
            &&& f.flags == body@[0]
            &&& f.seq as int == le_u32(body@.subrange(1, 5))
            &&& f.smeter as int == be_u16(body@.subrange(5, 7))
            &&& f.data@ == body@.skip(7)
        },
{
    if body.len() < SOUND_HEADER_LEN {
        return Err(DecodeError::ShortFrame);
    }
    let flags = body[0];
    let seq = read_u32_le(slice_subrange(body, 1, 5));
    let smeter = read_u16_be(slice_subrange(body, 5, 7));
    let data = slice_to_vec(slice_subrange(body, 7, body.len()));
    assert(data@ =~= body@.skip(7));
    Ok(SoundFrame { flags, seq, smeter, data })
}

/// One frame of the WebSocket, as far as the session reads it.
#[derive(Debug)]
pub enum Frame {
    Text(String),
    Binary(Vec<u8>),
    Ping,
    Pong,
    Close,
    Other,
}

/// A frame as plain values.
pub enum FrameView {
    Text(Seq<char>),
    Binary(Seq<u8>),
    Ping,
    Pong,
    Close,
    Other,
}

impl View for Frame {
    type V = FrameView;

    open spec fn view(&self) -> FrameView {
        match *self {
            Frame::Text(text) => FrameView::Text(text@),
            Frame::Binary(bytes) => FrameView::Binary(bytes@),
            Frame::Ping => FrameView::Ping,
            Frame::Pong => FrameView::Pong,
            Frame::Close => FrameView::Close,
            Frame::Other => FrameView::Other,
        }
    }
}

/// Why a session failed.
#[derive(Debug, Clone, Copy, PartialEq, Eq, Structural)]
pub enum FailureKind {
    ConnectTimeout,
    HandshakeFailed,
    AuthenticationFailed,
    ServerClosed,
}

/// Where a session stands.
#[derive(Debug, Clone, Copy, PartialEq, Eq, Structural)]
pub enum SessionState {
    Disconnected,
    Connecting,
    Authenticating,
    AwaitingAudioInit,
    Streaming,
    Closing,
    Failed(FailureKind),
}

impl SessionState {
    /// Whether frames are read in this state: from the login until the
    /// session is closed or fails.
    pub open spec fn live(self) -> bool {
        self == SessionState::Authenticating || self == SessionState::AwaitingAudioInit || self
            == SessionState::Streaming
    }

    /// Whether frames are read in this state.
    pub fn is_live(&self) -> (r: bool)
        ensures
            r == self.live(),
    {
        match self {
            SessionState::Authenticating => true,
            SessionState::AwaitingAudioInit => true,
            SessionState::Streaming => true,
            _ => false,
        }
    }
}

/// What reading one frame leads to: an event for the supervisor, the order
/// to cancel the session's tasks, a frame dropped because it is malformed,
/// or a frame discarded for its tag, which is then noted with the tag.
#[derive(Debug)]
pub struct Outcome {
    pub event: Option<KiwiEvent>,
    pub cancel: bool,
    pub error: Option<DecodeError>,
    pub discarded: Option<Vec<u8>>,
}

/// An outcome as plain values.
pub struct OutcomeView {
    pub event: Option<EventView>,
    pub cancel: bool,
    pub error: Option<DecodeError>,
    pub discarded: Option<Seq<u8>>,
}

impl View for Outcome {
    type V = OutcomeView;

    open spec fn view(&self) -> OutcomeView {
        OutcomeView {
            event: match self.event {
                Some(e) => Some(e@),
                None => None,
            },
            cancel: self.cancel,
            error: self.error,
            discarded: match self.discarded {
                Some(tag) => Some(tag@),
                None => None,
            },
        }
    }
}

/// Nothing to report.
pub open spec fn nothing() -> OutcomeView {
    OutcomeView { event: None, cancel: false, error: None, discarded: None }
}

/// An event to report.
pub open spec fn report(event: EventView) -> OutcomeView {
    OutcomeView { event: Some(event), cancel: false, error: None, discarded: None }
}

/// A malformed frame, dropped.
pub open spec fn dropped(error: DecodeError) -> OutcomeView {
    OutcomeView { event: None, cancel: false, error: Some(error), discarded: None }
}

/// A frame with a tag that the session does not read, discarded and noted.
pub open spec fn passed_over(tag: Seq<u8>) -> OutcomeView {
    OutcomeView { event: None, cancel: false, error: None, discarded: Some(tag) }
}

/// The end of the session, reported and ordered.
pub open spec fn ended(reason: KiwiCloseReason) -> OutcomeView {
    OutcomeView {
        event: Some(EventView::Close(reason)),
        cancel: true,
        error: None,
        discarded: None,
    }
}

/// What a notification leads to in a live session. An accepted login moves
/// the session on from `Authenticating`; a refused one ends it. The audio
/// announcement makes it `Streaming` and reports the rate. A rate that
/// cannot be read drops the notification. Anything else is passed on.
pub open spec fn step_notification(state: SessionState, text: Seq<char>) -> (
    SessionState,
    OutcomeView,
) {
    match notice_of(encode_utf8(text)) {
        Notice::Authentication(true) => (
            if state == SessionState::Authenticating {
                SessionState::AwaitingAudioInit
            } else {
                state
            },
            nothing(),
        ),
        Notice::Authentication(false) => (
            SessionState::Failed(FailureKind::AuthenticationFailed),
            ended(KiwiCloseReason::AuthenticationFailed),
        ),
        Notice::AudioInit(rate) => (SessionState::Streaming, report(EventView::Ready(rate))),
        Notice::BadRate => (state, dropped(DecodeError::InvalidRate)),
        Notice::Other => (state, report(EventView::Message(text))),
    }
}

/// What a binary frame leads to in a live session. The first three bytes
/// are its tag. After `SND` comes a sound frame. After `MSG` and one more
/// byte comes the text of a notification. A frame with another tag is
/// discarded, and its tag is noted. A frame too short for its tag or header,
/// and a notification that is not UTF-8, are dropped.
pub open spec fn step_binary(state: SessionState, bytes: Seq<u8>) -> (SessionState, OutcomeView) {
    if bytes.len() < 3 {
        (state, dropped(DecodeError::ShortFrame))
    } else if bytes.subrange(0, 3) == "SND".spec_bytes() {
        if bytes.len() < 3 + 7 {
            (state, dropped(DecodeError::ShortFrame))
        } else {
            (
                state,
                report(
                    EventView::SoundData {
                        data: bytes.skip(10),
                        smeter: be_u16(bytes.subrange(8, 10)) as u16,
                    },
                ),
            )
        }
    } else if bytes.subrange(0, 3) == "MSG".spec_bytes() {
        if bytes.len() < 4 {
            (state, dropped(DecodeError::ShortFrame))
        } else if !valid_utf8(bytes.skip(4)) {
            (state, dropped(DecodeError::InvalidText))
        } else {
            step_notification(state, decode_utf8(bytes.skip(4)))
        }
    } else {
        (state, passed_over(bytes.subrange(0, 3)))
    }
}

/// The session's transition function: the state after reading `frame` in
/// `state`, and what reading it leads to. Frames are read in live states
/// only.
pub open spec fn step(state: SessionState, frame: FrameView) -> (SessionState, OutcomeView) {
    if !state.live() {
        (state, nothing())
    } else {
        match frame {
            FrameView::Text(text) => step_notification(state, text),
            FrameView::Binary(bytes) => step_binary(state, bytes),
            FrameView::Close => (
                SessionState::Failed(FailureKind::ServerClosed),
                ended(KiwiCloseReason::ServerClosed),
            ),
            FrameView::Ping => (state, report(EventView::Ping)),
            FrameView::Pong => (state, nothing()),
            FrameView::Other => (state, nothing()),
        }
    }
}

fn outcome_nothing() -> (out: Outcome)
    ensures
        out@ == nothing(),
{
    Outcome { event: None, cancel: false, error: None, discarded: None }
}

fn outcome_report(event: KiwiEvent) -> (out: Outcome)
    ensures
        out@ == report(event@),
{
    Outcome { event: Some(event), cancel: false, error: None, discarded: None }
}

fn outcome_dropped(error: DecodeError) -> (out: Outcome)
    ensures
        out@ == dropped(error),
{
    Outcome { event: None, cancel: false, error: Some(error), discarded: None }
}

fn outcome_passed_over(tag: Vec<u8>) -> (out: Outcome)
    ensures
        out@ == passed_over(tag@),
{
    Outcome { event: None, cancel: false, error: None, discarded: Some(tag) }
}

fn outcome_ended(reason: KiwiCloseReason) -> (out: Outcome)
    ensures
        out@ == ended(reason),
{
    Outcome { event: Some(KiwiEvent::Close(reason)), cancel: true, error: None, discarded: None }
}

/// Reads a notification in a live session.
pub fn read_notification(state: SessionState, text: String) -> (r: (SessionState, Outcome))
    ensures
        (r.0, r.1@) == step_notification(state, text@),
{
    let notice = classify(text.as_str().as_bytes());
    match notice {
        Notice::Authentication(true) => {
            let next = match state {
                SessionState::Authenticating => SessionState::AwaitingAudioInit,
                other => other,
            };
            (next, outcome_nothing())
        },
        Notice::Authentication(false) => (
            SessionState::Failed(FailureKind::AuthenticationFailed),
            outcome_ended(KiwiCloseReason::AuthenticationFailed),
        ),
        Notice::AudioInit(rate) => (SessionState::Streaming, outcome_report(KiwiEvent::Ready(rate))),
        Notice::BadRate => (state, outcome_dropped(DecodeError::InvalidRate)),
        Notice::Other => (state, outcome_report(KiwiEvent::Message(text))),
    }
}

/// Reads a binary frame in a live session.
pub fn read_binary(state: SessionState, bytes: &[u8]) -> (r: (SessionState, Outcome))
    ensures
        (r.0, r.1@) == step_binary(state, bytes@),
{
    if bytes.len() < 3 {
        return (state, outcome_dropped(DecodeError::ShortFrame));
    }
    let tag = slice_subrange(bytes, 0, 3);
    if bytes_eq(tag, "SND".as_bytes()) {
        let body = slice_subrange(bytes, 3, bytes.len());
        match parse_sound_frame(body) {
            Ok(frame) => {
                proof {
                    assert(body@.skip(7) =~= bytes@.skip(10));
                    assert(body@.subrange(5, 7) =~= bytes@.subrange(8, 10));
                }
                (
                    state,
                    outcome_report(
                        KiwiEvent::SoundData { data: frame.data, smeter: frame.smeter },
                    ),
                )
            },
            Err(e) => (state, outcome_dropped(e)),
        }
    } else if bytes_eq(tag, "MSG".as_bytes()) {
        if bytes.len() < 4 {
            return (state, outcome_dropped(DecodeError::ShortFrame));
        }
        let body = slice_to_vec(slice_subrange(bytes, 4, bytes.len()));
        assert(body@ =~= bytes@.skip(4));
        match text_of_utf8(body) {
            Some(text) => {
                proof {
                    encode_utf8_decode_utf8(text@);
                }
                read_notification(state, text)
            },
            None => (state, outcome_dropped(DecodeError::InvalidText)),
        }
    } else {
        (state, outcome_passed_over(slice_to_vec(tag)))
    }
}

/// Reads one frame: the session's transition function.
pub fn read_frame(state: SessionState, frame: Frame) -> (r: (SessionState, Outcome))
    ensures
        (r.0, r.1@) == step(state, frame@),
{
    if !state.is_live() {
        return (state, outcome_nothing());
    }
    match frame {
        Frame::Text(text) => read_notification(state, text),
        Frame::Binary(bytes) => read_binary(state, bytes.as_slice()),
        Frame::Close => (
            SessionState::Failed(FailureKind::ServerClosed),
            outcome_ended(KiwiCloseReason::ServerClosed),
        ),
        Frame::Ping => (state, outcome_report(KiwiEvent::Ping)),
        Frame::Pong => (state, outcome_nothing()),
        Frame::Other => (state, outcome_nothing()),
    }
}

/// Seconds after which an attempt to open the socket is given up.
pub const CONNECT_TIMEOUT_SECS: u64 = 2;

/// How many events, and how many commands, may wait between the session's
/// tasks and the supervisor.
pub const CHANNEL_CAPACITY: usize = 100;

/// The text of an optional text.
pub open spec fn text_view(o: Option<String>) -> Option<Seq<char>> {
    match o {
        Some(t) => Some(t@),
        None => None,
    }
}

/// The serialization of the URL that `url::Url::parse` reads from a text,
/// where it reads one.
pub uninterp spec fn url_parsed(text: Seq<char>) -> Option<Seq<char>>;

/// The serialization of a URL after `url::Url::set_scheme`, where the URL
/// parses and takes the scheme.
pub uninterp spec fn url_with_scheme(url: Seq<char>, scheme: Seq<char>) -> Option<Seq<char>>;

/// The serialization of the URL that `url::Url::join` resolves a reference
/// to against a base, where the base parses and the reference resolves.
pub uninterp spec fn url_joined(base: Seq<char>, reference: Seq<char>) -> Option<Seq<char>>;

/// `url::Url::parse`, and the serialization of what it read. Trusted: the
/// result is a function of the text alone, and is given a name.
#[verifier::external_body]
pub(crate) fn parse_url(text: &str) -> (url: Option<String>)
    ensures
        text_view(url) == url_parsed(text@),
{
    match Url::parse(text) {
        Ok(u) => Some(u.to_string()),
        Err(_) => None,
    }
}

/// `url::Url::set_scheme` on the URL that `url` parses to, and the
/// serialization of the changed URL. Trusted: the result is a function of
/// the two texts alone, and is given a name.
#[verifier::external_body]
fn set_url_scheme(url: &str, scheme: &str) -> (changed: Option<String>)
    ensures
        text_view(changed) == url_with_scheme(url@, scheme@),
{
    match Url::parse(url) {
        Ok(mut u) => match u.set_scheme(scheme) {
            Ok(()) => Some(u.to_string()),
            Err(()) => None,
        },
        Err(_) => None,
    }
}

/// `url::Url::join` on the URL that `base` parses to, and the serialization
/// of the resolved URL. Trusted: the result is a function of the two texts
/// alone, and is given a name.
#[verifier::external_body]
fn join_url(base: &str, reference: &str) -> (joined: Option<String>)
    ensures
        text_view(joined) == url_joined(base@, reference@),
{
    match Url::parse(base) {
        Ok(u) => match u.join(reference) {
            Ok(j) => Some(j.to_string()),
            Err(_) => None,
        },
        Err(_) => None,
    }
}

/// `rand::Rng::gen_range` on the thread's generator, for the range from 0
/// to 1000: some number of that range. Trusted, not proved.
#[verifier::external_body]
fn draw_session_number() -> (n: i128)
    ensures
        0 <= n < 1000,
{
    rand::thread_rng().gen_range(0..1000)
}

/// Where a receiver tells its version: the endpoint with the scheme `http`,
/// and `VER` resolved against it.
pub open spec fn version_url_of(endpoint: Seq<char>) -> Option<Seq<char>> {
    match url_with_scheme(endpoint, "http"@) {
        Some(http) => url_joined(http, "VER"@),
        None => None,
    }
}

/// An endpoint without the slash that it may end in.
pub open spec fn endpoint_base(endpoint: Seq<char>) -> Seq<char> {
    if endpoint.len() > 0 && endpoint.last() == '/' {
        endpoint.drop_last()
    } else {
        endpoint
    }
}

/// The address of the sound socket of a session: the path `/kiwi/`, the
/// session number and `/SND`, at the endpoint.
pub open spec fn socket_url_of(endpoint: Seq<char>, number: int) -> Seq<char> {
    endpoint_base(endpoint) + "/kiwi/"@ + decimal(number) + "/SND"@
}

/// Where a receiver tells its version, if the endpoint allows for it.
pub fn version_url(endpoint: &str) -> (url: Option<String>)
    ensures
        text_view(url) == version_url_of(endpoint@),
{
    match set_url_scheme(endpoint, "http") {
        Some(http) => join_url(http.as_str(), "VER"),
        None => None,
    }
}

/// The address of the sound socket of the session with the given number.
pub fn socket_url(endpoint: &str, number: i128) -> (url: String)
    ensures
        url@ == socket_url_of(endpoint@, number as int),
{
    let n = endpoint.unicode_len();
    let base = if n > 0 && endpoint.get_char(n - 1) == '/' {
        endpoint.substring_char(0, n - 1)
    } else {
        endpoint
    };
    assert(base@ =~= endpoint_base(endpoint@));
    let mut out = String::from_str(base);
    out.append("/kiwi/");
    push_decimal(&mut out, number);
    out.append("/SND");
    out
}

/// The number of a new session: the code that the receiver's version
/// carries, or, where it carries none, a number drawn from 0 to 999.
pub fn session_number(version: &VerResponse) -> (n: i128)
    ensures
        version.code matches Some(code) ==> n == code,
        version.code is None ==> 0 <= n < 1000,
{
    match version.code {
        Some(code) => code,
        None => draw_session_number(),
    }
}

/// A session as plain values.
pub struct SessionView {
    pub endpoint: Seq<char>,
    pub state: SessionState,
}

/// The session with one receiver: where it stands, and what each step of
/// its life leads to. The socket itself is held by whoever runs the session.
pub struct KiwiSDR {
    endpoint: String,
    state: SessionState,
}

impl View for KiwiSDR {
    type V = SessionView;

    closed spec fn view(&self) -> SessionView {
        SessionView { endpoint: self.endpoint@, state: self.state }
    }
}

impl KiwiSDR {
    /// A session with the receiver at `endpoint`, not yet connected.
    pub fn new(endpoint: String) -> (sdr: Self)
        ensures
            sdr@ == (SessionView { endpoint: endpoint@, state: SessionState::Disconnected }),
    {
        KiwiSDR { endpoint, state: SessionState::Disconnected }
    }

    /// Where the session stands.
    pub fn state(&self) -> (state: SessionState)
        ensures
            state == self@.state,
    {
        self.state
    }

    /// The receiver's address.
    pub fn endpoint(&self) -> (endpoint: &str)
        ensures
            endpoint@ == self@.endpoint,
    {
        self.endpoint.as_str()
    }

    /// Starts an attempt to connect, from any state. Returns the address to
    /// ask for the receiver's version. Where the endpoint has no such
    /// address, the attempt has failed already.
    pub fn begin_connect(&mut self) -> (url: Option<String>)
        ensures
            text_view(url) == version_url_of(old(self)@.endpoint),
            final(self)@.endpoint == old(self)@.endpoint,
            final(self)@.state == if url is Some {
                SessionState::Connecting
            } else {
                SessionState::Failed(FailureKind::HandshakeFailed)
            },
    {
        let url = version_url(self.endpoint.as_str());
        self.state = if url.is_some() {
            SessionState::Connecting
        } else {
            SessionState::Failed(FailureKind::HandshakeFailed)
        };
        url
    }

    /// The address of the sound socket for the session number `number`.
    pub fn socket_url(&self, number: i128) -> (url: String)
        ensures
            url@ == socket_url_of(self@.endpoint, number as int),
    {
        socket_url(self.endpoint.as_str(), number)
    }

    /// The socket is open: the session logs in. Returns the line to send
    /// first.
    pub fn opened(&mut self, password: Option<String>) -> (login: String)
        ensures
            login@ == login_text(text_view(password)),
            final(self)@.endpoint == old(self)@.endpoint,
            final(self)@.state == SessionState::Authenticating,
    {
        self.state = SessionState::Authenticating;
        LoginMessage::new(password).encode()
    }

    /// The attempt to connect failed.
    pub fn connect_failed(&mut self, kind: FailureKind)
        ensures
            final(self)@.endpoint == old(self)@.endpoint,
            final(self)@.state == SessionState::Failed(kind),
    {
        self.state = SessionState::Failed(kind);
    }

    /// Reads one frame from the socket.
    pub fn on_frame(&mut self, frame: Frame) -> (out: Outcome)
        ensures
            (final(self)@.state, out@) == step(old(self)@.state, frame@),
            final(self)@.endpoint == old(self)@.endpoint,
    {
        let (next, out) = read_frame(self.state, frame);
        self.state = next;
        out
    }

    /// Orders the session's tasks to stop.
    pub fn shutdown(&mut self)
        ensures
            final(self)@.endpoint == old(self)@.endpoint,
            final(self)@.state == SessionState::Closing,
    {
        self.state = SessionState::Closing;
    }
}

} // verus!
