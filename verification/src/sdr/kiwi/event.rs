//! What a session reports to its supervisor.

use vstd::prelude::*;

verus! {

/// Why a session ended.
#[derive(Debug, Clone, Copy, PartialEq, Eq, Structural)]
pub enum KiwiCloseReason {
    ServerClosed,
    AuthenticationFailed,
}

/// One report of a session. Sound comes with the signal strength as the
/// receiver sent it: the S-meter reading, an integer.
#[derive(Debug)]
pub enum KiwiEvent {
    Close(KiwiCloseReason),
    Message(String),
    Ready(u32),
    SoundData { data: Vec<u8>, smeter: u16 },
    Ping,
}

/// A report as plain values.
pub enum EventView {
    Close(KiwiCloseReason),
    Message(Seq<char>),
    Ready(u32),
    SoundData { data: Seq<u8>, smeter: u16 },
    Ping,
}

impl View for KiwiEvent {
    type V = EventView;

    open spec fn view(&self) -> EventView {
        match *self {
            KiwiEvent::Close(reason) => EventView::Close(reason),
            KiwiEvent::Message(text) => EventView::Message(text@),
            KiwiEvent::Ready(rate) => EventView::Ready(rate),
            KiwiEvent::SoundData { data, smeter } => EventView::SoundData { data: data@, smeter },
            KiwiEvent::Ping => EventView::Ping,
        }
    }
}

/// The signal strength in tenths of a dBm that an S-meter reading stands
/// for: a tenth of a dBm for each unit, from -127 dBm.
pub open spec fn rssi_tenths(smeter: u16) -> int {
    smeter - 1270
}

/// The signal strength in tenths of a dBm that an S-meter reading stands for.
pub fn rssi_decidbm(smeter: u16) -> (tenths: i32)
    ensures
        tenths as int == rssi_tenths(smeter),
{
    smeter as i32 - 1270
}

} // verus!
