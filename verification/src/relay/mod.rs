//! The media relay seam: what is needed from any relay, and nothing about
//! which one answered.
//!
//! A relay implementation decodes a control message, says whether a command
//! creates media so that an unattributed one can be counted, and reports how
//! the message arrived. Nothing here can change a production relay.
pub mod conversation;
pub mod rtpproxy;
pub mod types;

use vstd::prelude::*;

verus! {

/// How many media-creating commands went past without being attributed.
#[derive(Debug, Clone, Copy, PartialEq, Eq, Structural)]
pub struct MediaCreatingCount {
    /// Commands seen; the counter wraps.
    pub seen: u64,
}

impl MediaCreatingCount {
    /// A counter that has seen nothing.
    pub fn new() -> (r: Self)
        ensures
            r.seen == 0,
    {
        MediaCreatingCount { seen: 0 }
    }
}

/// The counter after one more command.
pub open spec fn counted_once_more(seen: u64) -> u64 {
    if seen == u64::MAX {
        0
    } else {
        (seen + 1) as u64
    }
}

/// Record that a media-creating command went past unattributed.
pub fn note_media_creating_command(count: &mut MediaCreatingCount)
    ensures
        final(count).seen == counted_once_more(old(count).seen),
{
    count.seen = count.seen.wrapping_add(1);
}

/// How many media-creating commands have been seen.
#[must_use]
pub fn media_creating_commands_seen(count: &MediaCreatingCount) -> (r: u64)
    ensures
        r == count.seen,
{
    count.seen
}

/// Forget every media-creating command seen so far.
pub fn reset_media_creating_count(count: &mut MediaCreatingCount)
    ensures
        final(count).seen == 0,
{
    count.seen = 0;
}

/// Decodes a captured datagram as a relay control message.
pub trait ControlDecoder: Send + Sync {
    /// Decode one datagram, or `None` when it is not a control message. A
    /// media-creating command that the capture does not attribute is added to
    /// `count`.
    ///
    /// `dst_port` is passed because whether a sniffed message is believed at
    /// all can depend on where it landed.
    fn decode(&self, payload: &[u8], dst_port: u16, count: &mut MediaCreatingCount) -> Option<
        DecodedControl,
    >;
}

/// How a control message reached the capture.
#[derive(Debug, Clone, Copy, PartialEq, Eq, Structural)]
pub enum ControlDelivery {
    /// Wrapped in a transport that can carry authentication.
    Encapsulated,
    /// A bare datagram, read off the wire and authenticated by nothing.
    BareDatagram,
}

/// One decoded control message, described without naming who speaks it.
#[derive(Debug, Clone)]
pub struct ControlMessage {
    /// The verb, as the relay spells it.
    pub command: Option<String>,
    /// The call the message names, where it names one.
    pub call_id: Option<String>,
    /// How much SDP the message carries, where it carries any.
    pub sdp_bytes: Option<usize>,
}

/// A decoded control datagram and everything known about how it arrived.
#[derive(Debug, Clone)]
pub struct DecodedControl {
    /// Which path carried it.
    pub delivery: ControlDelivery,
    /// What it said.
    pub message: ControlMessage,
    /// The correlation identifier, which names the call on a reply.
    pub correlation_id: Option<String>,
    /// Whether it landed on a port a sniffed mirror is believed on; `None`
    /// where the question does not apply.
    pub on_believed_mirror_port: Option<bool>,
}

} // verus!
