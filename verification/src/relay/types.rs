//! What a media relay's answer looks like, independent of which relay gave it.
use vstd::prelude::*;

verus! {

/// A command that only reads. There is no way to say anything else.
#[derive(Debug, Clone, PartialEq, Eq)]
pub enum ReadOnlyCommand {
    /// Every active Call-ID the relay knows, bounded by `limit`.
    List {
        /// How many Call-IDs to ask for.
        limit: u32,
    },
    /// One call's tags and streams.
    Query {
        /// The Call-ID to ask about.
        call_id: String,
    },
}

/// What a `list` answered, and whether it answered fully.
#[derive(Debug, Clone, PartialEq, Eq)]
pub struct Enumeration {
    /// The Call-IDs the relay returned.
    pub call_ids: Vec<String>,
    /// Whether the relay had more than it returned.
    pub truncated: bool,
}

/// What a relay answered, decoded from its reply. A refusal is not a transport
/// failure: the relay was reached, understood the question, and declined it.
#[derive(Debug, Clone, PartialEq, Eq)]
pub enum ControlReply {
    /// A `list` answer.
    Calls(Enumeration),
    /// A `query` answer: one call, as the relay holds it.
    Call(CallView),
    /// The relay refused, with its own words.
    Refused {
        /// What the relay said.
        reason: String,
    },
}

/// One relay-side port, and who the relay exchanges media with on it.
#[derive(Debug, Clone, PartialEq, Eq)]
pub struct RelayStream {
    /// The relay's own address for this stream, as it appears on the wire.
    pub local_address: String,
    /// The relay's own port.
    pub local_port: u16,
    /// Where the relay currently sends, once it has learned it.
    pub endpoint: Option<String>,
    /// What the far side advertised in SDP, which may differ from `endpoint`
    /// behind NAT.
    pub advertised_endpoint: Option<String>,
    /// Whether this port carries RTCP rather than RTP, from the relay's flags.
    pub is_rtcp: bool,
    /// Every SSRC the relay has seen on this port, ingress and egress.
    pub ssrcs: Vec<u32>,
}

/// One side of a call, as the relay holds it.
#[derive(Debug, Clone, PartialEq, Eq)]
pub struct RelayTag {
    /// The SIP tag identifying this side.
    pub tag: String,
    /// The tags this side exchanges media with.
    pub in_dialogue_with: Vec<String>,
    /// The codec the relay recorded for this side, where it recorded one.
    pub codec: Option<String>,
    /// Ports the relay holds for this side, RTP and RTCP together.
    pub streams: Vec<RelayStream>,
}

/// What a relay knows about one call.
#[derive(Debug, Clone, PartialEq, Eq)]
pub struct CallView {
    /// The Call-ID this view answers for, from the request.
    pub call_id: String,
    /// Each side of the call.
    pub tags: Vec<RelayTag>,
}

} // verus!
