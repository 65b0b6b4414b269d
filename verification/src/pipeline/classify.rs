//! What one packet is.
//!
//! Classification asks one question at a time, in a fixed order, and each
//! answer either settles the packet or leads to the next question. Whoever
//! drives it answers from the packet's bytes; the order, the gates and what
//! each answer means are here. The order is what keeps a name lookup, control
//! traffic of a relay, or a key exchange from being read as media.
use crate::net::IpAddr;
use crate::packet::Timestamp;
use crate::pipeline::icmp::TransportProto;
use crate::pipeline::links::{
    extract_sdp_links, link_views, links_of, InputOrigin, LinkView, SdpLink, SdpSession,
};
use crate::pipeline::skips::{
    port_in_range, portrange_warning, record_portrange_skip, record_ws_port_skip, service_port,
    ws_warning, PortrangeSkips, SkipState, WsPortSkips,
};
use vstd::prelude::*;

verus! {

/// One parsed packet, as far as classification reads it.
#[derive(Debug)]
pub struct ParsedPacket {
    /// Capture time.
    pub timestamp: Timestamp,
    /// Source address.
    pub src_addr: IpAddr,
    /// Destination address.
    pub dst_addr: IpAddr,
    /// Source port.
    pub src_port: u16,
    /// Destination port.
    pub dst_port: u16,
    /// Transport.
    pub transport: TransportProto,
    /// Transport payload.
    pub payload: Vec<u8>,
    /// Which source delivered it.
    pub input_origin: InputOrigin,
}

/// Options controlling which protocols are followed.
#[derive(Debug, Clone, Copy)]
pub struct PipelineOptions {
    /// Skip dialog tracking: a message is still classified, its SDP is not
    /// read for links, and no store is written.
    pub no_dialog: bool,
    /// Skip RTP and RTCP.
    pub no_rtp: bool,
    /// Consider SIP only where a port is in this range. Media is never gated.
    pub sip_portrange: Option<(u16, u16)>,
    /// Suppress the notice for a packet that looks like SIP and does not
    /// parse. It is dropped either way.
    pub quiet_bad_parse: bool,
}

impl Default for PipelineOptions {
    /// Follow everything, on every port, with notices.
    fn default() -> (r: Self)
        ensures
            !r.no_dialog,
            !r.no_rtp,
            r.sip_portrange is None,
            !r.quiet_bad_parse,
    {
        PipelineOptions {
            no_dialog: false,
            no_rtp: false,
            sip_portrange: None,
            quiet_bad_parse: false,
        }
    }
}

/// Optional media-decryption state: a context `S` that decrypts payloads, and
/// an extractor `D` that recovers keys from handshakes.
#[derive(Debug)]
pub struct MediaDecrypt<S, D> {
    /// Decrypts payloads.
    pub srtp: Option<S>,
    /// Recovers keys from handshakes.
    pub dtls: Option<D>,
}

impl<S, D> Default for MediaDecrypt<S, D> {
    /// No decryption.
    fn default() -> (r: Self)
        ensures
            r.srtp is None,
            r.dtls is None,
    {
        MediaDecrypt { srtp: None, dtls: None }
    }
}

/// What a packet turned out to be: a message `M` with links to media `X`,
/// reports `R`, or a header `H`. Nothing has touched a store yet.
#[derive(Debug)]
pub enum PacketAction<M, X, R, H> {
    /// Nothing to record.
    Nothing,
    /// A SIP message, and the stream links its SDP gives.
    Sip {
        /// The message.
        msg: M,
        /// Links to apply to streams.
        sdp_links: Vec<SdpLink<X>>,
    },
    /// Endpoints that a media relay asserted about its own allocation. No SIP
    /// message was observed.
    RelayControl {
        /// Links to apply to streams.
        sdp_links: Vec<SdpLink<X>>,
    },
    /// RTCP reports.
    Rtcp(R),
    /// An RTP packet.
    Rtp {
        /// Its header.
        hdr: H,
        /// Its payload, where it was decrypted.
        decrypted_payload: Option<Vec<u8>>,
        /// Whether the packet was recognized by the heuristic over several
        /// packets rather than by itself.
        via_heuristic: bool,
    },
}

/// What a packet turned out to be, as plain values.
pub ghost enum ActionView<M, X, R, H> {
    /// Nothing to record.
    Nothing,
    /// A message and its links.
    Sip(M, Seq<LinkView<X>>),
    /// A relay's links.
    RelayControl(Seq<LinkView<X>>),
    /// Reports.
    Rtcp(R),
    /// A header, a decrypted payload, and whether the heuristic found it.
    Rtp(H, Option<Vec<u8>>, bool),
}

impl<M, X, R, H> View for PacketAction<M, X, R, H> {
    type V = ActionView<M, X, R, H>;

    open spec fn view(&self) -> ActionView<M, X, R, H> {
        match *self {
            PacketAction::Nothing => ActionView::Nothing,
            PacketAction::Sip { msg, sdp_links } => ActionView::Sip(msg, link_views(sdp_links@)),
            PacketAction::RelayControl { sdp_links } => ActionView::RelayControl(
                link_views(sdp_links@),
            ),
            PacketAction::Rtcp(r) => ActionView::Rtcp(r),
            PacketAction::Rtp { hdr, decrypted_payload, via_heuristic } => ActionView::Rtp(
                hdr,
                decrypted_payload,
                via_heuristic,
            ),
        }
    }
}

/// A packet type of RTCP: 192 to 223, the range kept clear of RTP payload
/// types so that the two can share a port.
pub open spec fn rtcp_type(pt: u8) -> bool {
    192 <= pt <= 223
}

/// Whether the first RTCP packet declares at least one word beyond its header
/// and fits inside the datagram.
pub open spec fn frames_packet(data: Seq<u8>) -> bool {
    let words = data[2] * 256 + data[3];
    words > 0 && (words + 1) * 4 <= data.len()
}

/// Whether a UDP payload looks like RTCP, by one of two conventions. On an odd
/// port, kept for RTCP alone, a type from 200 to 204 is enough. On any port,
/// as one may be shared with RTP, the whole range of types counts where the
/// length agrees.
pub open spec fn looks_like_rtcp(data: Seq<u8>, dst_port: u16) -> bool {
    &&& data.len() >= 8
    &&& data[0] / 64 == 2
    &&& rtcp_type(data[1])
    &&& (dst_port % 2 == 1 && 200 <= data[1] <= 204) || frames_packet(data)
}

/// Whether the first RTCP packet's length frames within the datagram.
fn rtcp_length_frames_packet(data: &[u8]) -> (r: bool)
    requires
        data@.len() >= 4,
    ensures
        r == frames_packet(data@),
{
    let words: usize = data[2] as usize * 256 + data[3] as usize;
    if words == 0 {
        return false;
    }
    (words + 1) * 4 <= data.len()
}

/// Check if a UDP payload looks like RTCP.
pub fn is_rtcp_packet(data: &[u8], dst_port: u16) -> (r: bool)
    ensures
        r == looks_like_rtcp(data@, dst_port),
{
    if data.len() < 8 {
        return false;
    }
    if data[0] / 64 != 2 {
        return false;
    }
    if !(192 <= data[1] && data[1] <= 223) {
        return false;
    }
    if dst_port % 2 == 1 && 200 <= data[1] && data[1] <= 204 {
        return true;
    }
    rtcp_length_frames_packet(data)
}

/// What a WebSocket layer made of a payload.
#[derive(Debug)]
pub struct WsFrame {
    /// What the data frame holds; `None` where the payload is no data frame or
    /// cannot be unwrapped.
    pub unwrapped: Option<Vec<u8>>,
    /// Whether what it holds begins a SIP message.
    pub starts_sip: bool,
    /// Whether one of the packet's ports is in the configured set.
    pub on_ws_port: bool,
    /// The configured set, described.
    pub configured: String,
}

/// Whether a frame carries SIP over TCP.
pub open spec fn carries_sip(transport: TransportProto, frame: WsFrame) -> bool {
    transport == TransportProto::Tcp && frame.unwrapped is Some && frame.starts_sip
}

/// Try to unwrap a WebSocket frame from a TCP packet. A frame that unwraps to
/// SIP on a port outside the set is counted instead: the port decides last.
pub fn try_websocket_unwrap(pp: &ParsedPacket, frame: WsFrame, skips: &mut WsPortSkips) -> (r: (
    Option<Vec<u8>>,
    Option<String>,
))
    requires
        old(skips).tally@.valid(),
        old(skips).tally@.messages < u64::MAX,
    ensures
        final(skips).tally@.valid(),
        carries_sip(pp.transport, frame) && frame.on_ws_port ==> r.0 == frame.unwrapped,
        !(carries_sip(pp.transport, frame) && frame.on_ws_port) ==> r.0 is None,
        carries_sip(pp.transport, frame) && !frame.on_ws_port ==> final(skips).tally@ == old(
            skips,
        ).tally@.skips(service_port(pp.src_port, pp.dst_port, frame.unwrapped->0@)) && (r.1 is Some
            <==> old(skips).tally@.messages + 1 >= old(skips).tally@.next_warn) && (
        r.1 matches Some(text) ==> text@ == ws_warning(frame.configured@, final(skips).tally@)),
        !(carries_sip(pp.transport, frame) && !frame.on_ws_port) ==> final(skips).tally@ == old(
            skips,
        ).tally@ && r.1 is None,
{
    match pp.transport {
        TransportProto::Tcp => {},
        _ => {
            return (None, None);
        },
    }
    let payload = match frame.unwrapped {
        None => {
            return (None, None);
        },
        Some(p) => p,
    };
    if !frame.starts_sip {
        return (None, None);
    }
    if !frame.on_ws_port {
        let warning = record_ws_port_skip(
            skips,
            pp.src_port,
            pp.dst_port,
            &payload,
            frame.configured.as_str(),
        );
        return (None, warning);
    }
    (Some(payload), None)
}

/// A message that parsed, and the SDP it carries for a call it names.
#[derive(Debug)]
pub struct ParsedSip<M, X> {
    /// The message.
    pub msg: M,
    /// Its SDP and its `Call-ID`, where it has both.
    pub sdp: Option<(SdpSession<X>, String)>,
}

/// What has to be found out about a packet next.
#[derive(Debug, Clone, Copy, PartialEq, Eq, Structural)]
pub enum Question {
    /// What a WebSocket layer makes of the payload.
    WebSocket,
    /// Whether the payload begins a SIP message.
    StartsSip,
    /// What the payload is as a SIP message.
    ParseSip,
    /// Whether the payload is a name lookup on the local link. If so, what it
    /// says is to be kept.
    Llmnr,
    /// What links a relay's control message gives that was delivered here.
    DeliveredRelay,
    /// What links a relay's control message gives that was seen on its way
    /// elsewhere.
    SniffedRelay,
    /// Whether the payload is a handshake. If so, its keys are to be kept.
    Dtls,
    /// What the payload relays, where it is a relay's channel data.
    ChannelData,
    /// Whether the payload is a STUN message. If so, it is to be noted.
    Stun,
    /// What reports the payload holds.
    Rtcp,
    /// What the payload is as RTP by itself, decrypted where a key fits.
    StrictRtp,
    /// What the payload is as RTP by the packets before it.
    Heuristic,
}

/// The answer to a question.
#[derive(Debug)]
pub enum Reply<M, X, R, H> {
    /// What the WebSocket layer made of the payload.
    WebSocket(WsFrame),
    /// Whether the payload begins a SIP message.
    StartsSip(bool),
    /// The message, or `None` where it does not parse.
    ParseSip(Option<ParsedSip<M, X>>),
    /// Whether the payload is a name lookup.
    Llmnr(bool),
    /// The links of a control message, or `None` where the payload is none.
    DeliveredRelay(Option<Vec<SdpLink<X>>>),
    /// The links of a control message, or `None` where the payload is none.
    SniffedRelay(Option<Vec<SdpLink<X>>>),
    /// Whether the payload is a handshake.
    Dtls(bool),
    /// The payload inside, or `None` where the payload is no channel data.
    ChannelData(Option<Vec<u8>>),
    /// Whether the payload is a STUN message.
    Stun(bool),
    /// The reports, or `None` where there are none.
    Rtcp(Option<R>),
    /// The header, with the decrypted payload where a key fits.
    StrictRtp(Option<(H, Option<Vec<u8>>)>),
    /// The header.
    Heuristic(Option<H>),
}

/// Whether a reply answers a question.
pub open spec fn answers<M, X, R, H>(q: Question, r: Reply<M, X, R, H>) -> bool {
    match q {
        Question::WebSocket => r is WebSocket,
        Question::StartsSip => r is StartsSip,
        Question::ParseSip => r is ParseSip,
        Question::Llmnr => r is Llmnr,
        Question::DeliveredRelay => r is DeliveredRelay,
        Question::SniffedRelay => r is SniffedRelay,
        Question::Dtls => r is Dtls,
        Question::ChannelData => r is ChannelData,
        Question::Stun => r is Stun,
        Question::Rtcp => r is Rtcp,
        Question::StrictRtp => r is StrictRtp,
        Question::Heuristic => r is Heuristic,
    }
}

/// How classification goes on.
#[derive(Debug)]
pub enum Step<M, X, R, H> {
    /// Find this out.
    Ask(Question),
    /// The packet is settled. Where `report_bad_parse` is set, say that it
    /// looked like SIP and did not parse.
    Done {
        /// What it is.
        action: PacketAction<M, X, R, H>,
        /// Whether to say so.
        report_bad_parse: bool,
    },
    /// The packet relays this payload: classify it with this one in place of
    /// its own.
    Inside(Vec<u8>),
}

/// How classification goes on, as plain values.
pub ghost enum StepView<M, X, R, H> {
    /// Find this out.
    Ask(Question),
    /// The packet is settled.
    Done(ActionView<M, X, R, H>, bool),
    /// The packet relays this payload.
    Inside(Vec<u8>),
}

impl<M, X, R, H> View for Step<M, X, R, H> {
    type V = StepView<M, X, R, H>;

    open spec fn view(&self) -> StepView<M, X, R, H> {
        match *self {
            Step::Ask(q) => StepView::Ask(q),
            Step::Done { action, report_bad_parse } => StepView::Done(action@, report_bad_parse),
            Step::Inside(inner) => StepView::Inside(inner),
        }
    }
}

/// Whether a packet's ports let its SIP be considered.
pub open spec fn sip_port_ok(pp: ParsedPacket, opts: PipelineOptions) -> bool {
    match opts.sip_portrange {
        Some((lo, hi)) => lo <= pp.src_port <= hi || lo <= pp.dst_port <= hi,
        None => true,
    }
}

/// Whether a packet runs on a system port, where a payload alone does not
/// make it media.
pub open spec fn on_system_port(pp: ParsedPacket) -> bool {
    pp.src_port < 1024 || pp.dst_port < 1024
}

/// The first question about a packet.
pub open spec fn first_question(pp: ParsedPacket) -> Question {
    if pp.transport == TransportProto::Tcp {
        Question::WebSocket
    } else {
        Question::StartsSip
    }
}

/// How it goes on once a packet is not SIP: only UDP carries what follows.
pub open spec fn after_sip<M, X, R, H>(pp: ParsedPacket) -> StepView<M, X, R, H> {
    if pp.transport == TransportProto::Udp {
        StepView::Ask(Question::Llmnr)
    } else {
        StepView::Done(ActionView::Nothing, false)
    }
}

/// How it goes on once a packet is no STUN message.
pub open spec fn after_stun<M, X, R, H>(pp: ParsedPacket) -> StepView<M, X, R, H> {
    if looks_like_rtcp(pp.payload@, pp.dst_port) {
        StepView::Ask(Question::Rtcp)
    } else if on_system_port(pp) {
        StepView::Ask(Question::Heuristic)
    } else {
        StepView::Ask(Question::StrictRtp)
    }
}

/// The links of a message, where they are wanted.
pub open spec fn message_links<M, X>(p: ParsedSip<M, X>, no_dialog: bool) -> Seq<LinkView<X>> {
    match p.sdp {
        Some((sdp, call_id)) => if no_dialog {
            seq![]
        } else {
            links_of(sdp.media@, sdp.connection, call_id@)
        },
        None => seq![],
    }
}

/// What an answer means.
pub open spec fn transition<M, X, R, H>(
    pp: ParsedPacket,
    opts: PipelineOptions,
    reply: Reply<M, X, R, H>,
) -> StepView<M, X, R, H> {
    match reply {
        Reply::WebSocket(_) => StepView::Ask(Question::StartsSip),
        Reply::StartsSip(yes) => if yes && sip_port_ok(pp, opts) {
            StepView::Ask(Question::ParseSip)
        } else {
            after_sip(pp)
        },
        Reply::ParseSip(Some(p)) => StepView::Done(
            ActionView::Sip(p.msg, message_links(p, opts.no_dialog)),
            false,
        ),
        Reply::ParseSip(None) => StepView::Done(ActionView::Nothing, !opts.quiet_bad_parse),
        Reply::Llmnr(yes) => if yes {
            StepView::Done(ActionView::Nothing, false)
        } else {
            StepView::Ask(Question::DeliveredRelay)
        },
        Reply::DeliveredRelay(Some(links)) => StepView::Done(
            ActionView::RelayControl(link_views(links@)),
            false,
        ),
        Reply::DeliveredRelay(None) => StepView::Ask(Question::SniffedRelay),
        Reply::SniffedRelay(Some(links)) => StepView::Done(
            ActionView::RelayControl(link_views(links@)),
            false,
        ),
        Reply::SniffedRelay(None) => if opts.no_rtp {
            StepView::Done(ActionView::Nothing, false)
        } else {
            StepView::Ask(Question::Dtls)
        },
        Reply::Dtls(yes) => if yes {
            StepView::Done(ActionView::Nothing, false)
        } else {
            StepView::Ask(Question::ChannelData)
        },
        Reply::ChannelData(Some(inner)) => StepView::Inside(inner),
        Reply::ChannelData(None) => StepView::Ask(Question::Stun),
        Reply::Stun(yes) => if yes {
            StepView::Done(ActionView::Nothing, false)
        } else {
            after_stun(pp)
        },
        Reply::Rtcp(Some(r)) => StepView::Done(ActionView::Rtcp(r), false),
        Reply::Rtcp(None) => StepView::Done(ActionView::Nothing, false),
        Reply::StrictRtp(Some((hdr, decrypted))) => StepView::Done(
            ActionView::Rtp(hdr, decrypted, false),
            false,
        ),
        Reply::StrictRtp(None) => StepView::Ask(Question::Heuristic),
        Reply::Heuristic(Some(hdr)) => StepView::Done(ActionView::Rtp(hdr, None, true), false),
        Reply::Heuristic(None) => StepView::Done(ActionView::Nothing, false),
    }
}

/// What is counted while packets are classified.
#[derive(Debug)]
pub struct SkipTallies {
    /// SIP outside the port range.
    pub portrange: PortrangeSkips,
    /// SIP-over-WebSocket outside the port set.
    pub ws: WsPortSkips,
}

impl SkipTallies {
    /// Whether both tallies add up and can count on.
    pub open spec fn ready(self) -> bool {
        &&& self.portrange.tally@.valid()
        &&& self.portrange.tally@.messages < u64::MAX
        &&& self.ws.tally@.valid()
        &&& self.ws.tally@.messages < u64::MAX
    }

    /// Nothing skipped.
    pub fn new() -> (r: Self)
        ensures
            r.ready(),
            r.portrange.tally@ == SkipState::none(),
            r.ws.tally@ == SkipState::none(),
    {
        SkipTallies { portrange: PortrangeSkips::new(), ws: WsPortSkips::new() }
    }
}

/// One packet being classified: it keeps what a WebSocket frame unwrapped to.
#[derive(Debug)]
pub struct Classification {
    ws_payload: Option<Vec<u8>>,
}

/// A step, and a warning to pass on where one is due.
#[derive(Debug)]
pub struct Stepped<M, X, R, H> {
    /// How classification goes on.
    pub step: Step<M, X, R, H>,
    /// The warning.
    pub warning: Option<String>,
}

/// The port-range tally after an answer: it moves only where SIP is found
/// outside the range.
pub open spec fn portrange_after<M, X, R, H>(
    s: SkipState,
    pp: ParsedPacket,
    opts: PipelineOptions,
    payload: Seq<u8>,
    reply: Reply<M, X, R, H>,
) -> SkipState {
    if reply matches Reply::StartsSip(true) && !sip_port_ok(pp, opts) {
        s.skips(service_port(pp.src_port, pp.dst_port, payload))
    } else {
        s
    }
}

/// The WebSocket tally after an answer: it moves only where a frame carries
/// SIP outside the set.
pub open spec fn ws_after<M, X, R, H>(
    s: SkipState,
    pp: ParsedPacket,
    reply: Reply<M, X, R, H>,
) -> SkipState {
    if reply matches Reply::WebSocket(f) && carries_sip(pp.transport, f) && !f.on_ws_port {
        s.skips(service_port(pp.src_port, pp.dst_port, reply->WebSocket_0.unwrapped->0@))
    } else {
        s
    }
}

/// Begin to classify one packet: the state, and the first question.
pub fn classify_packet(pp: &ParsedPacket) -> (r: (Classification, Question))
    ensures
        r.0.ws() is None,
        r.1 == first_question(*pp),
{
    let question = match pp.transport {
        TransportProto::Tcp => Question::WebSocket,
        _ => Question::StartsSip,
    };
    (Classification { ws_payload: None }, question)
}

impl Classification {
    /// What a WebSocket frame unwrapped to.
    pub closed spec fn ws(self) -> Option<Vec<u8>> {
        self.ws_payload
    }

    /// The payload that SIP is looked for in.
    pub open spec fn sip_payload(self, pp: ParsedPacket) -> Seq<u8> {
        match self.ws() {
            Some(p) => p@,
            None => pp.payload@,
        }
    }

    /// The payload that SIP is looked for in: an unwrapped frame, or the
    /// packet's own.
    pub fn effective_payload<'a>(&'a self, pp: &'a ParsedPacket) -> (r: &'a Vec<u8>)
        ensures
            r@ == self.sip_payload(*pp),
    {
        match &self.ws_payload {
            Some(p) => p,
            None => &pp.payload,
        }
    }

    /// The transport that a message is said to have come over.
    pub fn effective_transport(&self, pp: &ParsedPacket) -> (r: TransportProto)
        ensures
            r == if self.ws() is Some {
                TransportProto::Ws
            } else {
                pp.transport
            },
    {
        match &self.ws_payload {
            Some(_) => TransportProto::Ws,
            None => pp.transport,
        }
    }

    /// Take in the answer to a question and say how it goes on.
    pub fn answer<M, X, R, H>(
        &mut self,
        pp: &ParsedPacket,
        opts: &PipelineOptions,
        reply: Reply<M, X, R, H>,
        skips: &mut SkipTallies,
    ) -> (r: Stepped<M, X, R, H>)
        requires
            old(skips).ready(),
        ensures
            r.step@ == transition(*pp, *opts, reply),
            final(skips).portrange.tally@ == portrange_after(
                old(skips).portrange.tally@,
                *pp,
                *opts,
                old(self).sip_payload(*pp),
                reply,
            ),
            final(skips).ws.tally@ == ws_after(old(skips).ws.tally@, *pp, reply),
            final(skips).portrange.tally@.valid(),
            final(skips).ws.tally@.valid(),
            final(self).ws() == if reply is WebSocket {
                if carries_sip(pp.transport, reply->WebSocket_0)
                    && reply->WebSocket_0.on_ws_port {
                    reply->WebSocket_0.unwrapped
                } else {
                    None
                }
            } else {
                old(self).ws()
            },
            match reply {
                Reply::WebSocket(f) => {
                    &&& r.warning is Some <==> carries_sip(pp.transport, f) && !f.on_ws_port && old(
                        skips,
                    ).ws.tally@.messages + 1 >= old(skips).ws.tally@.next_warn
                    &&& r.warning matches Some(text) ==> text@ == ws_warning(
                        f.configured@,
                        final(skips).ws.tally@,
                    )
                },
                Reply::StartsSip(yes) => {
                    &&& r.warning is Some <==> yes && !sip_port_ok(*pp, *opts) && old(
                        skips,
                    ).portrange.tally@.messages + 1 >= old(skips).portrange.tally@.next_warn
                    &&& r.warning matches Some(text) ==> text@ == portrange_warning(
                        opts.sip_portrange->0,
                        final(skips).portrange.tally@,
                    )
                },
                _ => r.warning is None,
            },
    {
        match reply {
            Reply::WebSocket(frame) => {
                let (payload, warning) = try_websocket_unwrap(pp, frame, &mut skips.ws);
                self.ws_payload = payload;
                Stepped { step: Step::Ask(Question::StartsSip), warning }
            },
            Reply::StartsSip(yes) => self.settle_sip(pp, opts, yes, skips),
            Reply::ParseSip(parsed) => {
                let step = match parsed {
                    Some(p) => settle_message(p, opts.no_dialog),
                    None => Step::Done {
                        action: PacketAction::Nothing,
                        report_bad_parse: !opts.quiet_bad_parse,
                    },
                };
                Stepped { step, warning: None }
            },
            other => Stepped { step: settle_datagram(pp, opts, other), warning: None },
        }
    }

    /// What it means that a payload begins a SIP message, or does not.
    fn settle_sip<M, X, R, H>(
        &self,
        pp: &ParsedPacket,
        opts: &PipelineOptions,
        yes: bool,
        skips: &mut SkipTallies,
    ) -> (r: Stepped<M, X, R, H>)
        requires
            old(skips).ready(),
        ensures
            r.step@ == transition::<M, X, R, H>(*pp, *opts, Reply::StartsSip(yes)),
            final(skips).portrange.tally@ == portrange_after::<M, X, R, H>(
                old(skips).portrange.tally@,
                *pp,
                *opts,
                self.sip_payload(*pp),
                Reply::StartsSip(yes),
            ),
            final(skips).portrange.tally@.valid(),
            final(skips).ws == old(skips).ws,
            r.warning is Some <==> yes && !sip_port_ok(*pp, *opts) && old(
                skips,
            ).portrange.tally@.messages + 1 >= old(skips).portrange.tally@.next_warn,
            r.warning matches Some(text) ==> text@ == portrange_warning(
                opts.sip_portrange->0,
                final(skips).portrange.tally@,
            ),
    {
        let mut port_ok: bool = true;
        let mut warning: Option<String> = None;
        if let Some(range) = opts.sip_portrange {
            port_ok = port_in_range(pp.src_port, pp.dst_port, range);
            if !port_ok && yes {
                let payload = self.effective_payload(pp);
                warning = record_portrange_skip(
                    &mut skips.portrange,
                    pp.src_port,
                    pp.dst_port,
                    payload,
                    range,
                );
            }
        }
        let step = if yes && port_ok {
            Step::Ask(Question::ParseSip)
        } else {
            match pp.transport {
                TransportProto::Udp => Step::Ask(Question::Llmnr),
                _ => Step::Done { action: PacketAction::Nothing, report_bad_parse: false },
            }
        };
        Stepped { step, warning }
    }
}

/// The end of a message that parsed.
fn settle_message<M, X, R, H>(p: ParsedSip<M, X>, no_dialog: bool) -> (r: Step<M, X, R, H>)
    ensures
        r@ == StepView::<M, X, R, H>::Done(
            ActionView::Sip(p.msg, message_links(p, no_dialog)),
            false,
        ),
{
    let ghost wanted = message_links(p, no_dialog);
    let sdp_links: Vec<SdpLink<X>> = match p.sdp {
        Some((sdp, call_id)) => if no_dialog {
            Vec::new()
        } else {
            extract_sdp_links(sdp, call_id.as_str())
        },
        None => Vec::new(),
    };
    assert(link_views(sdp_links@) =~= wanted);
    Step::Done { action: PacketAction::Sip { msg: p.msg, sdp_links }, report_bad_parse: false }
}

/// What an answer about a datagram that is not SIP means.
fn settle_datagram<M, X, R, H>(
    pp: &ParsedPacket,
    opts: &PipelineOptions,
    reply: Reply<M, X, R, H>,
) -> (r: Step<M, X, R, H>)
    requires
        !(reply is WebSocket),
        !(reply is StartsSip),
        !(reply is ParseSip),
    ensures
        r@ == transition(*pp, *opts, reply),
{
    match reply {
        Reply::Llmnr(true) => nothing(),
        Reply::Llmnr(false) => Step::Ask(Question::DeliveredRelay),
        Reply::DeliveredRelay(Some(sdp_links)) => Step::Done {
            action: PacketAction::RelayControl { sdp_links },
            report_bad_parse: false,
        },
        Reply::DeliveredRelay(None) => Step::Ask(Question::SniffedRelay),
        Reply::SniffedRelay(Some(sdp_links)) => Step::Done {
            action: PacketAction::RelayControl { sdp_links },
            report_bad_parse: false,
        },
        Reply::SniffedRelay(None) => if opts.no_rtp {
            nothing()
        } else {
            Step::Ask(Question::Dtls)
        },
        Reply::Dtls(true) => nothing(),
        Reply::Dtls(false) => Step::Ask(Question::ChannelData),
        Reply::ChannelData(Some(inner)) => Step::Inside(inner),
        Reply::ChannelData(None) => Step::Ask(Question::Stun),
        Reply::Stun(true) => nothing(),
        Reply::Stun(false) => if is_rtcp_packet(&pp.payload, pp.dst_port) {
            Step::Ask(Question::Rtcp)
        } else if pp.src_port < 1024 || pp.dst_port < 1024 {
            Step::Ask(Question::Heuristic)
        } else {
            Step::Ask(Question::StrictRtp)
        },
        Reply::Rtcp(Some(reports)) => Step::Done {
            action: PacketAction::Rtcp(reports),
            report_bad_parse: false,
        },
        Reply::Rtcp(None) => nothing(),
        Reply::StrictRtp(Some((hdr, decrypted_payload))) => Step::Done {
            action: PacketAction::Rtp { hdr, decrypted_payload, via_heuristic: false },
            report_bad_parse: false,
        },
        Reply::StrictRtp(None) => Step::Ask(Question::Heuristic),
        Reply::Heuristic(Some(hdr)) => Step::Done {
            action: PacketAction::Rtp { hdr, decrypted_payload: None, via_heuristic: true },
            report_bad_parse: false,
        },
        _ => nothing(),
    }
}

/// The packet is settled, and there is nothing to record.
fn nothing<M, X, R, H>() -> (r: Step<M, X, R, H>)
    ensures
        r@ == StepView::<M, X, R, H>::Done(ActionView::Nothing, false),
{
    Step::Done { action: PacketAction::Nothing, report_bad_parse: false }
}

/// Everything that can be found out about one packet.
pub ghost struct Facts<M, X, R, H> {
    /// What a WebSocket layer makes of the payload.
    pub ws: WsFrame,
    /// Whether the payload begins a SIP message.
    pub starts_sip: bool,
    /// The message, where it parses.
    pub sip: Option<ParsedSip<M, X>>,
    /// Whether it is a name lookup.
    pub llmnr: bool,
    /// Links of a control message delivered here.
    pub delivered: Option<Vec<SdpLink<X>>>,
    /// Links of a control message seen on its way elsewhere.
    pub sniffed: Option<Vec<SdpLink<X>>>,
    /// Whether it is a handshake.
    pub dtls: bool,
    /// What it relays.
    pub inner: Option<Vec<u8>>,
    /// Whether it is a STUN message.
    pub stun: bool,
    /// Its reports.
    pub rtcp: Option<R>,
    /// What it is as RTP by itself.
    pub strict: Option<(H, Option<Vec<u8>>)>,
    /// What it is as RTP by the packets before it.
    pub heuristic: Option<H>,
}

/// The answer that the facts give to a question.
pub open spec fn reply_of<M, X, R, H>(f: Facts<M, X, R, H>, q: Question) -> Reply<M, X, R, H> {
    match q {
        Question::WebSocket => Reply::WebSocket(f.ws),
        Question::StartsSip => Reply::StartsSip(f.starts_sip),
        Question::ParseSip => Reply::ParseSip(f.sip),
        Question::Llmnr => Reply::Llmnr(f.llmnr),
        Question::DeliveredRelay => Reply::DeliveredRelay(f.delivered),
        Question::SniffedRelay => Reply::SniffedRelay(f.sniffed),
        Question::Dtls => Reply::Dtls(f.dtls),
        Question::ChannelData => Reply::ChannelData(f.inner),
        Question::Stun => Reply::Stun(f.stun),
        Question::Rtcp => Reply::Rtcp(f.rtcp),
        Question::StrictRtp => Reply::StrictRtp(f.strict),
        Question::Heuristic => Reply::Heuristic(f.heuristic),
    }
}

/// How many questions can still follow.
pub open spec fn questions_left(q: Question) -> nat {
    match q {
        Question::WebSocket => 11,
        Question::StartsSip => 10,
        Question::ParseSip => 0,
        Question::Llmnr => 9,
        Question::DeliveredRelay => 8,
        Question::SniffedRelay => 7,
        Question::Dtls => 6,
        Question::ChannelData => 5,
        Question::Stun => 4,
        Question::Rtcp => 0,
        Question::StrictRtp => 2,
        Question::Heuristic => 1,
    }
}

/// Where asking leads from a question on, under given facts.
pub open spec fn asked_out<M, X, R, H>(
    pp: ParsedPacket,
    opts: PipelineOptions,
    f: Facts<M, X, R, H>,
    q: Question,
) -> StepView<M, X, R, H>
    decreases questions_left(q),
{
    match transition(pp, opts, reply_of(f, q)) {
        StepView::Ask(next) => if questions_left(next) < questions_left(q) {
            asked_out(pp, opts, f, next)
        } else {
            StepView::Ask(next)
        },
        end => end,
    }
}

/// What a packet is, under given facts: the first of these that holds.
pub open spec fn verdict<M, X, R, H>(
    pp: ParsedPacket,
    opts: PipelineOptions,
    f: Facts<M, X, R, H>,
) -> StepView<M, X, R, H> {
    let udp = pp.transport == TransportProto::Udp;
    if f.starts_sip && sip_port_ok(pp, opts) {
        match f.sip {
            Some(p) => StepView::Done(
                ActionView::Sip(p.msg, message_links(p, opts.no_dialog)),
                false,
            ),
            None => StepView::Done(ActionView::Nothing, !opts.quiet_bad_parse),
        }
    } else if !udp || f.llmnr {
        StepView::Done(ActionView::Nothing, false)
    } else if f.delivered is Some {
        StepView::Done(ActionView::RelayControl(link_views(f.delivered->0@)), false)
    } else if f.sniffed is Some {
        StepView::Done(ActionView::RelayControl(link_views(f.sniffed->0@)), false)
    } else if opts.no_rtp || f.dtls {
        StepView::Done(ActionView::Nothing, false)
    } else if f.inner is Some {
        StepView::Inside(f.inner->0)
    } else if f.stun {
        StepView::Done(ActionView::Nothing, false)
    } else if looks_like_rtcp(pp.payload@, pp.dst_port) {
        match f.rtcp {
            Some(r) => StepView::Done(ActionView::Rtcp(r), false),
            None => StepView::Done(ActionView::Nothing, false),
        }
    } else if !on_system_port(pp) && f.strict is Some {
        let (hdr, decrypted) = f.strict->0;
        StepView::Done(ActionView::Rtp(hdr, decrypted, false), false)
    } else {
        match f.heuristic {
            Some(hdr) => StepView::Done(ActionView::Rtp(hdr, None, true), false),
            None => StepView::Done(ActionView::Nothing, false),
        }
    }
}

/// Asking the questions in turn settles every packet, and settles it as what
/// it is by the order of precedence.
pub proof fn asking_settles_every_packet<M, X, R, H>(
    pp: ParsedPacket,
    opts: PipelineOptions,
    f: Facts<M, X, R, H>,
)
    ensures
        asked_out(pp, opts, f, first_question(pp)) == verdict(pp, opts, f),
        !(verdict(pp, opts, f) is Ask),
{
    reveal_with_fuel(asked_out, 12);
}

/// A name lookup is never media: it is claimed before any media check, whatever
/// else its bytes look like.
pub proof fn a_name_lookup_is_never_media<M, X, R, H>(
    pp: ParsedPacket,
    opts: PipelineOptions,
    f: Facts<M, X, R, H>,
)
    requires
        pp.transport == TransportProto::Udp,
        f.llmnr,
        !f.starts_sip,
    ensures
        verdict(pp, opts, f) == StepView::<M, X, R, H>::Done(ActionView::Nothing, false),
{
}

/// On a system port no single packet becomes media: only the heuristic over
/// several packets can make it so.
pub proof fn a_system_port_needs_the_heuristic<M, X, R, H>(
    pp: ParsedPacket,
    opts: PipelineOptions,
    f: Facts<M, X, R, H>,
)
    requires
        on_system_port(pp),
    ensures
        verdict(pp, opts, f) matches StepView::Done(ActionView::Rtp(h, p, via_heuristic), b) ==>
            via_heuristic && f.heuristic == Some(h) && p is None,
{
}

/// With media opted out, no packet is media.
pub proof fn no_media_where_it_is_opted_out<M, X, R, H>(
    pp: ParsedPacket,
    opts: PipelineOptions,
    f: Facts<M, X, R, H>,
)
    requires
        opts.no_rtp,
    ensures
        verdict(pp, opts, f) matches StepView::Done(a, b) && !(a is Rtp) && !(a is Rtcp),
{
}

/// Keeping quiet about packets that do not parse never changes what a packet
/// is.
pub proof fn quiet_changes_no_verdict<M, X, R, H>(
    pp: ParsedPacket,
    opts: PipelineOptions,
    quiet: PipelineOptions,
    f: Facts<M, X, R, H>,
)
    requires
        quiet == (PipelineOptions { quiet_bad_parse: true, ..opts }),
    ensures
        verdict(pp, opts, f) matches StepView::Done(a, b) ==> (verdict(
            pp,
            quiet,
            f,
        ) matches StepView::Done(a2, b2) && a2 == a && !b2),
        verdict(pp, opts, f) is Inside ==> verdict(pp, quiet, f) == verdict(pp, opts, f),
{
}

/// The port range gates signaling only: where a packet does not begin a SIP
/// message, the range changes nothing.
pub proof fn the_port_range_gates_signaling_only<M, X, R, H>(
    pp: ParsedPacket,
    opts: PipelineOptions,
    ungated: PipelineOptions,
    f: Facts<M, X, R, H>,
)
    requires
        ungated == (PipelineOptions { sip_portrange: None, ..opts }),
        !f.starts_sip,
    ensures
        verdict(pp, opts, f) == verdict(pp, ungated, f),
{
}

/// A packet with another payload.
pub open spec fn with_payload(pp: ParsedPacket, payload: Vec<u8>) -> ParsedPacket {
    ParsedPacket { payload, ..pp }
}

/// What a packet is in the end, under what can be found out about each payload:
/// where it relays another payload, what it is with that one in place of its
/// own.
pub open spec fn settled<M, X, R, H>(
    pp: ParsedPacket,
    opts: PipelineOptions,
    facts: spec_fn(Seq<u8>) -> Facts<M, X, R, H>,
) -> StepView<M, X, R, H>
    decreases pp.payload@.len(),
{
    match verdict(pp, opts, facts(pp.payload@)) {
        StepView::Inside(inner) => if inner@.len() < pp.payload@.len() {
            settled(with_payload(pp, inner), opts, facts)
        } else {
            StepView::Inside(inner)
        },
        end => end,
    }
}

/// Whether a payload is channel data that holds another, and nothing that is
/// looked for earlier.
pub open spec fn only_relays<M, X, R, H>(f: Facts<M, X, R, H>, inner: Vec<u8>) -> bool {
    &&& !f.starts_sip
    &&& !f.llmnr
    &&& f.delivered is None
    &&& f.sniffed is None
    &&& !f.dtls
    &&& f.inner == Some(inner)
}

/// Relayed media is what it wraps: a datagram that holds another as channel
/// data is whatever the other one is by itself between the same endpoints. So
/// RTP that is recognized by itself is recognized when it is relayed, with the
/// same header.
pub proof fn relayed_media_is_what_it_wraps<M, X, R, H>(
    bare: ParsedPacket,
    wrapped: ParsedPacket,
    opts: PipelineOptions,
    facts: spec_fn(Seq<u8>) -> Facts<M, X, R, H>,
)
    requires
        bare.transport == TransportProto::Udp,
        !opts.no_rtp,
        wrapped == with_payload(bare, wrapped.payload),
        bare.payload@.len() < wrapped.payload@.len(),
        only_relays(facts(wrapped.payload@), bare.payload),
    ensures
        settled(wrapped, opts, facts) == settled(bare, opts, facts),
        verdict(bare, opts, facts(bare.payload@)) matches StepView::Done(action, report) ==> settled(
            wrapped,
            opts,
            facts,
        ) == StepView::Done(action, report),
{
    assert(with_payload(wrapped, bare.payload) == bare);
}

} // verus!
