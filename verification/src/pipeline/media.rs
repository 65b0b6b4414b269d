//! What ICMP said about media.
//!
//! A media datagram carries no `Call-ID`, so a quote of one is filed by the
//! quoted flow as it is read, and tied to streams once the run's streams are
//! complete. A quote never creates a stream. One that matches no stream is
//! still reported, with the endpoint that did not answer. What the payload is
//! and what it matched are kept apart.
use crate::net::{endpoint_text, ip_text, IpAddr, SocketAddr};
use crate::packet::Timestamp;
use crate::pipeline::icmp::{
    order_changes_no_total, tallied, EndpointState, EndpointTally, IcmpQuote, TransportProto,
    UnreachableEndpoint,
};
use crate::pipeline::quote::{media_kind, quoted_media_kind, QuotedMediaKind};
use crate::sort::{in_rank_order, sorted, Ranked};
use crate::text::{
    decimal, decimal_text, sorts_no_later, text_le, text_order_is_total, text_order_is_transitive,
};
use vstd::prelude::*;
use vstd::seq_lib::*;
use vstd::string::*;

verus! {

/// Distinct quoted flows that are kept.
pub const MAX_ICMP_MEDIA_FLOWS: usize = 4_096;

/// Errors kept per flow. Past this the count still rises.
pub const MAX_ICMP_PER_FLOW: usize = 8;

/// The quoted datagram's flow: who sent it, who did not answer, and over what.
#[derive(Debug, Clone, Copy, PartialEq, Eq, Structural)]
pub struct QuotedFlow {
    /// Source socket of the failed datagram.
    pub src: SocketAddr,
    /// Destination socket: the one that did not answer.
    pub dst: SocketAddr,
    /// Transport the failed datagram used.
    pub transport: TransportProto,
}

/// One ICMP error about a datagram that was not a SIP request.
#[derive(Debug, Clone, Copy, PartialEq, Eq)]
pub struct MediaIcmpEvidence {
    /// Capture time of the error.
    pub timestamp: Timestamp,
    /// Who reported the failure: never the endpoint that failed.
    pub reported_by: IpAddr,
    /// Raw ICMP type byte.
    pub icmp_type: u8,
    /// Raw ICMP code byte.
    pub icmp_code: u8,
    /// The network's own words.
    pub description: &'static str,
    /// What the quoted payload turned out to be.
    pub payload: QuotedMediaKind,
    /// Whether the quote is known to be shorter than the datagram.
    pub truncated: bool,
    /// Bytes of the payload that were quoted.
    pub quoted_bytes: usize,
}

/// One failed media datagram.
pub type MediaFault = MediaIcmpEvidence;

/// Every ICMP error recorded against one quoted flow. The count is exact; the
/// kept samples are capped.
#[derive(Debug)]
pub struct FlowIcmpEvidence {
    /// How many errors quoted this flow.
    pub errors: u64,
    /// Kept errors, oldest first.
    pub samples: Vec<MediaIcmpEvidence>,
}

/// The failed datagrams of one flow.
pub type FlowFaults = FlowIcmpEvidence;

/// What a quote says, as media evidence: what a fault is taken to be.
pub open spec fn is_fault_of(e: MediaIcmpEvidence, q: IcmpQuote) -> bool {
    &&& e.timestamp == q.timestamp
    &&& e.reported_by == q.reporter
    &&& e.icmp_type == q.icmp_type
    &&& e.icmp_code == q.icmp_code
    &&& e.description == q.description
    &&& e.payload == media_kind(q.quoted_payload@)
    &&& e.truncated == q.quoted_truncated
    &&& e.quoted_bytes == q.quoted_payload@.len()
}

/// What a quote says, as media evidence.
fn fault_of(q: &IcmpQuote) -> (e: MediaIcmpEvidence)
    ensures
        is_fault_of(e, *q),
{
    MediaIcmpEvidence {
        timestamp: q.timestamp,
        reported_by: q.reporter,
        icmp_type: q.icmp_type,
        icmp_code: q.icmp_code,
        description: q.description,
        payload: quoted_media_kind(&q.quoted_payload),
        truncated: q.quoted_truncated,
        quoted_bytes: q.quoted_payload.len(),
    }
}

/// A quote's flow: there is none where the quote stopped before the transport
/// header.
pub open spec fn flow_of(q: IcmpQuote) -> Option<QuotedFlow> {
    match (q.quoted_src_port, q.quoted_dst_port, q.quoted_transport) {
        (Some(src), Some(dst), Some(transport)) => Some(
            QuotedFlow {
                src: SocketAddr { ip: q.quoted_src, port: src },
                dst: SocketAddr { ip: q.quoted_dst, port: dst },
                transport,
            },
        ),
        _ => None,
    }
}

/// A quote's flow, where the quote reached the transport header.
fn quoted_flow(q: &IcmpQuote) -> (r: Option<QuotedFlow>)
    ensures
        r == flow_of(*q),
{
    match (q.quoted_src_port, q.quoted_dst_port, q.quoted_transport) {
        (Some(src), Some(dst), Some(transport)) => Some(
            QuotedFlow {
                src: SocketAddr { ip: q.quoted_src, port: src },
                dst: SocketAddr { ip: q.quoted_dst, port: dst },
                transport,
            },
        ),
        _ => None,
    }
}

/// What is kept of one flow.
pub ghost struct FlowState {
    /// The flow.
    pub flow: QuotedFlow,
    /// Errors counted.
    pub errors: nat,
    /// Errors kept, oldest first.
    pub samples: Seq<MediaFault>,
}

/// The place of a flow in a list; the length where it is not in it.
pub open spec fn flow_place(list: Seq<FlowState>, flow: QuotedFlow) -> nat
    decreases list.len(),
{
    if list.len() == 0 {
        0
    } else {
        let p = flow_place(list.drop_last(), flow);
        if p < list.len() - 1 {
            p
        } else if list.last().flow == flow {
            (list.len() - 1) as nat
        } else {
            list.len()
        }
    }
}

/// Errors of all kept flows together.
pub open spec fn flow_errors(list: Seq<FlowState>) -> nat
    decreases list.len(),
{
    if list.len() == 0 {
        0
    } else {
        flow_errors(list.drop_last()) + list.last().errors
    }
}

/// What the media evidence store holds.
pub ghost struct MediaState {
    /// The flows, in the order in which they were first quoted.
    pub flows: Seq<FlowState>,
    /// Unreachable endpoints.
    pub endpoints: EndpointState,
    /// ICMP errors quoting a datagram that was not a SIP request.
    pub errors: nat,
    /// Of those, the ones without a flow.
    pub unkeyed: nat,
    /// Of those, the ones whose flow was not kept.
    pub untracked_flows: nat,
}

impl MediaState {
    /// Nothing recorded.
    pub open spec fn none() -> MediaState {
        MediaState {
            flows: seq![],
            endpoints: EndpointState::none(),
            errors: 0,
            unkeyed: 0,
            untracked_flows: 0,
        }
    }

    /// Whether the totals add up: every error is counted on a flow, or as
    /// without one, or as of a flow that was not kept.
    pub open spec fn valid(self) -> bool {
        &&& flow_errors(self.flows) + self.unkeyed + self.untracked_flows == self.errors
        &&& self.endpoints.accounted() == self.errors
        &&& self.endpoints.valid()
        &&& self.errors <= u64::MAX
        &&& self.flows.len() <= MAX_ICMP_MEDIA_FLOWS
        &&& forall|i: int|
            0 <= i < self.flows.len() ==> 0 < (#[trigger] self.flows[i]).samples.len()
                <= MAX_ICMP_PER_FLOW && self.flows[i].samples.len() <= self.flows[i].errors
        &&& forall|i: int, j: int|
            0 <= i < j < self.flows.len() ==> (#[trigger] self.flows[i]).flow != (
            #[trigger] self.flows[j]).flow
    }

    /// The flows after one more error on one of them.
    pub open spec fn flows_with(self, flow: QuotedFlow, e: MediaFault) -> Seq<FlowState> {
        let p = flow_place(self.flows, flow) as int;
        if p < self.flows.len() {
            let f = self.flows[p];
            self.flows.update(
                p,
                FlowState {
                    flow: f.flow,
                    errors: f.errors + 1,
                    samples: if f.samples.len() < MAX_ICMP_PER_FLOW {
                        f.samples.push(e)
                    } else {
                        f.samples
                    },
                },
            )
        } else if self.flows.len() >= MAX_ICMP_MEDIA_FLOWS {
            self.flows
        } else {
            self.flows.push(FlowState { flow, errors: 1, samples: seq![e] })
        }
    }

    /// The store after one more error, on a flow or without one, against an
    /// endpoint.
    pub open spec fn noted(
        self,
        flow: Option<QuotedFlow>,
        addr: IpAddr,
        port: Option<u16>,
        description: &'static str,
        e: MediaFault,
    ) -> MediaState {
        MediaState {
            errors: self.errors + 1,
            endpoints: self.endpoints.noted(addr, port, description),
            unkeyed: if flow is None {
                self.unkeyed + 1
            } else {
                self.unkeyed
            },
            flows: match flow {
                Some(f) => self.flows_with(f, e),
                None => self.flows,
            },
            untracked_flows: match flow {
                Some(f) => if flow_place(self.flows, f) >= self.flows.len() && self.flows.len()
                    >= MAX_ICMP_MEDIA_FLOWS {
                    self.untracked_flows + 1
                } else {
                    self.untracked_flows
                },
                None => self.untracked_flows,
            },
        }
    }
}

/// The store after one more quoted datagram.
pub open spec fn recorded(s: MediaState, q: IcmpQuote, e: MediaIcmpEvidence) -> MediaState {
    s.noted(flow_of(q), q.quoted_dst, q.quoted_dst_port, q.description, e)
}

/// What the place of a flow is.
pub(crate) proof fn flow_place_is(list: Seq<FlowState>, flow: QuotedFlow)
    ensures
        ({
            let p = flow_place(list, flow) as int;
            &&& p <= list.len()
            &&& p < list.len() ==> list[p].flow == flow
            &&& forall|i: int| 0 <= i < p ==> (#[trigger] list[i]).flow != flow
        }),
    decreases list.len(),
{
    if list.len() > 0 {
        flow_place_is(list.drop_last(), flow);
        let p = flow_place(list, flow) as int;
        let q = flow_place(list.drop_last(), flow) as int;
        assert forall|i: int| 0 <= i < p implies (#[trigger] list[i]).flow != flow by {
            if i < q {
                assert(list.drop_last()[i] == list[i]);
            }
        }
    }
}

/// The place of a flow is the first at which it stands.
proof fn flow_place_found(list: Seq<FlowState>, flow: QuotedFlow, n: int)
    requires
        0 <= n <= list.len(),
        forall|i: int| 0 <= i < n ==> (#[trigger] list[i]).flow != flow,
        n < list.len() ==> list[n].flow == flow,
    ensures
        flow_place(list, flow) == n,
{
    flow_place_is(list, flow);
    let p = flow_place(list, flow) as int;
    if p < n {
        assert(list[p].flow != flow);
    }
    if n < p {
        assert(list[n].flow != flow);
    }
}

/// Replacing one flow's entry moves the sum by the change.
pub(crate) proof fn flow_errors_update(list: Seq<FlowState>, i: int, f: FlowState)
    requires
        0 <= i < list.len(),
    ensures
        list[i].errors <= flow_errors(list),
        flow_errors(list.update(i, f)) == flow_errors(list) - list[i].errors + f.errors,
    decreases list.len(),
{
    if i == list.len() - 1 {
        assert(list.update(i, f).drop_last() =~= list.drop_last());
    } else {
        assert(list.update(i, f).drop_last() =~= list.drop_last().update(i, f));
        flow_errors_update(list.drop_last(), i, f);
    }
}

/// One kept flow.
#[derive(Debug)]
struct FlowEntry {
    flow: QuotedFlow,
    faults: FlowFaults,
}

/// What the entry of a flow holds.
spec fn flow_state(e: FlowEntry) -> FlowState {
    FlowState { flow: e.flow, errors: e.faults.errors as nat, samples: e.faults.samples@ }
}

/// Retained ICMP evidence about media, and counters that stay exact past the
/// caps.
#[derive(Debug)]
pub struct MediaEvidence {
    flows: Vec<FlowEntry>,
    endpoints: EndpointTally,
    errors: u64,
    unkeyed: u64,
    untracked_flows: u64,
}

impl View for MediaEvidence {
    type V = MediaState;

    closed spec fn view(&self) -> MediaState {
        MediaState {
            flows: self.flows@.map_values(|e: FlowEntry| flow_state(e)),
            endpoints: self.endpoints@,
            errors: self.errors as nat,
            unkeyed: self.unkeyed as nat,
            untracked_flows: self.untracked_flows as nat,
        }
    }
}

impl MediaEvidence {
    /// An empty store.
    pub fn new() -> (r: Self)
        ensures
            r@ == MediaState::none(),
            r@.valid(),
    {
        let r = MediaEvidence {
            flows: Vec::new(),
            endpoints: EndpointTally::new(),
            errors: 0,
            unkeyed: 0,
            untracked_flows: 0,
        };
        assert(r@.flows =~= seq![]);
        r
    }

    /// Record one ICMP error about a datagram that was not a SIP request.
    pub fn record(&mut self, quote: &IcmpQuote)
        requires
            old(self)@.valid(),
            old(self)@.errors < u64::MAX,
        ensures
            final(self)@.valid(),
            exists|e: MediaIcmpEvidence|
                #[trigger] is_fault_of(e, *quote) && final(self)@ == recorded(
                    old(self)@,
                    *quote,
                    e,
                ),
    {
        let evidence = fault_of(quote);
        self.note(
            quoted_flow(quote),
            quote.quoted_dst,
            quote.quoted_dst_port,
            quote.description,
            evidence,
        );
        assert(is_fault_of(evidence, *quote));
    }

    /// Count one error against an endpoint, and keep it on its flow.
    fn note(
        &mut self,
        flow: Option<QuotedFlow>,
        addr: IpAddr,
        port: Option<u16>,
        description: &'static str,
        e: MediaFault,
    )
        requires
            old(self)@.valid(),
            old(self)@.errors < u64::MAX,
        ensures
            final(self)@.valid(),
            final(self)@ == old(self)@.noted(flow, addr, port, description, e),
    {
        let ghost before = self@;
        self.errors += 1;
        self.endpoints.note(addr, port, description);
        let flow = match flow {
            None => {
                self.unkeyed += 1;
                assert(self@ == before.noted(flow, addr, port, description, e));
                return;
            },
            Some(f) => f,
        };
        let mut i: usize = 0;
        while i < self.flows.len() && self.flows[i].flow != flow
            invariant
                i <= self.flows.len(),
                forall|k: int| 0 <= k < i ==> (#[trigger] self.flows@[k]).flow != flow,
            decreases self.flows.len() - i,
        {
            i += 1;
        }
        proof {
            assert forall|k: int| 0 <= k < i implies (#[trigger] before.flows[k]).flow != flow by {
                assert(before.flows[k] == flow_state(self.flows@[k]));
            }
            if i < self.flows.len() {
                assert(before.flows[i as int] == flow_state(self.flows@[i as int]));
            }
            flow_place_found(before.flows, flow, i as int);
        }
        if i < self.flows.len() {
            proof {
                flow_errors_update(before.flows, i as int, before.flows[i as int]);
            }
            let entry = &mut self.flows[i];
            entry.faults.errors += 1;
            if entry.faults.samples.len() < MAX_ICMP_PER_FLOW {
                entry.faults.samples.push(e);
            }
            assert(self@.flows =~= before.flows_with(flow, e));
            proof {
                flow_errors_update(before.flows, i as int, self@.flows[i as int]);
            }
        } else if self.flows.len() >= MAX_ICMP_MEDIA_FLOWS {
            self.untracked_flows += 1;
            assert(self@.flows =~= before.flows);
        } else {
            let mut samples: Vec<MediaFault> = Vec::new();
            samples.push(e);
            self.flows.push(FlowEntry { flow, faults: FlowFaults { errors: 1, samples } });
            assert(samples@ =~= seq![e]);
            assert(self@.flows =~= before.flows_with(flow, e));
            assert(self@.flows.drop_last() =~= before.flows);
        }
    }
}

/// Which rule tied a flow to media, from the strongest claim to none.
#[derive(Debug, Clone, Copy, PartialEq, Eq, Structural)]
pub enum MediaMatch {
    /// The quoted directed flow is exactly a stream of the capture.
    Flow,
    /// The SSRC in the quote belongs to a stream of the capture.
    Ssrc,
    /// The endpoint carries a stream of the capture.
    Endpoint,
    /// The endpoint was negotiated in SDP for a call of the capture.
    SdpEndpoint,
    /// Nothing in the capture matches.
    Unmatched,
}

/// What a flow was tied to.
#[derive(Debug)]
pub struct MediaAttribution {
    /// Which rule matched.
    pub matched: MediaMatch,
    /// How many streams it matched.
    pub streams: usize,
    /// `Call-ID`s of the affected dialogs, when the match named any.
    pub call_ids: Vec<String>,
}

/// What is asked of the run's streams about one flow.
#[derive(Debug, Clone, Copy)]
pub struct FlowQuery {
    /// Source socket.
    pub src: SocketAddr,
    /// Destination socket.
    pub dst: SocketAddr,
    /// SSRC that a quote reached.
    pub ssrc: Option<u32>,
    /// The newest error on the flow, which a remedy is asked for.
    pub last: MediaIcmpEvidence,
}

/// What the run's streams answer about one flow.
#[derive(Debug)]
pub struct FlowAnswer {
    /// What the flow is tied to.
    pub attribution: MediaAttribution,
    /// What to do about an error of this kind.
    pub remedy: String,
}

/// One quoted flow reported as undeliverable, tied to the media of the run.
#[derive(Debug, Clone, PartialEq, Eq)]
pub struct MediaIcmpFinding {
    /// `address:port` that sent the datagram that failed.
    pub source: String,
    /// `address:port` of the socket that did not answer.
    pub unreachable_endpoint: String,
    /// Address of the device that reported the failure. Not the fault.
    pub reported_by: String,
    /// Transport the failed datagram used.
    pub transport: &'static str,
    /// The network's own words.
    pub description: String,
    /// Raw ICMP type byte.
    pub icmp_type: u8,
    /// Raw ICMP code byte.
    pub icmp_code: u8,
    /// How many errors named this flow, kept or not.
    pub errors: u64,
    /// What the quoted payload was.
    pub payload: QuotedMediaKind,
    /// Which rule tied this flow to media, if any.
    pub matched: MediaMatch,
    /// How many streams the rule matched.
    pub streams: usize,
    /// `Call-ID`s of the affected dialogs, when the match named any.
    pub call_ids: Vec<String>,
    /// Plain-language rendering.
    pub hint: String,
}

/// One finding.
pub type Finding = MediaIcmpFinding;

/// The token of an attribution tier.
pub open spec fn tier_token(m: MediaMatch) -> Seq<char> {
    match m {
        MediaMatch::Flow => "flow"@,
        MediaMatch::Ssrc => "ssrc"@,
        MediaMatch::Endpoint => "endpoint"@,
        MediaMatch::SdpEndpoint => "sdp_endpoint"@,
        MediaMatch::Unmatched => "none"@,
    }
}

/// The token of a payload kind.
pub open spec fn kind_token(k: QuotedMediaKind) -> Seq<char> {
    match k {
        QuotedMediaKind::Rtp { .. } => "rtp"@,
        QuotedMediaKind::Rtcp { .. } => "rtcp"@,
        QuotedMediaKind::Unread => "unread"@,
        QuotedMediaKind::NotMedia => "not_media"@,
    }
}

impl MediaIcmpFinding {
    /// The attribution tier, as a stable machine-readable token. The tiers are
    /// not equally strong claims.
    #[must_use]
    pub fn attribution_tier(&self) -> (r: &'static str)
        ensures
            r@ == tier_token(self.matched),
    {
        match self.matched {
            MediaMatch::Flow => "flow",
            MediaMatch::Ssrc => "ssrc",
            MediaMatch::Endpoint => "endpoint",
            MediaMatch::SdpEndpoint => "sdp_endpoint",
            MediaMatch::Unmatched => "none",
        }
    }

    /// What the quoted payload turned out to be, as a stable token. A quote can
    /// be RTP and match nothing, or match a stream with no payload to read.
    #[must_use]
    pub fn payload_kind(&self) -> (r: &'static str)
        ensures
            r@ == kind_token(self.payload),
    {
        match self.payload {
            QuotedMediaKind::Rtp { .. } => "rtp",
            QuotedMediaKind::Rtcp { .. } => "rtcp",
            QuotedMediaKind::Unread => "unread",
            QuotedMediaKind::NotMedia => "not_media",
        }
    }
}

impl Ranked for MediaIcmpFinding {
    /// Busiest first; ties by endpoint, then source.
    open spec fn ranks_before(self, other: Self) -> bool {
        self.errors > other.errors || (self.errors == other.errors && (!text_le(
            other.unreachable_endpoint@,
            self.unreachable_endpoint@,
        ) || (self.unreachable_endpoint@ == other.unreachable_endpoint@ && text_le(
            self.source@,
            other.source@,
        ))))
    }

    proof fn rank_is_total(a: Self, b: Self) {
        text_order_is_total(a.unreachable_endpoint@, b.unreachable_endpoint@);
        text_order_is_total(a.source@, b.source@);
    }

    proof fn rank_is_transitive(a: Self, b: Self, c: Self) {
        let x = a.unreachable_endpoint@;
        let y = b.unreachable_endpoint@;
        let z = c.unreachable_endpoint@;
        text_order_is_total(x, y);
        text_order_is_total(y, z);
        text_order_is_total(x, z);
        if text_le(x, y) && text_le(y, z) {
            text_order_is_transitive(x, y, z);
            if text_le(z, x) {
                text_order_is_transitive(y, z, x);
            }
        }
        if text_le(a.source@, b.source@) && text_le(b.source@, c.source@) {
            text_order_is_transitive(a.source@, b.source@, c.source@);
        }
    }

    fn goes_before(&self, other: &Self) -> (r: bool) {
        proof {
            text_order_is_total(self.unreachable_endpoint@, other.unreachable_endpoint@);
        }
        if self.errors != other.errors {
            self.errors > other.errors
        } else if !sorts_no_later(
            other.unreachable_endpoint.as_str(),
            self.unreachable_endpoint.as_str(),
        ) {
            true
        } else if sorts_no_later(
            self.unreachable_endpoint.as_str(),
            other.unreachable_endpoint.as_str(),
        ) {
            sorts_no_later(self.source.as_str(), other.source.as_str())
        } else {
            false
        }
    }
}

/// The payload of the newest kept error whose quote reached media.
pub open spec fn newest_media(samples: Seq<MediaFault>) -> Option<QuotedMediaKind>
    decreases samples.len(),
{
    if samples.len() == 0 {
        None
    } else if samples.last().payload.is_media_spec() {
        Some(samples.last().payload)
    } else {
        newest_media(samples.drop_last())
    }
}

/// What a flow carried: read across every kept error, because one quote that
/// reached the header is enough, and otherwise what the newest one says.
pub open spec fn flow_payload(samples: Seq<MediaFault>) -> QuotedMediaKind {
    match newest_media(samples) {
        Some(k) => k,
        None => samples.last().payload,
    }
}

/// What a flow carried.
fn payload_of(samples: &[MediaFault]) -> (r: QuotedMediaKind)
    requires
        samples@.len() > 0,
    ensures
        r == flow_payload(samples@),
{
    let mut i: usize = samples.len();
    assert(samples@.take(i as int) =~= samples@);
    while i > 0
        invariant
            i <= samples.len(),
            newest_media(samples@) == newest_media(samples@.take(i as int)),
        decreases i,
    {
        i -= 1;
        assert(samples@.take(i + 1).drop_last() =~= samples@.take(i as int));
        assert(samples@.take(i + 1).last() == samples@[i as int]);
        if samples[i].payload.is_media() {
            return samples[i].payload;
        }
    }
    samples[samples.len() - 1].payload
}

/// How often, in a hint: nothing for a single error.
pub open spec fn times_text(errors: nat) -> Seq<char> {
    if errors == 1 {
        seq![]
    } else {
        " ("@ + decimal_text(errors) + " times)"@
    }
}

/// What failed, in a hint.
pub open spec fn what_text(payload: QuotedMediaKind, transport: TransportProto) -> Seq<char> {
    match payload {
        QuotedMediaKind::Rtp { ssrc, payload_type } => "RTP (payload type "@ + decimal_text(
            payload_type as nat,
        ) + ")"@,
        QuotedMediaKind::Rtcp { ssrc, packet_type } => "RTCP (type "@ + decimal_text(
            packet_type as nat,
        ) + ")"@,
        _ => "a "@ + transport.text() + " datagram"@,
    }
}

/// What the flow was tied to, in a hint.
pub open spec fn placed_text(m: MediaMatch) -> Seq<char> {
    match m {
        MediaMatch::Flow => "This is one of the media streams in this capture"@,
        MediaMatch::Ssrc => "The SSRC in the quote belongs to a media stream in this capture"@,
        MediaMatch::Endpoint => "That socket carries one of the media streams in this capture"@,
        MediaMatch::SdpEndpoint => "That socket was negotiated in SDP for a call in this capture"@,
        MediaMatch::Unmatched =>
            "It matched no stream in this capture, so the evidence is reported without a call — the endpoint is real either way"@,
    }
}

/// How many calls are affected, in a hint.
pub open spec fn calls_text(calls: nat) -> Seq<char> {
    if calls == 0 {
        seq![]
    } else {
        " ("@ + decimal_text(calls) + " call(s) affected)"@
    }
}

/// What it sounds like, in a hint: only where media is involved.
pub open spec fn audio_text(m: MediaMatch, payload: QuotedMediaKind) -> Seq<char> {
    if m == MediaMatch::Unmatched && !payload.is_media_spec() {
        seq![]
    } else {
        " Audio sent that way is discarded before it arrives, which is heard as one-way or missing audio."@
    }
}

/// One finding in plain language.
pub open spec fn hint_text(
    flow: QuotedFlow,
    last: MediaFault,
    payload: QuotedMediaKind,
    errors: nat,
    matched: MediaMatch,
    calls: nat,
    remedy: Seq<char>,
) -> Seq<char> {
    "ICMP "@ + last.description@ + ": "@ + what_text(payload, flow.transport) + " from "@
        + endpoint_text(flow.src.ip, flow.src.port) + " to "@ + endpoint_text(
        flow.dst.ip,
        flow.dst.port,
    ) + " could not be delivered"@ + times_text(errors) + ", reported by "@ + ip_text(
        last.reported_by,
    ) + ". "@ + placed_text(matched) + calls_text(calls) + "."@ + audio_text(matched, payload)
        + " "@ + remedy
}

/// What failed, in a hint.
fn what_string(payload: QuotedMediaKind, transport: TransportProto) -> (r: String)
    ensures
        r@ == what_text(payload, transport),
{
    match payload {
        QuotedMediaKind::Rtp { ssrc, payload_type } => {
            let mut s = String::from_str("RTP (payload type ");
            s.append(decimal(payload_type as u64).as_str());
            s.append(")");
            s
        },
        QuotedMediaKind::Rtcp { ssrc, packet_type } => {
            let mut s = String::from_str("RTCP (type ");
            s.append(decimal(packet_type as u64).as_str());
            s.append(")");
            s
        },
        _ => {
            let mut s = String::from_str("a ");
            s.append(transport.as_str());
            s.append(" datagram");
            s
        },
    }
}

/// What the flow was tied to, in a hint.
fn placed_str(m: MediaMatch) -> (r: &'static str)
    ensures
        r@ == placed_text(m),
{
    match m {
        MediaMatch::Flow => "This is one of the media streams in this capture",
        MediaMatch::Ssrc => "The SSRC in the quote belongs to a media stream in this capture",
        MediaMatch::Endpoint => "That socket carries one of the media streams in this capture",
        MediaMatch::SdpEndpoint => "That socket was negotiated in SDP for a call in this capture",
        MediaMatch::Unmatched =>
            "It matched no stream in this capture, so the evidence is reported without a call — the endpoint is real either way",
    }
}

/// Render one media finding in plain language.
fn media_hint(
    flow: &QuotedFlow,
    last: &MediaFault,
    payload: QuotedMediaKind,
    errors: u64,
    attribution: &MediaAttribution,
    remedy: &str,
) -> (r: String)
    ensures
        r@ == hint_text(
            *flow,
            *last,
            payload,
            errors as nat,
            attribution.matched,
            attribution.call_ids@.len(),
            remedy@,
        ),
{
    let mut s = String::from_str("ICMP ");
    s.append(last.description);
    s.append(": ");
    s.append(what_string(payload, flow.transport).as_str());
    s.append(" from ");
    s.append(flow.src.to_text().as_str());
    s.append(" to ");
    s.append(flow.dst.to_text().as_str());
    s.append(" could not be delivered");
    let ghost upto = s@;
    if errors != 1 {
        s.append(" (");
        s.append(decimal(errors).as_str());
        s.append(" times)");
    }
    assert(s@ =~= upto + times_text(errors as nat));
    s.append(", reported by ");
    s.append(last.reported_by.to_text().as_str());
    s.append(". ");
    s.append(placed_str(attribution.matched));
    let ghost upto = s@;
    if attribution.call_ids.len() > 0 {
        s.append(" (");
        s.append(decimal(attribution.call_ids.len() as u64).as_str());
        s.append(" call(s) affected)");
    }
    assert(s@ =~= upto + calls_text(attribution.call_ids@.len()));
    s.append(".");
    let ghost upto = s@;
    if attribution.matched != MediaMatch::Unmatched || payload.is_media() {
        s.append(
            " Audio sent that way is discarded before it arrives, which is heard as one-way or missing audio.",
        );
    }
    assert(s@ =~= upto + audio_text(attribution.matched, payload));
    s.append(" ");
    s.append(remedy);
    s
}

/// Whether a finding says exactly what is kept of a flow and what the run's
/// streams answered about it.
pub open spec fn finding_says(f: MediaIcmpFinding, s: FlowState, a: FlowAnswer) -> bool {
    let last = s.samples.last();
    let payload = flow_payload(s.samples);
    &&& f.source@ == endpoint_text(s.flow.src.ip, s.flow.src.port)
    &&& f.unreachable_endpoint@ == endpoint_text(s.flow.dst.ip, s.flow.dst.port)
    &&& f.reported_by@ == ip_text(last.reported_by)
    &&& f.transport@ == s.flow.transport.text()
    &&& f.description@ == last.description@
    &&& f.icmp_type == last.icmp_type
    &&& f.icmp_code == last.icmp_code
    &&& f.errors == s.errors
    &&& f.payload == payload
    &&& f.matched == a.attribution.matched
    &&& f.streams == a.attribution.streams
    &&& f.call_ids == a.attribution.call_ids
    &&& f.hint@ == hint_text(
        s.flow,
        last,
        payload,
        s.errors,
        a.attribution.matched,
        a.attribution.call_ids@.len(),
        a.remedy@,
    )
}

/// The finding of one flow.
fn finding(flow: &QuotedFlow, samples: &Vec<MediaFault>, errors: u64, answer: FlowAnswer) -> (f:
    MediaIcmpFinding)
    requires
        samples@.len() > 0,
    ensures
        forall|s: FlowState|
            s.flow == *flow && s.samples == samples@ && s.errors == errors ==> #[trigger]
            finding_says(f, s, answer),
{
    let last: MediaFault = samples[samples.len() - 1];
    let payload = payload_of(samples);
    let hint = media_hint(
        flow,
        &last,
        payload,
        errors,
        &answer.attribution,
        answer.remedy.as_str(),
    );
    MediaIcmpFinding {
        source: flow.src.to_text(),
        unreachable_endpoint: flow.dst.to_text(),
        reported_by: last.reported_by.to_text(),
        transport: flow.transport.as_str(),
        description: String::from_str(last.description),
        icmp_type: last.icmp_type,
        icmp_code: last.icmp_code,
        errors,
        payload,
        matched: answer.attribution.matched,
        streams: answer.attribution.streams,
        call_ids: answer.attribution.call_ids,
        hint,
    }
}

/// What ICMP reported about a run's non-signaling traffic.
#[derive(Debug, Clone, PartialEq, Eq)]
pub struct IcmpMediaReport {
    /// ICMP errors quoting a datagram that was not a SIP request.
    pub errors: u64,
    /// How many were tied to media: by their payload, by a match, or both.
    pub media: u64,
    /// How many were tied to a stream or a negotiated endpoint.
    pub attributed: u64,
    /// How many matched nothing this capture holds.
    pub unattributed: u64,
    /// Errors that carry no flow to match at all.
    pub unkeyed: u64,
    /// Errors whose flow was never kept.
    pub untracked_flows: u64,
    /// Errors whose endpoint was not tallied.
    pub untallied_endpoints: u64,
    /// One finding per kept flow, busiest first.
    pub flows: Vec<MediaIcmpFinding>,
    /// Endpoints ICMP named unreachable, busiest first.
    pub endpoints: Vec<UnreachableEndpoint>,
}

/// A media report.
pub type MediaReport = IcmpMediaReport;

/// Errors on flows that were tied to something.
pub open spec fn attributed_errors(flows: Seq<FlowState>, answers: Seq<FlowAnswer>) -> nat
    decreases flows.len(),
{
    if flows.len() == 0 {
        0
    } else {
        attributed_errors(flows.drop_last(), answers) + if answers[flows.len()
            - 1].attribution.matched != MediaMatch::Unmatched {
            flows.last().errors
        } else {
            0
        }
    }
}

/// Errors on flows that are media: by payload or by match.
pub open spec fn media_errors(flows: Seq<FlowState>, answers: Seq<FlowAnswer>) -> nat
    decreases flows.len(),
{
    if flows.len() == 0 {
        0
    } else {
        media_errors(flows.drop_last(), answers) + if flow_payload(
            flows.last().samples,
        ).is_media_spec() || answers[flows.len() - 1].attribution.matched != MediaMatch::Unmatched {
            flows.last().errors
        } else {
            0
        }
    }
}

/// No more errors are tied to something, or are media, than there are.
proof fn tied_within(flows: Seq<FlowState>, answers: Seq<FlowAnswer>)
    ensures
        attributed_errors(flows, answers) <= media_errors(flows, answers) <= flow_errors(flows),
    decreases flows.len(),
{
    if flows.len() > 0 {
        tied_within(flows.drop_last(), answers);
    }
}

/// Whether a report says exactly what is kept and what was answered: exact
/// totals, one finding per flow in rank order, the endpoints in rank order.
pub open spec fn report_says(r: IcmpMediaReport, s: MediaState, answers: Seq<FlowAnswer>) -> bool {
    &&& r.errors == s.errors
    &&& r.media == media_errors(s.flows, answers)
    &&& r.attributed == attributed_errors(s.flows, answers)
    &&& r.unattributed == s.errors - attributed_errors(s.flows, answers)
    &&& r.unkeyed == s.unkeyed
    &&& r.untracked_flows == s.untracked_flows
    &&& r.untallied_endpoints == s.endpoints.untallied
    &&& in_rank_order(r.flows@)
    &&& exists|all: Seq<MediaIcmpFinding>|
        {
            &&& all.len() == s.flows.len()
            &&& forall|i: int|
                0 <= i < all.len() ==> finding_says(#[trigger] all[i], s.flows[i], answers[i])
            &&& #[trigger] all.to_multiset() == r.flows@.to_multiset()
        }
    &&& in_rank_order(r.endpoints@)
    &&& r.endpoints@.to_multiset() == s.endpoints.list.to_multiset()
}

/// What is asked about one flow.
pub open spec fn query_of(s: FlowState) -> FlowQuery {
    FlowQuery {
        src: s.flow.src,
        dst: s.flow.dst,
        ssrc: flow_payload(s.samples).ssrc_spec(),
        last: s.samples.last(),
    }
}

impl MediaEvidence {
    /// ICMP errors that quoted anything but a SIP request.
    pub fn errors(&self) -> (r: u64)
        ensures
            r == self@.errors,
    {
        self.errors
    }

    /// What has to be asked of the run's streams, flow by flow, before the
    /// evidence can be reported.
    pub fn queries(&self) -> (r: Vec<FlowQuery>)
        requires
            self@.valid(),
        ensures
            r@ == self@.flows.map_values(|s: FlowState| query_of(s)),
    {
        let mut out: Vec<FlowQuery> = Vec::new();
        let mut i: usize = 0;
        while i < self.flows.len()
            invariant
                i <= self.flows.len(),
                self@.valid(),
                out@.len() == i,
                forall|k: int| 0 <= k < i ==> out@[k] == query_of(#[trigger] self@.flows[k]),
            decreases self.flows.len() - i,
        {
            let e = &self.flows[i];
            assert(self@.flows[i as int] == flow_state(*e));
            let samples = &e.faults.samples;
            out.push(
                FlowQuery {
                    src: e.flow.src,
                    dst: e.flow.dst,
                    ssrc: payload_of(samples).ssrc(),
                    last: samples[samples.len() - 1],
                },
            );
            i += 1;
        }
        assert(out@ =~= self@.flows.map_values(|s: FlowState| query_of(s)));
        out
    }

    /// The findings of all flows, and the errors that are tied to something
    /// and that are media.
    fn findings(&self, answers: Vec<FlowAnswer>) -> (r: (Vec<Finding>, u64, u64))
        requires
            self@.valid(),
            answers@.len() == self@.flows.len(),
        ensures
            r.0@.len() == self@.flows.len(),
            forall|i: int|
                0 <= i < r.0@.len() ==> finding_says(
                    #[trigger] r.0@.reverse()[i],
                    self@.flows[i],
                    answers@[i],
                ),
            r.1 == attributed_errors(self@.flows, answers@),
            r.2 == media_errors(self@.flows, answers@),
    {
        let ghost all = answers@;
        let ghost flows = self@.flows;
        let mut answers = answers;
        let mut back: Vec<Finding> = Vec::new();
        let mut attributed: u64 = 0;
        let mut media: u64 = 0;
        proof {
            assert(flows.take(flows.len() as int) =~= flows);
            tied_within(flows, all);
        }
        while answers.len() > 0
            invariant
                self@.valid(),
                flows == self@.flows,
                all.len() == flows.len(),
                answers@.len() <= all.len(),
                answers@ == all.take(answers@.len() as int),
                back@.len() == all.len() - answers@.len(),
                forall|k: int|
                    0 <= k < back@.len() ==> finding_says(
                        #[trigger] back@[k],
                        flows[flows.len() - 1 - k],
                        all[flows.len() - 1 - k],
                    ),
                attributed_errors(flows, all) == attributed + attributed_errors(
                    flows.take(answers@.len() as int),
                    all,
                ),
                media_errors(flows, all) == media + media_errors(
                    flows.take(answers@.len() as int),
                    all,
                ),
                attributed_errors(flows, all) <= u64::MAX,
                media_errors(flows, all) <= u64::MAX,
            decreases answers.len(),
        {
            let ghost before = answers@;
            let ghost n = answers@.len() - 1;
            if let Some(answer) = answers.pop() {
                let i: usize = answers.len();
                let e = &self.flows[i];
                assert(flows[i as int] == flow_state(*e));
                assert(answer == all[i as int]);
                assert(answers@ =~= all.take(i as int));
                let matched: bool = answer.attribution.matched != MediaMatch::Unmatched;
                let is_media: bool = payload_of(&e.faults.samples).is_media();
                assert(flows.take(i + 1).drop_last() =~= flows.take(i as int));
                assert(flows.take(i + 1).last() == flows[i as int]);
                if matched {
                    attributed += e.faults.errors;
                }
                if matched || is_media {
                    media += e.faults.errors;
                }
                let f = finding(&e.flow, &e.faults.samples, e.faults.errors, answer);
                assert(finding_says(f, flows[i as int], all[i as int]));
                back.push(f);
            }
        }
        assert forall|i: int| 0 <= i < back@.len() implies finding_says(
            #[trigger] back@.reverse()[i],
            flows[i],
            all[i],
        ) by {
            assert(back@.reverse()[i] == back@[back@.len() - 1 - i]);
        }
        (back, attributed, media)
    }

    /// The evidence as a report, given what the run's streams answered about
    /// each flow.
    pub fn report(&self, answers: Vec<FlowAnswer>) -> (r: IcmpMediaReport)
        requires
            self@.valid(),
            answers@.len() == self@.flows.len(),
        ensures
            report_says(r, self@, answers@),
    {
        let ghost all = answers@;
        let (back, attributed, media) = self.findings(answers);
        let ghost in_order = back@.reverse();
        proof {
            back@.lemma_reverse_to_multiset();
            tied_within(self@.flows, all);
        }
        let r = IcmpMediaReport {
            errors: self.errors,
            media,
            attributed,
            unattributed: self.errors - attributed,
            unkeyed: self.unkeyed,
            untracked_flows: self.untracked_flows,
            untallied_endpoints: self.endpoints.untallied(),
            flows: sorted(back),
            endpoints: self.endpoints.ranked(),
        };
        assert(in_order.to_multiset() == r.flows@.to_multiset());
        r
    }
}

/// Every error is attributed or not, no error without a flow, or of a flow that
/// was not kept, is attributed, and every error's endpoint is listed or counted
/// as not listed.
pub proof fn attributed_and_unattributed_are_all(
    r: IcmpMediaReport,
    s: MediaState,
    answers: Seq<FlowAnswer>,
)
    requires
        s.valid(),
        report_says(r, s, answers),
    ensures
        r.attributed + r.unattributed == r.errors,
        r.unkeyed + r.untracked_flows <= r.unattributed,
        r.attributed <= r.media <= r.errors,
        tallied(r.endpoints@) + r.untallied_endpoints == r.errors,
{
    tied_within(s.flows, answers);
    order_changes_no_total(r.endpoints@, s.endpoints.list);
}

/// Errors of all findings together.
pub open spec fn finding_errors(flows: Seq<Finding>) -> nat
    decreases flows.len(),
{
    if flows.len() == 0 {
        0
    } else {
        finding_errors(flows.drop_last()) + flows.last().errors as nat
    }
}

/// The errors of findings, added up from the front.
proof fn finding_errors_fold(flows: Seq<Finding>, f: spec_fn(nat, Finding) -> nat)
    requires
        f == (|sum: nat, x: Finding| sum + x.errors as nat),
    ensures
        flows.fold_left(0nat, f) == finding_errors(flows),
    decreases flows.len(),
{
    if flows.len() > 0 {
        finding_errors_fold(flows.drop_last(), f);
    }
}

/// In whatever order they are listed, the same findings add up to the same
/// errors.
proof fn findings_add_up_in_any_order(a: Seq<Finding>, b: Seq<Finding>)
    requires
        a.to_multiset() == b.to_multiset(),
    ensures
        finding_errors(a) == finding_errors(b),
{
    let f = |sum: nat, x: Finding| sum + x.errors as nat;
    finding_errors_fold(a, f);
    finding_errors_fold(b, f);
    lemma_fold_left_permutation(a, b, f, 0nat);
}

/// Findings that give the errors of flows add up to them.
proof fn findings_give_the_errors(all: Seq<Finding>, flows: Seq<FlowState>)
    requires
        all.len() == flows.len(),
        forall|i: int| 0 <= i < all.len() ==> (#[trigger] all[i]).errors == flows[i].errors,
    ensures
        finding_errors(all) == flow_errors(flows),
    decreases all.len(),
{
    if all.len() > 0 {
        assert forall|i: int| 0 <= i < all.drop_last().len() implies (
        #[trigger] all.drop_last()[i]).errors == flows.drop_last()[i].errors by {
            assert(all[i].errors == flows[i].errors);
        }
        findings_give_the_errors(all.drop_last(), flows.drop_last());
    }
}

/// Every error is on a listed flow, or has no flow, or is of a flow that was
/// not kept: the three add up to all errors.
pub proof fn the_flows_add_up(r: MediaReport, s: MediaState, answers: Seq<FlowAnswer>)
    requires
        s.valid(),
        report_says(r, s, answers),
    ensures
        finding_errors(r.flows@) + r.unkeyed + r.untracked_flows == r.errors,
{
    let all = choose|all: Seq<Finding>|
        {
            &&& all.len() == s.flows.len()
            &&& forall|i: int|
                0 <= i < all.len() ==> finding_says(#[trigger] all[i], s.flows[i], answers[i])
            &&& #[trigger] all.to_multiset() == r.flows@.to_multiset()
        };
    findings_add_up_in_any_order(all, r.flows@);
    findings_give_the_errors(all, s.flows);
}

} // verus!
