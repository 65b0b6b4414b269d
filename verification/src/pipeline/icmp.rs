//! What ICMP said about signaling.
//!
//! An ICMP error that quotes a SIP request states a cause rather than implying
//! one. A quote is not a message: it is never counted as one. A quote that
//! stops before its `Call-ID` is counted as unattributed, and the endpoint that
//! did not answer is still named. Totals stay exact past the retention caps.
use crate::net::IpAddr;
use crate::packet::Timestamp;
use crate::pipeline::quote::{
    call_id_name, claimed_header, cseq_name, letters, quoted_method, quoted_sip_prefix,
    quotes_request,
};
use crate::sort::{in_rank_order, sorted, Ranked};
use vstd::hash_map::StringHashMap;
use vstd::prelude::*;
use vstd::seq_lib::*;
use vstd::string::*;

verus! {

/// Distinct `Call-ID`s that evidence is kept for.
pub const MAX_ICMP_CALL_IDS: usize = 10_000;

/// Errors kept per `Call-ID`. Past this the count still rises.
pub const MAX_ICMP_PER_CALL_ID: usize = 8;

/// Distinct endpoints kept in the report.
pub const MAX_ICMP_ENDPOINTS: usize = 4_096;

/// Transport of a datagram.
#[derive(Debug, Clone, Copy, PartialEq, Eq, Structural)]
pub enum TransportProto {
    /// UDP.
    Udp,
    /// TCP.
    Tcp,
    /// TLS over TCP.
    Tls,
    /// WebSocket.
    Ws,
    /// SCTP.
    Sctp,
}

impl TransportProto {
    /// How the transport is written.
    pub open spec fn text(self) -> Seq<char> {
        match self {
            TransportProto::Udp => "UDP"@,
            TransportProto::Tcp => "TCP"@,
            TransportProto::Tls => "TLS"@,
            TransportProto::Ws => "WS"@,
            TransportProto::Sctp => "SCTP"@,
        }
    }

    /// How the transport is written.
    pub fn as_str(&self) -> (r: &'static str)
        ensures
            r@ == self.text(),
    {
        match self {
            TransportProto::Udp => "UDP",
            TransportProto::Tcp => "TCP",
            TransportProto::Tls => "TLS",
            TransportProto::Ws => "WS",
            TransportProto::Sctp => "SCTP",
        }
    }
}

/// An ICMP error and the datagram it quotes.
#[derive(Debug, Clone)]
pub struct IcmpQuote {
    /// Capture time of the error.
    pub timestamp: Timestamp,
    /// Who reported the failure: a router on the path, not the endpoint that
    /// failed.
    pub reporter: IpAddr,
    /// Raw ICMP type byte.
    pub icmp_type: u8,
    /// Raw ICMP code byte.
    pub icmp_code: u8,
    /// The network's own words for this type and code.
    pub description: &'static str,
    /// Source of the quoted datagram.
    pub quoted_src: IpAddr,
    /// Destination of the quoted datagram: what did not answer.
    pub quoted_dst: IpAddr,
    /// Source port, when the quote reached the transport header.
    pub quoted_src_port: Option<u16>,
    /// Destination port, when the quote reached the transport header.
    pub quoted_dst_port: Option<u16>,
    /// Transport, when the quote reached the transport header.
    pub quoted_transport: Option<TransportProto>,
    /// Whether the quote is known to be shorter than the datagram.
    pub quoted_truncated: bool,
    /// The part of the transport payload that was quoted.
    pub quoted_payload: Vec<u8>,
}

/// One ICMP error about a SIP request.
#[derive(Debug, Clone, PartialEq, Eq)]
pub struct IcmpEvidence {
    /// Capture time of the error.
    pub timestamp: Timestamp,
    /// The address that did not answer.
    pub unreachable_addr: IpAddr,
    /// Its port, when the quote reached the transport header.
    pub unreachable_port: Option<u16>,
    /// Who noticed.
    pub reported_by: IpAddr,
    /// Raw ICMP type byte.
    pub icmp_type: u8,
    /// Raw ICMP code byte.
    pub icmp_code: u8,
    /// The network's own words.
    pub description: &'static str,
    /// `Call-ID` of the quoted request, when it was quoted.
    pub call_id: Option<String>,
    /// Method of the quoted request.
    pub method: Option<String>,
    /// `CSeq` of the quoted request, when it was quoted.
    pub cseq: Option<String>,
    /// Whether the quote is known to be shorter than the datagram.
    pub truncated: bool,
    /// Bytes of the payload that were quoted.
    pub quoted_bytes: usize,
}

/// Whether a piece of evidence says exactly what a quote says.
pub open spec fn says(e: IcmpEvidence, q: IcmpQuote) -> bool {
    let p = q.quoted_payload@;
    &&& e.timestamp == q.timestamp
    &&& e.unreachable_addr == q.quoted_dst
    &&& e.unreachable_port == q.quoted_dst_port
    &&& e.reported_by == q.reporter
    &&& e.icmp_type == q.icmp_type
    &&& e.icmp_code == q.icmp_code
    &&& e.description == q.description
    &&& e.truncated == q.quoted_truncated
    &&& e.quoted_bytes == p.len()
    &&& e.method is Some && e.method->0@ == letters(quoted_method(p))
    &&& match quoted_call_id(q) {
        Some(id) => e.call_id is Some && e.call_id->0@ == id,
        None => e.call_id is None,
    }
    &&& match claimed_header(p, cseq_name(), None) {
        Some(text) => e.cseq is Some && e.cseq->0@ == text,
        None => e.cseq is None,
    }
}

/// The `Call-ID` that a quote reached.
pub open spec fn quoted_call_id(q: IcmpQuote) -> Option<Seq<char>> {
    claimed_header(q.quoted_payload@, call_id_name(), Some(0x69u8))
}

impl IcmpEvidence {
    /// A copy of this evidence.
    pub fn copied(&self) -> (r: Self)
        ensures
            r == *self,
    {
        let call_id: Option<String> = match &self.call_id {
            Some(s) => Some(s.clone()),
            None => None,
        };
        let method: Option<String> = match &self.method {
            Some(s) => Some(s.clone()),
            None => None,
        };
        let cseq: Option<String> = match &self.cseq {
            Some(s) => Some(s.clone()),
            None => None,
        };
        IcmpEvidence {
            timestamp: self.timestamp,
            unreachable_addr: self.unreachable_addr,
            unreachable_port: self.unreachable_port,
            reported_by: self.reported_by,
            icmp_type: self.icmp_type,
            icmp_code: self.icmp_code,
            description: self.description,
            call_id,
            method,
            cseq,
            truncated: self.truncated,
            quoted_bytes: self.quoted_bytes,
        }
    }
}

/// Every ICMP error recorded against one `Call-ID`. The count is exact; the
/// kept samples are capped.
#[derive(Debug, Clone, PartialEq, Eq)]
pub struct DialogIcmpEvidence {
    /// How many errors quoted this dialog.
    pub errors: u64,
    /// Kept errors, oldest first.
    pub samples: Vec<IcmpEvidence>,
}

/// One failed request.
pub type Fault = IcmpEvidence;

/// The failed requests of one dialog.
pub type DialogFaults = DialogIcmpEvidence;

/// One endpoint that ICMP said was unreachable, with how often.
#[derive(Debug, Clone, Copy, PartialEq, Eq)]
pub struct UnreachableEndpoint {
    /// The endpoint that did not answer.
    pub addr: IpAddr,
    /// Its port, when any quote reached the transport header.
    pub port: Option<u16>,
    /// How many errors named it.
    pub errors: u64,
    /// The most recent error's description.
    pub description: &'static str,
}

/// Whether one optional port sorts no later than another: none before any.
pub open spec fn port_le(a: Option<u16>, b: Option<u16>) -> bool {
    match (a, b) {
        (None, _) => true,
        (Some(_), None) => false,
        (Some(x), Some(y)) => x <= y,
    }
}

impl Ranked for UnreachableEndpoint {
    /// Busiest first; ties by address, then port.
    open spec fn ranks_before(self, other: Self) -> bool {
        self.errors > other.errors || (self.errors == other.errors && (!other.addr.le_spec(
            self.addr,
        ) || (self.addr == other.addr && port_le(self.port, other.port))))
    }

    proof fn rank_is_total(a: Self, b: Self) {
    }

    proof fn rank_is_transitive(a: Self, b: Self, c: Self) {
    }

    fn goes_before(&self, other: &Self) -> (r: bool) {
        if self.errors != other.errors {
            self.errors > other.errors
        } else if !other.addr.le(&self.addr) {
            true
        } else if self.addr == other.addr {
            match (self.port, other.port) {
                (None, _) => true,
                (Some(_), None) => false,
                (Some(x), Some(y)) => x <= y,
            }
        } else {
            false
        }
    }
}

/// The place of an endpoint in a tally; the length where it is not in it.
pub open spec fn place(list: Seq<UnreachableEndpoint>, addr: IpAddr, port: Option<u16>) -> nat
    decreases list.len(),
{
    if list.len() == 0 {
        0
    } else {
        let p = place(list.drop_last(), addr, port);
        if p < list.len() - 1 {
            p
        } else if list.last().addr == addr && list.last().port == port {
            (list.len() - 1) as nat
        } else {
            list.len()
        }
    }
}

/// Errors of all tallied endpoints together.
pub open spec fn tallied(list: Seq<UnreachableEndpoint>) -> nat
    decreases list.len(),
{
    if list.len() == 0 {
        0
    } else {
        tallied(list.drop_last()) + list.last().errors as nat
    }
}

/// A tally of unreachable endpoints.
pub ghost struct EndpointState {
    /// The endpoints, in the order in which they were first named.
    pub list: Seq<UnreachableEndpoint>,
    /// Errors whose endpoint was not tallied because the tally was full.
    pub untallied: nat,
}

impl EndpointState {
    /// Nothing tallied.
    pub open spec fn none() -> EndpointState {
        EndpointState { list: seq![], untallied: 0 }
    }

    /// Whether no endpoint is listed twice, and the list is within its cap.
    pub open spec fn valid(self) -> bool {
        &&& self.list.len() <= MAX_ICMP_ENDPOINTS
        &&& forall|i: int, j: int|
            0 <= i < j < self.list.len() ==> (#[trigger] self.list[i]).addr != (
            #[trigger] self.list[j]).addr || self.list[i].port != self.list[j].port
    }

    /// The tally after one more error. A known endpoint is counted and takes
    /// the newest description; a new one is listed while there is room.
    pub open spec fn noted(
        self,
        addr: IpAddr,
        port: Option<u16>,
        description: &'static str,
    ) -> EndpointState {
        let p = place(self.list, addr, port) as int;
        if p < self.list.len() {
            EndpointState {
                list: self.list.update(
                    p,
                    UnreachableEndpoint {
                        errors: (self.list[p].errors + 1) as u64,
                        description,
                        ..self.list[p]
                    },
                ),
                ..self
            }
        } else if self.list.len() >= MAX_ICMP_ENDPOINTS {
            EndpointState { untallied: self.untallied + 1, ..self }
        } else {
            EndpointState {
                list: self.list.push(UnreachableEndpoint { addr, port, errors: 1, description }),
                ..self
            }
        }
    }

    /// Errors the tally accounts for.
    pub open spec fn accounted(self) -> nat {
        tallied(self.list) + self.untallied
    }
}

/// What the place of an endpoint is.
pub(crate) proof fn place_is(list: Seq<UnreachableEndpoint>, addr: IpAddr, port: Option<u16>)
    ensures
        ({
            let p = place(list, addr, port) as int;
            &&& p <= list.len()
            &&& p < list.len() ==> list[p].addr == addr && list[p].port == port
            &&& forall|i: int|
                0 <= i < p ==> (#[trigger] list[i]).addr != addr || list[i].port != port
        }),
    decreases list.len(),
{
    if list.len() > 0 {
        place_is(list.drop_last(), addr, port);
        let p = place(list, addr, port) as int;
        let q = place(list.drop_last(), addr, port) as int;
        assert forall|i: int| 0 <= i < p implies (#[trigger] list[i]).addr != addr || list[i].port
            != port by {
            if i < q {
                assert(list.drop_last()[i] == list[i]);
            }
        }
    }
}

/// The place of an endpoint is the first at which it stands.
proof fn place_found(list: Seq<UnreachableEndpoint>, addr: IpAddr, port: Option<u16>, n: int)
    requires
        0 <= n <= list.len(),
        forall|i: int| 0 <= i < n ==> (#[trigger] list[i]).addr != addr || list[i].port != port,
        n < list.len() ==> list[n].addr == addr && list[n].port == port,
    ensures
        place(list, addr, port) == n,
{
    place_is(list, addr, port);
    let p = place(list, addr, port) as int;
    if p < n {
        assert(list[p].addr != addr || list[p].port != port);
    }
    if n < p {
        assert(list[n].addr != addr || list[n].port != port);
    }
}

/// Replacing one endpoint's entry moves the sum by the change.
pub(crate) proof fn tallied_update(list: Seq<UnreachableEndpoint>, i: int, e: UnreachableEndpoint)
    requires
        0 <= i < list.len(),
    ensures
        list[i].errors <= tallied(list),
        tallied(list.update(i, e)) == tallied(list) - list[i].errors + e.errors,
    decreases list.len(),
{
    if i == list.len() - 1 {
        assert(list.update(i, e).drop_last() =~= list.drop_last());
    } else {
        assert(list.update(i, e).drop_last() =~= list.drop_last().update(i, e));
        tallied_update(list.drop_last(), i, e);
    }
}

/// Counts the endpoints that ICMP named unreachable.
#[derive(Debug)]
pub struct EndpointTally {
    list: Vec<UnreachableEndpoint>,
    untallied: u64,
}

impl View for EndpointTally {
    type V = EndpointState;

    closed spec fn view(&self) -> EndpointState {
        EndpointState { list: self.list@, untallied: self.untallied as nat }
    }
}

impl EndpointTally {
    /// Nothing tallied.
    pub fn new() -> (r: Self)
        ensures
            r@ == EndpointState::none(),
            r@.valid(),
            r@.accounted() == 0,
    {
        let r = EndpointTally { list: Vec::new(), untallied: 0 };
        assert(r@.list =~= seq![]);
        r
    }

    /// Count one error against the endpoint that did not answer.
    pub fn note(&mut self, addr: IpAddr, port: Option<u16>, description: &'static str)
        requires
            old(self)@.valid(),
            old(self)@.accounted() < u64::MAX,
        ensures
            final(self)@ == old(self)@.noted(addr, port, description),
            final(self)@.valid(),
            final(self)@.accounted() == old(self)@.accounted() + 1,
    {
        let ghost before = self@;
        let mut i: usize = 0;
        while i < self.list.len() && !(self.list[i].addr == addr && self.list[i].port == port)
            invariant
                i <= self.list.len(),
                forall|k: int|
                    0 <= k < i ==> (#[trigger] self.list@[k]).addr != addr || self.list@[k].port
                        != port,
            decreases self.list.len() - i,
        {
            i += 1;
        }
        proof {
            place_found(before.list, addr, port, i as int);
        }
        if i < self.list.len() {
            let seen = self.list[i];
            let ghost e = UnreachableEndpoint {
                addr: seen.addr,
                port: seen.port,
                errors: (seen.errors + 1) as u64,
                description,
            };
            proof {
                tallied_update(before.list, i as int, e);
            }
            self.list.set(
                i,
                UnreachableEndpoint {
                    addr: seen.addr,
                    port: seen.port,
                    errors: seen.errors + 1,
                    description,
                },
            );
        } else if self.list.len() >= MAX_ICMP_ENDPOINTS {
            self.untallied += 1;
        } else {
            self.list.push(UnreachableEndpoint { addr, port, errors: 1, description });
            assert(self.list@.drop_last() =~= before.list);
        }
    }

    /// The tallied endpoints, busiest first.
    pub fn ranked(&self) -> (r: Vec<UnreachableEndpoint>)
        ensures
            in_rank_order(r@),
            r@.to_multiset() == self@.list.to_multiset(),
    {
        let mut all: Vec<UnreachableEndpoint> = Vec::new();
        let mut i: usize = 0;
        while i < self.list.len()
            invariant
                i <= self.list.len(),
                all@ == self.list@.take(i as int),
            decreases self.list.len() - i,
        {
            all.push(self.list[i]);
            i += 1;
            assert(self.list@.take(i as int) =~= self.list@.take(i - 1).push(self.list@[i - 1]));
        }
        assert(self.list@.take(i as int) =~= self.list@);
        sorted(all)
    }

    /// Errors whose endpoint was not tallied.
    pub fn untallied(&self) -> (r: u64)
        ensures
            r == self@.untallied,
    {
        self.untallied
    }
}

/// What ICMP reported about a run's SIP traffic.
#[derive(Debug, Clone, PartialEq, Eq)]
pub struct IcmpEvidenceReport {
    /// ICMP errors quoting a SIP request.
    pub errors: u64,
    /// How many named a `Call-ID` and were attributed to a dialog.
    pub attributed: u64,
    /// How many quoted too little to name a `Call-ID`.
    pub unattributed: u64,
    /// Errors whose `Call-ID` was never kept, because the store was full.
    pub untracked_dialogs: u64,
    /// Errors whose endpoint was not tallied, because the tally was full.
    pub untallied_endpoints: u64,
    /// Endpoints ICMP named unreachable, busiest first.
    pub endpoints: Vec<UnreachableEndpoint>,
}

/// What is kept of one dialog.
pub ghost struct DialogState {
    /// Errors counted.
    pub errors: nat,
    /// Errors kept, oldest first.
    pub samples: Seq<Fault>,
}

/// What the signaling evidence store holds.
pub ghost struct SignalState {
    /// Evidence by `Call-ID`.
    pub dialogs: Map<Seq<char>, DialogState>,
    /// Unreachable endpoints.
    pub endpoints: EndpointState,
    /// ICMP errors quoting a SIP request.
    pub errors: nat,
    /// Of those, the ones that named a `Call-ID`.
    pub attributed: nat,
    /// Of those, the ones that did not.
    pub unattributed: nat,
    /// Errors whose dialog was not kept.
    pub untracked_dialogs: nat,
}

impl SignalState {
    /// Nothing recorded.
    pub open spec fn none() -> SignalState {
        SignalState {
            dialogs: Map::empty(),
            endpoints: EndpointState::none(),
            errors: 0,
            attributed: 0,
            unattributed: 0,
            untracked_dialogs: 0,
        }
    }

    /// Whether the totals add up: every error is attributed or not, and every
    /// error's endpoint is tallied or counted as untallied.
    pub open spec fn valid(self) -> bool {
        &&& self.attributed + self.unattributed == self.errors
        &&& self.endpoints.accounted() == self.errors
        &&& self.endpoints.valid()
        &&& self.untracked_dialogs <= self.attributed
        &&& self.dialogs.dom().finite()
        &&& self.dialogs.dom().len() <= MAX_ICMP_CALL_IDS
        &&& forall|id: Seq<char>| #[trigger]
            self.dialogs.dom().contains(id) ==> self.dialogs[id].samples.len()
                <= MAX_ICMP_PER_CALL_ID && self.dialogs[id].errors <= self.attributed
                && self.dialogs[id].samples.len() <= self.dialogs[id].errors
    }

    /// The dialogs after one more error against one of them: the count always
    /// rises, the sample is kept while there is room, and a new dialog is kept
    /// while there is room for it.
    pub open spec fn dialogs_with(self, id: Seq<char>, e: Fault) -> Map<
        Seq<char>,
        DialogState,
    > {
        if self.dialogs.dom().contains(id) {
            let d = self.dialogs[id];
            self.dialogs.insert(
                id,
                DialogState {
                    errors: d.errors + 1,
                    samples: if d.samples.len() < MAX_ICMP_PER_CALL_ID {
                        d.samples.push(e)
                    } else {
                        d.samples
                    },
                },
            )
        } else if self.dialogs.dom().len() >= MAX_ICMP_CALL_IDS {
            self.dialogs
        } else {
            self.dialogs.insert(id, DialogState { errors: 1, samples: seq![e] })
        }
    }

    /// The store after one more piece of evidence.
    pub open spec fn recorded(self, q: IcmpQuote, e: Fault) -> SignalState {
        let full = self.dialogs.dom().len() >= MAX_ICMP_CALL_IDS;
        SignalState {
            errors: self.errors + 1,
            endpoints: self.endpoints.noted(q.quoted_dst, q.quoted_dst_port, q.description),
            attributed: self.attributed + if quoted_call_id(q) is Some {
                1nat
            } else {
                0nat
            },
            unattributed: self.unattributed + if quoted_call_id(q) is None {
                1nat
            } else {
                0nat
            },
            untracked_dialogs: match quoted_call_id(q) {
                Some(id) => if full && !self.dialogs.dom().contains(id) {
                    self.untracked_dialogs + 1
                } else {
                    self.untracked_dialogs
                },
                None => self.untracked_dialogs,
            },
            dialogs: match quoted_call_id(q) {
                Some(id) => self.dialogs_with(id, e),
                None => self.dialogs,
            },
        }
    }

    /// What is kept against one `Call-ID`: nothing where nothing is.
    pub open spec fn against(self, id: Seq<char>) -> DialogState {
        if self.dialogs.dom().contains(id) {
            self.dialogs[id]
        } else {
            DialogState { errors: 0, samples: seq![] }
        }
    }
}

/// Retained ICMP evidence about signaling, and counters that stay exact past
/// the caps.
pub struct SignalEvidence {
    index: StringHashMap<usize>,
    dialogs: Vec<DialogFaults>,
    ids: Ghost<Seq<Seq<char>>>,
    endpoints: EndpointTally,
    errors: u64,
    attributed: u64,
    unattributed: u64,
    untracked_dialogs: u64,
}

impl View for SignalEvidence {
    type V = SignalState;

    closed spec fn view(&self) -> SignalState {
        SignalState {
            dialogs: Map::new(
                |id: Seq<char>| self.index@.dom().contains(id),
                |id: Seq<char>|
                    DialogState {
                        errors: self.dialogs@[self.index@[id] as int].errors as nat,
                        samples: self.dialogs@[self.index@[id] as int].samples@,
                    },
            ),
            endpoints: self.endpoints@,
            errors: self.errors as nat,
            attributed: self.attributed as nat,
            unattributed: self.unattributed as nat,
            untracked_dialogs: self.untracked_dialogs as nat,
        }
    }
}

impl SignalEvidence {
    /// Whether the index and the list of dialogs belong together.
    pub closed spec fn indexed(self) -> bool {
        &&& self.ids@.len() == self.dialogs@.len()
        &&& self.index@.dom().finite()
        &&& self.index@.dom().len() == self.dialogs@.len()
        &&& forall|id: Seq<char>| #[trigger]
            self.index@.dom().contains(id) ==> self.index@[id] < self.ids@.len()
                && self.ids@[self.index@[id] as int] == id
    }

    /// Whether the store is one that recording leads to.
    pub open spec fn valid(self) -> bool {
        self@.valid() && self.indexed()
    }

    /// An empty store.
    pub fn new() -> (r: Self)
        ensures
            r@ == SignalState::none(),
            r.valid(),
    {
        let r = SignalEvidence {
            index: StringHashMap::new(),
            dialogs: Vec::new(),
            ids: Ghost(Seq::empty()),
            endpoints: EndpointTally::new(),
            errors: 0,
            attributed: 0,
            unattributed: 0,
            untracked_dialogs: 0,
        };
        assert(r@.dialogs =~= Map::empty());
        assert(r.index@.dom() =~= Set::empty());
        r
    }

    /// ICMP errors that quoted a SIP request.
    pub fn errors(&self) -> (r: u64)
        ensures
            r == self@.errors,
    {
        self.errors
    }

    /// Record one ICMP error that quotes a SIP request. `false` where the quote
    /// is not one, and then nothing is recorded.
    pub fn record(&mut self, quote: &IcmpQuote) -> (r: bool)
        requires
            old(self).valid(),
            old(self)@.errors < u64::MAX,
        ensures
            r == quotes_request(quote.quoted_payload@),
            !r ==> final(self)@ == old(self)@,
            r ==> exists|e: Fault|
                #[trigger] says(e, *quote) && final(self)@ == old(self)@.recorded(*quote, e),
            final(self).valid(),
    {
        let sip = match quoted_sip_prefix(&quote.quoted_payload) {
            None => {
                return false;
            },
            Some(s) => s,
        };
        let ghost before = self@;
        let evidence = Fault {
            timestamp: quote.timestamp,
            unreachable_addr: quote.quoted_dst,
            unreachable_port: quote.quoted_dst_port,
            reported_by: quote.reporter,
            icmp_type: quote.icmp_type,
            icmp_code: quote.icmp_code,
            description: quote.description,
            call_id: match &sip.call_id {
                Some(id) => Some(id.clone()),
                None => None,
            },
            method: Some(sip.method),
            cseq: sip.cseq,
            truncated: quote.quoted_truncated,
            quoted_bytes: quote.quoted_payload.len(),
        };
        let ghost e = evidence;
        assert(says(e, *quote));
        self.errors += 1;
        self.endpoints.note(quote.quoted_dst, quote.quoted_dst_port, quote.description);
        match sip.call_id {
            None => {
                self.unattributed += 1;
                assert(self@.dialogs =~= before.recorded(*quote, e).dialogs);
            },
            Some(call_id) => {
                self.attributed += 1;
                self.keep(call_id, evidence);
                assert(self@.dialogs =~= before.recorded(*quote, e).dialogs);
            },
        }
        assert(self@ == before.recorded(*quote, e));
        true
    }

    /// Keep one piece of evidence against a `Call-ID`.
    fn keep(&mut self, call_id: String, evidence: Fault)
        requires
            old(self).indexed(),
            old(self)@.untracked_dialogs < u64::MAX,
            old(self)@.dialogs.dom().len() <= MAX_ICMP_CALL_IDS,
            forall|id: Seq<char>| #[trigger]
                old(self)@.dialogs.dom().contains(id) ==> old(self)@.dialogs[id].errors < u64::MAX,
        ensures
            final(self).indexed(),
            final(self)@.dialogs == old(self)@.dialogs_with(call_id@, evidence),
            final(self)@.dialogs.dom().finite(),
            final(self)@.dialogs.dom().len() <= MAX_ICMP_CALL_IDS,
            final(self)@ == (SignalState {
                dialogs: final(self)@.dialogs,
                untracked_dialogs: if !old(self)@.dialogs.dom().contains(call_id@) && old(
                    self,
                )@.dialogs.dom().len() >= MAX_ICMP_CALL_IDS {
                    old(self)@.untracked_dialogs + 1
                } else {
                    old(self)@.untracked_dialogs
                },
                ..old(self)@
            }),
    {
        let ghost before = self@;
        let ghost id = call_id@;
        assert(before.dialogs.dom() =~= self.index@.dom());
        match self.index.get(call_id.as_str()) {
            Some(at) => {
                let i: usize = *at;
                assert(before.dialogs[id].errors == self.dialogs@[i as int].errors);
                let d = &mut self.dialogs[i];
                d.errors += 1;
                if d.samples.len() < MAX_ICMP_PER_CALL_ID {
                    d.samples.push(evidence);
                }
                assert forall|other: Seq<char>| other != id && #[trigger]
                    self.index@.dom().contains(other) implies self.index@[other] != i by {
                    assert(self.ids@[self.index@[other] as int] == other);
                }
                assert(self@.dialogs =~= before.dialogs_with(id, evidence));
            },
            None => {
                if self.dialogs.len() >= MAX_ICMP_CALL_IDS {
                    self.untracked_dialogs += 1;
                    assert(self@.dialogs =~= before.dialogs);
                } else {
                    let mut samples: Vec<Fault> = Vec::new();
                    samples.push(evidence);
                    let at: usize = self.dialogs.len();
                    self.dialogs.push(DialogFaults { errors: 1, samples });
                    proof {
                        self.ids@ = self.ids@.push(id);
                    }
                    self.index.insert(call_id, at);
                    assert(self@.dialogs =~= before.dialogs_with(id, evidence));
                }
            },
        }
        assert(self@.dialogs.dom() =~= self.index@.dom());
    }

    /// Every ICMP error recorded against one `Call-ID`: none, for almost every
    /// dialog.
    pub fn against(&self, call_id: &str) -> (r: DialogFaults)
        requires
            self.valid(),
        ensures
            r.errors == self@.against(call_id@).errors,
            r.samples@ == self@.against(call_id@).samples,
    {
        match self.index.get(call_id) {
            None => {
                let samples: Vec<Fault> = Vec::new();
                assert(samples@ =~= seq![]);
                DialogFaults { errors: 0, samples }
            },
            Some(at) => {
                let d = &self.dialogs[*at];
                let mut samples: Vec<Fault> = Vec::new();
                let mut i: usize = 0;
                while i < d.samples.len()
                    invariant
                        i <= d.samples.len(),
                        samples@ == d.samples@.take(i as int),
                    decreases d.samples.len() - i,
                {
                    samples.push(d.samples[i].copied());
                    i += 1;
                    assert(d.samples@.take(i as int) =~= d.samples@.take(i - 1).push(
                        d.samples@[i - 1],
                    ));
                }
                assert(d.samples@.take(i as int) =~= d.samples@);
                DialogFaults { errors: d.errors, samples }
            },
        }
    }

    /// What ICMP reported about the run's SIP traffic.
    pub fn report(&self) -> (r: IcmpEvidenceReport)
        ensures
            reports_evidence(r, self@),
    {
        IcmpEvidenceReport {
            errors: self.errors,
            attributed: self.attributed,
            unattributed: self.unattributed,
            untracked_dialogs: self.untracked_dialogs,
            untallied_endpoints: self.endpoints.untallied(),
            endpoints: self.endpoints.ranked(),
        }
    }
}

/// Whether a report says exactly what is kept: exact totals, and the endpoints
/// in rank order.
pub open spec fn reports_evidence(r: IcmpEvidenceReport, s: SignalState) -> bool {
    &&& r.errors == s.errors
    &&& r.attributed == s.attributed
    &&& r.unattributed == s.unattributed
    &&& r.untracked_dialogs == s.untracked_dialogs
    &&& r.untallied_endpoints == s.endpoints.untallied
    &&& in_rank_order(r.endpoints@)
    &&& r.endpoints@.to_multiset() == s.endpoints.list.to_multiset()
}

/// The tallied errors, added up from the front.
proof fn tallied_folds(list: Seq<UnreachableEndpoint>, f: spec_fn(nat, UnreachableEndpoint) -> nat)
    requires
        f == (|sum: nat, e: UnreachableEndpoint| sum + e.errors as nat),
    ensures
        list.fold_left(0nat, f) == tallied(list),
    decreases list.len(),
{
    if list.len() > 0 {
        tallied_folds(list.drop_last(), f);
    }
}

/// In whatever order they are listed, the same endpoints add up to the same
/// errors.
pub proof fn order_changes_no_total(a: Seq<UnreachableEndpoint>, b: Seq<UnreachableEndpoint>)
    requires
        a.to_multiset() == b.to_multiset(),
    ensures
        tallied(a) == tallied(b),
{
    let f = |sum: nat, e: UnreachableEndpoint| sum + e.errors as nat;
    tallied_folds(a, f);
    tallied_folds(b, f);
    lemma_fold_left_permutation(a, b, f, 0nat);
}

/// Every error of a report is attributed or not, and every error's endpoint is
/// listed or counted as not listed.
pub proof fn the_evidence_adds_up(r: IcmpEvidenceReport, s: SignalState)
    requires
        s.valid(),
        reports_evidence(r, s),
    ensures
        r.attributed + r.unattributed == r.errors,
        tallied(r.endpoints@) + r.untallied_endpoints == r.errors,
        r.untracked_dialogs <= r.attributed,
{
    order_changes_no_total(r.endpoints@, s.endpoints.list);
}

} // verus!
