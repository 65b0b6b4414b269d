//! Which streams belong to which call: links that SDP or a media relay assert.
use crate::net::IpAddr;
use crate::packet::Timestamp;
use vstd::prelude::*;
use vstd::string::*;

verus! {

/// Which source delivered a packet.
#[derive(Debug, Clone, Copy, PartialEq, Eq, Structural)]
pub enum InputOrigin {
    /// Read off the wire or out of a capture file.
    Wire,
    /// Reported by an encapsulating agent.
    Hep,
}

/// Who says that an endpoint belongs to a call.
#[derive(Debug, Clone, Copy, PartialEq, Eq, Structural)]
pub enum EndpointAssertion {
    /// A party to the call, in SDP that was observed.
    Signaled,
    /// The media relay that allocated the endpoint.
    MediaRelay,
}

/// Where the knowledge of an endpoint comes from.
#[derive(Debug, Clone, Copy, PartialEq, Eq, Structural)]
pub struct SdpProvenance {
    /// Who asserted it.
    pub asserted_by: EndpointAssertion,
    /// Which source delivered it; `None` where it was asked for rather than
    /// captured.
    pub origin: Option<InputOrigin>,
    /// When.
    pub at: Timestamp,
}

impl SdpProvenance {
    /// An endpoint that SDP on the wire advertised.
    pub fn observed(origin: InputOrigin, at: Timestamp) -> (r: Self)
        ensures
            r == (SdpProvenance {
                asserted_by: EndpointAssertion::Signaled,
                origin: Some(origin),
                at,
            }),
    {
        SdpProvenance { asserted_by: EndpointAssertion::Signaled, origin: Some(origin), at }
    }

    /// An endpoint that a relay named in control traffic.
    pub fn relay_asserted(origin: InputOrigin, at: Timestamp) -> (r: Self)
        ensures
            r == (SdpProvenance {
                asserted_by: EndpointAssertion::MediaRelay,
                origin: Some(origin),
                at,
            }),
    {
        SdpProvenance { asserted_by: EndpointAssertion::MediaRelay, origin: Some(origin), at }
    }

    /// An endpoint that a relay named when it was asked.
    pub fn relay_queried(at: Timestamp) -> (r: Self)
        ensures
            r == (SdpProvenance { asserted_by: EndpointAssertion::MediaRelay, origin: None, at }),
    {
        SdpProvenance { asserted_by: EndpointAssertion::MediaRelay, origin: None, at }
    }
}

/// A connection address as a `c=` line gives it.
#[derive(Debug, Clone, Copy, PartialEq, Eq, Structural)]
pub enum Connection {
    /// There is no `c=` line at this level.
    Absent,
    /// The line holds something that is no IP address, such as a host name.
    Name,
    /// The line holds this address.
    Ip(IpAddr),
}

/// One `m=` line: its own connection address, its port, and the description
/// `X` that codec and clock rate are read from.
#[derive(Debug)]
pub struct SdpMedia<X> {
    /// Media-level connection address.
    pub connection: Connection,
    /// Media port.
    pub port: u16,
    /// The rest of the description.
    pub description: X,
}

/// An offer or answer: the session's connection address and its media.
#[derive(Debug)]
pub struct SdpSession<X> {
    /// Session-level connection address.
    pub connection: Connection,
    /// The `m=` lines in order.
    pub media: Vec<SdpMedia<X>>,
}

/// A stream's endpoint and the call it belongs to.
#[derive(Debug)]
pub struct SdpLink<X> {
    /// Media address.
    pub ip: IpAddr,
    /// Media port.
    pub port: u16,
    /// The call.
    pub call_id: String,
    /// The media description.
    pub media: SdpMedia<X>,
}

/// The address of one media: its own where it has a line, else the session's.
pub open spec fn effective_address(media: Connection, session: Connection) -> Option<IpAddr> {
    let c = if media is Absent {
        session
    } else {
        media
    };
    match c {
        Connection::Ip(ip) => Some(ip),
        _ => None,
    }
}

/// The address of one media.
fn address_of(media: Connection, session: Connection) -> (r: Option<IpAddr>)
    ensures
        r == effective_address(media, session),
{
    let c = match media {
        Connection::Absent => session,
        other => other,
    };
    match c {
        Connection::Ip(ip) => Some(ip),
        _ => None,
    }
}

/// What a link says, as plain text.
pub ghost struct LinkView<X> {
    /// Media address.
    pub ip: IpAddr,
    /// Media port.
    pub port: u16,
    /// The call.
    pub call_id: Seq<char>,
    /// The media description.
    pub media: SdpMedia<X>,
}

impl<X> View for SdpLink<X> {
    type V = LinkView<X>;

    open spec fn view(&self) -> LinkView<X> {
        LinkView { ip: self.ip, port: self.port, call_id: self.call_id@, media: self.media }
    }
}

/// The views of a list of links.
pub open spec fn link_views<X>(links: Seq<SdpLink<X>>) -> Seq<LinkView<X>> {
    links.map_values(|l: SdpLink<X>| l@)
}

/// The links of an offer or answer: one per media with a usable address, in
/// the order of the media.
pub open spec fn links_of<X>(
    media: Seq<SdpMedia<X>>,
    session: Connection,
    call_id: Seq<char>,
) -> Seq<LinkView<X>>
    decreases media.len(),
{
    if media.len() == 0 {
        seq![]
    } else {
        let before = links_of(media.drop_last(), session, call_id);
        match effective_address(media.last().connection, session) {
            Some(ip) => before.push(
                LinkView { ip, port: media.last().port, call_id, media: media.last() },
            ),
            None => before,
        }
    }
}

/// Extract the stream links of an SDP offer or answer. Media without a usable
/// address is skipped.
pub fn extract_sdp_links<X>(sdp: SdpSession<X>, call_id: &str) -> (r: Vec<SdpLink<X>>)
    ensures
        link_views(r@) == links_of(sdp.media@, sdp.connection, call_id@),
{
    let session = sdp.connection;
    let ghost all = sdp.media@;
    let mut back = sdp.media;
    let mut forward: Vec<SdpMedia<X>> = Vec::new();
    while back.len() > 0
        invariant
            back@ + forward@.reverse() =~= all,
        decreases back.len(),
    {
        let ghost before = back@;
        let ghost f0 = forward@;
        if let Some(m) = back.pop() {
            forward.push(m);
            assert(forward@.reverse() =~= seq![m] + f0.reverse());
        }
    }
    let mut out: Vec<SdpLink<X>> = Vec::new();
    let ghost mut done: Seq<SdpMedia<X>> = seq![];
    while forward.len() > 0
        invariant
            done + forward@.reverse() =~= all,
            link_views(out@) == links_of(done, session, call_id@),
        decreases forward.len(),
    {
        let ghost f0 = forward@;
        let ghost d0 = done;
        if let Some(m) = forward.pop() {
            proof {
                done = done.push(m);
                assert(f0.reverse() =~= seq![m] + forward@.reverse());
                assert(done.drop_last() =~= d0);
            }
            let ghost o0 = link_views(out@);
            if let Some(ip) = address_of(m.connection, session) {
                out.push(SdpLink { ip, port: m.port, call_id: String::from_str(call_id), media: m });
                assert(link_views(out@) =~= o0.push(out@.last()@));
            }
        }
    }
    assert(done =~= all);
    out
}

/// One thing to tell the stream store about an endpoint.
#[derive(Debug)]
pub struct LinkOrder<X> {
    /// The endpoint and its call.
    pub link: SdpLink<X>,
    /// Where the knowledge comes from.
    pub provenance: SdpProvenance,
}

/// The links of a list of orders.
pub open spec fn order_links<X>(orders: Seq<LinkOrder<X>>) -> Seq<SdpLink<X>> {
    orders.map_values(|o: LinkOrder<X>| o.link)
}

/// Each link as an order with the same provenance, in the same order.
pub fn with_provenance<X>(links: Vec<SdpLink<X>>, provenance: SdpProvenance) -> (r: Vec<
    LinkOrder<X>,
>)
    ensures
        order_links(r@) == links@,
        forall|i: int| 0 <= i < r@.len() ==> (#[trigger] r@[i]).provenance == provenance,
{
    let ghost all = links@;
    let mut links = links;
    let mut back: Vec<SdpLink<X>> = Vec::new();
    while links.len() > 0
        invariant
            links@ + back@.reverse() =~= all,
        decreases links.len(),
    {
        let ghost b0 = back@;
        if let Some(l) = links.pop() {
            back.push(l);
            assert(back@.reverse() =~= seq![l] + b0.reverse());
        }
    }
    let mut out: Vec<LinkOrder<X>> = Vec::new();
    while back.len() > 0
        invariant
            order_links(out@) + back@.reverse() =~= all,
            forall|i: int| 0 <= i < out@.len() ==> (#[trigger] out@[i]).provenance == provenance,
        decreases back.len(),
    {
        let ghost b0 = back@;
        let ghost o0 = order_links(out@);
        if let Some(link) = back.pop() {
            out.push(LinkOrder { link, provenance });
            assert(b0.reverse() =~= seq![link] + back@.reverse());
            assert(order_links(out@) =~= o0.push(link));
        }
    }
    assert(order_links(out@) =~= all);
    out
}

/// The orders for links that a media relay asserted in control traffic.
///
/// The relay describes a port it allocated itself: it is authoritative about
/// the socket and says nothing about either party's own address, so this is
/// not an observed offer.
pub fn apply_relay_control_links<X>(
    links: Vec<SdpLink<X>>,
    input_origin: InputOrigin,
    timestamp: Timestamp,
) -> (r: Vec<LinkOrder<X>>)
    ensures
        order_links(r@) == links@,
        forall|i: int|
            0 <= i < r@.len() ==> (#[trigger] r@[i]).provenance == (SdpProvenance {
                asserted_by: EndpointAssertion::MediaRelay,
                origin: Some(input_origin),
                at: timestamp,
            }),
{
    with_provenance(links, SdpProvenance::relay_asserted(input_origin, timestamp))
}

/// An endpoint that a relay said belongs to a call.
#[derive(Debug)]
pub struct RelayLink {
    /// The relay's address.
    pub address: IpAddr,
    /// The relay's port.
    pub port: u16,
    /// The call.
    pub call_id: String,
}

/// What a relay answered when it was asked at the start.
#[derive(Debug)]
pub struct RelaySnapshot {
    /// The endpoints it named.
    pub links: Vec<RelayLink>,
    /// When it was asked; `None` where it never was.
    pub taken_at: Option<Timestamp>,
}

/// One endpoint to remember, without any codec: the relay reported none.
#[derive(Debug)]
pub struct EndpointOrder {
    /// The endpoint and its call.
    pub link: RelayLink,
    /// Where the knowledge comes from.
    pub provenance: SdpProvenance,
}

/// The links of a list of endpoint orders.
pub open spec fn endpoint_links(orders: Seq<EndpointOrder>) -> Seq<RelayLink> {
    orders.map_values(|o: EndpointOrder| o.link)
}

/// The endpoints that a relay's snapshot registers. Registering rather than
/// linking is what attributes a stream that appears after the snapshot. A
/// relay that was never asked registers nothing.
pub fn apply_relay_snapshot(snapshot: RelaySnapshot) -> (r: Vec<EndpointOrder>)
    ensures
        match snapshot.taken_at {
            Some(at) => {
                &&& endpoint_links(r@) == snapshot.links@
                &&& forall|i: int|
                    0 <= i < r@.len() ==> (#[trigger] r@[i]).provenance == (SdpProvenance {
                        asserted_by: EndpointAssertion::MediaRelay,
                        origin: None,
                        at,
                    })
            },
            None => r@.len() == 0,
        },
{
    let at = match snapshot.taken_at {
        None => {
            return Vec::new();
        },
        Some(t) => t,
    };
    let provenance = SdpProvenance::relay_queried(at);
    let ghost all = snapshot.links@;
    let mut links = snapshot.links;
    let mut back: Vec<RelayLink> = Vec::new();
    while links.len() > 0
        invariant
            links@ + back@.reverse() =~= all,
        decreases links.len(),
    {
        let ghost b0 = back@;
        if let Some(l) = links.pop() {
            back.push(l);
            assert(back@.reverse() =~= seq![l] + b0.reverse());
        }
    }
    let mut out: Vec<EndpointOrder> = Vec::new();
    while back.len() > 0
        invariant
            endpoint_links(out@) + back@.reverse() =~= all,
            forall|i: int| 0 <= i < out@.len() ==> (#[trigger] out@[i]).provenance == provenance,
        decreases back.len(),
    {
        let ghost b0 = back@;
        let ghost o0 = endpoint_links(out@);
        if let Some(link) = back.pop() {
            out.push(EndpointOrder { link, provenance });
            assert(b0.reverse() =~= seq![link] + back@.reverse());
            assert(endpoint_links(out@) =~= o0.push(link));
        }
    }
    assert(endpoint_links(out@) =~= all);
    out
}

} // verus!
