//! What routing a packet is for.
//!
//! Each law speaks of what a call is given and what it gives back: which
//! datagrams are RTCP, which writes a packet leads to, which links an offer
//! gives, and what a packet turns out to be once it is asked about.
use crate::packet::Timestamp;
use crate::pipeline::apply::{
    op_views, process_packet, reconstruct, OpView, PacketCounts, StoreOp,
};
use crate::pipeline::classify::{
    asked_out, classify_packet, is_rtcp_packet, reply_of, try_websocket_unwrap, ActionView,
    Classification, Facts, MediaDecrypt, PacketAction, ParsedPacket, PipelineOptions, Question, Reply,
    SkipTallies, Step, StepView, Stepped, WsFrame,
};
use crate::pipeline::icmp::TransportProto;
use crate::pipeline::links::{
    apply_relay_control_links, apply_relay_snapshot, endpoint_links, extract_sdp_links,
    link_views, links_of, order_links, Connection, EndpointAssertion, EndpointOrder, InputOrigin,
    LinkOrder, RelaySnapshot, SdpLink, SdpMedia, SdpProvenance, SdpSession,
};
use crate::pipeline::skips::{
    is_response, port_in_range, response_start, sum_raised, SkipState, WsPortSkips,
};
use vstd::prelude::*;

verus! {

/// A compound packet is RTCP wherever its first element by itself is: what
/// follows an RTCP packet in a datagram takes nothing away from it.
pub proof fn a_compound_packet_is_rtcp(
    first: &[u8],
    whole: &[u8],
    following: Seq<u8>,
    port: u16,
    alone: bool,
    together: bool,
)
    requires
        call_ensures(is_rtcp_packet, (first, port), alone),
        call_ensures(is_rtcp_packet, (whole, port), together),
        whole@ == first@ + following,
        alone,
    ensures
        together,
{
}

/// RTCP is never claimed of a datagram that cannot hold a report, has another
/// version, or a type that RTP payload types may land on.
pub proof fn rtcp_has_its_version_and_its_types(data: &[u8], port: u16, r: bool)
    requires
        call_ensures(is_rtcp_packet, (data, port), r),
        r,
    ensures
        data@.len() >= 8,
        128 <= data@[0] < 192,
        192 <= data@[1] <= 223,
{
}

/// A packet whose length says how many words follow its header, and that has
/// them all, is RTCP on every port, shared with RTP or not.
pub proof fn a_framed_report_is_rtcp_on_every_port(data: &[u8], words: int, port: u16, r: bool)
    requires
        call_ensures(is_rtcp_packet, (data, port), r),
        1 <= words,
        4 * words + 4 <= data@.len(),
        128 <= data@[0] < 192,
        192 <= data@[1] <= 223,
        data@[2] == words / 256,
        data@[3] == words % 256,
    ensures
        r,
{
    assert(data@[2] * 256 + data@[3] == words);
}

/// On a port of its own RTCP of the first five types needs no length; every
/// other type, and every other port, needs a length that the datagram holds.
pub proof fn an_unframed_report_is_rtcp_on_its_own_port_only(
    data: &[u8],
    words: int,
    port: u16,
    r: bool,
)
    requires
        call_ensures(is_rtcp_packet, (data, port), r),
        data@.len() >= 8,
        128 <= data@[0] < 192,
        192 <= data@[1] <= 223,
        0 <= words < 0x1_0000,
        data@[2] == words / 256,
        data@[3] == words % 256,
        words == 0 || 4 * words + 4 > data@.len(),
    ensures
        r <==> port % 2 == 1 && (data@[1] == 200 || data@[1] == 201 || data@[1] == 202 || data@[1]
            == 203 || data@[1] == 204),
{
    assert(data@[2] * 256 + data@[3] == words);
}

/// Whether a write tells the stream store of a link, known from there.
pub open spec fn tells_of<M, X, R, H>(
    op: StoreOp<M, X, R, H>,
    link: SdpLink<X>,
    by: EndpointAssertion,
    from: Option<InputOrigin>,
    at: Timestamp,
) -> bool {
    op matches StoreOp::Link(order) && {
        &&& order.link.ip == link.ip
        &&& order.link.port == link.port
        &&& order.link.call_id@ == link.call_id@
        &&& order.link.media == link.media
        &&& order.provenance.asserted_by == by
        &&& order.provenance.origin == from
        &&& order.provenance.at == at
    }
}

/// Media is always recorded: an RTCP action leads to one write of its reports,
/// and an RTP action to one write of its header and its decrypted payload,
/// whatever the options. New streams are offered for reconciliation behind it
/// where that was asked for.
pub proof fn media_is_recorded_whatever_the_options<M, X, R, H>(
    action: PacketAction<M, X, R, H>,
    no_dialog: bool,
    from: InputOrigin,
    at: Timestamp,
    orphans: bool,
    ops: Vec<StoreOp<M, X, R, H>>,
)
    requires
        call_ensures(process_packet::<M, X, R, H>, (action, no_dialog, from, at, orphans), ops),
    ensures
        action matches PacketAction::Rtcp(reports) ==> ops@.len() == 1 && ops@[0]
            == StoreOp::<M, X, R, H>::Rtcp(reports),
        action matches PacketAction::Rtp { hdr, decrypted_payload, via_heuristic } ==> {
            &&& ops@.len() == if orphans {
                2int
            } else {
                1int
            }
            &&& ops@[0] == (StoreOp::<M, X, R, H>::Rtp { hdr, payload: decrypted_payload })
            &&& orphans ==> ops@[1] is OfferOrphans
        },
{
    let views = op_views(ops@);
    if action is Rtcp || action is Rtp {
        assert(views.len() == ops@.len());
        assert(views.len() > 0);
        assert(views[0] == ops@[0]@);
        if orphans && action is Rtp {
            assert(views[1] == ops@[1]@);
        }
    }
}

/// A message is recorded once, before its links, and each link once, in their
/// order, as what a party said; a relay's links likewise, as what the relay
/// said.
pub proof fn signaling_is_recorded_once_with_its_links<M, X, R, H>(
    action: PacketAction<M, X, R, H>,
    from: InputOrigin,
    at: Timestamp,
    orphans: bool,
    ops: Vec<StoreOp<M, X, R, H>>,
)
    requires
        call_ensures(process_packet::<M, X, R, H>, (action, false, from, at, orphans), ops),
    ensures
        action matches PacketAction::Sip { msg, sdp_links } ==> {
            &&& ops@.len() == 1 + sdp_links@.len()
            &&& ops@[0] == StoreOp::<M, X, R, H>::Message(msg)
            &&& forall|i: int|
                0 <= i < sdp_links@.len() ==> tells_of(
                    #[trigger] ops@[i + 1],
                    sdp_links@[i],
                    EndpointAssertion::Signaled,
                    Some(from),
                    at,
                )
        },
        action matches PacketAction::RelayControl { sdp_links } ==> {
            &&& ops@.len() == sdp_links@.len()
            &&& forall|i: int|
                0 <= i < sdp_links@.len() ==> tells_of(
                    #[trigger] ops@[i],
                    sdp_links@[i],
                    EndpointAssertion::MediaRelay,
                    Some(from),
                    at,
                )
        },
{
    let views = op_views(ops@);
    if let PacketAction::Sip { msg, sdp_links } = action {
        assert(views.len() == 1 + sdp_links@.len());
        assert(views[0] == ops@[0]@);
        assert forall|i: int| 0 <= i < sdp_links@.len() implies tells_of(
            #[trigger] ops@[i + 1],
            sdp_links@[i],
            EndpointAssertion::Signaled,
            Some(from),
            at,
        ) by {
            assert(views[i + 1] == ops@[i + 1]@);
        }
    }
    if let PacketAction::RelayControl { sdp_links } = action {
        assert(views.len() == sdp_links@.len());
        assert forall|i: int| 0 <= i < sdp_links@.len() implies tells_of(
            #[trigger] ops@[i],
            sdp_links@[i],
            EndpointAssertion::MediaRelay,
            Some(from),
            at,
        ) by {
            assert(views[i] == ops@[i]@);
        }
    }
}

/// Nothing is written for a packet that is nothing, nor, without dialogs, for
/// signaling and a relay's claims; every other packet is written.
pub proof fn only_what_is_not_kept_writes_nothing<M, X, R, H>(
    action: PacketAction<M, X, R, H>,
    no_dialog: bool,
    from: InputOrigin,
    at: Timestamp,
    orphans: bool,
    ops: Vec<StoreOp<M, X, R, H>>,
)
    requires
        call_ensures(process_packet::<M, X, R, H>, (action, no_dialog, from, at, orphans), ops),
    ensures
        ops@.len() == 0 <==> match action {
            PacketAction::Nothing => true,
            PacketAction::Sip { msg, sdp_links } => no_dialog,
            PacketAction::RelayControl { sdp_links } => no_dialog || sdp_links@.len() == 0,
            PacketAction::Rtcp(reports) => false,
            PacketAction::Rtp { hdr, decrypted_payload, via_heuristic } => false,
        },
{
    let views = op_views(ops@);
    assert(views.len() == ops@.len());
}

/// A worker writes what the live path writes when nothing is offered for
/// reconciliation, but keeps a packet's own payload; it counts each message and
/// each RTP packet once, and nothing else, with dialogs or without.
pub proof fn a_worker_writes_and_counts_each_packet_once<M, X, R, H>(
    action: PacketAction<M, X, R, H>,
    no_dialog: bool,
    from: InputOrigin,
    at: Timestamp,
    counts: &mut PacketCounts,
    live: Vec<StoreOp<M, X, R, H>>,
    ops: Vec<StoreOp<M, X, R, H>>,
)
    requires
        call_ensures(process_packet::<M, X, R, H>, (action, no_dialog, from, at, false), live),
        call_ensures(reconstruct::<M, X, R, H>, (action, no_dialog, from, at, counts), ops),
    ensures
        ops@.len() == live@.len(),
        forall|i: int|
            0 <= i < ops@.len() ==> match live@[i] {
                StoreOp::Rtp { hdr, payload } => #[trigger] ops@[i] == (StoreOp::<
                    M,
                    X,
                    R,
                    H,
                >::Rtp { hdr, payload: None }),
                StoreOp::Link(order) => tells_of(
                    ops@[i],
                    order.link,
                    order.provenance.asserted_by,
                    order.provenance.origin,
                    order.provenance.at,
                ),
                other => ops@[i] == other,
            },
        action is Sip ==> final(counts).sip == old(counts).sip + 1 && final(counts).rtp == old(
            counts,
        ).rtp,
        action is Rtp ==> final(counts).rtp == old(counts).rtp + 1 && final(counts).sip == old(
            counts,
        ).sip,
        !(action is Sip) && !(action is Rtp) ==> *final(counts) == *old(counts),
{
    let views = op_views(ops@);
    let lives = op_views(live@);
    assert(views.len() == ops@.len() && lives.len() == live@.len());
    assert(views.len() == lives.len());
    assert forall|i: int| 0 <= i < ops@.len() implies match live@[i] {
        StoreOp::Rtp { hdr, payload } => #[trigger] ops@[i] == (StoreOp::<M, X, R, H>::Rtp {
            hdr,
            payload: None,
        }),
        StoreOp::Link(order) => tells_of(
            ops@[i],
            order.link,
            order.provenance.asserted_by,
            order.provenance.origin,
            order.provenance.at,
        ),
        other => ops@[i] == other,
    } by {
        assert(views[i] == ops@[i]@);
        assert(lives[i] == live@[i]@);
    }
}

/// The links of a description are those of its first media and then those of
/// the others: each medium is read by itself.
pub proof fn each_medium_is_read_by_itself<X>(
    whole: SdpSession<X>,
    a: SdpSession<X>,
    b: SdpSession<X>,
    call_id: &str,
    r: Vec<SdpLink<X>>,
    ra: Vec<SdpLink<X>>,
    rb: Vec<SdpLink<X>>,
)
    requires
        call_ensures(extract_sdp_links::<X>, (whole, call_id), r),
        call_ensures(extract_sdp_links::<X>, (a, call_id), ra),
        call_ensures(extract_sdp_links::<X>, (b, call_id), rb),
        whole.media@ == a.media@ + b.media@,
        whole.connection == a.connection,
        whole.connection == b.connection,
    ensures
        r@.len() == ra@.len() + rb@.len(),
        forall|i: int|
            0 <= i < r@.len() ==> ({
                let of = if i < ra@.len() {
                    ra@[i]
                } else {
                    rb@[i - ra@.len()]
                };
                &&& (#[trigger] r@[i]).ip == of.ip
                &&& r@[i].port == of.port
                &&& r@[i].call_id@ == of.call_id@
                &&& r@[i].media == of.media
            }),
{
    links_concat(a.media@, b.media@, whole.connection, call_id@);
    let v = link_views(r@);
    let va = link_views(ra@);
    let vb = link_views(rb@);
    assert(v == va + vb);
    assert(v.len() == r@.len() && va.len() == ra@.len() && vb.len() == rb@.len());
    assert forall|i: int| 0 <= i < r@.len() implies ({
        let of = if i < ra@.len() {
            ra@[i]
        } else {
            rb@[i - ra@.len()]
        };
        &&& (#[trigger] r@[i]).ip == of.ip
        &&& r@[i].port == of.port
        &&& r@[i].call_id@ == of.call_id@
        &&& r@[i].media == of.media
    }) by {
        assert(v[i] == r@[i]@);
        if i < ra@.len() {
            assert(va[i] == ra@[i]@);
        } else {
            assert(vb[i - ra@.len()] == rb@[i - ra@.len()]@);
        }
    }
}

/// The links of two runs of media are those of the first and then those of the
/// second.
proof fn links_concat<X>(
    a: Seq<SdpMedia<X>>,
    b: Seq<SdpMedia<X>>,
    session: Connection,
    id: Seq<char>,
)
    ensures
        links_of(a + b, session, id) == links_of(
            a,
            session,
            id,
        ) + links_of(b, session, id),
    decreases b.len(),
{
    let all = links_of(a + b, session, id);
    if b.len() == 0 {
        assert(a + b =~= a);
    } else {
        assert((a + b).drop_last() =~= a + b.drop_last());
        links_concat(a, b.drop_last(), session, id);
    }
    assert(all =~= links_of(a, session, id)
        + links_of(b, session, id));
}

/// One medium gives one link, to its own address where it has a line of its
/// own and to the session's where it has none, with its own port and the call
/// that was named; it gives none where that line holds no address.
pub proof fn a_medium_is_linked_at_its_address<X>(
    one: SdpSession<X>,
    call_id: &str,
    r: Vec<SdpLink<X>>,
)
    requires
        call_ensures(extract_sdp_links::<X>, (one, call_id), r),
        one.media@.len() == 1,
    ensures
        one.media@[0].connection matches Connection::Ip(ip) ==> r@.len() == 1 && r@[0].ip == ip,
        one.media@[0].connection is Absent && one.connection is Ip ==> r@.len() == 1 && r@[0].ip
            == one.connection->Ip_0,
        one.media@[0].connection is Name ==> r@.len() == 0,
        one.media@[0].connection is Absent && !(one.connection is Ip) ==> r@.len() == 0,
        r@.len() == 1 ==> r@[0].port == one.media@[0].port && r@[0].call_id@ == call_id@
            && r@[0].media == one.media@[0],
{
    let m = one.media@;
    let v = link_views(r@);
    assert(m.drop_last() =~= seq![]);
    reveal_with_fuel(links_of, 2);
    assert(v.len() == r@.len());
    if r@.len() == 1 {
        assert(v[0] == r@[0]@);
    }
}

/// A description without media gives no link.
pub proof fn without_media_there_is_no_link<X>(
    none: SdpSession<X>,
    call_id: &str,
    r: Vec<SdpLink<X>>,
)
    requires
        call_ensures(extract_sdp_links::<X>, (none, call_id), r),
        none.media@.len() == 0,
    ensures
        r@.len() == 0,
{
    assert(link_views(r@).len() == r@.len());
}

/// What a relay says in control traffic is ordered link for link, as the
/// relay's word, from the source that delivered it and at its time.
pub proof fn a_relays_links_are_all_ordered<X>(
    links: Vec<SdpLink<X>>,
    from: InputOrigin,
    at: Timestamp,
    r: Vec<LinkOrder<X>>,
)
    requires
        call_ensures(apply_relay_control_links::<X>, (links, from, at), r),
    ensures
        r@.len() == links@.len(),
        forall|i: int|
            0 <= i < r@.len() ==> (#[trigger] r@[i]).link == links@[i] && r@[i].provenance == (
            SdpProvenance {
                asserted_by: EndpointAssertion::MediaRelay,
                origin: Some(from),
                at,
            }),
{
    let l = order_links(r@);
    assert(l.len() == r@.len());
    assert forall|i: int| 0 <= i < r@.len() implies (#[trigger] r@[i]).link == links@[i] by {
        assert(l[i] == r@[i].link);
    }
}

/// A snapshot registers every endpoint that the relay named, as the relay's
/// word, at the time it was asked and from no capture; a relay that was never
/// asked registers none.
pub proof fn a_snapshot_registers_every_endpoint(s: RelaySnapshot, r: Vec<EndpointOrder>)
    requires
        call_ensures(apply_relay_snapshot, (s,), r),
    ensures
        s.taken_at is None ==> r@.len() == 0,
        s.taken_at matches Some(at) ==> r@.len() == s.links@.len() && forall|i: int|
            0 <= i < r@.len() ==> (#[trigger] r@[i]).link == s.links@[i] && r@[i].provenance == (
            SdpProvenance { asserted_by: EndpointAssertion::MediaRelay, origin: None, at }),
{
    let l = endpoint_links(r@);
    assert(l.len() == r@.len());
    if s.taken_at is Some {
        assert forall|i: int| 0 <= i < r@.len() implies (#[trigger] r@[i]).link == s.links@[i] by {
            assert(l[i] == r@[i].link);
        }
    }
}

/// Whether one of a packet's ports lies in the range that SIP is looked for
/// in, or there is no such range.
pub open spec fn where_sip_is_looked_for(pp: ParsedPacket, opts: PipelineOptions) -> bool {
    opts.sip_portrange matches Some((lo, hi)) ==> (lo <= pp.src_port && pp.src_port <= hi) || (lo
        <= pp.dst_port && pp.dst_port <= hi)
}

/// Either port inside the range is enough, both ends of the range are inside
/// it, and swapping the ports changes nothing.
pub proof fn one_port_in_the_range_is_enough(a: u16, b: u16, lo: u16, hi: u16, r: bool, s: bool)
    requires
        call_ensures(port_in_range, (a, b, (lo, hi)), r),
        call_ensures(port_in_range, (b, a, (lo, hi)), s),
    ensures
        r == s,
        r <==> !((a < lo || a > hi) && (b < lo || b > hi)),
{
}

/// Every answer leads on toward the same end: what a packet turns out to be is
/// settled by what can be found out about it, and each step asks on toward it
/// or reports it.
pub proof fn every_answer_leads_to_the_packets_end<M, X, R, H>(
    c: &mut Classification,
    pp: &ParsedPacket,
    opts: &PipelineOptions,
    f: Facts<M, X, R, H>,
    q: Question,
    skips: &mut SkipTallies,
    r: Stepped<M, X, R, H>,
)
    requires
        call_ensures(
            Classification::answer::<M, X, R, H>,
            (c, pp, opts, reply_of(f, q), skips),
            r,
        ),
    ensures
        match r.step {
            Step::Ask(next) => asked_out(*pp, *opts, f, q) == asked_out(*pp, *opts, f, next),
            Step::Done { action, report_bad_parse } => asked_out(*pp, *opts, f, q)
                == StepView::<M, X, R, H>::Done(action@, report_bad_parse),
            Step::Inside(inner) => asked_out(*pp, *opts, f, q) == StepView::<M, X, R, H>::Inside(
                inner,
            ),
        },
{
}

/// A packet that begins a SIP message is signaling before it is anything else,
/// on every transport: it becomes its message, with the links of its SDP where
/// dialogs are followed, or nothing where it does not parse, which is said
/// unless that was switched off.
pub proof fn signaling_goes_before_everything<M, X, R, H>(
    pp: &ParsedPacket,
    opts: &PipelineOptions,
    f: Facts<M, X, R, H>,
    begun: (Classification, Question),
    id: &str,
    links: Vec<SdpLink<X>>,
)
    requires
        call_ensures(classify_packet, (pp,), begun),
        where_sip_is_looked_for(*pp, *opts),
        f.starts_sip,
        f.sip matches Some(p) ==> (p.sdp matches Some((sdp, call_id)) ==> id@ == call_id@
            && call_ensures(extract_sdp_links::<X>, (sdp, id), links)),
    ensures
        f.sip is None ==> asked_out(*pp, *opts, f, begun.1) == StepView::<M, X, R, H>::Done(
            ActionView::Nothing,
            !opts.quiet_bad_parse,
        ),
        f.sip matches Some(p) ==> asked_out(*pp, *opts, f, begun.1) == StepView::<
            M,
            X,
            R,
            H,
        >::Done(
            ActionView::Sip(
                p.msg,
                if opts.no_dialog || p.sdp is None {
                    Seq::empty()
                } else {
                    link_views(links@)
                },
            ),
            false,
        ),
{
    reveal_with_fuel(asked_out, 12);
}

/// Only datagrams carry anything but signaling.
pub proof fn only_datagrams_carry_media<M, X, R, H>(
    pp: &ParsedPacket,
    opts: &PipelineOptions,
    f: Facts<M, X, R, H>,
    begun: (Classification, Question),
)
    requires
        call_ensures(classify_packet, (pp,), begun),
        !(f.starts_sip && where_sip_is_looked_for(*pp, *opts)),
        pp.transport != TransportProto::Udp,
    ensures
        asked_out(*pp, *opts, f, begun.1) == StepView::<M, X, R, H>::Done(
            ActionView::Nothing,
            false,
        ),
{
    reveal_with_fuel(asked_out, 12);
}

/// A name lookup is claimed before any control traffic, and control traffic
/// before any media, whether media is followed or not; what was delivered here
/// goes before what was seen on its way elsewhere.
pub proof fn control_traffic_is_never_media<M, X, R, H>(
    pp: &ParsedPacket,
    opts: &PipelineOptions,
    f: Facts<M, X, R, H>,
    begun: (Classification, Question),
)
    requires
        call_ensures(classify_packet, (pp,), begun),
        !(f.starts_sip && where_sip_is_looked_for(*pp, *opts)),
        pp.transport == TransportProto::Udp,
    ensures
        f.llmnr ==> asked_out(*pp, *opts, f, begun.1) == StepView::<M, X, R, H>::Done(
            ActionView::Nothing,
            false,
        ),
        !f.llmnr ==> (f.delivered matches Some(links) ==> asked_out(*pp, *opts, f, begun.1)
            == StepView::<M, X, R, H>::Done(ActionView::RelayControl(link_views(links@)), false)),
        !f.llmnr && f.delivered is None ==> (f.sniffed matches Some(links) ==> asked_out(
            *pp,
            *opts,
            f,
            begun.1,
        ) == StepView::<M, X, R, H>::Done(ActionView::RelayControl(link_views(links@)), false)),
{
    reveal_with_fuel(asked_out, 12);
}

/// A datagram that is neither signaling nor control traffic, with media
/// followed: a handshake and a STUN message are no media, channel data is what
/// it relays, and RTCP is its reports. Anything else is RTP where it is
/// recognized by itself away from the system ports, or by the packets before
/// it on any port, and nothing where it is neither.
pub proof fn media_is_recognized_in_its_order<M, X, R, H>(
    pp: &ParsedPacket,
    opts: &PipelineOptions,
    f: Facts<M, X, R, H>,
    begun: (Classification, Question),
    data: &[u8],
    rtcp: bool,
)
    requires
        call_ensures(classify_packet, (pp,), begun),
        data@ == pp.payload@,
        call_ensures(is_rtcp_packet, (data, pp.dst_port), rtcp),
        !(f.starts_sip && where_sip_is_looked_for(*pp, *opts)),
        pp.transport == TransportProto::Udp,
        !f.llmnr,
        f.delivered is None,
        f.sniffed is None,
    ensures
        ({
            let end = asked_out(*pp, *opts, f, begun.1);
            let nothing = StepView::<M, X, R, H>::Done(ActionView::Nothing, false);
            &&& opts.no_rtp ==> end == nothing
            &&& f.dtls ==> end == nothing
            &&& !opts.no_rtp && !f.dtls ==> {
                &&& f.inner matches Some(inner) ==> end == StepView::<M, X, R, H>::Inside(inner)
                &&& f.inner is None && f.stun ==> end == nothing
                &&& f.inner is None && !f.stun && rtcp ==> (f.rtcp is None ==> end == nothing) && (
                f.rtcp matches Some(reports) ==> end == StepView::<M, X, R, H>::Done(
                    ActionView::Rtcp(reports),
                    false,
                ))
                &&& f.inner is None && !f.stun && !rtcp ==> {
                    let dynamic = pp.src_port >= 1024 && pp.dst_port >= 1024;
                    &&& dynamic ==> (f.strict matches Some((hdr, payload)) ==> end == StepView::<
                        M,
                        X,
                        R,
                        H,
                    >::Done(ActionView::Rtp(hdr, payload, false), false))
                    &&& !dynamic || f.strict is None ==> (f.heuristic is None ==> end == nothing)
                        && (f.heuristic matches Some(hdr) ==> end == StepView::<M, X, R, H>::Done(
                        ActionView::Rtp(hdr, None, true),
                        false,
                    ))
                }
            }
        }),
{
    reveal_with_fuel(asked_out, 12);
}

/// A frame that holds SIP over TCP on a WebSocket port is what SIP is looked
/// for in, and the message is said to have come over a WebSocket; after any
/// other frame it is the packet's own payload and transport.
pub proof fn a_frame_on_its_port_is_unwrapped(
    c: &mut Classification,
    pp: &ParsedPacket,
    opts: &PipelineOptions,
    frame: WsFrame,
    skips: &mut SkipTallies,
    r: Stepped<(), (), (), ()>,
    after: &Classification,
    payload: &Vec<u8>,
    transport: TransportProto,
)
    requires
        call_ensures(
            Classification::answer::<(), (), (), ()>,
            (c, pp, opts, Reply::WebSocket(frame), skips),
            r,
        ),
        *after == *final(c),
        call_ensures(Classification::effective_payload, (after, pp), payload),
        call_ensures(Classification::effective_transport, (after, pp), transport),
    ensures
        r.step == Step::<(), (), (), ()>::Ask(Question::StartsSip),
        ({
            let sip = pp.transport == TransportProto::Tcp && frame.unwrapped is Some
                && frame.starts_sip;
            &&& sip && frame.on_ws_port ==> payload@ == frame.unwrapped->0@ && transport
                == TransportProto::Ws
            &&& !(sip && frame.on_ws_port) ==> payload@ == pp.payload@ && transport == pp.transport
        }),
{
}

/// Whether one more message was counted, on this port and on no other.
pub open spec fn counted_on(before: SkipState, after: SkipState, port: u16) -> bool {
    &&& after.messages == before.messages + 1
    &&& after.counts.len() == before.counts.len()
    &&& after.counts[port as int] == before.counts[port as int] + 1
    &&& forall|p: int|
        0 <= p < before.counts.len() && p != port ==> #[trigger] after.counts[p] == before.counts[p]
}

/// Whether a payload begins like a response.
pub open spec fn begins_like_a_response(payload: Seq<u8>) -> bool {
    &&& payload.len() >= 8
    &&& payload[0] == 0x53 && payload[1] == 0x49 && payload[2] == 0x50 && payload[3] == 0x2F
    &&& payload[4] == 0x32 && payload[5] == 0x2E && payload[6] == 0x30 && payload[7] == 0x20
}

/// SIP outside the range is counted once, on the port that served it: where a
/// request went, and where a response came from. Everything else leaves both
/// tallies as they were.
pub proof fn skipped_sip_is_counted_on_its_service_port<M, X, R, H>(
    c: &mut Classification,
    pp: &ParsedPacket,
    opts: &PipelineOptions,
    reply: Reply<M, X, R, H>,
    skips: &mut SkipTallies,
    r: Stepped<M, X, R, H>,
    before: &Classification,
    payload: &Vec<u8>,
)
    requires
        call_ensures(Classification::answer::<M, X, R, H>, (c, pp, opts, reply, skips), r),
        old(skips).ready(),
        *before == *old(c),
        call_ensures(Classification::effective_payload, (before, pp), payload),
    ensures
        ({
            let out = reply == Reply::<M, X, R, H>::StartsSip(true) && !where_sip_is_looked_for(
                *pp,
                *opts,
            );
            let was = old(skips).portrange.tally@;
            let ends = final(skips).portrange.tally@;
            &&& !out ==> ends == was
            &&& out && begins_like_a_response(payload@) ==> counted_on(was, ends, pp.src_port)
            &&& out && !begins_like_a_response(payload@) ==> counted_on(was, ends, pp.dst_port)
        }),
        !(reply is WebSocket) ==> final(skips).ws.tally@ == old(skips).ws.tally@,
{
    response_begins(payload@);
    counts_can_rise(old(skips).portrange.tally@, pp.src_port);
    counts_can_rise(old(skips).portrange.tally@, pp.dst_port);
}

/// Beginning like a response is beginning with the version and a space.
proof fn response_begins(payload: Seq<u8>)
    ensures
        begins_like_a_response(payload) <==> is_response(payload),
{
    let start = response_start();
    if payload.len() >= 8 {
        let head = payload.take(8);
        if begins_like_a_response(payload) {
            assert(head =~= start);
        }
        if head == start {
            assert forall|i: int| 0 <= i < 8 implies payload[i] == #[trigger] start[i] by {
                assert(head[i] == payload[i]);
            }
        }
    }
}

/// A count of a tally that can count on can rise.
proof fn counts_can_rise(s: SkipState, port: u16)
    requires
        s.valid(),
        s.messages < u64::MAX,
    ensures
        s.counts[port as int] < u64::MAX,
{
    sum_raised(s.counts, port as int);
}

/// SIP in a frame outside the WebSocket ports is counted once, on the port that
/// served it, and not unwrapped; a frame that holds no SIP is neither.
pub proof fn a_frame_elsewhere_is_counted(
    pp: &ParsedPacket,
    frame: WsFrame,
    skips: &mut WsPortSkips,
    r: (Option<Vec<u8>>, Option<String>),
)
    requires
        call_ensures(try_websocket_unwrap, (pp, frame, skips), r),
        old(skips).tally@.valid(),
        old(skips).tally@.messages < u64::MAX,
    ensures
        ({
            let sip = pp.transport == TransportProto::Tcp && frame.unwrapped is Some
                && frame.starts_sip;
            let was = old(skips).tally@;
            let ends = final(skips).tally@;
            &&& sip && frame.on_ws_port ==> r.0 == frame.unwrapped && ends == was
            &&& !sip ==> r.0 is None && ends == was
            &&& sip && !frame.on_ws_port ==> r.0 is None && {
                let inner = frame.unwrapped->0@;
                &&& begins_like_a_response(inner) ==> counted_on(was, ends, pp.src_port)
                &&& !begins_like_a_response(inner) ==> counted_on(was, ends, pp.dst_port)
            }
        }),
{
    if frame.unwrapped is Some {
        response_begins(frame.unwrapped->0@);
    }
    counts_can_rise(old(skips).tally@, pp.src_port);
    counts_can_rise(old(skips).tally@, pp.dst_port);
}

/// Where an endpoint is known from is kept with it: from whom, off which input,
/// and when. A relay that was asked gives no input.
pub proof fn each_source_is_told_apart(
    origin: InputOrigin,
    at: Timestamp,
    seen: SdpProvenance,
    told: SdpProvenance,
    asked: SdpProvenance,
)
    requires
        call_ensures(SdpProvenance::observed, (origin, at), seen),
        call_ensures(SdpProvenance::relay_asserted, (origin, at), told),
        call_ensures(SdpProvenance::relay_queried, (at,), asked),
    ensures
        seen.asserted_by is Signaled && seen.origin == Some(origin) && seen.at == at,
        told.asserted_by is MediaRelay && told.origin == Some(origin) && told.at == at,
        asked.asserted_by is MediaRelay && asked.origin is None && asked.at == at,
{
}

/// What is to be written is shown as what it is: no write stands for another,
/// and each keeps all that it carries.
pub proof fn each_write_is_shown_as_it_is<M, X, R, H>(
    op: StoreOp<M, X, R, H>,
    ops: Seq<StoreOp<M, X, R, H>>,
    i: int,
)
    ensures
        op matches StoreOp::Message(m) ==> op@ == OpView::<M, X, R, H>::Message(m),
        op matches StoreOp::Link(o) ==> (op@ matches OpView::Link(l, p) && p == o.provenance
            && l.ip == o.link.ip && l.port == o.link.port && l.call_id == o.link.call_id@
            && l.media == o.link.media),
        op matches StoreOp::Rtcp(r) ==> op@ == OpView::<M, X, R, H>::Rtcp(r),
        op matches StoreOp::Rtp { hdr, payload } ==> op@ == OpView::<M, X, R, H>::Rtp(hdr, payload),
        op is OfferOrphans ==> op@ is OfferOrphans,
        op_views(ops).len() == ops.len(),
        0 <= i < ops.len() ==> op_views(ops)[i] == ops[i]@,
{
}

/// What a packet is taken for, and what is to be done next, is shown as what it
/// is.
pub proof fn each_answer_is_shown_as_it_is<M, X, R, H>(
    action: PacketAction<M, X, R, H>,
    step: Step<M, X, R, H>,
)
    ensures
        action is Nothing ==> action@ is Nothing,
        action matches PacketAction::Sip { msg, sdp_links } ==> (action@ matches ActionView::Sip(
            m,
            links,
        ) && m == msg && links == link_views(sdp_links@)),
        action matches PacketAction::RelayControl { sdp_links } ==> (
        action@ matches ActionView::RelayControl(links) && links == link_views(sdp_links@)),
        action matches PacketAction::Rtcp(r) ==> action@ == ActionView::<M, X, R, H>::Rtcp(r),
        action matches PacketAction::Rtp { hdr, decrypted_payload, via_heuristic } ==> action@
            == ActionView::<M, X, R, H>::Rtp(hdr, decrypted_payload, via_heuristic),
        step matches Step::Ask(q) ==> step@ == StepView::<M, X, R, H>::Ask(q),
        step matches Step::Done { action, report_bad_parse } ==> step@ == StepView::<
            M,
            X,
            R,
            H,
        >::Done(action@, report_bad_parse),
        step matches Step::Inside(inner) ==> step@ == StepView::<M, X, R, H>::Inside(inner),
{
}

/// By default everything is followed, on every port and with notices, nothing is
/// decrypted, and nothing was skipped.
pub proof fn everything_is_followed_by_default<S, D>(
    opts: PipelineOptions,
    keys: MediaDecrypt<S, D>,
    skips: SkipTallies,
)
    requires
        call_ensures(<PipelineOptions as Default>::default, (), opts),
        call_ensures(<MediaDecrypt<S, D> as Default>::default, (), keys),
        call_ensures(SkipTallies::new, (), skips),
    ensures
        !opts.no_dialog && !opts.no_rtp && opts.sip_portrange is None && !opts.quiet_bad_parse,
        keys.srtp is None && keys.dtls is None,
        skips.portrange.tally@.messages == 0 && skips.ws.tally@.messages == 0,
{
}

} // verus!
