//! What keeping ICMP evidence is for.
//!
//! Each law speaks of what a call is given and what it gives back: what an
//! error is kept as, against whom it is counted, and what is reported of it.
use crate::net::{endpoint_text, ip_text, IpAddr};
use crate::pipeline::evidence::{
    a_dialog_sees_exactly_its_findings, findings_naming, hits, hits_are, icmp_evidence_for,
    icmp_evidence_report,
    icmp_media_findings, icmp_media_queries, icmp_media_report, publish_icmp_media_for_test,
    positions, positions_in_range, record_icmp_error, reset_icmp_evidence, resolve_icmp_media,
    IcmpStores, Resolved,
};
use crate::pipeline::history::{Quote, Report};
use crate::pipeline::icmp::{
    place, place_is, says, tallied, DialogFaults, EndpointState, EndpointTally, Fault, TransportProto,
    UnreachableEndpoint,
};
use crate::pipeline::media::{
    attributed_and_unattributed_are_all, attributed_errors, finding_says, flow_of, flow_payload,
    flow_place, flow_place_is, media_errors, is_fault_of, newest_media, recorded, report_says,
    Finding, FlowAnswer, FlowQuery, FlowState, MediaFault, MediaMatch, MediaReport, QuotedFlow,
};
use crate::pipeline::quote::{
    quoted_media_kind, quoted_sip_prefix, QuotedMediaKind, QuotedSipPrefix,
};
use crate::pipeline::quoting::agree;
use crate::sort::{in_rank_order, Ranked};
use crate::text::decimal_text;
use std::sync::Arc;
use vstd::prelude::*;
use vstd::seq_lib::*;

verus! {

/// Whether one endpoint is another.
pub open spec fn same_endpoint(u: UnreachableEndpoint, addr: IpAddr, port: Option<u16>) -> bool {
    u.addr == addr && u.port == port
}

/// Whether a tally counts one error more against an endpoint: a listed one
/// counts one more and takes the newest words, a new one is listed while there
/// is room for it, and one that is not listed is counted as such.
pub open spec fn one_more_against(
    before: EndpointState,
    after: EndpointState,
    addr: IpAddr,
    port: Option<u16>,
    description: &'static str,
) -> bool {
    ||| exists|i: int|
        {
            &&& 0 <= i < before.list.len()
            &&& same_endpoint(#[trigger] before.list[i], addr, port)
            &&& after.untallied == before.untallied
            &&& after.list.len() == before.list.len()
            &&& same_endpoint(after.list[i], addr, port)
            &&& after.list[i].errors == before.list[i].errors + 1
            &&& after.list[i].description == description
            &&& forall|k: int|
                0 <= k < before.list.len() && k != i ==> #[trigger] after.list[k] == before.list[k]
        }
    ||| {
        &&& forall|i: int|
            0 <= i < before.list.len() ==> !same_endpoint(#[trigger] before.list[i], addr, port)
        &&& before.list.len() < 4096
        &&& after.untallied == before.untallied
        &&& after.list == before.list.push(UnreachableEndpoint { addr, port, errors: 1, description })
    }
    ||| {
        &&& forall|i: int|
            0 <= i < before.list.len() ==> !same_endpoint(#[trigger] before.list[i], addr, port)
        &&& before.list.len() >= 4096
        &&& after.untallied == before.untallied + 1
        &&& after.list == before.list
    }
}

/// Noting an error counts one more against its endpoint.
proof fn noting_counts_one_more(
    s: EndpointState,
    addr: IpAddr,
    port: Option<u16>,
    description: &'static str,
)
    requires
        s.valid(),
        forall|i: int| 0 <= i < s.list.len() ==> (#[trigger] s.list[i]).errors < u64::MAX,
    ensures
        one_more_against(s, s.noted(addr, port, description), addr, port, description),
{
    place_is(s.list, addr, port);
    let p: int = place(s.list, addr, port) as int;
    let after = s.noted(addr, port, description);
    if p < s.list.len() {
        assert(same_endpoint(s.list[p], addr, port));
    }
}

/// An error's place in a tally is within the errors that the tally accounts
/// for.
proof fn each_count_is_accounted_for(list: Seq<UnreachableEndpoint>, i: int)
    requires
        0 <= i < list.len(),
    ensures
        list[i].errors <= tallied(list),
    decreases list.len(),
{
    if i < list.len() - 1 {
        each_count_is_accounted_for(list.drop_last(), i);
    }
}

/// An endpoint is counted against by its own address and port, and the newest
/// words about it stand.
pub proof fn an_error_counts_against_its_endpoint(
    t: &mut EndpointTally,
    addr: IpAddr,
    port: Option<u16>,
    description: &'static str,
)
    requires
        call_ensures(EndpointTally::note, (t, addr, port, description), ()),
        old(t)@.valid(),
        old(t)@.accounted() < u64::MAX,
    ensures
        one_more_against(old(t)@, final(t)@, addr, port, description),
{
    assert forall|i: int| 0 <= i < old(t)@.list.len() implies (#[trigger] old(t)@.list[i]).errors
        < u64::MAX by {
        each_count_is_accounted_for(old(t)@.list, i);
    }
    noting_counts_one_more(old(t)@, addr, port, description);
}

/// Whether evidence says what a quote says: that its destination did not
/// answer, who noticed, in whose words, and which request it was.
pub open spec fn kept_of(e: Fault, q: Quote, sip: QuotedSipPrefix) -> bool {
    &&& e.timestamp == q.timestamp
    &&& e.unreachable_addr == q.quoted_dst
    &&& e.unreachable_port == q.quoted_dst_port
    &&& e.reported_by == q.reporter
    &&& e.icmp_type == q.icmp_type && e.icmp_code == q.icmp_code
    &&& e.description == q.description
    &&& e.truncated == q.quoted_truncated
    &&& e.quoted_bytes == q.quoted_payload@.len()
    &&& e.method is Some && e.method->0@ == sip.method@
    &&& agree(e.call_id, sip.call_id)
    &&& agree(e.cseq, sip.cseq)
}

/// Whether a quote names this dialog.
pub open spec fn names_dialog(sip: Option<QuotedSipPrefix>, id: Seq<char>) -> bool {
    sip matches Some(q) && q.call_id is Some && q.call_id->0@ == id
}

/// A request that failed is kept for the dialog it names, and for no other: its
/// count rises by one, and the error is kept behind those before it until there
/// are eight. A dialog that is new is kept while there is room for it.
pub proof fn a_failed_request_is_kept_for_its_dialog(
    stores: &mut IcmpStores,
    before: &IcmpStores,
    after: &IcmpStores,
    quote: &Quote,
    payload: &[u8],
    sip: Option<QuotedSipPrefix>,
    r: bool,
    id: &str,
    was: DialogFaults,
    ends: DialogFaults,
)
    requires
        call_ensures(record_icmp_error, (stores, quote), r),
        *before == *old(stores),
        *after == *final(stores),
        payload@ == quote.quoted_payload@,
        call_ensures(quoted_sip_prefix, (payload,), sip),
        call_ensures(icmp_evidence_for, (before, id), was),
        call_ensures(icmp_evidence_for, (after, id), ends),
        before.signaling@.valid(),
    ensures
        r <==> sip is Some,
        ({
            let known = before.signaling@.dialogs.dom().contains(id@);
            let room = before.signaling@.dialogs.dom().len() < 10_000;
            &&& names_dialog(sip, id@) && (known || room) ==> {
                &&& ends.errors == was.errors + 1
                &&& was.samples@.len() < 8 ==> ends.samples@.len() == was.samples@.len() + 1
                    && ends.samples@.drop_last() == was.samples@ && kept_of(
                    ends.samples@.last(),
                    *quote,
                    sip->0,
                )
                &&& was.samples@.len() >= 8 ==> ends.samples@ == was.samples@
            }
            &&& !names_dialog(sip, id@) || !(known || room) ==> ends.errors == was.errors
                && ends.samples@ == was.samples@
        }),
{
    if r {
        let e = choose|e: Fault|
            #[trigger] says(e, *quote) && final(stores).signaling@ == old(
                stores,
            ).signaling@.recorded(*quote, e);
        assert(kept_of(e, *quote, sip->0));
        if names_dialog(sip, id@) {
            assert(ends.samples@.drop_last() =~= was.samples@ || ends.samples@ == was.samples@);
        }
    }
}

/// Every error is counted once: as one about signaling where it quotes a
/// request, attributed where that names a dialog, and as one about media where
/// it does not; its endpoint, the destination that did not answer, is counted
/// against in that store alone.
pub proof fn every_error_is_counted_once(
    stores: &mut IcmpStores,
    quote: &Quote,
    payload: &[u8],
    sip: Option<QuotedSipPrefix>,
    r: bool,
)
    requires
        call_ensures(record_icmp_error, (stores, quote), r),
        payload@ == quote.quoted_payload@,
        call_ensures(quoted_sip_prefix, (payload,), sip),
        old(stores).valid(),
        old(stores).signaling@.errors < u64::MAX,
        old(stores).media@.errors < u64::MAX,
    ensures
        sip matches Some(q) ==> {
            let was = old(stores).signaling@;
            let ends = final(stores).signaling@;
            &&& final(stores).media@ == old(stores).media@
            &&& ends.errors == was.errors + 1
            &&& q.call_id is Some ==> ends.attributed == was.attributed + 1 && ends.unattributed
                == was.unattributed
            &&& q.call_id is None ==> ends.attributed == was.attributed && ends.unattributed
                == was.unattributed + 1 && ends.dialogs == was.dialogs && ends.untracked_dialogs
                == was.untracked_dialogs
            &&& q.call_id matches Some(id) ==> ends.untracked_dialogs == was.untracked_dialogs + if
                !was.dialogs.dom().contains(id@) && was.dialogs.dom().len() >= 10_000 {
                1nat
            } else {
                0nat
            }
            &&& one_more_against(
                was.endpoints,
                ends.endpoints,
                quote.quoted_dst,
                quote.quoted_dst_port,
                quote.description,
            )
        },
        sip is None ==> {
            let was = old(stores).media@;
            let ends = final(stores).media@;
            &&& final(stores).signaling@ == old(stores).signaling@
            &&& ends.errors == was.errors + 1
            &&& one_more_against(
                was.endpoints,
                ends.endpoints,
                quote.quoted_dst,
                quote.quoted_dst_port,
                quote.description,
            )
        },
        final(stores).resolved == old(stores).resolved,
{
    let s = old(stores).signaling@.endpoints;
    let m = old(stores).media@.endpoints;
    assert forall|i: int| 0 <= i < s.list.len() implies (#[trigger] s.list[i]).errors
        < u64::MAX by {
        each_count_is_accounted_for(s.list, i);
    }
    assert forall|i: int| 0 <= i < m.list.len() implies (#[trigger] m.list[i]).errors
        < u64::MAX by {
        each_count_is_accounted_for(m.list, i);
    }
    noting_counts_one_more(s, quote.quoted_dst, quote.quoted_dst_port, quote.description);
    noting_counts_one_more(m, quote.quoted_dst, quote.quoted_dst_port, quote.description);
}

/// Whether a media error is kept as what its quote says.
pub open spec fn media_kept_of(e: MediaFault, q: Quote, kind: QuotedMediaKind) -> bool {
    &&& e.timestamp == q.timestamp
    &&& e.reported_by == q.reporter
    &&& e.icmp_type == q.icmp_type && e.icmp_code == q.icmp_code
    &&& e.description == q.description
    &&& e.payload == kind
    &&& e.truncated == q.quoted_truncated
    &&& e.quoted_bytes == q.quoted_payload@.len()
}

/// Whether a quote reached both ports and the transport of this flow.
pub open spec fn quotes_flow(q: Quote, flow: QuotedFlow) -> bool {
    &&& q.quoted_src_port == Some(flow.src.port)
    &&& q.quoted_dst_port == Some(flow.dst.port)
    &&& q.quoted_transport == Some(flow.transport)
    &&& q.quoted_src == flow.src.ip
    &&& q.quoted_dst == flow.dst.ip
}

/// A media error is kept on the flow it quotes, from its source to the
/// destination that did not answer: its count rises by one, and the error is
/// kept behind those before it until there are eight. A new flow is kept while
/// there is room. An error without a flow, and one of a flow there is no room
/// for, are counted as such.
pub proof fn a_media_error_is_kept_on_its_flow(
    stores: &mut IcmpStores,
    quote: &Quote,
    payload: &[u8],
    sip: Option<QuotedSipPrefix>,
    kind: QuotedMediaKind,
    flow: QuotedFlow,
    i: int,
    r: bool,
)
    requires
        call_ensures(record_icmp_error, (stores, quote), r),
        payload@ == quote.quoted_payload@,
        call_ensures(quoted_sip_prefix, (payload,), sip),
        call_ensures(quoted_media_kind, (payload,), kind),
        sip is None,
        old(stores).media@.valid(),
    ensures
        ({
            let was = old(stores).media@;
            let ends = final(stores).media@;
            let keyed = quote.quoted_src_port is Some && quote.quoted_dst_port is Some
                && quote.quoted_transport is Some;
            let new = forall|k: int|
                0 <= k < was.flows.len() ==> !quotes_flow(*quote, (#[trigger] was.flows[k]).flow);
            &&& !keyed ==> ends.unkeyed == was.unkeyed + 1 && ends.flows == was.flows
                && ends.untracked_flows == was.untracked_flows
            &&& keyed ==> ends.unkeyed == was.unkeyed
            &&& 0 <= i < was.flows.len() && quotes_flow(*quote, was.flows[i].flow) ==> {
                &&& ends.untracked_flows == was.untracked_flows
                &&& ends.flows.len() == was.flows.len()
                &&& ends.flows[i].flow == was.flows[i].flow
                &&& ends.flows[i].errors == was.flows[i].errors + 1
                &&& was.flows[i].samples.len() < 8 ==> ends.flows[i].samples.len()
                    == was.flows[i].samples.len() + 1 && ends.flows[i].samples.drop_last()
                    == was.flows[i].samples && media_kept_of(
                    ends.flows[i].samples.last(),
                    *quote,
                    kind,
                )
                &&& was.flows[i].samples.len() >= 8 ==> ends.flows[i].samples == was.flows[i].samples
                &&& forall|k: int|
                    0 <= k < was.flows.len() && k != i ==> #[trigger] ends.flows[k] == was.flows[k]
            }
            &&& new && quotes_flow(*quote, flow) && was.flows.len() < 4096 ==> {
                &&& ends.untracked_flows == was.untracked_flows
                &&& ends.flows.len() == was.flows.len() + 1
                &&& ends.flows.drop_last() == was.flows
                &&& ends.flows.last().flow == flow
                &&& ends.flows.last().errors == 1
                &&& ends.flows.last().samples.len() == 1
                &&& media_kept_of(ends.flows.last().samples[0], *quote, kind)
            }
            &&& new && keyed && was.flows.len() >= 4096 ==> ends.flows == was.flows
                && ends.untracked_flows == was.untracked_flows + 1
        }),
{
    let was = old(stores).media@;
    let ends = final(stores).media@;
    let e = choose|e: MediaFault|
        #[trigger] is_fault_of(e, *quote) && ends
            == recorded(was, *quote, e);
    assert(media_kept_of(e, *quote, kind));
    if let Some(f) = flow_of(*quote) {
        assert(quotes_flow(*quote, f));
        flow_place_is(was.flows, f);
        let p: int = flow_place(was.flows, f) + 0int;
        if 0 <= i < was.flows.len() && quotes_flow(*quote, was.flows[i].flow) {
            assert(was.flows[i].flow == f);
            assert(p == i) by {
                if p < i {
                    assert(was.flows[p].flow != was.flows[i].flow);
                }
                if i < p {
                    assert(was.flows[i].flow != f);
                }
            }
            if was.flows[i].samples.len() < 8 {
                assert(ends.flows[i].samples.drop_last() =~= was.flows[i].samples);
            }
        }
        if forall|k: int|
            0 <= k < was.flows.len() ==> !quotes_flow(*quote, (#[trigger] was.flows[k]).flow) {
            assert(p == was.flows.len()) by {
                if p < was.flows.len() {
                    assert(quotes_flow(*quote, was.flows[p].flow));
                }
            }
            if was.flows.len() < 4096 {
                assert(ends.flows.drop_last() =~= was.flows);
            }
        }
    }
}

/// Whether one endpoint is reported before another: more errors first, then
/// IPv4 before IPv6 and lower addresses first, then no port before any and
/// lower ports first.
pub open spec fn reported_before(a: UnreachableEndpoint, b: UnreachableEndpoint) -> bool {
    ||| a.errors > b.errors
    ||| a.errors == b.errors && match (a.addr, b.addr) {
        (IpAddr::V4(x), IpAddr::V4(y)) => x < y,
        (IpAddr::V6(x), IpAddr::V6(y)) => x < y,
        (IpAddr::V4(_), IpAddr::V6(_)) => true,
        (IpAddr::V6(_), IpAddr::V4(_)) => false,
    }
    ||| a.errors == b.errors && a.addr == b.addr && match (a.port, b.port) {
        (None, _) => true,
        (Some(_), None) => false,
        (Some(x), Some(y)) => x <= y,
    }
}

/// The report on signaling gives every total, and every endpoint that is
/// listed, the busiest first.
pub proof fn the_signaling_report_gives_every_total(stores: &IcmpStores, r: Report)
    requires
        call_ensures(icmp_evidence_report, (stores,), r),
    ensures
        r.errors == stores.signaling@.errors,
        r.attributed == stores.signaling@.attributed,
        r.unattributed == stores.signaling@.unattributed,
        r.untracked_dialogs == stores.signaling@.untracked_dialogs,
        r.untallied_endpoints == stores.signaling@.endpoints.untallied,
        r.endpoints@.to_multiset() == stores.signaling@.endpoints.list.to_multiset(),
        forall|i: int, j: int|
            0 <= i < j < r.endpoints@.len() ==> reported_before(
                #[trigger] r.endpoints@[i],
                #[trigger] r.endpoints@[j],
            ),
{
    reported_in_order(r.endpoints@);
}

/// Endpoints in rank order are reported in their order.
proof fn reported_in_order(s: Seq<UnreachableEndpoint>)
    requires
        in_rank_order(s),
    ensures
        forall|i: int, j: int|
            0 <= i < j < s.len() ==> reported_before(#[trigger] s[i], #[trigger] s[j]),
{
    assert forall|i: int, j: int| 0 <= i < j < s.len() implies reported_before(
        #[trigger] s[i],
        #[trigger] s[j],
    ) by {
        assert(Ranked::ranks_before(s[i], s[j]));
    }
}

/// What a flow carried: the newest kept error that reached media says it, and
/// where none did the newest of all.
pub open spec fn carried(samples: Seq<MediaFault>, kind: QuotedMediaKind) -> bool {
    ||| exists|i: int|
        {
            &&& 0 <= i < samples.len()
            &&& (#[trigger] samples[i]).payload == kind
            &&& kind is Rtp || kind is Rtcp
            &&& forall|k: int|
                i < k < samples.len() ==> !((#[trigger] samples[k]).payload is Rtp)
                    && !(samples[k].payload is Rtcp)
        }
    ||| {
        &&& forall|k: int|
            0 <= k < samples.len() ==> !((#[trigger] samples[k]).payload is Rtp)
                && !(samples[k].payload is Rtcp)
        &&& kind == samples.last().payload
    }
}

/// The newest error that reached media.
proof fn newest_is(samples: Seq<MediaFault>)
    requires
        samples.len() > 0,
    ensures
        carried(samples, flow_payload(samples)),
        newest_media(samples) is None ==> forall|k: int|
            0 <= k < samples.len() ==> !((#[trigger] samples[k]).payload is Rtp)
                && !(samples[k].payload is Rtcp),
    decreases samples.len(),
{
    let last = samples.last();
    if last.payload.is_media_spec() {
        assert(samples[samples.len() - 1].payload == flow_payload(samples));
    } else {
        let front = samples.drop_last();
        if front.len() > 0 {
            newest_is(front);
        }
        if newest_media(samples) is Some {
            let kind = newest_media(samples)->0;
            assert(newest_media(front) == Some(kind));
            assert(front.len() > 0);
            newest_is_media(front);
            let i = choose|i: int|
                {
                    &&& 0 <= i < front.len()
                    &&& (#[trigger] front[i]).payload == kind
                    &&& kind is Rtp || kind is Rtcp
                    &&& forall|k: int|
                        i < k < front.len() ==> !((#[trigger] front[k]).payload is Rtp)
                            && !(front[k].payload is Rtcp)
                };
            assert(samples[i] == front[i]);
            assert forall|k: int| i < k < samples.len() implies !((
            #[trigger] samples[k]).payload is Rtp) && !(samples[k].payload is Rtcp) by {
                if k < front.len() {
                    assert(samples[k] == front[k]);
                }
            }
        } else {
            assert forall|k: int| 0 <= k < samples.len() implies !((
            #[trigger] samples[k]).payload is Rtp) && !(samples[k].payload is Rtcp) by {
                if k < front.len() {
                    assert(samples[k] == front[k]);
                }
            }
        }
    }
}

/// What is found as media is media.
proof fn newest_is_media(samples: Seq<MediaFault>)
    ensures
        newest_media(samples) matches Some(k) ==> k is Rtp || k is Rtcp,
    decreases samples.len(),
{
    if samples.len() > 0 {
        newest_is_media(samples.drop_last());
    }
}

/// What is asked of the streams about each flow: its two sockets, the source
/// that a quote reached, and its newest kept error.
pub proof fn each_flow_is_asked_about(stores: &IcmpStores, r: Vec<FlowQuery>, i: int)
    requires
        call_ensures(icmp_media_queries, (stores,), r),
        stores.media@.valid(),
    ensures
        r@.len() == stores.media@.flows.len(),
        0 <= i < r@.len() ==> {
            let f = stores.media@.flows[i];
            &&& r@[i].src == f.flow.src
            &&& r@[i].dst == f.flow.dst
            &&& r@[i].last == f.samples.last()
            &&& forall|kind: QuotedMediaKind| #[trigger] carried(f.samples, kind) ==> match kind {
                QuotedMediaKind::Rtp { ssrc, payload_type } => r@[i].ssrc == Some(ssrc),
                QuotedMediaKind::Rtcp { ssrc, packet_type } => r@[i].ssrc == Some(ssrc),
                _ => r@[i].ssrc is None,
            }
        },
{
    if 0 <= i < r@.len() {
        let f = stores.media@.flows[i];
        assert(f.samples.len() > 0);
        newest_is(f.samples);
        assert forall|kind: QuotedMediaKind| #[trigger] carried(f.samples, kind) implies kind
            == flow_payload(f.samples) by {
            carried_is_one(f.samples, kind, flow_payload(f.samples));
        }
    }
}

/// A flow carried one thing.
proof fn carried_is_one(samples: Seq<MediaFault>, a: QuotedMediaKind, b: QuotedMediaKind)
    requires
        samples.len() > 0,
        carried(samples, a),
        carried(samples, b),
    ensures
        a == b,
{
    let none = forall|k: int|
        0 <= k < samples.len() ==> !((#[trigger] samples[k]).payload is Rtp)
            && !(samples[k].payload is Rtcp);
    if !none {
        let i = choose|i: int|
            {
                &&& 0 <= i < samples.len()
                &&& (#[trigger] samples[i]).payload == a
                &&& a is Rtp || a is Rtcp
                &&& forall|k: int|
                    i < k < samples.len() ==> !((#[trigger] samples[k]).payload is Rtp)
                        && !(samples[k].payload is Rtcp)
            };
        let j = choose|i: int|
            {
                &&& 0 <= i < samples.len()
                &&& (#[trigger] samples[i]).payload == b
                &&& b is Rtp || b is Rtcp
                &&& forall|k: int|
                    i < k < samples.len() ==> !((#[trigger] samples[k]).payload is Rtp)
                        && !(samples[k].payload is Rtcp)
            };
        if i < j {
            assert(!(samples[j].payload is Rtp));
        }
        if j < i {
            assert(!(samples[i].payload is Rtp));
        }
    }
}

/// Whether a finding's hint says in words what the finding tells: what failed,
/// from where to where, how often where it was more than once, who noticed, what
/// it was tied to, how many calls that affects, what it sounds like where media
/// was involved, and what to do.
pub open spec fn hint_tells(f: Finding, transport: Seq<char>, remedy: Seq<char>) -> bool {
    let what = match f.payload {
        QuotedMediaKind::Rtp { ssrc, payload_type } => "RTP (payload type "@ + decimal_text(
            payload_type as nat,
        ) + ")"@,
        QuotedMediaKind::Rtcp { ssrc, packet_type } => "RTCP (type "@ + decimal_text(
            packet_type as nat,
        ) + ")"@,
        _ => "a "@ + transport + " datagram"@,
    };
    let times = if f.errors == 1 {
        seq![]
    } else {
        " ("@ + decimal_text(f.errors as nat) + " times)"@
    };
    let placed = match f.matched {
        MediaMatch::Flow => "This is one of the media streams in this capture"@,
        MediaMatch::Ssrc => "The SSRC in the quote belongs to a media stream in this capture"@,
        MediaMatch::Endpoint => "That socket carries one of the media streams in this capture"@,
        MediaMatch::SdpEndpoint => "That socket was negotiated in SDP for a call in this capture"@,
        MediaMatch::Unmatched =>
            "It matched no stream in this capture, so the evidence is reported without a call — the endpoint is real either way"@,
    };
    let calls = if f.call_ids@.len() == 0 {
        seq![]
    } else {
        " ("@ + decimal_text(f.call_ids@.len()) + " call(s) affected)"@
    };
    let heard = if f.matched is Unmatched && !(f.payload is Rtp) && !(f.payload is Rtcp) {
        seq![]
    } else {
        " Audio sent that way is discarded before it arrives, which is heard as one-way or missing audio."@
    };
    f.hint@ == "ICMP "@ + f.description@ + ": "@ + what + " from "@ + f.source@ + " to "@
        + f.unreachable_endpoint@ + " could not be delivered"@ + times + ", reported by "@
        + f.reported_by@ + ". "@ + placed + calls + "."@ + heard + " "@ + remedy
}

/// Whether a finding tells of a flow: who sent, who did not answer, who noticed
/// and in which words, how often, what was carried, and what it was tied to.
pub open spec fn tells_of_flow(f: Finding, s: FlowState, a: FlowAnswer) -> bool {
    &&& f.source@ == endpoint_text(s.flow.src.ip, s.flow.src.port)
    &&& f.unreachable_endpoint@ == endpoint_text(s.flow.dst.ip, s.flow.dst.port)
    &&& f.reported_by@ == ip_text(s.samples.last().reported_by)
    &&& f.description@ == s.samples.last().description@
    &&& f.icmp_type == s.samples.last().icmp_type
    &&& f.icmp_code == s.samples.last().icmp_code
    &&& f.errors == s.errors
    &&& carried(s.samples, f.payload)
    &&& f.matched == a.attribution.matched
    &&& f.streams == a.attribution.streams
    &&& f.call_ids == a.attribution.call_ids
    &&& hint_tells(f, f.transport@, a.remedy@)
    &&& match s.flow.transport {
        TransportProto::Udp => f.transport@ == "UDP"@,
        TransportProto::Tcp => f.transport@ == "TCP"@,
        TransportProto::Tls => f.transport@ == "TLS"@,
        TransportProto::Ws => f.transport@ == "WS"@,
        TransportProto::Sctp => f.transport@ == "SCTP"@,
    }
}

/// Errors of the findings that a condition picks.
pub open spec fn errors_where(flows: Seq<Finding>, pick: spec_fn(Finding) -> bool) -> nat
    decreases flows.len(),
{
    if flows.len() == 0 {
        0
    } else {
        errors_where(flows.drop_last(), pick) + if pick(flows.last()) {
            flows.last().errors as nat
        } else {
            0nat
        }
    }
}

/// Whether a finding was tied to something.
pub open spec fn tied() -> spec_fn(Finding) -> bool {
    |f: Finding| f.matched != MediaMatch::Unmatched
}

/// Whether a finding is about media: it was tied to something, or its payload
/// says so.
pub open spec fn about_media() -> spec_fn(Finding) -> bool {
    |f: Finding| f.matched != MediaMatch::Unmatched || f.payload is Rtp || f.payload is Rtcp
}

/// The picked errors, added up from the front.
proof fn errors_where_folds(
    flows: Seq<Finding>,
    pick: spec_fn(Finding) -> bool,
    f: spec_fn(nat, Finding) -> nat,
)
    requires
        f == (|sum: nat, x: Finding|
            sum + if pick(x) {
                x.errors as nat
            } else {
                0nat
            }),
    ensures
        flows.fold_left(0nat, f) == errors_where(flows, pick),
    decreases flows.len(),
{
    if flows.len() > 0 {
        errors_where_folds(flows.drop_last(), pick, f);
    }
}

/// In whatever order they are listed, the picked findings add up to the same.
proof fn picked_in_any_order(a: Seq<Finding>, b: Seq<Finding>, pick: spec_fn(Finding) -> bool)
    requires
        a.to_multiset() == b.to_multiset(),
    ensures
        errors_where(a, pick) == errors_where(b, pick),
{
    let f = |sum: nat, x: Finding|
        sum + if pick(x) {
            x.errors as nat
        } else {
            0nat
        };
    errors_where_folds(a, pick, f);
    errors_where_folds(b, pick, f);
    lemma_fold_left_permutation(a, b, f, 0nat);
}

/// The totals of a report are what its findings add up to.
proof fn totals_of_findings(all: Seq<Finding>, flows: Seq<FlowState>, answers: Seq<FlowAnswer>)
    requires
        all.len() == flows.len(),
        forall|i: int|
            0 <= i < all.len() ==> finding_says(
                #[trigger] all[i],
                flows[i],
                answers[i],
            ),
    ensures
        errors_where(all, tied()) == attributed_errors(flows, answers),
        errors_where(all, about_media()) == media_errors(flows, answers),
    decreases all.len(),
{
    if all.len() > 0 {
        let front = all.drop_last();
        assert forall|i: int| 0 <= i < front.len() implies finding_says(
            #[trigger] front[i],
            flows.drop_last()[i],
            answers[i],
        ) by {
            assert(front[i] == all[i]);
        }
        totals_of_findings(front, flows.drop_last(), answers);
        let n = all.len() - 1;
        assert(finding_says(all[n], flows[n], answers[n]));
    }
}

/// The report on media has one finding for each flow, which tells of it; its
/// totals are those of the store, and those that its findings add up to: what
/// was tied to something is attributed, and what was tied or proves itself
/// media is media. Endpoints and flows come busiest first.
pub proof fn the_media_report_tells_of_every_flow(
    stores: &IcmpStores,
    answers: Vec<FlowAnswer>,
    r: MediaReport,
    i: int,
)
    requires
        call_ensures(icmp_media_report, (stores, answers), r),
        stores.media@.valid(),
        answers@.len() == stores.media@.flows.len(),
    ensures
        r.errors == stores.media@.errors,
        r.unkeyed == stores.media@.unkeyed,
        r.untracked_flows == stores.media@.untracked_flows,
        r.untallied_endpoints == stores.media@.endpoints.untallied,
        r.attributed == errors_where(r.flows@, tied()),
        r.media == errors_where(r.flows@, about_media()),
        r.attributed + r.unattributed == r.errors,
        r.flows@.len() == stores.media@.flows.len(),
        0 <= i < answers@.len() ==> exists|k: int|
            0 <= k < r.flows@.len() && tells_of_flow(
                #[trigger] r.flows@[k],
                stores.media@.flows[i],
                answers@[i],
            ),
        forall|a: int, b: int|
            0 <= a < b < r.flows@.len() ==> (#[trigger] r.flows@[a]).errors >= (
            #[trigger] r.flows@[b]).errors,
        r.endpoints@.to_multiset() == stores.media@.endpoints.list.to_multiset(),
        forall|a: int, b: int|
            0 <= a < b < r.endpoints@.len() ==> reported_before(
                #[trigger] r.endpoints@[a],
                #[trigger] r.endpoints@[b],
            ),
{
    broadcast use group_to_multiset_ensures;

    let s = stores.media@;
    let all = choose|all: Seq<Finding>|
        {
            &&& all.len() == s.flows.len()
            &&& forall|i: int|
                0 <= i < all.len() ==> finding_says(
                    #[trigger] all[i],
                    s.flows[i],
                    answers@[i],
                )
            &&& #[trigger] all.to_multiset() == r.flows@.to_multiset()
        };
    totals_of_findings(all, s.flows, answers@);
    picked_in_any_order(all, r.flows@, tied());
    picked_in_any_order(all, r.flows@, about_media());
    attributed_and_unattributed_are_all(r, s, answers@);
    assert(all.to_multiset().len() == r.flows@.to_multiset().len());
    reported_in_order(r.endpoints@);
    assert forall|a: int, b: int| 0 <= a < b < r.flows@.len() implies (
    #[trigger] r.flows@[a]).errors >= (#[trigger] r.flows@[b]).errors by {
        assert(Ranked::ranks_before(r.flows@[a], r.flows@[b]));
    }
    if 0 <= i < answers@.len() {
        let f = all[i];
        assert(finding_says(f, s.flows[i], answers@[i]));
        assert(s.flows[i].samples.len() > 0);
        newest_is(s.flows[i].samples);
        assert(all.contains(f));
        assert(r.flows@.to_multiset().count(f) > 0);
        assert(r.flows@.contains(f));
        let k = choose|k: int| 0 <= k < r.flows@.len() && r.flows@[k] == f;
        assert(tells_of_flow(r.flows@[k], s.flows[i], answers@[i]));
    }
}

/// Resolving answers what the report says, and publishes it unless a known set
/// is kept; what was published is what is found.
pub proof fn what_was_resolved_is_found(
    stores: &mut IcmpStores,
    answers: Vec<FlowAnswer>,
    r: Arc<Resolved>,
    after: &IcmpStores,
    found: Arc<Resolved>,
    ledger: &MediaReport,
)
    requires
        call_ensures(resolve_icmp_media, (stores, answers), r),
        *after == *final(stores),
        call_ensures(icmp_media_findings, (after,), found),
        call_ensures(Resolved::report, (&*r,), ledger),
    ensures
        !old(stores).pinned ==> found == r,
        old(stores).pinned && old(stores).resolved is Some ==> found == old(stores).resolved->0,
        report_says(*ledger, old(stores).media@, answers@),
        final(stores).media@ == old(stores).media@,
        final(stores).signaling@ == old(stores).signaling@,
{
}

/// Before anything was resolved nothing is found, and after a reset nothing is
/// left: no errors, no evidence against any dialog, and no findings.
pub proof fn nothing_is_found_before_or_after(
    stores: &mut IcmpStores,
    after: &IcmpStores,
    found: Arc<Resolved>,
    ledger: &MediaReport,
    id: &str,
    d: DialogFaults,
    report: Report,
)
    requires
        call_ensures(reset_icmp_evidence, (stores,), ()),
        *after == *final(stores),
        call_ensures(icmp_media_findings, (after,), found),
        call_ensures(Resolved::report, (&*found,), ledger),
        call_ensures(icmp_evidence_for, (after, id), d),
        call_ensures(icmp_evidence_report, (after,), report),
    ensures
        ledger.errors == 0 && ledger.media == 0 && ledger.attributed == 0 && ledger.unattributed
            == 0 && ledger.unkeyed == 0 && ledger.untracked_flows == 0
            && ledger.untallied_endpoints == 0,
        ledger.flows@.len() == 0,
        ledger.endpoints@.len() == 0,
        d.errors == 0,
        d.samples@.len() == 0,
        report.errors == 0 && report.attributed == 0 && report.unattributed == 0,
        report.endpoints@.len() == 0,
        final(stores).media@.errors == 0,
        final(stores).media@.flows.len() == 0,
        !final(stores).pinned,
{
    broadcast use group_to_multiset_ensures;

    let list = final(stores).signaling@.endpoints.list;
    assert(report.endpoints@.to_multiset().len() == list.to_multiset().len());
}

/// A known set that is published is found, and kept.
pub proof fn a_published_set_is_found(
    stores: &mut IcmpStores,
    known: Resolved,
    after: &IcmpStores,
    found: Arc<Resolved>,
)
    requires
        call_ensures(publish_icmp_media_for_test, (stores, known), ()),
        *after == *final(stores),
        call_ensures(icmp_media_findings, (after,), found),
    ensures
        *found == known,
        final(stores).pinned,
{
}

/// A dialog is shown the findings that name it, and every such finding, in the
/// order of the report; the report itself stays whole.
pub proof fn a_dialog_is_shown_what_names_it(
    report: MediaReport,
    resolved: &Resolved,
    ledger: &MediaReport,
    id: &str,
    shown: Vec<&Finding>,
    f: Finding,
)
    requires
        call_ensures(Resolved::new, (report,), *resolved),
        call_ensures(Resolved::report, (resolved,), ledger),
        call_ensures(Resolved::findings_for, (resolved, id), shown),
        report.flows@.len() <= usize::MAX,
    ensures
        *ledger == report,
        (exists|k: int| 0 <= k < shown@.len() && *(#[trigger] shown@[k]) == f) <==> (
        report.flows@.contains(f) && exists|j: int|
            0 <= j < f.call_ids@.len() && (#[trigger] f.call_ids@[j])@ == id@),
{
    a_dialog_sees_exactly_its_findings(report.flows@, id@, f);
    let named = findings_naming(report.flows@, id@);
    if named.contains(f) {
        let k = choose|k: int| 0 <= k < named.len() && named[k] == f;
        assert(*shown@[k] == f);
    }
    if exists|k: int| 0 <= k < shown@.len() && *(#[trigger] shown@[k]) == f {
        let k = choose|k: int| 0 <= k < shown@.len() && *(#[trigger] shown@[k]) == f;
        assert(named[k] == f);
    }
}

/// A finding names what tied it to a call, and what its payload was, by words
/// that differ for each.
pub proof fn a_finding_names_its_tier_and_its_payload(
    f: &Finding,
    tier: &'static str,
    kind: &'static str,
)
    requires
        call_ensures(Finding::attribution_tier, (f,), tier),
        call_ensures(Finding::payload_kind, (f,), kind),
    ensures
        f.matched is Flow ==> tier@ == "flow"@,
        f.matched is Ssrc ==> tier@ == "ssrc"@,
        f.matched is Endpoint ==> tier@ == "endpoint"@,
        f.matched is SdpEndpoint ==> tier@ == "sdp_endpoint"@,
        f.matched is Unmatched ==> tier@ == "none"@,
        f.payload is Rtp ==> kind@ == "rtp"@,
        f.payload is Rtcp ==> kind@ == "rtcp"@,
        f.payload is Unread ==> kind@ == "unread"@,
        f.payload is NotMedia ==> kind@ == "not_media"@,
{
}

/// Every transport is written in its own letters.
pub proof fn each_transport_has_its_letters(t: TransportProto, words: &'static str)
    requires
        call_ensures(TransportProto::as_str, (&t,), words),
    ensures
        t is Udp ==> words@ == "UDP"@,
        t is Tcp ==> words@ == "TCP"@,
        t is Tls ==> words@ == "TLS"@,
        t is Ws ==> words@ == "WS"@,
        t is Sctp ==> words@ == "SCTP"@,
{
}

/// A tally lists what it holds, the worst first, and tells how much it could not
/// list.
pub proof fn a_tally_lists_the_worst_first(
    t: &EndpointTally,
    r: Vec<UnreachableEndpoint>,
    n: u64,
    a: int,
    b: int,
)
    requires
        call_ensures(EndpointTally::ranked, (t,), r),
        call_ensures(EndpointTally::untallied, (t,), n),
    ensures
        r@.to_multiset() == t@.list.to_multiset(),
        0 <= a < b < r@.len() ==> reported_before(r@[a], r@[b]),
        n == t@.untallied,
{
    reported_in_order(r@);
}

/// A run begins with no error of either kind, nobody unreachable and nothing
/// published.
pub proof fn a_run_begins_without_errors(s: IcmpStores, id: &str, r: DialogFaults)
    requires
        call_ensures(IcmpStores::new, (), s),
        call_ensures(icmp_evidence_for, (&s, id), r),
    ensures
        s.signaling@.errors == 0 && s.media@.errors == 0,
        s.signaling@.attributed == 0 && s.signaling@.unattributed == 0,
        s.signaling@.untracked_dialogs == 0,
        s.signaling@.endpoints.list.len() == 0 && s.media@.endpoints.list.len() == 0,
        s.signaling@.endpoints.untallied == 0 && s.media@.endpoints.untallied == 0,
        s.media@.flows.len() == 0 && s.media@.unkeyed == 0 && s.media@.untracked_flows == 0,
        s.resolved is None && !s.pinned,
        r.errors == 0 && r.samples@.len() == 0,
{
}

/// How often a list names a dialog.
pub open spec fn times_named(call_ids: Seq<String>, id: Seq<char>) -> nat {
    call_ids.filter(|c: String| c@ == id).len()
}

/// A finding is listed once for every time that it names the dialog.
proof fn listed_as_often_as_named(call_ids: Seq<String>, id: Seq<char>, i: usize)
    ensures
        hits(call_ids, id, i).len() == times_named(call_ids, id),
    decreases call_ids.len(),
{
    reveal(Seq::filter);
    if call_ids.len() > 0 {
        listed_as_often_as_named(call_ids.drop_last(), id, i);
    }
}

/// A dialog is shown the findings in the order of the report: one more finding at
/// its end comes last, once for every time that it names the dialog.
pub proof fn findings_are_shown_in_the_reports_order(
    report: MediaReport,
    longer: MediaReport,
    f: Finding,
    a: &Resolved,
    b: &Resolved,
    id: &str,
    shown: Vec<&Finding>,
    all: Vec<&Finding>,
    k: int,
)
    requires
        longer.flows@ == report.flows@.push(f),
        longer.flows@.len() <= usize::MAX,
        call_ensures(Resolved::new, (report,), *a),
        call_ensures(Resolved::new, (longer,), *b),
        call_ensures(Resolved::findings_for, (a, id), shown),
        call_ensures(Resolved::findings_for, (b, id), all),
    ensures
        report.flows@.len() == 0 ==> shown@.len() == 0,
        all@.len() == shown@.len() + times_named(f.call_ids@, id@),
        0 <= k < shown@.len() ==> *all@[k] == *shown@[k],
        shown@.len() <= k < all@.len() ==> *all@[k] == f,
{
    let front = report.flows@;
    let flows = longer.flows@;
    assert(flows.drop_last() =~= front);
    let here = hits(f.call_ids@, id@, (flows.len() - 1) as usize);
    listed_as_often_as_named(f.call_ids@, id@, (flows.len() - 1) as usize);
    hits_are(f.call_ids@, id@, (flows.len() - 1) as usize);
    positions_in_range(front, id@);
    let n = positions(front, id@).len() as int;
    if 0 <= k < n {
        assert(positions(flows, id@)[k] == positions(front, id@)[k]);
        assert(positions(front, id@)[k] < front.len());
        assert(*all@[k] == findings_naming(flows, id@)[k]);
        assert(*shown@[k] == findings_naming(front, id@)[k]);
    }
    if n <= k < all@.len() {
        assert(positions(flows, id@)[k] == here[k - n]);
        assert(*all@[k] == findings_naming(flows, id@)[k]);
    }
}

} // verus!
