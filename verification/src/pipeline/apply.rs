//! What a classified packet does to the stores.
//!
//! One definition for every router: the live one and the offline workers write
//! the same things for the same packet.
use crate::packet::Timestamp;
use crate::pipeline::classify::{ActionView, PacketAction};
use crate::pipeline::links::{
    apply_relay_control_links, link_views, order_links, with_provenance, EndpointAssertion,
    InputOrigin, LinkOrder, LinkView, SdpProvenance,
};
use vstd::prelude::*;

verus! {

/// One write to a store.
#[derive(Debug)]
pub enum StoreOp<M, X, R, H> {
    /// Take this message into the dialog store.
    Message(M),
    /// Tell the stream store about an endpoint.
    Link(LinkOrder<X>),
    /// Take these reports into the stream store.
    Rtcp(R),
    /// Take this packet into the stream store, with this payload in place of
    /// its own where there is one.
    Rtp {
        /// The header.
        hdr: H,
        /// The decrypted payload.
        payload: Option<Vec<u8>>,
    },
    /// Take the sockets of new streams without a call out of the stream store,
    /// let go of the store, and offer them for reconciliation.
    OfferOrphans,
}

/// One write to a store, as plain values.
pub ghost enum OpView<M, X, R, H> {
    /// A message for the dialog store.
    Message(M),
    /// An endpoint and where the knowledge of it comes from.
    Link(LinkView<X>, SdpProvenance),
    /// Reports.
    Rtcp(R),
    /// A header and the payload that replaces the packet's own.
    Rtp(H, Option<Vec<u8>>),
    /// New streams without a call are offered for reconciliation.
    OfferOrphans,
}

impl<M, X, R, H> View for StoreOp<M, X, R, H> {
    type V = OpView<M, X, R, H>;

    open spec fn view(&self) -> OpView<M, X, R, H> {
        match *self {
            StoreOp::Message(m) => OpView::Message(m),
            StoreOp::Link(o) => OpView::Link(o.link@, o.provenance),
            StoreOp::Rtcp(r) => OpView::Rtcp(r),
            StoreOp::Rtp { hdr, payload } => OpView::Rtp(hdr, payload),
            StoreOp::OfferOrphans => OpView::OfferOrphans,
        }
    }
}

/// The views of a list of writes.
pub open spec fn op_views<M, X, R, H>(ops: Seq<StoreOp<M, X, R, H>>) -> Seq<OpView<M, X, R, H>> {
    ops.map_values(|o: StoreOp<M, X, R, H>| o@)
}

/// One write per link, all with the same provenance.
pub open spec fn link_ops<M, X, R, H>(links: Seq<LinkView<X>>, p: SdpProvenance) -> Seq<
    OpView<M, X, R, H>,
> {
    links.map_values(|l: LinkView<X>| OpView::<M, X, R, H>::Link(l, p))
}

/// What a classified packet does to the stores. Without dialogs neither a
/// message nor a relay's claim is associated with a call.
pub open spec fn store_ops<M, X, R, H>(
    action: ActionView<M, X, R, H>,
    no_dialog: bool,
    origin: InputOrigin,
    at: Timestamp,
    orphans: bool,
) -> Seq<OpView<M, X, R, H>> {
    match action {
        ActionView::Nothing => seq![],
        ActionView::Sip(msg, links) => if no_dialog {
            seq![]
        } else {
            seq![OpView::<M, X, R, H>::Message(msg)] + link_ops(
                links,
                SdpProvenance {
                    asserted_by: EndpointAssertion::Signaled,
                    origin: Some(origin),
                    at,
                },
            )
        },
        ActionView::RelayControl(links) => if no_dialog {
            seq![]
        } else {
            link_ops(
                links,
                SdpProvenance {
                    asserted_by: EndpointAssertion::MediaRelay,
                    origin: Some(origin),
                    at,
                },
            )
        },
        ActionView::Rtcp(r) => seq![OpView::Rtcp(r)],
        ActionView::Rtp(hdr, payload, via) => if orphans {
            seq![OpView::Rtp(hdr, payload), OpView::OfferOrphans]
        } else {
            seq![OpView::Rtp(hdr, payload)]
        },
    }
}

/// Writes for link orders, behind those already there.
fn push_links<M, X, R, H>(ops: Vec<StoreOp<M, X, R, H>>, orders: Vec<LinkOrder<X>>) -> (r: Vec<
    StoreOp<M, X, R, H>,
>)
    ensures
        forall|p: SdpProvenance|
            (forall|i: int| 0 <= i < orders@.len() ==> (#[trigger] orders@[i]).provenance == p)
                ==> op_views(r@) == op_views(ops@) + #[trigger] link_ops::<M, X, R, H>(
                link_views(order_links(orders@)),
                p,
            ),
{
    let ghost all = orders@;
    let ghost start = op_views(ops@);
    let mut orders = orders;
    let mut back: Vec<LinkOrder<X>> = Vec::new();
    while orders.len() > 0
        invariant
            orders@ + back@.reverse() =~= all,
        decreases orders.len(),
    {
        let ghost b0 = back@;
        if let Some(o) = orders.pop() {
            back.push(o);
            assert(back@.reverse() =~= seq![o] + b0.reverse());
        }
    }
    let mut out = ops;
    let ghost mut done: Seq<LinkOrder<X>> = seq![];
    assert(op_views(out@) =~= start + done.map_values(
        |o: LinkOrder<X>| OpView::<M, X, R, H>::Link(o.link@, o.provenance),
    ));
    while back.len() > 0
        invariant
            done + back@.reverse() =~= all,
            op_views(out@) == start + done.map_values(
                |o: LinkOrder<X>| OpView::<M, X, R, H>::Link(o.link@, o.provenance),
            ),
        decreases back.len(),
    {
        let ghost b0 = back@;
        let ghost d0 = done;
        let ghost o0 = op_views(out@);
        if let Some(o) = back.pop() {
            out.push(StoreOp::Link(o));
            proof {
                done = done.push(o);
                assert(b0.reverse() =~= seq![o] + back@.reverse());
                assert(op_views(out@) =~= o0.push(OpView::Link(o.link@, o.provenance)));
                assert(op_views(out@) =~= start + done.map_values(
                    |o: LinkOrder<X>| OpView::<M, X, R, H>::Link(o.link@, o.provenance),
                ));
            }
        }
    }
    assert(done =~= all);
    assert forall|p: SdpProvenance|
        (forall|i: int| 0 <= i < all.len() ==> (#[trigger] all[i]).provenance == p) implies op_views(
        out@,
    ) == start + #[trigger] link_ops::<M, X, R, H>(link_views(order_links(all)), p) by {
        assert(done.map_values(
            |o: LinkOrder<X>| OpView::<M, X, R, H>::Link(o.link@, o.provenance),
        ) =~= link_ops::<M, X, R, H>(link_views(order_links(all)), p));
    }
    out
}

/// What one classified packet does to the stores, on the live path.
///
/// `relay_orphans` says whether new streams without a call are reconciled with
/// a relay.
pub fn process_packet<M, X, R, H>(
    action: PacketAction<M, X, R, H>,
    no_dialog: bool,
    input_origin: InputOrigin,
    timestamp: Timestamp,
    relay_orphans: bool,
) -> (r: Vec<StoreOp<M, X, R, H>>)
    ensures
        op_views(r@) == store_ops(action@, no_dialog, input_origin, timestamp, relay_orphans),
{
    let ghost wanted = store_ops(action@, no_dialog, input_origin, timestamp, relay_orphans);
    let mut ops: Vec<StoreOp<M, X, R, H>> = Vec::new();
    match action {
        PacketAction::Nothing => {},
        PacketAction::Sip { msg, sdp_links } => {
            if !no_dialog {
                ops.push(StoreOp::Message(msg));
                let provenance = SdpProvenance::observed(input_origin, timestamp);
                let orders = with_provenance(sdp_links, provenance);
                ops = push_links(ops, orders);
                assert(op_views(ops@) =~= seq![OpView::<M, X, R, H>::Message(msg)] + link_ops::<
                    M,
                    X,
                    R,
                    H,
                >(link_views(sdp_links@), provenance));
            }
        },
        PacketAction::RelayControl { sdp_links } => {
            if !no_dialog {
                let orders = apply_relay_control_links(sdp_links, input_origin, timestamp);
                ops = push_links(ops, orders);
                assert(op_views(ops@) =~= link_ops::<M, X, R, H>(
                    link_views(sdp_links@),
                    SdpProvenance {
                        asserted_by: EndpointAssertion::MediaRelay,
                        origin: Some(input_origin),
                        at: timestamp,
                    },
                ));
            }
        },
        PacketAction::Rtcp(reports) => {
            ops.push(StoreOp::Rtcp(reports));
        },
        PacketAction::Rtp { hdr, decrypted_payload, via_heuristic } => {
            ops.push(StoreOp::Rtp { hdr, payload: decrypted_payload });
            if relay_orphans {
                ops.push(StoreOp::OfferOrphans);
            }
        },
    }
    assert(op_views(ops@) =~= wanted);
    ops
}

/// What one worker has counted.
#[derive(Debug, Clone, Copy, PartialEq, Eq, Structural)]
pub struct PacketCounts {
    /// SIP messages.
    pub sip: u64,
    /// RTP packets.
    pub rtp: u64,
}

/// A packet's action without what only the live path has: a decrypted payload.
pub open spec fn undecrypted<M, X, R, H>(action: ActionView<M, X, R, H>) -> ActionView<
    M,
    X,
    R,
    H,
> {
    match action {
        ActionView::Rtp(hdr, payload, via) => ActionView::Rtp(hdr, None, via),
        other => other,
    }
}

/// What one classified packet does to a worker's stores, on the offline path.
///
/// It is what the live path does, a relay's links among it: sharded reading
/// has no decryption, and offers nothing for reconciliation. Messages are
/// counted with dialogs or without.
pub fn reconstruct<M, X, R, H>(
    action: PacketAction<M, X, R, H>,
    no_dialog: bool,
    input_origin: InputOrigin,
    timestamp: Timestamp,
    counts: &mut PacketCounts,
) -> (r: Vec<StoreOp<M, X, R, H>>)
    requires
        old(counts).sip < u64::MAX,
        old(counts).rtp < u64::MAX,
    ensures
        op_views(r@) == store_ops(
            undecrypted(action@),
            no_dialog,
            input_origin,
            timestamp,
            false,
        ),
        final(counts).sip == old(counts).sip + if action is Sip {
            1int
        } else {
            0int
        },
        final(counts).rtp == old(counts).rtp + if action is Rtp {
            1int
        } else {
            0int
        },
{
    let action = match action {
        PacketAction::Sip { msg, sdp_links } => {
            counts.sip += 1;
            PacketAction::Sip { msg, sdp_links }
        },
        PacketAction::Rtp { hdr, decrypted_payload, via_heuristic } => {
            counts.rtp += 1;
            PacketAction::Rtp { hdr, decrypted_payload: None, via_heuristic }
        },
        other => other,
    };
    process_packet(action, no_dialog, input_origin, timestamp, false)
}

/// Whether an action substitutes a decrypted payload.
pub open spec fn substitutes<M, X, R, H>(action: ActionView<M, X, R, H>) -> bool {
    action matches ActionView::Rtp(hdr, payload, via) && payload is Some
}

/// The live path and the offline path write the same for the same packet,
/// unless a payload was decrypted: both from observed signaling and from a
/// relay's control messages.
pub proof fn both_paths_write_the_same<M, X, R, H>(
    action: ActionView<M, X, R, H>,
    no_dialog: bool,
    origin: InputOrigin,
    at: Timestamp,
)
    requires
        !substitutes(action),
    ensures
        store_ops(undecrypted(action), no_dialog, origin, at, false) == store_ops(
            action,
            no_dialog,
            origin,
            at,
            false,
        ),
{
}

/// Without dialogs, no packet is associated with a call: no message is
/// recorded and no endpoint is linked, whoever named it.
pub proof fn without_dialogs_nothing_is_associated<M, X, R, H>(
    action: ActionView<M, X, R, H>,
    origin: InputOrigin,
    at: Timestamp,
    orphans: bool,
    i: int,
)
    requires
        0 <= i < store_ops(action, true, origin, at, orphans).len(),
    ensures
        !(store_ops(action, true, origin, at, orphans)[i] is Message),
        !(store_ops(action, true, origin, at, orphans)[i] is Link),
{
}

/// An endpoint that a relay named is never recorded as a party's own, nor the
/// other way round.
pub proof fn a_relays_claim_stays_a_relays<M, X, R, H>(
    action: ActionView<M, X, R, H>,
    no_dialog: bool,
    origin: InputOrigin,
    at: Timestamp,
    orphans: bool,
    i: int,
)
    requires
        0 <= i < store_ops(action, no_dialog, origin, at, orphans).len(),
    ensures
        store_ops(action, no_dialog, origin, at, orphans)[i] matches OpView::Link(l, p) ==> {
            &&& p.origin == Some(origin)
            &&& p.at == at
            &&& p.asserted_by == EndpointAssertion::MediaRelay <==> action is RelayControl
        },
{
}

} // verus!
