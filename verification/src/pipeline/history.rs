//! What the ICMP evidence comes to after any history.
//!
//! A history is a list of what was recorded and of when everything was
//! discarded. What is reported comes of what was recorded since.
use crate::pipeline::icmp::{
    place, place_is, quoted_call_id, reports_evidence, tallied, tallied_update,
    the_evidence_adds_up, DialogState, EndpointState, Fault, IcmpEvidenceReport, IcmpQuote,
    SignalState, UnreachableEndpoint, MAX_ICMP_CALL_IDS, MAX_ICMP_ENDPOINTS, MAX_ICMP_PER_CALL_ID,
};
use crate::pipeline::media::{
    attributed_and_unattributed_are_all, finding_errors, flow_errors_update, flow_of, flow_place,
    flow_place_is, recorded, report_says, the_flows_add_up, FlowAnswer, MediaFault, MediaReport,
    MediaState, MAX_ICMP_MEDIA_FLOWS,
};
use crate::pipeline::quote::quotes_request;
use crate::pipeline::skips::at_most;
use crate::sort::in_rank_order;
use vstd::prelude::*;
use vstd::seq_lib::*;

verus! {

/// A quoted datagram.
pub type Quote = IcmpQuote;

/// A report on signaling.
pub type Report = IcmpEvidenceReport;

/// One thing that happens to the evidence.
pub ghost enum Event {
    /// An error is recorded; where it quotes a request, as this evidence.
    Recorded(Quote, Fault),
    /// Everything is discarded.
    Reset,
}

/// The evidence after a history.
pub open spec fn reached(history: Seq<Event>) -> SignalState
    decreases history.len(),
{
    if history.len() == 0 {
        SignalState::none()
    } else {
        let before = reached(history.drop_last());
        match history.last() {
            Event::Recorded(q, e) => if quotes_request(q.quoted_payload@) {
                before.recorded(q, e)
            } else {
                before
            },
            Event::Reset => SignalState::none(),
        }
    }
}

/// The errors about requests since everything was last discarded, in order.
pub open spec fn since_reset(history: Seq<Event>) -> Seq<(Quote, Fault)>
    decreases history.len(),
{
    if history.len() == 0 {
        seq![]
    } else {
        let before = since_reset(history.drop_last());
        match history.last() {
            Event::Recorded(q, e) => if quotes_request(q.quoted_payload@) {
                before.push((q, e))
            } else {
                before
            },
            Event::Reset => seq![],
        }
    }
}

/// The evidence after these errors about requests.
pub open spec fn after_errors(errors: Seq<(Quote, Fault)>) -> SignalState
    decreases errors.len(),
{
    if errors.len() == 0 {
        SignalState::none()
    } else {
        after_errors(errors.drop_last()).recorded(errors.last().0, errors.last().1)
    }
}

/// The evidence is what was recorded since everything was last discarded:
/// nothing before that has any part in it.
pub proof fn only_what_came_since_counts(history: Seq<Event>)
    ensures
        reached(history) == after_errors(since_reset(history)),
    decreases history.len(),
{
    if history.len() > 0 {
        let front = history.drop_last();
        only_what_came_since_counts(front);
        if let Event::Recorded(q, e) = history.last() {
            if quotes_request(q.quoted_payload@) {
                assert(since_reset(front).push((q, e)).drop_last() =~= since_reset(front));
            }
        }
    }
}

/// Whether an endpoint is the quoted destination of one of these errors.
pub open spec fn was_quoted(u: UnreachableEndpoint, errors: Seq<(Quote, Fault)>) -> bool {
    exists|k: int|
        0 <= k < errors.len() && (#[trigger] errors[k]).0.quoted_dst == u.addr
            && errors[k].0.quoted_dst_port == u.port
}

/// One more error leaves a tally that adds up, and lists one endpoint more at
/// most: the quoted one.
proof fn a_note_keeps_the_tally(s: EndpointState, q: Quote)
    requires
        s.valid(),
        s.accounted() < u64::MAX,
    ensures
        ({
            let after = s.noted(q.quoted_dst, q.quoted_dst_port, q.description);
            &&& after.valid()
            &&& after.accounted() == s.accounted() + 1
            &&& forall|i: int|
                0 <= i < after.list.len() ==> {
                    let u = #[trigger] after.list[i];
                    ||| (u.addr == q.quoted_dst && u.port == q.quoted_dst_port)
                    ||| (i < s.list.len() && u.addr == s.list[i].addr && u.port == s.list[i].port)
                }
        }),
{
    let after = s.noted(q.quoted_dst, q.quoted_dst_port, q.description);
    let p: int = place(s.list, q.quoted_dst, q.quoted_dst_port) as int;
    place_is(s.list, q.quoted_dst, q.quoted_dst_port);
    if p < s.list.len() {
        tallied_update(s.list, p, after.list[p]);
    } else if s.list.len() < MAX_ICMP_ENDPOINTS {
        assert(after.list.drop_last() =~= s.list);
    }
}

/// One more error leaves evidence that adds up.
proof fn a_record_keeps_the_evidence(s: SignalState, q: Quote, e: Fault)
    requires
        s.valid(),
        s.errors < u64::MAX,
    ensures
        s.recorded(q, e).valid(),
{
    a_note_keeps_the_tally(s.endpoints, q);
    if let Some(id) = quoted_call_id(q) {
        let after = s.recorded(q, e);
        assert forall|other: Seq<char>| #[trigger] after.dialogs.dom().contains(other) implies {
            let d = after.dialogs[other];
            d.samples.len() <= MAX_ICMP_PER_CALL_ID && d.errors <= after.attributed
                && d.samples.len() <= d.errors
        } by {
            if other != id || after.dialogs == s.dialogs {
                assert(s.dialogs.dom().contains(other));
            }
            if s.dialogs.dom().contains(id) {
                assert(s.dialogs[id].errors <= s.attributed);
            }
        }
        if s.dialogs.dom().contains(id) {
            assert(after.dialogs.dom() =~= s.dialogs.dom());
        }
    }
}

/// The evidence adds up after any errors, counts each of them, and lists no
/// endpoint that none of them quoted.
proof fn the_evidence_is_of_the_errors(errors: Seq<(Quote, Fault)>)
    requires
        errors.len() <= u64::MAX,
    ensures
        after_errors(errors).valid(),
        after_errors(errors).errors == errors.len(),
        forall|i: int|
            0 <= i < after_errors(errors).endpoints.list.len() ==> was_quoted(
                #[trigger] after_errors(errors).endpoints.list[i],
                errors,
            ),
    decreases errors.len(),
{
    if errors.len() > 0 {
        let front = errors.drop_last();
        let s = after_errors(front);
        let (q, e) = errors.last();
        the_evidence_is_of_the_errors(front);
        a_record_keeps_the_evidence(s, q, e);
        a_note_keeps_the_tally(s.endpoints, q);
        let list = after_errors(errors).endpoints.list;
        assert forall|i: int| 0 <= i < list.len() implies was_quoted(
            #[trigger] list[i],
            errors,
        ) by {
            let u = list[i];
            if u.addr == q.quoted_dst && u.port == q.quoted_dst_port {
                assert(errors[errors.len() - 1].0 == q);
            } else {
                assert(was_quoted(s.endpoints.list[i], front));
                let k = choose|k: int|
                    0 <= k < front.len() && (#[trigger] front[k]).0.quoted_dst == u.addr
                        && front[k].0.quoted_dst_port == u.port;
                assert(errors[k] == front[k]);
            }
        }
    }
}

/// After any history of records and resets a report adds up: every error since
/// the reset is attributed or not, and every error's endpoint is listed or
/// counted as not listed. No endpoint is listed twice, no more are listed than
/// there is room for, each was quoted since the reset, and the busiest come
/// first.
pub proof fn the_report_adds_up_after_any_history(history: Seq<Event>, r: Report)
    requires
        since_reset(history).len() <= u64::MAX,
        reports_evidence(r, reached(history)),
    ensures
        r.errors == since_reset(history).len(),
        r.attributed + r.unattributed == r.errors,
        tallied(r.endpoints@) + r.untallied_endpoints == r.errors,
        r.untracked_dialogs <= r.attributed,
        r.endpoints@.len() <= MAX_ICMP_ENDPOINTS,
        forall|i: int, j: int|
            0 <= i < j < r.endpoints@.len() ==> (#[trigger] r.endpoints@[i]).addr != (
            #[trigger] r.endpoints@[j]).addr || r.endpoints@[i].port != r.endpoints@[j].port,
        forall|i: int|
            0 <= i < r.endpoints@.len() ==> was_quoted(
                #[trigger] r.endpoints@[i],
                since_reset(history),
            ),
        in_rank_order(r.endpoints@),
{
    broadcast use group_to_multiset_ensures;

    let errors = since_reset(history);
    let s = reached(history);
    let list = s.endpoints.list;
    let out = r.endpoints@;
    only_what_came_since_counts(history);
    the_evidence_is_of_the_errors(errors);
    the_evidence_adds_up(r, s);
    assert(out.len() == out.to_multiset().len());
    assert(list.len() == list.to_multiset().len());
    assert forall|i: int| 0 <= i < out.len() implies #[trigger] list.contains(out[i]) by {
        assert(out.contains(out[i]));
        assert(out.to_multiset().count(out[i]) > 0);
    }
    assert forall|i: int| 0 <= i < out.len() implies was_quoted(#[trigger] out[i], errors) by {
        assert(list.contains(out[i]));
        let k = choose|k: int| 0 <= k < list.len() && list[k] == out[i];
        assert(was_quoted(list[k], errors));
    }
    assert(list.no_duplicates());
    list.lemma_multiset_has_no_duplicates();
    out.lemma_multiset_has_no_duplicates_conv();
    assert forall|i: int, j: int| 0 <= i < j < out.len() implies (#[trigger] out[i]).addr != (
    #[trigger] out[j]).addr || out[i].port != out[j].port by {
        assert(list.contains(out[i]) && list.contains(out[j]));
        let a = choose|k: int| 0 <= k < list.len() && list[k] == out[i];
        let b = choose|k: int| 0 <= k < list.len() && list[k] == out[j];
        assert(a != b);
        if a < b {
            assert(list[a].addr != list[b].addr || list[a].port != list[b].port);
        } else {
            assert(list[b].addr != list[a].addr || list[b].port != list[a].port);
        }
    }
}

/// The errors that name one dialog, in order.
pub open spec fn naming(errors: Seq<(Quote, Fault)>, id: Seq<char>) -> Seq<Fault>
    decreases errors.len(),
{
    if errors.len() == 0 {
        seq![]
    } else {
        let before = naming(errors.drop_last(), id);
        if quoted_call_id(errors.last().0) == Some(id) {
            before.push(errors.last().1)
        } else {
            before
        }
    }
}

/// Whether there was room for a dialog when the first error named it.
pub open spec fn had_room(errors: Seq<(Quote, Fault)>, id: Seq<char>) -> bool {
    forall|i: int|
        0 <= i < errors.len() && quoted_call_id((#[trigger] errors[i]).0) == Some(id) && naming(
            errors.take(i),
            id,
        ).len() == 0 ==> after_errors(errors.take(i)).dialogs.dom().len() < MAX_ICMP_CALL_IDS
}

/// What is kept against a dialog that there was room for: as many errors as
/// named it since the reset, and the first of them in order, up to the number
/// that is kept. Against one that no error named there is nothing.
pub proof fn a_dialogs_evidence_is_its_first_errors(history: Seq<Event>, id: Seq<char>)
    requires
        had_room(since_reset(history), id),
    ensures
        reached(history).against(id) == (DialogState {
            errors: naming(since_reset(history), id).len(),
            samples: at_most(naming(since_reset(history), id), MAX_ICMP_PER_CALL_ID as nat),
        }),
{
    only_what_came_since_counts(history);
    first_errors_are_kept(since_reset(history), id);
}

/// The first errors that name a dialog are kept.
proof fn first_errors_are_kept(errors: Seq<(Quote, Fault)>, id: Seq<char>)
    requires
        had_room(errors, id),
    ensures
        after_errors(errors).against(id) == (DialogState {
            errors: naming(errors, id).len(),
            samples: at_most(naming(errors, id), MAX_ICMP_PER_CALL_ID as nat),
        }),
        after_errors(errors).dialogs.dom().contains(id) <==> naming(errors, id).len() > 0,
    decreases errors.len(),
{
    let max = MAX_ICMP_PER_CALL_ID as nat;
    if errors.len() == 0 {
        assert(at_most(naming(errors, id), max) =~= seq![]);
    } else {
        let front = errors.drop_last();
        let s = after_errors(front);
        let (q, e) = errors.last();
        assert forall|i: int|
            0 <= i < front.len() && quoted_call_id((#[trigger] front[i]).0) == Some(id) && naming(
                front.take(i),
                id,
            ).len() == 0 implies after_errors(front.take(i)).dialogs.dom().len()
            < MAX_ICMP_CALL_IDS by {
            assert(errors[i] == front[i]);
            assert(errors.take(i) =~= front.take(i));
        }
        first_errors_are_kept(front, id);
        let old_named = naming(front, id);
        let named = naming(errors, id);
        if quoted_call_id(q) == Some(id) {
            assert(errors.take(errors.len() - 1) =~= front);
            assert(errors[errors.len() - 1].0 == q);
            if old_named.len() > 0 {
                if old_named.len() < max {
                    assert(at_most(named, max) =~= at_most(old_named, max).push(e));
                } else {
                    assert(at_most(named, max) =~= at_most(old_named, max));
                }
            } else {
                assert(at_most(named, max) =~= seq![e]);
            }
        } else if let Some(other) = quoted_call_id(q) {
            assert(other != id);
        }
    }
}

/// The media evidence after these errors about anything but requests.
pub open spec fn media_after(errors: Seq<(Quote, MediaFault)>) -> MediaState
    decreases errors.len(),
{
    if errors.len() == 0 {
        MediaState::none()
    } else {
        recorded(media_after(errors.drop_last()), errors.last().0, errors.last().1)
    }
}

/// One more error leaves media evidence that adds up.
proof fn a_record_keeps_the_media_evidence(s: MediaState, q: Quote, e: MediaFault)
    requires
        s.valid(),
        s.errors < u64::MAX,
    ensures
        recorded(s, q, e).valid(),
{
    let after = recorded(s, q, e);
    a_note_keeps_the_tally(s.endpoints, q);
    if let Some(flow) = flow_of(q) {
        let p: int = flow_place(s.flows, flow) as int;
        flow_place_is(s.flows, flow);
        if p < s.flows.len() {
            flow_errors_update(s.flows, p, after.flows[p]);
        } else if s.flows.len() < MAX_ICMP_MEDIA_FLOWS {
            assert(after.flows.drop_last() =~= s.flows);
        }
    }
}

/// The media evidence adds up after any errors, and counts each of them.
proof fn the_media_evidence_is_of_the_errors(errors: Seq<(Quote, MediaFault)>)
    requires
        errors.len() <= u64::MAX,
    ensures
        media_after(errors).valid(),
        media_after(errors).errors == errors.len(),
    decreases errors.len(),
{
    if errors.len() > 0 {
        the_media_evidence_is_of_the_errors(errors.drop_last());
        a_record_keeps_the_media_evidence(
            media_after(errors.drop_last()),
            errors.last().0,
            errors.last().1,
        );
    }
}

/// After any errors since the reset a media report adds up: every error is on a
/// listed flow, or has no flow, or is of a flow that was not kept; every error
/// is attributed or not; and every error's endpoint is listed or counted as not
/// listed.
pub proof fn the_media_report_adds_up_after_any_errors(
    errors: Seq<(Quote, MediaFault)>,
    answers: Seq<FlowAnswer>,
    r: MediaReport,
)
    requires
        errors.len() <= u64::MAX,
        report_says(r, media_after(errors), answers),
    ensures
        r.errors == errors.len(),
        finding_errors(r.flows@) + r.unkeyed + r.untracked_flows == r.errors,
        r.attributed + r.unattributed == r.errors,
        r.attributed <= r.media <= r.errors,
        tallied(r.endpoints@) + r.untallied_endpoints == r.errors,
{
    the_media_evidence_is_of_the_errors(errors);
    the_flows_add_up(r, media_after(errors), answers);
    attributed_and_unattributed_are_all(r, media_after(errors), answers);
}

} // verus!
