//! The run's ICMP evidence, and how the surfaces that report it get at it.
//!
//! A media flow is not a dialog: most findings name no call, so the ledger is
//! capture-wide, and what a dialog is shown is a view onto it. Until a run's
//! evidence has been resolved there are no findings, rather than findings
//! without their attribution.
use crate::pipeline::icmp::{
    reports_evidence, says, DialogIcmpEvidence, IcmpEvidence, IcmpEvidenceReport, IcmpQuote,
    SignalEvidence, SignalState,
};
use crate::pipeline::media::{
    is_fault_of, query_of, recorded, report_says, Finding, FlowAnswer, FlowQuery, FlowState,
    IcmpMediaReport, MediaEvidence, MediaIcmpEvidence, MediaReport, MediaState,
};
use crate::pipeline::quote::quotes_request;
use std::sync::Arc;
use vstd::hash_map::StringHashMap;
use vstd::prelude::*;

verus! {

/// `Arc::clone`: a second handle on the same value.
#[verifier::external_body]
pub(crate) fn another_handle<T>(a: &Arc<T>) -> (r: Arc<T>)
    ensures
        r == *a,
{
    Arc::clone(a)
}

/// The position `i`, once for every time `id` stands in a list of `Call-ID`s.
pub open spec fn hits(call_ids: Seq<String>, id: Seq<char>, i: usize) -> Seq<usize>
    decreases call_ids.len(),
{
    if call_ids.len() == 0 {
        seq![]
    } else {
        let before = hits(call_ids.drop_last(), id, i);
        if call_ids.last()@ == id {
            before.push(i)
        } else {
            before
        }
    }
}

/// The positions of the findings that name a dialog, in the order of the
/// findings.
pub open spec fn positions(flows: Seq<Finding>, id: Seq<char>) -> Seq<usize>
    decreases flows.len(),
{
    if flows.len() == 0 {
        seq![]
    } else {
        positions(flows.drop_last(), id) + hits(
            flows.last().call_ids@,
            id,
            (flows.len() - 1) as usize,
        )
    }
}

/// The run's media findings, resolved once and indexed by `Call-ID`.
pub struct ResolvedIcmpMedia {
    report: MediaReport,
    by_call_id: StringHashMap<Vec<usize>>,
}

/// The resolved findings of a run.
pub type Resolved = ResolvedIcmpMedia;

/// What an index holds for a dialog.
spec fn looked_up(index: Map<Seq<char>, Vec<usize>>, id: Seq<char>) -> Seq<usize> {
    if index.dom().contains(id) {
        index[id]@
    } else {
        seq![]
    }
}

/// Every position an index holds for a dialog is one of a finding.
pub(crate) proof fn positions_in_range(flows: Seq<Finding>, id: Seq<char>)
    requires
        flows.len() <= usize::MAX,
    ensures
        forall|k: int|
            0 <= k < positions(flows, id).len() ==> (#[trigger] positions(flows, id)[k])
                < flows.len(),
    decreases flows.len(),
{
    if flows.len() > 0 {
        let front = flows.drop_last();
        positions_in_range(front, id);
        let i = (flows.len() - 1) as usize;
        let ids = flows.last().call_ids@;
        hits_are(ids, id, i);
        assert forall|k: int| 0 <= k < positions(flows, id).len() implies (#[trigger] positions(
            flows,
            id,
        )[k]) < flows.len() by {
            let n = positions(front, id).len();
            if k < n {
                assert(positions(flows, id)[k] == positions(front, id)[k]);
            } else {
                assert(positions(flows, id)[k] == hits(ids, id, i)[k - n]);
            }
        }
    }
}

/// Every hit is the position given.
pub(crate) proof fn hits_are(call_ids: Seq<String>, id: Seq<char>, i: usize)
    ensures
        forall|k: int|
            0 <= k < hits(call_ids, id, i).len() ==> (#[trigger] hits(call_ids, id, i)[k]) == i,
    decreases call_ids.len(),
{
    if call_ids.len() > 0 {
        hits_are(call_ids.drop_last(), id, i);
        let before = hits(call_ids.drop_last(), id, i);
        assert forall|k: int| 0 <= k < hits(call_ids, id, i).len() implies (#[trigger] hits(
            call_ids,
            id,
            i,
        )[k]) == i by {
            if k < before.len() {
                assert(before[k] == i);
            }
        }
    }
}

/// An index with one more position for a dialog.
fn indexed(index: StringHashMap<Vec<usize>>, id: &String, i: usize) -> (r: StringHashMap<Vec<usize>>)
    ensures
        forall|other: Seq<char>|
            #[trigger] looked_up(r@, other) == if other == id@ {
                looked_up(index@, other).push(i)
            } else {
                looked_up(index@, other)
            },
{
    let mut index = index;
    let mut list: Vec<usize> = match index.get(id.as_str()) {
        Some(v) => copied(v),
        None => Vec::new(),
    };
    assert(list@ =~= looked_up(index@, id@));
    list.push(i);
    index.insert(id.clone(), list);
    index
}

/// A copy of a list of positions.
fn copied(v: &Vec<usize>) -> (r: Vec<usize>)
    ensures
        r@ == v@,
{
    let mut out: Vec<usize> = Vec::new();
    let mut i: usize = 0;
    while i < v.len()
        invariant
            i <= v.len(),
            out@ == v@.take(i as int),
        decreases v.len() - i,
    {
        out.push(v[i]);
        i += 1;
        assert(v@.take(i as int) =~= v@.take(i - 1).push(v@[i - 1]));
    }
    assert(v@.take(i as int) =~= v@);
    out
}

/// The index of a list of findings.
fn index_of(flows: &Vec<Finding>) -> (r: StringHashMap<Vec<usize>>)
    ensures
        forall|id: Seq<char>| #[trigger] looked_up(r@, id) == positions(flows@, id),
{
    let mut index: StringHashMap<Vec<usize>> = StringHashMap::new();
    let mut i: usize = 0;
    assert forall|id: Seq<char>| #[trigger] looked_up(index@, id) == positions(
        flows@.take(0),
        id,
    ) by {
        assert(flows@.take(0).len() == 0);
    }
    while i < flows.len()
        invariant
            i <= flows.len(),
            forall|id: Seq<char>| #[trigger]
                looked_up(index@, id) == positions(flows@.take(i as int), id),
        decreases flows.len() - i,
    {
        let ids = &flows[i].call_ids;
        let ghost done = flows@.take(i as int);
        let mut j: usize = 0;
        assert forall|id: Seq<char>| #[trigger] looked_up(index@, id) == positions(done, id) + hits(
            ids@.take(0),
            id,
            i,
        ) by {
            assert(positions(done, id) + seq![] =~= positions(done, id));
        }
        while j < ids.len()
            invariant
                j <= ids.len(),
                forall|id: Seq<char>| #[trigger]
                    looked_up(index@, id) == positions(done, id) + hits(ids@.take(j as int), id, i),
            decreases ids.len() - j,
        {
            let ghost before = index@;
            index = indexed(index, &ids[j], i);
            assert(ids@.take(j + 1).drop_last() =~= ids@.take(j as int));
            assert(ids@.take(j + 1).last() == ids@[j as int]);
            assert forall|id: Seq<char>| #[trigger] looked_up(index@, id) == positions(done, id)
                + hits(ids@.take(j + 1), id, i) by {
                let was = looked_up(before, id);
                assert(positions(done, id) + hits(ids@.take(j as int), id, i).push(i) =~= (
                positions(done, id) + hits(ids@.take(j as int), id, i)).push(i));
            }
            j += 1;
        }
        assert(ids@.take(j as int) =~= ids@);
        assert(flows@.take(i + 1).drop_last() =~= done);
        assert(flows@.take(i + 1).last() == flows@[i as int]);
        i += 1;
    }
    assert(flows@.take(i as int) =~= flows@);
    index
}

/// A report of nothing at all.
pub open spec fn is_empty_report(r: MediaReport) -> bool {
    &&& r.errors == 0
    &&& r.media == 0
    &&& r.attributed == 0
    &&& r.unattributed == 0
    &&& r.unkeyed == 0
    &&& r.untracked_flows == 0
    &&& r.untallied_endpoints == 0
    &&& r.flows@.len() == 0
    &&& r.endpoints@.len() == 0
}

/// An empty report.
fn empty_report() -> (r: IcmpMediaReport)
    ensures
        is_empty_report(r),
{
    IcmpMediaReport {
        errors: 0,
        media: 0,
        attributed: 0,
        unattributed: 0,
        unkeyed: 0,
        untracked_flows: 0,
        untallied_endpoints: 0,
        flows: Vec::new(),
        endpoints: Vec::new(),
    }
}

impl ResolvedIcmpMedia {
    /// The capture-wide report.
    pub closed spec fn ledger(self) -> IcmpMediaReport {
        self.report
    }

    /// Whether the index is that of the report's findings.
    pub closed spec fn indexed(self) -> bool {
        forall|id: Seq<char>| #[trigger]
            looked_up(self.by_call_id@, id) == positions(self.report.flows@, id)
    }

    /// Index a report by the `Call-ID`s its findings named.
    #[must_use]
    pub fn new(report: IcmpMediaReport) -> (r: Self)
        ensures
            r.ledger() == report,
            r.indexed(),
    {
        let by_call_id = index_of(&report.flows);
        ResolvedIcmpMedia { report, by_call_id }
    }

    /// The capture-wide report: every finding, with the totals that stay exact
    /// past the caps.
    #[must_use]
    pub fn report(&self) -> (r: &IcmpMediaReport)
        ensures
            *r == self.ledger(),
    {
        &self.report
    }
}

/// The findings of a report that name a dialog, in the report's order.
pub open spec fn findings_naming(flows: Seq<Finding>, id: Seq<char>) -> Seq<Finding> {
    positions(flows, id).map_values(|i: usize| flows[i as int])
}

impl Resolved {
    /// The findings whose attribution named this dialog, busiest first.
    #[must_use]
    pub fn findings_for(&self, call_id: &str) -> (r: Vec<&Finding>)
        requires
            self.indexed(),
        ensures
            r@.len() == findings_naming(self.ledger().flows@, call_id@).len(),
            forall|k: int|
                0 <= k < r@.len() ==> *(#[trigger] r@[k]) == findings_naming(
                    self.ledger().flows@,
                    call_id@,
                )[k],
    {
        let mut out: Vec<&Finding> = Vec::new();
        let count: usize = self.report.flows.len();
        let ghost places = positions(self.report.flows@, call_id@);
        assert(count == self.report.flows@.len());
        assert(looked_up(self.by_call_id@, call_id@) == places);
        proof {
            positions_in_range(self.report.flows@, call_id@);
        }
        match self.by_call_id.get(call_id) {
            None => {},
            Some(list) => {
                let mut k: usize = 0;
                while k < list.len()
                    invariant
                        k <= list.len(),
                        list@ == places,
                        forall|n: int|
                            0 <= n < places.len() ==> (#[trigger] places[n])
                                < self.report.flows@.len(),
                        out@.len() == k,
                        forall|n: int|
                            0 <= n < k ==> *(#[trigger] out@[n])
                                == self.report.flows@[places[n] as int],
                    decreases list.len() - k,
                {
                    let i: usize = list[k];
                    assert(places[k as int] < self.report.flows@.len());
                    out.push(&self.report.flows[i]);
                    k += 1;
                }
            },
        }
        out
    }
}

/// Everything a run knows from ICMP.
pub struct IcmpStores {
    /// Errors that quoted a SIP request.
    pub signaling: SignalEvidence,
    /// Errors that quoted anything else.
    pub media: MediaEvidence,
    /// The media findings, once they have been resolved.
    pub resolved: Option<Arc<ResolvedIcmpMedia>>,
    /// Whether a known set of findings was published and is to stay.
    pub pinned: bool,
}

impl IcmpStores {
    /// Whether the totals of both stores add up and what was resolved is
    /// indexed.
    pub open spec fn valid(self) -> bool {
        &&& self.signaling.valid()
        &&& self.media@.valid()
        &&& self.resolved matches Some(r) ==> (*r).indexed()
    }

    /// A run that has seen no ICMP.
    pub fn new() -> (r: Self)
        ensures
            r.valid(),
            r.signaling@ == SignalState::none(),
            r.media@ == MediaState::none(),
            r.resolved is None,
            !r.pinned,
    {
        IcmpStores {
            signaling: SignalEvidence::new(),
            media: MediaEvidence::new(),
            resolved: None,
            pinned: false,
        }
    }
}

/// Record one ICMP error, as evidence about a SIP request where it quotes one
/// and as evidence about media where it does not. `true` in the first case.
pub fn record_icmp_error(stores: &mut IcmpStores, quote: &IcmpQuote) -> (r: bool)
    requires
        old(stores).valid(),
        old(stores).signaling@.errors < u64::MAX,
        old(stores).media@.errors < u64::MAX,
    ensures
        final(stores).valid(),
        r == quotes_request(quote.quoted_payload@),
        r ==> final(stores).media@ == old(stores).media@ && exists|e: IcmpEvidence|
            #[trigger] says(e, *quote) && final(stores).signaling@ == old(
                stores,
            ).signaling@.recorded(*quote, e),
        !r ==> final(stores).signaling@ == old(stores).signaling@ && exists|e: MediaIcmpEvidence|
            #[trigger] is_fault_of(e, *quote) && final(stores).media@ == recorded(
                old(stores).media@,
                *quote,
                e,
            ),
        final(stores).resolved == old(stores).resolved,
        final(stores).pinned == old(stores).pinned,
{
    if stores.signaling.record(quote) {
        true
    } else {
        stores.media.record(quote);
        false
    }
}

/// Every ICMP error recorded against one `Call-ID`.
pub fn icmp_evidence_for(stores: &IcmpStores, call_id: &str) -> (r: DialogIcmpEvidence)
    requires
        stores.valid(),
    ensures
        r.errors == stores.signaling@.against(call_id@).errors,
        r.samples@ == stores.signaling@.against(call_id@).samples,
{
    stores.signaling.against(call_id)
}

/// What ICMP reported about the run's SIP traffic, endpoints busiest first.
pub fn icmp_evidence_report(stores: &IcmpStores) -> (r: IcmpEvidenceReport)
    ensures
        reports_evidence(r, stores.signaling@),
{
    stores.signaling.report()
}

/// Discard all recorded ICMP evidence, and the resolved findings with it: they
/// are an answer about what is being discarded.
pub fn reset_icmp_evidence(stores: &mut IcmpStores)
    ensures
        final(stores).valid(),
        final(stores).signaling@ == SignalState::none(),
        final(stores).media@ == MediaState::none(),
        final(stores).resolved is None,
        !final(stores).pinned,
{
    *stores = IcmpStores::new();
}

/// What has to be asked of the run's streams before its media evidence can be
/// reported: one question per quoted flow.
pub fn icmp_media_queries(stores: &IcmpStores) -> (r: Vec<FlowQuery>)
    requires
        stores.valid(),
    ensures
        r@ == stores.media@.flows.map_values(|s: FlowState| query_of(s)),
{
    stores.media.queries()
}

/// What ICMP reported about the run's media, given what the run's streams
/// answered about each quoted flow.
pub fn icmp_media_report(stores: &IcmpStores, answers: Vec<FlowAnswer>) -> (r: IcmpMediaReport)
    requires
        stores.valid(),
        answers@.len() == stores.media@.flows.len(),
    ensures
        report_says(r, stores.media@, answers@),
{
    stores.media.report(answers)
}

/// Resolve the run's media evidence and publish it, so that every surface
/// reads the same answer. While a known set is pinned the answer is given and
/// the published set stays.
pub fn resolve_icmp_media(stores: &mut IcmpStores, answers: Vec<FlowAnswer>) -> (r: Arc<
    ResolvedIcmpMedia,
>)
    requires
        old(stores).valid(),
        answers@.len() == old(stores).media@.flows.len(),
    ensures
        (*r).indexed(),
        report_says((*r).ledger(), old(stores).media@, answers@),
        *final(stores) == (IcmpStores {
            resolved: if old(stores).pinned {
                old(stores).resolved
            } else {
                Some(r)
            },
            ..*old(stores)
        }),
        final(stores).valid(),
{
    let resolved = Arc::new(ResolvedIcmpMedia::new(stores.media.report(answers)));
    if !stores.pinned {
        stores.resolved = Some(another_handle(&resolved));
    }
    resolved
}

/// The run's resolved media findings, or an empty set where nothing has been
/// resolved.
#[must_use]
pub fn icmp_media_findings(stores: &IcmpStores) -> (r: Arc<ResolvedIcmpMedia>)
    requires
        stores.valid(),
    ensures
        (*r).indexed(),
        stores.resolved matches Some(known) ==> r == known,
        stores.resolved is None ==> is_empty_report((*r).ledger()),
{
    match &stores.resolved {
        Some(known) => another_handle(known),
        None => Arc::new(ResolvedIcmpMedia::new(empty_report())),
    }
}

/// Publish a known set of findings as the run's resolved evidence, and keep it
/// until the evidence is reset.
pub fn publish_icmp_media_for_test(stores: &mut IcmpStores, resolved: ResolvedIcmpMedia)
    requires
        old(stores).valid(),
        resolved.indexed(),
    ensures
        final(stores).resolved is Some,
        *(final(stores).resolved->0) == resolved,
        final(stores).pinned,
        final(stores).signaling == old(stores).signaling,
        final(stores).media == old(stores).media,
        final(stores).valid(),
{
    stores.resolved = Some(Arc::new(resolved));
    stores.pinned = true;
}

/// A dialog is shown a finding if and only if the finding names it, and a
/// finding that names no call is in the ledger all the same.
pub proof fn a_dialog_sees_exactly_its_findings(flows: Seq<Finding>, id: Seq<char>, f: Finding)
    requires
        flows.len() <= usize::MAX,
    ensures
        findings_naming(flows, id).contains(f) <==> flows.contains(f) && exists|j: int|
            0 <= j < f.call_ids@.len() && (#[trigger] f.call_ids@[j])@ == id,
    decreases flows.len(),
{
    if flows.len() > 0 {
        let front = flows.drop_last();
        let i = (flows.len() - 1) as usize;
        let last = flows.last();
        let here = hits(last.call_ids@, id, i);
        a_dialog_sees_exactly_its_findings(front, id, f);
        positions_in_range(front, id);
        hits_are(last.call_ids@, id, i);
        some_hit(last.call_ids@, id, i);
        let n = positions(front, id).len() as int;
        let all = findings_naming(flows, id);
        let before = findings_naming(front, id);
        assert forall|k: int| 0 <= k < n implies #[trigger] all[k] == before[k] by {
            assert(positions(flows, id)[k] == positions(front, id)[k]);
            assert(positions(front, id)[k] < front.len());
        }
        assert forall|k: int| n <= k < all.len() implies #[trigger] all[k] == last by {
            assert(positions(flows, id)[k] == here[k - n]);
        }
        if all.contains(f) {
            let k = choose|k: int| 0 <= k < all.len() && all[k] == f;
            if k < n {
                assert(before[k] == f);
                assert(front.contains(f));
                let m = choose|m: int| 0 <= m < front.len() && front[m] == f;
                assert(flows[m] == f);
            } else {
                assert(flows[flows.len() - 1] == f);
                assert(here.len() > 0);
            }
        }
        if flows.contains(f) && exists|j: int|
            0 <= j < f.call_ids@.len() && (#[trigger] f.call_ids@[j])@ == id {
            let m = choose|m: int| 0 <= m < flows.len() && flows[m] == f;
            if m < front.len() {
                assert(front[m] == f);
                assert(before.contains(f));
                let k = choose|k: int| 0 <= k < before.len() && before[k] == f;
                assert(all[k] == f);
            } else {
                assert(f == last);
                assert(here.len() > 0);
                assert(all[n] == last);
            }
        }
    }
}

/// A list of `Call-ID`s gives a hit if and only if the id stands in it.
proof fn some_hit(call_ids: Seq<String>, id: Seq<char>, i: usize)
    ensures
        hits(call_ids, id, i).len() > 0 <==> exists|j: int|
            0 <= j < call_ids.len() && (#[trigger] call_ids[j])@ == id,
    decreases call_ids.len(),
{
    if call_ids.len() > 0 {
        let front = call_ids.drop_last();
        some_hit(front, id, i);
        if hits(front, id, i).len() > 0 {
            let j = choose|j: int| 0 <= j < front.len() && (#[trigger] front[j])@ == id;
            assert(call_ids[j]@ == id);
        } else if call_ids.last()@ == id {
            assert(call_ids[call_ids.len() - 1]@ == id);
        } else {
            assert forall|j: int| 0 <= j < call_ids.len() implies (#[trigger] call_ids[j])@
                != id by {
                if j < front.len() {
                    assert(front[j]@ != id);
                }
            }
        }
    }
}

} // verus!
