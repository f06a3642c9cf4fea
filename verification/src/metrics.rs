//! Request metrics.
//!
//! A wrapper on each side of the pipeline counts what passes through it:
//! one `prepare` count when a request enters, then exactly one `fulfill`
//! or `reject` count when its result comes back, and one duration sample,
//! all under the label set captured when the request entered.  The counts
//! model the counters and histograms that an operator scrapes; the
//! balance law proved here says that, per label set, the prepares equal
//! the fulfills plus the rejects once every request has completed.

use vstd::prelude::*;
use crate::address::bytes_eq;
use crate::oer::clone_bytes;
use crate::packet::{Fulfill, FulfillV, Reject, RejectV};
use crate::service::{
    IncomingHandler, IncomingRequest, IncomingRequestV, IncomingService, OutgoingHandler,
    OutgoingRequest, OutgoingRequestV, OutgoingService, RequestContext, RequestContextV,
    result_view, RoutingRelation,
};

verus! {

/// The label set of one request.  The incoming side labels by the source
/// account alone; the outgoing side also labels by the destination
/// account, so the `to` components are present only there.
#[verifier::ext_equal]
pub struct MetricsLabelsV {
    pub from_asset_code: Seq<u8>,
    pub from_routing_relation: RoutingRelation,
    pub to_asset_code: Option<Seq<u8>>,
    pub to_routing_relation: Option<RoutingRelation>,
}

/// The label set of one request, as captured when the request enters.
#[derive(Debug)]
pub struct MetricsLabels {
    pub from_asset_code: Vec<u8>,
    pub from_routing_relation: RoutingRelation,
    pub to_asset_code: Option<Vec<u8>>,
    pub to_routing_relation: Option<RoutingRelation>,
}

impl View for MetricsLabels {
    type V = MetricsLabelsV;

    open spec fn view(&self) -> MetricsLabelsV {
        MetricsLabelsV {
            from_asset_code: self.from_asset_code@,
            from_routing_relation: self.from_routing_relation,
            to_asset_code: match self.to_asset_code {
                Some(ref v) => Some(v@),
                None => None,
            },
            to_routing_relation: self.to_routing_relation,
        }
    }
}

/// True when the two label sets are the same key.
pub fn labels_eq(a: &MetricsLabels, b: &MetricsLabels) -> (r: bool)
    ensures
        r == (a@ == b@),
{
    let from_eq = bytes_eq(&a.from_asset_code, &b.from_asset_code) && a.from_routing_relation
        == b.from_routing_relation;
    if !from_eq {
        assert(a@ != b@);
        return false;
    }
    let to_asset_eq = match (&a.to_asset_code, &b.to_asset_code) {
        (Some(x), Some(y)) => bytes_eq(x, y),
        (None, None) => true,
        _ => false,
    };
    if !to_asset_eq {
        assert(a@ != b@);
        return false;
    }
    let to_rel_eq = match (&a.to_routing_relation, &b.to_routing_relation) {
        (Some(x), Some(y)) => *x == *y,
        (None, None) => true,
        _ => false,
    };
    if !to_rel_eq {
        assert(a@ != b@);
        return false;
    }
    assert(a@ =~= b@);
    true
}

/// A copy of the label set.
pub fn clone_labels(a: &MetricsLabels) -> (r: MetricsLabels)
    ensures
        r@ == a@,
{
    let to_asset_code = match &a.to_asset_code {
        Some(v) => Some(clone_bytes(v)),
        None => None,
    };
    let r = MetricsLabels {
        from_asset_code: clone_bytes(&a.from_asset_code),
        from_routing_relation: a.from_routing_relation,
        to_asset_code,
        to_routing_relation: a.to_routing_relation,
    };
    assert(r@ =~= a@);
    r
}

/// The counters of one label set.
#[derive(Clone, Copy, Debug, PartialEq, Eq, Structural)]
pub struct Counts {
    pub prepare: u64,
    pub fulfill: u64,
    pub reject: u64,
    pub duration_count: u64,
    pub duration_total: u64,
}

/// All counters zero: what an unseen label set reads as.
pub open spec fn zero_counts() -> Counts {
    Counts { prepare: 0, fulfill: 0, reject: 0, duration_count: 0, duration_total: 0 }
}

/// `x + 1`, staying at the top of the range instead of wrapping.
pub open spec fn sat_inc(x: u64) -> u64 {
    if x < u64::MAX {
        (x + 1) as u64
    } else {
        x
    }
}

/// One label set's counters and their key.
pub struct MetricsEntry {
    pub labels: MetricsLabels,
    pub counts: Counts,
}

/// The counters recorded for `key`: those of the first entry with that
/// key, or zero when no entry has it.
pub open spec fn spec_counts(entries: Seq<MetricsEntry>, key: MetricsLabelsV) -> Counts
    decreases entries.len(),
{
    if entries.len() == 0 {
        zero_counts()
    } else if entries[0].labels@ == key {
        entries[0].counts
    } else {
        spec_counts(entries.drop_first(), key)
    }
}

proof fn lemma_counts_update(entries: Seq<MetricsEntry>, i: int, e2: MetricsEntry)
    requires
        0 <= i < entries.len(),
        e2.labels@ == entries[i].labels@,
        forall|j: int| 0 <= j < i ==> entries[j].labels@ != entries[i].labels@,
    ensures
        spec_counts(entries.update(i, e2), entries[i].labels@) == e2.counts,
        forall|k: MetricsLabelsV| k != entries[i].labels@ ==> spec_counts(
            entries.update(i, e2),
            k,
        ) == spec_counts(entries, k),
    decreases entries.len(),
{
    reveal_with_fuel(spec_counts, 3);
    let key = entries[i].labels@;
    let new = entries.update(i, e2);
    if i == 0 {
        assert(new[0] == e2);
        assert(spec_counts(new, key) == e2.counts);
        assert forall|k: MetricsLabelsV| k != key implies spec_counts(new, k) == spec_counts(
            entries,
            k,
        ) by {
            assert(new.drop_first() =~= entries.drop_first());
        }
    } else {
        lemma_counts_update(entries.drop_first(), i - 1, e2);
        assert(new.drop_first() =~= entries.drop_first().update(i - 1, e2));
        assert(new[0] == entries[0]);
        assert(entries.drop_first()[i - 1] == entries[i]);
        assert(spec_counts(new, key) == spec_counts(new.drop_first(), key));
        assert forall|k: MetricsLabelsV| k != key implies spec_counts(new, k) == spec_counts(
            entries,
            k,
        ) by {
            assert(spec_counts(new.drop_first(), k) == spec_counts(entries.drop_first(), k));
        }
    }
}

proof fn lemma_counts_push(entries: Seq<MetricsEntry>, e: MetricsEntry)
    requires
        forall|j: int| 0 <= j < entries.len() ==> entries[j].labels@ != e.labels@,
    ensures
        spec_counts(entries.push(e), e.labels@) == e.counts,
        forall|k: MetricsLabelsV| k != e.labels@ ==> spec_counts(entries.push(e), k)
            == spec_counts(entries, k),
    decreases entries.len(),
{
    reveal_with_fuel(spec_counts, 3);
    let new = entries.push(e);
    if entries.len() == 0 {
        assert(new[0] == e);
        assert(spec_counts(new, e.labels@) == e.counts);
        assert forall|k: MetricsLabelsV| k != e.labels@ implies spec_counts(new, k)
            == spec_counts(entries, k) by {
            assert(new.drop_first() =~= Seq::<MetricsEntry>::empty());
            assert(spec_counts(new.drop_first(), k) == zero_counts());
        }
    } else {
        lemma_counts_push(entries.drop_first(), e);
        assert(new.drop_first() =~= entries.drop_first().push(e));
        assert(new[0] == entries[0]);
        assert(new[0].labels@ != e.labels@);
        assert(spec_counts(new, e.labels@) == spec_counts(new.drop_first(), e.labels@));
        assert forall|k: MetricsLabelsV| k != e.labels@ implies spec_counts(new, k)
            == spec_counts(entries, k) by {
            assert(spec_counts(new.drop_first(), k) == spec_counts(entries.drop_first(), k));
        }
    }
}

/// A table of counters, one entry per label set seen so far.
pub struct MetricsTable {
    entries: Vec<MetricsEntry>,
}

impl MetricsTable {
    /// The entries of the table.
    pub closed spec fn spec_entries(&self) -> Seq<MetricsEntry> {
        self.entries@
    }

    /// The counters recorded for `key`.
    pub open spec fn counts_of(&self, key: MetricsLabelsV) -> Counts {
        spec_counts(self.spec_entries(), key)
    }

    pub fn new() -> (r: MetricsTable)
        ensures
            r.spec_entries() =~= Seq::<MetricsEntry>::empty(),
    {
        MetricsTable { entries: Vec::new() }
    }

    /// The counters currently recorded for the given label set.
    pub fn read(&self, labels: &MetricsLabels) -> (r: Counts)
        ensures
            r == self.counts_of(labels@),
    {
        assert(self.entries@.skip(0) =~= self.entries@);
        let mut i: usize = 0;
        while i < self.entries.len()
            invariant
                i <= self.entries@.len(),
                forall|j: int| 0 <= j < i ==> self.entries@[j].labels@ != labels@,
                spec_counts(self.entries@.skip(i as int), labels@) == spec_counts(
                    self.entries@,
                    labels@,
                ),
            decreases self.entries@.len() - i,
        {
            if labels_eq(&self.entries[i].labels, labels) {
                assert(self.entries@.skip(i as int)[0] == self.entries@[i as int]);
                return self.entries[i].counts;
            }
            assert(self.entries@.skip(i as int)[0] == self.entries@[i as int]);
            assert(self.entries@.skip(i as int).drop_first() =~= self.entries@.skip(i as int + 1));
            i = i + 1;
        }
        assert(self.entries@.skip(i as int) =~= Seq::<MetricsEntry>::empty());
        zero_counts_value()
    }

    /// Applies `c2` as the new counters of `labels`, creating the entry if
    /// the label set is new.
    fn write(&mut self, labels: &MetricsLabels, c2: Counts)
        ensures
            final(self).counts_of(labels@) == c2,
            forall|k: MetricsLabelsV| k != labels@ ==> final(self).counts_of(k) == old(
                self,
            ).counts_of(k),
    {
        let ghost entries0 = self.entries@;
        assert(forall|k: MetricsLabelsV| #[trigger] old(self).counts_of(k) == spec_counts(
            entries0,
            k,
        ));
        let mut i: usize = 0;
        while i < self.entries.len()
            invariant
                i <= self.entries@.len(),
                self.entries@ == entries0,
                entries0 == old(self).spec_entries(),
                forall|j: int| 0 <= j < i ==> self.entries@[j].labels@ != labels@,
            decreases self.entries@.len() - i,
        {
            if labels_eq(&self.entries[i].labels, labels) {
                let e = MetricsEntry { labels: clone_labels(labels), counts: c2 };
                proof {
                    lemma_counts_update(entries0, i as int, e);
                }
                self.entries.set(i, e);
                assert(self.entries@ == entries0.update(i as int, e));
                assert forall|k: MetricsLabelsV| k != labels@ implies #[trigger] self.counts_of(k)
                    == spec_counts(entries0, k) by {
                    assert(spec_counts(entries0.update(i as int, e), k) == spec_counts(
                        entries0,
                        k,
                    ));
                }
                return ;
            }
            i = i + 1;
        }
        let e = MetricsEntry { labels: clone_labels(labels), counts: c2 };
        proof {
            lemma_counts_push(entries0, e);
        }
        self.entries.push(e);
    }

    /// Counts one `prepare` under the given label set.
    pub fn record_prepare(&mut self, labels: &MetricsLabels)
        ensures
            final(self).counts_of(labels@) == (Counts {
                prepare: sat_inc(old(self).counts_of(labels@).prepare),
                ..old(self).counts_of(labels@)
            }),
            forall|k: MetricsLabelsV| k != labels@ ==> final(self).counts_of(k) == old(
                self,
            ).counts_of(k),
    {
        let c = self.read(labels);
        let c2 = Counts { prepare: saturating_inc(c.prepare), ..c };
        self.write(labels, c2);
    }

    /// Counts the result of one request under the given label set: one
    /// `fulfill` or one `reject`, and one duration sample.
    pub fn record_result(&mut self, labels: &MetricsLabels, is_fulfill: bool, duration: u64)
        ensures
            ({
                let c = old(self).counts_of(labels@);
                let c2 = final(self).counts_of(labels@);
                &&& c2.prepare == c.prepare
                &&& c2.fulfill == (if is_fulfill {
                    sat_inc(c.fulfill)
                } else {
                    c.fulfill
                })
                &&& c2.reject == (if is_fulfill {
                    c.reject
                } else {
                    sat_inc(c.reject)
                })
                &&& c2.duration_count == sat_inc(c.duration_count)
                &&& c2.duration_total >= c.duration_total
            }),
            forall|k: MetricsLabelsV| k != labels@ ==> final(self).counts_of(k) == old(
                self,
            ).counts_of(k),
    {
        let c = self.read(labels);
        let fulfill = if is_fulfill {
            saturating_inc(c.fulfill)
        } else {
            c.fulfill
        };
        let reject = if is_fulfill {
            c.reject
        } else {
            saturating_inc(c.reject)
        };
        let duration_total = if c.duration_total > u64::MAX - duration {
            u64::MAX
        } else {
            c.duration_total + duration
        };
        let c2 = Counts {
            prepare: c.prepare,
            fulfill,
            reject,
            duration_count: saturating_inc(c.duration_count),
            duration_total,
        };
        self.write(labels, c2);
    }
}

/// All counters zero.
fn zero_counts_value() -> (r: Counts)
    ensures
        r == zero_counts(),
{
    Counts { prepare: 0, fulfill: 0, reject: 0, duration_count: 0, duration_total: 0 }
}

/// `x + 1`, staying at the top of the range instead of wrapping.
fn saturating_inc(x: u64) -> (r: u64)
    ensures
        r == sat_inc(x),
{
    if x < u64::MAX {
        x + 1
    } else {
        x
    }
}

/// True when, for every label set, the prepares equal the fulfills plus
/// the rejects, and the duration samples equal the prepares: every request
/// that was counted in has been counted out, exactly once.
pub open spec fn balanced(entries: &MetricsTable) -> bool {
    forall|k: MetricsLabelsV|
        {
            let c = #[trigger] entries.counts_of(k);
            c.prepare == c.fulfill + c.reject && c.duration_count == c.prepare
        }
}

/// One completed request keeps the counters balanced: if every label set's
/// prepares equalled its fulfills plus rejects before a request was
/// counted in and out, the same holds after, as long as the counters of
/// its label set have not reached the top of their range.
pub proof fn lemma_request_keeps_balance(
    before: &MetricsTable,
    mid: &MetricsTable,
    after: &MetricsTable,
    key: MetricsLabelsV,
    is_fulfill: bool,
)
    requires
        balanced(before),
        before.counts_of(key).prepare < u64::MAX,
        before.counts_of(key).fulfill < u64::MAX,
        before.counts_of(key).reject < u64::MAX,
        before.counts_of(key).duration_count < u64::MAX,
        // the request was counted in under `key`:
        mid.counts_of(key) == (Counts {
            prepare: sat_inc(before.counts_of(key).prepare),
            ..before.counts_of(key)
        }),
        forall|k: MetricsLabelsV| k != key ==> mid.counts_of(k) == before.counts_of(k),
        // and counted out under the same `key`:
        after.counts_of(key).prepare == mid.counts_of(key).prepare,
        after.counts_of(key).fulfill == (if is_fulfill {
            sat_inc(mid.counts_of(key).fulfill)
        } else {
            mid.counts_of(key).fulfill
        }),
        after.counts_of(key).reject == (if is_fulfill {
            mid.counts_of(key).reject
        } else {
            sat_inc(mid.counts_of(key).reject)
        }),
        after.counts_of(key).duration_count == sat_inc(mid.counts_of(key).duration_count),
        forall|k: MetricsLabelsV| k != key ==> after.counts_of(k) == mid.counts_of(k),
    ensures
        balanced(after),
{
    assert forall|k: MetricsLabelsV|
        {
            let c = #[trigger] after.counts_of(k);
            c.prepare == c.fulfill + c.reject && c.duration_count == c.prepare
        } by {
        if k != key {
            assert(after.counts_of(k) == before.counts_of(k));
        }
    }
}

#[verifier::external_type_specification]
#[verifier::external_body]
pub struct ExInstant(std::time::Instant);

/// Relies on `std::time::Instant::now`: an opaque reading of the
/// monotonic clock.  Nothing is promised of the value.
pub assume_specification[ std::time::Instant::now ]() -> std::time::Instant;

/// Relies on `std::time::Instant::elapsed`: the time since the reading.
/// Nothing is promised of the value.
pub assume_specification[ std::time::Instant::elapsed ](
    i: &std::time::Instant,
) -> core::time::Duration;

/// Relies on `core::time::Duration::as_nanos`: the duration in whole
/// nanoseconds.  Nothing is promised of the value.
pub assume_specification[ core::time::Duration::as_nanos ](d: &core::time::Duration) -> u128;

/// The label set of an incoming request: the source account's asset code
/// and routing relation.
pub open spec fn spec_incoming_labels(request: IncomingRequestV) -> MetricsLabelsV {
    MetricsLabelsV {
        from_asset_code: request.from.asset_code,
        from_routing_relation: request.from.routing_relation,
        to_asset_code: None,
        to_routing_relation: None,
    }
}

/// The label set of an outgoing request: the asset codes and routing
/// relations of both hops.
pub open spec fn spec_outgoing_labels(request: OutgoingRequestV) -> MetricsLabelsV {
    MetricsLabelsV {
        from_asset_code: request.from.asset_code,
        from_routing_relation: request.from.routing_relation,
        to_asset_code: Some(request.to.asset_code),
        to_routing_relation: Some(request.to.routing_relation),
    }
}

/// What the counters of one label set look like after one request went
/// through under it, relative to what they were before.
pub open spec fn spec_counted_request(c: Counts, c2: Counts, is_fulfill: bool) -> bool {
    &&& c2.prepare == sat_inc(c.prepare)
    &&& c2.fulfill == (if is_fulfill {
        sat_inc(c.fulfill)
    } else {
        c.fulfill
    })
    &&& c2.reject == (if is_fulfill {
        c.reject
    } else {
        sat_inc(c.reject)
    })
    &&& c2.duration_count == sat_inc(c.duration_count)
    &&& c2.duration_total >= c.duration_total
}

/// The incoming-side metrics wrapper: counts every request under the
/// labels of its source account, forwards it unchanged, then counts the
/// result and its duration under the same labels.
pub struct IncomingMetrics {
    pub counters: MetricsTable,
}

impl IncomingMetrics {
    pub fn new() -> (r: IncomingMetrics)
        ensures
            r.counters.spec_entries() =~= Seq::<MetricsEntry>::empty(),
    {
        IncomingMetrics { counters: MetricsTable::new() }
    }
}

impl<I: IncomingService> IncomingHandler<I> for IncomingMetrics {
    open spec fn wf(&self) -> bool {
        true
    }

    /// The metrics contract: the inner service handled this very request
    /// under this very context; the request was counted in and its result
    /// counted out, exactly once each, under the labels captured at entry;
    /// no other label set moved.
    open spec fn post(
        &self,
        next: Self,
        inner: I,
        inner_next: I,
        request: IncomingRequestV,
        context: RequestContextV,
        result: Result<FulfillV, RejectV>,
    ) -> bool {
        let key = spec_incoming_labels(request);
        &&& inner.post(inner_next, request, context, result)
        &&& spec_counted_request(
            self.counters.counts_of(key),
            next.counters.counts_of(key),
            result is Ok,
        )
        &&& forall|k: MetricsLabelsV| k != key ==> next.counters.counts_of(k)
            == self.counters.counts_of(k)
    }

    fn handle(
        &mut self,
        request: IncomingRequest,
        context: &RequestContext,
        inner: &mut I,
    ) -> (r: Result<Fulfill, Reject>) {
        let labels = MetricsLabels {
            from_asset_code: clone_bytes(request.from.asset_code()),
            from_routing_relation: request.from.routing_relation(),
            to_asset_code: None,
            to_routing_relation: None,
        };
        assert(labels@ =~= spec_incoming_labels(request@));
        self.counters.record_prepare(&labels);
        let start_time = std::time::Instant::now();
        let result = inner.handle_request(request, context);
        let elapsed = start_time.elapsed();
        let nanos128 = elapsed.as_nanos();
        let nanos: u64 = if nanos128 > u64::MAX as u128 {
            u64::MAX
        } else {
            nanos128 as u64
        };
        self.counters.record_result(&labels, result.is_ok(), nanos);
        result
    }
}

/// The outgoing-side metrics wrapper: as the incoming one, but labelled by
/// both hops' accounts.
pub struct OutgoingMetrics {
    pub counters: MetricsTable,
}

impl OutgoingMetrics {
    pub fn new() -> (r: OutgoingMetrics)
        ensures
            r.counters.spec_entries() =~= Seq::<MetricsEntry>::empty(),
    {
        OutgoingMetrics { counters: MetricsTable::new() }
    }
}

impl<O: OutgoingService> OutgoingHandler<O> for OutgoingMetrics {
    open spec fn wf(&self) -> bool {
        true
    }

    /// The metrics contract, outgoing side; see [`IncomingMetrics`].
    open spec fn post(
        &self,
        next: Self,
        inner: O,
        inner_next: O,
        request: OutgoingRequestV,
        context: RequestContextV,
        result: Result<FulfillV, RejectV>,
    ) -> bool {
        let key = spec_outgoing_labels(request);
        &&& inner.post(inner_next, request, context, result)
        &&& spec_counted_request(
            self.counters.counts_of(key),
            next.counters.counts_of(key),
            result is Ok,
        )
        &&& forall|k: MetricsLabelsV| k != key ==> next.counters.counts_of(k)
            == self.counters.counts_of(k)
    }

    fn handle(
        &mut self,
        request: OutgoingRequest,
        context: &RequestContext,
        inner: &mut O,
    ) -> (r: Result<Fulfill, Reject>) {
        let labels = MetricsLabels {
            from_asset_code: clone_bytes(request.from.asset_code()),
            from_routing_relation: request.from.routing_relation(),
            to_asset_code: Some(clone_bytes(request.to.asset_code())),
            to_routing_relation: Some(request.to.routing_relation()),
        };
        assert(labels@ =~= spec_outgoing_labels(request@));
        self.counters.record_prepare(&labels);
        let start_time = std::time::Instant::now();
        let result = inner.send_request(request, context);
        let elapsed = start_time.elapsed();
        let nanos128 = elapsed.as_nanos();
        let nanos: u64 = if nanos128 > u64::MAX as u128 {
            u64::MAX
        } else {
            nanos128 as u64
        };
        self.counters.record_result(&labels, result.is_ok(), nanos);
        result
    }
}

} // verus!
