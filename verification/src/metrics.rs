//! Process-lifetime counters for LLM responses.

use vstd::prelude::*;

verus! {

/// The number of values of a counter, after which it starts again from zero.
pub open spec fn counter_range() -> int {
    0x1_0000_0000_0000_0000
}

/// Process-lifetime counters for LLM responses. Cheap; reset on restart. A counter that passes
/// `u64::MAX` wraps around.
pub struct Metrics {
    requests: u64,
    errors: u64,
    total_latency_ms: u64,
}

/// What [`Metrics`] has counted.
pub struct MetricsView {
    pub requests: int,
    pub errors: int,
    pub total_latency_ms: int,
}

/// The counters at one moment, with the latency averaged.
pub struct MetricsSnapshot {
    pub requests: u64,
    pub errors: u64,
    pub avg_latency_ms: u64,
}

impl View for Metrics {
    type V = MetricsView;

    closed spec fn view(&self) -> MetricsView {
        MetricsView {
            requests: self.requests as int,
            errors: self.errors as int,
            total_latency_ms: self.total_latency_ms as int,
        }
    }
}

impl MetricsView {
    /// Counters that have counted nothing.
    pub open spec fn zero() -> MetricsView {
        MetricsView { requests: 0, errors: 0, total_latency_ms: 0 }
    }

    /// The counters after one more response.
    pub open spec fn recorded(self, latency_ms: u64, ok: bool) -> MetricsView {
        MetricsView {
            requests: (self.requests + 1) % counter_range(),
            errors: if ok {
                self.errors
            } else {
                (self.errors + 1) % counter_range()
            },
            total_latency_ms: (self.total_latency_ms + latency_ms) % counter_range(),
        }
    }

    /// The average latency, zero where nothing was counted.
    pub open spec fn average(self) -> int {
        if self.requests > 0 {
            self.total_latency_ms / self.requests
        } else {
            0
        }
    }

    /// The counters after a whole sequence of responses, each with its latency and outcome.
    pub open spec fn after(responses: Seq<(u64, bool)>) -> MetricsView
        decreases responses.len(),
    {
        if responses.len() == 0 {
            MetricsView::zero()
        } else {
            let last = responses.last();
            MetricsView::after(responses.drop_last()).recorded(last.0, last.1)
        }
    }
}

/// How many of `responses` failed.
pub open spec fn failures(responses: Seq<(u64, bool)>) -> int
    decreases responses.len(),
{
    if responses.len() == 0 {
        0
    } else {
        failures(responses.drop_last()) + if responses.last().1 {
            0int
        } else {
            1int
        }
    }
}

/// The latencies of `responses` added up.
pub open spec fn latency_sum(responses: Seq<(u64, bool)>) -> int
    decreases responses.len(),
{
    if responses.len() == 0 {
        0
    } else {
        latency_sum(responses.drop_last()) + responses.last().0
    }
}

impl Default for Metrics {
    fn default() -> (m: Metrics)
        ensures
            m@ == MetricsView::zero(),
    {
        Metrics { requests: 0, errors: 0, total_latency_ms: 0 }
    }
}

/// What one response adds to each counter.
pub struct Increments {
    pub requests: u64,
    pub errors: u64,
    pub latency_ms: u64,
}

/// What one completed response adds to each counter, given its end-to-end latency and whether it
/// succeeded.
pub fn increments(latency_ms: u64, ok: bool) -> (i: Increments)
    ensures
        i.requests == 1,
        i.errors == if ok {
            0int
        } else {
            1
        },
        i.latency_ms == latency_ms,
{
    Increments {
        requests: 1,
        errors: if ok {
            0
        } else {
            1
        },
        latency_ms,
    }
}

/// The snapshot that counters with these values give.
pub fn snapshot_of(requests: u64, errors: u64, total_latency_ms: u64) -> (s: MetricsSnapshot)
    ensures
        s.requests == requests,
        s.errors == errors,
        s.avg_latency_ms == (MetricsView {
            requests: requests as int,
            errors: errors as int,
            total_latency_ms: total_latency_ms as int,
        }).average(),
{
    MetricsSnapshot {
        requests,
        errors,
        avg_latency_ms: if requests > 0 {
            total_latency_ms / requests
        } else {
            0
        },
    }
}

impl Metrics {
    /// Records one completed response: its end-to-end latency and whether it succeeded.
    pub fn record(&mut self, latency_ms: u64, ok: bool)
        ensures
            final(self)@ == old(self)@.recorded(latency_ms, ok),
    {
        let add: Increments = increments(latency_ms, ok);
        self.requests = self.requests.wrapping_add(add.requests);
        self.errors = self.errors.wrapping_add(add.errors);
        self.total_latency_ms = self.total_latency_ms.wrapping_add(add.latency_ms);
    }

    /// The counts so far and the average latency.
    pub fn snapshot(&self) -> (s: MetricsSnapshot)
        ensures
            s.requests == self@.requests,
            s.errors == self@.errors,
            s.avg_latency_ms == self@.average(),
    {
        snapshot_of(self.requests, self.errors, self.total_latency_ms)
    }
}

/// The counters tell how many responses were recorded, how many of them failed and how long they
/// took together, each up to wrapping around.
pub proof fn law_counters_add_up(responses: Seq<(u64, bool)>)
    ensures
        MetricsView::after(responses).requests == responses.len() as int % counter_range(),
        MetricsView::after(responses).errors == failures(responses) % counter_range(),
        MetricsView::after(responses).total_latency_ms == latency_sum(responses) % counter_range(),
    decreases responses.len(),
{
    if responses.len() > 0 {
        law_counters_add_up(responses.drop_last());
    }
}

/// Until a counter wraps around, the average latency is the latency sum over the number of
/// responses, and there are no more errors than requests.
pub proof fn law_average_latency(responses: Seq<(u64, bool)>)
    requires
        responses.len() < counter_range(),
        latency_sum(responses) < counter_range(),
    ensures
        responses.len() > 0 ==> MetricsView::after(responses).average() == latency_sum(responses)
            / responses.len() as int,
        MetricsView::after(responses).errors <= MetricsView::after(responses).requests,
{
    law_counters_add_up(responses);
    lemma_sums_bounded(responses);
}

proof fn lemma_sums_bounded(responses: Seq<(u64, bool)>)
    ensures
        0 <= failures(responses) <= responses.len(),
        0 <= latency_sum(responses),
    decreases responses.len(),
{
    if responses.len() > 0 {
        lemma_sums_bounded(responses.drop_last());
    }
}

/// Two responses may be recorded in either order.
pub proof fn law_order_of_records(m: MetricsView, a: (u64, bool), b: (u64, bool))
    ensures
        m.recorded(a.0, a.1).recorded(b.0, b.1) == m.recorded(b.0, b.1).recorded(a.0, a.1),
{
}

/// One response adds one request, one error exactly where it failed, and its latency whether or not
/// it failed, as long as no counter wraps around.
pub proof fn law_one_response_counts_once(m: &mut Metrics, latency_ms: u64, ok: bool)
    requires
        call_ensures(Metrics::record, (m, latency_ms, ok), ()),
        old(m)@.requests >= 0,
        old(m)@.errors >= 0,
        old(m)@.total_latency_ms >= 0,
    ensures
        old(m)@.requests < u64::MAX ==> final(m)@.requests == old(m)@.requests + 1,
        ok ==> final(m)@.errors == old(m)@.errors,
        !ok && old(m)@.errors < u64::MAX ==> final(m)@.errors == old(m)@.errors + 1,
        old(m)@.total_latency_ms + latency_ms <= u64::MAX ==> final(m)@.total_latency_ms == old(
            m,
        )@.total_latency_ms + latency_ms,
        final(m)@ == old(m)@.recorded(latency_ms, ok),
{
}

/// A snapshot tells the counts as they are, and the average latency rounded down: so many times the
/// number of requests fits into the total, and one more does not.
pub proof fn law_snapshot_tells_the_counts(m: Metrics, s: MetricsSnapshot)
    requires
        call_ensures(Metrics::snapshot, (&m,), s),
        m@.total_latency_ms >= 0,
    ensures
        s.requests == m@.requests,
        s.errors == m@.errors,
        m@.requests == 0 ==> s.avg_latency_ms == 0,
        m@.requests > 0 ==> s.avg_latency_ms * m@.requests <= m@.total_latency_ms < (
        s.avg_latency_ms + 1) * m@.requests,
        s.avg_latency_ms == m@.average(),
{
    if m@.requests > 0 {
        lemma_quotient(m@.total_latency_ms, m@.requests);
    }
}

/// The snapshot of given counter values is the one that counters with these values give.
pub proof fn law_snapshot_of_values(
    requests: u64,
    errors: u64,
    total_latency_ms: u64,
    s: MetricsSnapshot,
)
    requires
        call_ensures(snapshot_of, (requests, errors, total_latency_ms), s),
    ensures
        s.requests == requests,
        s.errors == errors,
        requests == 0 ==> s.avg_latency_ms == 0,
        requests > 0 ==> s.avg_latency_ms * requests <= total_latency_ms < (s.avg_latency_ms + 1)
            * requests,
{
    if requests > 0 {
        lemma_quotient(total_latency_ms as int, requests as int);
    }
}

proof fn lemma_quotient(total: int, n: int)
    requires
        n > 0,
    ensures
        (total / n) * n <= total < (total / n + 1) * n,
{
    assert((total / n) * n <= total < (total / n + 1) * n) by (nonlinear_arith)
        requires
            n > 0,
    ;
}

/// Counters start at zero, and the increments of one response are what recording it adds.
pub proof fn law_increments_are_what_is_recorded(
    fresh: Metrics,
    latency_ms: u64,
    ok: bool,
    add: Increments,
)
    requires
        call_ensures(<Metrics as Default>::default, (), fresh),
        call_ensures(increments, (latency_ms, ok), add),
    ensures
        fresh@.requests == 0,
        fresh@.errors == 0,
        fresh@.total_latency_ms == 0,
        add.requests == 1,
        add.errors == 0 <==> ok,
        add.errors <= 1,
        add.latency_ms == latency_ms,
        fresh@.recorded(latency_ms, ok) == (MetricsView {
            requests: add.requests as int,
            errors: add.errors as int,
            total_latency_ms: add.latency_ms as int,
        }),
{
}

/// Failures and latencies add up over responses that come one part after the other.
pub proof fn law_totals_add_up(a: Seq<(u64, bool)>, b: Seq<(u64, bool)>, latency_ms: u64)
    ensures
        failures(a + b) == failures(a) + failures(b),
        latency_sum(a + b) == latency_sum(a) + latency_sum(b),
        failures(seq![(latency_ms, true)]) == 0,
        failures(seq![(latency_ms, false)]) == 1,
        latency_sum(seq![(latency_ms, true)]) == latency_ms,
        latency_sum(seq![(latency_ms, false)]) == latency_ms,
    decreases b.len(),
{
    assert(seq![(latency_ms, true)].drop_last() =~= Seq::<(u64, bool)>::empty());
    assert(seq![(latency_ms, false)].drop_last() =~= Seq::<(u64, bool)>::empty());
    assert(failures(seq![(latency_ms, true)].drop_last()) == 0);
    assert(failures(seq![(latency_ms, false)].drop_last()) == 0);
    assert(latency_sum(seq![(latency_ms, true)].drop_last()) == 0);
    assert(latency_sum(seq![(latency_ms, false)].drop_last()) == 0);
    if b.len() == 0 {
        assert(a + b =~= a);
    } else {
        law_totals_add_up(a, b.drop_last(), latency_ms);
        assert((a + b).drop_last() =~= a + b.drop_last());
        assert((a + b).last() == b.last());
    }
}

} // verus!
