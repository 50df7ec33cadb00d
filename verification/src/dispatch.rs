//! The forwarding protocol: building one signed-ready request per
//! (payload, collector) pair, and judging the outcomes with per-collector
//! failure isolation.
//!
//! The HTTP sends themselves are outside work performed by the host; this
//! module decides, verified, what each request holds and when the batch as a
//! whole has failed.

use vstd::prelude::*;

use crate::codec::{clone_string, str_eq};
use crate::compact::CompactedPayload;
use crate::errors::ForwardError;
use crate::record::pairs_view;
use crate::registry::CollectorConfig;

verus! {

/// Whether a header list holds the key.
pub open spec fn has_key(s: Seq<(Seq<char>, Seq<char>)>, key: Seq<char>) -> bool {
    exists|i: int| 0 <= i < s.len() && (#[trigger] s[i]).0 == key
}

/// The base entries kept by a merge: those whose key the override list does
/// not hold, in their original order.
pub open spec fn kept_base(
    base: Seq<(Seq<char>, Seq<char>)>,
    overrides: Seq<(Seq<char>, Seq<char>)>,
) -> Seq<(Seq<char>, Seq<char>)>
    decreases base.len(),
{
    if base.len() == 0 {
        Seq::empty()
    } else {
        kept_base(base.drop_last(), overrides) + (if has_key(overrides, base.last().0) {
            Seq::empty()
        } else {
            seq![base.last()]
        })
    }
}

/// What merging header lists yields: the base entries not overridden,
/// followed by every override entry.
pub open spec fn merged_headers(
    base: Seq<(Seq<char>, Seq<char>)>,
    overrides: Seq<(Seq<char>, Seq<char>)>,
) -> Seq<(Seq<char>, Seq<char>)> {
    kept_base(base, overrides) + overrides
}

/// The last value a header list binds to a key, if any: the one a merge
/// makes effective.
pub open spec fn bound_value(s: Seq<(Seq<char>, Seq<char>)>, key: Seq<char>) -> Option<Seq<char>>
    decreases s.len(),
{
    if s.len() == 0 {
        None
    } else if s.last().0 == key {
        Some(s.last().1)
    } else {
        bound_value(s.drop_last(), key)
    }
}

proof fn lemma_bound_value_concat(
    a: Seq<(Seq<char>, Seq<char>)>,
    b: Seq<(Seq<char>, Seq<char>)>,
    key: Seq<char>,
)
    ensures
        bound_value(a + b, key) == (if has_key(b, key) {
            bound_value(b, key)
        } else {
            bound_value(a, key)
        }),
    decreases b.len(),
{
    if b.len() == 0 {
        assert(a + b =~= a);
        assert(!has_key(b, key));
    } else {
        assert((a + b).drop_last() =~= a + b.drop_last());
        assert((a + b).last() == b.last());
        lemma_bound_value_concat(a, b.drop_last(), key);
        if b.last().0 == key {
            assert(has_key(b, key));
        } else {
            assert(has_key(b, key) <==> has_key(b.drop_last(), key)) by {
                if has_key(b, key) {
                    let i = choose|i: int| 0 <= i < b.len() && (#[trigger] b[i]).0 == key;
                    assert(b.drop_last()[i] == b[i]);
                }
                if has_key(b.drop_last(), key) {
                    let i = choose|i: int|
                        0 <= i < b.drop_last().len() && (#[trigger] b.drop_last()[i]).0 == key;
                    assert(b[i] == b.drop_last()[i]);
                }
            }
        }
    }
}

proof fn lemma_kept_base_key_free(
    base: Seq<(Seq<char>, Seq<char>)>,
    overrides: Seq<(Seq<char>, Seq<char>)>,
    key: Seq<char>,
)
    requires
        !has_key(overrides, key),
    ensures
        bound_value(kept_base(base, overrides), key) == bound_value(base, key),
    decreases base.len(),
{
    if base.len() == 0 {
    } else {
        lemma_kept_base_key_free(base.drop_last(), overrides, key);
        let kept = kept_base(base, overrides);
        if has_key(overrides, base.last().0) {
            assert(kept =~= kept_base(base.drop_last(), overrides));
            assert(base.last().0 != key);
        } else {
            assert(kept.drop_last() =~= kept_base(base.drop_last(), overrides));
            assert(kept.last() == base.last());
        }
    }
}

/// Law: collector headers take precedence. For any key the overrides hold,
/// the merged list binds the overrides' value; for any other key it binds
/// the base value.
pub proof fn lemma_merge_precedence(
    base: Seq<(Seq<char>, Seq<char>)>,
    overrides: Seq<(Seq<char>, Seq<char>)>,
    key: Seq<char>,
)
    ensures
        has_key(overrides, key) ==> bound_value(merged_headers(base, overrides), key)
            == bound_value(overrides, key),
        !has_key(overrides, key) ==> bound_value(merged_headers(base, overrides), key)
            == bound_value(base, key),
{
    lemma_bound_value_concat(kept_base(base, overrides), overrides, key);
    if !has_key(overrides, key) {
        lemma_kept_base_key_free(base, overrides, key);
    }
}

/// Whether the header list holds the key.
fn contains_key(headers: &Vec<(String, String)>, key: &str) -> (r: bool)
    ensures
        r == has_key(pairs_view(headers@), key@),
{
    let mut i: usize = 0;
    while i < headers.len()
        invariant
            i <= headers@.len(),
            forall|j: int| 0 <= j < i ==> (#[trigger] pairs_view(headers@)[j]).0 != key@,
        decreases headers@.len() - i,
    {
        if str_eq(headers[i].0.as_str(), key) {
            assert(pairs_view(headers@)[i as int].0 == key@);
            return true;
        }
        i = i + 1;
    }
    false
}

/// Merges two header lists: the base entries whose key the overrides do not
/// hold, in order, followed by every override entry in order. On key
/// collision the override therefore wins.
pub fn merge_headers(base: &Vec<(String, String)>, overrides: &Vec<(String, String)>) -> (r: Vec<
    (String, String),
>)
    ensures
        pairs_view(r@) == merged_headers(pairs_view(base@), pairs_view(overrides@)),
{
    let ghost base_v = pairs_view(base@);
    let ghost over_v = pairs_view(overrides@);
    let mut out: Vec<(String, String)> = Vec::new();
    let mut i: usize = 0;
    while i < base.len()
        invariant
            i <= base@.len(),
            base_v == pairs_view(base@),
            over_v == pairs_view(overrides@),
            pairs_view(out@) == kept_base(base_v.take(i as int), over_v),
        decreases base@.len() - i,
    {
        let ghost prefix = base_v.take(i as int);
        let (k, v) = &base[i];
        if !contains_key(overrides, k.as_str()) {
            out.push((clone_string(k), clone_string(v)));
        }
        proof {
            assert(base_v.take(i + 1).drop_last() =~= prefix);
            assert(base_v.take(i + 1).last() == base_v[i as int]);
            assert(pairs_view(out@) =~= kept_base(base_v.take(i + 1), over_v));
        }
        i = i + 1;
    }
    proof {
        assert(base_v.take(base@.len() as int) =~= base_v);
        assert(pairs_view(out@) =~= kept_base(base_v, over_v) + over_v.take(0));
    }
    let mut j: usize = 0;
    while j < overrides.len()
        invariant
            j <= overrides@.len(),
            over_v == pairs_view(overrides@),
            pairs_view(out@) == kept_base(base_v, over_v) + over_v.take(j as int),
        decreases overrides@.len() - j,
    {
        let ghost prev = out@;
        let (k, v) = &overrides[j];
        out.push((clone_string(k), clone_string(v)));
        proof {
            assert(pairs_view(out@) =~= pairs_view(prev).push((overrides@[j as int].0@, overrides@[j as int].1@)));
            assert(over_v.take(j + 1) =~= over_v.take(j as int).push(over_v[j as int]));
            assert(pairs_view(out@) =~= kept_base(base_v, over_v) + over_v.take(j + 1));
        }
        j = j + 1;
    }
    proof {
        assert(over_v.take(overrides@.len() as int) =~= over_v);
    }
    out
}

/// One request, ready for the host to sign (per the collector's mode) and
/// send.
pub struct PlannedRequest {
    /// The collector endpoint the request goes to.
    pub endpoint: String,
    /// The HTTP method; always POST.
    pub method: String,
    /// The effective headers: content headers and declared headers, merged
    /// with the collector's own, which win on collision.
    pub headers: Vec<(String, String)>,
    /// The wire body: the compacted payload's compressed bytes, never
    /// re-encoded as base64.
    pub body: Vec<u8>,
}

/// The base header list a payload declares: its content type and content
/// encoding, then the declared extra headers.
pub open spec fn declared_base(
    payload: CompactedPayload,
    declared: Seq<(Seq<char>, Seq<char>)>,
) -> Seq<(Seq<char>, Seq<char>)> {
    seq![("content-type"@, payload.content_type@), ("content-encoding"@, payload.content_encoding@)]
        + declared
}

/// What the one request for a (payload, collector) pair must hold: a POST
/// of the payload's bytes to the collector's endpoint, under the payload's
/// content headers and the declared headers, with the collector's headers
/// winning on key collision.
pub open spec fn is_request_for(
    r: PlannedRequest,
    payload: CompactedPayload,
    declared: Seq<(Seq<char>, Seq<char>)>,
    collector: CollectorConfig,
) -> bool {
    &&& r.endpoint@ == collector.endpoint@
    &&& r.method@ == "POST"@
    &&& r.body@ == payload.body@
    &&& pairs_view(r.headers@) == merged_headers(
        declared_base(payload, declared),
        pairs_view(collector.headers@),
    )
}

/// Builds the one request for a (payload, collector) pair, as
/// [`is_request_for`] demands.
pub fn build_request(
    payload: &CompactedPayload,
    declared: &Vec<(String, String)>,
    collector: &CollectorConfig,
) -> (r: PlannedRequest)
    ensures
        is_request_for(r, *payload, pairs_view(declared@), *collector),
{
    let mut base: Vec<(String, String)> = Vec::new();
    base.push(("content-type".to_owned(), clone_string(&payload.content_type)));
    base.push(("content-encoding".to_owned(), clone_string(&payload.content_encoding)));
    let mut i: usize = 0;
    while i < declared.len()
        invariant
            i <= declared@.len(),
            base@.len() == i + 2,
            pairs_view(base@) == declared_base(*payload, pairs_view(declared@)).take(i + 2),
        decreases declared@.len() - i,
    {
        let (k, v) = &declared[i];
        base.push((clone_string(k), clone_string(v)));
        proof {
            assert(pairs_view(base@) =~= declared_base(*payload, pairs_view(declared@)).take(
                i + 3,
            ));
        }
        i = i + 1;
    }
    proof {
        assert(declared_base(*payload, pairs_view(declared@)).take(
            declared@.len() + 2 as int,
        ) =~= declared_base(*payload, pairs_view(declared@)));
    }
    let headers = merge_headers(&base, &collector.headers);
    let mut body: Vec<u8> = Vec::new();
    let mut b: usize = 0;
    while b < payload.body.len()
        invariant
            b <= payload.body@.len(),
            body@ == payload.body@.take(b as int),
        decreases payload.body@.len() - b,
    {
        body.push(payload.body[b]);
        proof {
            assert(payload.body@.take(b + 1).drop_last() =~= payload.body@.take(b as int));
        }
        b = b + 1;
    }
    proof {
        assert(payload.body@.take(payload.body@.len() as int) =~= payload.body@);
    }
    PlannedRequest { endpoint: clone_string(&collector.endpoint), method: post_label(), headers, body }
}

/// The canonical request method.
fn post_label() -> (r: String)
    ensures
        r@ == "POST"@,
{
    "POST".to_owned()
}

/// Builds the whole fan-out plan: for every payload and every collector,
/// exactly one request, in payload-major order. Entry `[p][c]` is the
/// request sending payload `p` to collector `c`.
pub fn plan_requests(
    payloads: &Vec<CompactedPayload>,
    declared: &Vec<(String, String)>,
    collectors: &Vec<CollectorConfig>,
) -> (r: Vec<Vec<PlannedRequest>>)
    ensures
        r@.len() == payloads@.len(),
        forall|p: int| 0 <= p < r@.len() ==> (#[trigger] r@[p])@.len() == collectors@.len(),
        forall|p: int, c: int|
            0 <= p < r@.len() && 0 <= c < collectors@.len() ==> is_request_for(
                #[trigger] r@[p]@[c],
                payloads@[p],
                pairs_view(declared@),
                collectors@[c],
            ),
{
    let mut plan: Vec<Vec<PlannedRequest>> = Vec::new();
    let mut p: usize = 0;
    while p < payloads.len()
        invariant
            p <= payloads@.len(),
            plan@.len() == p,
            forall|q: int| 0 <= q < p ==> (#[trigger] plan@[q])@.len() == collectors@.len(),
            forall|q: int, c: int|
                0 <= q < p && 0 <= c < collectors@.len() ==> is_request_for(
                    #[trigger] plan@[q]@[c],
                    payloads@[q],
                    pairs_view(declared@),
                    collectors@[c],
                ),
        decreases payloads@.len() - p,
    {
        let mut row: Vec<PlannedRequest> = Vec::new();
        let mut c: usize = 0;
        while c < collectors.len()
            invariant
                c <= collectors@.len(),
                p < payloads@.len(),
                row@.len() == c,
                forall|k: int|
                    0 <= k < c ==> is_request_for(
                        #[trigger] row@[k],
                        payloads@[p as int],
                        pairs_view(declared@),
                        collectors@[k],
                    ),
            decreases collectors@.len() - c,
        {
            row.push(build_request(&payloads[p], declared, &collectors[c]));
            c = c + 1;
        }
        plan.push(row);
        p = p + 1;
    }
    plan
}

/// What one send against one collector came back with: a response with its
/// status code, or a transport failure with the host's error message.
#[derive(Clone, Debug, PartialEq, Eq)]
pub enum SendStatus {
    /// The collector answered, with this HTTP status code.
    Response(u16),
    /// The send itself failed; the message says how.
    TransportFailed(String),
}

/// One send's raw outcome, as the host hands it back.
#[derive(Clone, Debug, PartialEq, Eq)]
pub struct DeliveryOutcome {
    /// Which compacted payload was sent.
    pub payload_index: usize,
    /// Which collector it was sent to.
    pub collector_index: usize,
    /// What came back.
    pub status: SendStatus,
}

/// Whether a status code counts as success: any 2xx.
pub open spec fn is_success_code(c: u16) -> bool {
    200 <= c < 300
}

/// Whether one outcome is a success: a response arrived and its status is
/// 2xx.
pub open spec fn outcome_ok(o: DeliveryOutcome) -> bool {
    match o.status {
        SendStatus::Response(c) => is_success_code(c),
        SendStatus::TransportFailed(_) => false,
    }
}

/// The judged result of one (payload, collector) send: the success status
/// code, or the failure kind with its detail — a rejecting status code, or a
/// transport error message.
#[derive(Clone, Debug, PartialEq, Eq)]
pub enum PairResult {
    /// The collector accepted: a 2xx status.
    Delivered(u16),
    /// The collector answered with a non-2xx status.
    Rejected(u16),
    /// The send never got an answer; the message says why.
    Unreachable(String),
}

/// One judged (payload, collector) entry of the report.
#[derive(Clone, Debug, PartialEq, Eq)]
pub struct DeliveryRecord {
    /// Which compacted payload was sent.
    pub payload_index: usize,
    /// Which collector it was sent to.
    pub collector_index: usize,
    /// The judged result.
    pub result: PairResult,
}

/// Whether a judged record is the correct classification of a raw outcome:
/// same pair, and a 2xx response is delivered, another response rejected, a
/// transport failure unreachable with the same message.
pub open spec fn records_outcome(rec: DeliveryRecord, o: DeliveryOutcome) -> bool {
    &&& rec.payload_index == o.payload_index
    &&& rec.collector_index == o.collector_index
    &&& (match (rec.result, o.status) {
        (PairResult::Delivered(c), SendStatus::Response(c2)) => c == c2 && is_success_code(c2),
        (PairResult::Rejected(c), SendStatus::Response(c2)) => c == c2 && !is_success_code(c2),
        (PairResult::Unreachable(m), SendStatus::TransportFailed(m2)) => m@ == m2@,
        _ => false,
    })
}

/// Whether any outcome concerns the payload.
pub open spec fn payload_attempted(outcomes: Seq<DeliveryOutcome>, p: int) -> bool {
    exists|i: int| 0 <= i < outcomes.len() && (#[trigger] outcomes[i]).payload_index == p
}

/// Whether some collector accepted the payload.
pub open spec fn payload_delivered(outcomes: Seq<DeliveryOutcome>, p: int) -> bool {
    exists|i: int|
        0 <= i < outcomes.len() && (#[trigger] outcomes[i]).payload_index == p && outcome_ok(
            outcomes[i],
        )
}

/// The batch as a whole has failed exactly when, for some payload that was
/// attempted, every collector failed.
pub open spec fn dispatch_fatal(outcomes: Seq<DeliveryOutcome>, n_payloads: int) -> bool {
    exists|p: int|
        0 <= p < n_payloads && #[trigger] payload_attempted(outcomes, p) && !payload_delivered(
            outcomes,
            p,
        )
}

/// The number of successful outcomes.
pub open spec fn count_ok(outcomes: Seq<DeliveryOutcome>) -> int
    decreases outcomes.len(),
{
    if outcomes.len() == 0 {
        0
    } else {
        count_ok(outcomes.drop_last()) + (if outcome_ok(outcomes.last()) {
            1int
        } else {
            0int
        })
    }
}

/// The judgement of a dispatch round: one record per (payload, collector)
/// send, in the outcomes' order, and the tallies.
#[derive(Clone, Debug, PartialEq, Eq)]
pub struct DispatchReport {
    /// One judged entry per send, in order.
    pub records: Vec<DeliveryRecord>,
    /// How many sends succeeded.
    pub successes: usize,
    /// How many failed, by status or by transport.
    pub failures: usize,
}

impl DispatchReport {
    /// A report judges a round when it records every outcome, in order, and
    /// its tallies count the successes exactly.
    pub open spec fn judges(self, outcomes: Seq<DeliveryOutcome>) -> bool {
        &&& self.records@.len() == outcomes.len()
        &&& forall|i: int|
            0 <= i < outcomes.len() ==> records_outcome(#[trigger] self.records@[i], outcomes[i])
        &&& self.successes == count_ok(outcomes)
        &&& self.failures == outcomes.len() - count_ok(outcomes)
    }
}

/// Judges a dispatch round. The report records every (payload, collector)
/// send — status code on success, failure kind and message otherwise — and
/// is returned whatever the verdict. A failure against one collector never
/// poisons the others: the verdict is [`ForwardError::Dispatch`] exactly
/// when some attempted payload was accepted by no collector at all.
pub fn evaluate_dispatch(outcomes: &Vec<DeliveryOutcome>, n_payloads: usize) -> (r: (
    DispatchReport,
    Result<(), ForwardError>,
))
    requires
        forall|i: int|
            0 <= i < outcomes@.len() ==> (#[trigger] outcomes@[i]).payload_index < n_payloads,
    ensures
        r.0.judges(outcomes@),
        r.1 is Err <==> dispatch_fatal(outcomes@, n_payloads as int),
        r.1 matches Err(e) ==> e == ForwardError::Dispatch,
{
    proof {
        lemma_count_ok_bounds(outcomes@);
    }
    let mut records: Vec<DeliveryRecord> = Vec::new();
    let mut n: usize = 0;
    while n < outcomes.len()
        invariant
            n <= outcomes@.len(),
            records@.len() == n,
            forall|j: int|
                0 <= j < n ==> records_outcome(#[trigger] records@[j], outcomes@[j]),
        decreases outcomes@.len() - n,
    {
        let o = &outcomes[n];
        let result = match &o.status {
            SendStatus::Response(c) => {
                if 200 <= *c && *c < 300 {
                    PairResult::Delivered(*c)
                } else {
                    PairResult::Rejected(*c)
                }
            },
            SendStatus::TransportFailed(m) => PairResult::Unreachable(clone_string(m)),
        };
        records.push(
            DeliveryRecord {
                payload_index: o.payload_index,
                collector_index: o.collector_index,
                result,
            },
        );
        n = n + 1;
    }
    let mut attempted: Vec<bool> = Vec::new();
    let mut delivered: Vec<bool> = Vec::new();
    let mut k: usize = 0;
    while k < n_payloads
        invariant
            k <= n_payloads,
            attempted@.len() == k,
            delivered@.len() == k,
            forall|p: int| 0 <= p < k ==> !attempted@[p] && !delivered@[p],
        decreases n_payloads - k,
    {
        attempted.push(false);
        delivered.push(false);
        k = k + 1;
    }
    let mut successes: usize = 0;
    let mut i: usize = 0;
    while i < outcomes.len()
        invariant
            i <= outcomes@.len(),
            attempted@.len() == n_payloads,
            delivered@.len() == n_payloads,
            successes == count_ok(outcomes@.take(i as int)),
            successes <= i,
            forall|j: int|
                0 <= j < outcomes@.len() ==> (#[trigger] outcomes@[j]).payload_index < n_payloads,
            forall|p: int|
                0 <= p < n_payloads ==> attempted@[p] == payload_attempted(
                    outcomes@.take(i as int),
                    p,
                ),
            forall|p: int|
                0 <= p < n_payloads ==> delivered@[p] == payload_delivered(
                    outcomes@.take(i as int),
                    p,
                ),
        decreases outcomes@.len() - i,
    {
        let ghost prefix = outcomes@.take(i as int);
        let o = &outcomes[i];
        let ghost attempted_before = attempted@;
        let ghost delivered_before = delivered@;
        attempted.set(o.payload_index, true);
        let ok = match &o.status {
            SendStatus::Response(c) => 200 <= *c && *c < 300,
            SendStatus::TransportFailed(_) => false,
        };
        if ok {
            delivered.set(o.payload_index, true);
            successes = successes + 1;
        }
        proof {
            assert(outcomes@.take(i + 1).drop_last() =~= prefix);
            assert(outcomes@.take(i + 1).last() == outcomes@[i as int]);
            assert forall|p: int| 0 <= p < n_payloads implies attempted@[p] == payload_attempted(
                outcomes@.take(i + 1),
                p,
            ) by {
                lemma_attempt_step(outcomes@, i as int, p);
                if p != o.payload_index {
                    assert(attempted@[p] == attempted_before[p]);
                }
            }
            assert forall|p: int| 0 <= p < n_payloads implies delivered@[p] == payload_delivered(
                outcomes@.take(i + 1),
                p,
            ) by {
                lemma_deliver_step(outcomes@, i as int, p);
                if !(ok && p == outcomes@[i as int].payload_index) {
                    assert(delivered@[p] == delivered_before[p]);
                }
            }
        }
        i = i + 1;
    }
    proof {
        assert(outcomes@.take(outcomes@.len() as int) =~= outcomes@);
    }
    let report = DispatchReport { records, successes, failures: outcomes.len() - successes };
    let mut p: usize = 0;
    while p < n_payloads
        invariant
            p <= n_payloads,
            attempted@.len() == n_payloads,
            delivered@.len() == n_payloads,
            forall|q: int|
                0 <= q < n_payloads ==> attempted@[q] == payload_attempted(outcomes@, q),
            forall|q: int|
                0 <= q < n_payloads ==> delivered@[q] == payload_delivered(outcomes@, q),
            forall|q: int|
                0 <= q < p ==> !(payload_attempted(outcomes@, q) && !payload_delivered(
                    outcomes@,
                    q,
                )),
            report.judges(outcomes@),
        decreases n_payloads - p,
    {
        if attempted[p] && !delivered[p] {
            return (report, Err(ForwardError::Dispatch));
        }
        p = p + 1;
    }
    (report, Ok(()))
}

proof fn lemma_attempt_step(outcomes: Seq<DeliveryOutcome>, i: int, p: int)
    requires
        0 <= i < outcomes.len(),
    ensures
        payload_attempted(outcomes.take(i + 1), p) <==> (payload_attempted(outcomes.take(i), p)
            || outcomes[i].payload_index == p),
{
    if payload_attempted(outcomes.take(i), p) {
        let j = choose|j: int|
            0 <= j < outcomes.take(i).len() && (#[trigger] outcomes.take(i)[j]).payload_index == p;
        assert(outcomes.take(i + 1)[j].payload_index == p);
    }
    if outcomes[i].payload_index == p {
        assert(outcomes.take(i + 1)[i].payload_index == p);
    }
    if payload_attempted(outcomes.take(i + 1), p) && outcomes[i].payload_index != p {
        let j = choose|j: int|
            0 <= j < outcomes.take(i + 1).len() && (#[trigger] outcomes.take(i + 1)[j]).payload_index
                == p;
        assert(outcomes.take(i)[j] == outcomes.take(i + 1)[j]);
    }
}

proof fn lemma_deliver_step(outcomes: Seq<DeliveryOutcome>, i: int, p: int)
    requires
        0 <= i < outcomes.len(),
    ensures
        payload_delivered(outcomes.take(i + 1), p) <==> (payload_delivered(outcomes.take(i), p) || (
        outcomes[i].payload_index == p && outcome_ok(outcomes[i]))),
{
    if payload_delivered(outcomes.take(i), p) {
        let j = choose|j: int|
            0 <= j < outcomes.take(i).len() && (#[trigger] outcomes.take(i)[j]).payload_index == p
                && outcome_ok(outcomes.take(i)[j]);
        assert(outcomes.take(i + 1)[j].payload_index == p && outcome_ok(outcomes.take(i + 1)[j]));
    }
    if outcomes[i].payload_index == p && outcome_ok(outcomes[i]) {
        assert(outcomes.take(i + 1)[i].payload_index == p && outcome_ok(outcomes.take(i + 1)[i]));
    }
    if payload_delivered(outcomes.take(i + 1), p) && !(outcomes[i].payload_index == p && outcome_ok(
        outcomes[i],
    )) {
        let j = choose|j: int|
            0 <= j < outcomes.take(i + 1).len() && (#[trigger] outcomes.take(i + 1)[j]).payload_index
                == p && outcome_ok(outcomes.take(i + 1)[j]);
        assert(outcomes.take(i)[j] == outcomes.take(i + 1)[j]);
    }
}

proof fn lemma_count_ok_bounds(outcomes: Seq<DeliveryOutcome>)
    ensures
        0 <= count_ok(outcomes) <= outcomes.len(),
        forall|i: int|
            0 <= i <= outcomes.len() ==> 0 <= #[trigger] count_ok(outcomes.take(i)) <= i,
    decreases outcomes.len(),
{
    assert forall|i: int| 0 <= i <= outcomes.len() implies 0 <= #[trigger] count_ok(
        outcomes.take(i),
    ) <= i by {
        lemma_count_ok_prefix(outcomes.take(i));
    }
    lemma_count_ok_prefix(outcomes);
}

proof fn lemma_count_ok_prefix(outcomes: Seq<DeliveryOutcome>)
    ensures
        0 <= count_ok(outcomes) <= outcomes.len(),
    decreases outcomes.len(),
{
    if outcomes.len() > 0 {
        lemma_count_ok_prefix(outcomes.drop_last());
    }
}

/// Whether a host is one the signing provider covers: it ends with the
/// provider's domain suffix.
pub open spec fn spec_ends_with(s: Seq<char>, suffix: Seq<char>) -> bool {
    s.len() >= suffix.len() && s.subrange(s.len() - suffix.len(), s.len() as int) == suffix
}

/// Relies on `str::ends_with`: whether the text ends with the given suffix.
#[verifier::external_body]
fn str_ends_with(s: &str, suffix: &str) -> (r: bool)
    ensures
        r == spec_ends_with(s@, suffix@),
{
    s.ends_with(suffix)
}

/// Whether an outgoing request must be signed: only when its destination
/// host is known and matches the signing provider's domain suffix.
pub fn should_sign(host: &Option<String>) -> (r: bool)
    ensures
        (match host {
            Some(h) => r == spec_ends_with(h@, ".amazonaws.com"@),
            None => r == false,
        }),
{
    match host {
        Some(h) => str_ends_with(h.as_str(), ".amazonaws.com"),
        None => false,
    }
}

} // verus!
