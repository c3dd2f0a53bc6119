//! From SRV records to an ordered list of candidate endpoints.
//!
//! The DNS queries themselves are made outside this crate; what they
//! return is handed in as plain records.

use crate::dns::{ConnectionMode, EndpointView, XmppEndpoint};
use crate::text::{chars_of, string_of};
use vstd::prelude::*;
use vstd::string::StringExecFns;

verus! {

/// One SRV record.
#[derive(Debug, Clone, PartialEq, Eq)]
pub struct SrvRecord {
    pub priority: u16,
    pub weight: u16,
    pub port: u16,
    pub target: String,
}

/// The mathematical content of an [`SrvRecord`].
pub struct SrvRecordView {
    pub priority: u16,
    pub weight: u16,
    pub port: u16,
    pub target: Seq<char>,
}

impl View for SrvRecord {
    type V = SrvRecordView;

    open spec fn view(&self) -> SrvRecordView {
        SrvRecordView {
            priority: self.priority,
            weight: self.weight,
            port: self.port,
            target: self.target@,
        }
    }
}

/// The records of a list, each by its content.
pub open spec fn records_view(records: Seq<SrvRecord>) -> Seq<SrvRecordView> {
    records.map_values(|r: SrvRecord| r@)
}

/// The endpoints of a list, each by its content.
pub open spec fn endpoints_view(endpoints: Seq<XmppEndpoint>) -> Seq<EndpointView> {
    endpoints.map_values(|e: XmppEndpoint| e@)
}

/// `a` is to be tried strictly before `b`: lower priority value first,
/// and among equal priorities the higher weight first.
pub open spec fn tried_before(a: SrvRecordView, b: SrvRecordView) -> bool {
    a.priority < b.priority || (a.priority == b.priority && a.weight > b.weight)
}

/// No record of `s` is to be tried strictly before one that precedes it.
pub open spec fn in_try_order(s: Seq<SrvRecordView>) -> bool {
    forall|i: int, j: int| 0 <= i < j < s.len() ==> !tried_before(s[j], s[i])
}

/// Where `x` goes into the ordered list `s`: before the first record that
/// it is to be tried strictly before, behind everything else.
pub open spec fn insertion_point(s: Seq<SrvRecordView>, x: SrvRecordView) -> int
    decreases s.len(),
{
    if s.len() == 0 {
        0
    } else if tried_before(x, s[0]) {
        0
    } else {
        1 + insertion_point(s.drop_first(), x)
    }
}

/// The records of `s` in try order; records that rank the same keep the
/// order in which they came.
pub open spec fn try_order(s: Seq<SrvRecordView>) -> Seq<SrvRecordView>
    decreases s.len(),
{
    if s.len() == 0 {
        s
    } else {
        let front = try_order(s.drop_last());
        front.insert(insertion_point(front, s.last()), s.last())
    }
}

/// `target` without the dots at its end.
pub open spec fn target_host(target: Seq<char>) -> Seq<char>
    decreases target.len(),
{
    if target.len() > 0 && target.last() == '.' {
        target_host(target.drop_last())
    } else {
        target
    }
}

/// The endpoints that the records `s` name, in their order, for the given
/// mode and XMPP domain. A record whose target is `.` names none.
pub open spec fn record_endpoints(
    s: Seq<SrvRecordView>,
    mode: ConnectionMode,
    domain: Seq<char>,
) -> Seq<EndpointView>
    decreases s.len(),
{
    if s.len() == 0 {
        Seq::empty()
    } else {
        let front = record_endpoints(s.drop_last(), mode, domain);
        let host = target_host(s.last().target);
        if host.len() == 0 {
            front
        } else {
            front.push(EndpointView { host, port: s.last().port, mode, domain: Some(domain) })
        }
    }
}

/// The endpoint to fall back on when no record names one: the domain
/// itself on port 5222 with STARTTLS.
pub open spec fn fallback_endpoint(domain: Seq<char>) -> EndpointView {
    EndpointView { host: domain, port: 5222, mode: ConnectionMode::Tcp, domain: None }
}

/// The candidate endpoints of `domain`, in the order in which they are
/// to be tried: those of the direct-TLS records in try order, then those
/// of the STARTTLS records in try order; the fallback alone where there
/// is none.
pub open spec fn candidates(
    domain: Seq<char>,
    direct_tls: Seq<SrvRecordView>,
    starttls: Seq<SrvRecordView>,
) -> Seq<EndpointView> {
    let found = record_endpoints(try_order(direct_tls), ConnectionMode::DirectTls, domain)
        + record_endpoints(try_order(starttls), ConnectionMode::Tcp, domain);
    if found.len() == 0 {
        seq![fallback_endpoint(domain)]
    } else {
        found
    }
}

/// The name to query for the SRV records of a mode.
pub open spec fn srv_name(mode: ConnectionMode, domain: Seq<char>) -> Seq<char> {
    match mode {
        ConnectionMode::DirectTls => "_xmpps-client._tcp."@ + domain,
        ConnectionMode::Tcp => "_xmpp-client._tcp."@ + domain,
    }
}

/// The name under which the SRV records of `mode` for `domain` are found.
pub fn srv_query_name(mode: ConnectionMode, domain: &str) -> (name: String)
    ensures
        name@ == srv_name(mode, domain@),
{
    let mut name = match mode {
        ConnectionMode::DirectTls => String::from_str("_xmpps-client._tcp."),
        ConnectionMode::Tcp => String::from_str("_xmpp-client._tcp."),
    };
    name.append(domain);
    name
}

/// Whether `a` is to be tried strictly before `b`.
pub fn is_tried_before(a: &SrvRecord, b: &SrvRecord) -> (before: bool)
    ensures
        before == tried_before(a@, b@),
{
    a.priority < b.priority || (a.priority == b.priority && a.weight > b.weight)
}

/// Puts records into try order: priority ascending, then weight
/// descending, records of the same rank in the order in which they came.
pub fn sort_records(records: Vec<SrvRecord>) -> (sorted: Vec<SrvRecord>)
    ensures
        records_view(sorted@) == try_order(records_view(records@)),
{
    let ghost all = records_view(records@);
    let mut rest = records;
    let mut sorted: Vec<SrvRecord> = Vec::new();
    let ghost mut done: int = 0;
    assert(all.take(0) == Seq::<SrvRecordView>::empty());
    assert(records_view(sorted@) == Seq::<SrvRecordView>::empty());
    assert(records_view(rest@) == all.skip(0));
    while rest.len() > 0
        invariant
            0 <= done <= all.len(),
            records_view(rest@) == all.skip(done),
            records_view(sorted@) == try_order(all.take(done)),
        decreases rest.len(),
    {
        let ghost rest_before = rest@;
        let ghost sorted_before = records_view(sorted@);
        proof {
            assert(records_view(rest_before).len() == rest_before.len());
            assert(all.skip(done).len() == all.len() - done);
        }
        let record = rest.remove(0);
        proof {
            assert(record@ == records_view(rest_before)[0]);
            assert(all.skip(done)[0] == all[done]);
            assert(record@ == all[done]);
            assert(records_view(rest@) == all.skip(done + 1)) by {
                assert forall|k: int| 0 <= k < rest@.len() implies records_view(rest@)[k]
                    == all.skip(done + 1)[k] by {
                    assert(rest@[k] == rest_before[k + 1]);
                    assert(records_view(rest_before)[k + 1] == all.skip(done)[k + 1]);
                    assert(all.skip(done)[k + 1] == all[done + k + 1]);
                    assert(all.skip(done + 1)[k] == all[done + 1 + k]);
                }
            }
        }
        let mut at: usize = 0;
        assert(sorted_before.skip(0) == sorted_before);
        while at < sorted.len() && !is_tried_before(&record, &sorted[at])
            invariant
                at <= sorted.len(),
                sorted_before == records_view(sorted@),
                insertion_point(sorted_before, record@) == at + insertion_point(
                    sorted_before.skip(at as int),
                    record@,
                ),
            decreases sorted.len() - at,
        {
            proof {
                let cur = sorted_before.skip(at as int);
                assert(cur[0] == sorted@[at as int]@);
                assert(cur.drop_first() == sorted_before.skip(at + 1));
            }
            at += 1;
        }
        proof {
            let cur = sorted_before.skip(at as int);
            if at < sorted.len() {
                assert(cur[0] == sorted@[at as int]@);
            }
            assert(insertion_point(sorted_before, record@) == at);
        }
        sorted.insert(at, record);
        proof {
            let next = all.take(done + 1);
            assert(next.drop_last() == all.take(done));
            assert(next.last() == all[done]);
            assert(records_view(sorted@) == sorted_before.insert(at as int, record@));
            done = done + 1;
        }
    }
    assert(all.take(done) == all);
    sorted
}

/// A target name without the dots at its end.
pub fn host_of_target(target: &str) -> (host: String)
    ensures
        host@ == target_host(target@),
{
    let chars = chars_of(target);
    let mut end: usize = chars.len();
    assert(chars@.take(end as int) == chars@);
    while end > 0 && chars[end - 1] == '.'
        invariant
            end <= chars.len(),
            target_host(chars@) == target_host(chars@.take(end as int)),
        decreases end,
    {
        proof {
            let cur = chars@.take(end as int);
            assert(cur.drop_last() == chars@.take(end - 1));
        }
        end -= 1;
    }
    string_of(&chars[0..end])
}

/// The endpoints that `records` name, in their order.
pub fn endpoints_of_records(records: &[SrvRecord], mode: ConnectionMode, domain: &str) -> (endpoints:
    Vec<XmppEndpoint>)
    ensures
        endpoints_view(endpoints@) == record_endpoints(records_view(records@), mode, domain@),
{
    let ghost all = records_view(records@);
    let mut endpoints: Vec<XmppEndpoint> = Vec::new();
    let mut i: usize = 0;
    assert(all.take(0) == Seq::<SrvRecordView>::empty());
    assert(endpoints_view(endpoints@) == Seq::<EndpointView>::empty());
    while i < records.len()
        invariant
            i <= records.len(),
            all == records_view(records@),
            endpoints_view(endpoints@) == record_endpoints(all.take(i as int), mode, domain@),
        decreases records.len() - i,
    {
        let ghost before = endpoints_view(endpoints@);
        proof {
            let next = all.take(i + 1);
            assert(next.drop_last() == all.take(i as int));
            assert(next.last() == records@[i as int]@);
        }
        let host = host_of_target(records[i].target.as_str());
        if !host.as_str().is_empty() {
            let endpoint = XmppEndpoint {
                host,
                port: records[i].port,
                mode,
                domain: Some(domain.to_owned()),
            };
            endpoints.push(endpoint);
            assert(endpoints_view(endpoints@) == before.push(endpoint@));
        }
        i += 1;
    }
    assert(all.take(i as int) == all);
    endpoints
}

/// Orders the candidate endpoints of `domain` from the records that the
/// two SRV queries returned. A query that failed counts as one that
/// returned nothing.
///
/// The result is never empty: where no record names an endpoint, it is
/// the fallback `domain:5222` with STARTTLS.
pub fn resolve_xmpp_server(
    domain: &str,
    direct_tls: Vec<SrvRecord>,
    starttls: Vec<SrvRecord>,
) -> (resolved: Result<Vec<XmppEndpoint>, String>)
    ensures
        resolved matches Ok(endpoints) && endpoints_view(endpoints@) == candidates(
            domain@,
            records_view(direct_tls@),
            records_view(starttls@),
        ) && endpoints.len() > 0,
{
    let tls_sorted = sort_records(direct_tls);
    let tcp_sorted = sort_records(starttls);
    let mut endpoints = endpoints_of_records(
        tls_sorted.as_slice(),
        ConnectionMode::DirectTls,
        domain,
    );
    let mut more = endpoints_of_records(tcp_sorted.as_slice(), ConnectionMode::Tcp, domain);
    let ghost first = endpoints_view(endpoints@);
    let ghost second = endpoints_view(more@);
    endpoints.append(&mut more);
    assert(endpoints_view(endpoints@) == first + second);
    if endpoints.len() == 0 {
        let fallback = XmppEndpoint {
            host: domain.to_owned(),
            port: 5222,
            mode: ConnectionMode::Tcp,
            domain: None,
        };
        endpoints.push(fallback);
        assert(endpoints_view(endpoints@) == seq![fallback@]);
    }
    Ok(endpoints)
}

/// The insertion point lies within the list; what stands before it is
/// not behind the new record, and what stands at it is.
proof fn lemma_insertion_point(s: Seq<SrvRecordView>, x: SrvRecordView)
    ensures
        0 <= insertion_point(s, x) <= s.len(),
        forall|i: int| 0 <= i < insertion_point(s, x) ==> !tried_before(x, #[trigger] s[i]),
        insertion_point(s, x) < s.len() ==> tried_before(x, s[insertion_point(s, x)]),
    decreases s.len(),
{
    if s.len() > 0 && !tried_before(x, s[0]) {
        let rest = s.drop_first();
        lemma_insertion_point(rest, x);
        assert forall|i: int| 0 <= i < insertion_point(s, x) implies !tried_before(
            x,
            #[trigger] s[i],
        ) by {
            if i > 0 {
                assert(rest[i - 1] == s[i]);
            }
        }
        if insertion_point(s, x) < s.len() {
            assert(rest[insertion_point(rest, x)] == s[insertion_point(s, x)]);
        }
    }
}

/// Trying `a` before `b` and `b` before `c` means trying `a` before `c`.
proof fn lemma_tried_before_chain(a: SrvRecordView, b: SrvRecordView, c: SrvRecordView)
    ensures
        tried_before(a, b) && !tried_before(c, b) ==> tried_before(a, c),
        !tried_before(b, a) && !tried_before(c, b) ==> !tried_before(c, a),
{
}

/// The candidates come out in try order: priority ascending, and weight
/// descending within one priority.
pub proof fn law_try_order_is_ordered(s: Seq<SrvRecordView>)
    ensures
        in_try_order(try_order(s)),
        try_order(s).len() == s.len(),
    decreases s.len(),
{
    if s.len() > 0 {
        let front = try_order(s.drop_last());
        let x = s.last();
        law_try_order_is_ordered(s.drop_last());
        lemma_insertion_point(front, x);
        let p = insertion_point(front, x);
        let out = front.insert(p, x);
        assert forall|i: int, j: int| 0 <= i < j < out.len() implies !tried_before(
            out[j],
            out[i],
        ) by {
            if j < p {
                assert(out[i] == front[i] && out[j] == front[j]);
            } else if j == p {
                assert(out[i] == front[i]);
            } else if i < p {
                assert(out[i] == front[i] && out[j] == front[j - 1]);
            } else if i == p {
                assert(out[j] == front[j - 1]);
                if p < j - 1 {
                    lemma_tried_before_chain(x, front[p], front[j - 1]);
                }
            } else {
                assert(out[i] == front[i - 1] && out[j] == front[j - 1]);
            }
        }
    }
}

/// Ordering neither drops nor invents a record: the ordered list holds
/// the same records, each as often as the list before.
pub proof fn law_try_order_keeps_records(s: Seq<SrvRecordView>)
    ensures
        try_order(s).to_multiset() == s.to_multiset(),
    decreases s.len(),
{
    broadcast use vstd::seq_lib::group_to_multiset_ensures;

    if s.len() > 0 {
        let front = try_order(s.drop_last());
        let x = s.last();
        law_try_order_keeps_records(s.drop_last());
        lemma_insertion_point(front, x);
        let p = insertion_point(front, x);
        vstd::seq_lib::to_multiset_insert(front, p, x);
        assert(s == s.drop_last().push(x));
        vstd::seq_lib::to_multiset_build(s.drop_last(), x);
    }
}

/// `a` and `b` rank the same: neither is to be tried before the other.
pub open spec fn same_rank(a: SrvRecordView, b: SrvRecordView) -> bool {
    a.priority == b.priority && a.weight == b.weight
}

/// The test for the records that rank as `rank` does.
pub open spec fn of_rank(rank: SrvRecordView) -> spec_fn(SrvRecordView) -> bool {
    |r: SrvRecordView| same_rank(r, rank)
}

/// Filtering a list of records that all fail the test leaves nothing.
proof fn lemma_filter_none(s: Seq<SrvRecordView>, pred: spec_fn(SrvRecordView) -> bool)
    requires
        forall|i: int| 0 <= i < s.len() ==> !pred(#[trigger] s[i]),
    ensures
        s.filter(pred) == Seq::<SrvRecordView>::empty(),
    decreases s.len(),
{
    reveal(Seq::filter);
    if s.len() > 0 {
        assert(!pred(s[s.len() - 1]));
        assert forall|i: int| 0 <= i < s.drop_last().len() implies !pred(
            #[trigger] s.drop_last()[i],
        ) by {
            assert(s.drop_last()[i] == s[i]);
        }
        lemma_filter_none(s.drop_last(), pred);
    }
}

/// Ordering is stable: the records of one rank come out in the order in
/// which they came in.
pub proof fn law_try_order_is_stable(s: Seq<SrvRecordView>, rank: SrvRecordView)
    ensures
        try_order(s).filter(of_rank(rank)) == s.filter(of_rank(rank)),
    decreases s.len(),
{
    let pred = of_rank(rank);
    if s.len() > 0 {
        let front = try_order(s.drop_last());
        let x = s.last();
        law_try_order_is_stable(s.drop_last(), rank);
        law_try_order_is_ordered(s.drop_last());
        lemma_insertion_point(front, x);
        let p = insertion_point(front, x);
        let out = front.insert(p, x);
        let head = front.take(p);
        let tail = front.skip(p);
        assert(front == head + tail);
        assert(out == head.push(x) + tail);
        Seq::filter_distributes_over_add(head, tail, pred);
        Seq::filter_distributes_over_add(head.push(x), tail, pred);
        head.lemma_filter_push(x, pred);
        assert(s == s.drop_last().push(x));
        s.drop_last().lemma_filter_push(x, pred);
        if pred(x) {
            assert forall|i: int| 0 <= i < tail.len() implies !pred(#[trigger] tail[i]) by {
                assert(tail[i] == front[p + i]);
                assert(tried_before(x, front[p]));
                if i > 0 {
                    lemma_tried_before_chain(x, front[p], front[p + i]);
                }
            }
            lemma_filter_none(tail, pred);
            assert(head.filter(pred) + Seq::<SrvRecordView>::empty() == head.filter(pred));
            assert(head.push(x).filter(pred) + Seq::<SrvRecordView>::empty() == head.push(
                x,
            ).filter(pred));
        }
    }
}

/// A resolution always names at least one endpoint.
pub proof fn law_candidates_not_empty(
    domain: Seq<char>,
    direct_tls: Seq<SrvRecordView>,
    starttls: Seq<SrvRecordView>,
)
    ensures
        candidates(domain, direct_tls, starttls).len() > 0,
{
}

} // verus!
