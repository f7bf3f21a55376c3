//! The laws the dispatch rules obey, stated and proved over the spec-level
//! transition functions of the engine.

use crate::cache::ClientAddr;
use crate::cache::spec_add_pending;
use crate::codec::DnsInfoV;
use crate::codec::dns_parses;
use crate::codec::dns_qname;
use crate::codec::dns_qtype_is_ptr;
use crate::codec::dns_query_count;
use crate::domain::is_boundary_suffix;
use crate::domain::ptr_qname;
use crate::domain::spec_blocked;
use crate::engine::ActionV;
use crate::engine::EngineV;
use crate::engine::spec_cache_hit;
use crate::engine::spec_local_datagram_step;
use crate::engine::spec_local_step;
use crate::engine::spec_send_actions;
use crate::engine::spec_upstream_for;
use crate::engine::spec_upstream_step;
use vstd::prelude::*;

verus! {

/// Classification: a name that ends with some blocklist entry at a label
/// boundary is blocked.
pub proof fn lemma_boundary_suffix_blocked(name: Seq<u8>, blocklist: Seq<Seq<u8>>, i: int)
    requires
        0 <= i < blocklist.len(),
        is_boundary_suffix(name, blocklist[i]),
    ensures
        spec_blocked(name, blocklist),
{
}

/// Classification: a name that matches no entry at a label boundary is not
/// blocked; in particular a bare suffix match without a label boundary does
/// not block.
pub proof fn lemma_no_boundary_not_blocked(name: Seq<u8>, blocklist: Seq<Seq<u8>>)
    requires
        forall|i: int| 0 <= i < blocklist.len() ==> !is_boundary_suffix(name, blocklist[i]),
    ensures
        !spec_blocked(name, blocklist),
{
}

/// Cache hit: once a reply with payload `raw` for a name is cached at time
/// `t`, a query for that name at any time `t2` before `t` plus the validity
/// duration is answered with exactly that payload, and the engine does not
/// change — in particular no upstream is contacted. (A reply payload is
/// never empty on the wire; an empty one would not be served from cache.)
pub proof fn lemma_cache_hit_after_reply(
    e: EngineV,
    rep: DnsInfoV,
    raw: Seq<u8>,
    t: u64,
    q: DnsInfoV,
    qraw: Seq<u8>,
    from: ClientAddr,
    t2: u64,
)
    requires
        rep.query_count >= 1,
        e.cache.contains_key(rep.name),
        raw.len() > 0,
        q.query_count == 1,
        q.name == rep.name,
        !(q.is_ptr && q.name == ptr_qname()),
        (t2 as int) < t + e.validity,
    ensures
        ({
            let (e1, _) = spec_upstream_step(e, rep, raw, t);
            let (e2, acts) = spec_local_step(e1, q, qraw, from, t2);
            &&& e2 == e1
            &&& acts == seq![ActionV::SendLocal { to: from, data: raw }]
        }),
{
    let (e1, _) = spec_upstream_step(e, rep, raw, t);
    assert(e1.cache[q.name].response == raw);
    assert(spec_cache_hit(e1, q.name, t2));
}

/// Cache expiry: a query at a time `t2` at or past `t` plus the validity
/// duration is not answered from the cache written at `t`; it is forwarded
/// to the upstream its classification selects, and the requester is recorded
/// as pending.
pub proof fn lemma_cache_expiry_after_reply(
    e: EngineV,
    rep: DnsInfoV,
    raw: Seq<u8>,
    t: u64,
    q: DnsInfoV,
    qraw: Seq<u8>,
    from: ClientAddr,
    t2: u64,
)
    requires
        rep.query_count >= 1,
        e.cache.contains_key(rep.name),
        q.query_count == 1,
        q.name == rep.name,
        !(q.is_ptr && q.name == ptr_qname()),
        (t2 as int) >= t + e.validity,
    ensures
        ({
            let (e1, _) = spec_upstream_step(e, rep, raw, t);
            let (e2, acts) = spec_local_step(e1, q, qraw, from, t2);
            &&& acts == seq![
                ActionV::Forward { upstream: spec_upstream_for(e1, q.name), data: qraw },
            ]
            &&& e2.cache == spec_add_pending(e1.cache, q.name, from, t2)
        }),
{
    let (e1, _) = spec_upstream_step(e, rep, raw, t);
    assert(e1.cache[q.name].update_time == t);
    assert(!spec_cache_hit(e1, q.name, t2));
}

/// Coalescing: when two requesters query a name before any reply has
/// arrived, both queries are forwarded, and when the reply arrives its raw
/// bytes are delivered verbatim to each of them, in arrival order, and no
/// requester stays pending for the name.
pub proof fn lemma_coalescing(
    e: EngineV,
    q: DnsInfoV,
    qraw_a: Seq<u8>,
    qraw_b: Seq<u8>,
    a: ClientAddr,
    b: ClientAddr,
    ta: u64,
    tb: u64,
    rep: DnsInfoV,
    raw: Seq<u8>,
    t3: u64,
)
    requires
        q.query_count == 1,
        !(q.is_ptr && q.name == ptr_qname()),
        !e.cache.contains_key(q.name),
        rep.query_count >= 1,
        rep.name == q.name,
    ensures
        ({
            let (e1, acts_a) = spec_local_step(e, q, qraw_a, a, ta);
            let (e2, acts_b) = spec_local_step(e1, q, qraw_b, b, tb);
            let (e3, acts) = spec_upstream_step(e2, rep, raw, t3);
            &&& acts_a[0] is Forward
            &&& acts_b[0] is Forward
            &&& acts.len() >= 2
            &&& acts[0] == ActionV::SendLocal { to: a, data: raw }
            &&& acts[1] == ActionV::SendLocal { to: b, data: raw }
            &&& e3.cache.contains_key(q.name)
            &&& e3.cache[q.name].pending == Seq::<ClientAddr>::empty()
        }),
{
    let (e1, acts_a) = spec_local_step(e, q, qraw_a, a, ta);
    assert(e1.cache[q.name].pending =~= seq![a]);
    assert(e1.cache[q.name].response.len() == 0);
    assert(!spec_cache_hit(e1, q.name, tb));
    let (e2, acts_b) = spec_local_step(e1, q, qraw_b, b, tb);
    assert(e2.cache[q.name].pending =~= seq![a, b]);
    let (e3, acts) = spec_upstream_step(e2, rep, raw, t3);
    let sends = spec_send_actions(e2.cache[q.name].pending, raw);
    assert(sends.len() == 2);
    assert(acts[0] == sends[0]);
    assert(acts[1] == sends[1]);
    assert(e3.cache[q.name].pending =~= Seq::<ClientAddr>::empty());
}

/// A local query causes at most one outbound datagram: either one local
/// reply (synthetic or cached) or exactly one upstream forward, never both.
pub proof fn lemma_local_step_at_most_one_action(
    e: EngineV,
    q: DnsInfoV,
    raw: Seq<u8>,
    from: ClientAddr,
    now: u64,
)
    ensures
        spec_local_step(e, q, raw, from, now).1.len() <= 1,
{
}

/// The synthetic answer that setup stores carries the decode facts of the
/// loopback PTR question, so its own bytes, arriving as a local query,
/// are answered synthetically and verbatim, and no upstream is contacted.
pub proof fn lemma_setup_answer_takes_shortcut(e: EngineV, from: ClientAddr, now: u64)
    requires
        dns_parses(e.ptr_answer),
        dns_query_count(e.ptr_answer) == 1,
        dns_qtype_is_ptr(e.ptr_answer),
        dns_qname(e.ptr_answer) == ptr_qname(),
    ensures
        spec_local_datagram_step(e, e.ptr_answer, from, now).0 == e,
        spec_local_datagram_step(e, e.ptr_answer, from, now).1 == seq![
            ActionV::SendLocal { to: from, data: e.ptr_answer },
        ],
{
}

/// Silent drop: an upstream reply for a name with no cache entry — a name
/// never queried locally — changes nothing and produces no action: no
/// datagram goes out and no route is reported.
pub proof fn lemma_silent_drop(e: EngineV, rep: DnsInfoV, raw: Seq<u8>, t: u64)
    requires
        !e.cache.contains_key(rep.name),
    ensures
        spec_upstream_step(e, rep, raw, t).0 == e,
        spec_upstream_step(e, rep, raw, t).1 == Seq::<ActionV>::empty(),
{
}

/// PTR shortcut: the reverse lookup for the loopback address is answered
/// with the synthetic PTR answer alone and the engine does not change; in
/// particular nothing is forwarded to either upstream.
pub proof fn lemma_ptr_shortcut(
    e: EngineV,
    q: DnsInfoV,
    raw: Seq<u8>,
    from: ClientAddr,
    now: u64,
)
    requires
        q.query_count == 1,
        q.is_ptr,
        q.name == ptr_qname(),
    ensures
        spec_local_step(e, q, raw, from, now).0 == e,
        spec_local_step(e, q, raw, from, now).1 == seq![
            ActionV::SendLocal { to: from, data: e.ptr_answer },
        ],
        forall|i: int|
            0 <= i < spec_local_step(e, q, raw, from, now).1.len()
                ==> !(spec_local_step(e, q, raw, from, now).1[i] is Forward),
{
}

} // verus!
