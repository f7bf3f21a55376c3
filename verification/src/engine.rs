//! The dispatch engine: the decision rules of the proxy as a state machine.
//!
//! The engine owns the blocklist, the answer cache, the pre-encoded synthetic
//! PTR answer and the cache-validity duration. Each inbound datagram is one
//! step: the caller hands the engine the raw bytes (and, decoded by
//! `codec::decode_dns`, the plain facts of the message), the requester's
//! address for local queries, and the current time in seconds; the engine
//! returns the outbound work as a sequence of actions and updates the cache.
//! The exact behaviour of each step is the spec-level transition function
//! beside it.

use crate::cache::Cache;
use crate::cache::ClientAddr;
use crate::cache::EntryV;
use crate::cache::spec_add_pending;
use crate::codec::DnsInfo;
use crate::codec::DnsInfoV;
use crate::codec::decode_dns;
use crate::codec::dns_info_of;
use crate::codec::dns_parses;
use crate::codec::dns_qname;
use crate::codec::dns_qtype_is_ptr;
use crate::codec::dns_query_count;
use crate::codec::encode_ptr_answer;
use crate::domain::LABEL_SEP;
use crate::domain::blocked;
use crate::domain::bytes_eq;
use crate::domain::clone_bytes;
use crate::domain::ptr_qname;
use crate::domain::ptr_qname_bytes;
use crate::domain::spec_blocked;
use vstd::prelude::*;

verus! {

/// The two upstream resolvers: blocked names go to the trusted one, all
/// other names to the poisoned one.
#[derive(Clone, Copy, PartialEq, Eq, Structural, Debug)]
pub enum Upstream {
    Trusted,
    Poisoned,
}

/// One piece of outbound work that a dispatch step asks the caller to do.
pub enum Action {
    /// Send a reply datagram to a local requester on the listener socket.
    SendLocal { to: ClientAddr, data: Vec<u8> },
    /// Forward a query datagram unmodified to an upstream resolver.
    Forward { upstream: Upstream, data: Vec<u8> },
    /// Report a resolved IP address, in textual form, to the routing
    /// component.
    ReportRoute { address: String },
}

/// The mathematical value of an action.
pub enum ActionV {
    SendLocal { to: ClientAddr, data: Seq<u8> },
    Forward { upstream: Upstream, data: Seq<u8> },
    ReportRoute { address: Seq<char> },
}

impl View for Action {
    type V = ActionV;

    open spec fn view(&self) -> ActionV {
        match self {
            Action::SendLocal { to, data } => ActionV::SendLocal { to: *to, data: data@ },
            Action::Forward { upstream, data } => ActionV::Forward {
                upstream: *upstream,
                data: data@,
            },
            Action::ReportRoute { address } => ActionV::ReportRoute { address: address@ },
        }
    }
}

/// The values of a sequence of actions.
pub open spec fn views_of(s: Seq<Action>) -> Seq<ActionV> {
    s.map_values(|a: Action| a@)
}

/// The mathematical value of the engine.
pub struct EngineV {
    pub blocklist: Seq<Seq<u8>>,
    pub cache: Map<Seq<u8>, EntryV>,
    pub ptr_answer: Seq<u8>,
    pub validity: u64,
}

/// The dispatch engine.
pub struct Engine {
    /// Blocklist entries, each terminated with the label separator.
    pub blocklist: Vec<Vec<u8>>,
    /// The answer cache.
    pub cache: Cache,
    /// The pre-encoded synthetic reply for the loopback reverse lookup.
    pub ptr_answer: Vec<u8>,
    /// How many seconds a cached answer stays valid.
    pub validity: u64,
}

impl View for Engine {
    type V = EngineV;

    open spec fn view(&self) -> EngineV {
        EngineV {
            blocklist: self.blocklist.deep_view(),
            cache: self.cache@,
            ptr_answer: self.ptr_answer@,
            validity: self.validity,
        }
    }
}

/// A cached answer for `name` serves a query at `now`: the entry exists, its
/// answer is non-empty, and the answer is younger than the validity duration.
pub open spec fn spec_cache_hit(e: EngineV, name: Seq<u8>, now: u64) -> bool {
    &&& e.cache.contains_key(name)
    &&& e.cache[name].response.len() > 0
    &&& (now as int) < e.cache[name].update_time + e.validity
}

/// The upstream that a query for `name` is forwarded to.
pub open spec fn spec_upstream_for(e: EngineV, name: Seq<u8>) -> Upstream {
    if spec_blocked(name, e.blocklist) {
        Upstream::Trusted
    } else {
        Upstream::Poisoned
    }
}

/// What one local query datagram does, given the decoded facts `q` of the
/// raw bytes `raw`, the requester `from` and the time `now`: a message
/// without exactly one question is dropped; the loopback reverse lookup gets
/// the synthetic PTR answer; a fresh cached answer is replayed; any other
/// query is forwarded to the upstream its classification selects, and the
/// requester is recorded as pending.
pub open spec fn spec_local_step(
    e: EngineV,
    q: DnsInfoV,
    raw: Seq<u8>,
    from: ClientAddr,
    now: u64,
) -> (EngineV, Seq<ActionV>) {
    if q.query_count != 1 {
        (e, Seq::empty())
    } else if q.is_ptr && q.name == ptr_qname() {
        (e, seq![ActionV::SendLocal { to: from, data: e.ptr_answer }])
    } else if spec_cache_hit(e, q.name, now) {
        (e, seq![ActionV::SendLocal { to: from, data: e.cache[q.name].response }])
    } else {
        (
            EngineV {
                blocklist: e.blocklist,
                cache: spec_add_pending(e.cache, q.name, from, now),
                ptr_answer: e.ptr_answer,
                validity: e.validity,
            },
            seq![ActionV::Forward { upstream: spec_upstream_for(e, q.name), data: raw }],
        )
    }
}

/// The replies that delivering `data` to each pending requester asks for, in
/// the order the requesters arrived.
pub open spec fn spec_send_actions(pending: Seq<ClientAddr>, data: Seq<u8>) -> Seq<ActionV> {
    pending.map_values(|p: ClientAddr| ActionV::SendLocal { to: p, data })
}

/// The route reports that the answer records ask for: one per record that
/// carries an IP address, in record order.
pub open spec fn spec_report_actions(addrs: Seq<Option<Seq<char>>>) -> Seq<ActionV>
    decreases addrs.len(),
{
    if addrs.len() == 0 {
        Seq::empty()
    } else {
        match addrs.last() {
            Some(a) => spec_report_actions(addrs.drop_last()).push(
                ActionV::ReportRoute { address: a },
            ),
            None => spec_report_actions(addrs.drop_last()),
        }
    }
}

/// What one upstream reply datagram does, given the decoded facts `r` of the
/// raw bytes `raw` and the time `now`: a reply without a question, or for a
/// name with no cache entry, is silently dropped. Otherwise the raw reply is
/// sent to every pending requester of the name, every address among the
/// answer records is reported, and the entry is overwritten with the reply,
/// stamped `now`, with no requester pending.
pub open spec fn spec_upstream_step(
    e: EngineV,
    r: DnsInfoV,
    raw: Seq<u8>,
    now: u64,
) -> (EngineV, Seq<ActionV>) {
    if r.query_count == 0 || !e.cache.contains_key(r.name) {
        (e, Seq::empty())
    } else {
        (
            EngineV {
                blocklist: e.blocklist,
                cache: e.cache.insert(
                    r.name,
                    EntryV { pending: Seq::empty(), response: raw, update_time: now },
                ),
                ptr_answer: e.ptr_answer,
                validity: e.validity,
            },
            spec_send_actions(e.cache[r.name].pending, raw) + spec_report_actions(r.addrs),
        )
    }
}

/// What one raw local datagram does: an undecodable datagram is dropped,
/// any other steps as its decoded facts say.
pub open spec fn spec_local_datagram_step(
    e: EngineV,
    raw: Seq<u8>,
    from: ClientAddr,
    now: u64,
) -> (EngineV, Seq<ActionV>) {
    if !dns_parses(raw) {
        (e, Seq::empty())
    } else {
        spec_local_step(e, dns_info_of(raw), raw, from, now)
    }
}

/// What one raw upstream datagram does: an undecodable datagram is dropped,
/// any other steps as its decoded facts say.
pub open spec fn spec_upstream_datagram_step(
    e: EngineV,
    raw: Seq<u8>,
    now: u64,
) -> (EngineV, Seq<ActionV>) {
    if !dns_parses(raw) {
        (e, Seq::empty())
    } else {
        spec_upstream_step(e, dns_info_of(raw), raw, now)
    }
}

proof fn lemma_send_actions_take(p: Seq<ClientAddr>, data: Seq<u8>, i: int)
    requires
        0 <= i < p.len(),
    ensures
        spec_send_actions(p.take(i + 1), data) == spec_send_actions(p.take(i), data).push(
            ActionV::SendLocal { to: p[i], data },
        ),
{
    assert(spec_send_actions(p.take(i + 1), data) =~= spec_send_actions(p.take(i), data).push(
        ActionV::SendLocal { to: p[i], data },
    ));
}

proof fn lemma_report_actions_take(a: Seq<Option<Seq<char>>>, i: int)
    requires
        0 <= i < a.len(),
    ensures
        spec_report_actions(a.take(i + 1)) == match a[i] {
            Some(addr) => spec_report_actions(a.take(i)).push(
                ActionV::ReportRoute { address: addr },
            ),
            None => spec_report_actions(a.take(i)),
        },
{
    assert(a.take(i + 1).drop_last() =~= a.take(i));
    assert(a.take(i + 1).last() == a[i]);
}

/// Whether an answer written at `update_time` is still valid at `now`.
fn is_fresh(update_time: u64, validity: u64, now: u64) -> (r: bool)
    ensures
        r == ((now as int) < update_time + validity),
{
    match update_time.checked_add(validity) {
        Some(t) => now < t,
        None => true,
    }
}

impl Engine {
    /// The cache's names are pairwise distinct.
    pub open spec fn wf(&self) -> bool {
        self.cache.wf()
    }

    /// An engine over the given blocklist lines (one name per line, without
    /// the trailing separator; it is appended here), validity duration in
    /// seconds, and pre-encoded synthetic PTR answer. The cache starts empty.
    pub fn new(lines: Vec<Vec<u8>>, validity: u64, ptr_answer: Vec<u8>) -> (e: Engine)
        ensures
            e.wf(),
            e@.cache == Map::<Seq<u8>, EntryV>::empty(),
            e@.validity == validity,
            e@.ptr_answer == ptr_answer@,
            e@.blocklist.len() == lines@.len(),
            forall|i: int| 0 <= i < lines@.len() ==> e@.blocklist[i] == lines@[i]@.push(LABEL_SEP),
    {
        let mut bl: Vec<Vec<u8>> = Vec::new();
        let mut rest = lines;
        while rest.len() > 0
            invariant
                bl@.len() + rest@.len() == lines@.len(),
                forall|i: int| 0 <= i < bl@.len() ==> bl@[i]@ == lines@[i]@.push(LABEL_SEP),
                forall|i: int| 0 <= i < rest@.len() ==> rest@[i] == lines@[bl@.len() + i],
            decreases rest.len(),
        {
            let mut l = rest.remove(0);
            l.push(LABEL_SEP);
            bl.push(l);
        }
        Engine { blocklist: bl, cache: Cache::new(), ptr_answer, validity }
    }

    /// An engine whose synthetic PTR answer is freshly encoded: it holds
    /// bytes that decode as a message with exactly one question, the PTR
    /// question for the loopback reverse-lookup name, so the stored answer
    /// is the synthetic reply to that question and nothing else.
    pub fn setup(lines: Vec<Vec<u8>>, validity: u64) -> (e: Engine)
        ensures
            e.wf(),
            e@.cache == Map::<Seq<u8>, EntryV>::empty(),
            e@.validity == validity,
            e@.blocklist.len() == lines@.len(),
            forall|i: int| 0 <= i < lines@.len() ==> e@.blocklist[i] == lines@[i]@.push(LABEL_SEP),
            dns_parses(e@.ptr_answer),
            dns_query_count(e@.ptr_answer) == 1,
            dns_qtype_is_ptr(e@.ptr_answer),
            dns_qname(e@.ptr_answer) == ptr_qname(),
    {
        let ptr = encode_ptr_answer();
        Engine::new(lines, validity, ptr)
    }

    /// Whether a query for `name` is classified blocked, and so belongs to
    /// the trusted upstream.
    pub fn is_blocked(&self, name: &Vec<u8>) -> (r: bool)
        ensures
            r == spec_blocked(name@, self@.blocklist),
    {
        blocked(name, &self.blocklist)
    }

    /// One local query, already decoded: exactly `spec_local_step`.
    pub fn handle_local_query(
        &mut self,
        q: &DnsInfo,
        raw: &Vec<u8>,
        from: ClientAddr,
        now: u64,
    ) -> (acts: Vec<Action>)
        requires
            old(self).wf(),
        ensures
            final(self).wf(),
            final(self)@ == spec_local_step(old(self)@, q@, raw@, from, now).0,
            views_of(acts@) == spec_local_step(old(self)@, q@, raw@, from, now).1,
    {
        let mut acts: Vec<Action> = Vec::new();
        if q.query_count != 1 {
            proof {
                assert(views_of(acts@) =~= Seq::<ActionV>::empty());
            }
            return acts;
        }
        if q.is_ptr && bytes_eq(&q.name, &ptr_qname_bytes()) {
            acts.push(Action::SendLocal { to: from, data: clone_bytes(&self.ptr_answer) });
            proof {
                assert(views_of(acts@) =~= seq![
                    ActionV::SendLocal { to: from, data: old(self)@.ptr_answer },
                ]);
            }
            return acts;
        }
        let cached: Option<Vec<u8>> = match self.cache.get(&q.name) {
            Some(e) => {
                if e.response.len() > 0 && is_fresh(e.update_time, self.validity, now) {
                    Some(clone_bytes(&e.response))
                } else {
                    None
                }
            },
            None => None,
        };
        match cached {
            Some(data) => {
                proof {
                    assert(spec_cache_hit(old(self)@, q@.name, now));
                }
                acts.push(Action::SendLocal { to: from, data });
                proof {
                    assert(views_of(acts@) =~= seq![
                        ActionV::SendLocal {
                            to: from,
                            data: old(self)@.cache[q@.name].response,
                        },
                    ]);
                }
                acts
            },
            None => {
                proof {
                    assert(!spec_cache_hit(old(self)@, q@.name, now));
                }
                let up = if self.is_blocked(&q.name) {
                    Upstream::Trusted
                } else {
                    Upstream::Poisoned
                };
                acts.push(Action::Forward { upstream: up, data: clone_bytes(raw) });
                self.cache.add_pending(&q.name, from, now);
                proof {
                    assert(views_of(acts@) =~= seq![
                        ActionV::Forward {
                            upstream: spec_upstream_for(old(self)@, q@.name),
                            data: raw@,
                        },
                    ]);
                }
                acts
            },
        }
    }

    /// One upstream reply, already decoded: exactly `spec_upstream_step`.
    pub fn handle_upstream_reply(&mut self, r: &DnsInfo, raw: &Vec<u8>, now: u64) -> (acts: Vec<
        Action,
    >)
        requires
            old(self).wf(),
        ensures
            final(self).wf(),
            final(self)@ == spec_upstream_step(old(self)@, r@, raw@, now).0,
            views_of(acts@) == spec_upstream_step(old(self)@, r@, raw@, now).1,
    {
        let mut acts: Vec<Action> = Vec::new();
        if r.query_count == 0 {
            proof {
                assert(views_of(acts@) =~= Seq::<ActionV>::empty());
            }
            return acts;
        }
        match self.cache.store_reply(&r.name, raw, now) {
            None => {
                proof {
                    assert(views_of(acts@) =~= Seq::<ActionV>::empty());
                }
                acts
            },
            Some(pending) => {
                let ghost pend = pending@;
                let mut i: usize = 0;
                while i < pending.len()
                    invariant
                        i <= pending.len(),
                        pending@ == pend,
                        views_of(acts@) == spec_send_actions(pend.take(i as int), raw@),
                    decreases pending.len() - i,
                {
                    acts.push(Action::SendLocal { to: pending[i], data: clone_bytes(raw) });
                    proof {
                        lemma_send_actions_take(pend, raw@, i as int);
                        assert(views_of(acts@) =~= spec_send_actions(
                            pend.take(i as int),
                            raw@,
                        ).push(ActionV::SendLocal { to: pend[i as int], data: raw@ }));
                    }
                    i += 1;
                }
                proof {
                    assert(pend.take(pend.len() as int) =~= pend);
                }
                let ghost addrs = r.addrs.deep_view();
                let mut j: usize = 0;
                while j < r.addrs.len()
                    invariant
                        j <= r.addrs.len(),
                        addrs == r.addrs.deep_view(),
                        addrs.len() == r.addrs@.len(),
                        views_of(acts@) == spec_send_actions(pend, raw@) + spec_report_actions(
                            addrs.take(j as int),
                        ),
                    decreases r.addrs.len() - j,
                {
                    proof {
                        lemma_report_actions_take(addrs, j as int);
                        assert(addrs[j as int] == r.addrs@[j as int].deep_view());
                    }
                    match &r.addrs[j] {
                        Some(s) => {
                            acts.push(Action::ReportRoute { address: s.clone() });
                            proof {
                                assert(views_of(acts@) =~= (spec_send_actions(pend, raw@)
                                    + spec_report_actions(addrs.take(j as int))).push(
                                    ActionV::ReportRoute { address: r.addrs@[j as int]->0@ },
                                ));
                                assert(views_of(acts@) =~= spec_send_actions(pend, raw@)
                                    + spec_report_actions(addrs.take(j as int + 1)));
                            }
                        },
                        None => {
                            proof {
                                assert(spec_report_actions(addrs.take(j as int + 1))
                                    == spec_report_actions(addrs.take(j as int)));
                            }
                        },
                    }
                    j += 1;
                }
                proof {
                    assert(addrs.take(addrs.len() as int) =~= addrs);
                    assert(r@.addrs == addrs);
                }
                acts
            },
        }
    }

    /// One raw local datagram: exactly `spec_local_datagram_step`.
    pub fn handle_local_datagram(&mut self, raw: &Vec<u8>, from: ClientAddr, now: u64) -> (acts:
        Vec<Action>)
        requires
            old(self).wf(),
        ensures
            final(self).wf(),
            final(self)@ == spec_local_datagram_step(old(self)@, raw@, from, now).0,
            views_of(acts@) == spec_local_datagram_step(old(self)@, raw@, from, now).1,
    {
        match decode_dns(raw) {
            None => {
                let acts: Vec<Action> = Vec::new();
                proof {
                    assert(views_of(acts@) =~= Seq::<ActionV>::empty());
                }
                acts
            },
            Some(info) => self.handle_local_query(&info, raw, from, now),
        }
    }

    /// One raw upstream datagram: exactly `spec_upstream_datagram_step`.
    pub fn handle_upstream_datagram(&mut self, raw: &Vec<u8>, now: u64) -> (acts: Vec<Action>)
        requires
            old(self).wf(),
        ensures
            final(self).wf(),
            final(self)@ == spec_upstream_datagram_step(old(self)@, raw@, now).0,
            views_of(acts@) == spec_upstream_datagram_step(old(self)@, raw@, now).1,
    {
        match decode_dns(raw) {
            None => {
                let acts: Vec<Action> = Vec::new();
                proof {
                    assert(views_of(acts@) =~= Seq::<ActionV>::empty());
                }
                acts
            },
            Some(info) => self.handle_upstream_reply(&info, raw, now),
        }
    }
}

} // verus!
