//! End-to-end tests of the dispatch engine, driving real DNS datagrams
//! through the public API.

use dns_proxy::cache::ClientAddr;
use dns_proxy::engine::{Action, Engine, Upstream};
use std::str::FromStr;
use trust_dns_proto::op::{Message, Query};
use trust_dns_proto::rr::{DNSClass, Name, RecordType};

fn client(n: u16) -> ClientAddr {
    ClientAddr { ip: 0x7f000001, port: n }
}

/// A query datagram with one question for `name` of the given type.
fn query_bytes(name: &str, rtype: RecordType) -> Vec<u8> {
    let mut m = Message::new();
    m.set_id(7);
    let mut q = Query::new();
    q.set_name(Name::from_str(name).unwrap());
    q.set_query_type(rtype);
    q.set_query_class(DNSClass::IN);
    m.add_query(q);
    m.to_vec().unwrap()
}

/// A query datagram carrying two questions.
fn two_question_bytes() -> Vec<u8> {
    let mut m = Message::new();
    m.set_id(7);
    for name in ["one.test.", "two.test."] {
        let mut q = Query::new();
        q.set_name(Name::from_str(name).unwrap());
        q.set_query_type(RecordType::A);
        q.set_query_class(DNSClass::IN);
        m.add_query(q);
    }
    m.to_vec().unwrap()
}

/// A reply datagram, hand-assembled on the wire format: one question for the
/// given labels and one A answer record carrying `ip`.
fn reply_bytes_a(labels: &[&str], ip: [u8; 4]) -> Vec<u8> {
    let mut v: Vec<u8> = vec![0x12, 0x34, 0x81, 0x80, 0, 1, 0, 1, 0, 0, 0, 0];
    for l in labels {
        v.push(l.len() as u8);
        v.extend_from_slice(l.as_bytes());
    }
    v.push(0);
    v.extend_from_slice(&[0, 1, 0, 1]);
    v.extend_from_slice(&[0xC0, 0x0C, 0, 1, 0, 1, 0, 0, 0, 60, 0, 4]);
    v.extend_from_slice(&ip);
    v
}

/// A reply datagram with one question and no answer records.
fn reply_bytes_empty(labels: &[&str]) -> Vec<u8> {
    let mut v: Vec<u8> = vec![0x12, 0x34, 0x81, 0x80, 0, 1, 0, 0, 0, 0, 0, 0];
    for l in labels {
        v.push(l.len() as u8);
        v.extend_from_slice(l.as_bytes());
    }
    v.push(0);
    v.extend_from_slice(&[0, 1, 0, 1]);
    v
}

fn engine_with(blocklist: &[&str]) -> Engine {
    let lines: Vec<Vec<u8>> = blocklist.iter().map(|s| s.as_bytes().to_vec()).collect();
    Engine::new(lines, 60, vec![9, 9, 9])
}

#[test]
fn blocklist_label_boundary() {
    let e = engine_with(&["example.com"]);
    assert!(e.is_blocked(&b"example.com.".to_vec()));
    assert!(e.is_blocked(&b"sub.example.com.".to_vec()));
    assert!(!e.is_blocked(&b"notexample.com.".to_vec()));
    assert!(!e.is_blocked(&b"example.com.evil.".to_vec()));
    assert!(!e.is_blocked(&b"example.co.".to_vec()));
}

#[test]
fn blocked_query_goes_to_trusted_upstream() {
    let mut e = engine_with(&["blocked.test"]);
    let q = query_bytes("blocked.test.", RecordType::A);
    let acts = e.handle_local_datagram(&q, client(1), 0);
    assert_eq!(acts.len(), 1);
    match &acts[0] {
        Action::Forward { upstream, data } => {
            assert_eq!(*upstream, Upstream::Trusted);
            assert_eq!(*data, q);
        }
        _ => panic!("expected a forward"),
    }
}

#[test]
fn other_query_goes_to_poisoned_upstream() {
    let mut e = engine_with(&["blocked.test"]);
    let q = query_bytes("other.test.", RecordType::A);
    let acts = e.handle_local_datagram(&q, client(1), 0);
    assert_eq!(acts.len(), 1);
    match &acts[0] {
        Action::Forward { upstream, data } => {
            assert_eq!(*upstream, Upstream::Poisoned);
            assert_eq!(*data, q);
        }
        _ => panic!("expected a forward"),
    }
}

#[test]
fn ptr_query_answered_locally() {
    let mut e = engine_with(&["blocked.test"]);
    let q = query_bytes("1.0.0.127.in-addr.arpa.", RecordType::PTR);
    let acts = e.handle_local_datagram(&q, client(3), 0);
    assert_eq!(acts.len(), 1);
    match &acts[0] {
        Action::SendLocal { to, data } => {
            assert_eq!(*to, client(3));
            assert_eq!(*data, vec![9, 9, 9]);
        }
        _ => panic!("expected a local reply"),
    }
    // The shortcut never touches the cache.
    assert!(!e.cache.contains(&b"1.0.0.127.in-addr.arpa.".to_vec()));
}

#[test]
fn forward_ptr_query_for_other_name() {
    // A PTR question for anything but the loopback address is a normal query.
    let mut e = engine_with(&[]);
    let q = query_bytes("2.0.0.127.in-addr.arpa.", RecordType::PTR);
    let acts = e.handle_local_datagram(&q, client(3), 0);
    assert_eq!(acts.len(), 1);
    assert!(matches!(&acts[0], Action::Forward { .. }));
}

#[test]
fn cache_hit_replays_payload() {
    let mut e = engine_with(&[]);
    let q = query_bytes("other.test.", RecordType::A);
    let r = reply_bytes_a(&["other", "test"], [93, 184, 216, 34]);
    let acts = e.handle_local_datagram(&q, client(1), 0);
    assert!(matches!(&acts[0], Action::Forward { .. }));
    e.handle_upstream_datagram(&r, 1);
    // A second query inside the validity window is served from the cache.
    let acts = e.handle_local_datagram(&q, client(2), 60);
    assert_eq!(acts.len(), 1);
    match &acts[0] {
        Action::SendLocal { to, data } => {
            assert_eq!(*to, client(2));
            assert_eq!(*data, r);
        }
        _ => panic!("expected a cached reply"),
    }
}

#[test]
fn cache_expiry_forwards_again() {
    let mut e = engine_with(&[]);
    let q = query_bytes("other.test.", RecordType::A);
    let r = reply_bytes_a(&["other", "test"], [93, 184, 216, 34]);
    e.handle_local_datagram(&q, client(1), 0);
    e.handle_upstream_datagram(&r, 1);
    // At exactly the validity bound the answer no longer serves.
    let acts = e.handle_local_datagram(&q, client(2), 61);
    assert_eq!(acts.len(), 1);
    assert!(matches!(&acts[0], Action::Forward { .. }));
}

#[test]
fn coalesced_requesters_both_answered() {
    let mut e = engine_with(&[]);
    let q = query_bytes("other.test.", RecordType::A);
    let r = reply_bytes_a(&["other", "test"], [93, 184, 216, 34]);
    let acts_a = e.handle_local_datagram(&q, client(1), 0);
    let acts_b = e.handle_local_datagram(&q, client(2), 0);
    assert!(matches!(&acts_a[0], Action::Forward { .. }));
    assert!(matches!(&acts_b[0], Action::Forward { .. }));
    let acts = e.handle_upstream_datagram(&r, 1);
    assert_eq!(acts.len(), 3);
    match &acts[0] {
        Action::SendLocal { to, data } => {
            assert_eq!(*to, client(1));
            assert_eq!(*data, r);
        }
        _ => panic!("expected a reply to the first requester"),
    }
    match &acts[1] {
        Action::SendLocal { to, data } => {
            assert_eq!(*to, client(2));
            assert_eq!(*data, r);
        }
        _ => panic!("expected a reply to the second requester"),
    }
    assert!(matches!(&acts[2], Action::ReportRoute { .. }));
    // Nobody stays pending once the answer is delivered.
    let entry = e.cache.get(&b"other.test.".to_vec()).unwrap();
    assert_eq!(entry.pending.len(), 0);
    assert_eq!(entry.response, r);
}

#[test]
fn unmatched_reply_silently_dropped() {
    let mut e = engine_with(&[]);
    let r = reply_bytes_a(&["never", "queried"], [10, 0, 0, 1]);
    let acts = e.handle_upstream_datagram(&r, 5);
    assert_eq!(acts.len(), 0);
    assert!(!e.cache.contains(&b"never.queried.".to_vec()));
}

#[test]
fn resolved_address_reported_once() {
    let mut e = engine_with(&[]);
    let q = query_bytes("other.test.", RecordType::A);
    let r = reply_bytes_a(&["other", "test"], [93, 184, 216, 34]);
    e.handle_local_datagram(&q, client(1), 0);
    let acts = e.handle_upstream_datagram(&r, 1);
    assert_eq!(acts.len(), 2);
    assert!(matches!(&acts[0], Action::SendLocal { .. }));
    match &acts[1] {
        Action::ReportRoute { address } => assert_eq!(address, "93.184.216.34"),
        _ => panic!("expected one route report"),
    }
}

#[test]
fn reply_without_address_reports_nothing() {
    let mut e = engine_with(&[]);
    let q = query_bytes("other.test.", RecordType::A);
    let r = reply_bytes_empty(&["other", "test"]);
    e.handle_local_datagram(&q, client(1), 0);
    let acts = e.handle_upstream_datagram(&r, 1);
    assert_eq!(acts.len(), 1);
    assert!(matches!(&acts[0], Action::SendLocal { .. }));
}

#[test]
fn multi_question_query_rejected() {
    let mut e = engine_with(&[]);
    let q = two_question_bytes();
    let acts = e.handle_local_datagram(&q, client(1), 0);
    assert_eq!(acts.len(), 0);
    assert!(!e.cache.contains(&b"one.test.".to_vec()));
    assert!(!e.cache.contains(&b"two.test.".to_vec()));
}

#[test]
fn undecodable_datagram_dropped() {
    let mut e = engine_with(&[]);
    let acts = e.handle_local_datagram(&vec![0xff, 0x00, 0x01], client(1), 0);
    assert_eq!(acts.len(), 0);
    let acts = e.handle_upstream_datagram(&vec![0xff], 0);
    assert_eq!(acts.len(), 0);
}

#[test]
fn fresh_answer_overwrites_stale_one() {
    let mut e = engine_with(&[]);
    let q = query_bytes("other.test.", RecordType::A);
    let r1 = reply_bytes_a(&["other", "test"], [93, 184, 216, 34]);
    let r2 = reply_bytes_a(&["other", "test"], [93, 184, 216, 35]);
    e.handle_local_datagram(&q, client(1), 0);
    e.handle_upstream_datagram(&r1, 0);
    e.handle_local_datagram(&q, client(2), 100);
    e.handle_upstream_datagram(&r2, 100);
    let acts = e.handle_local_datagram(&q, client(3), 101);
    match &acts[0] {
        Action::SendLocal { data, .. } => assert_eq!(*data, r2),
        _ => panic!("expected the fresh cached reply"),
    }
}

#[test]
fn pending_requester_recorded_until_reply() {
    let mut e = engine_with(&[]);
    let q = query_bytes("other.test.", RecordType::A);
    e.handle_local_datagram(&q, client(1), 0);
    let entry = e.cache.get(&b"other.test.".to_vec()).unwrap();
    assert_eq!(entry.pending.len(), 1);
    assert_eq!(entry.pending[0], client(1));
    assert_eq!(entry.response.len(), 0);
}

#[test]
fn setup_encodes_decodable_ptr_answer() {
    // The synthetic answer that setup pre-encodes must itself decode as a
    // one-question PTR message for the loopback reverse-lookup name: fed back
    // in as a query, it takes the shortcut.
    let e = Engine::setup(vec![b"blocked.test".to_vec()], 60);
    assert!(e.is_blocked(&b"blocked.test.".to_vec()));
    let mut probe = Engine::new(vec![], 60, vec![7, 7]);
    let acts = probe.handle_local_datagram(&e.ptr_answer, client(1), 0);
    assert_eq!(acts.len(), 1);
    match &acts[0] {
        Action::SendLocal { data, .. } => assert_eq!(*data, vec![7, 7]),
        _ => panic!("expected the synthetic reply shortcut"),
    }
}
