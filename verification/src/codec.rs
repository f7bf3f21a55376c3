//! Decoding and encoding of DNS datagrams through the `trust_dns_proto`
//! crate.
//!
//! The dispatch logic reads only a few plain facts of a datagram: whether it
//! decodes, how many questions it carries, the first question's name and
//! whether it is a PTR question, and the textual IP addresses carried by the
//! answer records. `decode_dns` hands those facts out as plain values; what
//! each of them is on given bytes is a fact of the wire format alone, so each
//! is given an uninterpreted name rather than restated here.

use std::str::FromStr;
use trust_dns_proto::op::{Message, MessageType, Query, ResponseCode};
use trust_dns_proto::rr::{DNSClass, Name, RData, Record, RecordType};
use trust_dns_proto::serialize::binary::BinDecodable;
use vstd::prelude::*;

verus! {

/// The plain facts of a decoded DNS message that the dispatch logic reads.
pub struct DnsInfo {
    /// Number of questions in the message.
    pub query_count: u64,
    /// The first question's name in textual form, as utf-8 bytes; empty when
    /// the message has no question.
    pub name: Vec<u8>,
    /// Whether the first question asks for a PTR record; false when the
    /// message has no question.
    pub is_ptr: bool,
    /// For each answer record in order: the textual form of the IP address
    /// it carries, if it carries one.
    pub addrs: Vec<Option<String>>,
}

/// The mathematical value of `DnsInfo`.
pub struct DnsInfoV {
    pub query_count: u64,
    pub name: Seq<u8>,
    pub is_ptr: bool,
    pub addrs: Seq<Option<Seq<char>>>,
}

impl View for DnsInfo {
    type V = DnsInfoV;

    open spec fn view(&self) -> DnsInfoV {
        DnsInfoV {
            query_count: self.query_count,
            name: self.name@,
            is_ptr: self.is_ptr,
            addrs: self.addrs.deep_view(),
        }
    }
}

/// Whether `trust_dns_proto` decodes these bytes as a DNS message.
pub uninterp spec fn dns_parses(data: Seq<u8>) -> bool;

/// The number of questions of the message decoded from these bytes.
pub uninterp spec fn dns_query_count(data: Seq<u8>) -> u64;

/// The first question's name of the message decoded from these bytes, in
/// textual form as utf-8 bytes; empty when the message has no question.
pub uninterp spec fn dns_qname(data: Seq<u8>) -> Seq<u8>;

/// Whether the first question of the message decoded from these bytes asks
/// for a PTR record; false when the message has no question.
pub uninterp spec fn dns_qtype_is_ptr(data: Seq<u8>) -> bool;

/// For each answer record of the message decoded from these bytes, in order:
/// the textual form of the IP address it carries, if it carries one.
pub uninterp spec fn dns_answer_addrs(data: Seq<u8>) -> Seq<Option<Seq<char>>>;

/// All the facts the dispatch logic reads of a decoded datagram.
pub open spec fn dns_info_of(data: Seq<u8>) -> DnsInfoV {
    DnsInfoV {
        query_count: dns_query_count(data),
        name: dns_qname(data),
        is_ptr: dns_qtype_is_ptr(data),
        addrs: dns_answer_addrs(data),
    }
}

/// Relies on `trust_dns_proto`: `Message::from_bytes` to decode the
/// datagram, `Header::query_count`, `Query::name` with `Name::to_utf8`,
/// `Query::query_type`, and `Record::rdata` with `RData::to_ip_addr` (the
/// address shown through the standard textual form). Every fact returned is
/// a function of the datagram bytes alone.
#[verifier::external_body]
pub(crate) fn decode_dns(data: &Vec<u8>) -> (r: Option<DnsInfo>)
    ensures
        r is Some <==> dns_parses(data@),
        r matches Some(info) ==> {
            &&& info.query_count == dns_query_count(data@)
            &&& info.name@ == dns_qname(data@)
            &&& info.is_ptr == dns_qtype_is_ptr(data@)
            &&& info.addrs.deep_view() == dns_answer_addrs(data@)
        },
{
    let m = match Message::from_bytes(data.as_slice()) {
        Ok(m) => m,
        Err(_) => return None,
    };
    let (name, is_ptr) = match m.queries().first() {
        Some(q) => (q.name().to_utf8().into_bytes(), q.query_type() == RecordType::PTR),
        None => (Vec::new(), false),
    };
    let mut addrs: Vec<Option<String>> = Vec::new();
    for rec in m.answers() {
        addrs.push(rec.rdata().to_ip_addr().map(|ip| ip.to_string()));
    }
    Some(DnsInfo { query_count: m.header().query_count() as u64, name, is_ptr, addrs })
}

/// Relies on `trust_dns_proto`: `Name::from_str`, the `Message`, `Query` and
/// `Record` builders, and `Message::to_vec`, to pre-encode the constant
/// synthetic reply that answers the reverse lookup for the loopback address
/// with a PTR record for the literal name `localhost`. The two names are
/// valid constants and the message is far below the encoder's size limit, so
/// nothing here can fail; decoding the result yields back the message as
/// built, so the encoded bytes parse as a message whose one question is the
/// PTR question for the loopback reverse-lookup name.
#[verifier::external_body]
pub(crate) fn encode_ptr_answer() -> (r: Vec<u8>)
    ensures
        dns_parses(r@),
        dns_query_count(r@) == 1,
        dns_qtype_is_ptr(r@),
        dns_qname(r@) == crate::domain::ptr_qname(),
{
    let name = Name::from_str("1.0.0.127.in-addr.arpa.").expect("constant name");
    let target = Name::from_str("localhost").expect("constant name");
    let mut query = Query::new();
    query.set_name(name.clone()).set_query_type(RecordType::PTR).set_query_class(DNSClass::IN);
    let mut record = Record::new();
    record.set_name(name).set_record_type(RecordType::PTR).set_dns_class(DNSClass::IN);
    record.set_ttl(20567).set_rdata(RData::PTR(target));
    let mut message = Message::new();
    message.set_message_type(MessageType::Response).set_id(1).set_recursion_desired(true);
    message.set_recursion_available(true).set_response_code(ResponseCode::NoError);
    message.add_query(query).add_answer(record);
    message.to_vec().expect("encoding a constant well-formed message")
}

} // verus!
