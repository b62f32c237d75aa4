//! A one-shot DNS resolver: the query is built and encoded here, the
//! datagram exchange is left to the caller, and the answer section of the
//! reply is turned into the list of IPv4 addresses it carries.
use vstd::prelude::*;
use vstd::string::StringExecFns;

use hickory_proto::op::{Message, MessageType, OpCode, Query};
use hickory_proto::rr::{Name, RData, RecordType};
use hickory_proto::serialize::binary::{BinDecodable, BinEncodable, BinEncoder, DecodeError};
use hickory_proto::ProtoError;
use std::str::FromStr;

verus! {

/// Largest DNS message sent or accepted: the classic UDP datagram bound.
pub const MAX_MESSAGE_LEN: usize = 512;

/// Length of the fixed DNS message header.
pub const HEADER_LEN: usize = 12;

/// Longest domain name on the wire, in bytes.
pub const MAX_NAME_LEN: usize = 255;

/// Bytes of a question after its name: the type and the class.
pub const QUESTION_TAIL_LEN: usize = 4;

/// Operation code of a standard query.
pub const OPCODE_QUERY: u8 = 0;

/// Record type of an address record.
pub const RECORD_TYPE_A: u16 = 1;

/// The Internet class.
pub const CLASS_IN: u16 = 1;

/// The UDP port a DNS server listens on.
pub const DNS_PORT: u16 = 53;

/// hickory's parsed domain name, carried from parsing to encoding unopened.
#[verifier::external_type_specification]
#[verifier::external_body]
pub struct ExName(Name);

/// hickory's error for a name that does not parse or a message that does not
/// encode, passed on to the caller.
#[verifier::external_type_specification]
#[verifier::external_body]
pub struct ExProtoError(ProtoError);

/// hickory's error for bytes that are not a DNS message, passed on to the caller.
#[verifier::external_type_specification]
#[verifier::external_body]
pub struct ExDecodeError(DecodeError);

/// std's I/O error, which the caller performing the datagram exchange reports
/// through `DnsError`.
#[verifier::external_type_specification]
#[verifier::external_body]
pub struct ExIoError(std::io::Error);

/// Why a name could not be resolved.
#[derive(Debug)]
pub enum DnsError {
    ParseDomainName(ProtoError),
    /// The server address given, as text, is not an IPv4 address.
    ParseDnsServerAddress(String),
    /// The query could not be encoded; every name that parses encodes.
    Encoding(ProtoError),
    Decoding(DecodeError),
    Network(std::io::Error),
    Sending(std::io::Error),
    Receiving(std::io::Error),
    /// Reserved: no step of the resolver raises it.
    NoSuchDomain,
}

/// The fixed text that opens the message of an error.
pub open spec fn message_prefix(e: &DnsError) -> Seq<char> {
    match e {
        DnsError::ParseDomainName(_) => "Invalid domain name: "@,
        DnsError::ParseDnsServerAddress(_) => "Invalid DNS server address: "@,
        DnsError::Encoding(_) => "Failed to encode DNS request: "@,
        DnsError::Decoding(_) => "Failed to decode DNS response: "@,
        DnsError::Network(_) => "Network error: "@,
        DnsError::Sending(_) => "Failed to send DNS query: "@,
        DnsError::Receiving(_) => "Failed to receive DNS response: "@,
        DnsError::NoSuchDomain => "Domain does not exist"@,
    }
}

/// Relies on the `Display` impl of hickory's `ProtoError` for its text.
#[verifier::external_body]
fn proto_error_text(e: &ProtoError) -> String {
    e.to_string()
}

/// Relies on the `Display` impl of hickory's `DecodeError` for its text.
#[verifier::external_body]
fn decode_error_text(e: &DecodeError) -> String {
    e.to_string()
}

/// Relies on the `Display` impl of `std::io::Error` for its text.
#[verifier::external_body]
fn io_error_text(e: &std::io::Error) -> String {
    e.to_string()
}

impl DnsError {
    /// A message for a person: a fixed text per kind of error, followed by
    /// the text of the error underneath where there is one.
    pub fn message(&self) -> (r: String)
        ensures
            r@.len() >= message_prefix(self).len(),
            r@.subrange(0, message_prefix(self).len() as int) == message_prefix(self),
            self matches DnsError::ParseDnsServerAddress(a) ==> r@ == message_prefix(self) + a@,
            self is NoSuchDomain ==> r@ == message_prefix(self),
    {
        let (prefix, detail) = match self {
            DnsError::ParseDomainName(e) => ("Invalid domain name: ", proto_error_text(e)),
            DnsError::ParseDnsServerAddress(a) => ("Invalid DNS server address: ", a.clone()),
            DnsError::Encoding(e) => ("Failed to encode DNS request: ", proto_error_text(e)),
            DnsError::Decoding(e) => ("Failed to decode DNS response: ", decode_error_text(e)),
            DnsError::Network(e) => ("Network error: ", io_error_text(e)),
            DnsError::Sending(e) => ("Failed to send DNS query: ", io_error_text(e)),
            DnsError::Receiving(e) => ("Failed to receive DNS response: ", io_error_text(e)),
            DnsError::NoSuchDomain => ("Domain does not exist", String::new()),
        };
        assert(prefix@ == message_prefix(self));
        let mut r = <String as StringExecFns>::from_str(prefix);
        r.append(detail.as_str());
        assert(r@.subrange(0, prefix@.len() as int) =~= prefix@);
        r
    }
}

/// Whether the text is accepted as a domain name.
pub uninterp spec fn is_domain_name(s: Seq<char>) -> bool;

/// The answer section of a DNS message on the wire, one entry per record:
/// the address of an address record, nothing for any other record; no value
/// where the bytes are not a well-formed message.
pub uninterp spec fn answer_section(b: Seq<u8>) -> Option<Seq<Option<[u8; 4]>>>;

/// The first twelve bytes of `b` are the header of a query with transaction
/// identifier `id`, operation code `op_code`, the recursion-desired flag as
/// given and every other flag clear, response code 0, one question and no
/// records in the other three sections.
pub open spec fn is_query_header(b: Seq<u8>, id: u16, op_code: u8, recursion_desired: bool) -> bool {
    &&& b.len() >= HEADER_LEN
    &&& b[0] == (id / 256) as u8
    &&& b[1] == (id % 256) as u8
    &&& b[2] == op_code * 8 + if recursion_desired { 1u8 } else { 0u8 }
    &&& b[3] == 0x00u8
    &&& b[4] == 0u8 && b[5] == 1u8
    &&& b[6] == 0u8 && b[7] == 0u8
    &&& b[8] == 0u8 && b[9] == 0u8
    &&& b[10] == 0u8 && b[11] == 0u8
}

/// The message ends with the type and the class of its one question, each
/// two bytes, most significant first, after a name of at least one byte.
pub open spec fn question_ends_with(b: Seq<u8>, record_type: u16, class: u16) -> bool {
    &&& b.len() >= HEADER_LEN + 1 + QUESTION_TAIL_LEN
    &&& b[b.len() - 4] == (record_type / 256) as u8
    &&& b[b.len() - 3] == (record_type % 256) as u8
    &&& b[b.len() - 2] == (class / 256) as u8
    &&& b[b.len() - 1] == (class % 256) as u8
}

/// What the resolver sends: a standard query with transaction identifier
/// `id` and recursion desired, asking for the address records (type A,
/// class IN) of one name, within the datagram bound.
pub open spec fn is_standard_query(b: Seq<u8>, id: u16) -> bool {
    &&& is_query_header(b, id, OPCODE_QUERY, true)
    &&& question_ends_with(b, RECORD_TYPE_A, CLASS_IN)
    &&& b.len() <= MAX_MESSAGE_LEN
}

/// The transaction identifier that a message on the wire carries.
pub open spec fn transaction_id(b: Seq<u8>) -> int {
    b[0] as int * 256 + b[1] as int
}

/// The number of questions that a message on the wire declares.
pub open spec fn question_count(b: Seq<u8>) -> int {
    b[4] as int * 256 + b[5] as int
}

/// The addresses of the address records, in the order of the records.
pub open spec fn address_records(records: Seq<Option<[u8; 4]>>) -> Seq<[u8; 4]>
    decreases records.len(),
{
    if records.len() == 0 {
        Seq::empty()
    } else {
        let rest = address_records(records.drop_last());
        match records.last() {
            Some(a) => rest.push(a),
            None => rest,
        }
    }
}

/// A reply whose answer section holds only address records yields every one
/// of their addresses, as many as there are records, in the same order.
pub proof fn lemma_all_address_records(records: Seq<Option<[u8; 4]>>)
    requires
        forall|i: int| 0 <= i < records.len() ==> #[trigger] records[i] is Some,
    ensures
        address_records(records).len() == records.len(),
        forall|i: int|
            0 <= i < records.len() ==> records[i] == Some(#[trigger] address_records(records)[i]),
    decreases records.len(),
{
    if records.len() > 0 {
        let front = records.drop_last();
        assert forall|i: int| 0 <= i < front.len() implies #[trigger] front[i] is Some by {
            assert(front[i] == records[i]);
        }
        lemma_all_address_records(front);
        assert(records.last() is Some);
        assert forall|i: int| 0 <= i < records.len() implies records[i] == Some(
            #[trigger] address_records(records)[i],
        ) by {
            if i < front.len() {
                assert(front[i] == records[i]);
            }
        }
    }
}

/// Relies on `Name::from_str`: it accepts exactly the texts that are domain
/// names, a property of the text alone.
#[verifier::external_body]
fn parse_name(domain: &str) -> (r: Result<Name, ProtoError>)
    ensures
        r is Ok <==> is_domain_name(domain@),
{
    Name::from_str(domain)
}

/// Relies on `Message::new`, `Query::query` and `Message::emit` with a
/// `BinEncoder` bounded to `max_len` bytes. The message has all header flags
/// clear but for the one given, response code 0, no EDNS record and one
/// question of class IN; it is written header first, then the question's
/// name, type and class. A `Name` holds at most 255 octets on the wire, so a
/// bound that leaves room for that never fails the encoding.
#[verifier::external_body]
fn emit_query(
    id: u16,
    op_code: u8,
    recursion_desired: bool,
    record_type: u16,
    max_len: u16,
    name: Name,
) -> (r: Result<Vec<u8>, ProtoError>)
    requires
        op_code < 16,
        max_len >= HEADER_LEN + MAX_NAME_LEN + QUESTION_TAIL_LEN,
    ensures
        r is Ok,
        r matches Ok(b) ==> {
            &&& is_query_header(b@, id, op_code, recursion_desired)
            &&& question_ends_with(b@, record_type, CLASS_IN)
            &&& b@.len() <= max_len
        },
{
    let mut message = Message::new(id, MessageType::Query, OpCode::from_u8(op_code));
    message.metadata.recursion_desired = recursion_desired;
    message.add_query(Query::query(name, RecordType::from(record_type)));
    let mut buf = Vec::with_capacity(max_len as usize);
    {
        let mut encoder = BinEncoder::new(&mut buf);
        encoder.set_max_size(max_len);
        message.emit(&mut encoder)?;
    }
    Ok(buf)
}

/// Relies on `Message::from_bytes`: decodes the bytes, and each answer
/// record is handed out as its IPv4 address when its data is an address
/// record, as nothing otherwise.
#[verifier::external_body]
fn decode_answers(bytes: &[u8]) -> (r: Result<Vec<Option<[u8; 4]>>, DecodeError>)
    ensures
        match r {
            Ok(v) => answer_section(bytes@) == Some(v@),
            Err(_) => answer_section(bytes@) is None,
        },
{
    let message = Message::from_bytes(bytes)?;
    let mut records = Vec::new();
    for answer in message.answers.iter() {
        records.push(
            match &answer.data {
                RData::A(a) => Some(a.0.octets()),
                _ => None,
            },
        );
    }
    Ok(records)
}

/// Encode the query for the address records of `domain`, with transaction
/// identifier `id`: a standard query, recursion desired, one question of
/// type A and class IN. Every domain name encodes.
pub fn build_query(domain: &str, id: u16) -> (r: Result<Vec<u8>, DnsError>)
    ensures
        r is Ok <==> is_domain_name(domain@),
        r is Err ==> r matches Err(DnsError::ParseDomainName(_)),
        r matches Ok(b) ==> is_standard_query(b@, id),
{
    let name = match parse_name(domain) {
        Ok(n) => n,
        Err(e) => return Err(DnsError::ParseDomainName(e)),
    };
    match emit_query(id, OPCODE_QUERY, true, RECORD_TYPE_A, MAX_MESSAGE_LEN as u16, name) {
        Ok(b) => Ok(b),
        Err(e) => Err(DnsError::Encoding(e)),
    }
}

/// Encode a query for `domain` under a fresh random transaction identifier.
/// Returns the identifier with the bytes to send.
pub fn new_query(domain: &str) -> (r: Result<(u16, Vec<u8>), DnsError>)
    ensures
        r is Ok <==> is_domain_name(domain@),
        r is Err ==> r matches Err(DnsError::ParseDomainName(_)),
        r matches Ok((id, b)) ==> is_standard_query(b@, id) && transaction_id(b@) == id
            && question_count(b@) == 1,
{
    let id: u16 = rand::random::<u16>();
    let r = build_query(domain, id);
    match r {
        Ok(b) => Ok((id, b)),
        Err(e) => Err(e),
    }
}

/// The addresses of the address records among `records`, in their order.
pub fn addresses_of(records: &Vec<Option<[u8; 4]>>) -> (r: Vec<[u8; 4]>)
    ensures
        r@ == address_records(records@),
{
    let mut out: Vec<[u8; 4]> = Vec::new();
    let mut i: usize = 0;
    while i < records.len()
        invariant
            i <= records@.len(),
            out@ == address_records(records@.subrange(0, i as int)),
        decreases records@.len() - i,
    {
        proof {
            assert(records@.subrange(0, i as int + 1).drop_last() =~= records@.subrange(0, i as int));
        }
        match records[i] {
            Some(a) => out.push(a),
            None => {},
        }
        i = i + 1;
    }
    assert(records@.subrange(0, records@.len() as int) =~= records@);
    out
}

/// Decode a reply and list the IPv4 addresses of its answer section, in
/// answer order; records of other types are skipped.
pub fn decode_response(bytes: &[u8]) -> (r: Result<Vec<[u8; 4]>, DnsError>)
    ensures
        match answer_section(bytes@) {
            None => r matches Err(DnsError::Decoding(_)),
            Some(records) => r matches Ok(a) && a@ == address_records(records),
        },
{
    match decode_answers(bytes) {
        Ok(records) => Ok(addresses_of(&records)),
        Err(e) => Err(DnsError::Decoding(e)),
    }
}

} // verus!
