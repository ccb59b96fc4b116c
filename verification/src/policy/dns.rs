//! DNS messages: the queries a guest may send and the answers that bind addresses to names.

use vstd::prelude::*;

use crate::bytes::{read_be128, read_be16, read_be32};
use crate::net::{IpAddr, Ipv4Addr, Ipv6Addr};
use crate::policy::domain::{to_lower, valid_label, DOT, MAX_DOMAIN_LEN};

verus! {

pub const MAX_DNS_MESSAGE: usize = 4096;

pub const MAX_DNS_NAME_POINTERS: usize = 32;

pub const MAX_DNS_RECORDS: usize = 256;

pub const TYPE_A: u16 = 1;

pub const TYPE_CNAME: u16 = 5;

pub const TYPE_AAAA: u16 = 28;

pub const TYPE_OPT: u16 = 41;

pub const CLASS_IN: u16 = 1;

/// A dotted name with one more label at its end.
pub open spec fn with_label(name: Seq<u8>, label: Seq<u8>) -> Seq<u8> {
    if name.len() == 0 {
        label
    } else {
        name.push(DOT) + label
    }
}

/// The rest of a name encoded at `pos`, behind the labels already in `prefix` and with `hops`
/// compression pointers left to follow: the whole name in dotted lower-case form, or `None`.
pub open spec fn name_from(message: Seq<u8>, pos: int, hops: nat, prefix: Seq<u8>) -> Option<
    Seq<u8>,
>
    decreases hops, message.len() - pos,
{
    if !(0 <= pos < message.len()) {
        None
    } else {
        let length = message[pos] as int;
        if length >= 192 {
            if pos + 1 >= message.len() || hops == 0 {
                None
            } else {
                name_from(
                    message,
                    (length - 192) * 256 + message[pos + 1],
                    (hops - 1) as nat,
                    prefix,
                )
            }
        } else if length >= 64 {
            None
        } else if length == 0 {
            Some(prefix)
        } else {
            let end = pos + 1 + length;
            let label = message.subrange(pos + 1, end);
            let name = with_label(prefix, crate::policy::domain::lowercase(label));
            if end > message.len() || !crate::policy::domain::is_label(label) || name.len()
                > MAX_DOMAIN_LEN {
                None
            } else {
                name_from(message, end, hops, name)
            }
        }
    }
}

/// The name encoded at a position.
pub open spec fn name_at(message: Seq<u8>, pos: int) -> Option<Seq<u8>> {
    name_from(message, pos, MAX_DNS_NAME_POINTERS as nat, Seq::<u8>::empty())
}

/// Where the encoding of a name that begins at `pos` ends in place: behind its first compression
/// pointer or behind its terminating zero.
pub open spec fn name_end(message: Seq<u8>, pos: int) -> int
    decreases message.len() - pos,
{
    if !(0 <= pos < message.len()) {
        pos
    } else if message[pos] >= 192 {
        pos + 2
    } else if message[pos] == 0 {
        pos + 1
    } else if pos + 1 + message[pos] <= message.len() {
        name_end(message, pos + 1 + message[pos])
    } else {
        message.len() as int
    }
}

/// A name and the position behind it.
pub struct DnsName {
    pub name: Vec<u8>,
    pub end: usize,
}

/// Reads the name at a position of a message.
pub fn read_dns_name(message: &[u8], cursor: usize) -> (read: Option<DnsName>)
    ensures
        match read {
            Some(found) => name_at(message@, cursor as int) == Some(found.name@) && found.end
                == name_end(message@, cursor as int) && cursor < found.end <= message@.len(),
            None => name_at(message@, cursor as int) is None,
        },
{
    let mut position: usize = cursor;
    let mut consumed: Option<usize> = None;
    let mut hops: usize = MAX_DNS_NAME_POINTERS;
    let mut name: Vec<u8> = Vec::new();
    assert(name@ =~= Seq::<u8>::empty());
    loop
        invariant
            name@.len() <= MAX_DOMAIN_LEN,
            name_at(message@, cursor as int) == name_from(
                message@,
                position as int,
                hops as nat,
                name@,
            ),
            match consumed {
                Some(end) => name_end(message@, cursor as int) == end && cursor < end
                    <= message@.len(),
                None => name_end(message@, cursor as int) == name_end(message@, position as int)
                    && cursor <= position,
            },
        decreases hops, message@.len() - position,
    {
        if position >= message.len() {
            return None;
        }
        let length: u8 = message[position];
        if length >= 192 {
            if message.len() - position < 2 || hops == 0 {
                return None;
            }
            if consumed.is_none() {
                consumed = Some(position + 2);
            }
            position = (length - 192) as usize * 256 + message[position + 1] as usize;
            hops -= 1;
        } else if length >= 64 {
            return None;
        } else if length == 0 {
            let end: usize = match consumed {
                Some(end) => end,
                None => position + 1,
            };
            return Some(DnsName { name, end });
        } else {
            let start: usize = position + 1;
            if length as usize > message.len() - start {
                return None;
            }
            let end: usize = start + length as usize;
            if !valid_label(message, start, end) {
                return None;
            }
            let ghost label = message@.subrange(start as int, end as int);
            let ghost target = with_label(name@, crate::policy::domain::lowercase(label));
            let separator: usize = if name.len() > 0 {
                1
            } else {
                0
            };
            if name.len() + separator + length as usize > MAX_DOMAIN_LEN {
                return None;
            }
            if name.len() > 0 {
                name.push(DOT);
            }
            let ghost before = name@;
            let mut i: usize = start;
            while i < end
                invariant
                    start <= i <= end <= message@.len(),
                    label == message@.subrange(start as int, end as int),
                    name@ == before + crate::policy::domain::lowercase(label).subrange(
                        0,
                        i - start,
                    ),
                decreases end - i,
            {
                name.push(to_lower(message[i]));
                i += 1;
                assert(name@ =~= before + crate::policy::domain::lowercase(label).subrange(
                    0,
                    i - start,
                ));
            }
            assert(name@ =~= target);
            position = end;
        }
    }
}

pub struct DnsHeader {
    pub id: u16,
    pub flags: u16,
    pub question_count: u16,
    pub answer_count: u16,
    pub authority_count: u16,
    pub additional_count: u16,
}

pub open spec fn header_of(message: Seq<u8>) -> DnsHeader {
    DnsHeader {
        id: crate::bytes::be16(message, 0),
        flags: crate::bytes::be16(message, 2),
        question_count: crate::bytes::be16(message, 4),
        answer_count: crate::bytes::be16(message, 6),
        authority_count: crate::bytes::be16(message, 8),
        additional_count: crate::bytes::be16(message, 10),
    }
}

impl DnsHeader {
    /// The bit that marks a response.
    pub open spec fn is_response(self) -> bool {
        self.flags >= 0x8000
    }

    /// The operation code, zero for a standard query.
    pub open spec fn opcode(self) -> int {
        self.flags as int / 0x800 % 16
    }

    /// The response code, zero for success.
    pub open spec fn rcode(self) -> int {
        self.flags as int % 16
    }
}

pub open spec fn message_size_valid(message: Seq<u8>) -> bool {
    12 <= message.len() <= MAX_DNS_MESSAGE
}

/// Reads the fixed header of a message.
pub fn parse_dns_header(message: &[u8]) -> (header: Option<DnsHeader>)
    ensures
        match header {
            Some(fields) => message_size_valid(message@) && fields == header_of(message@),
            None => !message_size_valid(message@),
        },
{
    if message.len() < 12 || message.len() > MAX_DNS_MESSAGE {
        return None;
    }
    Some(
        DnsHeader {
            id: read_be16(message, 0),
            flags: read_be16(message, 2),
            question_count: read_be16(message, 4),
            answer_count: read_be16(message, 6),
            authority_count: read_be16(message, 8),
            additional_count: read_be16(message, 10),
        },
    )
}

/// The question section of a message that asks for one address record: the name, which is not
/// the root, and the position behind the section.
pub open spec fn question_of(message: Seq<u8>) -> Option<(Seq<u8>, int)> {
    match name_at(message, 12) {
        None => None,
        Some(name) => {
            let tail = name_end(message, 12);
            if name.len() == 0 || tail + 4 > message.len() {
                None
            } else if (crate::bytes::be16(message, tail) == TYPE_A || crate::bytes::be16(
                message,
                tail,
            ) == TYPE_AAAA) && crate::bytes::be16(message, tail + 2) == CLASS_IN {
                Some((name, tail + 4))
            } else {
                None
            }
        },
    }
}

/// Reads the two numbers behind the name of a question: its type and its class.
pub fn read_dns_question_tail(message: &[u8], cursor: usize) -> (tail: Option<(u16, u16)>)
    ensures
        tail == (if cursor + 4 > message@.len() {
            None::<(u16, u16)>
        } else {
            Some(
                (
                    crate::bytes::be16(message@, cursor as int),
                    crate::bytes::be16(message@, cursor + 2),
                ),
            )
        }),
{
    if cursor > message.len() || message.len() - cursor < 4 {
        return None;
    }
    Some((read_be16(message, cursor), read_be16(message, cursor + 2)))
}

fn read_dns_question(message: &[u8]) -> (question: Option<DnsName>)
    requires
        message_size_valid(message@),
    ensures
        match question {
            Some(found) => question_of(message@) == Some((found.name@, found.end as int))
                && found.end <= message@.len(),
            None => question_of(message@) is None,
        },
{
    let found = match read_dns_name(message, 12) {
        Some(found) => found,
        None => {
            return None;
        },
    };
    if found.name.len() == 0 {
        return None;
    }
    match read_dns_question_tail(message, found.end) {
        Some((query_type, query_class)) => {
            if (query_type == TYPE_A || query_type == TYPE_AAAA) && query_class == CLASS_IN {
                Some(DnsName { name: found.name, end: found.end + 4 })
            } else {
                None
            }
        },
        None => None,
    }
}

/// Where an OPT pseudo-record that begins at `pos` ends; `None` where there is none.
pub open spec fn opt_end(message: Seq<u8>, pos: int) -> Option<int> {
    match name_at(message, pos) {
        None => None,
        Some(owner) => {
            let fixed = name_end(message, pos);
            if owner.len() > 0 || fixed + 10 > message.len() {
                None
            } else {
                let end = fixed + 10 + crate::bytes::be16(message, fixed + 8);
                if crate::bytes::be16(message, fixed) != TYPE_OPT || end > message.len() {
                    None
                } else {
                    Some(end)
                }
            }
        },
    }
}

/// Reads past the OPT pseudo-record at a position.
pub fn parse_dns_opt(message: &[u8], cursor: usize) -> (end: Option<usize>)
    ensures
        match end {
            Some(position) => opt_end(message@, cursor as int) == Some(position as int)
                && position <= message@.len(),
            None => opt_end(message@, cursor as int) is None,
        },
{
    let owner = match read_dns_name(message, cursor) {
        Some(owner) => owner,
        None => {
            return None;
        },
    };
    if owner.name.len() > 0 || message.len() - owner.end < 10 {
        return None;
    }
    if read_be16(message, owner.end) != TYPE_OPT {
        return None;
    }
    let data: usize = owner.end + 10;
    let data_len: usize = read_be16(message, owner.end + 8) as usize;
    if data_len > message.len() - data {
        return None;
    }
    Some(data + data_len)
}

pub struct DnsQuery {
    pub id: u16,
    pub name: Vec<u8>,
}

/// Whether the header is one of a standard query with a single question and at most one
/// additional record.
pub open spec fn query_header_valid(header: DnsHeader) -> bool {
    &&& !header.is_response()
    &&& header.opcode() == 0
    &&& header.question_count == 1
    &&& header.answer_count == 0
    &&& header.authority_count == 0
    &&& header.additional_count <= 1
}

/// The identifier and the name that a query asks for; `None` for what is no plain address query
/// that ends where the message does.
pub open spec fn query_of(message: Seq<u8>) -> Option<(u16, Seq<u8>)> {
    if !message_size_valid(message) || !query_header_valid(header_of(message)) {
        None
    } else {
        match question_of(message) {
            None => None,
            Some((name, tail)) => {
                let end = if header_of(message).additional_count == 1 {
                    opt_end(message, tail)
                } else {
                    Some(tail)
                };
                if end == Some(message.len() as int) {
                    Some((header_of(message).id, name))
                } else {
                    None
                }
            },
        }
    }
}

/// Reads an address query.
pub fn parse_dns_query(message: &[u8]) -> (parsed: Option<DnsQuery>)
    ensures
        match parsed {
            Some(query) => query_of(message@) == Some((query.id, query.name@)),
            None => query_of(message@) is None,
        },
{
    let header = match parse_dns_header(message) {
        Some(header) => header,
        None => {
            return None;
        },
    };
    if header.flags >= 0x8000 || header.flags / 0x800 % 16 != 0 || header.question_count != 1
        || header.answer_count != 0 || header.authority_count != 0 || header.additional_count > 1 {
        return None;
    }
    let question = match read_dns_question(message) {
        Some(question) => question,
        None => {
            return None;
        },
    };
    let mut end: usize = question.end;
    if header.additional_count == 1 {
        match parse_dns_opt(message, end) {
            Some(position) => {
                end = position;
            },
            None => {
                return None;
            },
        }
    }
    if end != message.len() {
        return None;
    }
    Some(DnsQuery { id: header.id, name: question.name })
}

/// An answer record that can bind a name: an alias or an address.
pub enum DnsRecord {
    Cname { owner: Vec<u8>, target: Vec<u8>, ttl: u32 },
    Address { owner: Vec<u8>, address: IpAddr, ttl: u32 },
}

pub enum RecordView {
    Cname { owner: Seq<u8>, target: Seq<u8>, ttl: u32 },
    Address { owner: Seq<u8>, address: IpAddr, ttl: u32 },
}

impl View for DnsRecord {
    type V = RecordView;

    open spec fn view(&self) -> RecordView {
        match *self {
            DnsRecord::Cname { owner, target, ttl } => RecordView::Cname {
                owner: owner@,
                target: target@,
                ttl,
            },
            DnsRecord::Address { owner, address, ttl } => RecordView::Address {
                owner: owner@,
                address,
                ttl,
            },
        }
    }
}

pub open spec fn record_views(records: Seq<DnsRecord>) -> Seq<RecordView> {
    records.map_values(|record: DnsRecord| record@)
}

/// What a resource record's data says; `None` where it breaks the message, and an empty sequence
/// where it says nothing that binds a name.
pub open spec fn record_data(
    message: Seq<u8>,
    owner: Seq<u8>,
    record_type: u16,
    ttl: u32,
    data: int,
    end: int,
) -> Option<Seq<RecordView>> {
    if record_type == TYPE_A && end - data == 4 {
        Some(
            seq![
                RecordView::Address {
                    owner,
                    address: crate::policy::packet::ipv4_at(message, data),
                    ttl,
                },
            ],
        )
    } else if record_type == TYPE_AAAA && end - data == 16 {
        Some(
            seq![
                RecordView::Address {
                    owner,
                    address: crate::policy::packet::ipv6_at(message, data),
                    ttl,
                },
            ],
        )
    } else if record_type == TYPE_CNAME {
        match name_at(message, data) {
            Some(target) => if target.len() > 0 && name_end(message, data) == end {
                Some(seq![RecordView::Cname { owner, target, ttl }])
            } else {
                None
            },
            None => None,
        }
    } else {
        Some(Seq::empty())
    }
}

/// The resource record at a position: where it ends, and what it binds.  Only an answer of the
/// Internet class binds anything; any other record is checked for its shape alone.
pub open spec fn record_at(message: Seq<u8>, pos: int, answer: bool) -> Option<
    (int, Seq<RecordView>),
> {
    match name_at(message, pos) {
        None => None,
        Some(owner) => {
            let fixed = name_end(message, pos);
            let data = fixed + 10;
            let end = data + crate::bytes::be16(message, fixed + 8);
            if data > message.len() || end > message.len() {
                None
            } else if !answer || crate::bytes::be16(message, fixed + 2) != CLASS_IN {
                Some((end, Seq::empty()))
            } else {
                match record_data(
                    message,
                    owner,
                    crate::bytes::be16(message, fixed),
                    crate::bytes::be32(message, fixed + 4),
                    data,
                    end,
                ) {
                    Some(bound) => Some((end, bound)),
                    None => None,
                }
            }
        },
    }
}

/// The records from `index` on, of which those below `answers` are in the answer section: where
/// they end, and what they bind.
pub open spec fn records_from(
    message: Seq<u8>,
    pos: int,
    index: int,
    answers: int,
    total: int,
) -> Option<(int, Seq<RecordView>)>
    decreases total - index,
{
    if index >= total {
        Some((pos, Seq::empty()))
    } else {
        match record_at(message, pos, index < answers) {
            None => None,
            Some((end, bound)) => match records_from(message, end, index + 1, answers, total) {
                None => None,
                Some((last, rest)) => Some((last, bound + rest)),
            },
        }
    }
}

struct ReadRecord {
    end: usize,
    bound: Option<DnsRecord>,
}

spec fn bound_view(bound: Option<DnsRecord>) -> Seq<RecordView> {
    match bound {
        Some(record) => seq![record@],
        None => Seq::empty(),
    }
}

fn read_dns_record(message: &[u8], cursor: usize, answer: bool) -> (read: Option<ReadRecord>)
    ensures
        match read {
            Some(record) => record_at(message@, cursor as int, answer) == Some(
                (record.end as int, bound_view(record.bound)),
            ) && record.end <= message@.len(),
            None => record_at(message@, cursor as int, answer) is None,
        },
{
    let owner = match read_dns_name(message, cursor) {
        Some(owner) => owner,
        None => {
            return None;
        },
    };
    let fixed: usize = owner.end;
    if message.len() - fixed < 10 {
        return None;
    }
    let record_type: u16 = read_be16(message, fixed);
    let class: u16 = read_be16(message, fixed + 2);
    let ttl: u32 = read_be32(message, fixed + 4);
    let data: usize = fixed + 10;
    let data_len: usize = read_be16(message, fixed + 8) as usize;
    if data_len > message.len() - data {
        return None;
    }
    let end: usize = data + data_len;
    if !answer || class != CLASS_IN {
        return Some(ReadRecord { end, bound: None });
    }
    if record_type == TYPE_A && end - data == 4 {
        let address = IpAddr::V4(Ipv4Addr { bits: read_be32(message, data) });
        return Some(
            ReadRecord { end, bound: Some(DnsRecord::Address { owner: owner.name, address, ttl }) },
        );
    }
    if record_type == TYPE_AAAA && end - data == 16 {
        let address = IpAddr::V6(Ipv6Addr { bits: read_be128(message, data) });
        return Some(
            ReadRecord { end, bound: Some(DnsRecord::Address { owner: owner.name, address, ttl }) },
        );
    }
    if record_type == TYPE_CNAME {
        return match read_dns_name(message, data) {
            Some(target) => {
                if target.name.len() == 0 || target.end != end {
                    None
                } else {
                    Some(
                        ReadRecord {
                            end,
                            bound: Some(
                                DnsRecord::Cname { owner: owner.name, target: target.name, ttl },
                            ),
                        },
                    )
                }
            },
            None => None,
        };
    }
    Some(ReadRecord { end, bound: None })
}

pub struct DnsResponse {
    pub id: u16,
    pub question: Vec<u8>,
    pub answers: Vec<DnsRecord>,
}

pub struct ResponseView {
    pub id: u16,
    pub question: Seq<u8>,
    pub answers: Seq<RecordView>,
}

impl View for DnsResponse {
    type V = ResponseView;

    open spec fn view(&self) -> ResponseView {
        ResponseView {
            id: self.id,
            question: self.question@,
            answers: record_views(self.answers@),
        }
    }
}

pub open spec fn record_total(header: DnsHeader) -> int {
    header.answer_count + header.authority_count + header.additional_count
}

/// Whether the header is one of a successful response to a single question, with a bounded
/// number of records.
pub open spec fn response_header_valid(header: DnsHeader) -> bool {
    &&& header.is_response()
    &&& header.opcode() == 0
    &&& header.rcode() == 0
    &&& header.question_count == 1
    &&& record_total(header) <= MAX_DNS_RECORDS
}

/// What a response says; `None` for what is no well-formed response to an address query that
/// ends where the message does.
pub open spec fn response_of(message: Seq<u8>) -> Option<ResponseView> {
    if !message_size_valid(message) || !response_header_valid(header_of(message)) {
        None
    } else {
        match question_of(message) {
            None => None,
            Some((question, tail)) => match records_from(
                message,
                tail,
                0,
                header_of(message).answer_count as int,
                record_total(header_of(message)),
            ) {
                Some((end, answers)) => if end == message.len() {
                    Some(ResponseView { id: header_of(message).id, question, answers })
                } else {
                    None
                },
                None => None,
            },
        }
    }
}

/// Reads a response to an address query.
pub fn parse_dns_response(message: &[u8]) -> (parsed: Option<DnsResponse>)
    ensures
        match parsed {
            Some(response) => response_of(message@) == Some(response@),
            None => response_of(message@) is None,
        },
{
    let header = match parse_dns_header(message) {
        Some(header) => header,
        None => {
            return None;
        },
    };
    if header.flags < 0x8000 || header.flags / 0x800 % 16 != 0 || header.flags % 16 != 0
        || header.question_count != 1 {
        return None;
    }
    let answer_count: usize = header.answer_count as usize;
    let total: usize = answer_count + header.authority_count as usize
        + header.additional_count as usize;
    if total > MAX_DNS_RECORDS {
        return None;
    }
    let question = match read_dns_question(message) {
        Some(question) => question,
        None => {
            return None;
        },
    };
    let ghost first = question.end as int;
    let ghost whole = records_from(message@, first, 0, answer_count as int, total as int);
    let mut cursor: usize = question.end;
    let mut answers: Vec<DnsRecord> = Vec::new();
    let mut index: usize = 0;
    assert(record_views(answers@) =~= Seq::empty());
    proof {
        if let Some((_, records)) = whole {
            assert(Seq::<RecordView>::empty() + records =~= records);
        }
    }
    while index < total
        invariant
            index <= total <= MAX_DNS_RECORDS,
            cursor <= message@.len(),
            whole is None ==> response_of(message@) is None,
            whole == (match records_from(
                message@,
                cursor as int,
                index as int,
                answer_count as int,
                total as int,
            ) {
                Some((last, rest)) => Some((last, record_views(answers@) + rest)),
                None => None,
            }),
        decreases total - index,
    {
        let record = match read_dns_record(message, cursor, index < answer_count) {
            Some(record) => record,
            None => {
                return None;
            },
        };
        let ghost before = record_views(answers@);
        let ghost rest = records_from(
            message@,
            record.end as int,
            index + 1,
            answer_count as int,
            total as int,
        );
        let ghost bound = bound_view(record.bound);
        cursor = record.end;
        match record.bound {
            Some(bound) => {
                answers.push(bound);
            },
            None => {},
        }
        proof {
            assert(record_views(answers@) =~= before + bound);
            if let Some((_, records)) = rest {
                assert(before + (bound + records) =~= (before + bound) + records);
            }
        }
        index += 1;
    }
    proof {
        assert(record_views(answers@) + Seq::<RecordView>::empty() =~= record_views(answers@));
    }
    if cursor != message.len() {
        return None;
    }
    Some(DnsResponse { id: header.id, question: question.name, answers })
}

/// A name that can be read is read in the same way where more bytes follow.
proof fn lemma_longer_name(
    message: Seq<u8>,
    more: Seq<u8>,
    pos: int,
    hops: nat,
    prefix: Seq<u8>,
)
    requires
        name_from(message, pos, hops, prefix) is Some,
    ensures
        name_from(message + more, pos, hops, prefix) == name_from(message, pos, hops, prefix),
        name_end(message + more, pos) == name_end(message, pos),
        0 <= pos < name_end(message, pos) <= message.len(),
    decreases hops, message.len() - pos,
{
    let longer = message + more;
    assert(longer[pos] == message[pos]);
    let length = message[pos] as int;
    if length >= 192 {
        assert(longer[pos + 1] == message[pos + 1]);
        lemma_longer_name(
            message,
            more,
            (length - 192) * 256 + message[pos + 1],
            (hops - 1) as nat,
            prefix,
        );
    } else if 0 < length < 64 {
        let end = pos + 1 + length;
        let label = message.subrange(pos + 1, end);
        assert(longer.subrange(pos + 1, end) =~= label);
        lemma_longer_name(
            message,
            more,
            end,
            hops,
            with_label(prefix, crate::policy::domain::lowercase(label)),
        );
    }
}

proof fn lemma_longer_question(message: Seq<u8>, more: Seq<u8>)
    requires
        question_of(message) is Some,
    ensures
        question_of(message + more) == question_of(message),
        0 <= (question_of(message)->0).1 <= message.len(),
{
    lemma_longer_name(
        message,
        more,
        12,
        MAX_DNS_NAME_POINTERS as nat,
        Seq::<u8>::empty(),
    );
}

proof fn lemma_longer_record(message: Seq<u8>, more: Seq<u8>, pos: int, answer: bool)
    requires
        record_at(message, pos, answer) is Some,
    ensures
        record_at(message + more, pos, answer) == record_at(message, pos, answer),
        pos <= (record_at(message, pos, answer)->0).0 <= message.len(),
{
    let longer = message + more;
    lemma_longer_name(
        message,
        more,
        pos,
        MAX_DNS_NAME_POINTERS as nat,
        Seq::<u8>::empty(),
    );
    let fixed = name_end(message, pos);
    let data = fixed + 10;
    let end = data + crate::bytes::be16(message, fixed + 8);
    assert forall|i: int| 0 <= i < message.len() implies longer[i] == message[i] by {}
    if name_at(message, data) is Some {
        lemma_longer_name(
            message,
            more,
            data,
            MAX_DNS_NAME_POINTERS as nat,
            Seq::<u8>::empty(),
        );
    }
}

proof fn lemma_longer_records(
    message: Seq<u8>,
    more: Seq<u8>,
    pos: int,
    index: int,
    answers: int,
    total: int,
)
    requires
        records_from(message, pos, index, answers, total) is Some,
    ensures
        records_from(message + more, pos, index, answers, total) == records_from(
            message,
            pos,
            index,
            answers,
            total,
        ),
    decreases total - index,
{
    if index < total {
        lemma_longer_record(message, more, pos, index < answers);
        let end = (record_at(message, pos, index < answers)->0).0;
        lemma_longer_records(message, more, end, index + 1, answers, total);
    }
}

/// A response is taken only if its records end with its last byte: whatever follows one that is
/// taken, the whole is refused.
pub proof fn law_nothing_follows_a_response(message: Seq<u8>, more: Seq<u8>)
    requires
        response_of(message) is Some,
        more.len() > 0,
    ensures
        response_of(message + more) is None,
{
    let longer = message + more;
    assert forall|i: int| 0 <= i < 12 implies longer[i] == message[i] by {}
    assert(header_of(longer) == header_of(message));
    lemma_longer_question(message, more);
    let header = header_of(message);
    lemma_longer_records(
        message,
        more,
        (question_of(message)->0).1,
        0,
        header.answer_count as int,
        record_total(header),
    );
}

/// A query is taken only if it ends with its last byte: whatever follows one that is taken, the
/// whole is refused.
pub proof fn law_nothing_follows_a_query(message: Seq<u8>, more: Seq<u8>)
    requires
        query_of(message) is Some,
        more.len() > 0,
    ensures
        query_of(message + more) is None,
{
    let longer = message + more;
    assert forall|i: int| 0 <= i < message.len() implies longer[i] == message[i] by {}
    assert(header_of(longer) == header_of(message));
    lemma_longer_question(message, more);
    let tail = (question_of(message)->0).1;
    if header_of(message).additional_count == 1 {
        lemma_longer_name(
            message,
            more,
            tail,
            MAX_DNS_NAME_POINTERS as nat,
            Seq::<u8>::empty(),
        );
    }
}

} // verus!
