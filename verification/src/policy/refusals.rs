//! What is not taken for a packet, a question, an answer or a hello.

use vstd::prelude::*;

use crate::policy::dns::{query_of, record_at, record_data, records_from, response_of, RecordView};
use crate::policy::domain::PatternView;
use crate::policy::frames::{long, word};
use crate::policy::names::{
    all_host_labels, holds, lemma_holds_parts, lemma_word_held, name_of,
    question_bytes, small,
};
use crate::policy::packet::{checksum_spec, ipv4_packet, ipv6_packet, IpPacketView};
use crate::policy::tls::{client_hello, server_name, server_names_from, tls_hello, TlsParseView};
use crate::policy::DenyReason;

verus! {

/// A part of a datagram is never taken for a datagram: neither the first part, which says that more
/// follows, nor a later one, which says where it belongs.
pub proof fn law_fragments_are_refused(bytes: Seq<u8>)
    requires
        bytes.len() >= 20,
        bytes[0] / 16 == 4,
        5 <= bytes[0] % 16,
        bytes[0] % 16 * 4 <= bytes[2] * 256 + bytes[3] <= bytes.len(),
        bytes[6] % 64 > 0 || bytes[7] > 0 || bytes[6] >= 128,
    ensures
        ipv4_packet(bytes) == Err::<IpPacketView, DenyReason>(DenyReason::Fragment),
{
}

/// A header whose checksum does not come out is refused, and so is every header of which one byte
/// behind the first was changed.
pub proof fn law_corrupted_ipv4_headers_are_refused(bytes: Seq<u8>, at: int, byte: u8)
    requires
        ipv4_packet(bytes) is Ok,
        1 <= at < bytes[0] % 16 * 4,
        byte != bytes[at],
    ensures
        ipv4_packet(bytes.update(at, byte)) is Err,
        checksum_spec(bytes.subrange(0, bytes[0] % 16 * 4)) == 0,
{
    let length = bytes[0] % 16 * 4;
    let header = bytes.subrange(0, length);
    let written = bytes.update(at, byte);
    assert(written[0] == bytes[0]);
    assert(written.subrange(0, length) =~= header.update(at, byte));
    crate::policy::bounds::law_checksum_finds_a_changed_byte(header, at, byte);
}

/// Of IPv6, only TCP and UDP are read, and no part of a packet.
pub proof fn law_other_ipv6_packets_are_refused(bytes: Seq<u8>)
    requires
        bytes.len() >= 40,
        bytes[0] / 16 == 6,
        40 + bytes[4] * 256 + bytes[5] <= bytes.len(),
        bytes[6] != 6,
        bytes[6] != 17,
    ensures
        ipv6_packet(bytes) == Err::<IpPacketView, DenyReason>(
            if bytes[6] == 44 {
                DenyReason::Fragment
            } else {
                DenyReason::UnsupportedProtocol
            },
        ),
{
}

/// What is read as a question is a plain one: no response, of the standard kind, with one question
/// and nothing else but at most one additional record, under the number that it begins with.
pub proof fn law_only_plain_questions_are_read(message: Seq<u8>)
    ensures
        query_of(message) matches Some((id, name)) ==> {
            &&& 12 <= message.len() <= 4096
            &&& id == message[0] * 256 + message[1]
            &&& message[2] < 8
            &&& message[4] == 0 && message[5] == 1
            &&& message[6] == 0 && message[7] == 0
            &&& message[8] == 0 && message[9] == 0
            &&& message[10] == 0 && message[11] <= 1
            &&& name.len() > 0
            &&& crate::policy::dns::name_at(message, 12) == Some(name)
        },
{
    if query_of(message) is Some {
        assert(crate::bytes::be16(message, 2) == message[2] * 256 + message[3]);
        assert(crate::bytes::be16(message, 4) == message[4] * 256 + message[5]);
    }
}

/// What is read as a response is one: without an error, of the standard kind, to one question, and
/// with no more than 256 records.
pub proof fn law_only_plain_responses_are_read(message: Seq<u8>)
    ensures
        response_of(message) matches Some(response) ==> {
            &&& 12 <= message.len() <= 4096
            &&& response.id == message[0] * 256 + message[1]
            &&& 128 <= message[2] < 136
            &&& message[3] % 16 == 0
            &&& message[4] == 0 && message[5] == 1
            &&& (message[6] + message[8] + message[10]) * 256 + message[7] + message[9]
                + message[11] <= 256
            &&& response.question.len() > 0
            &&& crate::policy::dns::name_at(message, 12) == Some(response.question)
        },
{
    if response_of(message) is Some {
        assert(crate::bytes::be16(message, 2) == message[2] * 256 + message[3]);
        assert(crate::bytes::be16(message, 4) == message[4] * 256 + message[5]);
    }
}

/// A question asks for addresses on the Internet: behind its name stand one of the two types of
/// them and that class.
pub proof fn law_questions_ask_for_addresses(message: Seq<u8>)
    ensures
        query_of(message) is Some || response_of(message) is Some ==> {
            let at = crate::policy::dns::name_end(message, 12);
            &&& at + 4 <= message.len()
            &&& message[at] == 0 && (message[at + 1] == 1 || message[at + 1] == 28)
            &&& message[at + 2] == 0 && message[at + 3] == 1
        },
{
    let at = crate::policy::dns::name_end(message, 12);
    if query_of(message) is Some || response_of(message) is Some {
        lemma_end_is_behind(message, 12);
        assert(crate::bytes::be16(message, at) == message[at] * 256 + message[at + 1]);
        assert(crate::bytes::be16(message, at + 2) == message[at + 2] * 256 + message[at + 3]);
    }
}

proof fn lemma_end_is_behind(message: Seq<u8>, at: int)
    requires
        0 <= at,
    ensures
        crate::policy::dns::name_end(message, at) >= at,
    decreases message.len() - at,
{
    if at < message.len() && message[at] < 192 && message[at] != 0 && at + 1 + message[at]
        <= message.len() {
        lemma_end_is_behind(message, at + 1 + message[at]);
    }
}

/// A question may come with a record of options, which changes nothing of it.
#[verifier::spinoff_prover]
#[verifier::rlimit(60)]
pub proof fn law_question_may_come_with_options(
    id: u16,
    flags: u16,
    labels: Seq<Seq<u8>>,
    kind: u16,
    size: u16,
    settings: u32,
    options: Seq<u8>,
)
    requires
        flags & 0xf800 == 0,
        kind == 1 || kind == 28,
        all_host_labels(labels),
        labels.len() > 0,
        name_of(labels).len() <= 253,
        options.len() <= 0xffff,
        question_bytes(labels, kind).len() + options.len() <= 4073,
    ensures
        query_of(
            (word(id) + word(flags) + word(1) + word(0) + word(0) + word(1)) + (question_bytes(
                labels,
                kind,
            ) + (seq![0u8] + (word(41) + word(size) + long(settings) + word(
                options.len() as u16,
            )) + options)),
        ) == Some((id, name_of(labels))),
{
    let question = question_bytes(labels, kind);
    let fixed = word(41) + word(size) + long(settings) + word(options.len() as u16);
    let record = seq![0u8] + fixed + options;
    let head = word(id) + word(flags) + word(1) + word(0) + word(0) + word(1);
    let message = head + (question + record);
    lemma_six_words(message, id, flags, question + record);
    lemma_holds_parts(message, 12, question, record);
    crate::policy::names::lemma_question(message, labels, kind);
    let tail = 12int + question.len();
    lemma_options(message, tail, size, settings, options);
    lemma_whole_query(message, id, flags, name_of(labels), tail);
}

proof fn lemma_whole_query(message: Seq<u8>, id: u16, flags: u16, name: Seq<u8>, tail: int)
    requires
        flags & 0xf800 == 0,
        12 <= message.len() <= 4096,
        crate::bytes::be16(message, 0) == id,
        crate::bytes::be16(message, 2) == flags,
        crate::bytes::be16(message, 4) == 1,
        crate::bytes::be16(message, 6) == 0,
        crate::bytes::be16(message, 8) == 0,
        crate::bytes::be16(message, 10) == 1,
        crate::policy::dns::question_of(message) == Some((name, tail)),
        crate::policy::dns::opt_end(message, tail) == Some(message.len() as int),
    ensures
        query_of(message) == Some((id, name)),
{
    assert(flags < 0x8000 && flags / 0x800 % 16 == 0) by (bit_vector)
        requires
            flags & 0xf800 == 0,
    ;
}

proof fn lemma_six_words(message: Seq<u8>, id: u16, flags: u16, rest: Seq<u8>)
    requires
        message == (word(id) + word(flags) + word(1) + word(0) + word(0) + word(1)) + rest,
    ensures
        holds(message, 12, rest),
        crate::bytes::be16(message, 0) == id,
        crate::bytes::be16(message, 2) == flags,
        crate::bytes::be16(message, 4) == 1,
        crate::bytes::be16(message, 6) == 0,
        crate::bytes::be16(message, 8) == 0,
        crate::bytes::be16(message, 10) == 1,
        message.len() == 12 + rest.len(),
{
    assert(message.subrange(0, 2) =~= word(id));
    assert(message.subrange(2, 4) =~= word(flags));
    assert(message.subrange(4, 6) =~= word(1));
    assert(message.subrange(6, 8) =~= word(0));
    assert(message.subrange(8, 10) =~= word(0));
    assert(message.subrange(10, 12) =~= word(1));
    assert(message.subrange(12, 12int + rest.len()) =~= rest);
    lemma_word_held(message, 0, id);
    lemma_word_held(message, 2, flags);
    lemma_word_held(message, 4, 1);
    lemma_word_held(message, 6, 0);
    lemma_word_held(message, 8, 0);
    lemma_word_held(message, 10, 1);
}

proof fn lemma_options(message: Seq<u8>, at: int, size: u16, settings: u32, options: Seq<u8>)
    requires
        options.len() <= 0xffff,
        holds(
            message,
            at,
            seq![0u8] + (word(41) + word(size) + long(settings) + word(options.len() as u16))
                + options,
        ),
    ensures
        crate::policy::dns::opt_end(message, at) == Some(at + 11 + options.len()),
{
    let length = word(options.len() as u16);
    let fixed = word(41) + word(size) + long(settings) + length;
    let root = seq![0u8];
    lemma_holds_parts(message, at, root + fixed, options);
    lemma_holds_parts(message, at, root, fixed);
    lemma_holds_parts(message, at + 1, word(41) + word(size) + long(settings), length);
    lemma_holds_parts(message, at + 1, word(41) + word(size), long(settings));
    lemma_holds_parts(message, at + 1, word(41), word(size));
    lemma_word_held(message, at + 1, 41);
    lemma_word_held(message, at + 9, options.len() as u16);
    assert(message.subrange(at, at + 1)[0] == 0);
    assert(message[at] == 0);
    assert(crate::policy::dns::name_at(message, at) == Some(Seq::<u8>::empty()));
    assert(crate::policy::dns::name_end(message, at) == at + 1);
}

/// Only what answers the question makes anything known: the records behind the answers are read for
/// their shape alone.
pub proof fn law_only_answers_bind(message: Seq<u8>, at: int, index: int, answers: int, total: int)
    requires
        answers <= index,
    ensures
        records_from(message, at, index, answers, total) matches Some((_, bound)) ==> bound.len()
            == 0,
        record_at(message, at, false) matches Some((_, bound)) ==> bound.len() == 0,
    decreases total - index,
{
    if index < total {
        match record_at(message, at, false) {
            Some((end, _)) => {
                law_only_answers_bind(message, end, index + 1, answers, total);
            },
            None => {},
        }
    }
}

/// An address that is too short or too long, and a record of another type, make nothing known; an
/// alias that is not a name of its own breaks the message.
pub proof fn law_other_records_bind_nothing(
    message: Seq<u8>,
    owner: Seq<u8>,
    kind: u16,
    ttl: u32,
    data: int,
    end: int,
)
    ensures
        kind != 5 && !(kind == 1 && end - data == 4) && !(kind == 28 && end - data == 16)
            ==> record_data(message, owner, kind, ttl, data, end) == Some(
            Seq::<RecordView>::empty(),
        ),
        kind == 5 ==> {
            let name = crate::policy::dns::name_at(message, data);
            record_data(message, owner, kind, ttl, data, end) == (if name is Some && name->0.len()
                > 0 && crate::policy::dns::name_end(message, data) == end {
                Some(seq![RecordView::Cname { owner, target: name->0, ttl }])
            } else {
                None
            })
        },
        record_data(message, owner, kind, ttl, data, end) matches Some(bound) ==> bound.len() <= 1,
        record_data(message, owner, kind, ttl, data, end) matches Some(bound) ==> forall|i: int|
            0 <= i < bound.len() ==> match #[trigger] bound[i] {
                RecordView::Address { owner: whose, ttl: time, .. } => whose == owner && time
                    == ttl,
                RecordView::Cname { owner: whose, ttl: time, .. } => whose == owner && time == ttl,
            },
{
}

/// A hello is read only where its parts fit each other: its version, its cipher suites, of which
/// there is at least one and which are of two bytes each, and its extensions, which reach to its
/// end.
pub proof fn law_hellos_have_a_sound_layout(body: Seq<u8>)
    ensures
        client_hello(body) is Ok ==> body.len() > 34 && body[0] == 3 && ({
            let suites = 35 + body[34];
            let count = body[suites] * 256 + body[suites + 1];
            let methods = suites + 2 + count;
            let last = methods + 1 + body[methods];
            &&& suites + 2 <= body.len()
            &&& count >= 2 && count % 2 == 0
            &&& methods < body.len()
            &&& last + 2 <= body.len()
            &&& last + 2 + body[last] * 256 + body[last + 1] == body.len()
        }),
        client_hello(body) is Err ==> client_hello(body) == Err::<TlsParseView, DenyReason>(
            DenyReason::TlsInvalid,
        ),
{
    if client_hello(body) is Ok {
        let suites = 35 + body[34];
        assert(crate::bytes::be16(body, suites) == body[suites] * 256 + body[suites + 1]);
        let last = crate::policy::tls::extensions_at(body);
        assert(crate::bytes::be16(body, last) == body[last] * 256 + body[last + 1]);
    }
    lemma_one_reason(body, crate::policy::tls::extensions_at(body) + 2, None, false);
}

proof fn lemma_one_reason(body: Seq<u8>, at: int, sni: Option<Option<Seq<u8>>>, ech: bool)
    ensures
        crate::policy::tls::extensions_from(body, at, sni, ech) matches Err(reason) ==> reason
            == DenyReason::TlsInvalid,
    decreases body.len() - at,
{
    if 0 <= at < body.len() {
        match (crate::policy::tls::tls_u16(body, at), crate::policy::tls::tls_u16(body, at + 2)) {
            (Some(kind), Some(length)) => {
                let end = at + 4 + length;
                if end <= body.len() {
                    let extension = body.subrange(at + 4, end);
                    lemma_name_reason(extension, 2, None);
                    match server_name(extension) {
                        Ok(host) => {
                            lemma_one_reason(body, end, Some(host), ech);
                        },
                        Err(_) => {},
                    }
                    lemma_one_reason(body, end, sni, true);
                    lemma_one_reason(body, end, sni, ech);
                }
            },
            _ => {},
        }
    }
}

proof fn lemma_name_reason(list: Seq<u8>, at: int, host: Option<Seq<u8>>)
    ensures
        server_names_from(list, at, host) matches Err(reason) ==> reason == DenyReason::TlsInvalid,
    decreases list.len() - at,
{
    if 0 <= at < list.len() {
        match crate::policy::tls::tls_u16(list, at + 1) {
            Some(length) => {
                let end = at + 3 + length;
                if end <= list.len() {
                    lemma_name_reason(list, end, host);
                    match crate::policy::domain::normalized(list.subrange(at + 3, end)) {
                        Some(name) => {
                            lemma_name_reason(list, end, Some(name));
                        },
                        None => {},
                    }
                }
            },
            None => {},
        }
    }
}

/// Of a list of names, those that are no host names are passed over; a second host name, one that
/// is no domain name, and one that does not fit the list make it invalid.
pub proof fn law_server_names_are_read_one_by_one(list: Seq<u8>, at: int, host: Option<Seq<u8>>)
    requires
        0 <= at,
        at + 3 <= list.len(),
    ensures
        ({
            let end = at + 3 + list[at + 1] * 256 + list[at + 2];
            let name = crate::policy::domain::normalized(list.subrange(at + 3, end));
            &&& end > list.len() ==> server_names_from(list, at, host) is Err
            &&& end <= list.len() && list[at] != 0 ==> server_names_from(list, at, host)
                == server_names_from(list, end, host)
            &&& end <= list.len() && list[at] == 0 && (host is Some || name is None)
                ==> server_names_from(list, at, host) is Err
            &&& end <= list.len() && list[at] == 0 && host is None && name is Some
                ==> server_names_from(list, at, host) == server_names_from(list, end, name)
        }),
        server_names_from(list, list.len() as int, host) == Ok::<Option<Seq<u8>>, DenyReason>(host),
{
    assert(crate::bytes::be16(list, at + 1) == list[at + 1] * 256 + list[at + 2]);
}

/// A record is waited for until it is there in full; one that is empty or too long is refused at
/// once.
pub proof fn law_records_are_waited_for(stream: Seq<u8>)
    ensures
        stream.len() < 5 ==> tls_hello(stream) == Ok::<TlsParseView, DenyReason>(
            TlsParseView::NeedMore,
        ),
        stream.len() >= 5 ==> {
            let length = stream[3] * 256 + stream[4];
            &&& stream[0] != 22 || stream[1] != 3 || length == 0 || length > 18432
                ==> tls_hello(stream) == Err::<TlsParseView, DenyReason>(DenyReason::TlsInvalid)
            &&& stream[0] == 22 && stream[1] == 3 && 0 < length <= 18432 && stream.len() < 5 + length
                ==> tls_hello(stream) == Ok::<TlsParseView, DenyReason>(TlsParseView::NeedMore)
        },
{
    if stream.len() >= 5 {
        assert(crate::bytes::be16(stream, 3) == stream[3] * 256 + stream[4]);
    }
}

/// A rule is read from its name, in whatever letters, or from a star and a dot before it; a star
/// anywhere else, and what is no name, is no rule.
pub proof fn law_rules_are_read(name: Seq<u8>)
    ensures
        crate::policy::domain::normalized(name) is Some ==> {
            &&& crate::policy::domain::pattern_of(name) == Some(
                PatternView { suffix: small(name), wildcard: false },
            )
            &&& crate::policy::domain::pattern_of(seq![0x2au8, 0x2eu8] + name) == Some(
                PatternView { suffix: small(name), wildcard: true },
            )
        },
        crate::policy::domain::normalized(name) is None ==> crate::policy::domain::pattern_of(
            seq![0x2au8, 0x2eu8] + name,
        ) is None,
        name.len() > 0 && name[0] == 0x2a && (name.len() == 1 || name[1] != 0x2e)
            ==> crate::policy::domain::pattern_of(name) is None,
        forall|i: int|
            2 <= i < name.len() && name[i] == 0x2a ==> crate::policy::domain::pattern_of(name)
                is None,
{
    let starred = seq![0x2au8, 0x2eu8] + name;
    assert(starred.subrange(2, starred.len() as int) =~= name);
    if crate::policy::domain::normalized(name) is Some {
        assert(small(name) =~= crate::policy::domain::lowercase(name));
        if name[0] == 0x2a {
            crate::policy::hello::law_broken_names_are_refused(name, 0);
        }
    }
    if name.len() > 0 && name[0] == 0x2a {
        crate::policy::hello::law_broken_names_are_refused(name, 0);
    }
    assert forall|i: int|
        2 <= i < name.len() && name[i] == 0x2a implies crate::policy::domain::pattern_of(name)
            is None by {
        let rest = name.subrange(2, name.len() as int);
        assert(rest[i - 2] == name[i]);
        crate::policy::hello::law_broken_names_are_refused(rest, i - 2);
        crate::policy::hello::law_broken_names_are_refused(name, i);
    }
}

proof fn lemma_label_end(name: Seq<u8>, from: int)
    requires
        0 <= from <= name.len(),
    ensures
        from <= crate::policy::domain::label_end(name, from) <= name.len(),
        crate::policy::domain::label_end(name, from) < name.len()
            ==> name[crate::policy::domain::label_end(name, from)] == 0x2e,
        forall|i: int|
            from <= i < crate::policy::domain::label_end(name, from) ==> #[trigger] name[i]
                != 0x2e,
    decreases name.len() - from,
{
    if from < name.len() && name[from] != 0x2e {
        lemma_label_end(name, from + 1);
    }
}

proof fn lemma_short_labels(name: Seq<u8>, from: int, first: int, last: int)
    requires
        0 <= from <= first < last <= name.len(),
        crate::policy::domain::labels_valid(name, from),
        forall|i: int| first <= i < last ==> #[trigger] name[i] != 0x2e,
    ensures
        last - first <= 63,
    decreases name.len() - from,
{
    lemma_label_end(name, from);
    let end = crate::policy::domain::label_end(name, from);
    if first < end {
        if last > end {
            assert(name[end] == 0x2e);
            assert(name[end] != 0x2e);
        }
    } else {
        lemma_short_labels(name, end + 1, first, last);
    }
}

proof fn lemma_no_hyphen_at_a_dot(name: Seq<u8>, from: int, at: int)
    requires
        0 <= from <= at < name.len(),
        crate::policy::domain::labels_valid(name, from),
        name[at] == 0x2e,
    ensures
        at + 1 < name.len(),
        name[at + 1] != 0x2d,
        at > from,
        name[at - 1] != 0x2d,
    decreases name.len() - from,
{
    lemma_label_end(name, from);
    let end = crate::policy::domain::label_end(name, from);
    let label = name.subrange(from, end);
    assert(label[label.len() - 1] == name[end - 1]);
    assert(end <= at);
    if end == at {
        lemma_label_end(name, end + 1);
        let next = crate::policy::domain::label_end(name, end + 1);
        let following = name.subrange(end + 1, next);
        assert(crate::policy::domain::labels_valid(name, end + 1));
        assert(crate::policy::domain::is_label(following));
        assert(following[0] == name[end + 1]);
    } else {
        lemma_no_hyphen_at_a_dot(name, end + 1, at);
    }
}

/// A label of more than 63 bytes, and a hyphen at either end of one, make no name.
pub proof fn law_broken_labels_are_refused(name: Seq<u8>, first: int, last: int)
    requires
        0 <= first < last <= name.len(),
    ensures
        last - first > 63 && (forall|i: int| first <= i < last ==> #[trigger] name[i] != 0x2e)
            ==> crate::policy::domain::normalized(name) is None,
        name[first] == 0x2e && first + 1 < name.len() && name[first + 1] == 0x2d
            ==> crate::policy::domain::normalized(name) is None,
        name[first] == 0x2e && first > 0 && name[first - 1] == 0x2d
            ==> crate::policy::domain::normalized(name) is None,
{
    if crate::policy::domain::normalized(name) is Some {
        if forall|i: int| first <= i < last ==> #[trigger] name[i] != 0x2e {
            lemma_short_labels(name, 0, first, last);
        }
        if name[first] == 0x2e {
            lemma_no_hyphen_at_a_dot(name, 0, first);
        }
    }
}

} // verus!
