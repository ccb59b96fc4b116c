//! DNS messages that are put together label by label and record by record are read as what was put
//! in.

use vstd::prelude::*;

use crate::net::{IpAddr, Ipv4Addr, Ipv6Addr};
use crate::policy::dns::{RecordView, ResponseView};
use crate::policy::frames::{long, wide, word};

verus! {

/// Whether some bytes can be a label of a host name: letters, digits and hyphens, the first and the
/// last of them no hyphen, and 63 of them at most.
pub open spec fn is_host_label(label: Seq<u8>) -> bool {
    &&& 1 <= label.len() <= 63
    &&& label.first() != 0x2d && label.last() != 0x2d
    &&& forall|i: int|
        0 <= i < label.len() ==> {
            ||| 0x30 <= #[trigger] label[i] <= 0x39
            ||| 0x41 <= label[i] <= 0x5a
            ||| 0x61 <= label[i] <= 0x7a
            ||| label[i] == 0x2d
        }
}

/// A label in small letters.
pub open spec fn small(label: Seq<u8>) -> Seq<u8> {
    label.map_values(
        |byte: u8|
            if 0x41 <= byte <= 0x5a {
                (byte + 0x20) as u8
            } else {
                byte
            },
    )
}

/// Labels in small letters behind a name, with a dot before each but the first.
pub open spec fn dotted(name: Seq<u8>, labels: Seq<Seq<u8>>) -> Seq<u8>
    decreases labels.len(),
{
    if labels.len() == 0 {
        name
    } else {
        dotted(
            (if name.len() == 0 {
                name
            } else {
                name + seq![0x2eu8]
            }) + small(labels[0]),
            labels.drop_first(),
        )
    }
}

/// The name of some labels.
pub open spec fn name_of(labels: Seq<Seq<u8>>) -> Seq<u8> {
    dotted(Seq::empty(), labels)
}

/// Labels as they stand in a message, each behind its length.
pub open spec fn label_bytes(labels: Seq<Seq<u8>>) -> Seq<u8>
    decreases labels.len(),
{
    if labels.len() == 0 {
        Seq::empty()
    } else {
        seq![labels[0].len() as u8] + labels[0] + label_bytes(labels.drop_first())
    }
}

/// A whole name as it stands in a message: its labels and a zero.
pub open spec fn name_bytes(labels: Seq<Seq<u8>>) -> Seq<u8> {
    label_bytes(labels) + seq![0u8]
}

/// The two bytes that lead to a name elsewhere in the message.
pub open spec fn pointer(place: int) -> Seq<u8> {
    seq![(0xc0 + place / 256) as u8, (place % 256) as u8]
}

pub open spec fn all_host_labels(labels: Seq<Seq<u8>>) -> bool {
    forall|i: int| 0 <= i < labels.len() ==> is_host_label(#[trigger] labels[i])
}

/// Whether some bytes stand in a message.
pub open spec fn holds(message: Seq<u8>, at: int, bytes: Seq<u8>) -> bool {
    0 <= at && at + bytes.len() <= message.len() && message.subrange(at, at + bytes.len()) == bytes
}

pub proof fn lemma_holds_parts(message: Seq<u8>, at: int, first: Seq<u8>, second: Seq<u8>)
    requires
        holds(message, at, first + second),
    ensures
        holds(message, at, first),
        holds(message, at + first.len(), second),
{
    let both = first + second;
    assert(message.subrange(at, at + first.len()) =~= both.subrange(0, first.len() as int));
    assert(both.subrange(0, first.len() as int) =~= first);
    assert(message.subrange(at + first.len(), at + both.len()) =~= both.subrange(
        first.len() as int,
        both.len() as int,
    ));
    assert(both.subrange(first.len() as int, both.len() as int) =~= second);
}

pub proof fn lemma_dotted_grows(name: Seq<u8>, labels: Seq<Seq<u8>>)
    ensures
        name.len() <= dotted(name, labels).len(),
    decreases labels.len(),
{
    if labels.len() > 0 {
        let next = (if name.len() == 0 {
            name
        } else {
            name + seq![0x2eu8]
        }) + small(labels[0]);
        lemma_dotted_grows(next, labels.drop_first());
    }
}

/// Labels that stand in a message are read one after the other.
proof fn lemma_labels(
    message: Seq<u8>,
    at: int,
    labels: Seq<Seq<u8>>,
    hops: nat,
    name: Seq<u8>,
)
    requires
        holds(message, at, label_bytes(labels)),
        all_host_labels(labels),
        dotted(name, labels).len() <= 253,
    ensures
        crate::policy::dns::name_from(message, at, hops, name) == crate::policy::dns::name_from(
            message,
            at + label_bytes(labels).len(),
            hops,
            dotted(name, labels),
        ),
        crate::policy::dns::name_end(message, at) == crate::policy::dns::name_end(
            message,
            at + label_bytes(labels).len(),
        ),
    decreases labels.len(),
{
    if labels.len() > 0 {
        let label = labels[0];
        let rest = labels.drop_first();
        let length = label.len() as int;
        assert(is_host_label(label));
        let head = seq![label.len() as u8] + label;
        assert(label_bytes(labels) == head + label_bytes(rest));
        lemma_holds_parts(message, at, head, label_bytes(rest));
        lemma_holds_parts(message, at, seq![label.len() as u8], label);
        assert(message[at] == message.subrange(at, at + 1)[0]);
        assert(message[at] == length);
        assert(message.subrange(at + 1, at + 1 + length) == label);
        assert(crate::policy::domain::is_label(label)) by {
            assert(label[0] == label.first());
            assert(label[length - 1] == label.last());
        }
        assert(small(label) =~= crate::policy::domain::lowercase(label));
        let next = (if name.len() == 0 {
            name
        } else {
            name + seq![0x2eu8]
        }) + small(label);
        assert(next =~= crate::policy::dns::with_label(
            name,
            crate::policy::domain::lowercase(label),
        ));
        lemma_dotted_grows(next, rest);
        assert forall|i: int| 0 <= i < rest.len() implies is_host_label(#[trigger] rest[i]) by {
            assert(rest[i] == labels[i + 1]);
        }
        lemma_labels(message, at + 1 + length, rest, hops, next);
    }
}

/// A name that is written out in a message is read as its labels in small letters with dots between
/// them, and its end is behind its zero.
pub proof fn law_name_is_read_label_by_label(message: Seq<u8>, at: int, labels: Seq<Seq<u8>>)
    requires
        holds(message, at, name_bytes(labels)),
        all_host_labels(labels),
        name_of(labels).len() <= 253,
    ensures
        crate::policy::dns::name_at(message, at) == Some(name_of(labels)),
        crate::policy::dns::name_end(message, at) == at + name_bytes(labels).len(),
{
    lemma_holds_parts(message, at, label_bytes(labels), seq![0u8]);
    lemma_labels(
        message,
        at,
        labels,
        crate::policy::dns::MAX_DNS_NAME_POINTERS as nat,
        Seq::empty(),
    );
    let end = at + label_bytes(labels).len();
    assert(message[end] == message.subrange(end, end + 1)[0]);
}

/// A pointer stands for the name that it leads to, as long as fewer than 32 pointers are followed,
/// and the name ends behind the pointer in its own place.
pub proof fn law_pointer_stands_for_its_name(message: Seq<u8>, at: int, place: int)
    requires
        0 <= place < 0x4000,
        holds(message, at, pointer(place)),
        crate::policy::dns::name_from(message, place, 31, Seq::empty()) is Some,
    ensures
        crate::policy::dns::name_at(message, at) == crate::policy::dns::name_from(
            message,
            place,
            31,
            Seq::empty(),
        ),
        crate::policy::dns::name_end(message, at) == at + 2,
{
    let part = message.subrange(at, at + 2);
    assert(message[at] == part[0] && message[at + 1] == part[1]);
}

/// A name may begin with labels of its own and go on elsewhere: it is read as all of its labels.
pub proof fn law_name_goes_on_elsewhere(
    message: Seq<u8>,
    at: int,
    labels: Seq<Seq<u8>>,
    place: int,
    others: Seq<Seq<u8>>,
)
    requires
        0 <= place < 0x4000,
        holds(message, at, label_bytes(labels) + pointer(place)),
        holds(message, place, name_bytes(others)),
        all_host_labels(labels),
        all_host_labels(others),
        name_of(labels + others).len() <= 253,
    ensures
        crate::policy::dns::name_at(message, at) == Some(name_of(labels + others)),
        crate::policy::dns::name_end(message, at) == at + label_bytes(labels).len() + 2,
{
    let hops = crate::policy::dns::MAX_DNS_NAME_POINTERS as nat;
    lemma_dotted_split(Seq::empty(), labels, others);
    lemma_dotted_grows(name_of(labels), others);
    lemma_holds_parts(message, at, label_bytes(labels), pointer(place));
    lemma_labels(message, at, labels, hops, Seq::empty());
    let end = at + label_bytes(labels).len();
    let part = message.subrange(end, end + 2);
    assert(message[end] == part[0] && message[end + 1] == part[1]);
    lemma_holds_parts(message, place, label_bytes(others), seq![0u8]);
    lemma_labels(message, place, others, (hops - 1) as nat, name_of(labels));
    let last = place + label_bytes(others).len();
    assert(message[last] == message.subrange(last, last + 1)[0]);
}

proof fn lemma_dotted_split(name: Seq<u8>, labels: Seq<Seq<u8>>, others: Seq<Seq<u8>>)
    ensures
        dotted(name, labels + others) == dotted(dotted(name, labels), others),
    decreases labels.len(),
{
    if labels.len() == 0 {
        assert(labels + others =~= others);
    } else {
        let next = (if name.len() == 0 {
            name
        } else {
            name + seq![0x2eu8]
        }) + small(labels[0]);
        assert((labels + others).drop_first() =~= labels.drop_first() + others);
        lemma_dotted_split(next, labels.drop_first(), others);
    }
}

/// A pointer that leads to itself stands for no name.
pub proof fn law_pointer_to_itself_is_refused(message: Seq<u8>, at: int)
    requires
        0 <= at < 0x4000,
        holds(message, at, pointer(at)),
    ensures
        crate::policy::dns::name_at(message, at) is None,
{
    lemma_circle(message, at, crate::policy::dns::MAX_DNS_NAME_POINTERS as nat);
}

proof fn lemma_circle(message: Seq<u8>, at: int, hops: nat)
    requires
        0 <= at < 0x4000,
        holds(message, at, pointer(at)),
    ensures
        crate::policy::dns::name_from(message, at, hops, Seq::empty()) is None,
    decreases hops,
{
    let part = message.subrange(at, at + 2);
    assert(message[at] == part[0] && message[at + 1] == part[1]);
    if hops > 0 {
        lemma_circle(message, at, (hops - 1) as nat);
    }
}

/// What an answer says.
pub enum AnswerData {
    V4(u32),
    V6(u128),
    /// Another name for the owner.
    Alias(Seq<Seq<u8>>),
    /// A record of another type.
    Other(u16, Seq<u8>),
}

/// An answer: its owner, who is that of the question where none is named; how long it holds; and
/// what it says.
pub struct Answer {
    pub owner: Option<Seq<Seq<u8>>>,
    pub ttl: u32,
    pub data: AnswerData,
}

impl Answer {
    pub open spec fn is_sound(self) -> bool {
        &&& self.owner matches Some(labels) ==> all_host_labels(labels) && name_of(labels).len()
            <= 253
        &&& match self.data {
            AnswerData::Alias(labels) => all_host_labels(labels) && labels.len() > 0 && name_of(
                labels,
            ).len() <= 253 && name_bytes(labels).len() <= 0xffff,
            AnswerData::Other(kind, data) => kind != 1 && kind != 5 && kind != 28 && data.len()
                <= 0xffff,
            _ => true,
        }
    }

    pub open spec fn owner_bytes(self) -> Seq<u8> {
        match self.owner {
            Some(labels) => name_bytes(labels),
            None => pointer(12),
        }
    }

    pub open spec fn kind(self) -> u16 {
        match self.data {
            AnswerData::V4(_) => 1,
            AnswerData::V6(_) => 28,
            AnswerData::Alias(_) => 5,
            AnswerData::Other(kind, _) => kind,
        }
    }

    pub open spec fn data_bytes(self) -> Seq<u8> {
        match self.data {
            AnswerData::V4(address) => long(address),
            AnswerData::V6(address) => wide(address),
            AnswerData::Alias(labels) => name_bytes(labels),
            AnswerData::Other(_, data) => data,
        }
    }

    pub open spec fn fixed_bytes(self) -> Seq<u8> {
        word(self.kind()) + word(1) + long(self.ttl) + word(self.data_bytes().len() as u16)
    }

    pub open spec fn bytes(self) -> Seq<u8> {
        self.owner_bytes() + (self.fixed_bytes() + self.data_bytes())
    }

    /// What the answer says of names and addresses.
    pub open spec fn record(self, question: Seq<u8>) -> Seq<RecordView> {
        let owner = match self.owner {
            Some(labels) => name_of(labels),
            None => question,
        };
        match self.data {
            AnswerData::V4(address) => seq![
                RecordView::Address {
                    owner,
                    address: IpAddr::V4(Ipv4Addr { bits: address }),
                    ttl: self.ttl,
                },
            ],
            AnswerData::V6(address) => seq![
                RecordView::Address {
                    owner,
                    address: IpAddr::V6(Ipv6Addr { bits: address }),
                    ttl: self.ttl,
                },
            ],
            AnswerData::Alias(labels) => seq![
                RecordView::Cname { owner, target: name_of(labels), ttl: self.ttl },
            ],
            AnswerData::Other(_, _) => Seq::empty(),
        }
    }
}

pub open spec fn answer_bytes(answers: Seq<Answer>) -> Seq<u8>
    decreases answers.len(),
{
    if answers.len() == 0 {
        Seq::empty()
    } else {
        answers[0].bytes() + answer_bytes(answers.drop_first())
    }
}

pub open spec fn answer_records(question: Seq<u8>, answers: Seq<Answer>) -> Seq<RecordView>
    decreases answers.len(),
{
    if answers.len() == 0 {
        Seq::empty()
    } else {
        answers[0].record(question) + answer_records(question, answers.drop_first())
    }
}

/// The question for the addresses of a name.
pub open spec fn question_bytes(labels: Seq<Seq<u8>>, kind: u16) -> Seq<u8> {
    name_bytes(labels) + (word(kind) + word(1))
}

/// A response without an error: its number, its question and its answers.
pub open spec fn response_bytes(
    id: u16,
    flags: u16,
    labels: Seq<Seq<u8>>,
    kind: u16,
    answers: Seq<Answer>,
) -> Seq<u8> {
    (word(id) + word(flags) + word(1) + word(answers.len() as u16) + word(0) + word(0)) + (
    question_bytes(labels, kind) + answer_bytes(answers))
}

pub proof fn lemma_word_held(message: Seq<u8>, at: int, number: u16)
    requires
        holds(message, at, word(number)),
    ensures
        crate::bytes::be16(message, at) == number,
{
    let part = message.subrange(at, at + 2);
    assert(message[at] == part[0] && message[at + 1] == part[1]);
}

proof fn lemma_long_held(message: Seq<u8>, at: int, number: u32)
    requires
        holds(message, at, long(number)),
    ensures
        crate::bytes::be32(message, at) == number,
{
    let part = message.subrange(at, at + 4);
    assert(message[at] == part[0] && message[at + 1] == part[1] && message[at + 2] == part[2]
        && message[at + 3] == part[3]);
    assert(crate::bytes::be16(message, at) == number / 0x1_0000);
    assert(crate::bytes::be16(message, at + 2) == number % 0x1_0000);
}

proof fn lemma_wide_held(message: Seq<u8>, at: int, number: u128)
    requires
        holds(message, at, wide(number)),
    ensures
        crate::bytes::be128(message, at) == number,
{
    let before = message.subrange(0, at);
    let after = message.subrange(at + wide(number).len(), message.len() as int);
    assert(before + wide(number) + after =~= message);
    crate::policy::frames::law_numbers_are_read_as_written(before, 0, 0, number, after);
}

proof fn lemma_answer(message: Seq<u8>, at: int, answer: Answer, labels: Seq<Seq<u8>>)
    requires
        holds(message, at, answer.bytes()),
        holds(message, 12, name_bytes(labels)),
        all_host_labels(labels),
        name_of(labels).len() <= 253,
        answer.is_sound(),
    ensures
        crate::policy::dns::record_at(message, at, true) == Some(
            (at + answer.bytes().len(), answer.record(name_of(labels))),
        ),
{
    let owner = answer.owner_bytes();
    let fixed = answer.fixed_bytes();
    let data = answer.data_bytes();
    lemma_holds_parts(message, at, owner, fixed + data);
    lemma_holds_parts(message, at + owner.len(), fixed, data);
    match answer.owner {
        Some(names) => {
            law_name_is_read_label_by_label(message, at, names);
        },
        None => {
            assert(Seq::<Seq<u8>>::empty() + labels =~= labels);
            assert(label_bytes(Seq::empty()) + pointer(12) =~= pointer(12));
            law_name_goes_on_elsewhere(message, at, Seq::empty(), 12, labels);
        },
    }
    let place = at + owner.len();
    let kind = word(answer.kind());
    let length = word(data.len() as u16);
    lemma_data_length(answer);
    lemma_holds_parts(message, place, kind + word(1) + long(answer.ttl), length);
    lemma_holds_parts(message, place, kind + word(1), long(answer.ttl));
    lemma_holds_parts(message, place, kind, word(1));
    lemma_word_held(message, place, answer.kind());
    lemma_word_held(message, place + 2, 1);
    lemma_long_held(message, place + 4, answer.ttl);
    lemma_word_held(message, place + 8, data.len() as u16);
    match answer.data {
        AnswerData::V4(address) => {
            lemma_long_held(message, place + 10, address);
        },
        AnswerData::V6(address) => {
            lemma_wide_held(message, place + 10, address);
        },
        AnswerData::Alias(names) => {
            law_name_is_read_label_by_label(message, place + 10, names);
            lemma_name_is_something(names);
        },
        AnswerData::Other(_, _) => {},
    }
}

proof fn lemma_data_length(answer: Answer)
    requires
        answer.is_sound(),
    ensures
        answer.data_bytes().len() <= 0xffff,
        answer.data matches AnswerData::V4(_) ==> answer.data_bytes().len() == 4,
        answer.data matches AnswerData::V6(_) ==> answer.data_bytes().len() == 16,
{
}

proof fn lemma_name_is_something(labels: Seq<Seq<u8>>)
    requires
        all_host_labels(labels),
        labels.len() > 0,
    ensures
        name_of(labels).len() > 0,
{
    assert(is_host_label(labels[0]));
    lemma_dotted_grows(Seq::empty() + small(labels[0]), labels.drop_first());
}

proof fn lemma_answers(
    message: Seq<u8>,
    at: int,
    answers: Seq<Answer>,
    labels: Seq<Seq<u8>>,
    index: int,
    total: int,
)
    requires
        holds(message, at, answer_bytes(answers)),
        holds(message, 12, name_bytes(labels)),
        all_host_labels(labels),
        name_of(labels).len() <= 253,
        forall|i: int| 0 <= i < answers.len() ==> (#[trigger] answers[i]).is_sound(),
        index + answers.len() == total,
    ensures
        crate::policy::dns::records_from(message, at, index, total, total) == Some(
            (at + answer_bytes(answers).len(), answer_records(name_of(labels), answers)),
        ),
    decreases answers.len(),
{
    if answers.len() > 0 {
        let first = answers[0].bytes();
        let rest = answers.drop_first();
        lemma_holds_parts(message, at, first, answer_bytes(rest));
        lemma_answer(message, at, answers[0], labels);
        assert forall|i: int| 0 <= i < rest.len() implies (#[trigger] rest[i]).is_sound() by {
            assert(rest[i] == answers[i + 1]);
        }
        lemma_answers(message, at + first.len(), rest, labels, index + 1, total);
    }
}

/// A response is read as what it was made of: its number, the name that was asked for, and each
/// address and each alias of its answers with its owner and its lifetime, where an owner may be
/// written out or be a pointer to the question.
pub proof fn law_response_is_read_as_made(
    id: u16,
    flags: u16,
    labels: Seq<Seq<u8>>,
    kind: u16,
    answers: Seq<Answer>,
)
    requires
        flags & 0xf80f == 0x8000,
        kind == 1 || kind == 28,
        all_host_labels(labels),
        labels.len() > 0,
        name_of(labels).len() <= 253,
        answers.len() <= 256,
        forall|i: int| 0 <= i < answers.len() ==> (#[trigger] answers[i]).is_sound(),
        response_bytes(id, flags, labels, kind, answers).len() <= 4096,
    ensures
        crate::policy::dns::response_of(response_bytes(id, flags, labels, kind, answers)) == Some(
            ResponseView {
                id,
                question: name_of(labels),
                answers: answer_records(name_of(labels), answers),
            },
        ),
{
    let message = response_bytes(id, flags, labels, kind, answers);
    let question = question_bytes(labels, kind);
    lemma_head(message, id, flags, answers.len() as u16, question + answer_bytes(answers));
    lemma_holds_parts(message, 12, question, answer_bytes(answers));
    lemma_question(message, labels, kind);
    lemma_answers(message, 12int + question.len(), answers, labels, 0, answers.len() as int);
    lemma_whole_response(
        message,
        id,
        flags,
        name_of(labels),
        12int + question.len(),
        answers.len() as u16,
        answer_records(name_of(labels), answers),
    );
}

proof fn lemma_whole_response(
    message: Seq<u8>,
    id: u16,
    flags: u16,
    question: Seq<u8>,
    tail: int,
    count: u16,
    records: Seq<RecordView>,
)
    requires
        flags & 0xf80f == 0x8000,
        12 <= message.len() <= 4096,
        count <= 256,
        crate::bytes::be16(message, 0) == id,
        crate::bytes::be16(message, 2) == flags,
        crate::bytes::be16(message, 4) == 1,
        crate::bytes::be16(message, 6) == count,
        crate::bytes::be16(message, 8) == 0,
        crate::bytes::be16(message, 10) == 0,
        crate::policy::dns::question_of(message) == Some((question, tail)),
        crate::policy::dns::records_from(message, tail, 0, count as int, count as int) == Some(
            (message.len() as int, records),
        ),
    ensures
        crate::policy::dns::response_of(message) == Some(
            ResponseView { id, question, answers: records },
        ),
{
    assert(flags >= 0x8000 && flags / 0x800 % 16 == 0 && flags % 16 == 0) by (bit_vector)
        requires
            flags & 0xf80f == 0x8000,
    ;
}

proof fn lemma_head(message: Seq<u8>, id: u16, flags: u16, count: u16, rest: Seq<u8>)
    requires
        message == (word(id) + word(flags) + word(1) + word(count) + word(0) + word(0)) + rest,
    ensures
        holds(message, 12, rest),
        crate::bytes::be16(message, 0) == id,
        crate::bytes::be16(message, 2) == flags,
        crate::bytes::be16(message, 4) == 1,
        crate::bytes::be16(message, 6) == count,
        crate::bytes::be16(message, 8) == 0,
        crate::bytes::be16(message, 10) == 0,
        message.len() == 12 + rest.len(),
{
    assert(message.subrange(12, message.len() as int) =~= rest);
    assert(message[0] == word(id)[0] && message[1] == word(id)[1]);
    assert(message[2] == word(flags)[0] && message[3] == word(flags)[1]);
    assert(message[4] == 0 && message[5] == 1);
    assert(message[6] == word(count)[0] && message[7] == word(count)[1]);
    assert(message[8] == 0 && message[9] == 0 && message[10] == 0 && message[11] == 0);
}

pub(crate) proof fn lemma_question(message: Seq<u8>, labels: Seq<Seq<u8>>, kind: u16)
    requires
        holds(message, 12, question_bytes(labels, kind)),
        kind == 1 || kind == 28,
        all_host_labels(labels),
        labels.len() > 0,
        name_of(labels).len() <= 253,
    ensures
        crate::policy::dns::question_of(message) == Some(
            (name_of(labels), 12int + question_bytes(labels, kind).len()),
        ),
        holds(message, 12, name_bytes(labels)),
{
    let name = name_bytes(labels);
    lemma_holds_parts(message, 12, name, word(kind) + word(1));
    lemma_holds_parts(message, 12int + name.len(), word(kind), word(1));
    law_name_is_read_label_by_label(message, 12, labels);
    lemma_name_is_something(labels);
    lemma_word_held(message, 12int + name.len(), kind);
    lemma_word_held(message, 14int + name.len(), 1);
}

/// A query for the addresses of a name is read as its number and that name.
pub proof fn law_query_is_read_as_made(id: u16, flags: u16, labels: Seq<Seq<u8>>, kind: u16)
    requires
        flags & 0xf800 == 0,
        kind == 1 || kind == 28,
        all_host_labels(labels),
        labels.len() > 0,
        name_of(labels).len() <= 253,
        question_bytes(labels, kind).len() <= 4084,
    ensures
        crate::policy::dns::query_of(
            (word(id) + word(flags) + word(1) + word(0) + word(0) + word(0)) + question_bytes(
                labels,
                kind,
            ),
        ) == Some((id, name_of(labels))),
{
    let question = question_bytes(labels, kind);
    let message = (word(id) + word(flags) + word(1) + word(0) + word(0) + word(0)) + question;
    lemma_head(message, id, flags, 0, question);
    lemma_question(message, labels, kind);
    assert(flags < 0x8000 && flags / 0x800 % 16 == 0) by (bit_vector)
        requires
            flags & 0xf800 == 0,
    ;
}

} // verus!
