//! A `ClientHello` that is put together is read as the server name that was put into it, however
//! it is cut into records.

use vstd::prelude::*;

use crate::policy::frames::word;
use crate::policy::names::{holds, is_host_label, small};
use crate::policy::tls::TlsParseView;
use crate::policy::DenyReason;

verus! {

/// Labels with a dot between any two.
pub open spec fn joined(labels: Seq<Seq<u8>>) -> Seq<u8>
    decreases labels.len(),
{
    if labels.len() == 0 {
        Seq::empty()
    } else if labels.len() == 1 {
        labels[0]
    } else {
        labels[0] + seq![0x2eu8] + joined(labels.drop_first())
    }
}

proof fn lemma_label_has_no_dot(label: Seq<u8>)
    requires
        is_host_label(label),
    ensures
        forall|i: int| 0 <= i < label.len() ==> #[trigger] label[i] != 0x2e,
        crate::policy::domain::is_label(label),
{
    assert(label[0] == label.first());
    assert(label[label.len() - 1] == label.last());
}

proof fn lemma_label_end_at(name: Seq<u8>, from: int, end: int)
    requires
        0 <= from <= end <= name.len(),
        forall|i: int| from <= i < end ==> #[trigger] name[i] != 0x2e,
        end == name.len() || name[end] == 0x2e,
    ensures
        crate::policy::domain::label_end(name, from) == end,
    decreases end - from,
{
    if from < end {
        lemma_label_end_at(name, from + 1, end);
    }
}

proof fn lemma_joined_labels(name: Seq<u8>, from: int, labels: Seq<Seq<u8>>)
    requires
        0 <= from,
        labels.len() > 0,
        crate::policy::names::all_host_labels(labels),
        from + joined(labels).len() == name.len(),
        name.subrange(from, name.len() as int) == joined(labels),
    ensures
        crate::policy::domain::labels_valid(name, from),
    decreases labels.len(),
{
    let label = labels[0];
    let end = from + label.len();
    let rest = name.subrange(from, name.len() as int);
    assert(is_host_label(label));
    lemma_label_has_no_dot(label);
    assert forall|i: int| from <= i < end implies #[trigger] name[i] != 0x2e by {
        assert(name[i] == rest[i - from]);
        assert(rest[i - from] == label[i - from]);
    }
    if labels.len() > 1 {
        assert(name[end] == rest[end - from]);
    }
    lemma_label_end_at(name, from, end);
    assert(name.subrange(from, end) =~= label) by {
        assert(name.subrange(from, end) =~= rest.subrange(0, label.len() as int));
    }
    if labels.len() > 1 {
        let others = labels.drop_first();
        assert forall|i: int| 0 <= i < others.len() implies is_host_label(#[trigger] others[i]) by {
            assert(others[i] == labels[i + 1]);
        }
        assert(name.subrange(end + 1, name.len() as int) =~= joined(others)) by {
            assert(name.subrange(end + 1, name.len() as int) =~= rest.subrange(
                label.len() + 1int,
                rest.len() as int,
            ));
        }
        lemma_joined_labels(name, end + 1, others);
    }
}

/// Labels that are joined by dots are a domain name, whose one form is in small letters.
pub proof fn law_joined_labels_are_a_name(labels: Seq<Seq<u8>>)
    requires
        labels.len() > 0,
        crate::policy::names::all_host_labels(labels),
        joined(labels).len() <= 253,
    ensures
        crate::policy::domain::normalized(joined(labels)) == Some(small(joined(labels))),
{
    let name = joined(labels);
    assert(is_host_label(labels[0]));
    assert(name.subrange(0, name.len() as int) =~= name);
    lemma_joined_labels(name, 0, labels);
    assert(small(name) =~= crate::policy::domain::lowercase(name));
}

/// What is no letter, digit, hyphen or dot, an empty label, a label with a hyphen at its end, or a
/// label or a name that is too long makes no domain name.
pub proof fn law_broken_names_are_refused(name: Seq<u8>, i: int)
    requires
        name.len() == 0 || name.len() > 253 || (0 <= i < name.len() && !(0x30 <= name[i] <= 0x39
            || 0x41 <= name[i] <= 0x5a || 0x61 <= name[i] <= 0x7a || name[i] == 0x2d || name[i]
            == 0x2e)) || (0 <= i < name.len() - 1 && name[i] == 0x2e && name[i + 1] == 0x2e) || (
        name.len() > 0 && (name[0] == 0x2e || name[0] == 0x2d || name.last() == 0x2e || name.last()
            == 0x2d)),
    ensures
        crate::policy::domain::normalized(name) is None,
{
    if 0 < name.len() <= 253 {
        if crate::policy::domain::labels_valid(name, 0) {
            lemma_valid_labels(name, 0);
        }
    }
}

proof fn lemma_valid_labels(name: Seq<u8>, from: int)
    requires
        0 <= from <= name.len(),
        crate::policy::domain::labels_valid(name, from),
    ensures
        from < name.len(),
        name[from] != 0x2e && name[from] != 0x2d,
        name.last() != 0x2e && name.last() != 0x2d,
        forall|i: int|
            from <= i < name.len() ==> 0x30 <= #[trigger] name[i] <= 0x39 || 0x41 <= name[i] <= 0x5a
                || 0x61 <= name[i] <= 0x7a || name[i] == 0x2d || name[i] == 0x2e,
        forall|i: int|
            from <= i < name.len() - 1 && name[i] == 0x2e ==> #[trigger] name[i + 1] != 0x2e,
    decreases name.len() - from,
{
    let end = crate::policy::domain::label_end(name, from);
    lemma_label_end_bounds(name, from);
    let label = name.subrange(from, end);
    assert(crate::policy::domain::is_label(label));
    assert(label[0] == name[from]);
    assert(label[label.len() - 1] == name[end - 1]);
    assert forall|i: int| from <= i < end implies 0x30 <= #[trigger] name[i] <= 0x39 || 0x41
        <= name[i] <= 0x5a || 0x61 <= name[i] <= 0x7a || name[i] == 0x2d by {
        assert(crate::policy::domain::is_label_byte(label[i - from]));
    }
    if end < name.len() {
        lemma_valid_labels(name, end + 1);
    }
}

proof fn lemma_label_end_bounds(name: Seq<u8>, from: int)
    requires
        0 <= from <= name.len(),
    ensures
        from <= crate::policy::domain::label_end(name, from) <= name.len(),
        crate::policy::domain::label_end(name, from) < name.len()
            ==> name[crate::policy::domain::label_end(name, from)] == 0x2e,
    decreases name.len() - from,
{
    if from < name.len() && name[from] != 0x2e {
        lemma_label_end_bounds(name, from + 1);
    }
}

/// An extension of a hello: its type and its data.
pub open spec fn extension_bytes(extension: (u16, Seq<u8>)) -> Seq<u8> {
    word(extension.0) + word(extension.1.len() as u16) + extension.1
}

pub open spec fn extensions_bytes(extensions: Seq<(u16, Seq<u8>)>) -> Seq<u8>
    decreases extensions.len(),
{
    if extensions.len() == 0 {
        Seq::empty()
    } else {
        extension_bytes(extensions[0]) + extensions_bytes(extensions.drop_first())
    }
}

/// The data of a server name extension with one host name.
pub open spec fn host_name(name: Seq<u8>) -> Seq<u8> {
    word((3 + name.len()) as u16) + (seq![0u8] + word(name.len() as u16) + name)
}

/// Whether an extension carries an encrypted hello.
pub open spec fn is_encrypted(extension: (u16, Seq<u8>)) -> bool {
    extension.0 == 0xfe0d || extension.0 == 0xffce
}

pub open spec fn any_encrypted(extensions: Seq<(u16, Seq<u8>)>) -> bool {
    exists|i: int| 0 <= i < extensions.len() && is_encrypted(#[trigger] extensions[i])
}

/// The body of a hello.
pub open spec fn hello_body(
    minor: u8,
    random: Seq<u8>,
    session: Seq<u8>,
    ciphers: Seq<u8>,
    compressions: Seq<u8>,
    extensions: Seq<(u16, Seq<u8>)>,
) -> Seq<u8> {
    (seq![3u8, minor] + random + seq![session.len() as u8]) + session + word(ciphers.len() as u16)
        + ciphers + seq![compressions.len() as u8] + compressions + word(
        extensions_bytes(extensions).len() as u16,
    ) + extensions_bytes(extensions)
}

pub open spec fn is_hello(
    random: Seq<u8>,
    session: Seq<u8>,
    ciphers: Seq<u8>,
    compressions: Seq<u8>,
    extensions: Seq<(u16, Seq<u8>)>,
) -> bool {
    &&& random.len() == 32
    &&& session.len() <= 255
    &&& 2 <= ciphers.len() <= 0xfffe && ciphers.len() % 2 == 0
    &&& compressions.len() <= 255
    &&& extensions_bytes(extensions).len() <= 0xffff
    &&& forall|i: int| 0 <= i < extensions.len() ==> (#[trigger] extensions[i]).1.len() <= 0xffff
}

proof fn lemma_host_name(name: Seq<u8>, canonical: Seq<u8>)
    requires
        crate::policy::domain::normalized(name) == Some(canonical),
    ensures
        crate::policy::tls::server_name(host_name(name)) == Ok::<Option<Seq<u8>>, DenyReason>(
            Some(canonical),
        ),
{
    let data = host_name(name);
    assert(data[0] == word((3 + name.len()) as u16)[0]);
    assert(data[1] == word((3 + name.len()) as u16)[1]);
    assert(data[2] == 0);
    assert(data[3] == word(name.len() as u16)[0]);
    assert(data[4] == word(name.len() as u16)[1]);
    assert(crate::bytes::be16(data, 0) == data.len() - 2);
    assert(crate::bytes::be16(data, 3) == name.len());
    assert(data.subrange(5, data.len() as int) =~= name);
    assert(crate::policy::tls::server_names_from(data, data.len() as int, Some(canonical)) == Ok::<
        Option<Seq<u8>>,
        DenyReason,
    >(Some(canonical)));
}

/// The extensions behind a place say what they are put together from.
proof fn lemma_extensions(
    body: Seq<u8>,
    at: int,
    extensions: Seq<(u16, Seq<u8>)>,
    place: int,
    name: Seq<u8>,
    canonical: Seq<u8>,
    sni: Option<Option<Seq<u8>>>,
    ech: bool,
)
    requires
        holds(body, at, extensions_bytes(extensions)),
        at + extensions_bytes(extensions).len() == body.len(),
        forall|i: int|
            0 <= i < extensions.len() ==> (#[trigger] extensions[i]).1.len() <= 0xffff,
        forall|i: int|
            0 <= i < extensions.len() && i != place ==> (#[trigger] extensions[i]).0 != 0,
        0 <= place < extensions.len() ==> extensions[place] == (0u16, host_name(name)) && sni
            is None && crate::policy::domain::normalized(name) == Some(canonical),
    ensures
        crate::policy::tls::extensions_from(body, at, sni, ech) == Ok::<TlsParseView, DenyReason>(
            TlsParseView::ClientHello {
                sni: if 0 <= place < extensions.len() {
                    Some(canonical)
                } else {
                    match sni {
                        Some(host) => host,
                        None => None,
                    }
                },
                ech: ech || any_encrypted(extensions),
            },
        ),
    decreases extensions.len(),
{
    if extensions.len() > 0 {
        let first = extensions[0];
        let rest = extensions.drop_first();
        let head = word(first.0) + word(first.1.len() as u16);
        crate::policy::names::lemma_holds_parts(
            body,
            at,
            extension_bytes(first),
            extensions_bytes(rest),
        );
        crate::policy::names::lemma_holds_parts(body, at, head, first.1);
        crate::policy::names::lemma_holds_parts(
            body,
            at,
            word(first.0),
            word(first.1.len() as u16),
        );
        crate::policy::names::lemma_word_held(body, at, first.0);
        crate::policy::names::lemma_word_held(body, at + 2, first.1.len() as u16);
        assert forall|i: int| 0 <= i < rest.len() implies (#[trigger] rest[i]).1.len() <= 0xffff by {
            assert(rest[i] == extensions[i + 1]);
        }
        assert forall|i: int| 0 <= i < rest.len() && i != place - 1 implies (#[trigger] rest[i]).0
            != 0 by {
            assert(rest[i] == extensions[i + 1]);
        }
        if any_encrypted(extensions) {
            let i = choose|i: int| 0 <= i < extensions.len() && is_encrypted(#[trigger] extensions[i]);
            if i > 0 {
                assert(rest[i - 1] == extensions[i]);
            }
        }
        if any_encrypted(rest) {
            let i = choose|i: int| 0 <= i < rest.len() && is_encrypted(#[trigger] rest[i]);
            assert(extensions[i + 1] == rest[i]);
        }
        assert(any_encrypted(extensions) == (is_encrypted(first) || any_encrypted(rest)));
        let end = at + extension_bytes(first).len();
        if place == 0 {
            lemma_host_name(name, canonical);
            lemma_extensions(body, end, rest, -1, name, canonical, Some(Some(canonical)), ech);
        } else {
            if 0 < place < extensions.len() {
                assert(rest[place - 1] == extensions[place]);
            }
            lemma_extensions(
                body,
                end,
                rest,
                place - 1,
                name,
                canonical,
                sni,
                ech || is_encrypted(first),
            );
        }
    } else {
        assert(!any_encrypted(extensions));
    }
}

proof fn lemma_body(
    body: Seq<u8>,
    front: Seq<u8>,
    session: Seq<u8>,
    ciphers: Seq<u8>,
    compressions: Seq<u8>,
    list: Seq<u8>,
)
    requires
        front.len() == 35,
        front[0] == 3,
        front[34] == session.len(),
        2 <= ciphers.len() <= 0xfffe,
        ciphers.len() % 2 == 0,
        compressions.len() <= 255,
        list.len() <= 0xffff,
        body == front + session + word(ciphers.len() as u16) + ciphers + seq![
            compressions.len() as u8,
        ] + compressions + word(list.len() as u16) + list,
    ensures
        crate::policy::tls::hello_layout_valid(body),
        holds(body, crate::policy::tls::extensions_at(body) + 2, list),
        crate::policy::tls::extensions_at(body) + 2 + list.len() == body.len(),
{
    let a = 35 + session.len() as int;
    let b = a + 2 + ciphers.len();
    let c = b + 1 + compressions.len();
    assert(body[0] == 3);
    assert(body[34] == session.len());
    assert(body[a] == word(ciphers.len() as u16)[0]);
    assert(body[a + 1] == word(ciphers.len() as u16)[1]);
    assert(crate::bytes::be16(body, a) == ciphers.len());
    assert(body[b] == compressions.len());
    assert(body[c] == word(list.len() as u16)[0]);
    assert(body[c + 1] == word(list.len() as u16)[1]);
    assert(crate::bytes::be16(body, c) == list.len());
    assert(body.subrange(c + 2, body.len() as int) =~= list);
}

/// A hello states the one server name among its extensions, in small letters, wherever it stands
/// among them, and whether a hello is encrypted in it; one without a server name states none.
pub proof fn law_hello_states_its_name(
    minor: u8,
    random: Seq<u8>,
    session: Seq<u8>,
    ciphers: Seq<u8>,
    compressions: Seq<u8>,
    extensions: Seq<(u16, Seq<u8>)>,
    place: int,
    labels: Seq<Seq<u8>>,
)
    requires
        is_hello(random, session, ciphers, compressions, extensions),
        labels.len() > 0,
        crate::policy::names::all_host_labels(labels),
        joined(labels).len() <= 253,
        forall|i: int|
            0 <= i < extensions.len() && i != place ==> (#[trigger] extensions[i]).0 != 0,
        0 <= place < extensions.len() ==> extensions[place] == (0u16, host_name(joined(labels))),
    ensures
        crate::policy::tls::client_hello(
            hello_body(minor, random, session, ciphers, compressions, extensions),
        ) == Ok::<TlsParseView, DenyReason>(
            TlsParseView::ClientHello {
                sni: if 0 <= place < extensions.len() {
                    Some(small(joined(labels)))
                } else {
                    None
                },
                ech: any_encrypted(extensions),
            },
        ),
{
    let body = hello_body(minor, random, session, ciphers, compressions, extensions);
    let front = seq![3u8, minor] + random + seq![session.len() as u8];
    let list = extensions_bytes(extensions);
    assert(front[34] == session.len());
    lemma_body(body, front, session, ciphers, compressions, list);
    law_joined_labels_are_a_name(labels);
    lemma_extensions(
        body,
        crate::policy::tls::extensions_at(body) + 2,
        extensions,
        place,
        joined(labels),
        small(joined(labels)),
        None,
        false,
    );
}

/// A second server name extension makes a hello invalid.
pub proof fn law_two_server_names_are_refused(
    body: Seq<u8>,
    at: int,
    name: Seq<u8>,
    host: Option<Seq<u8>>,
    ech: bool,
)
    requires
        holds(body, at, extension_bytes((0u16, host_name(name)))),
        name.len() <= 253,
    ensures
        crate::policy::tls::extensions_from(body, at, Some(host), ech) == Err::<
            TlsParseView,
            DenyReason,
        >(DenyReason::TlsInvalid),
{
    let data = host_name(name);
    let head = word(0) + word(data.len() as u16);
    crate::policy::names::lemma_holds_parts(body, at, head, data);
    crate::policy::names::lemma_holds_parts(body, at, word(0), word(data.len() as u16));
    crate::policy::names::lemma_word_held(body, at, 0);
    crate::policy::names::lemma_word_held(body, at + 2, data.len() as u16);
}

/// A handshake message.
pub open spec fn handshake_bytes(kind: u8, body: Seq<u8>) -> Seq<u8> {
    seq![
        kind,
        (body.len() / 0x1_0000) as u8,
        (body.len() / 0x100 % 0x100) as u8,
        (body.len() % 0x100) as u8,
    ] + body
}

/// Handshake records that carry some pieces.
pub open spec fn records_bytes(minor: u8, pieces: Seq<Seq<u8>>) -> Seq<u8>
    decreases pieces.len(),
{
    if pieces.len() == 0 {
        Seq::empty()
    } else {
        (seq![22u8, 3u8, minor] + word(pieces[0].len() as u16) + pieces[0]) + records_bytes(
            minor,
            pieces.drop_first(),
        )
    }
}

pub open spec fn put_together(pieces: Seq<Seq<u8>>) -> Seq<u8>
    decreases pieces.len(),
{
    if pieces.len() == 0 {
        Seq::empty()
    } else {
        pieces[0] + put_together(pieces.drop_first())
    }
}

proof fn lemma_records(
    stream: Seq<u8>,
    at: int,
    before: Seq<u8>,
    minor: u8,
    pieces: Seq<Seq<u8>>,
    body: Seq<u8>,
)
    requires
        holds(stream, at, records_bytes(minor, pieces)),
        pieces.len() > 0,
        forall|i: int| 0 <= i < pieces.len() ==> 0 < (#[trigger] pieces[i]).len() <= 18432,
        before + put_together(pieces) == handshake_bytes(1, body),
        body.len() <= 65532,
    ensures
        crate::policy::tls::hello_from(stream, at, before) == crate::policy::tls::client_hello(body),
    decreases pieces.len(),
{
    let message = handshake_bytes(1, body);
    let piece = pieces[0];
    let rest = pieces.drop_first();
    let head = seq![22u8, 3u8, minor] + word(piece.len() as u16);
    assert(0 < piece.len() <= 18432);
    crate::policy::names::lemma_holds_parts(
        stream,
        at,
        head + piece,
        records_bytes(minor, rest),
    );
    crate::policy::names::lemma_holds_parts(stream, at, head, piece);
    let front = stream.subrange(at, at + 5);
    assert(front == head);
    assert(stream[at] == front[0] && stream[at + 1] == front[1] && stream[at + 3] == front[3]
        && stream[at + 4] == front[4]);
    assert(crate::bytes::be16(stream, at + 3) == piece.len());
    let after = before + piece;
    assert(after + put_together(rest) =~= before + put_together(pieces));
    assert forall|i: int| 0 <= i < after.len() implies after[i] == message[i] by {
        assert((after + put_together(rest))[i] == message[i]);
    }
    assert forall|i: int| 0 <= i < rest.len() implies 0 < (#[trigger] rest[i]).len() <= 18432 by {
        assert(rest[i] == pieces[i + 1]);
    }
    if after.len() >= 4 {
        assert(after[0] == 1);
        assert(after[1] == message[1] && after[2] == message[2] && after[3] == message[3]);
        assert(crate::policy::tls::handshake_len(after) == body.len());
    }
    if rest.len() == 0 {
        assert(put_together(rest) =~= Seq::empty());
        assert(after =~= message);
        assert(message.subrange(4, 4 + body.len() as int) =~= body);
    } else {
        assert(put_together(rest).len() > 0) by {
            assert(rest[0] == pieces[1]);
        }
        assert(after.len() < message.len());
        lemma_records(stream, at + head.len() + piece.len(), after, minor, rest, body);
    }
}

/// A hello says the same however it is cut into records.
pub proof fn law_hello_may_be_cut_into_records(minor: u8, pieces: Seq<Seq<u8>>, body: Seq<u8>)
    requires
        pieces.len() > 0,
        forall|i: int| 0 <= i < pieces.len() ==> 0 < (#[trigger] pieces[i]).len() <= 18432,
        put_together(pieces) == handshake_bytes(1, body),
        body.len() <= 65532,
    ensures
        crate::policy::tls::tls_hello(records_bytes(minor, pieces))
            == crate::policy::tls::client_hello(body),
{
    let stream = records_bytes(minor, pieces);
    assert(stream.subrange(0, stream.len() as int) =~= stream);
    assert(Seq::<u8>::empty() + put_together(pieces) =~= put_together(pieces));
    lemma_records(stream, 0, Seq::empty(), minor, pieces, body);
}

/// What does not begin as a handshake of TLS is refused as soon as its first record can be read.
pub proof fn law_other_protocols_are_refused(stream: Seq<u8>)
    requires
        stream.len() >= 5,
        stream[0] != 22 || stream[1] != 3,
    ensures
        crate::policy::tls::tls_hello(stream) == Err::<TlsParseView, DenyReason>(
            DenyReason::TlsInvalid,
        ),
{
}

} // verus!
