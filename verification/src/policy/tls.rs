//! The TLS `ClientHello`, read from the first bytes of a connection for its server name.

use vstd::prelude::*;
use vstd::slice::*;

use crate::bytes::{append_bytes, read_be16};
use crate::policy::domain::normalize_domain;
use crate::policy::DenyReason;

verus! {

pub const MAX_TLS_RECORD: usize = 18 * 1024;

pub const MAX_TLS_BUFFER_HARD: usize = 64 * 1024;

pub const RECORD_HANDSHAKE: u8 = 22;

pub const TLS_MAJOR: u8 = 3;

pub const HANDSHAKE_CLIENT_HELLO: u8 = 1;

pub const EXTENSION_SERVER_NAME: u16 = 0;

/// The two extension types under which a `ClientHello` carries an encrypted one.
pub const EXTENSION_ECH: u16 = 0xfe0d;

pub const EXTENSION_ESNI: u16 = 0xffce;

/// What the bytes seen so far say.
pub enum TlsParse {
    NeedMore,
    ClientHello { sni: Option<Vec<u8>>, ech: bool },
}

pub enum TlsParseView {
    NeedMore,
    ClientHello { sni: Option<Seq<u8>>, ech: bool },
}

pub open spec fn name_view(name: Option<Vec<u8>>) -> Option<Seq<u8>> {
    match name {
        Some(bytes) => Some(bytes@),
        None => None,
    }
}

impl View for TlsParse {
    type V = TlsParseView;

    open spec fn view(&self) -> TlsParseView {
        match *self {
            TlsParse::NeedMore => TlsParseView::NeedMore,
            TlsParse::ClientHello { sni, ech } => TlsParseView::ClientHello {
                sni: name_view(sni),
                ech,
            },
        }
    }
}

/// The view of a parse that may have been refused.
pub open spec fn parse_view(parsed: Result<TlsParse, DenyReason>) -> Result<
    TlsParseView,
    DenyReason,
> {
    match parsed {
        Ok(parse) => Ok(parse@),
        Err(reason) => Err(reason),
    }
}

/// A 16-bit length at a position.
pub open spec fn tls_u16(bytes: Seq<u8>, at: int) -> Option<int> {
    if 0 <= at && at + 2 <= bytes.len() {
        Some(crate::bytes::be16(bytes, at) as int)
    } else {
        None
    }
}

/// Reads a 16-bit length.
pub fn read_tls_u16(bytes: &[u8], cursor: usize) -> (value: Option<usize>)
    ensures
        match value {
            Some(number) => tls_u16(bytes@, cursor as int) == Some(number as int) && number
                <= 0xffff && cursor + 2 <= bytes@.len(),
            None => tls_u16(bytes@, cursor as int) is None,
        },
{
    if cursor > bytes.len() || bytes.len() - cursor < 2 {
        return None;
    }
    Some(read_be16(bytes, cursor) as usize)
}

/// The entries of a server name list from `cursor` on, behind a host name already seen: the one
/// host name of the whole list, if it has one.  `Err` is a broken list, a second host name or one
/// that is no domain name.
pub open spec fn server_names_from(list: Seq<u8>, cursor: int, host: Option<Seq<u8>>) -> Result<
    Option<Seq<u8>>,
    DenyReason,
>
    decreases list.len() - cursor,
{
    if cursor >= list.len() || cursor < 0 {
        Ok(host)
    } else {
        match tls_u16(list, cursor + 1) {
            None => Err(DenyReason::TlsInvalid),
            Some(length) => {
                let start = cursor + 3;
                let end = start + length;
                if end > list.len() {
                    Err(DenyReason::TlsInvalid)
                } else if list[cursor] != 0 {
                    server_names_from(list, end, host)
                } else {
                    match crate::policy::domain::normalized(list.subrange(start, end)) {
                        Some(name) => if host is None {
                            server_names_from(list, end, Some(name))
                        } else {
                            Err(DenyReason::TlsInvalid)
                        },
                        None => Err(DenyReason::TlsInvalid),
                    }
                }
            },
        }
    }
}

/// The host name of a server name extension.
pub open spec fn server_name(extension: Seq<u8>) -> Result<Option<Seq<u8>>, DenyReason> {
    if tls_u16(extension, 0) != Some(extension.len() - 2) {
        Err(DenyReason::TlsInvalid)
    } else {
        server_names_from(extension, 2, None)
    }
}

/// Reads a server name extension.
pub fn parse_sni_extension(extension: &[u8]) -> (parsed: Result<Option<Vec<u8>>, DenyReason>)
    ensures
        match parsed {
            Ok(host) => server_name(extension@) == Ok::<Option<Seq<u8>>, DenyReason>(
                name_view(host),
            ),
            Err(reason) => server_name(extension@) == Err::<Option<Seq<u8>>, DenyReason>(reason),
        },
{
    if extension.len() < 2 {
        return Err(DenyReason::TlsInvalid);
    }
    let list_len: usize = read_be16(extension, 0) as usize;
    if list_len != extension.len() - 2 {
        return Err(DenyReason::TlsInvalid);
    }
    let mut cursor: usize = 2;
    let mut host: Option<Vec<u8>> = None;
    while cursor < extension.len()
        invariant
            cursor <= extension@.len(),
            server_name(extension@) == server_names_from(
                extension@,
                cursor as int,
                name_view(host),
            ),
        decreases extension@.len() - cursor,
    {
        let name_type: u8 = extension[cursor];
        let name_len: usize = match read_tls_u16(extension, cursor + 1) {
            Some(length) => length,
            None => {
                return Err(DenyReason::TlsInvalid);
            },
        };
        let start: usize = cursor + 3;
        if name_len > extension.len() - start {
            return Err(DenyReason::TlsInvalid);
        }
        let end: usize = start + name_len;
        if name_type == 0 {
            if host.is_some() {
                return Err(DenyReason::TlsInvalid);
            }
            match normalize_domain(slice_subrange(extension, start, end)) {
                Some(name) => {
                    host = Some(name);
                },
                None => {
                    return Err(DenyReason::TlsInvalid);
                },
            }
        }
        cursor = end;
    }
    Ok(host)
}

/// The extensions of a `ClientHello` from `cursor` on, behind what has been seen so far: `sni` is
/// the outcome of a server name extension already met, `ech` whether an encrypted `ClientHello`
/// was.
pub open spec fn extensions_from(
    body: Seq<u8>,
    cursor: int,
    sni: Option<Option<Seq<u8>>>,
    ech: bool,
) -> Result<TlsParseView, DenyReason>
    decreases body.len() - cursor,
{
    if cursor >= body.len() || cursor < 0 {
        Ok(
            TlsParseView::ClientHello {
                sni: match sni {
                    Some(host) => host,
                    None => None,
                },
                ech,
            },
        )
    } else {
        match (tls_u16(body, cursor), tls_u16(body, cursor + 2)) {
            (Some(kind), Some(length)) => {
                let start = cursor + 4;
                let end = start + length;
                if end > body.len() {
                    Err(DenyReason::TlsInvalid)
                } else if kind == EXTENSION_SERVER_NAME {
                    if sni is Some {
                        Err(DenyReason::TlsInvalid)
                    } else {
                        match server_name(body.subrange(start, end)) {
                            Ok(host) => extensions_from(body, end, Some(host), ech),
                            Err(reason) => Err(reason),
                        }
                    }
                } else if kind == EXTENSION_ECH || kind == EXTENSION_ESNI {
                    extensions_from(body, end, sni, true)
                } else {
                    extensions_from(body, end, sni, ech)
                }
            },
            _ => Err(DenyReason::TlsInvalid),
        }
    }
}

/// Where the cipher suites of a `ClientHello` begin: behind the version, the random bytes and the
/// session identifier.
pub open spec fn cipher_suites_at(body: Seq<u8>) -> int {
    35 + body[34]
}

/// Where the compression methods begin.
pub open spec fn compressions_at(body: Seq<u8>) -> int {
    cipher_suites_at(body) + 2 + crate::bytes::be16(body, cipher_suites_at(body))
}

/// Where the length of the extensions stands.
pub open spec fn extensions_at(body: Seq<u8>) -> int {
    compressions_at(body) + 1 + body[compressions_at(body)]
}

/// Whether the fixed part of a `ClientHello` is well formed and its extensions reach exactly to
/// its end.
pub open spec fn hello_layout_valid(body: Seq<u8>) -> bool {
    &&& body.len() > 34
    &&& body[0] == TLS_MAJOR
    &&& cipher_suites_at(body) + 2 <= body.len()
    &&& crate::bytes::be16(body, cipher_suites_at(body)) >= 2
    &&& crate::bytes::be16(body, cipher_suites_at(body)) % 2 == 0
    &&& compressions_at(body) < body.len()
    &&& extensions_at(body) + 2 <= body.len()
    &&& extensions_at(body) + 2 + crate::bytes::be16(body, extensions_at(body)) == body.len()
}

pub open spec fn client_hello(body: Seq<u8>) -> Result<TlsParseView, DenyReason> {
    if hello_layout_valid(body) {
        extensions_from(body, extensions_at(body) + 2, None, false)
    } else {
        Err(DenyReason::TlsInvalid)
    }
}

spec fn sni_view(sni: Option<Option<Vec<u8>>>) -> Option<Option<Seq<u8>>> {
    match sni {
        Some(host) => Some(name_view(host)),
        None => None,
    }
}

/// Reads the body of a `ClientHello`.
pub fn parse_client_hello_body(body: &[u8]) -> (parsed: Result<TlsParse, DenyReason>)
    ensures
        parse_view(parsed) == client_hello(body@),
{
    if body.len() < 35 || body[0] != TLS_MAJOR {
        return Err(DenyReason::TlsInvalid);
    }
    let mut cursor: usize = 35 + body[34] as usize;
    let cipher_len: usize = match read_tls_u16(body, cursor) {
        Some(length) => length,
        None => {
            return Err(DenyReason::TlsInvalid);
        },
    };
    if cipher_len < 2 || cipher_len % 2 != 0 {
        return Err(DenyReason::TlsInvalid);
    }
    cursor = cursor + 2 + cipher_len;
    if cursor >= body.len() {
        return Err(DenyReason::TlsInvalid);
    }
    cursor = cursor + 1 + body[cursor] as usize;
    let all_extensions_len: usize = match read_tls_u16(body, cursor) {
        Some(length) => length,
        None => {
            return Err(DenyReason::TlsInvalid);
        },
    };
    cursor = cursor + 2;
    if all_extensions_len != body.len() - cursor {
        return Err(DenyReason::TlsInvalid);
    }
    let mut sni: Option<Option<Vec<u8>>> = None;
    let mut ech = false;
    while cursor < body.len()
        invariant
            cursor <= body@.len(),
            client_hello(body@) == extensions_from(body@, cursor as int, sni_view(sni), ech),
        decreases body@.len() - cursor,
    {
        let kind: usize = match read_tls_u16(body, cursor) {
            Some(kind) => kind,
            None => {
                return Err(DenyReason::TlsInvalid);
            },
        };
        let item_len: usize = match read_tls_u16(body, cursor + 2) {
            Some(length) => length,
            None => {
                return Err(DenyReason::TlsInvalid);
            },
        };
        let start: usize = cursor + 4;
        if item_len > body.len() - start {
            return Err(DenyReason::TlsInvalid);
        }
        let end: usize = start + item_len;
        if kind == EXTENSION_SERVER_NAME as usize {
            if sni.is_some() {
                return Err(DenyReason::TlsInvalid);
            }
            match parse_sni_extension(slice_subrange(body, start, end)) {
                Ok(host) => {
                    sni = Some(host);
                },
                Err(reason) => {
                    return Err(reason);
                },
            }
        } else if kind == EXTENSION_ECH as usize || kind == EXTENSION_ESNI as usize {
            ech = true;
        }
        cursor = end;
    }
    let host: Option<Vec<u8>> = match sni {
        Some(host) => host,
        None => None,
    };
    Ok(TlsParse::ClientHello { sni: host, ech })
}

/// The length that a handshake message states for its body.
pub open spec fn handshake_len(handshake: Seq<u8>) -> int {
    handshake[1] * 0x1_0000 + handshake[2] * 0x100 + handshake[3]
}

/// Reads the TLS records of a stream from `offset` on, with the handshake bytes of the records
/// before it: the `ClientHello` as soon as all of it is there.
pub open spec fn hello_from(stream: Seq<u8>, offset: int, handshake: Seq<u8>) -> Result<
    TlsParseView,
    DenyReason,
>
    decreases stream.len() - offset,
{
    if offset < 0 || stream.len() < offset + 5 {
        Ok(TlsParseView::NeedMore)
    } else {
        let length = crate::bytes::be16(stream, offset + 3) as int;
        let end = offset + 5 + length;
        if stream[offset] != RECORD_HANDSHAKE || stream[offset + 1] != TLS_MAJOR || length == 0
            || length > MAX_TLS_RECORD {
            Err(DenyReason::TlsInvalid)
        } else if stream.len() < end {
            Ok(TlsParseView::NeedMore)
        } else {
            let joined = handshake + stream.subrange(offset + 5, end);
            if joined.len() < 4 {
                hello_from(stream, end, joined)
            } else if joined[0] != HANDSHAKE_CLIENT_HELLO || handshake_len(joined)
                > MAX_TLS_BUFFER_HARD - 4 {
                Err(DenyReason::TlsInvalid)
            } else if joined.len() < 4 + handshake_len(joined) {
                hello_from(stream, end, joined)
            } else {
                client_hello(joined.subrange(4, 4 + handshake_len(joined)))
            }
        }
    }
}

/// What the first bytes of a TLS connection say.
pub open spec fn tls_hello(stream: Seq<u8>) -> Result<TlsParseView, DenyReason> {
    hello_from(stream, 0, Seq::empty())
}

/// Reads the first bytes of a TLS connection.
pub fn parse_tls_client_hello(stream: &[u8]) -> (parsed: Result<TlsParse, DenyReason>)
    ensures
        parse_view(parsed) == tls_hello(stream@),
{
    let mut offset: usize = 0;
    let mut handshake: Vec<u8> = Vec::new();
    assert(handshake@ =~= Seq::empty());
    loop
        invariant
            offset <= stream@.len(),
            tls_hello(stream@) == hello_from(stream@, offset as int, handshake@),
        decreases stream@.len() - offset,
    {
        if stream.len() - offset < 5 {
            return Ok(TlsParse::NeedMore);
        }
        if stream[offset] != RECORD_HANDSHAKE || stream[offset + 1] != TLS_MAJOR {
            return Err(DenyReason::TlsInvalid);
        }
        let record_len: usize = read_be16(stream, offset + 3) as usize;
        if record_len == 0 || record_len > MAX_TLS_RECORD {
            return Err(DenyReason::TlsInvalid);
        }
        if stream.len() - offset - 5 < record_len {
            return Ok(TlsParse::NeedMore);
        }
        let record_end: usize = offset + 5 + record_len;
        append_bytes(&mut handshake, slice_subrange(stream, offset + 5, record_end));
        if handshake.len() >= 4 {
            if handshake[0] != HANDSHAKE_CLIENT_HELLO {
                return Err(DenyReason::TlsInvalid);
            }
            let hello_len: usize = handshake[1] as usize * 0x1_0000 + handshake[2] as usize * 0x100
                + handshake[3] as usize;
            if hello_len > MAX_TLS_BUFFER_HARD - 4 {
                return Err(DenyReason::TlsInvalid);
            }
            if handshake.len() >= 4 + hello_len {
                return parse_client_hello_body(
                    slice_subrange(handshake.as_slice(), 4, 4 + hello_len),
                );
            }
        }
        offset = record_end;
    }
}

proof fn lemma_names_reason(list: Seq<u8>, cursor: int, host: Option<Seq<u8>>)
    ensures
        server_names_from(list, cursor, host) matches Err(reason) ==> reason
            == DenyReason::TlsInvalid,
    decreases list.len() - cursor,
{
    if 0 <= cursor < list.len() {
        match tls_u16(list, cursor + 1) {
            None => {},
            Some(length) => {
                let end = cursor + 3 + length;
                if end <= list.len() {
                    lemma_names_reason(list, end, host);
                    match crate::policy::domain::normalized(list.subrange(cursor + 3, end)) {
                        Some(name) => {
                            lemma_names_reason(list, end, Some(name));
                        },
                        None => {},
                    }
                }
            },
        }
    }
}

proof fn lemma_extensions_reason(
    body: Seq<u8>,
    cursor: int,
    sni: Option<Option<Seq<u8>>>,
    ech: bool,
)
    ensures
        extensions_from(body, cursor, sni, ech) matches Err(reason) ==> reason
            == DenyReason::TlsInvalid,
    decreases body.len() - cursor,
{
    if 0 <= cursor < body.len() {
        match (tls_u16(body, cursor), tls_u16(body, cursor + 2)) {
            (Some(kind), Some(length)) => {
                let start = cursor + 4;
                let end = start + length;
                if end <= body.len() {
                    if kind == EXTENSION_SERVER_NAME {
                        if sni is None {
                            lemma_names_reason(body.subrange(start, end), 2, None);
                            match server_name(body.subrange(start, end)) {
                                Ok(host) => {
                                    lemma_extensions_reason(body, end, Some(host), ech);
                                },
                                Err(_) => {},
                            }
                        }
                    } else if kind == EXTENSION_ECH || kind == EXTENSION_ESNI {
                        lemma_extensions_reason(body, end, sni, true);
                    } else {
                        lemma_extensions_reason(body, end, sni, ech);
                    }
                }
            },
            _ => {},
        }
    }
}

proof fn lemma_hello_reason(stream: Seq<u8>, offset: int, handshake: Seq<u8>)
    ensures
        hello_from(stream, offset, handshake) matches Err(reason) ==> reason
            == DenyReason::TlsInvalid,
    decreases stream.len() - offset,
{
    if 0 <= offset && offset + 5 <= stream.len() {
        let end = offset + 5 + crate::bytes::be16(stream, offset + 3) as int;
        if end <= stream.len() {
            let joined = handshake + stream.subrange(offset + 5, end);
            if stream[offset] != RECORD_HANDSHAKE || stream[offset + 1] != TLS_MAJOR || end
                == offset + 5 || end - offset - 5 > MAX_TLS_RECORD {
            } else if joined.len() < 4 || joined.len() < 4 + handshake_len(joined) {
                lemma_hello_reason(stream, end, joined);
            } else {
                let body = joined.subrange(4, 4 + handshake_len(joined));
                lemma_extensions_reason(body, extensions_at(body) + 2, None, false);
            }
        }
    }
}

/// Bytes that cannot be read are refused for what they are, and for no other reason.
pub proof fn law_unreadable_bytes_have_one_reason(stream: Seq<u8>)
    ensures
        tls_hello(stream) matches Err(reason) ==> reason == DenyReason::TlsInvalid,
{
    lemma_hello_reason(stream, 0, Seq::empty());
}

proof fn lemma_verdict_stays(stream: Seq<u8>, more: Seq<u8>, offset: int, handshake: Seq<u8>)
    requires
        hello_from(stream, offset, handshake) != Ok::<TlsParseView, DenyReason>(
            TlsParseView::NeedMore,
        ),
    ensures
        hello_from(stream + more, offset, handshake) == hello_from(stream, offset, handshake),
    decreases stream.len() - offset,
{
    let longer = stream + more;
    assert forall|i: int| 0 <= i < stream.len() implies longer[i] == stream[i] by {}
    let length = crate::bytes::be16(stream, offset + 3) as int;
    let end = offset + 5 + length;
    if stream[offset] != RECORD_HANDSHAKE || stream[offset + 1] != TLS_MAJOR || length == 0 || length
        > MAX_TLS_RECORD {
    } else {
        assert(longer.subrange(offset + 5, end) =~= stream.subrange(offset + 5, end));
        let joined = handshake + stream.subrange(offset + 5, end);
        if joined.len() < 4 {
            lemma_verdict_stays(stream, more, end, joined);
        } else if joined[0] != HANDSHAKE_CLIENT_HELLO || handshake_len(joined) > MAX_TLS_BUFFER_HARD
            - 4 {
        } else if joined.len() < 4 + handshake_len(joined) {
            lemma_verdict_stays(stream, more, end, joined);
        }
    }
}

/// Once the first bytes of a connection say something, or cannot be read, they say the same however
/// many bytes follow.
pub proof fn law_verdict_stays(stream: Seq<u8>, more: Seq<u8>)
    requires
        tls_hello(stream) != Ok::<TlsParseView, DenyReason>(TlsParseView::NeedMore),
    ensures
        tls_hello(stream + more) == tls_hello(stream),
{
    lemma_verdict_stays(stream, more, 0, Seq::empty());
}

} // verus!
