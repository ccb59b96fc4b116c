//! Frames that are put together from their fields come apart into these fields.

use vstd::prelude::*;

use crate::net::{IpAddr, Ipv4Addr, Ipv6Addr};
use crate::policy::packet::{IpPacketView, TcpPacketView, UdpPacketView};
use crate::policy::DenyReason;

verus! {

/// A number of 16 bits as it stands in a packet, the high byte first.
pub open spec fn word(number: u16) -> Seq<u8> {
    seq![(number / 256) as u8, (number % 256) as u8]
}

/// A number of 32 bits.
pub open spec fn long(number: u32) -> Seq<u8> {
    seq![
        (number / 0x100_0000) as u8,
        (number / 0x1_0000 % 256) as u8,
        (number / 0x100 % 256) as u8,
        (number % 256) as u8,
    ]
}

/// A number of 64 bits.
pub open spec fn quad(number: u64) -> Seq<u8> {
    long((number / 0x1_0000_0000) as u32) + long((number % 0x1_0000_0000) as u32)
}

/// A number of 128 bits.
pub open spec fn wide(number: u128) -> Seq<u8> {
    quad((number / 0x1_0000_0000_0000_0000) as u64) + quad(
        (number % 0x1_0000_0000_0000_0000) as u64,
    )
}

/// A number that stands in some bytes is read as it was written, the high byte first.
pub proof fn law_numbers_are_read_as_written(
    before: Seq<u8>,
    short: u16,
    middle: u32,
    great: u128,
    after: Seq<u8>,
)
    ensures
        crate::bytes::be16(before + word(short) + after, before.len() as int) == short,
        crate::bytes::be32(before + long(middle) + after, before.len() as int) == middle,
        crate::bytes::be128(before + wide(great) + after, before.len() as int) == great,
{
    let at = before.len() as int;
    let words = before + word(short) + after;
    assert(words[at] == word(short)[0] && words[at + 1] == word(short)[1]);
    let longs = before + long(middle) + after;
    assert(longs[at] == long(middle)[0] && longs[at + 1] == long(middle)[1] && longs[at + 2] == long(
        middle,
    )[2] && longs[at + 3] == long(middle)[3]);
    assert(crate::bytes::be16(longs, at) == middle / 0x1_0000);
    assert(crate::bytes::be16(longs, at + 2) == middle % 0x1_0000);
    lemma_wide(before, great, after);
}

proof fn lemma_long_at(bytes: Seq<u8>, at: int, number: u32)
    requires
        0 <= at,
        at + 4 <= bytes.len(),
        bytes.subrange(at, at + 4) == long(number),
    ensures
        crate::bytes::be32(bytes, at) == number,
{
    let part = bytes.subrange(at, at + 4);
    assert(part[0] == bytes[at] && part[1] == bytes[at + 1] && part[2] == bytes[at + 2] && part[3]
        == bytes[at + 3]);
    assert(crate::bytes::be16(bytes, at) == number / 0x1_0000);
    assert(crate::bytes::be16(bytes, at + 2) == number % 0x1_0000);
}

proof fn lemma_word_at(bytes: Seq<u8>, at: int, number: u16)
    requires
        0 <= at,
        at + 2 <= bytes.len(),
        bytes.subrange(at, at + 2) == word(number),
    ensures
        crate::bytes::be16(bytes, at) == number,
{
    let part = bytes.subrange(at, at + 2);
    assert(part[0] == bytes[at] && part[1] == bytes[at + 1]);
}

proof fn lemma_two_parts(bytes: Seq<u8>, at: int, first: Seq<u8>, second: Seq<u8>)
    requires
        0 <= at,
        first.len() == second.len(),
        at + 2 * first.len() <= bytes.len(),
        bytes.subrange(at, at + 2 * first.len()) == first + second,
    ensures
        bytes.subrange(at, at + first.len()) == first,
        bytes.subrange(at + first.len(), at + 2 * first.len()) == second,
{
    let part = bytes.subrange(at, at + 2 * first.len());
    let half = first.len() as int;
    assert(bytes.subrange(at, at + half) =~= part.subrange(0, half));
    assert(bytes.subrange(at + half, at + 2 * half) =~= part.subrange(half, 2 * half));
    assert(part.subrange(0, half) =~= first);
    assert(part.subrange(half, 2 * half) =~= second);
}

proof fn lemma_quad_at(bytes: Seq<u8>, at: int, number: u64)
    requires
        0 <= at,
        at + 8 <= bytes.len(),
        bytes.subrange(at, at + 8) == quad(number),
    ensures
        crate::bytes::be64(bytes, at) == number,
{
    let high = (number / 0x1_0000_0000) as u32;
    let low = (number % 0x1_0000_0000) as u32;
    lemma_two_parts(bytes, at, long(high), long(low));
    lemma_long_at(bytes, at, high);
    lemma_long_at(bytes, at + 4, low);
}

proof fn lemma_wide_at(bytes: Seq<u8>, at: int, number: u128)
    requires
        0 <= at,
        at + 16 <= bytes.len(),
        bytes.subrange(at, at + 16) == wide(number),
    ensures
        crate::bytes::be128(bytes, at) == number,
{
    let high = (number / 0x1_0000_0000_0000_0000) as u64;
    let low = (number % 0x1_0000_0000_0000_0000) as u64;
    lemma_two_parts(bytes, at, quad(high), quad(low));
    lemma_quad_at(bytes, at, high);
    lemma_quad_at(bytes, at + 8, low);
}

proof fn lemma_lengths(number: u128)
    ensures
        wide(number).len() == 16,
{
}

proof fn lemma_wide(before: Seq<u8>, great: u128, after: Seq<u8>)
    ensures
        crate::bytes::be128(before + wide(great) + after, before.len() as int) == great,
{
    let at = before.len() as int;
    let bytes = before + wide(great) + after;
    lemma_lengths(great);
    assert(bytes.subrange(at, at + 16) =~= wide(great));
    lemma_wide_at(bytes, at, great);
}

/// A TCP segment: its ports, its sequence number, what it acknowledges, its flags, its window,
/// checksum and urgent pointer, its options in whole words, and its data.
pub open spec fn tcp_bytes(
    source_port: u16,
    destination_port: u16,
    sequence: u32,
    acknowledged: u32,
    flags: u8,
    rest: Seq<u8>,
    options: Seq<u8>,
    data: Seq<u8>,
) -> Seq<u8> {
    word(source_port) + word(destination_port) + long(sequence) + long(acknowledged) + seq![
        (16 * (5 + options.len() / 4)) as u8,
        flags,
    ] + rest + options + data
}

pub proof fn lemma_tcp_length(
    source_port: u16,
    destination_port: u16,
    sequence: u32,
    acknowledged: u32,
    flags: u8,
    rest: Seq<u8>,
    options: Seq<u8>,
    data: Seq<u8>,
)
    requires
        rest.len() == 6,
    ensures
        tcp_bytes(
            source_port,
            destination_port,
            sequence,
            acknowledged,
            flags,
            rest,
            options,
            data,
        ).len() == 20 + options.len() + data.len(),
{
}

/// A TCP segment comes apart into its fields, and its data begin behind its options, however long
/// these are: a segment that is all header has no data.
pub proof fn law_tcp_segment_comes_apart(
    source_port: u16,
    destination_port: u16,
    sequence: u32,
    acknowledged: u32,
    flags: u8,
    rest: Seq<u8>,
    options: Seq<u8>,
    data: Seq<u8>,
)
    requires
        rest.len() == 6,
        options.len() % 4 == 0,
        options.len() <= 40,
    ensures
        crate::policy::packet::tcp_packet(
            tcp_bytes(
                source_port,
                destination_port,
                sequence,
                acknowledged,
                flags,
                rest,
                options,
                data,
            ),
        ) == Some(
            TcpPacketView {
                source_port,
                destination_port,
                sequence,
                syn: flags & 0x02 != 0,
                ack: flags & 0x10 != 0,
                rst: flags & 0x04 != 0,
                payload: data,
            },
        ),
{
    let bytes = tcp_bytes(
        source_port,
        destination_port,
        sequence,
        acknowledged,
        flags,
        rest,
        options,
        data,
    );
    let length = 20 + options.len();
    assert(bytes.len() == length + data.len());
    assert(bytes[12] == 16 * (5 + options.len() / 4));
    assert(bytes[13] == flags);
    assert(bytes.subrange(0, 2) =~= word(source_port));
    assert(bytes.subrange(2, 4) =~= word(destination_port));
    assert(bytes.subrange(4, 8) =~= long(sequence));
    assert(bytes.subrange(length as int, bytes.len() as int) =~= data);
    lemma_word_at(bytes, 0, source_port);
    lemma_word_at(bytes, 2, destination_port);
    lemma_long_at(bytes, 4, sequence);
    assert((flags & 0x02 != 0) == (flags / 2 % 2 == 1)) by (bit_vector);
    assert((flags & 0x10 != 0) == (flags / 16 % 2 == 1)) by (bit_vector);
    assert((flags & 0x04 != 0) == (flags / 4 % 2 == 1)) by (bit_vector);
}

/// A TCP segment is refused where it is shorter than its shortest header, where its header would be
/// shorter than that or longer than the segment, or where a reserved bit is set, and nowhere else.
pub proof fn law_broken_tcp_header_is_refused(bytes: Seq<u8>)
    ensures
        crate::policy::packet::tcp_packet(bytes) is None <==> (bytes.len() < 20 || bytes[12] < 0x50
            || bytes[12] / 16 * 4 > bytes.len() || bytes[12] % 16 > 0),
{
}

/// A UDP datagram with its data and what follows it.
pub open spec fn udp_bytes(
    source_port: u16,
    destination_port: u16,
    sum: u16,
    data: Seq<u8>,
    trailer: Seq<u8>,
) -> Seq<u8> {
    word(source_port) + word(destination_port) + word((8 + data.len()) as u16) + word(sum) + data
        + trailer
}

pub proof fn lemma_udp_length(
    source_port: u16,
    destination_port: u16,
    sum: u16,
    data: Seq<u8>,
    trailer: Seq<u8>,
)
    ensures
        udp_bytes(source_port, destination_port, sum, data, trailer).len() == 8 + data.len()
            + trailer.len(),
{
}

/// A UDP datagram comes apart into its ports and its data, without what follows it; one whose
/// length is not that of a datagram in the bytes is refused.
pub proof fn law_udp_datagram_comes_apart(
    source_port: u16,
    destination_port: u16,
    sum: u16,
    data: Seq<u8>,
    trailer: Seq<u8>,
)
    requires
        8 + data.len() <= 0xffff,
    ensures
        crate::policy::packet::udp_packet(
            udp_bytes(source_port, destination_port, sum, data, trailer),
        ) == Some(UdpPacketView { source_port, destination_port, payload: data }),
{
    let bytes = udp_bytes(source_port, destination_port, sum, data, trailer);
    let length = (8 + data.len()) as u16;
    assert(bytes.subrange(0, 2) =~= word(source_port));
    assert(bytes.subrange(2, 4) =~= word(destination_port));
    assert(bytes.subrange(4, 6) =~= word(length));
    lemma_word_at(bytes, 0, source_port);
    lemma_word_at(bytes, 2, destination_port);
    lemma_word_at(bytes, 4, length);
    assert(bytes.subrange(8, length as int) =~= data);
}

/// A UDP datagram is read exactly where its length is at least that of its header and no more than
/// the bytes there are.
pub proof fn law_udp_length_is_checked(
    source_port: u16,
    destination_port: u16,
    length: u16,
    sum: u16,
    data: Seq<u8>,
)
    ensures
        crate::policy::packet::udp_packet(
            word(source_port) + word(destination_port) + word(length) + word(sum) + data,
        ) is Some <==> 8 <= length <= 8 + data.len(),
{
    let bytes = word(source_port) + word(destination_port) + word(length) + word(sum) + data;
    assert(bytes.subrange(4, 6) =~= word(length));
    lemma_word_at(bytes, 4, length);
}

/// The header of an IPv4 packet.
pub open spec fn ipv4_header(
    service: u8,
    total: u16,
    id: u16,
    fragment: u16,
    lifetime: u8,
    protocol: u8,
    sum: u16,
    source: u32,
    destination: u32,
    options: Seq<u8>,
) -> Seq<u8> {
    seq![(0x45 + options.len() / 4) as u8, service] + word(total) + word(id) + word(fragment) + seq![
        lifetime,
        protocol,
    ] + word(sum) + long(source) + long(destination) + options
}

/// An IPv4 packet comes apart into its addresses, its protocol and its data: these begin behind its
/// options, and end where its length says, whatever follows.  A part of a datagram is refused as
/// one, and so is a header that does not sum up.
pub proof fn law_ipv4_packet_comes_apart(
    service: u8,
    id: u16,
    fragment: u16,
    lifetime: u8,
    protocol: u8,
    sum: u16,
    source: u32,
    destination: u32,
    options: Seq<u8>,
    data: Seq<u8>,
    trailer: Seq<u8>,
)
    requires
        options.len() % 4 == 0,
        options.len() <= 40,
        20 + options.len() + data.len() <= 0xffff,
    ensures
        ({
            let header = ipv4_header(
                service,
                (20 + options.len() + data.len()) as u16,
                id,
                fragment,
                lifetime,
                protocol,
                sum,
                source,
                destination,
                options,
            );
            crate::policy::packet::ipv4_packet(header + data + trailer) == (if fragment != 0
                && fragment != 0x4000 {
                Err(DenyReason::Fragment)
            } else if crate::policy::packet::checksum_spec(header) != 0 {
                Err(DenyReason::Malformed)
            } else {
                Ok(
                    IpPacketView {
                        source: IpAddr::V4(Ipv4Addr { bits: source }),
                        destination: IpAddr::V4(Ipv4Addr { bits: destination }),
                        protocol,
                        payload: data,
                    },
                )
            })
        }),
{
    let total = (20 + options.len() + data.len()) as u16;
    let header = ipv4_header(
        service,
        total,
        id,
        fragment,
        lifetime,
        protocol,
        sum,
        source,
        destination,
        options,
    );
    let bytes = header + data + trailer;
    let length = (20 + options.len()) as int;
    assert(header.len() == length);
    assert(bytes[0] == 0x45 + options.len() / 4);
    assert(bytes[9] == protocol);
    assert(bytes.subrange(2, 4) =~= word(total));
    assert(bytes.subrange(6, 8) =~= word(fragment));
    assert(bytes.subrange(12, 16) =~= long(source));
    assert(bytes.subrange(16, 20) =~= long(destination));
    lemma_word_at(bytes, 2, total);
    lemma_word_at(bytes, 6, fragment);
    lemma_long_at(bytes, 12, source);
    lemma_long_at(bytes, 16, destination);
    assert(crate::policy::packet::ipv4_header_len(bytes) == length);
    assert(bytes.subrange(0, length) =~= header);
    assert(bytes.subrange(length, total as int) =~= data);
}

/// An IPv4 packet is refused as malformed where it is too short, of another version, or where its
/// lengths do not agree.
pub proof fn law_broken_ipv4_header_is_refused(bytes: Seq<u8>)
    requires
        bytes.len() < 20 || bytes[0] / 16 != 4 || bytes[0] % 16 < 5 || bytes[2] * 256 + bytes[3]
            < bytes[0] % 16 * 4 || bytes[2] * 256 + bytes[3] > bytes.len(),
    ensures
        crate::policy::packet::ipv4_packet(bytes) == Err::<IpPacketView, DenyReason>(
            DenyReason::Malformed,
        ),
{
}

/// An IPv6 packet with its data and what follows it.
pub open spec fn ipv6_bytes(
    class: Seq<u8>,
    protocol: u8,
    hops: u8,
    source: u128,
    destination: u128,
    data: Seq<u8>,
    trailer: Seq<u8>,
) -> Seq<u8> {
    seq![(0x60 + class[0] % 16) as u8, class[1], class[2], class[3]] + word(data.len() as u16)
        + seq![protocol, hops] + wide(source) + wide(destination) + data + trailer
}

/// An IPv6 packet comes apart into its addresses, its protocol and its data, without what follows.
/// It carries TCP or UDP directly, or is refused.
pub proof fn law_ipv6_packet_comes_apart(
    class: Seq<u8>,
    protocol: u8,
    hops: u8,
    source: u128,
    destination: u128,
    data: Seq<u8>,
    trailer: Seq<u8>,
)
    requires
        class.len() == 4,
        data.len() <= 0xffff,
    ensures
        crate::policy::packet::ipv6_packet(
            ipv6_bytes(class, protocol, hops, source, destination, data, trailer),
        ) == (if protocol == 44 {
            Err(DenyReason::Fragment)
        } else if protocol != 6 && protocol != 17 {
            Err(DenyReason::UnsupportedProtocol)
        } else {
            Ok(
                IpPacketView {
                    source: IpAddr::V6(Ipv6Addr { bits: source }),
                    destination: IpAddr::V6(Ipv6Addr { bits: destination }),
                    protocol,
                    payload: data,
                },
            )
        }),
{
    let bytes = ipv6_bytes(class, protocol, hops, source, destination, data, trailer);
    let length = data.len() as u16;
    let front = seq![(0x60 + class[0] % 16) as u8, class[1], class[2], class[3]];
    lemma_lengths(source);
    lemma_lengths(destination);
    assert(front[0] / 16 == 6);
    lemma_ipv6_fields(
        front,
        length,
        protocol,
        hops,
        source,
        destination,
        wide(source),
        wide(destination),
        data,
        trailer,
        bytes,
    );
}

proof fn lemma_ipv6_fields(
    front: Seq<u8>,
    length: u16,
    protocol: u8,
    hops: u8,
    source: u128,
    destination: u128,
    from: Seq<u8>,
    to: Seq<u8>,
    data: Seq<u8>,
    trailer: Seq<u8>,
    bytes: Seq<u8>,
)
    requires
        front.len() == 4,
        from == wide(source),
        to == wide(destination),
        from.len() == 16,
        to.len() == 16,
        data.len() == length,
        bytes == front + word(length) + seq![protocol, hops] + from + to + data + trailer,
    ensures
        bytes.len() >= 40 + length,
        bytes[0] == front[0],
        bytes[6] == protocol,
        crate::bytes::be16(bytes, 4) == length,
        crate::bytes::be128(bytes, 8) == source,
        crate::bytes::be128(bytes, 24) == destination,
        bytes.subrange(40, 40 + length) == data,
{
    lemma_ipv6_layout(front, length, protocol, hops, from, to, data, trailer, bytes);
    lemma_word_at(bytes, 4, length);
    lemma_wide_at(bytes, 8, source);
    lemma_wide_at(bytes, 24, destination);
}

proof fn lemma_ipv6_layout(
    front: Seq<u8>,
    length: u16,
    protocol: u8,
    hops: u8,
    source: Seq<u8>,
    destination: Seq<u8>,
    data: Seq<u8>,
    trailer: Seq<u8>,
    bytes: Seq<u8>,
)
    requires
        front.len() == 4,
        source.len() == 16,
        destination.len() == 16,
        data.len() == length,
        bytes == front + word(length) + seq![protocol, hops] + source + destination + data + trailer,
    ensures
        bytes.len() >= 40 + length,
        bytes[0] == front[0],
        bytes[6] == protocol,
        bytes.subrange(4, 6) == word(length),
        bytes.subrange(8, 24) == source,
        bytes.subrange(24, 40) == destination,
        bytes.subrange(40, 40 + length) == data,
{
    assert(bytes.subrange(4, 6) =~= word(length));
    assert(bytes.subrange(8, 24) =~= source);
    assert(bytes.subrange(24, 40) =~= destination);
    assert(bytes.subrange(40, 40 + length) =~= data);
}

/// An IPv6 packet is refused as malformed where it is too short, of another version, or longer than
/// the bytes there are.
pub proof fn law_broken_ipv6_header_is_refused(bytes: Seq<u8>)
    requires
        bytes.len() < 40 || bytes[0] / 16 != 6 || 40 + bytes[4] * 256 + bytes[5] > bytes.len(),
    ensures
        crate::policy::packet::ipv6_packet(bytes) == Err::<IpPacketView, DenyReason>(
            DenyReason::Malformed,
        ),
{
}

} // verus!
