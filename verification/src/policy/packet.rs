//! Strict parsing of the IPv4, IPv6, UDP and TCP headers that the policy reads.

use vstd::prelude::*;
use vstd::slice::*;

use crate::bytes::{read_be128, read_be16, read_be32};
use crate::net::{IpAddr, Ipv4Addr, Ipv6Addr};
use crate::policy::DenyReason;

verus! {

pub const IPPROTO_TCP: u8 = 6;

pub const IPPROTO_UDP: u8 = 17;

/// The next-header value of an IPv6 fragment header.
pub const IPV6_FRAGMENT: u8 = 44;

/// An IP packet whose lengths have been checked against the bytes that carry it.
#[derive(Clone, Copy)]
pub struct IpPacket<'a> {
    pub source: IpAddr,
    pub destination: IpAddr,
    pub protocol: u8,
    pub payload: &'a [u8],
}

pub struct IpPacketView {
    pub source: IpAddr,
    pub destination: IpAddr,
    pub protocol: u8,
    pub payload: Seq<u8>,
}

impl<'a> View for IpPacket<'a> {
    type V = IpPacketView;

    open spec fn view(&self) -> IpPacketView {
        IpPacketView {
            source: self.source,
            destination: self.destination,
            protocol: self.protocol,
            payload: self.payload@,
        }
    }
}

#[derive(Clone, Copy)]
pub struct UdpPacket<'a> {
    pub source_port: u16,
    pub destination_port: u16,
    pub payload: &'a [u8],
}

pub struct UdpPacketView {
    pub source_port: u16,
    pub destination_port: u16,
    pub payload: Seq<u8>,
}

impl<'a> View for UdpPacket<'a> {
    type V = UdpPacketView;

    open spec fn view(&self) -> UdpPacketView {
        UdpPacketView {
            source_port: self.source_port,
            destination_port: self.destination_port,
            payload: self.payload@,
        }
    }
}

#[derive(Clone, Copy)]
pub struct TcpPacket<'a> {
    pub source_port: u16,
    pub destination_port: u16,
    pub sequence: u32,
    pub syn: bool,
    pub ack: bool,
    pub rst: bool,
    pub payload: &'a [u8],
}

pub struct TcpPacketView {
    pub source_port: u16,
    pub destination_port: u16,
    pub sequence: u32,
    pub syn: bool,
    pub ack: bool,
    pub rst: bool,
    pub payload: Seq<u8>,
}

impl<'a> View for TcpPacket<'a> {
    type V = TcpPacketView;

    open spec fn view(&self) -> TcpPacketView {
        TcpPacketView {
            source_port: self.source_port,
            destination_port: self.destination_port,
            sequence: self.sequence,
            syn: self.syn,
            ack: self.ack,
            rst: self.rst,
            payload: self.payload@,
        }
    }
}

/// The sum of the big-endian 16-bit words of a byte string; an odd last byte is the high half of
/// its word.
pub open spec fn word_sum(bytes: Seq<u8>) -> nat
    decreases bytes.len(),
{
    if bytes.len() == 0 {
        0
    } else if bytes.len() == 1 {
        bytes[0] as nat * 256
    } else {
        (bytes[0] as nat * 256 + bytes[1] as nat) + word_sum(bytes.subrange(2, bytes.len() as int))
    }
}

/// What remains of a number once every carry out of 16 bits has been added back in: a number of
/// the same residue modulo 65535, zero only for zero.
pub open spec fn fold_carries(sum: nat) -> nat {
    if sum == 0 {
        0
    } else {
        ((sum - 1) % 65535 + 1) as nat
    }
}

/// The Internet checksum: the ones' complement of the folded word sum, which is kept in 32 bits.
pub open spec fn checksum_spec(bytes: Seq<u8>) -> u16 {
    (0xffff - fold_carries(word_sum(bytes) % 0x1_0000_0000)) as u16
}

proof fn lemma_word_sum_step(bytes: Seq<u8>, at: int)
    requires
        0 <= at < bytes.len(),
        at % 2 == 0,
    ensures
        at + 1 < bytes.len() ==> word_sum(bytes.subrange(0, at + 2)) == word_sum(
            bytes.subrange(0, at),
        ) + bytes[at] as nat * 256 + bytes[at + 1] as nat,
        at + 1 == bytes.len() ==> word_sum(bytes) == word_sum(bytes.subrange(0, at))
            + bytes[at] as nat * 256,
    decreases at,
{
    if at == 0 {
        assert(bytes.subrange(0, 0).len() == 0);
        if at + 1 < bytes.len() {
            let two = bytes.subrange(0, 2);
            assert(two.subrange(2, 2).len() == 0);
            assert(word_sum(two.subrange(2, 2)) == 0);
            assert(two[0] == bytes[0] && two[1] == bytes[1]);
        }
    } else {
        let rest = bytes.subrange(2, bytes.len() as int);
        lemma_word_sum_step(rest, at - 2);
        let front = bytes.subrange(0, at);
        assert(front.subrange(2, at) =~= rest.subrange(0, at - 2));
        assert(word_sum(front) == (bytes[0] as nat * 256 + bytes[1] as nat) + word_sum(
            rest.subrange(0, at - 2),
        ));
        if at + 1 < bytes.len() {
            let longer = bytes.subrange(0, at + 2);
            assert(longer.subrange(2, at + 2) =~= rest.subrange(0, at));
        }
    }
}

proof fn lemma_fold_step(sum: nat)
    requires
        sum >= 0x1_0000,
    ensures
        fold_carries(sum % 0x1_0000 + sum / 0x1_0000) == fold_carries(sum),
        0 < sum % 0x1_0000 + sum / 0x1_0000 < sum,
{
    let carry = (sum / 0x1_0000) as int;
    let folded = (sum % 0x1_0000 + sum / 0x1_0000) as int;
    assert(folded - 1 + 65535 * carry == sum - 1);
    vstd::arithmetic::div_mod::lemma_mod_multiples_vanish(carry, folded - 1, 65535);
}

/// The Internet checksum of a header.
pub fn checksum(bytes: &[u8]) -> (sum: u16)
    ensures
        sum == checksum_spec(bytes@),
{
    let mut sum: u32 = 0;
    let mut at: usize = 0;
    let len: usize = bytes.len();
    assert(bytes@.subrange(0, 0).len() == 0);
    while at < len
        invariant
            at <= len,
            len == bytes@.len(),
            at < len ==> at % 2 == 0,
            sum == word_sum(bytes@.subrange(0, at as int)) % 0x1_0000_0000,
        decreases len - at,
    {
        proof {
            lemma_word_sum_step(bytes@, at as int);
        }
        let ghost before = word_sum(bytes@.subrange(0, at as int));
        if len - at >= 2 {
            let word: u16 = read_be16(bytes, at);
            sum = sum.wrapping_add(word as u32);
            at += 2;
        } else {
            let word: u16 = bytes[at] as u16 * 256;
            sum = sum.wrapping_add(word as u32);
            at += 1;
            assert(bytes@.subrange(0, at as int) =~= bytes@);
        }
    }
    assert(bytes@.subrange(0, at as int) =~= bytes@);
    let ghost total = sum as nat;
    while sum >= 0x1_0000
        invariant
            fold_carries(sum as nat) == fold_carries(total),
        decreases sum,
    {
        proof {
            lemma_fold_step(sum as nat);
        }
        sum = sum % 0x1_0000 + sum / 0x1_0000;
    }
    assert(fold_carries(sum as nat) == sum);
    (0xffff - sum) as u16
}

pub open spec fn ipv4_at(bytes: Seq<u8>, at: int) -> IpAddr {
    IpAddr::V4(Ipv4Addr { bits: crate::bytes::be32(bytes, at) })
}

pub open spec fn ipv6_at(bytes: Seq<u8>, at: int) -> IpAddr {
    IpAddr::V6(Ipv6Addr { bits: crate::bytes::be128(bytes, at) })
}

pub open spec fn ipv4_header_len(bytes: Seq<u8>) -> int {
    bytes[0] % 16 * 4
}

/// Whether the version and the lengths of an IPv4 header agree with the bytes that follow.
pub open spec fn ipv4_lengths_valid(bytes: Seq<u8>) -> bool {
    &&& bytes.len() >= 20
    &&& bytes[0] / 16 == 4
    &&& 20 <= ipv4_header_len(bytes) <= crate::bytes::be16(bytes, 2) <= bytes.len()
}

/// Whether an IPv4 header marks a whole datagram: nothing set in the fragment field but the
/// "don't fragment" flag.
pub open spec fn ipv4_unfragmented(bytes: Seq<u8>) -> bool {
    crate::bytes::be16(bytes, 6) == 0 || crate::bytes::be16(bytes, 6) == 0x4000
}

pub open spec fn ipv4_packet(bytes: Seq<u8>) -> Result<IpPacketView, DenyReason> {
    if !ipv4_lengths_valid(bytes) {
        Err(DenyReason::Malformed)
    } else if !ipv4_unfragmented(bytes) {
        Err(DenyReason::Fragment)
    } else if checksum_spec(bytes.subrange(0, ipv4_header_len(bytes))) != 0 {
        Err(DenyReason::Malformed)
    } else {
        Ok(
            IpPacketView {
                source: ipv4_at(bytes, 12),
                destination: ipv4_at(bytes, 16),
                protocol: bytes[9],
                payload: bytes.subrange(
                    ipv4_header_len(bytes),
                    crate::bytes::be16(bytes, 2) as int,
                ),
            },
        )
    }
}

pub fn parse_ipv4<'a>(payload: &'a [u8]) -> (parsed: Result<IpPacket<'a>, DenyReason>)
    ensures
        match parsed {
            Ok(packet) => ipv4_packet(payload@) == Ok::<IpPacketView, DenyReason>(packet@),
            Err(reason) => ipv4_packet(payload@) == Err::<IpPacketView, DenyReason>(reason),
        },
{
    if payload.len() < 20 || payload[0] / 16 != 4 {
        return Err(DenyReason::Malformed);
    }
    let header_len: usize = (payload[0] % 16) as usize * 4;
    let total_len: usize = read_be16(payload, 2) as usize;
    if header_len < 20 || total_len < header_len || total_len > payload.len() {
        return Err(DenyReason::Malformed);
    }
    let fragment: u16 = read_be16(payload, 6);
    if fragment != 0 && fragment != 0x4000 {
        return Err(DenyReason::Fragment);
    }
    if checksum(slice_subrange(payload, 0, header_len)) != 0 {
        return Err(DenyReason::Malformed);
    }
    Ok(
        IpPacket {
            source: IpAddr::V4(Ipv4Addr { bits: read_be32(payload, 12) }),
            destination: IpAddr::V4(Ipv4Addr { bits: read_be32(payload, 16) }),
            protocol: payload[9],
            payload: slice_subrange(payload, header_len, total_len),
        },
    )
}

/// Whether an IPv6 header is complete and its body is all there.
pub open spec fn ipv6_lengths_valid(bytes: Seq<u8>) -> bool {
    &&& bytes.len() >= 40
    &&& bytes[0] / 16 == 6
    &&& 40 + crate::bytes::be16(bytes, 4) <= bytes.len()
}

/// Extension headers are not walked: the body has to be TCP or UDP directly.
pub open spec fn ipv6_packet(bytes: Seq<u8>) -> Result<IpPacketView, DenyReason> {
    if !ipv6_lengths_valid(bytes) {
        Err(DenyReason::Malformed)
    } else if bytes[6] == IPV6_FRAGMENT {
        Err(DenyReason::Fragment)
    } else if bytes[6] != IPPROTO_TCP && bytes[6] != IPPROTO_UDP {
        Err(DenyReason::UnsupportedProtocol)
    } else {
        Ok(
            IpPacketView {
                source: ipv6_at(bytes, 8),
                destination: ipv6_at(bytes, 24),
                protocol: bytes[6],
                payload: bytes.subrange(40, 40 + crate::bytes::be16(bytes, 4)),
            },
        )
    }
}

pub fn parse_ipv6<'a>(payload: &'a [u8]) -> (parsed: Result<IpPacket<'a>, DenyReason>)
    ensures
        match parsed {
            Ok(packet) => ipv6_packet(payload@) == Ok::<IpPacketView, DenyReason>(packet@),
            Err(reason) => ipv6_packet(payload@) == Err::<IpPacketView, DenyReason>(reason),
        },
{
    if payload.len() < 40 || payload[0] / 16 != 6 {
        return Err(DenyReason::Malformed);
    }
    let total_len: usize = 40 + read_be16(payload, 4) as usize;
    if total_len > payload.len() {
        return Err(DenyReason::Malformed);
    }
    let next_header: u8 = payload[6];
    if next_header == IPV6_FRAGMENT {
        return Err(DenyReason::Fragment);
    }
    if next_header != IPPROTO_TCP && next_header != IPPROTO_UDP {
        return Err(DenyReason::UnsupportedProtocol);
    }
    Ok(
        IpPacket {
            source: IpAddr::V6(Ipv6Addr { bits: read_be128(payload, 8) }),
            destination: IpAddr::V6(Ipv6Addr { bits: read_be128(payload, 24) }),
            protocol: next_header,
            payload: slice_subrange(payload, 40, total_len),
        },
    )
}

/// A UDP datagram; `None` where its length field does not fit the bytes.
pub open spec fn udp_packet(bytes: Seq<u8>) -> Option<UdpPacketView> {
    if bytes.len() < 8 || !(8 <= crate::bytes::be16(bytes, 4) <= bytes.len()) {
        None
    } else {
        Some(
            UdpPacketView {
                source_port: crate::bytes::be16(bytes, 0),
                destination_port: crate::bytes::be16(bytes, 2),
                payload: bytes.subrange(8, crate::bytes::be16(bytes, 4) as int),
            },
        )
    }
}

pub fn parse_udp<'a>(payload: &'a [u8]) -> (parsed: Result<UdpPacket<'a>, DenyReason>)
    ensures
        match parsed {
            Ok(packet) => udp_packet(payload@) == Some(packet@),
            Err(reason) => udp_packet(payload@) is None && reason == DenyReason::Malformed,
        },
{
    if payload.len() < 8 {
        return Err(DenyReason::Malformed);
    }
    let length: usize = read_be16(payload, 4) as usize;
    if length < 8 || length > payload.len() {
        return Err(DenyReason::Malformed);
    }
    Ok(
        UdpPacket {
            source_port: read_be16(payload, 0),
            destination_port: read_be16(payload, 2),
            payload: slice_subrange(payload, 8, length),
        },
    )
}

pub open spec fn tcp_header_len(bytes: Seq<u8>) -> int {
    bytes[12] / 16 * 4
}

/// Bit `2^n` of a byte, where `unit` is that power of two.
pub open spec fn flag(byte: u8, unit: int) -> bool {
    byte as int / unit % 2 == 1
}

/// A TCP segment; `None` where its header length does not fit the bytes or a reserved bit is set.
pub open spec fn tcp_packet(bytes: Seq<u8>) -> Option<TcpPacketView> {
    if bytes.len() < 20 || !(20 <= tcp_header_len(bytes) <= bytes.len()) || bytes[12] % 16 != 0 {
        None
    } else {
        Some(
            TcpPacketView {
                source_port: crate::bytes::be16(bytes, 0),
                destination_port: crate::bytes::be16(bytes, 2),
                sequence: crate::bytes::be32(bytes, 4),
                syn: flag(bytes[13], 2),
                ack: flag(bytes[13], 16),
                rst: flag(bytes[13], 4),
                payload: bytes.subrange(tcp_header_len(bytes), bytes.len() as int),
            },
        )
    }
}

pub fn parse_tcp<'a>(payload: &'a [u8]) -> (parsed: Result<TcpPacket<'a>, DenyReason>)
    ensures
        match parsed {
            Ok(packet) => tcp_packet(payload@) == Some(packet@),
            Err(reason) => tcp_packet(payload@) is None && reason == DenyReason::Malformed,
        },
{
    if payload.len() < 20 {
        return Err(DenyReason::Malformed);
    }
    let header_len: usize = (payload[12] / 16) as usize * 4;
    if header_len < 20 || header_len > payload.len() || payload[12] % 16 != 0 {
        return Err(DenyReason::Malformed);
    }
    let flags: u8 = payload[13];
    Ok(
        TcpPacket {
            source_port: read_be16(payload, 0),
            destination_port: read_be16(payload, 2),
            sequence: read_be32(payload, 4),
            syn: flags / 2 % 2 == 1,
            ack: flags / 16 % 2 == 1,
            rst: flags / 4 % 2 == 1,
            payload: slice_subrange(payload, header_len, payload.len()),
        },
    )
}

pub(crate) proof fn lemma_word_sum_bound(bytes: Seq<u8>)
    ensures
        word_sum(bytes) <= 65535 * ((bytes.len() + 1) / 2),
    decreases bytes.len(),
{
    if bytes.len() >= 2 {
        let rest = bytes.subrange(2, bytes.len() as int);
        lemma_word_sum_bound(rest);
        assert((bytes.len() + 1) / 2 == (rest.len() + 1) / 2 + 1);
    }
}

/// A word that is written over zeros adds itself to the sum.
proof fn lemma_word_written(bytes: Seq<u8>, at: int, high: u8, low: u8)
    requires
        0 <= at,
        at + 1 < bytes.len(),
        at % 2 == 0,
        bytes[at] == 0,
        bytes[at + 1] == 0,
    ensures
        word_sum(bytes.update(at, high).update(at + 1, low)) == word_sum(bytes) + high as nat * 256
            + low as nat,
    decreases at,
{
    let written = bytes.update(at, high).update(at + 1, low);
    let rest = bytes.subrange(2, bytes.len() as int);
    let later = written.subrange(2, written.len() as int);
    if at == 0 {
        assert(later =~= rest);
    } else {
        lemma_word_written(rest, at - 2, high, low);
        assert(later =~= rest.update(at - 2, high).update(at - 1, low));
    }
}

/// A header that carries its own checksum has the checksum zero.  The header may be as long as its
/// words can be summed up in 32 bits.
pub proof fn law_header_with_its_checksum_verifies(header: Seq<u8>, at: int)
    requires
        header.len() <= 131072,
        0 <= at,
        at + 1 < header.len(),
        at % 2 == 0,
        header[at] == 0,
        header[at + 1] == 0,
    ensures
        checksum_spec(
            header.update(at, (checksum_spec(header) / 256) as u8).update(
                at + 1,
                (checksum_spec(header) % 256) as u8,
            ),
        ) == 0,
{
    let sum = word_sum(header);
    let own = checksum_spec(header);
    let written = header.update(at, (own / 256) as u8).update(at + 1, (own % 256) as u8);
    lemma_word_sum_bound(header);
    lemma_word_sum_bound(written);
    lemma_word_written(header, at, (own / 256) as u8, (own % 256) as u8);
    assert(65535 * ((header.len() + 1) / 2) <= 65535 * 65536) by (nonlinear_arith)
        requires
            header.len() <= 131072,
    ;
    assert(sum % 0x1_0000_0000 == sum);
    let folded = fold_carries(sum);
    assert(own == 65535 - folded);
    let total = word_sum(written);
    assert(total == sum + own);
    assert(total % 0x1_0000_0000 == total);
    if sum == 0 {
        assert(total == 65535);
    } else {
        let carries = (sum - 1) / 65535;
        assert(sum - 1 == 65535 * carries + (sum - 1) % 65535);
        assert(total - 1 == 65535 * carries + 65534);
        vstd::arithmetic::div_mod::lemma_mod_multiples_vanish(carries, 65534, 65535);
    }
    assert(fold_carries(total) == 65535);
}

} // verus!
