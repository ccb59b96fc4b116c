//! Internet addresses as plain numbers, and their textual form.

use vstd::prelude::*;
use vstd::slice::*;
use vstd::string::*;

use crate::text::{find_byte, read_decimal};

verus! {

/// An IPv4 address, as the big-endian number of its four octets.
#[derive(Debug, Clone, Copy, PartialEq, Eq, Structural)]
pub struct Ipv4Addr {
    pub bits: u32,
}

/// An IPv6 address, as the big-endian number of its sixteen octets.
#[derive(Debug, Clone, Copy, PartialEq, Eq, Structural)]
pub struct Ipv6Addr {
    pub bits: u128,
}

#[derive(Debug, Clone, Copy, PartialEq, Eq, Structural)]
pub enum IpAddr {
    V4(Ipv4Addr),
    V6(Ipv6Addr),
}


impl Ipv4Addr {
    pub fn new(a: u8, b: u8, c: u8, d: u8) -> (address: Ipv4Addr)
        ensures
            address.bits == a * 0x100_0000 + b * 0x1_0000 + c * 0x100 + d,
    {
        Ipv4Addr {
            bits: a as u32 * 0x100_0000 + b as u32 * 0x1_0000 + c as u32 * 0x100 + d as u32,
        }
    }

    pub fn octets(&self) -> (octets: [u8; 4])
        ensures
            octets@ == self.octets_spec(),
    {
        let a: u8 = (self.bits / 0x100_0000) as u8;
        let b: u8 = (self.bits / 0x1_0000 % 0x100) as u8;
        let c: u8 = (self.bits / 0x100 % 0x100) as u8;
        let d: u8 = (self.bits % 0x100) as u8;
        let octets = [a, b, c, d];
        assert(octets@ =~= self.octets_spec());
        octets
    }

    pub open spec fn octets_spec(self) -> Seq<u8> {
        seq![
            (self.bits / 0x100_0000) as u8,
            (self.bits / 0x1_0000 % 0x100) as u8,
            (self.bits / 0x100 % 0x100) as u8,
            (self.bits % 0x100) as u8,
        ]
    }

    pub fn unspecified() -> (address: Ipv4Addr)
        ensures
            address.bits == 0,
    {
        Ipv4Addr { bits: 0 }
    }

    pub fn broadcast() -> (address: Ipv4Addr)
        ensures
            address.bits == 0xffff_ffff,
    {
        Ipv4Addr { bits: 0xffff_ffff }
    }

    /// Whether the address lies in 10.0.0.0/8, 172.16.0.0/12 or 192.168.0.0/16.
    pub open spec fn is_private_spec(self) -> bool {
        ||| 0x0a00_0000 <= self.bits <= 0x0aff_ffff
        ||| 0xac10_0000 <= self.bits <= 0xac1f_ffff
        ||| 0xc0a8_0000 <= self.bits <= 0xc0a8_ffff
    }

    #[verifier::when_used_as_spec(is_private_spec)]
    pub fn is_private(self) -> (private: bool)
        ensures
            private == self.is_private_spec(),
    {
        (0x0a00_0000 <= self.bits && self.bits <= 0x0aff_ffff)
            || (0xac10_0000 <= self.bits && self.bits <= 0xac1f_ffff)
            || (0xc0a8_0000 <= self.bits && self.bits <= 0xc0a8_ffff)
    }
}

pub const COLON: u8 = 58;

pub const FULL_STOP: u8 = 46;

/// A decimal octet: one to three digits without a leading zero, at most 255.
pub open spec fn is_octet(text: Seq<u8>) -> bool {
    &&& 0 < text.len() <= 3
    &&& crate::text::is_digits(text)
    &&& text.len() > 1 ==> text[0] != 48
    &&& crate::text::dec_value(text) <= 255
}

/// The address of four decimal octets between dots.
pub open spec fn ipv4_of(text: Seq<u8>) -> Option<Ipv4Addr> {
    let first = crate::text::find_from(text, 0, FULL_STOP);
    let second = crate::text::find_from(text, first + 1, FULL_STOP);
    let third = crate::text::find_from(text, second + 1, FULL_STOP);
    if third >= text.len() {
        None
    } else {
        let a = text.subrange(0, first);
        let b = text.subrange(first + 1, second);
        let c = text.subrange(second + 1, third);
        let d = text.subrange(third + 1, text.len() as int);
        if is_octet(a) && is_octet(b) && is_octet(c) && is_octet(d) {
            Some(
                Ipv4Addr {
                    bits: (crate::text::dec_value(a) * 0x100_0000 + crate::text::dec_value(b)
                        * 0x1_0000 + crate::text::dec_value(c) * 0x100 + crate::text::dec_value(
                        d,
                    )) as u32,
                },
            )
        } else {
            None
        }
    }
}

fn read_octet(text: &[u8]) -> (octet: Option<u8>)
    ensures
        match octet {
            Some(value) => is_octet(text@) && value == crate::text::dec_value(text@),
            None => !is_octet(text@),
        },
{
    if text.len() == 0 || text.len() > 3 || (text.len() > 1 && text[0] == 48) {
        return None;
    }
    match read_decimal(text, 255) {
        Some(value) => Some(value as u8),
        None => None,
    }
}

/// Reads a dotted IPv4 address.
pub fn parse_ipv4_text(text: &[u8]) -> (address: Option<Ipv4Addr>)
    ensures
        address == ipv4_of(text@),
{
    let first: usize = find_byte(text, 0, FULL_STOP);
    if first >= text.len() {
        proof {
            lemma_find_past(text@, first + 1, FULL_STOP);
            lemma_find_past(
                text@,
                crate::text::find_from(text@, first + 1, FULL_STOP) + 1,
                FULL_STOP,
            );
        }
        return None;
    }
    let second: usize = find_byte(text, first + 1, FULL_STOP);
    if second >= text.len() {
        proof {
            lemma_find_past(text@, second + 1, FULL_STOP);
        }
        return None;
    }
    let third: usize = find_byte(text, second + 1, FULL_STOP);
    if third >= text.len() {
        return None;
    }
    let a = read_octet(slice_subrange(text, 0, first));
    let b = read_octet(slice_subrange(text, first + 1, second));
    let c = read_octet(slice_subrange(text, second + 1, third));
    let d = read_octet(slice_subrange(text, third + 1, text.len()));
    match (a, b, c, d) {
        (Some(a), Some(b), Some(c), Some(d)) => Some(Ipv4Addr::new(a, b, c, d)),
        _ => None,
    }
}

proof fn lemma_find_past(text: Seq<u8>, from: int, byte: u8)
    requires
        from >= text.len(),
    ensures
        crate::text::find_from(text, from, byte) == from,
{
}

pub open spec fn hex_digit(byte: u8) -> Option<nat> {
    if 48 <= byte <= 57 {
        Some((byte - 48) as nat)
    } else if 97 <= byte <= 102 {
        Some((byte - 87) as nat)
    } else if 65 <= byte <= 70 {
        Some((byte - 55) as nat)
    } else {
        None
    }
}

/// The number that one to four hexadecimal digits spell.
pub open spec fn group_of(text: Seq<u8>) -> Option<nat>
    decreases text.len(),
{
    if text.len() == 0 || text.len() > 4 {
        None
    } else if text.len() == 1 {
        hex_digit(text[0])
    } else {
        match (group_of(text.drop_last()), hex_digit(text.last())) {
            (Some(high), Some(low)) => Some(16 * high + low),
            _ => None,
        }
    }
}

fn read_hex_digit(byte: u8) -> (digit: Option<u16>)
    ensures
        match digit {
            Some(value) => hex_digit(byte) == Some(value as nat) && value < 16,
            None => hex_digit(byte) is None,
        },
{
    if 48 <= byte && byte <= 57 {
        Some((byte - 48) as u16)
    } else if 97 <= byte && byte <= 102 {
        Some((byte - 87) as u16)
    } else if 65 <= byte && byte <= 70 {
        Some((byte - 55) as u16)
    } else {
        None
    }
}

proof fn lemma_group_prefix(text: Seq<u8>, upto: int)
    requires
        0 < upto <= text.len() <= 4,
        group_of(text.subrange(0, upto)) is None,
    ensures
        group_of(text) is None,
    decreases text.len() - upto,
{
    if upto < text.len() {
        assert(text.subrange(0, upto + 1).drop_last() =~= text.subrange(0, upto));
        lemma_group_prefix(text, upto + 1);
    } else {
        assert(text.subrange(0, upto) =~= text);
    }
}

fn read_group(text: &[u8]) -> (group: Option<u16>)
    ensures
        match group {
            Some(value) => group_of(text@) == Some(value as nat),
            None => group_of(text@) is None,
        },
{
    if text.len() == 0 || text.len() > 4 {
        return None;
    }
    let mut value: u16 = 0;
    let mut i: usize = 0;
    while i < text.len()
        invariant
            0 <= i <= text@.len() <= 4,
            0 < text@.len(),
            i == 0 ==> value == 0,
            i > 0 ==> group_of(text@.subrange(0, i as int)) == Some(value as nat),
            i == 0 ==> value < 1,
            i == 1 ==> value < 0x10,
            i == 2 ==> value < 0x100,
            i == 3 ==> value < 0x1000,
        decreases text@.len() - i,
    {
        let ghost longer = text@.subrange(0, i + 1);
        assert(longer.drop_last() =~= text@.subrange(0, i as int));
        assert(longer.last() == text@[i as int]);
        match read_hex_digit(text[i]) {
            Some(digit) => {
                value = value * 16 + digit;
            },
            None => {
                assert(group_of(longer) is None);
                proof {
                    lemma_group_prefix(text@, i + 1);
                }
                return None;
            },
        }
        i += 1;
    }
    assert(text@.subrange(0, i as int) =~= text@);
    Some(value)
}

/// The two 16-bit groups that an embedded IPv4 address stands for.
pub open spec fn ipv4_groups(address: Ipv4Addr) -> Seq<u16> {
    seq![(address.bits / 0x1_0000) as u16, (address.bits % 0x1_0000) as u16]
}

/// The groups between the colons of a text from `from` on, the last of which may be an IPv4
/// address where `tail` says so.
pub open spec fn groups_from(text: Seq<u8>, from: int, tail: bool) -> Option<Seq<u16>>
    decreases text.len() - from,
{
    let end = crate::text::find_from(text, from, COLON);
    let part = text.subrange(from, end);
    if !(0 <= from <= end < text.len()) {
        match group_of(part) {
            Some(group) => Some(seq![group as u16]),
            None => match ipv4_of(part) {
                Some(address) => if tail {
                    Some(ipv4_groups(address))
                } else {
                    None
                },
                None => None,
            },
        }
    } else {
        match (group_of(part), groups_from(text, end + 1, tail)) {
            (Some(group), Some(rest)) => Some(seq![group as u16] + rest),
            _ => None,
        }
    }
}

/// The groups of one side of an IPv6 address: none of an empty text.
pub open spec fn side_groups(text: Seq<u8>, tail: bool) -> Option<Seq<u16>> {
    if text.len() == 0 {
        Some(Seq::empty())
    } else {
        groups_from(text, 0, tail)
    }
}

spec fn prepend(head: Seq<u16>, rest: Option<Seq<u16>>) -> Option<Seq<u16>> {
    match rest {
        Some(groups) => Some(head + groups),
        None => None,
    }
}

fn read_side(text: &[u8], tail: bool) -> (groups: Option<Vec<u16>>)
    ensures
        match groups {
            Some(read) => side_groups(text@, tail) == Some(read@),
            None => side_groups(text@, tail) is None,
        },
{
    let mut groups: Vec<u16> = Vec::new();
    if text.len() == 0 {
        assert(groups@ =~= Seq::empty());
        return Some(groups);
    }
    let mut from: usize = 0;
    proof {
        if let Some(all) = groups_from(text@, 0, tail) {
            assert(groups@ + all =~= all);
        }
    }
    loop
        invariant
            0 < text@.len(),
            from <= text@.len(),
            side_groups(text@, tail) == prepend(groups@, groups_from(text@, from as int, tail)),
        decreases text@.len() - from,
    {
        let end: usize = find_byte(text, from, COLON);
        let part = slice_subrange(text, from, end);
        let ghost before = groups@;
        if end < text.len() {
            match read_group(part) {
                Some(group) => {
                    groups.push(group);
                    proof {
                        if let Some(rest) = groups_from(text@, end + 1, tail) {
                            assert(before + (seq![group] + rest) =~= groups@ + rest);
                        }
                    }
                },
                None => {
                    return None;
                },
            }
            from = end + 1;
        } else {
            match read_group(part) {
                Some(group) => {
                    groups.push(group);
                    assert(groups@ =~= before + seq![group]);
                },
                None => match parse_ipv4_text(part) {
                    Some(address) => {
                        if !tail {
                            return None;
                        }
                        groups.push((address.bits / 0x1_0000) as u16);
                        groups.push((address.bits % 0x1_0000) as u16);
                        assert(groups@ =~= before + ipv4_groups(address));
                    },
                    None => {
                        return None;
                    },
                },
            }
            return Some(groups);
        }
    }
}

/// The first position of two colons in a row, or the length where there is none.
pub open spec fn gap_from(text: Seq<u8>, from: int) -> int
    decreases text.len() - from,
{
    if 0 <= from && from + 1 < text.len() {
        if text[from] == COLON && text[from + 1] == COLON {
            from
        } else {
            gap_from(text, from + 1)
        }
    } else {
        text.len() as int
    }
}

/// The number of eight 16-bit groups.
pub open spec fn groups_value(groups: Seq<u16>) -> u128 {
    ((groups[0] * 0x1_0000_0000_0000 + groups[1] * 0x1_0000_0000 + groups[2] * 0x1_0000 + groups[3])
        * 0x1_0000_0000_0000_0000 + (groups[4] * 0x1_0000_0000_0000 + groups[5] * 0x1_0000_0000
        + groups[6] * 0x1_0000 + groups[7])) as u128
}

/// The eight groups of an IPv6 address: all written out, or with two colons in place of at least
/// one zero group.
pub open spec fn ipv6_groups(text: Seq<u8>) -> Option<Seq<u16>> {
    let gap = gap_from(text, 0);
    if gap >= text.len() {
        match side_groups(text, true) {
            Some(groups) => if groups.len() == 8 {
                Some(groups)
            } else {
                None
            },
            None => None,
        }
    } else {
        match (
            side_groups(text.subrange(0, gap), false),
            side_groups(text.subrange(gap + 2, text.len() as int), true),
        ) {
            (Some(head), Some(tail)) => if head.len() + tail.len() <= 7 {
                Some(head + Seq::new((8 - head.len() - tail.len()) as nat, |i: int| 0u16) + tail)
            } else {
                None
            },
            _ => None,
        }
    }
}

pub open spec fn ipv6_of(text: Seq<u8>) -> Option<Ipv6Addr> {
    match ipv6_groups(text) {
        Some(groups) => Some(Ipv6Addr { bits: groups_value(groups) }),
        None => None,
    }
}

fn find_gap(text: &[u8]) -> (gap: usize)
    ensures
        gap == gap_from(text@, 0),
        gap < text@.len() ==> gap + 2 <= text@.len(),
        gap <= text@.len(),
{
    let mut at: usize = 0;
    while at < text.len() && text.len() - at >= 2
        invariant
            at <= text@.len(),
            gap_from(text@, 0) == gap_from(text@, at as int),
        decreases text@.len() - at,
    {
        if text[at] == COLON && text[at + 1] == COLON {
            return at;
        }
        at += 1;
    }
    text.len()
}

fn value_of_groups(groups: &Vec<u16>) -> (bits: u128)
    requires
        groups@.len() == 8,
    ensures
        bits == groups_value(groups@),
{
    let high: u64 = groups[0] as u64 * 0x1_0000_0000_0000 + groups[1] as u64 * 0x1_0000_0000
        + groups[2] as u64 * 0x1_0000 + groups[3] as u64;
    let low: u64 = groups[4] as u64 * 0x1_0000_0000_0000 + groups[5] as u64 * 0x1_0000_0000
        + groups[6] as u64 * 0x1_0000 + groups[7] as u64;
    high as u128 * 0x1_0000_0000_0000_0000 + low as u128
}

/// Reads an IPv6 address.
pub fn parse_ipv6_text(text: &[u8]) -> (address: Option<Ipv6Addr>)
    ensures
        address == ipv6_of(text@),
{
    let gap: usize = find_gap(text);
    if gap >= text.len() {
        return match read_side(text, true) {
            Some(groups) => {
                if groups.len() == 8 {
                    Some(Ipv6Addr { bits: value_of_groups(&groups) })
                } else {
                    None
                }
            },
            None => None,
        };
    }
    let head = read_side(slice_subrange(text, 0, gap), false);
    let tail = read_side(slice_subrange(text, gap + 2, text.len()), true);
    match (head, tail) {
        (Some(head), Some(tail)) => {
            if head.len() > 7 || tail.len() > 7 - head.len() {
                return None;
            }
            let ghost zeros = Seq::new((8 - head@.len() - tail@.len()) as nat, |i: int| 0u16);
            let ghost before = head@;
            let mut groups = head;
            let missing: usize = 8 - groups.len() - tail.len();
            let mut i: usize = 0;
            while i < missing
                invariant
                    i <= missing,
                    zeros == Seq::new(missing as nat, |i: int| 0u16),
                    groups@ == before + zeros.subrange(0, i as int),
                decreases missing - i,
            {
                groups.push(0);
                i += 1;
                assert(groups@ =~= before + zeros.subrange(0, i as int));
            }
            assert(zeros.subrange(0, i as int) =~= zeros);
            let ghost with_zeros = groups@;
            let mut j: usize = 0;
            while j < tail.len()
                invariant
                    j <= tail@.len(),
                    groups@ == with_zeros + tail@.subrange(0, j as int),
                decreases tail@.len() - j,
            {
                groups.push(tail[j]);
                j += 1;
                assert(groups@ =~= with_zeros + tail@.subrange(0, j as int));
            }
            assert(tail@.subrange(0, j as int) =~= tail@);
            Some(Ipv6Addr { bits: value_of_groups(&groups) })
        },
        _ => None,
    }
}

/// The address that a text spells, in either family.
pub open spec fn ip_of(text: Seq<u8>) -> Option<IpAddr> {
    match ipv4_of(text) {
        Some(address) => Some(IpAddr::V4(address)),
        None => match ipv6_of(text) {
            Some(address) => Some(IpAddr::V6(address)),
            None => None,
        },
    }
}

/// Reads an address of either family.
pub fn parse_ip_text(text: &[u8]) -> (address: Option<IpAddr>)
    ensures
        address == ip_of(text@),
{
    match parse_ipv4_text(text) {
        Some(address) => Some(IpAddr::V4(address)),
        None => match parse_ipv6_text(text) {
            Some(address) => Some(IpAddr::V6(address)),
            None => None,
        },
    }
}

impl IpAddr {
    /// Reads an address of either family.
    pub fn parse_text(text: &str) -> (address: Option<IpAddr>)
        ensures
            address == ip_of(text.spec_bytes()),
    {
        parse_ip_text(text.as_bytes())
    }
}

} // verus!
