//! How numbers, addresses, paths and answers are written, and that they are read back as they were
//! meant.

use vstd::prelude::*;

use crate::net::{
    gap_from, group_of, groups_from, groups_value, ip_of, ipv4_of, ipv6_of, is_octet, IpAddr,
    Ipv4Addr, Ipv6Addr,
};
use crate::paths::{component_start, components_from, join_of, parent_of, trim_path};
use crate::policy::config::{cidr_of, u8_of, CidrView};
use crate::text::{
    after_blank_line, blank_line_at, dec_value, decimal_text, find_blank_line, find_char,
    find_from, first_line, has_word, is_digits, last_black, next_white, occurs_in, second_word,
    separates, signed_text, stands_at, text_le, trim_of, u16_of, white_space, word_end,
};

verus! {

/// The bytes of a number in decimal.
pub open spec fn digits(number: nat) -> Seq<u8>
    decreases number,
{
    if number < 10 {
        seq![(48 + number) as u8]
    } else {
        digits(number / 10).push((48 + number % 10) as u8)
    }
}

/// A number is read back as it was written, without a leading zero.
pub proof fn law_numbers_are_read_back(number: nat)
    ensures
        dec_value(digits(number)) == number,
        is_digits(digits(number)),
        digits(number).len() > 0,
        number > 0 ==> digits(number)[0] != 48,
        number < 10 <==> digits(number).len() == 1,
        number < 100 <==> digits(number).len() <= 2,
        number < 1000 <==> digits(number).len() <= 3,
    decreases number,
{
    reveal_with_fuel(dec_value, 2);
    if number >= 10 {
        law_numbers_are_read_back(number / 10);
        let all = digits(number);
        assert(all.drop_last() =~= digits(number / 10));
        assert forall|i: int| 0 <= i < all.len() implies crate::text::is_digit(#[trigger] all[i]) by {
            if i < all.len() - 1 {
                assert(all[i] == digits(number / 10)[i]);
            }
        }
    } else {
        assert(digits(number).drop_last() =~= Seq::<u8>::empty());
    }
}

/// Digits without a leading zero are how their number is written.
pub proof fn law_digits_are_a_number(text: Seq<u8>)
    requires
        text.len() > 0,
        is_digits(text),
        text.len() > 1 ==> text[0] != 48,
    ensures
        digits(dec_value(text)) == text,
        text.len() > 1 ==> dec_value(text) >= 10,
        text[0] != 48 ==> dec_value(text) > 0,
    decreases text.len(),
{
    reveal_with_fuel(dec_value, 2);
    assert(crate::text::is_digit(text[text.len() - 1]));
    if text.len() == 1 {
        assert(text.drop_last() =~= Seq::<u8>::empty());
        assert(digits(dec_value(text)) =~= text);
    } else {
        let front = text.drop_last();
        assert forall|i: int| 0 <= i < front.len() implies crate::text::is_digit(
            #[trigger] front[i],
        ) by {
            assert(front[i] == text[i]);
        }
        assert(front[0] == text[0]);
        law_digits_are_a_number(front);
        assert(dec_value(text) / 10 == dec_value(front));
        assert(digits(dec_value(text)) =~= text);
    }
}

/// A message holds a number digit by digit, with a hyphen before one that is negative.
pub proof fn law_messages_hold_numbers(number: nat)
    ensures
        decimal_text(number).len() == digits(number).len(),
        forall|i: int|
            0 <= i < digits(number).len() ==> #[trigger] decimal_text(number)[i] as int == digits(
                number,
            )[i],
        signed_text(number as int) == decimal_text(number),
        number > 0 ==> signed_text(-(number as int)) == seq!['-'] + decimal_text(number),
    decreases number,
{
    reveal_strlit("-");
    assert("-"@ =~= seq!['-']);
    if number >= 10 {
        law_messages_hold_numbers(number / 10);
        let text = decimal_text(number);
        assert forall|i: int| 0 <= i < digits(number).len() implies #[trigger] text[i] as int
            == digits(number)[i] by {
            if i < digits(number).len() - 1 {
                assert(text[i] == decimal_text(number / 10)[i]);
                assert(digits(number)[i] == digits(number / 10)[i]);
            }
        }
    }
}

/// A number of no more than a limit is read with or without a plus sign; nothing larger is.
pub proof fn law_small_numbers_are_read(number: nat)
    ensures
        number <= 255 ==> u8_of(digits(number)) == Some(number) && u8_of(
            seq![43u8] + digits(number),
        ) == Some(number),
        number > 255 ==> u8_of(digits(number)) is None,
        number <= 65535 ==> u16_of(digits(number)) == Some(number) && u16_of(
            seq![43u8] + digits(number),
        ) == Some(number),
        number > 65535 ==> u16_of(digits(number)) is None,
        u8_of(Seq::empty()) is None && u16_of(Seq::empty()) is None,
{
    law_numbers_are_read_back(number);
    let signed = seq![43u8] + digits(number);
    assert(signed.subrange(1, signed.len() as int) =~= digits(number));
    assert(crate::text::is_digit(digits(number)[0]));
}

/// Four octets with dots between them.
pub open spec fn dotted_quad(a: nat, b: nat, c: nat, d: nat) -> Seq<u8> {
    digits(a) + seq![46u8] + digits(b) + seq![46u8] + digits(c) + seq![46u8] + digits(d)
}

/// An IPv4 address is read from its four octets, the first of which is the most significant.
pub proof fn law_ipv4_addresses_are_read(a: nat, b: nat, c: nat, d: nat)
    requires
        a <= 255,
        b <= 255,
        c <= 255,
        d <= 255,
    ensures
        ipv4_of(dotted_quad(a, b, c, d)) == Some(
            Ipv4Addr { bits: (((a * 256 + b) * 256 + c) * 256 + d) as u32 },
        ),
        (Ipv4Addr { bits: (((a * 256 + b) * 256 + c) * 256 + d) as u32 }).octets_spec() == seq![
            a as u8,
            b as u8,
            c as u8,
            d as u8,
        ],
{
    law_numbers_are_read_back(a);
    law_numbers_are_read_back(b);
    law_numbers_are_read_back(c);
    law_numbers_are_read_back(d);
    lemma_quad(digits(a), digits(b), digits(c), digits(d));
    lemma_octets(a, b, c, d);
}

proof fn lemma_octets(a: nat, b: nat, c: nat, d: nat)
    requires
        a <= 255,
        b <= 255,
        c <= 255,
        d <= 255,
    ensures
        ((a * 256 + b) * 256 + c) * 256 + d == a * 0x100_0000 + b * 0x1_0000 + c * 0x100 + d,
        ((a * 256 + b) * 256 + c) * 256 + d <= u32::MAX,
        (Ipv4Addr { bits: (((a * 256 + b) * 256 + c) * 256 + d) as u32 }).octets_spec() == seq![
            a as u8,
            b as u8,
            c as u8,
            d as u8,
        ],
{
    let bits = (((a * 256 + b) * 256 + c) * 256 + d) as u32;
    assert(bits / 0x100_0000 == a);
    assert(bits / 0x1_0000 == a * 256 + b);
    assert(bits / 0x1_0000 % 0x100 == b);
    assert(bits / 0x100 == (a * 256 + b) * 256 + c);
    assert(bits / 0x100 % 0x100 == c);
    assert(bits % 0x100 == d);
    assert((Ipv4Addr { bits }).octets_spec() =~= seq![a as u8, b as u8, c as u8, d as u8]);
}

/// Octets between dots are read as the address that they make up.
proof fn lemma_quad(a: Seq<u8>, b: Seq<u8>, c: Seq<u8>, d: Seq<u8>)
    requires
        is_octet(a),
        is_octet(b),
        is_octet(c),
        is_octet(d),
    ensures
        ipv4_of(a + seq![46u8] + b + seq![46u8] + c + seq![46u8] + d) == Some(
            Ipv4Addr {
                bits: (dec_value(a) * 0x100_0000 + dec_value(b) * 0x1_0000 + dec_value(c) * 0x100
                    + dec_value(d)) as u32,
            },
        ),
{
    let text = a + seq![46u8] + b + seq![46u8] + c + seq![46u8] + d;
    let first = a.len() as int;
    let second = first + 1 + b.len();
    let third = second + 1 + c.len();
    assert(text[first] == 46 && text[second] == 46 && text[third] == 46);
    assert(text.subrange(0, first) =~= a);
    assert(text.subrange(first + 1, second) =~= b);
    assert(text.subrange(second + 1, third) =~= c);
    assert(text.subrange(third + 1, text.len() as int) =~= d);
    assert(find_from(text, 0, 46) == first) by {
        lemma_digits_hold(a, text, 0, first);
        crate::text::lemma_find_from(text, 0, first, 46);
    }
    assert(find_from(text, first + 1, 46) == second) by {
        lemma_digits_hold(b, text, first + 1, second);
        crate::text::lemma_find_from(text, first + 1, second, 46);
    }
    assert(find_from(text, second + 1, 46) == third) by {
        lemma_digits_hold(c, text, second + 1, third);
        crate::text::lemma_find_from(text, second + 1, third, 46);
    }
}

proof fn lemma_digits_hold(part: Seq<u8>, text: Seq<u8>, from: int, upto: int)
    requires
        0 <= from <= upto <= text.len(),
        text.subrange(from, upto) == part,
        is_digits(part),
    ensures
        forall|j: int| from <= j < upto ==> 48 <= #[trigger] text[j] <= 57,
{
    assert forall|j: int| from <= j < upto implies 48 <= #[trigger] text[j] <= 57 by {
        assert(crate::text::is_digit(part[j - from]));
        assert(text.subrange(from, upto)[j - from] == text[j]);
    }
}

/// Nothing but four octets, each written without a leading zero, is read as an IPv4 address.
pub proof fn law_only_dotted_quads_are_ipv4(text: Seq<u8>)
    ensures
        ipv4_of(text) matches Some(address) ==> text == dotted_quad(
            address.octets_spec()[0] as nat,
            address.octets_spec()[1] as nat,
            address.octets_spec()[2] as nat,
            address.octets_spec()[3] as nat,
        ),
{
    if ipv4_of(text) is Some {
        let first = find_from(text, 0, 46);
        let second = find_from(text, first + 1, 46);
        let third = find_from(text, second + 1, 46);
        lemma_found(text, 0, 46);
        lemma_found(text, first + 1, 46);
        lemma_found(text, second + 1, 46);
        let a = text.subrange(0, first);
        let b = text.subrange(first + 1, second);
        let c = text.subrange(second + 1, third);
        let d = text.subrange(third + 1, text.len() as int);
        law_digits_are_a_number(a);
        law_digits_are_a_number(b);
        law_digits_are_a_number(c);
        law_digits_are_a_number(d);
        lemma_octets(dec_value(a), dec_value(b), dec_value(c), dec_value(d));
        lemma_quad(a, b, c, d);
        assert(text =~= a + seq![46u8] + b + seq![46u8] + c + seq![46u8] + d);
    }
}

proof fn lemma_found(text: Seq<u8>, from: int, byte: u8)
    requires
        0 <= from,
    ensures
        from <= find_from(text, from, byte),
        find_from(text, from, byte) < text.len() ==> text[find_from(text, from, byte)] == byte,
    decreases text.len() - from,
{
    if from < text.len() && text[from] != byte {
        lemma_found(text, from + 1, byte);
    }
}

/// The byte of a hexadecimal digit.
pub open spec fn hex_byte(digit: nat) -> u8 {
    if digit < 10 {
        (48 + digit) as u8
    } else {
        (87 + digit) as u8
    }
}

/// The bytes of a number in hexadecimal.
pub open spec fn hex(number: nat) -> Seq<u8>
    decreases number,
{
    if number < 16 {
        seq![hex_byte(number)]
    } else {
        hex(number / 16).push(hex_byte(number % 16))
    }
}

/// A group of an IPv6 address is read from its hexadecimal digits.
pub proof fn law_groups_are_read(group: nat)
    requires
        group <= 0xffff,
    ensures
        group_of(hex(group)) == Some(group),
        0 < hex(group).len() <= 4,
        group < 16 ==> hex(group).len() == 1,
        group < 256 ==> hex(group).len() <= 2,
        group < 4096 ==> hex(group).len() <= 3,
        forall|i: int| 0 <= i < hex(group).len() ==> #[trigger] hex(group)[i] != 58,
    decreases group,
{
    if group >= 16 {
        law_groups_are_read(group / 16);
        let text = hex(group);
        assert(text.drop_last() =~= hex(group / 16));
        assert forall|i: int| 0 <= i < text.len() implies #[trigger] text[i] != 58 by {
            if i < text.len() - 1 {
                assert(text[i] == hex(group / 16)[i]);
            }
        }
    }
}

/// Groups in hexadecimal with colons between them.
pub open spec fn colon_text(groups: Seq<u16>) -> Seq<u8>
    decreases groups.len(),
{
    if groups.len() == 0 {
        Seq::empty()
    } else if groups.len() == 1 {
        hex(groups[0] as nat)
    } else {
        hex(groups[0] as nat) + seq![58u8] + colon_text(groups.drop_first())
    }
}

proof fn lemma_groups_from(text: Seq<u8>, from: int, groups: Seq<u16>, tail: bool)
    requires
        groups.len() > 0,
        0 <= from <= text.len(),
        text.subrange(from, text.len() as int) == colon_text(groups),
    ensures
        groups_from(text, from, tail) == Some(groups),
    decreases groups.len(),
{
    let first = hex(groups[0] as nat);
    law_groups_are_read(groups[0] as nat);
    let rest = text.subrange(from, text.len() as int);
    let end = from + first.len();
    assert forall|j: int| from <= j < end implies text[j] != 58 by {
        assert(rest[j - from] == text[j]);
        assert(first[j - from] != 58);
        if groups.len() > 1 {
            assert((first + seq![58u8] + colon_text(groups.drop_first()))[j - from] == first[j
                - from]);
        }
    }
    if groups.len() == 1 {
        assert(end == text.len());
        crate::text::lemma_find_from(text, from, end, 58);
        assert(text.subrange(from, end) =~= first);
        assert(groups =~= seq![groups[0]]);
    } else {
        let later = groups.drop_first();
        assert(rest == first + seq![58u8] + colon_text(later));
        assert(rest[first.len() as int] == 58);
        assert(text[end] == 58);
        crate::text::lemma_find_from(text, from, end, 58);
        assert(text.subrange(from, end) =~= first) by {
            assert(rest.subrange(0, first.len() as int) =~= first);
        }
        assert(text.subrange(end + 1, text.len() as int) =~= colon_text(later)) by {
            assert(rest.subrange(first.len() + 1int, rest.len() as int) =~= colon_text(later));
        }
        lemma_groups_from(text, end + 1, later, tail);
        assert(seq![groups[0]] + later =~= groups);
    }
}

proof fn lemma_single_colons(groups: Seq<u16>)
    ensures
        groups.len() > 0 ==> colon_text(groups).len() > 0 && colon_text(groups)[0] != 58
            && colon_text(groups).last() != 58,
        forall|i: int|
            0 <= i < colon_text(groups).len() - 1 ==> !(#[trigger] colon_text(groups)[i] == 58
                && colon_text(groups)[i + 1] == 58),
    decreases groups.len(),
{
    if groups.len() > 0 {
        law_groups_are_read(groups[0] as nat);
        let first = hex(groups[0] as nat);
        if groups.len() > 1 {
            let later = colon_text(groups.drop_first());
            lemma_single_colons(groups.drop_first());
            let text = colon_text(groups);
            assert(text == first + seq![58u8] + later);
            assert(text[0] == first[0]);
            assert(text.last() == later.last());
            assert forall|i: int| 0 <= i < text.len() - 1 implies !(#[trigger] text[i] == 58
                && text[i + 1] == 58) by {
                if i < first.len() {
                    assert(text[i] == first[i]);
                } else if i == first.len() {
                    assert(text[i + 1] == later[0]);
                } else {
                    assert(text[i] == later[i - first.len() - 1]);
                    assert(text[i + 1] == later[i - first.len()]);
                }
            }
        }
    }
}

proof fn lemma_gap(text: Seq<u8>, from: int, at: int)
    requires
        0 <= from <= at,
        at + 1 < text.len(),
        text[at] == 58,
        text[at + 1] == 58,
        forall|i: int| from <= i < at ==> !(#[trigger] text[i] == 58 && text[i + 1] == 58),
    ensures
        gap_from(text, from) == at,
    decreases at - from,
{
    if from < at {
        assert(!(text[from] == 58 && text[from + 1] == 58));
        lemma_gap(text, from + 1, at);
    }
}

proof fn lemma_no_gap(text: Seq<u8>, from: int)
    requires
        0 <= from,
        forall|i: int|
            from <= i < text.len() - 1 ==> !(#[trigger] text[i] == 58 && text[i + 1] == 58),
    ensures
        gap_from(text, from) == text.len(),
    decreases text.len() - from,
{
    if from + 1 < text.len() {
        assert(!(text[from] == 58 && text[from + 1] == 58));
        lemma_no_gap(text, from + 1);
    }
}

/// An IPv6 address is read from its eight groups, the first of which is the most significant.
pub proof fn law_ipv6_addresses_are_read(groups: Seq<u16>)
    requires
        groups.len() == 8,
    ensures
        ipv6_of(colon_text(groups)) == Some(Ipv6Addr { bits: groups_value(groups) }),
{
    let text = colon_text(groups);
    lemma_single_colons(groups);
    lemma_no_gap(text, 0);
    assert(text.subrange(0, text.len() as int) =~= text);
    lemma_groups_from(text, 0, groups, true);
}

/// Two colons stand for as many zero groups as are missing.
pub proof fn law_zero_groups_may_be_left_out(head: Seq<u16>, tail: Seq<u16>, zeros: Seq<u16>)
    requires
        zeros.len() >= 1,
        head.len() + zeros.len() + tail.len() == 8,
        forall|i: int| 0 <= i < zeros.len() ==> zeros[i] == 0,
    ensures
        ipv6_of(colon_text(head) + seq![58u8, 58u8] + colon_text(tail)) == Some(
            Ipv6Addr { bits: groups_value(head + zeros + tail) },
        ),
{
    let left = colon_text(head);
    let right = colon_text(tail);
    let text = left + seq![58u8, 58u8] + right;
    let at = left.len() as int;
    lemma_single_colons(head);
    assert(text[at] == 58 && text[at + 1] == 58);
    assert forall|i: int| 0 <= i < at implies !(#[trigger] text[i] == 58 && text[i + 1] == 58) by {
        assert(text[i] == left[i]);
        if i + 1 < at {
            assert(text[i + 1] == left[i + 1]);
        } else {
            assert(left[i] == left.last());
            assert(head.len() > 0);
        }
    }
    lemma_gap(text, 0, at);
    assert(text.subrange(0, at) =~= left);
    assert(text.subrange(at + 2, text.len() as int) =~= right);
    lemma_single_colons(tail);
    if head.len() > 0 {
        assert(left.subrange(0, left.len() as int) =~= left);
        lemma_groups_from(left, 0, head, false);
    } else {
        assert(head =~= Seq::<u16>::empty());
    }
    if tail.len() > 0 {
        assert(right.subrange(0, right.len() as int) =~= right);
        lemma_groups_from(right, 0, tail, true);
    } else {
        assert(tail =~= Seq::<u16>::empty());
    }
    let filled = Seq::new((8 - head.len() - tail.len()) as nat, |i: int| 0u16);
    assert(zeros =~= filled);
}

/// The number of an IPv6 address holds its groups, the first in its highest bits.
pub proof fn law_groups_make_the_number(groups: Seq<u16>)
    requires
        groups.len() == 8,
    ensures
        groups_value(groups) as int == ((((((groups[0] * 65536 + groups[1]) * 65536 + groups[2])
            * 65536 + groups[3]) * 65536 + groups[4]) * 65536 + groups[5]) * 65536 + groups[6])
            * 65536 + groups[7],
{
    let high = groups[0] * 0x1_0000_0000_0000 + groups[1] * 0x1_0000_0000 + groups[2] * 0x1_0000
        + groups[3];
    let low = groups[4] * 0x1_0000_0000_0000 + groups[5] * 0x1_0000_0000 + groups[6] * 0x1_0000
        + groups[7];
    assert(0 <= high < 0x1_0000_0000_0000_0000);
    assert(0 <= low < 0x1_0000_0000_0000_0000);
    assert(high * 0x1_0000_0000_0000_0000 + low <= u128::MAX);
}

/// A block is read from its address and its prefix, which is no longer than the address.
pub proof fn law_blocks_are_read(address: Seq<u8>, meant: IpAddr, prefix: nat)
    requires
        ip_of(address) == Some(meant),
        address.len() > 0,
        !address.contains(47u8),
        prefix <= 255,
    ensures
        prefix <= crate::policy::config::address_width(meant) ==> cidr_of(
            address + seq![47u8] + digits(prefix),
        ) == Ok::<CidrView, Seq<char>>(CidrView { address: meant, prefix }),
        prefix > crate::policy::config::address_width(meant) ==> cidr_of(
            address + seq![47u8] + digits(prefix),
        ) is Err,
        cidr_of(address) is Err,
        meant is V4 ==> crate::policy::config::address_width(meant) == 32,
        meant is V6 ==> crate::policy::config::address_width(meant) == 128,
{
    law_small_numbers_are_read(prefix);
    law_numbers_are_read_back(prefix);
    let number = digits(prefix);
    let text = address + seq![47u8] + number;
    let at = address.len() as int;
    assert forall|j: int| 0 <= j < at implies text[j] != 47 && address[j] != 47 by {
        assert(address.contains(address[j]));
        assert(text[j] == address[j]);
    }
    crate::text::lemma_find_from(text, 0, at, 47);
    crate::text::lemma_find_from(address, 0, at, 47);
    assert(text.subrange(0, at) =~= address);
    assert(text.subrange(at + 1, text.len() as int) =~= number);
    assert(!number.contains(47u8)) by {
        if number.contains(47u8) {
            let j = choose|j: int| 0 <= j < number.len() && number[j] == 47u8;
            assert(crate::text::is_digit(number[j]));
        }
    }
}

/// Whether a text is nothing but white space.
pub open spec fn is_blank(text: Seq<char>) -> bool {
    forall|i: int| 0 <= i < text.len() ==> white_space(#[trigger] text[i])
}

/// Whether a text is a word: something, and no white space in it.
pub open spec fn is_word(text: Seq<char>) -> bool {
    text.len() > 0 && forall|i: int| 0 <= i < text.len() ==> !white_space(#[trigger] text[i])
}

proof fn lemma_next_white(text: Seq<char>, from: int, at: int, white: bool)
    requires
        0 <= from <= at <= text.len(),
        forall|i: int| from <= i < at ==> white_space(#[trigger] text[i]) != white,
        at < text.len() ==> white_space(text[at]) == white,
    ensures
        next_white(text, from, white) == at,
    decreases at - from,
{
    if from < at {
        assert(white_space(text[from]) != white);
        lemma_next_white(text, from + 1, at, white);
    }
}

proof fn lemma_last_black(text: Seq<char>, upto: int, at: int)
    requires
        0 <= at <= upto <= text.len(),
        forall|i: int| at <= i < upto ==> white_space(#[trigger] text[i]),
        at > 0 ==> !white_space(text[at - 1]),
    ensures
        last_black(text, upto) == at,
    decreases upto - at,
{
    if at < upto {
        assert(white_space(text[upto - 1]));
        lemma_last_black(text, upto - 1, at);
    }
}

/// The white space around a text is cut off, and nothing else; a text of white space alone is
/// empty.
pub proof fn law_white_space_around_is_cut_off(left: Seq<char>, text: Seq<char>, right: Seq<char>)
    requires
        is_blank(left),
        is_blank(right),
        text.len() > 0 ==> !white_space(text[0]) && !white_space(text.last()),
    ensures
        trim_of(left + text + right) == text,
{
    let whole = left + text + right;
    let start = left.len() as int;
    let end = start + text.len();
    if text.len() > 0 {
        assert forall|i: int| 0 <= i < start implies white_space(#[trigger] whole[i]) by {
            assert(whole[i] == left[i]);
        }
        assert forall|i: int| end <= i < whole.len() implies white_space(#[trigger] whole[i]) by {
            assert(whole[i] == right[i - end]);
        }
        assert(whole[start] == text[0]);
        assert(whole[end - 1] == text.last());
        lemma_next_white(whole, 0, start, false);
        lemma_last_black(whole, whole.len() as int, end);
        assert(whole.subrange(start, end) =~= text);
    } else {
        assert forall|i: int| 0 <= i < whole.len() implies white_space(#[trigger] whole[i]) by {
            if i < start {
                assert(whole[i] == left[i]);
            } else {
                assert(whole[i] == right[i - end]);
            }
        }
        lemma_next_white(whole, 0, whole.len() as int, false);
        lemma_last_black(whole, whole.len() as int, 0);
        assert(text =~= Seq::<char>::empty());
    }
}

/// The second word of a line is found behind the first, however much white space stands between
/// them.
pub proof fn law_second_word_is_found(
    first: Seq<char>,
    space: Seq<char>,
    second: Seq<char>,
    rest: Seq<char>,
)
    requires
        is_word(first),
        is_blank(space),
        space.len() > 0,
        is_word(second),
        rest.len() > 0 ==> white_space(rest[0]),
    ensures
        second_word(first + space + second + rest) == Some(second),
{
    let text = first + space + second + rest;
    let a = first.len() as int;
    let b = a + space.len();
    let c = b + second.len();
    assert forall|i: int| 0 <= i < a implies !white_space(#[trigger] text[i]) by {
        assert(text[i] == first[i]);
    }
    assert forall|i: int| a <= i < b implies white_space(#[trigger] text[i]) by {
        assert(text[i] == space[i - a]);
    }
    assert forall|i: int| b <= i < c implies !white_space(#[trigger] text[i]) by {
        assert(text[i] == second[i - b]);
    }
    if c < text.len() {
        assert(text[c] == rest[0]);
    }
    lemma_next_white(text, 0, 0, false);
    lemma_next_white(text, 0, a, true);
    lemma_next_white(text, a, b, false);
    lemma_next_white(text, b, c, true);
    assert(text.subrange(b, c) =~= second);
}

proof fn lemma_find_char(text: Seq<char>, from: int, at: int, wanted: char)
    requires
        0 <= from <= at <= text.len(),
        forall|i: int| from <= i < at ==> #[trigger] text[i] != wanted,
        at < text.len() ==> text[at] == wanted,
    ensures
        find_char(text, from, wanted) == at,
    decreases at - from,
{
    if from < at {
        assert(text[from] != wanted);
        lemma_find_char(text, from + 1, at, wanted);
    }
}

/// The first line ends at the first line feed, with a carriage return before it or without.
pub proof fn law_first_line_is_found(line: Seq<char>, rest: Seq<char>)
    requires
        forall|i: int| 0 <= i < line.len() ==> #[trigger] line[i] != '\n',
    ensures
        first_line(line + seq!['\r', '\n'] + rest) == Some(line),
        line.len() > 0 && line.last() != '\r' ==> first_line(line + seq!['\n'] + rest) == Some(line),
        line.len() > 0 ==> first_line(line) == Some(line),
        first_line(Seq::empty()) is None,
{
    let long = line + seq!['\r', '\n'] + rest;
    let at = line.len() as int;
    assert forall|i: int| 0 <= i < at + 1 implies #[trigger] long[i] != '\n' by {
        if i < at {
            assert(long[i] == line[i]);
        }
    }
    lemma_find_char(long, 0, at + 1, '\n');
    assert(long.subrange(0, at) =~= line);
    let short = line + seq!['\n'] + rest;
    assert forall|i: int| 0 <= i < at implies #[trigger] short[i] != '\n' by {
        assert(short[i] == line[i]);
    }
    lemma_find_char(short, 0, at, '\n');
    assert(short.subrange(0, at) =~= line);
    if at > 0 {
        assert(short[at - 1] == line.last());
    }
    lemma_find_char(line, 0, at, '\n');
    assert(line.subrange(0, at) =~= line);
}

proof fn lemma_find_blank_line(text: Seq<char>, from: int, at: int)
    requires
        0 <= from <= at < text.len(),
        blank_line_at(text, at),
        forall|i: int| from <= i < at ==> !blank_line_at(text, i),
    ensures
        find_blank_line(text, from) == at,
    decreases at - from,
{
    if from < at {
        lemma_find_blank_line(text, from + 1, at);
    }
}

proof fn lemma_no_blank_line(text: Seq<char>, from: int)
    requires
        0 <= from,
        forall|i: int| from <= i < text.len() ==> !blank_line_at(text, i),
    ensures
        find_blank_line(text, from) == text.len(),
    decreases text.len() - from,
{
    if from < text.len() {
        assert(!blank_line_at(text, from));
        lemma_no_blank_line(text, from + 1);
    }
}

/// The body of an answer is what stands behind its first empty line; an answer without one has no
/// body.
pub proof fn law_body_stands_behind_the_empty_line(head: Seq<char>, body: Seq<char>)
    requires
        forall|i: int| 0 <= i < head.len() ==> !(#[trigger] head[i] == '\r'),
    ensures
        after_blank_line(head + seq!['\r', '\n', '\r', '\n'] + body) == body,
        after_blank_line(head) == Seq::<char>::empty(),
{
    let text = head + seq!['\r', '\n', '\r', '\n'] + body;
    let at = head.len() as int;
    assert(blank_line_at(text, at));
    assert forall|i: int| 0 <= i < at implies !blank_line_at(text, i) by {
        assert(text[i] == head[i]);
    }
    lemma_find_blank_line(text, 0, at);
    assert(text.subrange(at + 4, text.len() as int) =~= body);
    lemma_no_blank_line(head, 0);
}

/// An answer whose first line is its protocol, a code and a reason has that code as its status.
pub proof fn law_answers_state_their_code(
    protocol: Seq<char>,
    code: Seq<char>,
    reason: Seq<char>,
    rest: Seq<char>,
)
    requires
        is_word(protocol),
        is_word(code),
        forall|i: int| 0 <= i < reason.len() ==> #[trigger] reason[i] != '\n',
    ensures
        crate::libkrun::publish::response_status(
            protocol + seq![' '] + code + (seq![' '] + reason) + seq!['\r', '\n'] + rest,
        ) == u16_of(vstd::utf8::encode_utf8(code)),
{
    let line = protocol + seq![' '] + code + (seq![' '] + reason);
    let a = protocol.len() as int;
    let b = a + 1 + code.len();
    assert forall|i: int| 0 <= i < line.len() implies #[trigger] line[i] != '\n' by {
        if i < a {
            assert(line[i] == protocol[i]);
        } else if a < i < b {
            assert(line[i] == code[i - a - 1]);
        } else if i > b {
            assert(line[i] == reason[i - b - 1]);
        }
    }
    law_first_line_is_found(line, rest);
    law_second_word_is_found(protocol, seq![' '], code, seq![' '] + reason);
}

/// A text occurs in every text that holds it, and in none that is shorter.
pub proof fn law_parts_occur_in_the_whole(left: Seq<char>, part: Seq<char>, right: Seq<char>)
    ensures
        occurs_in(left + part + right, part),
        left.len() < part.len() ==> !occurs_in(left, part),
{
    let whole = left + part + right;
    assert(whole.subrange(left.len() as int, (left.len() + part.len()) as int) =~= part);
    assert(stands_at(whole, part, left.len() as int));
}

proof fn lemma_word_end(text: Seq<char>, from: int, at: int)
    requires
        0 <= from <= at <= text.len(),
        forall|i: int| from <= i < at ==> !separates(#[trigger] text[i]),
        at < text.len() ==> separates(text[at]),
    ensures
        word_end(text, from) == at,
    decreases at - from,
{
    if from < at {
        assert(!separates(text[from]));
        lemma_word_end(text, from + 1, at);
    }
}

proof fn lemma_word_bounds(text: Seq<char>, from: int)
    requires
        0 <= from <= text.len(),
    ensures
        from <= word_end(text, from) <= text.len(),
        word_end(text, from) < text.len() ==> separates(text[word_end(text, from)]),
        forall|i: int| from <= i < word_end(text, from) ==> !separates(#[trigger] text[i]),
    decreases text.len() - from,
{
    if from < text.len() && !separates(text[from]) {
        lemma_word_bounds(text, from + 1);
    }
}

/// A word is found wherever it stands between characters that separate words, or at an end of the
/// text.
pub proof fn law_words_are_found(text: Seq<char>, from: int, at: int, word: Seq<char>)
    requires
        0 <= from <= at,
        at + word.len() <= text.len(),
        text.subrange(at, at + word.len()) == word,
        word.len() > 0,
        forall|i: int| 0 <= i < word.len() ==> !separates(#[trigger] word[i]),
        at > from ==> separates(text[at - 1]),
        at + word.len() < text.len() ==> separates(text[at + word.len()]),
    ensures
        has_word(text, word, from),
    decreases at - from,
{
    let end = at + word.len();
    assert forall|i: int| at <= i < end implies !separates(#[trigger] text[i]) by {
        assert(text.subrange(at, end)[i - at] == text[i]);
        assert(!separates(word[i - at]));
    }
    if from == at {
        lemma_word_end(text, from, end);
    } else {
        lemma_word_bounds(text, from);
        let next = word_end(text, from);
        assert(next < at);
        law_words_are_found(text, next + 1, at, word);
    }
}

/// Texts are ordered by the first character in which they differ, and a text comes before all that
/// it begins.
pub proof fn law_texts_are_ordered_by_their_first_difference(
    start: Seq<char>,
    left: char,
    right: char,
    rest: Seq<char>,
    other: Seq<char>,
)
    ensures
        left < right ==> text_le(start + seq![left] + rest, start + seq![right] + other)
            && !text_le(start + seq![right] + other, start + seq![left] + rest),
        text_le(start, start + rest),
        rest.len() > 0 ==> !text_le(start + rest, start),
    decreases start.len(),
{
    let first = start + seq![left] + rest;
    let second = start + seq![right] + other;
    let third = start + rest;
    if start.len() > 0 {
        let shorter = start.drop_first();
        law_texts_are_ordered_by_their_first_difference(shorter, left, right, rest, other);
        assert(first.drop_first() =~= shorter + seq![left] + rest);
        assert(second.drop_first() =~= shorter + seq![right] + other);
        assert(third.drop_first() =~= shorter + rest);
    } else {
        assert(first[0] == left && second[0] == right);
    }
}

/// Whether a text can be a component of a path.
pub open spec fn is_component(name: Seq<char>) -> bool {
    &&& name.len() > 0
    &&& name != seq!['.']
    &&& forall|i: int| 0 <= i < name.len() ==> #[trigger] name[i] != '/'
}

proof fn lemma_component_begins(path: Seq<char>, upto: int, at: int)
    requires
        0 <= at <= upto <= path.len(),
        forall|i: int| at <= i < upto ==> #[trigger] path[i] != '/',
        at > 0 ==> path[at - 1] == '/',
    ensures
        component_start(path, upto) == at,
    decreases upto - at,
{
    if at < upto {
        assert(path[upto - 1] != '/');
        lemma_component_begins(path, upto - 1, at);
    }
}

/// What is put below a directory has that directory as its parent.
pub proof fn law_parent_is_where_it_was_put(directory: Seq<char>, name: Seq<char>)
    requires
        directory.len() > 0,
        directory.last() != '/',
        trim_path(directory) == directory,
        is_component(name),
    ensures
        join_of(directory, name) == directory + seq!['/'] + name,
        parent_of(join_of(directory, name)) == Some(directory),
        parent_of(seq!['/'] + name) == Some(seq!['/']),
        parent_of(seq!['/']) is None,
        join_of(directory, seq!['/'] + name) == seq!['/'] + name,
        join_of(directory + seq!['/'], name) == directory + seq!['/'] + name,
{
    reveal_strlit("/");
    assert("/"@ =~= seq!['/']);
    assert(name[0] != '/');
    let path = directory + seq!['/'] + name;
    let at = directory.len() + 1int;
    assert(path.last() == name.last());
    assert(name[name.len() - 1] != '/');
    lemma_untouched(path, name);
    assert forall|i: int| at <= i < path.len() implies #[trigger] path[i] != '/' by {
        assert(path[i] == name[i - at]);
    }
    lemma_component_begins(path, path.len() as int, at);
    let above = path.subrange(0, at);
    assert(above =~= directory + seq!['/']);
    assert(above.drop_last() =~= directory);
    assert(trim_path(above) == trim_path(directory));
    assert(path != seq!['/']);
    let root = seq!['/'] + name;
    lemma_untouched(root, name);
    assert forall|i: int| 1 <= i < root.len() implies #[trigger] root[i] != '/' by {
        assert(root[i] == name[i - 1]);
    }
    lemma_component_begins(root, root.len() as int, 1);
    assert(root.subrange(0, 1) =~= seq!['/']);
    assert(trim_path(seq!['/']) == seq!['/']);
    assert(root != seq!['/']) by {
        assert(root.len() > 1);
    }
}

pub(crate) proof fn lemma_untouched(path: Seq<char>, name: Seq<char>)
    requires
        is_component(name),
        name.is_suffix_of(path),
        path.len() > name.len(),
        path[path.len() - name.len() - 1] == '/',
    ensures
        trim_path(path) == path,
{
    let shift = path.len() - name.len();
    assert(path.last() == name[name.len() - 1]);
    if path.last() == '.' && path[path.len() - 2] == '/' {
        if name.len() > 1 {
            assert(name[name.len() - 2] == path[path.len() - 2]);
            assert(false);
        } else {
            assert(name =~= seq!['.']);
        }
    }
}

/// Components with a slash before each.
pub open spec fn path_text(names: Seq<Seq<char>>) -> Seq<char>
    decreases names.len(),
{
    if names.len() == 0 {
        Seq::empty()
    } else {
        seq!['/'] + names[0] + path_text(names.drop_first())
    }
}

/// A path is made up of the components that it was put together from, in their order.
pub proof fn law_paths_are_made_of_components(names: Seq<Seq<char>>)
    requires
        forall|i: int| 0 <= i < names.len() ==> is_component(#[trigger] names[i]),
    ensures
        components_from(path_text(names), 0) == names,
{
    if names.len() > 0 {
        let path = path_text(names);
        assert(path[0] == '/');
        lemma_find_char(path, 0, 0, '/');
        assert(path.subrange(0, 0) =~= Seq::<char>::empty());
        assert(path.subrange(0, path.len() as int) =~= path);
        lemma_components(path, 0, names);
    } else {
        assert(names =~= Seq::<Seq<char>>::empty());
    }
}

pub(crate) proof fn lemma_path_grows(names: Seq<Seq<char>>, name: Seq<char>)
    ensures
        path_text(names.push(name)) == path_text(names) + seq!['/'] + name,
    decreases names.len(),
{
    let longer = names.push(name);
    if names.len() == 0 {
        assert(longer.drop_first() =~= Seq::<Seq<char>>::empty());
        reveal_with_fuel(path_text, 2);
        assert(path_text(longer) =~= path_text(names) + seq!['/'] + name);
    } else {
        assert(longer.drop_first() =~= names.drop_first().push(name));
        lemma_path_grows(names.drop_first(), name);
        assert(path_text(longer) =~= path_text(names) + seq!['/'] + name);
    }
}

/// A path is what it is: nothing is cut off at its end, and what is put below it lies in it.
pub proof fn law_paths_hold_what_is_put_below(names: Seq<Seq<char>>, name: Seq<char>)
    requires
        names.len() > 0,
        forall|i: int| 0 <= i < names.len() ==> is_component(#[trigger] names[i]),
        is_component(name),
    ensures
        trim_path(path_text(names)) == path_text(names),
        parent_of(path_text(names.push(name))) == Some(path_text(names)),
        join_of(path_text(names), name) == path_text(names.push(name)),
{
    let front = names.drop_last();
    let last = names.last();
    assert(front.push(last) =~= names);
    assert(is_component(names[names.len() - 1]));
    lemma_path_grows(front, last);
    let path = path_text(names);
    assert(path.last() == last.last());
    assert(last[last.len() - 1] != '/');
    lemma_untouched(path, last);
    lemma_path_grows(names, name);
    law_parent_is_where_it_was_put(path, name);
}

proof fn lemma_components(path: Seq<char>, from: int, names: Seq<Seq<char>>)
    requires
        names.len() > 0,
        0 <= from < path.len(),
        path.subrange(from, path.len() as int) == path_text(names),
        forall|i: int| 0 <= i < names.len() ==> is_component(#[trigger] names[i]),
    ensures
        components_from(path, from + 1) == names,
    decreases names.len(),
{
    reveal_strlit(".");
    assert("."@ =~= seq!['.']);
    let name = names[0];
    let later = names.drop_first();
    let rest = path.subrange(from, path.len() as int);
    let begin = from + 1;
    let end = begin + name.len();
    assert(is_component(name));
    assert(rest == seq!['/'] + name + path_text(later));
    assert forall|i: int| begin <= i < end implies #[trigger] path[i] != '/' by {
        assert(rest[i - from] == path[i]);
        assert((seq!['/'] + name + path_text(later))[i - from] == name[i - begin]);
    }
    assert(path.subrange(begin, end) =~= name) by {
        assert forall|i: int| 0 <= i < name.len() implies path[begin + i] == name[i] by {
            assert(rest[i + 1] == path[begin + i]);
        }
    }
    if later.len() == 0 {
        assert(path_text(later) =~= Seq::<char>::empty());
        assert(end == path.len());
        lemma_find_char(path, begin, end, '/');
        assert(names =~= seq![name]);
        assert(seq![name] + Seq::<Seq<char>>::empty() =~= seq![name]);
    } else {
        let below = path_text(later);
        assert(below[0] == '/');
        assert(rest[name.len() + 1int] == '/');
        assert(path[end] == '/');
        lemma_find_char(path, begin, end, '/');
        assert(path.subrange(end, path.len() as int) =~= below) by {
            assert forall|i: int| 0 <= i < below.len() implies path[end + i] == below[i] by {
                assert(rest[name.len() + 1 + i] == path[end + i]);
                assert((seq!['/'] + name + below)[name.len() + 1 + i] == below[i]);
            }
        }
        assert forall|i: int| 0 <= i < later.len() implies is_component(#[trigger] later[i]) by {
            assert(later[i] == names[i + 1]);
        }
        lemma_components(path, end, later);
        assert(seq![name] + later =~= names);
    }
}

} // verus!
