//! What passes, what is held and what is refused, frame by frame.

use vstd::prelude::*;

use crate::net::{IpAddr, Ipv4Addr, Ipv6Addr};
use crate::policy::config::{CidrView, ConfigView};
use crate::policy::dns::RecordView;
use crate::policy::domain::PatternView;
use crate::policy::frames::{ipv4_header, ipv6_bytes, long, tcp_bytes, udp_bytes, word};
use crate::policy::model::{
    DnsQueryKey, EngineView, FlowKey, FlowView, QueryView, Step, Transport,
};
use crate::policy::packet::{IpPacketView, TcpPacketView, UdpPacketView};
use crate::policy::tls::TlsParseView;
use crate::policy::{AllowReason, DenyReason, FrameDirection, HoldReason, PolicyDecision, PolicyMode};

verus! {

/// A frame: the addresses of its ends, the type of what it carries, and that.
pub open spec fn frame_bytes(ends: Seq<u8>, kind: u16, payload: Seq<u8>) -> Seq<u8> {
    ends + word(kind) + payload
}

proof fn lemma_frame(ends: Seq<u8>, kind: u16, payload: Seq<u8>)
    requires
        ends.len() == 12,
    ensures
        ({
            let frame = frame_bytes(ends, kind, payload);
            &&& frame.len() == 14 + payload.len()
            &&& crate::bytes::be16(frame, 12) == kind
            &&& frame.subrange(14, frame.len() as int) == payload
        }),
{
    let frame = frame_bytes(ends, kind, payload);
    assert(frame[12] == word(kind)[0] && frame[13] == word(kind)[1]);
    assert(frame.subrange(14, frame.len() as int) =~= payload);
}

proof fn lemma_packet_in_frame(
    config: ConfigView,
    state: EngineView,
    direction: FrameDirection,
    ends: Seq<u8>,
    kind: u16,
    payload: Seq<u8>,
    packet: IpPacketView,
    now: int,
)
    requires
        config.mode != PolicyMode::Disabled,
        ends.len() == 12,
        kind == 0x0800 || kind == 0x86dd,
        crate::policy::model::ip_packet(kind, payload) == Ok::<IpPacketView, DenyReason>(packet),
    ensures
        crate::policy::model::step(
            config,
            state,
            direction,
            frame_bytes(ends, kind, payload),
            now,
        ) == crate::policy::model::ip_step(config, state.expired(now), direction, packet, now),
{
    lemma_frame(ends, kind, payload);
}

proof fn lemma_segment_in_packet(
    config: ConfigView,
    state: EngineView,
    direction: FrameDirection,
    packet: IpPacketView,
    tcp: TcpPacketView,
    now: int,
)
    requires
        packet.protocol == 6,
        crate::policy::packet::tcp_packet(packet.payload) == Some(tcp),
    ensures
        crate::policy::model::ip_step(config, state, direction, packet, now)
            == crate::policy::model::tcp_step(
            config,
            state,
            direction,
            packet.source,
            packet.destination,
            tcp,
            now,
        ),
{
}

proof fn lemma_datagram_in_packet(
    config: ConfigView,
    state: EngineView,
    direction: FrameDirection,
    packet: IpPacketView,
    udp: UdpPacketView,
    now: int,
)
    requires
        packet.protocol == 17,
        crate::policy::packet::udp_packet(packet.payload) == Some(udp),
    ensures
        crate::policy::model::ip_step(config, state, direction, packet, now)
            == crate::policy::model::udp_step(
            config,
            state,
            direction,
            packet.source,
            packet.destination,
            udp,
            now,
        ),
{
}

/// A TCP segment in an IPv4 packet in a frame is decided as that segment between these addresses.
#[verifier::spinoff_prover]
#[verifier::rlimit(60)]
pub proof fn law_tcp_frame_is_decided_as_its_segment(
    config: ConfigView,
    state: EngineView,
    direction: FrameDirection,
    ends: Seq<u8>,
    service: u8,
    id: u16,
    lifetime: u8,
    sum: u16,
    source: u32,
    destination: u32,
    packet_options: Seq<u8>,
    source_port: u16,
    destination_port: u16,
    sequence: u32,
    acknowledged: u32,
    flags: u8,
    rest: Seq<u8>,
    options: Seq<u8>,
    data: Seq<u8>,
    trailer: Seq<u8>,
    now: int,
)
    requires
        config.mode != PolicyMode::Disabled,
        ends.len() == 12,
        packet_options.len() % 4 == 0,
        packet_options.len() <= 40,
        rest.len() == 6,
        options.len() % 4 == 0,
        options.len() <= 40,
        40 + packet_options.len() + options.len() + data.len() <= 0xffff,
        crate::policy::packet::checksum_spec(
            ipv4_header(
                service,
                (40 + packet_options.len() + options.len() + data.len()) as u16,
                id,
                0x4000,
                lifetime,
                6,
                sum,
                source,
                destination,
                packet_options,
            ),
        ) == 0,
    ensures
        ({
            let segment = tcp_bytes(
                source_port,
                destination_port,
                sequence,
                acknowledged,
                flags,
                rest,
                options,
                data,
            );
            let header = ipv4_header(
                service,
                (40 + packet_options.len() + options.len() + data.len()) as u16,
                id,
                0x4000,
                lifetime,
                6,
                sum,
                source,
                destination,
                packet_options,
            );
            crate::policy::model::step(
                config,
                state,
                direction,
                frame_bytes(ends, 0x0800, header + segment + trailer),
                now,
            ) == crate::policy::model::tcp_step(
                config,
                state.expired(now),
                direction,
                IpAddr::V4(Ipv4Addr { bits: source }),
                IpAddr::V4(Ipv4Addr { bits: destination }),
                TcpPacketView {
                    source_port,
                    destination_port,
                    sequence,
                    syn: flags & 0x02 != 0,
                    ack: flags & 0x10 != 0,
                    rst: flags & 0x04 != 0,
                    payload: data,
                },
                now,
            )
        }),
{
    let segment = tcp_bytes(
        source_port,
        destination_port,
        sequence,
        acknowledged,
        flags,
        rest,
        options,
        data,
    );
    let header = ipv4_header(
        service,
        (40 + packet_options.len() + options.len() + data.len()) as u16,
        id,
        0x4000,
        lifetime,
        6,
        sum,
        source,
        destination,
        packet_options,
    );
    crate::policy::frames::lemma_tcp_length(
        source_port,
        destination_port,
        sequence,
        acknowledged,
        flags,
        rest,
        options,
        data,
    );
    crate::policy::frames::law_ipv4_packet_comes_apart(
        service,
        id,
        0x4000,
        lifetime,
        6,
        sum,
        source,
        destination,
        packet_options,
        segment,
        trailer,
    );
    crate::policy::frames::law_tcp_segment_comes_apart(
        source_port,
        destination_port,
        sequence,
        acknowledged,
        flags,
        rest,
        options,
        data,
    );
    let packet = IpPacketView {
        source: IpAddr::V4(Ipv4Addr { bits: source }),
        destination: IpAddr::V4(Ipv4Addr { bits: destination }),
        protocol: 6,
        payload: segment,
    };
    let tcp = TcpPacketView {
        source_port,
        destination_port,
        sequence,
        syn: flags & 0x02 != 0,
        ack: flags & 0x10 != 0,
        rst: flags & 0x04 != 0,
        payload: data,
    };
    lemma_packet_in_frame(
        config,
        state,
        direction,
        ends,
        0x0800,
        header + segment + trailer,
        packet,
        now,
    );
    lemma_segment_in_packet(config, state.expired(now), direction, packet, tcp, now);
}

/// A UDP datagram in an IPv4 packet in a frame is decided as that datagram between these addresses.
#[verifier::spinoff_prover]
#[verifier::rlimit(60)]
pub proof fn law_udp_frame_is_decided_as_its_datagram(
    config: ConfigView,
    state: EngineView,
    direction: FrameDirection,
    ends: Seq<u8>,
    service: u8,
    id: u16,
    lifetime: u8,
    sum: u16,
    source: u32,
    destination: u32,
    source_port: u16,
    destination_port: u16,
    own_sum: u16,
    data: Seq<u8>,
    trailer: Seq<u8>,
    now: int,
)
    requires
        config.mode != PolicyMode::Disabled,
        ends.len() == 12,
        28 + data.len() <= 0xffff,
        crate::policy::packet::checksum_spec(
            ipv4_header(
                service,
                (28 + data.len()) as u16,
                id,
                0,
                lifetime,
                17,
                sum,
                source,
                destination,
                Seq::empty(),
            ),
        ) == 0,
    ensures
        crate::policy::model::step(
            config,
            state,
            direction,
            frame_bytes(
                ends,
                0x0800,
                ipv4_header(
                    service,
                    (28 + data.len()) as u16,
                    id,
                    0,
                    lifetime,
                    17,
                    sum,
                    source,
                    destination,
                    Seq::empty(),
                ) + udp_bytes(source_port, destination_port, own_sum, data, Seq::empty()) + trailer,
            ),
            now,
        ) == crate::policy::model::udp_step(
            config,
            state.expired(now),
            direction,
            IpAddr::V4(Ipv4Addr { bits: source }),
            IpAddr::V4(Ipv4Addr { bits: destination }),
            UdpPacketView { source_port, destination_port, payload: data },
            now,
        ),
{
    let datagram = udp_bytes(source_port, destination_port, own_sum, data, Seq::empty());
    let header = ipv4_header(
        service,
        (28 + data.len()) as u16,
        id,
        0,
        lifetime,
        17,
        sum,
        source,
        destination,
        Seq::empty(),
    );
    crate::policy::frames::lemma_udp_length(
        source_port,
        destination_port,
        own_sum,
        data,
        Seq::empty(),
    );
    crate::policy::frames::law_ipv4_packet_comes_apart(
        service,
        id,
        0,
        lifetime,
        17,
        sum,
        source,
        destination,
        Seq::empty(),
        datagram,
        trailer,
    );
    crate::policy::frames::law_udp_datagram_comes_apart(
        source_port,
        destination_port,
        own_sum,
        data,
        Seq::empty(),
    );
    let packet = IpPacketView {
        source: IpAddr::V4(Ipv4Addr { bits: source }),
        destination: IpAddr::V4(Ipv4Addr { bits: destination }),
        protocol: 17,
        payload: datagram,
    };
    lemma_packet_in_frame(
        config,
        state,
        direction,
        ends,
        0x0800,
        header + datagram + trailer,
        packet,
        now,
    );
    lemma_datagram_in_packet(
        config,
        state.expired(now),
        direction,
        packet,
        UdpPacketView { source_port, destination_port, payload: data },
        now,
    );
}

/// So are a segment and a datagram in an IPv6 packet.
#[verifier::spinoff_prover]
#[verifier::rlimit(60)]
pub proof fn law_ipv6_frame_is_decided_as_what_it_carries(
    config: ConfigView,
    state: EngineView,
    direction: FrameDirection,
    ends: Seq<u8>,
    class: Seq<u8>,
    hops: u8,
    source: u128,
    destination: u128,
    source_port: u16,
    destination_port: u16,
    sequence: u32,
    acknowledged: u32,
    flags: u8,
    rest: Seq<u8>,
    options: Seq<u8>,
    data: Seq<u8>,
    sum: u16,
    trailer: Seq<u8>,
    now: int,
)
    requires
        config.mode != PolicyMode::Disabled,
        ends.len() == 12,
        class.len() == 4,
        rest.len() == 6,
        options.len() % 4 == 0,
        options.len() <= 40,
        20 + options.len() + data.len() <= 0xffff,
    ensures
        crate::policy::model::step(
            config,
            state,
            direction,
            frame_bytes(
                ends,
                0x86dd,
                ipv6_bytes(
                    class,
                    6,
                    hops,
                    source,
                    destination,
                    tcp_bytes(
                        source_port,
                        destination_port,
                        sequence,
                        acknowledged,
                        flags,
                        rest,
                        options,
                        data,
                    ),
                    trailer,
                ),
            ),
            now,
        ) == crate::policy::model::tcp_step(
            config,
            state.expired(now),
            direction,
            IpAddr::V6(Ipv6Addr { bits: source }),
            IpAddr::V6(Ipv6Addr { bits: destination }),
            TcpPacketView {
                source_port,
                destination_port,
                sequence,
                syn: flags & 0x02 != 0,
                ack: flags & 0x10 != 0,
                rst: flags & 0x04 != 0,
                payload: data,
            },
            now,
        ),
        crate::policy::model::step(
            config,
            state,
            direction,
            frame_bytes(
                ends,
                0x86dd,
                ipv6_bytes(
                    class,
                    17,
                    hops,
                    source,
                    destination,
                    udp_bytes(source_port, destination_port, sum, data, Seq::empty()),
                    trailer,
                ),
            ),
            now,
        ) == crate::policy::model::udp_step(
            config,
            state.expired(now),
            direction,
            IpAddr::V6(Ipv6Addr { bits: source }),
            IpAddr::V6(Ipv6Addr { bits: destination }),
            UdpPacketView { source_port, destination_port, payload: data },
            now,
        ),
{
    let segment = tcp_bytes(
        source_port,
        destination_port,
        sequence,
        acknowledged,
        flags,
        rest,
        options,
        data,
    );
    let datagram = udp_bytes(source_port, destination_port, sum, data, Seq::empty());
    crate::policy::frames::lemma_tcp_length(
        source_port,
        destination_port,
        sequence,
        acknowledged,
        flags,
        rest,
        options,
        data,
    );
    crate::policy::frames::lemma_udp_length(
        source_port,
        destination_port,
        sum,
        data,
        Seq::empty(),
    );
    crate::policy::frames::law_ipv6_packet_comes_apart(
        class,
        6,
        hops,
        source,
        destination,
        segment,
        trailer,
    );
    crate::policy::frames::law_ipv6_packet_comes_apart(
        class,
        17,
        hops,
        source,
        destination,
        datagram,
        trailer,
    );
    crate::policy::frames::law_tcp_segment_comes_apart(
        source_port,
        destination_port,
        sequence,
        acknowledged,
        flags,
        rest,
        options,
        data,
    );
    crate::policy::frames::law_udp_datagram_comes_apart(
        source_port,
        destination_port,
        sum,
        data,
        Seq::empty(),
    );
    let carries_tcp = IpPacketView {
        source: IpAddr::V6(Ipv6Addr { bits: source }),
        destination: IpAddr::V6(Ipv6Addr { bits: destination }),
        protocol: 6,
        payload: segment,
    };
    let carries_udp = IpPacketView { protocol: 17, payload: datagram, ..carries_tcp };
    let tcp = TcpPacketView {
        source_port,
        destination_port,
        sequence,
        syn: flags & 0x02 != 0,
        ack: flags & 0x10 != 0,
        rst: flags & 0x04 != 0,
        payload: data,
    };
    lemma_packet_in_frame(
        config,
        state,
        direction,
        ends,
        0x86dd,
        ipv6_bytes(class, 6, hops, source, destination, segment, trailer),
        carries_tcp,
        now,
    );
    lemma_packet_in_frame(
        config,
        state,
        direction,
        ends,
        0x86dd,
        ipv6_bytes(class, 17, hops, source, destination, datagram, trailer),
        carries_udp,
        now,
    );
    lemma_segment_in_packet(config, state.expired(now), direction, carries_tcp, tcp, now);
    lemma_datagram_in_packet(
        config,
        state.expired(now),
        direction,
        carries_udp,
        UdpPacketView { source_port, destination_port, payload: data },
        now,
    );
}

/// A frame of another type is refused, and so is one that is cut off.
pub proof fn law_other_frames_are_refused(
    config: ConfigView,
    state: EngineView,
    direction: FrameDirection,
    ends: Seq<u8>,
    kind: u16,
    payload: Seq<u8>,
    short: Seq<u8>,
    now: int,
)
    requires
        config.mode != PolicyMode::Disabled,
        ends.len() == 12,
        kind != 0x0800,
        kind != 0x0806,
        kind != 0x86dd,
        short.len() < 14,
    ensures
        crate::policy::model::step(
            config,
            state,
            direction,
            frame_bytes(ends, kind, payload),
            now,
        ).decision == PolicyDecision::Deny(DenyReason::UnsupportedEtherType),
        crate::policy::model::step(config, state, direction, short, now).decision
            == PolicyDecision::Deny(DenyReason::Malformed),
{
    lemma_frame(ends, kind, payload);
}

/// What is remembered counts until its time has come, and not from then on.
pub proof fn law_state_lives_until_its_time(
    state: EngineView,
    now: int,
    flow: FlowKey,
    query: DnsQueryKey,
    binding: (IpAddr, Seq<u8>),
)
    ensures
        state.expired(now).flows.contains_key(flow) <==> state.flows.contains_key(flow)
            && now < state.flows[flow].expires(),
        state.expired(now).flows.contains_key(flow) ==> state.expired(now).flows[flow]
            == state.flows[flow],
        state.expired(now).queries.contains_key(query) <==> state.queries.contains_key(query)
            && now < state.queries[query].expires,
        state.expired(now).queries.contains_key(query) ==> state.expired(now).queries[query]
            == state.queries[query],
        state.expired(now).bindings.contains_key(binding) <==> state.bindings.contains_key(binding)
            && now < state.bindings[binding],
        state.expired(now).bindings.contains_key(binding) ==> state.expired(now).bindings[binding]
            == state.bindings[binding],
{
}

/// A block holds the addresses of its own family from its first to its last: as many as the bits
/// behind its prefix can tell apart, among them the one that it was written with.
pub proof fn law_block_holds_its_addresses(block: CidrView, candidate: IpAddr)
    requires
        block.prefix <= crate::policy::config::address_width(block.address),
    ensures
        block.contains(block.address),
        match (block.address, candidate) {
            (IpAddr::V4(network), IpAddr::V4(other)) => {
                let size = vstd::arithmetic::power2::pow2((32 - block.prefix) as nat) as int;
                let first = network.bits as int - network.bits as int % size;
                block.contains(candidate) <==> first <= other.bits < first + size
            },
            (IpAddr::V6(network), IpAddr::V6(other)) => {
                let size = vstd::arithmetic::power2::pow2((128 - block.prefix) as nat) as int;
                let first = network.bits as int - network.bits as int % size;
                block.contains(candidate) <==> first <= other.bits < first + size
            },
            _ => !block.contains(candidate),
        },
{
    match (block.address, candidate) {
        (IpAddr::V4(network), IpAddr::V4(other)) => {
            let bits = (32 - block.prefix) as nat;
            vstd::arithmetic::power2::lemma_pow2_pos(bits);
            lemma_same_block(
                network.bits as int,
                other.bits as int,
                vstd::arithmetic::power2::pow2(bits) as int,
            );
        },
        (IpAddr::V6(network), IpAddr::V6(other)) => {
            let bits = (128 - block.prefix) as nat;
            vstd::arithmetic::power2::lemma_pow2_pos(bits);
            lemma_same_block(
                network.bits as int,
                other.bits as int,
                vstd::arithmetic::power2::pow2(bits) as int,
            );
        },
        _ => {},
    }
}

proof fn lemma_same_block(network: int, other: int, size: int)
    requires
        size > 0,
        network >= 0,
        other >= 0,
    ensures
        network / size == other / size <==> network - network % size <= other < network - network
            % size + size,
{
    vstd::arithmetic::div_mod::lemma_fundamental_div_mod(network, size);
    vstd::arithmetic::div_mod::lemma_fundamental_div_mod(other, size);
    vstd::arithmetic::div_mod::lemma_mod_bound(network, size);
    vstd::arithmetic::div_mod::lemma_mod_bound(other, size);
    let first = network - network % size;
    if network / size == other / size {
    } else if first <= other < first + size {
        assert(size * (network / size) == (network / size) * size) by (nonlinear_arith);
        vstd::arithmetic::div_mod::lemma_fundamental_div_mod_converse(
            other,
            size,
            network / size,
            other - first,
        );
    }
}

/// A rule without a wildcard stands for its own name in any letters, with or without a dot behind
/// it, and for no other.
pub proof fn law_rule_stands_for_its_name(suffix: Seq<u8>, name: Seq<u8>)
    requires
        crate::policy::domain::normalized(name) is Some,
    ensures
        ({
            let rule = PatternView { suffix, wildcard: false };
            &&& rule.matches(name) <==> crate::policy::names::small(name) == suffix
            &&& rule.matches(name + seq![0x2eu8]) <==> crate::policy::names::small(name) == suffix
        }),
{
    lemma_no_dot_behind(name);
    assert(crate::policy::names::small(name) =~= crate::policy::domain::lowercase(name));
}

proof fn lemma_no_dot_behind(name: Seq<u8>)
    requires
        crate::policy::domain::normalized(name) is Some,
    ensures
        crate::policy::domain::trim_dots(name) == name,
        crate::policy::domain::trim_dots(name + seq![0x2eu8]) == name,
{
    if name.last() == 0x2e {
        crate::policy::hello::law_broken_names_are_refused(name, 0);
    }
    let longer = name + seq![0x2eu8];
    assert(longer.subrange(0, longer.len() - 1) =~= name);
    assert(longer[longer.len() - 1] == crate::policy::domain::DOT);
    assert(crate::policy::domain::trim_dots(longer) == crate::policy::domain::trim_dots(name));
}

/// A rule with a wildcard stands for every name with labels before its own, and neither for its own
/// name nor for one that merely ends in the same letters.
pub proof fn law_wildcard_stands_for_what_is_below(suffix: Seq<u8>, front: Seq<u8>, other: u8)
    requires
        crate::policy::domain::normalized(suffix) == Some(suffix),
        crate::policy::domain::normalized(front + seq![0x2eu8] + suffix) is Some,
        front.len() > 0,
    ensures
        ({
            let rule = PatternView { suffix, wildcard: true };
            &&& rule.matches(front + seq![0x2eu8] + suffix)
            &&& !rule.matches(suffix)
            &&& other != 0x2e && crate::policy::domain::normalized(front + seq![other] + suffix)
                is Some ==> !rule.matches(front + seq![other] + suffix)
        }),
{
    let below = front + seq![0x2eu8] + suffix;
    lemma_no_dot_behind(below);
    lemma_no_dot_behind(suffix);
    let lowered = crate::policy::domain::lowercase(below);
    assert(crate::policy::domain::lowercase(suffix) == suffix);
    assert(lowered.subrange(lowered.len() - suffix.len(), lowered.len() as int) =~= suffix) by {
        assert forall|i: int| 0 <= i < suffix.len() implies lowered[front.len() + 1 + i]
            == suffix[i] by {
            assert(crate::policy::domain::lowercase(suffix)[i] == suffix[i]);
        }
    }
    assert(lowered[front.len() as int] == 0x2e);
    if other != 0x2e && crate::policy::domain::normalized(front + seq![other] + suffix) is Some {
        let beside = front + seq![other] + suffix;
        lemma_no_dot_behind(beside);
        assert(crate::policy::domain::lowercase(beside)[front.len() as int]
            == crate::policy::domain::lower(other));
    }
}

/// The key of a connection or a conversation that the guest takes part in.
pub open spec fn between(
    guest: IpAddr,
    guest_port: u16,
    remote: IpAddr,
    remote_port: u16,
    transport: Transport,
) -> FlowKey {
    FlowKey { guest_ip: guest, guest_port, remote_ip: remote, remote_port, transport }
}

/// The time at which something that is remembered now is forgotten, which is never beyond the
/// greatest time there is.
pub open spec fn forgotten_at(now: int, span: int) -> int {
    if now + span <= crate::time::MAX_NANOS {
        now + span
    } else {
        crate::time::MAX_NANOS as int
    }
}

/// Whether nothing but one flow changed, which is now let through until its time has come.
pub open spec fn opens_only(
    before: EngineView,
    after: EngineView,
    key: FlowKey,
    expires: int,
) -> bool {
    &&& after.flows.contains_key(key) && after.flows[key] == (FlowView::Allowed { expires })
    &&& forall|other: FlowKey|
        other != key ==> (#[trigger] after.flows.contains_key(other)
            <==> before.flows.contains_key(other)) && (before.flows.contains_key(other)
            ==> after.flows[other] == before.flows[other])
    &&& after.queries == before.queries
    &&& after.bindings == before.bindings
}

/// A connection that the guest opens to an address that a rule covers passes, and is remembered;
/// without a restriction, any does.
pub proof fn law_guest_opens_what_rules_cover(
    config: ConfigView,
    state: EngineView,
    guest: IpAddr,
    remote: IpAddr,
    tcp: TcpPacketView,
    rule: int,
    now: int,
)
    requires
        (config.mode == PolicyMode::Allowlist && 0 <= rule < config.cidrs.len()
            && config.cidrs[rule].contains(remote)) || config.mode == PolicyMode::Unrestricted,
        !config.control_addresses.contains(remote),
        tcp.syn,
        !state.flows.contains_key(
            between(guest, tcp.source_port, remote, tcp.destination_port, Transport::Tcp),
        ),
    ensures
        ({
            let step = crate::policy::model::tcp_step(
                config,
                state,
                FrameDirection::GuestToNetwork,
                guest,
                remote,
                tcp,
                now,
            );
            let key = between(
                guest,
                tcp.source_port,
                remote,
                tcp.destination_port,
                Transport::Tcp,
            );
            if state.flows.dom().len() < config.limits.max_flows {
                &&& step.decision == PolicyDecision::Allow(
                    if config.mode == PolicyMode::Allowlist {
                        AllowReason::Cidr
                    } else {
                        AllowReason::Unrestricted
                    },
                )
                &&& opens_only(
                    state,
                    step.state,
                    key,
                    forgotten_at(now, config.limits.flow_ttl@),
                )
            } else {
                &&& step.decision == PolicyDecision::Deny(DenyReason::StateLimit)
                &&& step.state == state
            }
        }),
{
    assert(config.mode == PolicyMode::Allowlist ==> config.cidr_matches(remote));
}

/// So does a datagram that the guest sends there.
pub proof fn law_guest_sends_where_rules_cover(
    config: ConfigView,
    state: EngineView,
    guest: IpAddr,
    remote: IpAddr,
    udp: UdpPacketView,
    rule: int,
    now: int,
)
    requires
        (config.mode == PolicyMode::Allowlist && 0 <= rule < config.cidrs.len()
            && config.cidrs[rule].contains(remote)) || config.mode == PolicyMode::Unrestricted,
        !config.control_addresses.contains(remote),
        udp.destination_port != 53,
        udp.destination_port != 67,
        !state.flows.contains_key(
            between(guest, udp.source_port, remote, udp.destination_port, Transport::Udp),
        ),
    ensures
        ({
            let step = crate::policy::model::udp_step(
                config,
                state,
                FrameDirection::GuestToNetwork,
                guest,
                remote,
                udp,
                now,
            );
            let key = between(
                guest,
                udp.source_port,
                remote,
                udp.destination_port,
                Transport::Udp,
            );
            if state.flows.dom().len() < config.limits.max_flows {
                &&& step.decision == PolicyDecision::Allow(
                    if config.mode == PolicyMode::Allowlist {
                        AllowReason::Cidr
                    } else {
                        AllowReason::Unrestricted
                    },
                )
                &&& opens_only(
                    state,
                    step.state,
                    key,
                    forgotten_at(now, config.limits.flow_ttl@),
                )
            } else {
                &&& step.decision == PolicyDecision::Deny(DenyReason::StateLimit)
                &&& step.state == state
            }
        }),
{
    assert(config.mode == PolicyMode::Allowlist ==> config.cidr_matches(remote));
}

/// Whether no rule of an allowlist covers an address, and it is not the answer for any name that a
/// rule stands for.
pub open spec fn is_unlisted(config: ConfigView, state: EngineView, remote: IpAddr) -> bool {
    &&& config.mode == PolicyMode::Allowlist
    &&& forall|i: int|
        0 <= i < config.cidrs.len() ==> !(#[trigger] config.cidrs[i]).contains(remote)
    &&& forall|name: Seq<u8>, i: int|
        #[trigger] state.bindings.contains_key((remote, name)) && 0 <= i < config.domains.len()
            ==> !(#[trigger] config.domains[i]).matches(name)
}

/// Under an allowlist, the guest reaches nothing that no rule covers and no name stands for: neither
/// by a segment nor by a datagram.
pub proof fn law_guest_reaches_nothing_unlisted(
    config: ConfigView,
    state: EngineView,
    guest: IpAddr,
    remote: IpAddr,
    tcp: TcpPacketView,
    udp: UdpPacketView,
    now: int,
)
    requires
        is_unlisted(config, state, remote),
        !config.control_addresses.contains(remote),
        !config.dns_servers.contains(remote),
        udp.destination_port != 67,
        tcp.syn,
        !state.flows.contains_key(
            between(guest, tcp.source_port, remote, tcp.destination_port, Transport::Tcp),
        ),
        !state.flows.contains_key(
            between(guest, udp.source_port, remote, udp.destination_port, Transport::Udp),
        ),
    ensures
        crate::policy::model::tcp_step(
            config,
            state,
            FrameDirection::GuestToNetwork,
            guest,
            remote,
            tcp,
            now,
        ) == (Step { state, decision: PolicyDecision::Deny(DenyReason::NotAllowlisted) }),
        crate::policy::model::udp_step(
            config,
            state,
            FrameDirection::GuestToNetwork,
            guest,
            remote,
            udp,
            now,
        ) == (Step { state, decision: PolicyDecision::Deny(DenyReason::NotAllowlisted) }),
{
    if state.has_domain_binding(config, remote) {
        let name = choose|name: Seq<u8>| #[trigger]
            state.bindings.contains_key((remote, name)) && config.domain_matches(name);
        assert(state.bindings.contains_key((remote, name)));
    }
}

/// A connection that the guest opens for HTTPS to an address that was the answer for a name that a
/// rule stands for begins: its opening passes, and what it says is waited for.
pub proof fn law_allowed_name_may_be_connected(
    config: ConfigView,
    state: EngineView,
    guest: IpAddr,
    remote: IpAddr,
    tcp: TcpPacketView,
    name: Seq<u8>,
    rule: int,
    now: int,
)
    requires
        config.mode == PolicyMode::Allowlist,
        forall|i: int|
            0 <= i < config.cidrs.len() ==> !(#[trigger] config.cidrs[i]).contains(remote),
        0 <= rule < config.domains.len(),
        config.domains[rule].matches(name),
        state.bindings.contains_key((remote, name)),
        !config.control_addresses.contains(remote),
        tcp.syn,
        !tcp.rst,
        tcp.payload.len() == 0,
        !state.flows.contains_key(
            between(guest, tcp.source_port, remote, tcp.destination_port, Transport::Tcp),
        ),
        state.flows.dom().len() < config.limits.max_flows,
    ensures
        ({
            let step = crate::policy::model::tcp_step(
                config,
                state,
                FrameDirection::GuestToNetwork,
                guest,
                remote,
                tcp,
                now,
            );
            let key = between(
                guest,
                tcp.source_port,
                remote,
                tcp.destination_port,
                Transport::Tcp,
            );
            if tcp.destination_port == 443 {
                &&& step.decision == PolicyDecision::Allow(AllowReason::DomainHandshake)
                &&& step.state.flows == state.flows.insert(
                    key,
                    FlowView::PendingTls {
                        initial_sequence: tcp.sequence.wrapping_add(1),
                        bytes: Seq::empty(),
                        expires: forgotten_at(now, config.limits.pending_tls_ttl@),
                    },
                )
                &&& step.state.queries == state.queries && step.state.bindings == state.bindings
            } else {
                &&& step.decision == PolicyDecision::Deny(DenyReason::NotAllowlisted)
                &&& step.state == state
            }
        }),
{
    assert(config.domain_matches(name));
    assert(state.has_domain_binding(config, remote));
}

/// The next bytes of a connection that waits for its name: as long as they do not tell it, they are
/// held; once they tell one that a rule stands for and that the address was the answer for, they
/// pass, and the connection is open; any other name, none or a hidden one is refused, and the
/// connection is forgotten.
#[verifier::spinoff_prover]
#[verifier::rlimit(60)]
pub proof fn law_connection_is_opened_by_its_name(
    config: ConfigView,
    state: EngineView,
    guest: IpAddr,
    remote: IpAddr,
    tcp: TcpPacketView,
    initial_sequence: u32,
    bytes: Seq<u8>,
    expires: int,
    now: int,
)
    requires
        state.flows.contains_key(
            between(guest, tcp.source_port, remote, tcp.destination_port, Transport::Tcp),
        ),
        state.flows[between(
            guest,
            tcp.source_port,
            remote,
            tcp.destination_port,
            Transport::Tcp,
        )] == (FlowView::PendingTls { initial_sequence, bytes, expires }),
        !tcp.syn,
        !tcp.rst,
        tcp.payload.len() > 0,
        bytes.len() < 0x1_0000_0000,
        tcp.sequence == initial_sequence.wrapping_add(bytes.len() as u32),
        bytes.len() + tcp.payload.len() <= config.limits.max_tls_buffer_per_flow,
        crate::policy::model::tls_total(
            state.flows.remove(
                between(guest, tcp.source_port, remote, tcp.destination_port, Transport::Tcp),
            ),
        ) + tcp.payload.len() <= config.limits.max_total_tls_bytes,
    ensures
        ({
            let step = crate::policy::model::tcp_step(
                config,
                state,
                FrameDirection::GuestToNetwork,
                guest,
                remote,
                tcp,
                now,
            );
            let key = between(
                guest,
                tcp.source_port,
                remote,
                tcp.destination_port,
                Transport::Tcp,
            );
            &&& step.state.queries == state.queries && step.state.bindings == state.bindings
            &&& match crate::policy::tls::tls_hello(bytes + tcp.payload) {
                Err(reason) => step.decision == PolicyDecision::Deny(reason) && step.state.flows
                    == state.flows.remove(key),
                Ok(TlsParseView::NeedMore) => {
                    &&& step.decision == PolicyDecision::Hold(HoldReason::TlsClientHello)
                    &&& step.state.flows == state.flows.insert(
                        key,
                        FlowView::PendingTls {
                            initial_sequence,
                            bytes: bytes + tcp.payload,
                            expires: forgotten_at(now, config.limits.pending_tls_ttl@),
                        },
                    )
                },
                Ok(TlsParseView::ClientHello { sni, ech }) => if ech {
                    step.decision == PolicyDecision::Deny(DenyReason::TlsEch) && step.state.flows
                        == state.flows.remove(key)
                } else if sni is None {
                    step.decision == PolicyDecision::Deny(DenyReason::TlsNoSni) && step.state.flows
                        == state.flows.remove(key)
                } else if state.bindings.contains_key((remote, sni->0)) && exists|i: int|
                    0 <= i < config.domains.len() && (#[trigger] config.domains[i]).matches(
                        sni->0,
                    ) {
                    &&& step.decision == PolicyDecision::Allow(AllowReason::DomainSni)
                    &&& opens_only(
                        state,
                        step.state,
                        key,
                        forgotten_at(now, config.limits.flow_ttl@),
                    )
                } else {
                    step.decision == PolicyDecision::Deny(DenyReason::TlsSniMismatch)
                        && step.state.flows == state.flows.remove(key)
                },
            }
        }),
{
    let key = between(guest, tcp.source_port, remote, tcp.destination_port, Transport::Tcp);
    lemma_next_bytes(config, state.without_flow(key), initial_sequence, bytes, tcp);
    assert(crate::policy::model::tcp_step(
        config,
        state,
        FrameDirection::GuestToNetwork,
        guest,
        remote,
        tcp,
        now,
    ) == crate::policy::model::tls_step(
        config,
        state.without_flow(key),
        key,
        initial_sequence,
        bytes,
        tcp,
        now,
    ));
    let held = FlowView::PendingTls {
        initial_sequence,
        bytes: bytes + tcp.payload,
        expires: forgotten_at(now, config.limits.pending_tls_ttl@),
    };
    let without = state.flows.remove(key);
    assert(without.insert(key, held) =~= state.flows.insert(key, held));
}

#[verifier::spinoff_prover]
#[verifier::rlimit(60)]
proof fn lemma_next_bytes(
    config: ConfigView,
    state: EngineView,
    initial_sequence: u32,
    bytes: Seq<u8>,
    tcp: TcpPacketView,
)
    requires
        !tcp.syn,
        tcp.payload.len() > 0,
        bytes.len() < 0x1_0000_0000,
        tcp.sequence == initial_sequence.wrapping_add(bytes.len() as u32),
        bytes.len() + tcp.payload.len() <= config.limits.max_tls_buffer_per_flow,
        crate::policy::model::tls_total(state.flows) + tcp.payload.len()
            <= config.limits.max_total_tls_bytes,
    ensures
        crate::policy::model::tls_progress(
            initial_sequence,
            bytes,
            tcp,
            config.limits.max_tls_buffer_per_flow as int,
            crate::policy::model::tls_room(config, state.flows),
        ) == (match crate::policy::tls::tls_hello(bytes + tcp.payload) {
            Ok(parse) => Ok((bytes + tcp.payload, parse)),
            Err(reason) => Err(reason),
        }),
{
    let offset = (crate::policy::model::payload_sequence(tcp) - initial_sequence) % 0x1_0000_0000;
    assert(offset == bytes.len());
    assert(bytes.subrange(offset, offset) =~= Seq::empty());
    assert(tcp.payload.subrange(0, 0) =~= Seq::empty());
    assert(tcp.payload.subrange(0, tcp.payload.len() as int) =~= tcp.payload);
}

/// A flow that is open passes both ways and stays open; a reset of the guest passes and closes it.
/// The answers of a connection that waits for its name pass too.
pub proof fn law_open_flow_passes_both_ways(
    config: ConfigView,
    state: EngineView,
    guest: IpAddr,
    remote: IpAddr,
    out: TcpPacketView,
    back: TcpPacketView,
    now: int,
)
    requires
        config.mode != PolicyMode::Disabled,
        back.source_port == out.destination_port,
        back.destination_port == out.source_port,
        state.flows.contains_key(
            between(guest, out.source_port, remote, out.destination_port, Transport::Tcp),
        ),
    ensures
        ({
            let key = between(
                guest,
                out.source_port,
                remote,
                out.destination_port,
                Transport::Tcp,
            );
            let sent = crate::policy::model::tcp_step(
                config,
                state,
                FrameDirection::GuestToNetwork,
                guest,
                remote,
                out,
                now,
            );
            let answered = crate::policy::model::tcp_step(
                config,
                state,
                FrameDirection::NetworkToGuest,
                remote,
                guest,
                back,
                now,
            );
            let expires = forgotten_at(now, config.limits.flow_ttl@);
            if state.flows[key] is Allowed {
                &&& sent.decision == PolicyDecision::Allow(AllowReason::ReverseFlow)
                &&& out.rst ==> sent.state.flows == state.flows.remove(key)
                &&& !out.rst ==> opens_only(state, sent.state, key, expires)
                &&& answered.decision == PolicyDecision::Allow(AllowReason::ReverseFlow)
                &&& opens_only(state, answered.state, key, expires)
            } else {
                &&& answered.decision == PolicyDecision::Allow(AllowReason::DomainHandshake)
                &&& answered.state == state
                &&& out.rst ==> sent.decision == PolicyDecision::Allow(AllowReason::DomainHandshake)
                    && sent.state.flows == state.flows.remove(key)
            }
        }),
{
}

/// So does a conversation by datagrams.
pub proof fn law_open_conversation_passes_both_ways(
    config: ConfigView,
    state: EngineView,
    guest: IpAddr,
    remote: IpAddr,
    out: UdpPacketView,
    back: UdpPacketView,
    now: int,
)
    requires
        config.mode != PolicyMode::Disabled,
        back.source_port == out.destination_port,
        back.destination_port == out.source_port,
        out.destination_port != 53,
        out.destination_port != 67,
        !config.control_addresses.contains(remote),
        state.flows.contains_key(
            between(guest, out.source_port, remote, out.destination_port, Transport::Udp),
        ),
        state.flows[between(
            guest,
            out.source_port,
            remote,
            out.destination_port,
            Transport::Udp,
        )] is Allowed,
    ensures
        ({
            let key = between(
                guest,
                out.source_port,
                remote,
                out.destination_port,
                Transport::Udp,
            );
            let sent = crate::policy::model::udp_step(
                config,
                state,
                FrameDirection::GuestToNetwork,
                guest,
                remote,
                out,
                now,
            );
            let answered = crate::policy::model::udp_step(
                config,
                state,
                FrameDirection::NetworkToGuest,
                remote,
                guest,
                back,
                now,
            );
            let expires = forgotten_at(now, config.limits.flow_ttl@);
            &&& sent.decision == PolicyDecision::Allow(AllowReason::ReverseFlow)
            &&& opens_only(state, sent.state, key, expires)
            &&& answered.decision == PolicyDecision::Allow(AllowReason::ReverseFlow)
            &&& opens_only(state, answered.state, key, expires)
        }),
{
}

/// From outside, a connection can be opened to a published port and to no other, and only by a
/// segment that opens one.
pub proof fn law_published_port_is_open(
    config: ConfigView,
    state: EngineView,
    remote: IpAddr,
    guest: IpAddr,
    tcp: TcpPacketView,
    now: int,
)
    requires
        !state.flows.contains_key(
            between(guest, tcp.destination_port, remote, tcp.source_port, Transport::Tcp),
        ),
        state.flows.dom().len() < config.limits.max_flows,
    ensures
        ({
            let step = crate::policy::model::tcp_step(
                config,
                state,
                FrameDirection::NetworkToGuest,
                remote,
                guest,
                tcp,
                now,
            );
            let key = between(
                guest,
                tcp.destination_port,
                remote,
                tcp.source_port,
                Transport::Tcp,
            );
            if config.published_tcp_ports.contains(tcp.destination_port) && tcp.syn && !tcp.ack {
                &&& step.decision == PolicyDecision::Allow(AllowReason::Preview)
                &&& opens_only(
                    state,
                    step.state,
                    key,
                    forgotten_at(now, config.limits.flow_ttl@),
                )
            } else {
                &&& step.decision == PolicyDecision::Deny(DenyReason::NoReverseFlow)
                &&& step.state == state
            }
        }),
{
}

/// The guest begins a connection with a segment that opens one, and with no other; and none to a
/// control address.
pub proof fn law_connection_begins_with_its_opening(
    config: ConfigView,
    state: EngineView,
    guest: IpAddr,
    remote: IpAddr,
    tcp: TcpPacketView,
    now: int,
)
    requires
        !state.flows.contains_key(
            between(guest, tcp.source_port, remote, tcp.destination_port, Transport::Tcp),
        ),
        !tcp.syn || config.control_addresses.contains(remote),
    ensures
        crate::policy::model::tcp_step(
            config,
            state,
            FrameDirection::GuestToNetwork,
            guest,
            remote,
            tcp,
            now,
        ) == (Step {
            state,
            decision: PolicyDecision::Deny(
                if config.control_addresses.contains(remote) {
                    DenyReason::ControlEndpoint
                } else {
                    DenyReason::NoReverseFlow
                },
            ),
        }),
{
}

/// A query of the guest to a trusted server passes and is remembered, where a rule stands for the
/// name that it asks for or nothing is restricted; for another name it is refused.
pub proof fn law_query_for_allowed_name_passes(
    config: ConfigView,
    state: EngineView,
    guest: IpAddr,
    server: IpAddr,
    udp: UdpPacketView,
    id: u16,
    name: Seq<u8>,
    now: int,
)
    requires
        udp.destination_port == 53,
        config.dns_servers.contains(server),
        config.mode != PolicyMode::Disabled,
        crate::policy::dns::query_of(udp.payload) == Some((id, name)),
        state.queries.dom().len() < config.limits.max_pending_dns,
    ensures
        ({
            let step = crate::policy::model::udp_step(
                config,
                state,
                FrameDirection::GuestToNetwork,
                guest,
                server,
                udp,
                now,
            );
            let listed = exists|i: int|
                0 <= i < config.domains.len() && (#[trigger] config.domains[i]).matches(name);
            if config.mode == PolicyMode::Allowlist && !listed {
                &&& step.decision == PolicyDecision::Deny(DenyReason::NotAllowlisted)
                &&& step.state == state
            } else {
                &&& step.decision == PolicyDecision::Allow(AllowReason::DnsInfrastructure)
                &&& step.state.queries == state.queries.insert(
                    DnsQueryKey { server, guest, guest_port: udp.source_port, id },
                    QueryView {
                        name,
                        expires: forgotten_at(now, config.limits.dns_query_ttl@),
                    },
                )
                &&& step.state.flows == state.flows && step.state.bindings == state.bindings
            }
        }),
{
}

/// The answer of a trusted server to a query that waits for it passes and uses the query up, and
/// under an allowlist an address of the name that was asked for becomes one of its addresses for as
/// long as the answer says, a little while for no time at all, and never for longer than the
/// longest time.
pub proof fn law_answer_makes_its_address_known(
    config: ConfigView,
    state: EngineView,
    guest: IpAddr,
    server: IpAddr,
    udp: UdpPacketView,
    id: u16,
    asked: Seq<u8>,
    address: IpAddr,
    ttl: u32,
    now: int,
)
    requires
        udp.source_port == 53,
        config.dns_servers.contains(server),
        config.mode == PolicyMode::Allowlist,
        udp.payload.len() >= 2,
        udp.payload[0] * 256 + udp.payload[1] == id,
        state.queries.contains_key(
            DnsQueryKey { server, guest, guest_port: udp.destination_port, id },
        ),
        state.queries[DnsQueryKey { server, guest, guest_port: udp.destination_port, id }].name
            == asked,
        crate::policy::dns::response_of(udp.payload) is Some,
        (crate::policy::dns::response_of(udp.payload)->0).question == asked,
        (crate::policy::dns::response_of(udp.payload)->0).answers == seq![
            RecordView::Address { owner: asked, address, ttl },
        ],
        config.limits.max_dns_ttl@ >= crate::time::NANOS_PER_SEC,
        state.bindings.dom().len() < config.limits.max_dns_bindings,
    ensures
        ({
            let step = crate::policy::model::udp_step(
                config,
                state,
                FrameDirection::NetworkToGuest,
                server,
                guest,
                udp,
                now,
            );
            let stated: int = if ttl == 0 {
                5
            } else {
                ttl as int
            };
            let longest = config.limits.max_dns_ttl@ / 1_000_000_000;
            let seconds = if stated <= longest {
                stated
            } else {
                longest
            };
            &&& step.decision == PolicyDecision::Allow(AllowReason::DnsInfrastructure)
            &&& step.state.queries == state.queries.remove(
                DnsQueryKey { server, guest, guest_port: udp.destination_port, id },
            )
            &&& step.state.bindings == state.bindings.insert(
                (address, asked),
                forgotten_at(now, seconds * 1_000_000_000),
            )
            &&& step.state.flows == state.flows
        }),
{
    let answers = seq![RecordView::Address { owner: asked, address, ttl }];
    let max = crate::policy::model::max_ttl_secs(config);
    let start = Map::<Seq<u8>, u64>::empty().insert(asked, max as u64);
    reveal_with_fuel(crate::policy::model::reachable_after, 3);
    reveal_with_fuel(crate::policy::model::follow_aliases, 3);
    assert(crate::policy::model::reachable(asked, answers, max) == start);
    reveal_with_fuel(crate::policy::model::bind_records, 3);
    assert(config.limits.max_dns_ttl@ / (crate::time::NANOS_PER_SEC as int) >= 1) by (nonlinear_arith)
        requires
            config.limits.max_dns_ttl@ >= crate::time::NANOS_PER_SEC,
            crate::time::NANOS_PER_SEC == 1_000_000_000,
    ;
}

/// An answer that nobody waits for is refused, and so is one to another question; either leaves the
/// known addresses as they were.
pub proof fn law_other_answers_make_nothing_known(
    config: ConfigView,
    state: EngineView,
    guest: IpAddr,
    server: IpAddr,
    udp: UdpPacketView,
    id: u16,
    now: int,
)
    requires
        udp.source_port == 53,
        config.dns_servers.contains(server),
        udp.payload.len() >= 2,
        udp.payload[0] * 256 + udp.payload[1] == id,
        ({
            let key = DnsQueryKey { server, guest, guest_port: udp.destination_port, id };
            !state.queries.contains_key(key) || match crate::policy::dns::response_of(udp.payload) {
                None => true,
                Some(response) => response.question != state.queries[key].name,
            }
        }),
    ensures
        ({
            let step = crate::policy::model::udp_step(
                config,
                state,
                FrameDirection::NetworkToGuest,
                server,
                guest,
                udp,
                now,
            );
            let key = DnsQueryKey { server, guest, guest_port: udp.destination_port, id };
            &&& step.decision == PolicyDecision::Deny(
                if !state.queries.contains_key(key) {
                    DenyReason::NoReverseFlow
                } else if crate::policy::dns::response_of(udp.payload) is None {
                    DenyReason::Malformed
                } else {
                    DenyReason::Infrastructure
                },
            )
            &&& step.state.bindings == state.bindings && step.state.flows == state.flows
            &&& step.state.queries == state.queries.remove(key)
        }),
{
    let key = DnsQueryKey { server, guest, guest_port: udp.destination_port, id };
    if !state.queries.contains_key(key) {
        assert(state.queries.remove(key) =~= state.queries);
    }
}

/// A chain of aliases: each record leads from a name to the next one.
pub open spec fn leads(records: Seq<RecordView>, chain: Seq<int>, from: Seq<u8>, to: Seq<u8>) -> bool
    decreases chain.len(),
{
    if chain.len() == 0 {
        from == to
    } else {
        let i = chain.last();
        &&& 0 <= i < records.len()
        &&& records[i] matches RecordView::Cname { owner, target, .. } && target == to && leads(
            records,
            chain.drop_last(),
            from,
            owner,
        )
    }
}

proof fn lemma_reach_grows(reach: Map<Seq<u8>, u64>, records: Seq<RecordView>, upto: nat, max: int)
    requires
        1 <= max <= u32::MAX,
        upto <= records.len(),
        forall|name: Seq<u8>| #[trigger] reach.contains_key(name) ==> reach[name] >= 1,
    ensures
        ({
            let after = crate::policy::model::follow_aliases(reach, records, upto, max);
            &&& forall|name: Seq<u8>| #[trigger] reach.contains_key(name) ==> after.contains_key(name)
            &&& forall|name: Seq<u8>| #[trigger] after.contains_key(name) ==> after[name] >= 1
            &&& forall|i: int|
                0 <= i < upto ==> match #[trigger] records[i] {
                    RecordView::Cname { owner, target, .. } => reach.contains_key(owner)
                        ==> after.contains_key(target),
                    RecordView::Address { .. } => true,
                }
        }),
    decreases upto,
{
    if upto > 0 {
        let before = crate::policy::model::follow_aliases(reach, records, (upto - 1) as nat, max);
        let after = crate::policy::model::follow_aliases(reach, records, upto, max);
        lemma_reach_grows(reach, records, (upto - 1) as nat, max);
        assert(forall|name: Seq<u8>| #[trigger]
            before.contains_key(name) ==> after.contains_key(name));
        match records[upto - 1] {
            RecordView::Cname { owner, target, .. } => {
                if reach.contains_key(owner) {
                    assert(before.contains_key(owner));
                    assert(after.contains_key(target));
                }
            },
            RecordView::Address { .. } => {},
        }
    }
}

proof fn lemma_chain_is_followed(
    records: Seq<RecordView>,
    chain: Seq<int>,
    passes: nat,
    question: Seq<u8>,
    to: Seq<u8>,
    max: int,
)
    requires
        1 <= max <= u32::MAX,
        chain.len() <= passes,
        leads(records, chain, question, to),
    ensures
        ({
            let start = Map::<Seq<u8>, u64>::empty().insert(question, max as u64);
            let reach = crate::policy::model::reachable_after(start, records, passes, max);
            &&& reach.contains_key(to)
            &&& forall|name: Seq<u8>| #[trigger] reach.contains_key(name) ==> reach[name] >= 1
        }),
    decreases passes,
{
    let start = Map::<Seq<u8>, u64>::empty().insert(question, max as u64);
    if passes > 0 {
        let before = crate::policy::model::reachable_after(
            start,
            records,
            (passes - 1) as nat,
            max,
        );
        if chain.len() == 0 {
            lemma_chain_is_followed(records, chain, (passes - 1) as nat, question, to, max);
            lemma_reach_grows(before, records, records.len(), max);
        } else {
            let i = chain.last();
            match records[i] {
                RecordView::Cname { owner, .. } => {
                    lemma_chain_is_followed(
                        records,
                        chain.drop_last(),
                        (passes - 1) as nat,
                        question,
                        owner,
                        max,
                    );
                    lemma_reach_grows(before, records, records.len(), max);
                },
                RecordView::Address { .. } => {},
            }
        }
    }
}

/// Whatever the order of the answers, an alias that the question leads to over others is followed.
pub proof fn law_aliases_are_followed(
    records: Seq<RecordView>,
    chain: Seq<int>,
    question: Seq<u8>,
    to: Seq<u8>,
    max: int,
)
    requires
        1 <= max <= u32::MAX,
        chain.len() <= records.len(),
        leads(records, chain, question, to),
    ensures
        crate::policy::model::reachable(question, records, max).contains_key(to),
        crate::policy::model::reachable(question, records, max)[to] >= 1,
{
    lemma_chain_is_followed(records, chain, records.len(), question, to, max);
}

proof fn lemma_bindings_stay(
    config: ConfigView,
    bindings: crate::policy::model::Bindings,
    question: Seq<u8>,
    records: Seq<RecordView>,
    upto: nat,
    reach: Map<Seq<u8>, u64>,
    now: int,
)
    requires
        upto <= records.len(),
        bindings.dom().finite(),
        bindings.dom().len() + upto <= config.limits.max_dns_bindings,
        crate::policy::model::max_ttl_secs(config) >= 1,
        forall|name: Seq<u8>| #[trigger] reach.contains_key(name) ==> reach[name] >= 1,
    ensures
        ({
            let after = crate::policy::model::bind_records(
                config,
                bindings,
                question,
                records,
                upto,
                reach,
                now,
            );
            &&& after.dom().finite()
            &&& after.dom().len() <= bindings.dom().len() + upto
            &&& forall|i: int|
                0 <= i < upto ==> match #[trigger] records[i] {
                    RecordView::Address { owner, address, .. } => reach.contains_key(owner)
                        ==> after.contains_key((address, question)),
                    RecordView::Cname { .. } => true,
                }
        }),
    decreases upto,
{
    if upto > 0 {
        lemma_bindings_stay(config, bindings, question, records, (upto - 1) as nat, reach, now);
    }
}

/// Every address that an answer gives a name that the question leads to becomes one of the
/// question's addresses, as long as there is room.
pub proof fn law_addresses_behind_aliases_become_known(
    config: ConfigView,
    bindings: crate::policy::model::Bindings,
    question: Seq<u8>,
    records: Seq<RecordView>,
    chain: Seq<int>,
    at: int,
    now: int,
)
    requires
        bindings.dom().finite(),
        bindings.dom().len() + records.len() <= config.limits.max_dns_bindings,
        config.limits.max_dns_ttl@ >= crate::time::NANOS_PER_SEC,
        0 <= at < records.len(),
        records[at] is Address,
        chain.len() <= records.len(),
        leads(records, chain, question, records[at]->Address_owner),
    ensures
        crate::policy::model::observed(config, bindings, question, records, now).contains_key(
            (records[at]->Address_address, question),
        ),
{
    let max = crate::policy::model::max_ttl_secs(config);
    assert(config.limits.max_dns_ttl@ / (crate::time::NANOS_PER_SEC as int) >= 1) by (nonlinear_arith)
        requires
            config.limits.max_dns_ttl@ >= crate::time::NANOS_PER_SEC,
            crate::time::NANOS_PER_SEC == 1_000_000_000,
    ;
    let owner = records[at]->Address_owner;
    lemma_chain_is_followed(records, chain, records.len(), question, owner, max);
    lemma_bindings_stay(
        config,
        bindings,
        question,
        records,
        records.len(),
        crate::policy::model::reachable(question, records, max),
        now,
    );
}

/// DHCP passes between the guest and the infrastructure: from a guest without an address, or with a
/// private one, to everyone or the infrastructure, and back.
pub proof fn law_dhcp_passes(
    config: ConfigView,
    state: EngineView,
    guest: Ipv4Addr,
    server: Ipv4Addr,
    payload: Seq<u8>,
    now: int,
)
    requires
        config.arp_targets.contains(server),
        guest.bits / 0x100_0000 == 10 || guest.bits / 0x10_0000 == 0xac1 || guest.bits / 0x1_0000
            == 0xc0a8,
    ensures
        ({
            let asks = UdpPacketView { source_port: 68, destination_port: 67, payload };
            let answers = UdpPacketView { source_port: 67, destination_port: 68, payload };
            let everyone = Ipv4Addr { bits: 0xffff_ffff };
            let nobody = Ipv4Addr { bits: 0 };
            let passes = Step {
                state,
                decision: PolicyDecision::Allow(AllowReason::DhcpInfrastructure),
            };
            let out = FrameDirection::GuestToNetwork;
            let back = FrameDirection::NetworkToGuest;
            &&& crate::policy::model::udp_step(
                config,
                state,
                out,
                IpAddr::V4(nobody),
                IpAddr::V4(everyone),
                asks,
                now,
            ) == passes
            &&& crate::policy::model::udp_step(
                config,
                state,
                out,
                IpAddr::V4(guest),
                IpAddr::V4(server),
                asks,
                now,
            ) == passes
            &&& crate::policy::model::udp_step(
                config,
                state,
                back,
                IpAddr::V4(server),
                IpAddr::V4(guest),
                answers,
                now,
            ) == passes
            &&& crate::policy::model::udp_step(
                config,
                state,
                back,
                IpAddr::V4(server),
                IpAddr::V4(everyone),
                answers,
                now,
            ) == passes
        }),
{
}

/// An ARP message about IPv4 on Ethernet.
pub open spec fn arp_bytes(
    operation: u16,
    sender_end: Seq<u8>,
    sender: u32,
    target_end: Seq<u8>,
    target: u32,
    trailer: Seq<u8>,
) -> Seq<u8> {
    word(1) + word(0x0800) + seq![6u8, 4u8] + word(operation) + sender_end + long(sender)
        + target_end + long(target) + trailer
}

/// ARP passes where the guest asks for the infrastructure or answers it for itself, and where the
/// infrastructure answers or asks for the guest; nothing else of it does.
pub proof fn law_arp_is_for_infrastructure(
    config: ConfigView,
    state: EngineView,
    direction: FrameDirection,
    ends: Seq<u8>,
    operation: u16,
    sender_end: Seq<u8>,
    sender: u32,
    target_end: Seq<u8>,
    target: u32,
    trailer: Seq<u8>,
    now: int,
)
    requires
        config.mode != PolicyMode::Disabled,
        ends.len() == 12,
        sender_end.len() == 6,
        target_end.len() == 6,
    ensures
        ({
            let step = crate::policy::model::step(
                config,
                state,
                direction,
                frame_bytes(
                    ends,
                    0x0806,
                    arp_bytes(operation, sender_end, sender, target_end, target, trailer),
                ),
                now,
            );
            let from = Ipv4Addr { bits: sender };
            let to = Ipv4Addr { bits: target };
            let out = direction == FrameDirection::GuestToNetwork;
            &&& step.state == state.expired(now)
            &&& step.decision == PolicyDecision::Allow(AllowReason::ArpInfrastructure) <==> {
                ||| out && operation == 1 && config.arp_targets.contains(to)
                ||| out && operation == 2 && config.arp_targets.contains(to)
                    && config.guest_ipv4_addresses.contains(from)
                ||| !out && operation == 2 && config.arp_targets.contains(from)
                ||| !out && operation == 1 && config.arp_targets.contains(from)
                    && config.guest_ipv4_addresses.contains(to)
            }
            &&& step.decision is Allow || step.decision == PolicyDecision::Deny(
                DenyReason::Infrastructure,
            )
        }),
{
    let payload = arp_bytes(operation, sender_end, sender, target_end, target, trailer);
    lemma_frame(ends, 0x0806, payload);
    lemma_arp(operation, sender_end, sender, target_end, target, trailer);
}

proof fn lemma_arp(
    operation: u16,
    sender_end: Seq<u8>,
    sender: u32,
    target_end: Seq<u8>,
    target: u32,
    trailer: Seq<u8>,
)
    requires
        sender_end.len() == 6,
        target_end.len() == 6,
    ensures
        ({
            let payload = arp_bytes(
                operation,
                sender_end,
                sender,
                target_end,
                target,
                trailer,
            );
            &&& crate::policy::model::arp_well_formed(payload)
            &&& crate::bytes::be16(payload, 6) == operation
            &&& crate::bytes::be32(payload, 14) == sender
            &&& crate::bytes::be32(payload, 24) == target
        }),
{
    let payload = arp_bytes(operation, sender_end, sender, target_end, target, trailer);
    assert(payload[0] == 0 && payload[1] == 1 && payload[2] == 8 && payload[3] == 0);
    assert(payload[4] == 6 && payload[5] == 4);
    assert(payload[6] == word(operation)[0] && payload[7] == word(operation)[1]);
    let before = payload.subrange(0, 14);
    let after = payload.subrange(18, payload.len() as int);
    assert(before + long(sender) + after =~= payload);
    crate::policy::frames::law_numbers_are_read_as_written(before, 0, sender, 0, after);
    let front = payload.subrange(0, 24);
    assert(front + long(target) + trailer =~= payload);
    crate::policy::frames::law_numbers_are_read_as_written(front, 0, target, 0, trailer);
}

/// An ARP message that is too short, or of other kinds of addresses, is refused.
pub proof fn law_other_arp_is_refused(
    config: ConfigView,
    direction: FrameDirection,
    payload: Seq<u8>,
)
    requires
        payload.len() < 28 || payload[0] * 256 + payload[1] != 1 || payload[2] * 256 + payload[3]
            != 0x0800 || payload[4] != 6 || payload[5] != 4,
    ensures
        crate::policy::model::arp_decision(config, direction, payload) == PolicyDecision::Deny(
            DenyReason::Malformed,
        ),
{
}

} // verus!
