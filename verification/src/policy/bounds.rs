//! What keeps a connection honest: checksums, the bounds on what is remembered, the pieces of a
//! hello, and how long answers count.

use vstd::prelude::*;

use crate::net::IpAddr;
use crate::policy::config::ConfigView;
use crate::policy::decisions::{between, forgotten_at};
use crate::policy::dns::RecordView;
use crate::policy::model::{
    tls_progress, DnsQueryKey, EngineView, FlowView, Step, Transport,
};
use crate::policy::packet::{checksum_spec, fold_carries, word_sum, TcpPacketView, UdpPacketView};
use crate::policy::tls::TlsParseView;
use crate::policy::{AllowReason, DenyReason, FrameDirection, PolicyDecision, PolicyMode};

verus! {

proof fn lemma_byte_written(bytes: Seq<u8>, at: int, byte: u8)
    requires
        0 <= at < bytes.len(),
    ensures
        word_sum(bytes.update(at, byte)) == word_sum(bytes) + (byte - bytes[at]) * (if at % 2 == 0 {
            256int
        } else {
            1
        }),
    decreases bytes.len(),
{
    let written = bytes.update(at, byte);
    let rest = bytes.subrange(2, bytes.len() as int);
    let later = written.subrange(2, written.len() as int);
    if bytes.len() > 1 {
        if at < 2 {
            assert(later =~= rest);
        } else {
            lemma_byte_written(rest, at - 2, byte);
            assert(later =~= rest.update(at - 2, byte));
            assert((at - 2) % 2 == at % 2);
        }
    }
}

/// A checksum finds every byte that was changed: no two headers that differ in one byte have the
/// same.
pub proof fn law_checksum_finds_a_changed_byte(header: Seq<u8>, at: int, byte: u8)
    requires
        header.len() <= 131072,
        0 <= at < header.len(),
        byte != header[at],
    ensures
        checksum_spec(header.update(at, byte)) != checksum_spec(header),
{
    let written = header.update(at, byte);
    lemma_byte_written(header, at, byte);
    crate::policy::packet::lemma_word_sum_bound(header);
    crate::policy::packet::lemma_word_sum_bound(written);
    assert(65535 * ((header.len() + 1) / 2) <= 65535 * 65536) by (nonlinear_arith)
        requires
            header.len() <= 131072,
    ;
    let first = word_sum(header) as int;
    let second = word_sum(written) as int;
    assert(first % 0x1_0000_0000 == first);
    assert(second % 0x1_0000_0000 == second);
    let change = second - first;
    assert(-65280 <= change <= 65280 && change != 0);
    if fold_carries(first as nat) == fold_carries(second as nat) {
        assert(first > 0 && second > 0);
        let a = (first - 1) / 65535;
        let b = (second - 1) / 65535;
        assert(first - 1 == 65535 * a + (first - 1) % 65535);
        assert(second - 1 == 65535 * b + (second - 1) % 65535);
        assert(change == 65535 * (b - a));
        assert(false);
    }
}

/// The checksum of a single word is its complement.
pub proof fn law_checksum_is_the_complement(word: u16)
    ensures
        checksum_spec(seq![(word / 256) as u8, (word % 256) as u8]) == 0xffff - word,
{
    let bytes = seq![(word / 256) as u8, (word % 256) as u8];
    reveal_with_fuel(word_sum, 2);
    assert(bytes.subrange(2, 2) =~= Seq::<u8>::empty());
    assert(word_sum(bytes) == word);
}

/// A full table takes no new flow: the opening is refused, and nothing changes.
pub proof fn law_full_tables_take_no_new_flow(
    config: ConfigView,
    state: EngineView,
    guest: IpAddr,
    remote: IpAddr,
    out: TcpPacketView,
    back: TcpPacketView,
    now: int,
)
    requires
        config.mode == PolicyMode::Allowlist,
        state.flows.dom().len() >= config.limits.max_flows,
        !config.control_addresses.contains(remote),
        out.syn,
        out.destination_port == 443,
        back.syn,
        !back.ack,
        config.published_tcp_ports.contains(back.destination_port),
        !state.flows.contains_key(
            between(guest, out.source_port, remote, out.destination_port, Transport::Tcp),
        ),
        !state.flows.contains_key(
            between(guest, back.destination_port, remote, back.source_port, Transport::Tcp),
        ),
    ensures
        ({
            let sent = crate::policy::model::tcp_step(
                config,
                state,
                FrameDirection::GuestToNetwork,
                guest,
                remote,
                out,
                now,
            );
            sent.state == state && match sent.decision {
                PolicyDecision::Deny(reason) => reason == DenyReason::StateLimit || reason
                    == DenyReason::NotAllowlisted,
                _ => false,
            }
        }),
        state.has_domain_binding(config, remote) ==> crate::policy::model::tcp_step(
            config,
            state,
            FrameDirection::GuestToNetwork,
            guest,
            remote,
            out,
            now,
        ).decision == PolicyDecision::Deny(DenyReason::StateLimit),
        crate::policy::model::tcp_step(
            config,
            state,
            FrameDirection::NetworkToGuest,
            remote,
            guest,
            back,
            now,
        ) == (Step { state, decision: PolicyDecision::Deny(DenyReason::StateLimit) }),
{
}

/// A full table of questions takes no new one, but one that is asked again is.
pub proof fn law_full_tables_take_no_new_question(
    config: ConfigView,
    state: EngineView,
    guest: IpAddr,
    server: IpAddr,
    udp: UdpPacketView,
    id: u16,
    name: Seq<u8>,
    now: int,
)
    requires
        udp.destination_port == 53,
        config.dns_servers.contains(server),
        config.mode == PolicyMode::Unrestricted,
        crate::policy::dns::query_of(udp.payload) == Some((id, name)),
        state.queries.dom().len() >= config.limits.max_pending_dns,
    ensures
        ({
            let step = crate::policy::model::udp_step(
                config,
                state,
                FrameDirection::GuestToNetwork,
                guest,
                server,
                udp,
                now,
            );
            let key = DnsQueryKey { server, guest, guest_port: udp.source_port, id };
            if state.queries.contains_key(key) {
                &&& step.decision == PolicyDecision::Allow(AllowReason::DnsInfrastructure)
                &&& step.state.queries.contains_key(key)
                &&& step.state.queries[key].name == name
                &&& step.state.queries[key].expires == forgotten_at(
                    now,
                    config.limits.dns_query_ttl@,
                )
            } else {
                &&& step.decision == PolicyDecision::Deny(DenyReason::StateLimit)
                &&& step.state == state
            }
        }),
{
}

/// What cannot be read as a question is refused, and nothing is remembered of it.
pub proof fn law_unreadable_questions_are_refused(
    config: ConfigView,
    state: EngineView,
    guest: IpAddr,
    server: IpAddr,
    udp: UdpPacketView,
    now: int,
)
    requires
        udp.destination_port == 53,
        config.dns_servers.contains(server),
        crate::policy::dns::query_of(udp.payload) is None,
    ensures
        crate::policy::model::udp_step(
            config,
            state,
            FrameDirection::GuestToNetwork,
            guest,
            server,
            udp,
            now,
        ) == (Step { state, decision: PolicyDecision::Deny(DenyReason::Malformed) }),
{
}

/// Without an allowlist an answer passes and uses its question up, but makes nothing known.
pub proof fn law_unrestricted_answers_make_nothing_known(
    config: ConfigView,
    state: EngineView,
    guest: IpAddr,
    server: IpAddr,
    udp: UdpPacketView,
    id: u16,
    now: int,
)
    requires
        config.mode == PolicyMode::Unrestricted,
        udp.source_port == 53,
        config.dns_servers.contains(server),
        udp.payload.len() >= 2,
        udp.payload[0] * 256 + udp.payload[1] == id,
        ({
            let key = DnsQueryKey { server, guest, guest_port: udp.destination_port, id };
            &&& state.queries.contains_key(key)
            &&& crate::policy::dns::response_of(udp.payload) matches Some(response)
                && response.question == state.queries[key].name
        }),
    ensures
        ({
            let step = crate::policy::model::udp_step(
                config,
                state,
                FrameDirection::NetworkToGuest,
                server,
                guest,
                udp,
                now,
            );
            let key = DnsQueryKey { server, guest, guest_port: udp.destination_port, id };
            &&& step.decision == PolicyDecision::Allow(AllowReason::DnsInfrastructure)
            &&& step.state.bindings == state.bindings && step.state.flows == state.flows
            &&& step.state.queries == state.queries.remove(key)
        }),
{
}

/// The time that an answer counts for, by what it states itself: a little while where it states
/// none.
pub open spec fn stated_time(ttl: u32) -> int {
    if ttl == 0 {
        5
    } else {
        ttl as int
    }
}

pub open spec fn shortest(first: int, second: int, third: int) -> int {
    if first <= second && first <= third {
        first
    } else if second <= third {
        second
    } else {
        third
    }
}

/// An address that is reached over an alias is known for no longer than the alias and the address
/// are both good for, and never for longer than the longest time; in which order the two stand in
/// the answer makes no difference.
pub proof fn law_aliases_shorten_the_time(
    config: ConfigView,
    bindings: crate::policy::model::Bindings,
    asked: Seq<u8>,
    alias: Seq<u8>,
    address: IpAddr,
    alias_ttl: u32,
    address_ttl: u32,
    now: int,
)
    requires
        asked != alias,
        1 <= config.limits.max_dns_ttl@ / (crate::time::NANOS_PER_SEC as int) <= u32::MAX,
        bindings.dom().len() < config.limits.max_dns_bindings,
    ensures
        ({
            let cname = RecordView::Cname { owner: asked, target: alias, ttl: alias_ttl };
            let answer = RecordView::Address { owner: alias, address, ttl: address_ttl };
            let seconds = shortest(
                stated_time(alias_ttl),
                stated_time(address_ttl),
                config.limits.max_dns_ttl@ / (crate::time::NANOS_PER_SEC as int),
            );
            let known = bindings.insert(
                (address, asked),
                forgotten_at(now, seconds * 1_000_000_000),
            );
            &&& crate::policy::model::observed(config, bindings, asked, seq![cname, answer], now)
                == known
            &&& crate::policy::model::observed(config, bindings, asked, seq![answer, cname], now)
                == known
        }),
{
    let max = crate::policy::model::max_ttl_secs(config);
    let cname = RecordView::Cname { owner: asked, target: alias, ttl: alias_ttl };
    let answer = RecordView::Address { owner: alias, address, ttl: address_ttl };
    let start = Map::<Seq<u8>, u64>::empty().insert(asked, max as u64);
    let time = crate::policy::model::chained_ttl(max as u64 as int, alias_ttl, max);
    let reach = start.insert(alias, time as u64);
    lemma_two_records(start, cname, answer, asked, alias, alias_ttl, address, address_ttl, max);
    let forward = seq![cname, answer];
    let backward = seq![answer, cname];
    assert(crate::policy::model::reachable(asked, forward, max) == reach);
    assert(crate::policy::model::reachable(asked, backward, max) == reach);
    lemma_two_bound(config, bindings, asked, forward, reach, now);
    lemma_two_bound(config, bindings, asked, backward, reach, now);
}

proof fn lemma_two_bound(
    config: ConfigView,
    bindings: crate::policy::model::Bindings,
    asked: Seq<u8>,
    records: Seq<RecordView>,
    reach: Map<Seq<u8>, u64>,
    now: int,
)
    requires
        records.len() == 2,
    ensures
        crate::policy::model::bind_records(config, bindings, asked, records, 2, reach, now)
            == crate::policy::model::bind_record(
            config,
            crate::policy::model::bind_record(config, bindings, asked, records[0], reach, now),
            asked,
            records[1],
            reach,
            now,
        ),
{
    reveal_with_fuel(crate::policy::model::bind_records, 3);
}

proof fn lemma_two_records(
    start: Map<Seq<u8>, u64>,
    cname: RecordView,
    answer: RecordView,
    asked: Seq<u8>,
    alias: Seq<u8>,
    alias_ttl: u32,
    address: IpAddr,
    address_ttl: u32,
    max: int,
)
    requires
        asked != alias,
        1 <= max <= u32::MAX,
        start == Map::<Seq<u8>, u64>::empty().insert(asked, max as u64),
        cname == (RecordView::Cname { owner: asked, target: alias, ttl: alias_ttl }),
        answer == (RecordView::Address { owner: alias, address, ttl: address_ttl }),
    ensures
        ({
            let time = crate::policy::model::chained_ttl(max, alias_ttl, max);
            let reach = start.insert(alias, time as u64);
            &&& crate::policy::model::reachable_after(start, seq![cname, answer], 2, max) == reach
            &&& crate::policy::model::reachable_after(start, seq![answer, cname], 2, max) == reach
        }),
{
    let time = crate::policy::model::chained_ttl(max, alias_ttl, max);
    let reach = start.insert(alias, time as u64);
    let forward = seq![cname, answer];
    let backward = seq![answer, cname];
    assert(crate::policy::model::follow_alias(start, cname, max) == reach);
    assert(crate::policy::model::follow_alias(reach, cname, max) == reach);
    lemma_two_followed(start, forward, max);
    lemma_two_followed(start, backward, max);
    lemma_two_followed(reach, forward, max);
    lemma_two_followed(reach, backward, max);
    lemma_two_passes(start, forward, max);
    lemma_two_passes(start, backward, max);
}

proof fn lemma_two_followed(reach: Map<Seq<u8>, u64>, records: Seq<RecordView>, max: int)
    requires
        records.len() == 2,
    ensures
        crate::policy::model::follow_aliases(reach, records, 2, max)
            == crate::policy::model::follow_alias(
            crate::policy::model::follow_alias(reach, records[0], max),
            records[1],
            max,
        ),
{
    reveal_with_fuel(crate::policy::model::follow_aliases, 3);
}

proof fn lemma_two_passes(reach: Map<Seq<u8>, u64>, records: Seq<RecordView>, max: int)
    requires
        records.len() == 2,
    ensures
        crate::policy::model::reachable_after(reach, records, 2, max)
            == crate::policy::model::follow_aliases(
            crate::policy::model::follow_aliases(reach, records, 2, max),
            records,
            2,
            max,
        ),
{
    reveal_with_fuel(crate::policy::model::reachable_after, 3);
}

/// The first bytes of a connection may come in pieces that overlap: each piece adds what lies
/// behind what is there, and says again what lies in it.
pub proof fn law_pieces_may_overlap(
    initial_sequence: u32,
    bytes: Seq<u8>,
    tcp: TcpPacketView,
    from: int,
    more: Seq<u8>,
    per_flow_limit: int,
    total_remaining: int,
)
    requires
        0 <= from <= bytes.len() < 0x1_0000_0000,
        !tcp.syn,
        tcp.sequence == initial_sequence.wrapping_add(from as u32),
        tcp.payload == bytes.subrange(from, bytes.len() as int) + more,
        tcp.payload.len() > 0,
        bytes.len() + more.len() <= per_flow_limit,
        more.len() <= total_remaining,
        from < 0x1_0000_0000,
    ensures
        tls_progress(initial_sequence, bytes, tcp, per_flow_limit, total_remaining) == (
        match crate::policy::tls::tls_hello(bytes + more) {
            Ok(parse) => Ok((bytes + more, parse)),
            Err(reason) => Err(reason),
        }),
{
    let offset = (crate::policy::model::payload_sequence(tcp) - initial_sequence) % 0x1_0000_0000;
    assert(offset == from);
    let repeated = crate::policy::model::min_int(bytes.len() - offset, tcp.payload.len() as int);
    assert(repeated == bytes.len() - from);
    assert(bytes.subrange(offset, offset + repeated) =~= tcp.payload.subrange(0, repeated));
    assert(tcp.payload.subrange(repeated, tcp.payload.len() as int) =~= more);
}

/// A piece that leaves a gap is refused, and so is one that says something else than what is there,
/// and one that is too much to hold.
pub proof fn law_broken_pieces_are_refused(
    initial_sequence: u32,
    bytes: Seq<u8>,
    tcp: TcpPacketView,
    from: int,
    at: int,
    per_flow_limit: int,
    total_remaining: int,
)
    requires
        0 <= from < 0x1_0000_0000,
        bytes.len() < 0x1_0000_0000,
        !tcp.syn,
        tcp.sequence == initial_sequence.wrapping_add(from as u32),
        tcp.payload.len() > 0,
    ensures
        from > bytes.len() ==> tls_progress(
            initial_sequence,
            bytes,
            tcp,
            per_flow_limit,
            total_remaining,
        ) == Err::<(Seq<u8>, TlsParseView), DenyReason>(DenyReason::OutOfOrder),
        from <= at < bytes.len() && at < from + tcp.payload.len() && bytes[at] != tcp.payload[at
            - from] ==> tls_progress(
            initial_sequence,
            bytes,
            tcp,
            per_flow_limit,
            total_remaining,
        ) == Err::<(Seq<u8>, TlsParseView), DenyReason>(DenyReason::OutOfOrder),
        from == bytes.len() && (bytes.len() + tcp.payload.len() > per_flow_limit
            || tcp.payload.len() > total_remaining) ==> tls_progress(
            initial_sequence,
            bytes,
            tcp,
            per_flow_limit,
            total_remaining,
        ) == Err::<(Seq<u8>, TlsParseView), DenyReason>(DenyReason::StateLimit),
{
    let offset = (crate::policy::model::payload_sequence(tcp) - initial_sequence) % 0x1_0000_0000;
    assert(offset == from);
    let repeated = crate::policy::model::min_int(bytes.len() - offset, tcp.payload.len() as int);
    if from <= at < bytes.len() && at < from + tcp.payload.len() && bytes[at] != tcp.payload[at
        - from] {
        let left = bytes.subrange(offset, offset + repeated);
        let right = tcp.payload.subrange(0, repeated);
        assert(left[at - from] == bytes[at]);
        assert(right[at - from] == tcp.payload[at - from]);
        assert(left != right);
    }
    if from == bytes.len() {
        assert(bytes.subrange(offset, offset + repeated) =~= tcp.payload.subrange(0, repeated));
        assert(tcp.payload.subrange(repeated, tcp.payload.len() as int) =~= tcp.payload);
    }
}

/// A segment without bytes passes while the name is waited for; what was said so far stays, and is
/// waited with again for the full time.
pub proof fn law_empty_segments_keep_what_was_said(
    config: ConfigView,
    state: EngineView,
    guest: IpAddr,
    remote: IpAddr,
    tcp: TcpPacketView,
    initial_sequence: u32,
    bytes: Seq<u8>,
    expires: int,
    now: int,
)
    requires
        state.flows.contains_key(
            between(guest, tcp.source_port, remote, tcp.destination_port, Transport::Tcp),
        ),
        state.flows[between(
            guest,
            tcp.source_port,
            remote,
            tcp.destination_port,
            Transport::Tcp,
        )] == (FlowView::PendingTls { initial_sequence, bytes, expires }),
        !tcp.rst,
        tcp.payload.len() == 0,
    ensures
        ({
            let step = crate::policy::model::tcp_step(
                config,
                state,
                FrameDirection::GuestToNetwork,
                guest,
                remote,
                tcp,
                now,
            );
            let key = between(
                guest,
                tcp.source_port,
                remote,
                tcp.destination_port,
                Transport::Tcp,
            );
            &&& step.decision == PolicyDecision::Allow(AllowReason::DomainHandshake)
            &&& step.state.flows == state.flows.insert(
                key,
                FlowView::PendingTls {
                    initial_sequence,
                    bytes,
                    expires: forgotten_at(now, config.limits.pending_tls_ttl@),
                },
            )
            &&& step.state.queries == state.queries && step.state.bindings == state.bindings
        }),
{
    let key = between(guest, tcp.source_port, remote, tcp.destination_port, Transport::Tcp);
    let held = FlowView::PendingTls {
        initial_sequence,
        bytes,
        expires: forgotten_at(now, config.limits.pending_tls_ttl@),
    };
    assert(state.flows.remove(key).insert(key, held) =~= state.flows.insert(key, held));
}

/// The private addresses are the three blocks that are set aside for them.
pub proof fn law_private_addresses_are_set_aside(address: crate::net::Ipv4Addr)
    ensures
        address.is_private_spec() <==> {
            let octets = address.octets_spec();
            ||| octets[0] == 10
            ||| octets[0] == 172 && 16 <= octets[1] <= 31
            ||| octets[0] == 192 && octets[1] == 168
        },
{
    let bits = address.bits;
    assert(bits / 0x100_0000 <= 255);
    assert(bits / 0x1_0000 == bits / 0x100_0000 * 256 + bits / 0x1_0000 % 0x100);
}

/// The bytes that are held are those of the connections that wait for their name, all of them
/// together.
pub proof fn law_held_bytes_are_counted(
    flows: crate::policy::model::Flows,
    key: crate::policy::model::FlowKey,
    initial_sequence: u32,
    bytes: Seq<u8>,
    expires: int,
)
    requires
        flows.dom().finite(),
        !flows.contains_key(key),
    ensures
        crate::policy::model::tls_total(
            flows.insert(key, FlowView::PendingTls { initial_sequence, bytes, expires }),
        ) == crate::policy::model::tls_total(flows) + bytes.len(),
        crate::policy::model::tls_total(flows.insert(key, FlowView::Allowed { expires }))
            == crate::policy::model::tls_total(flows),
        crate::policy::model::tls_total(Map::empty()) == 0,
{
    crate::policy::laws::lemma_total_insert(
        flows,
        key,
        FlowView::PendingTls { initial_sequence, bytes, expires },
    );
    crate::policy::laws::lemma_total_insert(flows, key, FlowView::Allowed { expires });
    crate::policy::laws::lemma_total_empty();
}

/// Bytes that are too many, for their connection or for all of them together, are refused, and the
/// connection is forgotten.
pub proof fn law_too_many_bytes_are_refused(
    config: ConfigView,
    state: EngineView,
    guest: IpAddr,
    remote: IpAddr,
    tcp: TcpPacketView,
    initial_sequence: u32,
    bytes: Seq<u8>,
    expires: int,
    now: int,
)
    requires
        state.flows.contains_key(
            between(guest, tcp.source_port, remote, tcp.destination_port, Transport::Tcp),
        ),
        state.flows[between(
            guest,
            tcp.source_port,
            remote,
            tcp.destination_port,
            Transport::Tcp,
        )] == (FlowView::PendingTls { initial_sequence, bytes, expires }),
        !tcp.syn,
        !tcp.rst,
        tcp.payload.len() > 0,
        bytes.len() < 0x1_0000_0000,
        tcp.sequence == initial_sequence.wrapping_add(bytes.len() as u32),
        bytes.len() + tcp.payload.len() > config.limits.max_tls_buffer_per_flow
            || crate::policy::model::tls_total(
            state.flows.remove(
                between(guest, tcp.source_port, remote, tcp.destination_port, Transport::Tcp),
            ),
        ) + tcp.payload.len() > config.limits.max_total_tls_bytes,
    ensures
        ({
            let step = crate::policy::model::tcp_step(
                config,
                state,
                FrameDirection::GuestToNetwork,
                guest,
                remote,
                tcp,
                now,
            );
            let key = between(
                guest,
                tcp.source_port,
                remote,
                tcp.destination_port,
                Transport::Tcp,
            );
            &&& step.decision == PolicyDecision::Deny(DenyReason::StateLimit)
            &&& step.state.flows == state.flows.remove(key)
            &&& step.state.queries == state.queries && step.state.bindings == state.bindings
        }),
{
    let key = between(guest, tcp.source_port, remote, tcp.destination_port, Transport::Tcp);
    let left = state.without_flow(key);
    law_broken_pieces_are_refused(
        initial_sequence,
        bytes,
        tcp,
        bytes.len() as int,
        0,
        config.limits.max_tls_buffer_per_flow as int,
        crate::policy::model::tls_room(config, left.flows),
    );
}

/// A full table of known addresses takes no new one, but one that is known already is known for the
/// time of the latest answer.
pub proof fn law_known_addresses_are_renewed(
    config: ConfigView,
    bindings: crate::policy::model::Bindings,
    asked: Seq<u8>,
    address: IpAddr,
    ttl: u32,
    now: int,
)
    requires
        1 <= config.limits.max_dns_ttl@ / (crate::time::NANOS_PER_SEC as int) <= u32::MAX,
        bindings.dom().len() >= config.limits.max_dns_bindings,
    ensures
        ({
            let answer = RecordView::Address { owner: asked, address, ttl };
            let longest = config.limits.max_dns_ttl@ / (crate::time::NANOS_PER_SEC as int);
            let seconds = shortest(stated_time(ttl), longest, longest);
            let after = crate::policy::model::observed(
                config,
                bindings,
                asked,
                seq![answer],
                now,
            );
            if bindings.contains_key((address, asked)) {
                after == bindings.insert(
                    (address, asked),
                    forgotten_at(now, seconds * 1_000_000_000),
                )
            } else {
                after == bindings
            }
        }),
{
    let answer = RecordView::Address { owner: asked, address, ttl };
    let records = seq![answer];
    let max = crate::policy::model::max_ttl_secs(config);
    let start = Map::<Seq<u8>, u64>::empty().insert(asked, max as u64);
    reveal_with_fuel(crate::policy::model::reachable_after, 2);
    reveal_with_fuel(crate::policy::model::follow_aliases, 2);
    assert(crate::policy::model::reachable(asked, records, max) == start);
    reveal_with_fuel(crate::policy::model::bind_records, 2);
}

} // verus!
