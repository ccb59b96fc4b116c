//! What holds of the policy engine over all frames and all states.

use vstd::prelude::*;

use crate::net::IpAddr;
use crate::policy::config::{ConfigView, PolicyLimits};
use crate::policy::dns::RecordView;
use crate::policy::model::{Bindings, DnsQueryKey, EngineView, FlowKey, FlowView, Flows, QueryView};
use crate::policy::packet::{TcpPacketView, UdpPacketView};
use crate::policy::{DenyReason, FrameDirection, PolicyDecision, PolicyMode};

verus! {

/// Taking a flow out lowers the total by what was held for it.
pub proof fn lemma_total_remove(flows: Flows, key: FlowKey)
    requires
        flows.dom().finite(),
        flows.contains_key(key),
    ensures
        crate::policy::model::tls_total(flows) == flows[key].buffered()
            + crate::policy::model::tls_total(flows.remove(key)),
    decreases flows.dom().len(),
{
    let chosen = flows.dom().choose();
    assert(flows.dom().contains(key));
    assert(flows.dom().len() > 0);
    if chosen != key {
        let without = flows.remove(chosen);
        assert(without.dom() =~= flows.dom().remove(chosen));
        lemma_total_remove(without, key);
        let other = flows.remove(key);
        assert(other.dom() =~= flows.dom().remove(key));
        lemma_total_remove(other, chosen);
        assert(without.remove(key) =~= other.remove(chosen));
    }
}

/// Putting in a flow that was not there raises the total by what is held for it.
pub proof fn lemma_total_insert(flows: Flows, key: FlowKey, flow: FlowView)
    requires
        flows.dom().finite(),
        !flows.contains_key(key),
    ensures
        crate::policy::model::tls_total(flows.insert(key, flow)) == flow.buffered()
            + crate::policy::model::tls_total(flows),
{
    let more = flows.insert(key, flow);
    lemma_total_remove(more, key);
    assert(more.remove(key) =~= flows);
}

/// The total of no flows is zero.
pub proof fn lemma_total_empty()
    ensures
        crate::policy::model::tls_total(Map::empty()) == 0,
{
    assert(Map::<FlowKey, FlowView>::empty().dom() =~= Set::empty());
}

/// What is left after expiry holds no more than before.
pub proof fn lemma_total_live(flows: Flows, now: int)
    requires
        flows.dom().finite(),
    ensures
        crate::policy::model::live_flows(flows, now).dom().finite(),
        crate::policy::model::live_flows(flows, now).dom().len() <= flows.dom().len(),
        crate::policy::model::tls_total(crate::policy::model::live_flows(flows, now))
            <= crate::policy::model::tls_total(flows),
    decreases flows.dom().len(),
{
    let live = crate::policy::model::live_flows(flows, now);
    assert(live.dom().subset_of(flows.dom()));
    vstd::set_lib::lemma_len_subset(live.dom(), flows.dom());
    if flows.dom().len() == 0 {
        assert(live.dom() =~= Set::empty()) by {
            assert forall|key: FlowKey| !live.dom().contains(key) by {
                if live.dom().contains(key) {
                    assert(flows.dom().contains(key));
                }
            }
        }
    } else {
        let chosen = flows.dom().choose();
        let rest = flows.remove(chosen);
        assert(rest.dom() =~= flows.dom().remove(chosen));
        lemma_total_live(rest, now);
        let live_rest = crate::policy::model::live_flows(rest, now);
        assert(live.remove(chosen) =~= live_rest);
        if live.contains_key(chosen) {
            lemma_total_remove(live, chosen);
        } else {
            assert(live =~= live_rest);
        }
    }
}

/// Expiry keeps the bounds.
pub proof fn law_expiry_keeps_bounds(state: EngineView, limits: PolicyLimits, now: int)
    requires
        state.bounded(limits),
    ensures
        state.expired(now).bounded(limits),
{
    let after = state.expired(now);
    lemma_total_live(state.flows, now);
    assert(after.queries.dom().subset_of(state.queries.dom()));
    vstd::set_lib::lemma_len_subset(after.queries.dom(), state.queries.dom());
    assert(after.bindings.dom().subset_of(state.bindings.dom()));
    vstd::set_lib::lemma_len_subset(after.bindings.dom(), state.bindings.dom());
    assert forall|key: FlowKey| #[trigger] after.flows.contains_key(key) implies after.flows[key].buffered()
        <= limits.max_tls_buffer_per_flow by {
        assert(state.flows.contains_key(key));
    }
}

/// Putting in an allowed flow, new within the limit or in place of an old one, keeps the bounds.
proof fn lemma_allowed_keeps_bounds(
    state: EngineView,
    limits: PolicyLimits,
    key: FlowKey,
    expires: int,
)
    requires
        state.bounded(limits),
        state.flows.contains_key(key) || state.flows.dom().len() < limits.max_flows,
    ensures
        state.with_flow(key, FlowView::Allowed { expires }).bounded(limits),
{
    let flow = FlowView::Allowed { expires };
    let without = state.flows.remove(key);
    if state.flows.contains_key(key) {
        lemma_total_remove(state.flows, key);
    } else {
        assert(without =~= state.flows);
    }
    assert(without.dom() =~= state.flows.dom().remove(key));
    lemma_total_insert(without, key, flow);
    let after = state.with_flow(key, flow);
    assert(without.insert(key, flow) =~= after.flows);
    assert(after.flows.dom() =~= state.flows.dom().insert(key));
    assert forall|k: FlowKey| #[trigger] after.flows.contains_key(k) implies after.flows[k].buffered()
        <= limits.max_tls_buffer_per_flow by {
        if k != key {
            assert(state.flows.contains_key(k));
        }
    }
}

/// Taking a flow out keeps the bounds and leaves room for one.
pub proof fn lemma_removal_keeps_bounds(state: EngineView, limits: PolicyLimits, key: FlowKey)
    requires
        state.bounded(limits),
        state.flows.contains_key(key),
    ensures
        state.without_flow(key).bounded(limits),
        state.without_flow(key).flows.dom().len() < limits.max_flows,
        crate::policy::model::tls_total(state.without_flow(key).flows)
            + state.flows[key].buffered() == crate::policy::model::tls_total(state.flows),
{
    lemma_total_remove(state.flows, key);
    let after = state.without_flow(key);
    assert(after.flows.dom() =~= state.flows.dom().remove(key));
    assert forall|k: FlowKey| #[trigger] after.flows.contains_key(k) implies after.flows[k].buffered()
        <= limits.max_tls_buffer_per_flow by {
        assert(state.flows.contains_key(k));
    }
}

proof fn lemma_tls_keeps_bounds(
    config: ConfigView,
    state: EngineView,
    key: FlowKey,
    initial_sequence: u32,
    bytes: Seq<u8>,
    tcp: TcpPacketView,
    now: int,
)
    requires
        state.bounded(config.limits),
        !state.flows.contains_key(key),
        state.flows.dom().len() < config.limits.max_flows,
        bytes.len() <= config.limits.max_tls_buffer_per_flow,
        crate::policy::model::tls_total(state.flows) + bytes.len()
            <= config.limits.max_total_tls_bytes + config.limits.max_tls_buffer_per_flow,
    ensures
        crate::policy::model::tls_step(
            config,
            state,
            key,
            initial_sequence,
            bytes,
            tcp,
            now,
        ).state.bounded(config.limits),
{
    let limits = config.limits;
    let after = crate::policy::model::tls_step(
        config,
        state,
        key,
        initial_sequence,
        bytes,
        tcp,
        now,
    ).state;
    if after.flows.contains_key(key) {
        let flow = after.flows[key];
        if flow is Allowed {
            lemma_allowed_keeps_bounds(state, limits, key, flow.expires());
        } else {
            assert(after == state.with_flow(key, flow));
            lemma_total_insert(state.flows, key, flow);
            assert(after.flows.dom() =~= state.flows.dom().insert(key));
            assert forall|k: FlowKey| #[trigger]
                after.flows.contains_key(k) implies after.flows[k].buffered()
                <= limits.max_tls_buffer_per_flow by {
                if k != key {
                    assert(state.flows.contains_key(k));
                }
            }
        }
    }
}

proof fn lemma_open_keeps_bounds(
    config: ConfigView,
    state: EngineView,
    key: FlowKey,
    reason: crate::policy::AllowReason,
    now: int,
)
    requires
        state.bounded(config.limits),
    ensures
        crate::policy::model::open_flow(config, state, key, reason, now).state.bounded(
            config.limits,
        ),
{
    if state.flows.contains_key(key) || state.flows.dom().len() < config.limits.max_flows {
        lemma_allowed_keeps_bounds(
            state,
            config.limits,
            key,
            crate::policy::model::until(now, config.limits.flow_ttl@),
        );
    }
}

proof fn lemma_bind_keeps_bounds(
    config: ConfigView,
    bindings: Bindings,
    question: Seq<u8>,
    records: Seq<RecordView>,
    upto: nat,
    reach: Map<Seq<u8>, u64>,
    now: int,
)
    requires
        bindings.dom().finite(),
        bindings.dom().len() <= config.limits.max_dns_bindings,
    ensures
        crate::policy::model::bind_records(
            config,
            bindings,
            question,
            records,
            upto,
            reach,
            now,
        ).dom().finite(),
        crate::policy::model::bind_records(
            config,
            bindings,
            question,
            records,
            upto,
            reach,
            now,
        ).dom().len() <= config.limits.max_dns_bindings,
    decreases upto,
{
    if upto > 0 {
        lemma_bind_keeps_bounds(
            config,
            bindings,
            question,
            records,
            (upto - 1) as nat,
            reach,
            now,
        );
        let before = crate::policy::model::bind_records(
            config,
            bindings,
            question,
            records,
            (upto - 1) as nat,
            reach,
            now,
        );
        let after = crate::policy::model::bind_record(
            config,
            before,
            question,
            records[upto - 1],
            reach,
            now,
        );
        if let RecordView::Address { owner, address, ttl } = records[upto - 1] {
            if after != before {
                assert(after.dom() =~= before.dom().insert((address, question)));
            }
        }
    }
}

proof fn lemma_udp_keeps_bounds(
    config: ConfigView,
    state: EngineView,
    direction: FrameDirection,
    source: IpAddr,
    destination: IpAddr,
    udp: UdpPacketView,
    now: int,
)
    requires
        state.bounded(config.limits),
    ensures
        crate::policy::model::udp_step(
            config,
            state,
            direction,
            source,
            destination,
            udp,
            now,
        ).state.bounded(config.limits),
{
    let limits = config.limits;
    let key = crate::policy::model::flow_key_of(
        direction,
        source,
        destination,
        udp.source_port,
        udp.destination_port,
        crate::policy::model::Transport::Udp,
    );
    if state.flows.contains_key(key) {
        lemma_allowed_keeps_bounds(
            state,
            limits,
            key,
            crate::policy::model::until(now, limits.flow_ttl@),
        );
    }
    lemma_open_keeps_bounds(config, state, key, crate::policy::AllowReason::Cidr, now);
    lemma_open_keeps_bounds(config, state, key, crate::policy::AllowReason::Unrestricted, now);
    assert(crate::policy::model::dns_query_step(
        config,
        state,
        source,
        destination,
        udp,
        now,
    ).state.bounded(limits)) by {
        if let Some((id, name)) = crate::policy::dns::query_of(udp.payload) {
            let query = DnsQueryKey {
                server: destination,
                guest: source,
                guest_port: udp.source_port,
                id,
            };
            let waiting = QueryView {
                name,
                expires: crate::policy::model::until(now, limits.dns_query_ttl@),
            };
            assert(state.queries.insert(query, waiting).dom() =~= state.queries.dom().insert(
                query,
            ));
        }
    }
    assert(crate::policy::model::dns_response_step(
        config,
        state,
        source,
        destination,
        udp,
        now,
    ).state.bounded(limits)) by {
        let query = DnsQueryKey {
            server: source,
            guest: destination,
            guest_port: udp.destination_port,
            id: crate::bytes::be16(udp.payload, 0),
        };
        assert(state.queries.remove(query).dom() =~= state.queries.dom().remove(query));
        if let Some(response) = crate::policy::dns::response_of(udp.payload) {
            lemma_bind_keeps_bounds(
                config,
                state.bindings,
                state.queries[query].name,
                response.answers,
                response.answers.len(),
                crate::policy::model::reachable(
                    state.queries[query].name,
                    response.answers,
                    crate::policy::model::max_ttl_secs(config),
                ),
                now,
            );
        }
    }
}

proof fn lemma_tcp_keeps_bounds(
    config: ConfigView,
    state: EngineView,
    direction: FrameDirection,
    source: IpAddr,
    destination: IpAddr,
    tcp: TcpPacketView,
    now: int,
)
    requires
        state.bounded(config.limits),
    ensures
        crate::policy::model::tcp_step(
            config,
            state,
            direction,
            source,
            destination,
            tcp,
            now,
        ).state.bounded(config.limits),
{
    let limits = config.limits;
    let key = crate::policy::model::flow_key_of(
        direction,
        source,
        destination,
        tcp.source_port,
        tcp.destination_port,
        crate::policy::model::Transport::Tcp,
    );
    if state.flows.contains_key(key) {
        lemma_allowed_keeps_bounds(
            state,
            limits,
            key,
            crate::policy::model::until(now, limits.flow_ttl@),
        );
        lemma_removal_keeps_bounds(state, limits, key);
        if let FlowView::PendingTls { initial_sequence, bytes, .. } = state.flows[key] {
            lemma_tls_keeps_bounds(
                config,
                state.without_flow(key),
                key,
                initial_sequence,
                bytes,
                tcp,
                now,
            );
        }
    } else {
        lemma_open_keeps_bounds(config, state, key, crate::policy::AllowReason::Preview, now);
        lemma_open_keeps_bounds(config, state, key, crate::policy::AllowReason::Cidr, now);
        lemma_open_keeps_bounds(config, state, key, crate::policy::AllowReason::Unrestricted, now);
        if state.flows.dom().len() < limits.max_flows {
            lemma_tls_keeps_bounds(
                config,
                state,
                key,
                crate::policy::model::payload_sequence(tcp) as u32,
                Seq::empty(),
                tcp,
                now,
            );
        }
    }
}

/// The state is bounded: no frame takes it beyond the configured numbers of flows, queries and
/// bindings, no connection holds more bytes than one may, and all of them together hold no more
/// than the common bound plus what one connection may hold.
pub proof fn law_state_stays_bounded(
    config: ConfigView,
    state: EngineView,
    direction: FrameDirection,
    frame: Seq<u8>,
    now: int,
)
    requires
        state.bounded(config.limits),
    ensures
        crate::policy::model::step(config, state, direction, frame, now).state.bounded(
            config.limits,
        ),
{
    law_expiry_keeps_bounds(state, config.limits, now);
    let current = state.expired(now);
    let ether_type = crate::bytes::be16(frame, 12);
    let payload = frame.subrange(
        crate::policy::model::ETHERNET_HEADER_LEN as int,
        frame.len() as int,
    );
    if let Ok(packet) = crate::policy::model::ip_packet(ether_type, payload) {
        if let Some(udp) = crate::policy::packet::udp_packet(packet.payload) {
            lemma_udp_keeps_bounds(
                config,
                current,
                direction,
                packet.source,
                packet.destination,
                udp,
                now,
            );
        }
        if let Some(tcp) = crate::policy::packet::tcp_packet(packet.payload) {
            lemma_tcp_keeps_bounds(
                config,
                current,
                direction,
                packet.source,
                packet.destination,
                tcp,
                now,
            );
        }
    }
}

/// A disabled policy denies every frame.
pub proof fn law_disabled_denies_everything(
    config: ConfigView,
    state: EngineView,
    direction: FrameDirection,
    frame: Seq<u8>,
    now: int,
)
    requires
        config.mode == PolicyMode::Disabled,
    ensures
        crate::policy::model::step(config, state, direction, frame, now).decision
            == PolicyDecision::Deny(DenyReason::Disabled),
        crate::policy::model::step(config, state, direction, frame, now).state == state.expired(
            now,
        ),
{
}

/// What has expired plays no part: a frame is decided as if it had been dropped before.
pub proof fn law_expired_state_has_no_effect(
    config: ConfigView,
    state: EngineView,
    direction: FrameDirection,
    frame: Seq<u8>,
    now: int,
)
    ensures
        crate::policy::model::step(config, state.expired(now), direction, frame, now)
            == crate::policy::model::step(config, state, direction, frame, now),
{
    assert(state.expired(now).expired(now) =~= state.expired(now));
}

/// A datagram towards the guest passes only as DHCP of the infrastructure, as the answer to a
/// query that is waiting for it, or on a flow that is known.
pub proof fn law_unsolicited_udp_is_denied(
    config: ConfigView,
    state: EngineView,
    source: IpAddr,
    destination: IpAddr,
    udp: UdpPacketView,
    now: int,
)
    requires
        crate::policy::model::udp_step(
            config,
            state,
            FrameDirection::NetworkToGuest,
            source,
            destination,
            udp,
            now,
        ).decision is Allow,
    ensures
        ({
            let query = DnsQueryKey {
                server: source,
                guest: destination,
                guest_port: udp.destination_port,
                id: crate::bytes::be16(udp.payload, 0),
            };
            let key = crate::policy::model::flow_key_of(
                FrameDirection::NetworkToGuest,
                source,
                destination,
                udp.source_port,
                udp.destination_port,
                crate::policy::model::Transport::Udp,
            );
            ||| crate::policy::model::dhcp(
                config,
                FrameDirection::NetworkToGuest,
                source,
                destination,
                udp,
            )
            ||| config.dns_servers.contains(source) && state.queries.contains_key(query)
            ||| state.flows.contains_key(key)
        }),
{
}

/// A segment towards the guest passes only on a connection that is known, or to open one to a
/// published port.
pub proof fn law_unsolicited_tcp_is_denied(
    config: ConfigView,
    state: EngineView,
    source: IpAddr,
    destination: IpAddr,
    tcp: TcpPacketView,
    now: int,
)
    requires
        crate::policy::model::tcp_step(
            config,
            state,
            FrameDirection::NetworkToGuest,
            source,
            destination,
            tcp,
            now,
        ).decision is Allow,
    ensures
        ({
            let key = crate::policy::model::flow_key_of(
                FrameDirection::NetworkToGuest,
                source,
                destination,
                tcp.source_port,
                tcp.destination_port,
                crate::policy::model::Transport::Tcp,
            );
            ||| state.flows.contains_key(key)
            ||| tcp.syn && !tcp.ack && config.published_tcp_ports.contains(tcp.destination_port)
        }),
{
}

/// The guest cannot open a connection to a control address, nor send it a datagram that is
/// neither DHCP nor a DNS query to a trusted server.
pub proof fn law_control_addresses_are_closed(
    config: ConfigView,
    state: EngineView,
    source: IpAddr,
    destination: IpAddr,
    udp: UdpPacketView,
    tcp: TcpPacketView,
    now: int,
)
    requires
        config.control_addresses.contains(destination),
        !state.flows.contains_key(
            crate::policy::model::flow_key_of(
                FrameDirection::GuestToNetwork,
                source,
                destination,
                tcp.source_port,
                tcp.destination_port,
                crate::policy::model::Transport::Tcp,
            ),
        ),
        !crate::policy::model::dhcp(
            config,
            FrameDirection::GuestToNetwork,
            source,
            destination,
            udp,
        ),
        !(udp.destination_port == crate::policy::model::DNS_PORT && config.dns_servers.contains(
            destination,
        )),
    ensures
        crate::policy::model::udp_step(
            config,
            state,
            FrameDirection::GuestToNetwork,
            source,
            destination,
            udp,
            now,
        ).decision == PolicyDecision::Deny(DenyReason::ControlEndpoint),
        crate::policy::model::tcp_step(
            config,
            state,
            FrameDirection::GuestToNetwork,
            source,
            destination,
            tcp,
            now,
        ).decision == PolicyDecision::Deny(DenyReason::ControlEndpoint),
{
}

/// Under an allowlist the guest reaches an address that no CIDR rule covers by datagrams only
/// where they are DHCP, a query to a trusted server, or part of a flow that is known.
pub proof fn law_domain_rules_give_no_udp(
    config: ConfigView,
    state: EngineView,
    source: IpAddr,
    destination: IpAddr,
    udp: UdpPacketView,
    now: int,
)
    requires
        config.mode == PolicyMode::Allowlist,
        !config.cidr_matches(destination),
        crate::policy::model::udp_step(
            config,
            state,
            FrameDirection::GuestToNetwork,
            source,
            destination,
            udp,
            now,
        ).decision is Allow,
    ensures
        ({
            let key = crate::policy::model::flow_key_of(
                FrameDirection::GuestToNetwork,
                source,
                destination,
                udp.source_port,
                udp.destination_port,
                crate::policy::model::Transport::Udp,
            );
            ||| crate::policy::model::dhcp(
                config,
                FrameDirection::GuestToNetwork,
                source,
                destination,
                udp,
            )
            ||| udp.destination_port == crate::policy::model::DNS_PORT
                && config.dns_servers.contains(destination)
            ||| state.flows.contains_key(key)
        }),
{
}

/// Until the server name of a connection is known and allowed, none of the guest's bytes pass: a
/// segment with a payload is let through only as a reset, or once the name that the connection
/// itself states is one that a rule stands for and that the remote address was the answer for.
pub proof fn law_no_payload_before_allowed_name(
    config: ConfigView,
    state: EngineView,
    key: FlowKey,
    initial_sequence: u32,
    bytes: Seq<u8>,
    tcp: TcpPacketView,
    now: int,
)
    requires
        tcp.payload.len() > 0,
        !tcp.rst,
        crate::policy::model::tls_step(
            config,
            state,
            key,
            initial_sequence,
            bytes,
            tcp,
            now,
        ).decision is Allow,
    ensures
        exists|name: Seq<u8>, collected: Seq<u8>| #[trigger]
            config.domain_matches(name) && state.binding_matches(key.remote_ip, name)
                && #[trigger] crate::policy::tls::tls_hello(collected) == Ok::<
                crate::policy::tls::TlsParseView,
                DenyReason,
            >(crate::policy::tls::TlsParseView::ClientHello { sni: Some(name), ech: false })
                && bytes.is_prefix_of(collected),
{
    let progress = crate::policy::model::tls_progress(
        initial_sequence,
        bytes,
        tcp,
        config.limits.max_tls_buffer_per_flow as int,
        crate::policy::model::tls_room(config, state.flows),
    );
    if let Ok((collected, crate::policy::tls::TlsParseView::ClientHello { sni, ech })) = progress {
        if let Some(name) = sni {
            assert(config.domain_matches(name));
            assert(crate::policy::tls::tls_hello(collected) is Ok);
            assert(bytes.is_prefix_of(collected));
        }
    }
}

/// A response uses up the query that it answers: the same response is not let through again.
pub proof fn law_response_is_let_through_once(
    config: ConfigView,
    state: EngineView,
    server: IpAddr,
    guest: IpAddr,
    udp: UdpPacketView,
    now: int,
    later: int,
)
    requires
        udp.payload.len() >= 2,
    ensures
        ({
            let after = crate::policy::model::dns_response_step(
                config,
                state,
                server,
                guest,
                udp,
                now,
            ).state;
            crate::policy::model::dns_response_step(
                config,
                after,
                server,
                guest,
                udp,
                later,
            ).decision == PolicyDecision::Deny(DenyReason::NoReverseFlow)
        }),
{
}

/// Whether an address record among the answers gives an address.
pub open spec fn answers_give(records: Seq<RecordView>, address: IpAddr) -> bool {
    exists|i: int|
        0 <= i < records.len() && (#[trigger] records[i] matches RecordView::Address {
            address: given,
            ..
        } && given == address)
}

proof fn lemma_bindings_come_from_answers(
    config: ConfigView,
    bindings: Bindings,
    question: Seq<u8>,
    records: Seq<RecordView>,
    upto: nat,
    reach: Map<Seq<u8>, u64>,
    now: int,
    key: (IpAddr, Seq<u8>),
)
    requires
        upto <= records.len(),
    ensures
        ({
            let after = crate::policy::model::bind_records(
                config,
                bindings,
                question,
                records,
                upto,
                reach,
                now,
            );
            after.contains_key(key) ==> {
                ||| bindings.contains_key(key) && after[key] == bindings[key]
                ||| key.1 == question && answers_give(records, key.0) && after[key]
                    <= crate::policy::model::until(
                    now,
                    crate::policy::model::max_ttl_secs(config) * crate::time::NANOS_PER_SEC,
                )
            }
        }),
    decreases upto,
{
    if upto > 0 {
        lemma_bindings_come_from_answers(
            config,
            bindings,
            question,
            records,
            (upto - 1) as nat,
            reach,
            now,
            key,
        );
        if let RecordView::Address { owner, address, ttl } = records[upto - 1] {
            assert(answers_give(records, address));
            let lifetime = crate::policy::model::chained_ttl(
                reach[owner] as int,
                ttl,
                crate::policy::model::max_ttl_secs(config),
            );
            assert(lifetime * crate::time::NANOS_PER_SEC <= crate::policy::model::max_ttl_secs(
                config,
            ) * crate::time::NANOS_PER_SEC) by (nonlinear_arith)
                requires
                    lifetime <= crate::policy::model::max_ttl_secs(config),
            ;
        }
    }
}

/// An answer binds nothing but its own addresses, each under the name that was asked for and for
/// no longer than the longest lifetime; every other binding stays as it was.
pub proof fn law_answers_bind_only_the_question(
    config: ConfigView,
    bindings: Bindings,
    question: Seq<u8>,
    records: Seq<RecordView>,
    now: int,
    key: (IpAddr, Seq<u8>),
)
    requires
        crate::policy::model::observed(config, bindings, question, records, now).contains_key(key),
    ensures
        ({
            let after = crate::policy::model::observed(config, bindings, question, records, now);
            ||| bindings.contains_key(key) && after[key] == bindings[key]
            ||| key.1 == question && answers_give(records, key.0) && after[key]
                <= crate::policy::model::until(
                now,
                crate::policy::model::max_ttl_secs(config) * crate::time::NANOS_PER_SEC,
            )
        }),
{
    lemma_bindings_come_from_answers(
        config,
        bindings,
        question,
        records,
        records.len(),
        crate::policy::model::reachable(
            question,
            records,
            crate::policy::model::max_ttl_secs(config),
        ),
        now,
        key,
    );
}

/// Whether some alias record among the answers leads to a name.
pub open spec fn is_alias_target(records: Seq<RecordView>, name: Seq<u8>) -> bool {
    exists|i: int|
        0 <= i < records.len() && (#[trigger] records[i] matches RecordView::Cname { target, .. }
            && target == name)
}

proof fn lemma_pass_reaches_aliases(
    reach: Map<Seq<u8>, u64>,
    records: Seq<RecordView>,
    upto: nat,
    max: int,
    name: Seq<u8>,
)
    requires
        upto <= records.len(),
        0 <= max <= u32::MAX,
    ensures
        ({
            let after = crate::policy::model::follow_aliases(reach, records, upto, max);
            after.contains_key(name) ==> {
                ||| reach.contains_key(name) && after[name] == reach[name]
                ||| is_alias_target(records, name) && 0 < after[name] <= max
            }
        }),
    decreases upto,
{
    if upto > 0 {
        lemma_pass_reaches_aliases(reach, records, (upto - 1) as nat, max, name);
        if let RecordView::Cname { owner, target, ttl } = records[upto - 1] {
            assert(is_alias_target(records, target));
        }
    }
}

proof fn lemma_passes_reach_aliases(
    reach: Map<Seq<u8>, u64>,
    records: Seq<RecordView>,
    passes: nat,
    max: int,
    name: Seq<u8>,
)
    requires
        0 <= max <= u32::MAX,
    ensures
        ({
            let after = crate::policy::model::reachable_after(reach, records, passes, max);
            after.contains_key(name) ==> {
                ||| reach.contains_key(name) && after[name] == reach[name]
                ||| is_alias_target(records, name) && 0 < after[name] <= max
            }
        }),
    decreases passes,
{
    if passes > 0 {
        lemma_passes_reach_aliases(reach, records, (passes - 1) as nat, max, name);
        lemma_pass_reaches_aliases(
            crate::policy::model::reachable_after(reach, records, (passes - 1) as nat, max),
            records,
            records.len(),
            max,
            name,
        );
    }
}

/// A name is reached only if it was asked for or an alias among the answers leads to it, and
/// never for longer than the longest lifetime.
pub proof fn law_only_aliases_are_reached(
    question: Seq<u8>,
    records: Seq<RecordView>,
    max: int,
    name: Seq<u8>,
)
    requires
        0 <= max <= u32::MAX,
        crate::policy::model::reachable(question, records, max).contains_key(name),
    ensures
        name == question || is_alias_target(records, name),
        crate::policy::model::reachable(question, records, max)[name] <= max,
{
    lemma_passes_reach_aliases(
        Map::<Seq<u8>, u64>::empty().insert(question, max as u64),
        records,
        records.len(),
        max,
        name,
    );
}

/// Whatever comes of a segment, the bytes held before it stay the first ones held after it, within
/// the limit of one connection and growing by no more than the room that is left.  A segment that
/// is out of order or over a limit leaves them as they were.
pub proof fn law_segments_only_extend_what_is_kept(
    initial_sequence: u32,
    bytes: Seq<u8>,
    tcp: TcpPacketView,
    per_flow_limit: int,
    total_remaining: int,
)
    requires
        bytes.len() <= per_flow_limit,
        0 <= total_remaining,
    ensures
        ({
            let kept = crate::policy::model::tls_kept(
                initial_sequence,
                bytes,
                tcp,
                per_flow_limit,
                total_remaining,
            );
            let progress = crate::policy::model::tls_progress(
                initial_sequence,
                bytes,
                tcp,
                per_flow_limit,
                total_remaining,
            );
            &&& bytes.is_prefix_of(kept)
            &&& kept.len() <= per_flow_limit
            &&& kept.len() - bytes.len() <= total_remaining
            &&& match progress {
                Ok((held, _)) => held == kept,
                Err(reason) => reason == DenyReason::OutOfOrder || reason == DenyReason::StateLimit
                    ==> kept == bytes,
            }
        }),
{
    let offset = (crate::policy::model::payload_sequence(tcp) - initial_sequence) % 0x1_0000_0000;
    let repeated = crate::policy::model::min_int(bytes.len() - offset, tcp.payload.len() as int);
    let added = tcp.payload.subrange(repeated, tcp.payload.len() as int);
    assert(bytes.is_prefix_of(bytes + added));
    crate::policy::tls::law_unreadable_bytes_have_one_reason(bytes + added);
}

/// A segment that is sent again changes nothing: the bytes stay as they are, and what they say is
/// said again.
pub proof fn law_repeated_segment_changes_nothing(
    initial_sequence: u32,
    bytes: Seq<u8>,
    tcp: TcpPacketView,
    per_flow_limit: int,
    total_remaining: int,
    remaining_later: int,
)
    requires
        bytes.len() <= per_flow_limit,
        0 <= remaining_later,
        crate::policy::model::tls_progress(
            initial_sequence,
            bytes,
            tcp,
            per_flow_limit,
            total_remaining,
        ) is Ok,
    ensures
        ({
            let first = crate::policy::model::tls_progress(
                initial_sequence,
                bytes,
                tcp,
                per_flow_limit,
                total_remaining,
            );
            crate::policy::model::tls_progress(
                initial_sequence,
                (first->Ok_0).0,
                tcp,
                per_flow_limit,
                remaining_later,
            ) == first
        }),
{
    let offset = (crate::policy::model::payload_sequence(tcp) - initial_sequence) % 0x1_0000_0000;
    let repeated = crate::policy::model::min_int(bytes.len() - offset, tcp.payload.len() as int);
    if tcp.payload.len() > 0 {
        let added = tcp.payload.subrange(repeated, tcp.payload.len() as int);
        let held = bytes + added;
        let again = crate::policy::model::min_int(held.len() - offset, tcp.payload.len() as int);
        assert(again == tcp.payload.len());
        assert forall|i: int| 0 <= i < tcp.payload.len() implies #[trigger] held[offset + i]
            == tcp.payload[i] by {
            if i < repeated {
                assert(bytes.subrange(offset, offset + repeated)[i] == tcp.payload.subrange(
                    0,
                    repeated,
                )[i]);
            }
        }
        assert(held.subrange(offset, offset + again) =~= tcp.payload.subrange(0, again));
        assert(held + tcp.payload.subrange(again, tcp.payload.len() as int) =~= held);
    }
}

} // verus!
