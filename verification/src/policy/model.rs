//! The policy engine as a transition function: what state it keeps, and how each frame changes
//! that state and is decided.

use vstd::prelude::*;

use crate::net::{IpAddr, Ipv4Addr};
use crate::policy::config::{ConfigView, PolicyLimits};
use crate::policy::dns::RecordView;
use crate::policy::packet::{
    IpPacketView, TcpPacketView, UdpPacketView, IPPROTO_TCP, IPPROTO_UDP,
};
use crate::policy::tls::TlsParseView;
use crate::policy::{
    AllowReason, DenyReason, FrameDirection, HoldReason, PolicyDecision, PolicyMode,
};

verus! {

pub const ETHERNET_HEADER_LEN: usize = 14;

pub const ETHERTYPE_ARP: u16 = 0x0806;

pub const ETHERTYPE_IPV4: u16 = 0x0800;

pub const ETHERTYPE_IPV6: u16 = 0x86dd;

pub const DNS_PORT: u16 = 53;

pub const DHCP_SERVER_PORT: u16 = 67;

pub const DHCP_CLIENT_PORT: u16 = 68;

pub const HTTPS_PORT: u16 = 443;

/// The host's DNS proxy returns answers with a lifetime of zero.  A correlated answer is kept just
/// long enough for the resolver's immediate TLS connection, without turning it into a reusable
/// DNS cache.
pub const ZERO_TTL_DNS_BINDING_GRACE_SECS: u64 = 5;

#[derive(Debug, Clone, Copy, PartialEq, Eq, Structural)]
pub enum Transport {
    Tcp,
    Udp,
}

/// A conversation between the guest and a remote endpoint.
#[derive(Debug, Clone, Copy, PartialEq, Eq, Structural)]
pub struct FlowKey {
    pub guest_ip: IpAddr,
    pub guest_port: u16,
    pub remote_ip: IpAddr,
    pub remote_port: u16,
    pub transport: Transport,
}

/// A query on its way to a DNS server.
#[derive(Debug, Clone, Copy, PartialEq, Eq, Structural)]
pub struct DnsQueryKey {
    pub server: IpAddr,
    pub guest: IpAddr,
    pub guest_port: u16,
    pub id: u16,
}

/// A flow is allowed, or its first bytes are still being collected.
pub enum FlowView {
    Allowed { expires: int },
    PendingTls { initial_sequence: u32, bytes: Seq<u8>, expires: int },
}

impl FlowView {
    pub open spec fn expires(self) -> int {
        match self {
            FlowView::Allowed { expires } => expires,
            FlowView::PendingTls { expires, .. } => expires,
        }
    }

    /// The number of bytes that are held for the flow.
    pub open spec fn buffered(self) -> nat {
        match self {
            FlowView::Allowed { .. } => 0,
            FlowView::PendingTls { bytes, .. } => bytes.len(),
        }
    }
}

/// The name that a query asked for, until an answer comes.
pub struct QueryView {
    pub name: Seq<u8>,
    pub expires: int,
}

pub type Flows = Map<FlowKey, FlowView>;

pub type Queries = Map<DnsQueryKey, QueryView>;

/// Which names an address was the answer for, and until when.
pub type Bindings = Map<(IpAddr, Seq<u8>), int>;

#[verifier::ext_equal]
pub struct EngineView {
    pub flows: Flows,
    pub queries: Queries,
    pub bindings: Bindings,
}

/// The flows that are still alive at a point in time.
pub open spec fn live_flows(flows: Flows, now: int) -> Flows {
    Map::new(
        |key: FlowKey| flows.contains_key(key) && flows[key].expires() > now,
        |key: FlowKey| flows[key],
    )
}

pub open spec fn live_queries(queries: Queries, now: int) -> Queries {
    Map::new(
        |key: DnsQueryKey| queries.contains_key(key) && queries[key].expires > now,
        |key: DnsQueryKey| queries[key],
    )
}

pub open spec fn live_bindings(bindings: Bindings, now: int) -> Bindings {
    Map::new(
        |key: (IpAddr, Seq<u8>)| bindings.contains_key(key) && bindings[key] > now,
        |key: (IpAddr, Seq<u8>)| bindings[key],
    )
}

/// The bytes that are held for all flows together.
pub open spec fn tls_total(flows: Flows) -> nat
    decreases flows.dom().len(),
    when flows.dom().finite()
{
    if flows.dom().len() == 0 {
        0
    } else {
        let key = flows.dom().choose();
        flows[key].buffered() + tls_total(flows.remove(key))
    }
}

impl EngineView {
    pub open spec fn empty() -> EngineView {
        EngineView { flows: Map::empty(), queries: Map::empty(), bindings: Map::empty() }
    }

    /// What is left of the state at a point in time.
    pub open spec fn expired(self, now: int) -> EngineView {
        EngineView {
            flows: live_flows(self.flows, now),
            queries: live_queries(self.queries, now),
            bindings: live_bindings(self.bindings, now),
        }
    }

    pub open spec fn with_flow(self, key: FlowKey, flow: FlowView) -> EngineView {
        EngineView { flows: self.flows.insert(key, flow), ..self }
    }

    pub open spec fn without_flow(self, key: FlowKey) -> EngineView {
        EngineView { flows: self.flows.remove(key), ..self }
    }

    /// Whether an address was the answer for a name that the policy allows.
    pub open spec fn has_domain_binding(self, config: ConfigView, address: IpAddr) -> bool {
        exists|name: Seq<u8>| #[trigger]
            self.bindings.contains_key((address, name)) && config.domain_matches(name)
    }

    /// Whether an address was the answer for this name.
    pub open spec fn binding_matches(self, address: IpAddr, name: Seq<u8>) -> bool {
        self.bindings.contains_key((address, name))
    }

    /// What the engine promises of the size of its state.
    pub open spec fn bounded(self, limits: PolicyLimits) -> bool {
        &&& self.flows.dom().finite() && self.flows.dom().len() <= limits.max_flows
        &&& self.queries.dom().finite() && self.queries.dom().len() <= limits.max_pending_dns
        &&& self.bindings.dom().finite() && self.bindings.dom().len() <= limits.max_dns_bindings
        &&& forall|key: FlowKey| #[trigger]
            self.flows.contains_key(key) ==> self.flows[key].buffered()
                <= limits.max_tls_buffer_per_flow
        &&& tls_total(self.flows) <= limits.max_total_tls_bytes + limits.max_tls_buffer_per_flow
    }
}

/// A new state and the decision on the frame that led to it.
pub struct Step {
    pub state: EngineView,
    pub decision: PolicyDecision,
}

pub open spec fn deny(state: EngineView, reason: DenyReason) -> Step {
    Step { state, decision: PolicyDecision::Deny(reason) }
}

pub open spec fn allow(state: EngineView, reason: AllowReason) -> Step {
    Step { state, decision: PolicyDecision::Allow(reason) }
}

/// The end of a lifetime that begins now.
pub open spec fn until(now: int, ttl: int) -> int {
    crate::time::saturating_nanos(now, ttl)
}

/// The flow that a packet belongs to: its guest end and its remote end by the direction.
pub open spec fn flow_key_of(
    direction: FrameDirection,
    source: IpAddr,
    destination: IpAddr,
    source_port: u16,
    destination_port: u16,
    transport: Transport,
) -> FlowKey {
    match direction {
        FrameDirection::GuestToNetwork => FlowKey {
            guest_ip: source,
            guest_port: source_port,
            remote_ip: destination,
            remote_port: destination_port,
            transport,
        },
        FrameDirection::NetworkToGuest => FlowKey {
            guest_ip: destination,
            guest_port: destination_port,
            remote_ip: source,
            remote_port: source_port,
            transport,
        },
    }
}

/// Opens a flow for a reason, or refuses it where a new flow would exceed the limit.
pub open spec fn open_flow(
    config: ConfigView,
    state: EngineView,
    key: FlowKey,
    reason: AllowReason,
    now: int,
) -> Step {
    if !state.flows.contains_key(key) && state.flows.dom().len() >= config.limits.max_flows {
        deny(state, DenyReason::StateLimit)
    } else {
        allow(
            state.with_flow(
                key,
                FlowView::Allowed { expires: until(now, config.limits.flow_ttl@) },
            ),
            reason,
        )
    }
}

/// A frame towards the guest: let through for a flow that the guest, or a preview, has opened.
pub open spec fn reverse_step(
    config: ConfigView,
    state: EngineView,
    key: FlowKey,
    now: int,
) -> Step {
    if !state.flows.contains_key(key) {
        deny(state, DenyReason::NoReverseFlow)
    } else if state.flows[key] is Allowed {
        allow(
            state.with_flow(
                key,
                FlowView::Allowed { expires: until(now, config.limits.flow_ttl@) },
            ),
            AllowReason::ReverseFlow,
        )
    } else {
        allow(state, AllowReason::DomainHandshake)
    }
}

pub open spec fn arp_well_formed(payload: Seq<u8>) -> bool {
    &&& payload.len() >= 28
    &&& crate::bytes::be16(payload, 0) == 1
    &&& crate::bytes::be16(payload, 2) == ETHERTYPE_IPV4
    &&& payload[4] == 6
    &&& payload[5] == 4
}

/// ARP is answered for infrastructure alone: the guest may ask for it and answer it, and it may
/// answer the guest and ask for one of the guest's own addresses.
pub open spec fn arp_decision(
    config: ConfigView,
    direction: FrameDirection,
    payload: Seq<u8>,
) -> PolicyDecision {
    let operation = crate::bytes::be16(payload, 6);
    let sender = Ipv4Addr { bits: crate::bytes::be32(payload, 14) };
    let target = Ipv4Addr { bits: crate::bytes::be32(payload, 24) };
    let allowed = match direction {
        FrameDirection::GuestToNetwork => {
            ||| operation == 1 && config.arp_targets.contains(target)
            ||| operation == 2 && config.guest_ipv4_addresses.contains(sender)
                && config.arp_targets.contains(target)
        },
        FrameDirection::NetworkToGuest => {
            ||| operation == 2 && config.arp_targets.contains(sender)
            ||| operation == 1 && config.arp_targets.contains(sender)
                && config.guest_ipv4_addresses.contains(target)
        },
    };
    if !arp_well_formed(payload) {
        PolicyDecision::Deny(DenyReason::Malformed)
    } else if allowed {
        PolicyDecision::Allow(AllowReason::ArpInfrastructure)
    } else {
        PolicyDecision::Deny(DenyReason::Infrastructure)
    }
}

/// Whether a datagram is DHCP between the guest and the infrastructure.
pub open spec fn dhcp(
    config: ConfigView,
    direction: FrameDirection,
    source: IpAddr,
    destination: IpAddr,
    udp: UdpPacketView,
) -> bool {
    match (direction, source, destination) {
        (FrameDirection::GuestToNetwork, IpAddr::V4(from), IpAddr::V4(to)) => {
            &&& udp.source_port == DHCP_CLIENT_PORT
            &&& udp.destination_port == DHCP_SERVER_PORT
            &&& from.bits == 0 || from.is_private_spec()
            &&& to.bits == 0xffff_ffff || config.arp_targets.contains(to)
        },
        (FrameDirection::NetworkToGuest, IpAddr::V4(from), IpAddr::V4(to)) => {
            &&& udp.source_port == DHCP_SERVER_PORT
            &&& udp.destination_port == DHCP_CLIENT_PORT
            &&& config.arp_targets.contains(from)
            &&& to.bits == 0xffff_ffff || to.is_private_spec()
        },
        _ => false,
    }
}

/// A query to a trusted server: remembered until its answer comes, and under an allowlist refused
/// for any name that no rule stands for.
pub open spec fn dns_query_step(
    config: ConfigView,
    state: EngineView,
    guest: IpAddr,
    server: IpAddr,
    udp: UdpPacketView,
    now: int,
) -> Step {
    match crate::policy::dns::query_of(udp.payload) {
        None => deny(state, DenyReason::Malformed),
        Some((id, name)) => {
            let key = DnsQueryKey { server, guest, guest_port: udp.source_port, id };
            if config.mode == PolicyMode::Allowlist && !config.domain_matches(name) {
                deny(state, DenyReason::NotAllowlisted)
            } else if !state.queries.contains_key(key) && state.queries.dom().len()
                >= config.limits.max_pending_dns {
                deny(state, DenyReason::StateLimit)
            } else {
                allow(
                    EngineView {
                        queries: state.queries.insert(
                            key,
                            QueryView { name, expires: until(now, config.limits.dns_query_ttl@) },
                        ),
                        ..state
                    },
                    AllowReason::DnsInfrastructure,
                )
            }
        },
    }
}

/// The longest lifetime of a binding, in seconds.
pub open spec fn max_ttl_secs(config: ConfigView) -> int {
    let secs = config.limits.max_dns_ttl@ / (crate::time::NANOS_PER_SEC as int);
    if secs <= u32::MAX {
        secs
    } else {
        u32::MAX as int
    }
}

pub open spec fn effective_ttl(ttl: u32) -> int {
    if ttl == 0 {
        ZERO_TTL_DNS_BINDING_GRACE_SECS as int
    } else {
        ttl as int
    }
}

pub open spec fn min_int(left: int, right: int) -> int {
    if left <= right {
        left
    } else {
        right
    }
}

/// The lifetime of a record that is reached over a chain of aliases with the given lifetime.
pub open spec fn chained_ttl(path: int, ttl: u32, max: int) -> int {
    min_int(min_int(path, effective_ttl(ttl)), max)
}

/// One alias record read against the names that are reachable so far, each with the shortest
/// lifetime by which it was reached.
pub open spec fn follow_alias(reach: Map<Seq<u8>, u64>, record: RecordView, max: int) -> Map<
    Seq<u8>,
    u64,
> {
    match record {
        RecordView::Cname { owner, target, ttl } => {
            let lifetime = chained_ttl(reach[owner] as int, ttl, max);
            if !reach.contains_key(owner) || lifetime == 0 {
                reach
            } else if reach.contains_key(target) && reach[target] <= lifetime {
                reach
            } else {
                reach.insert(target, lifetime as u64)
            }
        },
        RecordView::Address { .. } => reach,
    }
}

/// The first `upto` records, read in order.
pub open spec fn follow_aliases(
    reach: Map<Seq<u8>, u64>,
    records: Seq<RecordView>,
    upto: nat,
    max: int,
) -> Map<Seq<u8>, u64>
    decreases upto,
{
    if upto == 0 {
        reach
    } else {
        follow_alias(
            follow_aliases(reach, records, (upto - 1) as nat, max),
            records[upto - 1],
            max,
        )
    }
}

/// Aliases can stand in any order, so all records are read as many times as there are records.
pub open spec fn reachable_after(
    reach: Map<Seq<u8>, u64>,
    records: Seq<RecordView>,
    passes: nat,
    max: int,
) -> Map<Seq<u8>, u64>
    decreases passes,
{
    if passes == 0 {
        reach
    } else {
        follow_aliases(
            reachable_after(reach, records, (passes - 1) as nat, max),
            records,
            records.len(),
            max,
        )
    }
}

/// The names that the answers reach from the question, and their lifetimes.
pub open spec fn reachable(question: Seq<u8>, records: Seq<RecordView>, max: int) -> Map<
    Seq<u8>,
    u64,
> {
    reachable_after(
        Map::<Seq<u8>, u64>::empty().insert(question, max as u64),
        records,
        records.len(),
        max,
    )
}

/// Binds an address to a name: a known binding is renewed, a new one is made where the limit
/// leaves room.
pub open spec fn bind(
    bindings: Bindings,
    address: IpAddr,
    name: Seq<u8>,
    expires: int,
    limits: PolicyLimits,
) -> Bindings {
    if !bindings.contains_key((address, name)) && bindings.dom().len() >= limits.max_dns_bindings {
        bindings
    } else {
        bindings.insert((address, name), expires)
    }
}

/// One address record read against the reachable names.
pub open spec fn bind_record(
    config: ConfigView,
    bindings: Bindings,
    question: Seq<u8>,
    record: RecordView,
    reach: Map<Seq<u8>, u64>,
    now: int,
) -> Bindings {
    match record {
        RecordView::Address { owner, address, ttl } => {
            let lifetime = chained_ttl(reach[owner] as int, ttl, max_ttl_secs(config));
            if !reach.contains_key(owner) || lifetime == 0 {
                bindings
            } else {
                bind(
                    bindings,
                    address,
                    question,
                    until(now, lifetime * crate::time::NANOS_PER_SEC),
                    config.limits,
                )
            }
        },
        RecordView::Cname { .. } => bindings,
    }
}

/// The first `upto` address records, read in order.
pub open spec fn bind_records(
    config: ConfigView,
    bindings: Bindings,
    question: Seq<u8>,
    records: Seq<RecordView>,
    upto: nat,
    reach: Map<Seq<u8>, u64>,
    now: int,
) -> Bindings
    decreases upto,
{
    if upto == 0 {
        bindings
    } else {
        bind_record(
            config,
            bind_records(config, bindings, question, records, (upto - 1) as nat, reach, now),
            question,
            records[upto - 1],
            reach,
            now,
        )
    }
}

/// What the answers to a question bind: the addresses of every name that they reach from it, all
/// under the name that was asked for.
pub open spec fn observed(
    config: ConfigView,
    bindings: Bindings,
    question: Seq<u8>,
    records: Seq<RecordView>,
    now: int,
) -> Bindings {
    bind_records(
        config,
        bindings,
        question,
        records,
        records.len(),
        reachable(question, records, max_ttl_secs(config)),
        now,
    )
}

/// A response of a trusted server: let through once, for a query that is waiting for it and asked
/// the same question.
pub open spec fn dns_response_step(
    config: ConfigView,
    state: EngineView,
    server: IpAddr,
    guest: IpAddr,
    udp: UdpPacketView,
    now: int,
) -> Step {
    let id = crate::bytes::be16(udp.payload, 0);
    let key = DnsQueryKey { server, guest, guest_port: udp.destination_port, id };
    if udp.payload.len() < 2 {
        deny(state, DenyReason::Malformed)
    } else if !state.queries.contains_key(key) {
        deny(state, DenyReason::NoReverseFlow)
    } else {
        let asked = state.queries[key].name;
        let answered = EngineView { queries: state.queries.remove(key), ..state };
        match crate::policy::dns::response_of(udp.payload) {
            None => deny(answered, DenyReason::Malformed),
            Some(response) => if response.question != asked {
                deny(answered, DenyReason::Infrastructure)
            } else if config.mode == PolicyMode::Allowlist {
                allow(
                    EngineView {
                        bindings: observed(
                            config,
                            answered.bindings,
                            asked,
                            response.answers,
                            now,
                        ),
                        ..answered
                    },
                    AllowReason::DnsInfrastructure,
                )
            } else {
                allow(answered, AllowReason::DnsInfrastructure)
            },
        }
    }
}

pub open spec fn udp_step(
    config: ConfigView,
    state: EngineView,
    direction: FrameDirection,
    source: IpAddr,
    destination: IpAddr,
    udp: UdpPacketView,
    now: int,
) -> Step {
    let outbound = direction == FrameDirection::GuestToNetwork;
    let key = flow_key_of(
        direction,
        source,
        destination,
        udp.source_port,
        udp.destination_port,
        Transport::Udp,
    );
    if dhcp(config, direction, source, destination, udp) {
        allow(state, AllowReason::DhcpInfrastructure)
    } else if outbound && udp.destination_port == DNS_PORT && config.dns_servers.contains(
        destination,
    ) {
        dns_query_step(config, state, source, destination, udp, now)
    } else if !outbound && udp.source_port == DNS_PORT && config.dns_servers.contains(source) {
        dns_response_step(config, state, source, destination, udp, now)
    } else if outbound && config.control_addresses.contains(destination) {
        deny(state, DenyReason::ControlEndpoint)
    } else if !outbound {
        reverse_step(config, state, key, now)
    } else if state.flows.contains_key(key) && state.flows[key] is Allowed {
        reverse_step(config, state, key, now)
    } else {
        match config.mode {
            PolicyMode::Disabled => deny(state, DenyReason::Disabled),
            PolicyMode::Unrestricted => open_flow(
                config,
                state,
                key,
                AllowReason::Unrestricted,
                now,
            ),
            PolicyMode::Allowlist => if config.cidr_matches(destination) {
                open_flow(config, state, key, AllowReason::Cidr, now)
            } else if state.has_domain_binding(config, destination) {
                deny(state, DenyReason::DomainRequiresTcpTls)
            } else {
                deny(state, DenyReason::NotAllowlisted)
            },
        }
    }
}

/// The sequence number of the first payload byte of a segment.
pub open spec fn payload_sequence(tcp: TcpPacketView) -> int {
    (tcp.sequence + (if tcp.syn {
        1int
    } else {
        0
    })) % 0x1_0000_0000
}

/// What the first bytes of a connection say once a segment has been added to those collected so
/// far: the bytes and their parse.  A segment may repeat what is there but not contradict it, and
/// may leave no gap.
pub open spec fn tls_progress(
    initial_sequence: u32,
    bytes: Seq<u8>,
    tcp: TcpPacketView,
    per_flow_limit: int,
    total_remaining: int,
) -> Result<(Seq<u8>, TlsParseView), DenyReason> {
    let offset = (payload_sequence(tcp) - initial_sequence) % 0x1_0000_0000;
    let repeated = min_int(bytes.len() - offset, tcp.payload.len() as int);
    if tcp.payload.len() == 0 {
        Ok((bytes, TlsParseView::NeedMore))
    } else if offset > bytes.len() {
        Err(DenyReason::OutOfOrder)
    } else if bytes.subrange(offset, offset + repeated) != tcp.payload.subrange(0, repeated) {
        Err(DenyReason::OutOfOrder)
    } else {
        let added = tcp.payload.subrange(repeated, tcp.payload.len() as int);
        if bytes.len() + added.len() > per_flow_limit || added.len() > total_remaining {
            Err(DenyReason::StateLimit)
        } else {
            match crate::policy::tls::tls_hello(bytes + added) {
                Ok(parse) => Ok((bytes + added, parse)),
                Err(reason) => Err(reason),
            }
        }
    }
}

/// The first bytes of a connection that are held once a segment was looked at, whatever came of
/// it: what the segment adds is held as soon as it fits, also where it cannot be read.
pub open spec fn tls_kept(
    initial_sequence: u32,
    bytes: Seq<u8>,
    tcp: TcpPacketView,
    per_flow_limit: int,
    total_remaining: int,
) -> Seq<u8> {
    let offset = (payload_sequence(tcp) - initial_sequence) % 0x1_0000_0000;
    let repeated = min_int(bytes.len() - offset, tcp.payload.len() as int);
    let added = tcp.payload.subrange(repeated, tcp.payload.len() as int);
    if tcp.payload.len() > 0 && offset <= bytes.len() && bytes.subrange(offset, offset + repeated)
        == tcp.payload.subrange(0, repeated) && bytes.len() + added.len() <= per_flow_limit
        && added.len() <= total_remaining {
        bytes + added
    } else {
        bytes
    }
}

/// How many more bytes may be held, next to those that the given flows hold.
pub open spec fn tls_room(config: ConfigView, flows: Flows) -> int {
    if tls_total(flows) <= config.limits.max_total_tls_bytes {
        config.limits.max_total_tls_bytes - tls_total(flows)
    } else {
        0
    }
}

/// The decision on a segment of a connection whose server name is not known yet, where `state`
/// does not hold that connection.
pub open spec fn tls_step(
    config: ConfigView,
    state: EngineView,
    key: FlowKey,
    initial_sequence: u32,
    bytes: Seq<u8>,
    tcp: TcpPacketView,
    now: int,
) -> Step {
    let progress = tls_progress(
        initial_sequence,
        bytes,
        tcp,
        config.limits.max_tls_buffer_per_flow as int,
        tls_room(config, state.flows),
    );
    if tcp.rst {
        allow(state, AllowReason::DomainHandshake)
    } else {
        match progress {
            Err(reason) => deny(state, reason),
            Ok((collected, TlsParseView::NeedMore)) => Step {
                state: state.with_flow(
                    key,
                    FlowView::PendingTls {
                        initial_sequence,
                        bytes: collected,
                        expires: until(now, config.limits.pending_tls_ttl@),
                    },
                ),
                decision: if tcp.payload.len() > 0 {
                    PolicyDecision::Hold(HoldReason::TlsClientHello)
                } else {
                    PolicyDecision::Allow(AllowReason::DomainHandshake)
                },
            },
            Ok((_, TlsParseView::ClientHello { sni, ech })) => if ech {
                deny(state, DenyReason::TlsEch)
            } else {
                match sni {
                    None => deny(state, DenyReason::TlsNoSni),
                    Some(name) => if config.domain_matches(name) && state.binding_matches(
                        key.remote_ip,
                        name,
                    ) {
                        allow(
                            state.with_flow(
                                key,
                                FlowView::Allowed {
                                    expires: until(now, config.limits.flow_ttl@),
                                },
                            ),
                            AllowReason::DomainSni,
                        )
                    } else {
                        deny(state, DenyReason::TlsSniMismatch)
                    },
                }
            },
        }
    }
}

/// A segment of a connection that is known.
pub open spec fn known_tcp_step(
    config: ConfigView,
    state: EngineView,
    key: FlowKey,
    tcp: TcpPacketView,
    now: int,
) -> Step {
    match state.flows[key] {
        FlowView::Allowed { .. } => if tcp.rst {
            allow(state.without_flow(key), AllowReason::ReverseFlow)
        } else {
            allow(
                state.with_flow(
                    key,
                    FlowView::Allowed { expires: until(now, config.limits.flow_ttl@) },
                ),
                AllowReason::ReverseFlow,
            )
        },
        FlowView::PendingTls { initial_sequence, bytes, .. } => tls_step(
            config,
            state.without_flow(key),
            key,
            initial_sequence,
            bytes,
            tcp,
            now,
        ),
    }
}

/// A segment of the guest that begins a connection.
pub open spec fn new_tcp_step(
    config: ConfigView,
    state: EngineView,
    key: FlowKey,
    tcp: TcpPacketView,
    now: int,
) -> Step {
    if config.control_addresses.contains(key.remote_ip) {
        deny(state, DenyReason::ControlEndpoint)
    } else if !tcp.syn {
        deny(state, DenyReason::NoReverseFlow)
    } else {
        match config.mode {
            PolicyMode::Disabled => deny(state, DenyReason::Disabled),
            PolicyMode::Unrestricted => open_flow(
                config,
                state,
                key,
                AllowReason::Unrestricted,
                now,
            ),
            PolicyMode::Allowlist => if config.cidr_matches(key.remote_ip) {
                open_flow(config, state, key, AllowReason::Cidr, now)
            } else if key.remote_port == HTTPS_PORT && state.has_domain_binding(
                config,
                key.remote_ip,
            ) {
                if state.flows.dom().len() >= config.limits.max_flows {
                    deny(state, DenyReason::StateLimit)
                } else {
                    tls_step(
                        config,
                        state,
                        key,
                        payload_sequence(tcp) as u32,
                        Seq::empty(),
                        tcp,
                        now,
                    )
                }
            } else {
                deny(state, DenyReason::NotAllowlisted)
            },
        }
    }
}

/// TCP DNS is not treated as trusted observation state: it may be allowed by an explicit rule but
/// cannot create domain bindings.
pub open spec fn tcp_step(
    config: ConfigView,
    state: EngineView,
    direction: FrameDirection,
    source: IpAddr,
    destination: IpAddr,
    tcp: TcpPacketView,
    now: int,
) -> Step {
    let key = flow_key_of(
        direction,
        source,
        destination,
        tcp.source_port,
        tcp.destination_port,
        Transport::Tcp,
    );
    match direction {
        FrameDirection::NetworkToGuest => if state.flows.contains_key(key) {
            reverse_step(config, state, key, now)
        } else if tcp.syn && !tcp.ack && config.published_tcp_ports.contains(
            tcp.destination_port,
        ) {
            open_flow(config, state, key, AllowReason::Preview, now)
        } else {
            deny(state, DenyReason::NoReverseFlow)
        },
        FrameDirection::GuestToNetwork => if state.flows.contains_key(key) {
            known_tcp_step(config, state, key, tcp, now)
        } else {
            new_tcp_step(config, state, key, tcp, now)
        },
    }
}

pub open spec fn ip_step(
    config: ConfigView,
    state: EngineView,
    direction: FrameDirection,
    packet: IpPacketView,
    now: int,
) -> Step {
    if packet.protocol == IPPROTO_UDP {
        match crate::policy::packet::udp_packet(packet.payload) {
            Some(udp) => udp_step(
                config,
                state,
                direction,
                packet.source,
                packet.destination,
                udp,
                now,
            ),
            None => deny(state, DenyReason::Malformed),
        }
    } else if packet.protocol == IPPROTO_TCP {
        match crate::policy::packet::tcp_packet(packet.payload) {
            Some(tcp) => tcp_step(
                config,
                state,
                direction,
                packet.source,
                packet.destination,
                tcp,
                now,
            ),
            None => deny(state, DenyReason::Malformed),
        }
    } else {
        deny(state, DenyReason::UnsupportedProtocol)
    }
}

/// The packet that an Ethernet payload of one of the two IP types carries.
pub open spec fn ip_packet(ether_type: u16, payload: Seq<u8>) -> Result<IpPacketView, DenyReason> {
    if ether_type == ETHERTYPE_IPV4 {
        crate::policy::packet::ipv4_packet(payload)
    } else {
        crate::policy::packet::ipv6_packet(payload)
    }
}

/// The frame's effect on a state in which nothing has expired.
pub open spec fn frame_step(
    config: ConfigView,
    state: EngineView,
    direction: FrameDirection,
    frame: Seq<u8>,
    now: int,
) -> Step {
    let ether_type = crate::bytes::be16(frame, 12);
    let payload = frame.subrange(ETHERNET_HEADER_LEN as int, frame.len() as int);
    if config.mode == PolicyMode::Disabled {
        deny(state, DenyReason::Disabled)
    } else if frame.len() < ETHERNET_HEADER_LEN {
        deny(state, DenyReason::Malformed)
    } else if ether_type == ETHERTYPE_ARP {
        Step { state, decision: arp_decision(config, direction, payload) }
    } else if ether_type == ETHERTYPE_IPV4 || ether_type == ETHERTYPE_IPV6 {
        match ip_packet(ether_type, payload) {
            Ok(packet) => ip_step(config, state, direction, packet, now),
            Err(reason) => deny(state, reason),
        }
    } else {
        deny(state, DenyReason::UnsupportedEtherType)
    }
}

/// What a frame does to the engine: whatever has expired is dropped, then the frame is decided.
pub open spec fn step(
    config: ConfigView,
    state: EngineView,
    direction: FrameDirection,
    frame: Seq<u8>,
    now: int,
) -> Step {
    frame_step(config, state.expired(now), direction, frame, now)
}

} // verus!
