//! The policy engine: one decision for each Ethernet frame.

use vstd::prelude::*;
use vstd::slice::*;

use crate::bytes::{append_bytes, copy_bytes, read_be16, read_be32, same_bytes};
use crate::net::{IpAddr, Ipv4Addr};
use crate::policy::config::{ConfigView, PolicyConfig};
use crate::policy::dns::{parse_dns_query, parse_dns_response, DnsRecord, RecordView};
use crate::policy::model::{
    DnsQueryKey, EngineView, FlowKey, FlowView, QueryView, Step, Transport, DHCP_CLIENT_PORT,
    DHCP_SERVER_PORT, DNS_PORT, ETHERNET_HEADER_LEN, ETHERTYPE_ARP, ETHERTYPE_IPV4, ETHERTYPE_IPV6,
    HTTPS_PORT, ZERO_TTL_DNS_BINDING_GRACE_SECS,
};
use crate::policy::packet::{
    parse_ipv4, parse_ipv6, parse_tcp, parse_udp, IpPacket, TcpPacket, UdpPacket,
    IPPROTO_TCP, IPPROTO_UDP,
};
use crate::policy::tls::{parse_tls_client_hello, TlsParse};
use crate::policy::{
    AllowReason, DenyReason, FrameDirection, HoldReason, PolicyDecision, PolicyMode,
};
use crate::table::{Expiring, Table, TableKey};
use crate::time::Duration;

verus! {

/// The first bytes of a connection, collected until its server name is known.
pub struct TlsFlow {
    pub initial_sequence: u32,
    pub bytes: Vec<u8>,
    pub expires: Duration,
}

pub enum FlowState {
    Allowed { expires: Duration },
    PendingTls(TlsFlow),
}

impl View for FlowState {
    type V = FlowView;

    open spec fn view(&self) -> FlowView {
        match *self {
            FlowState::Allowed { expires } => FlowView::Allowed { expires: expires@ },
            FlowState::PendingTls(flow) => FlowView::PendingTls {
                initial_sequence: flow.initial_sequence,
                bytes: flow.bytes@,
                expires: flow.expires@,
            },
        }
    }
}

impl Expiring for FlowState {
    open spec fn expiry(value: FlowView) -> int {
        value.expires()
    }

    fn expires(&self) -> (expires: Duration) {
        match self {
            FlowState::Allowed { expires } => *expires,
            FlowState::PendingTls(flow) => flow.expires,
        }
    }
}

pub struct PendingDns {
    pub name: Vec<u8>,
    pub expires: Duration,
}

impl View for PendingDns {
    type V = QueryView;

    open spec fn view(&self) -> QueryView {
        QueryView { name: self.name@, expires: self.expires@ }
    }
}

impl Expiring for PendingDns {
    open spec fn expiry(value: QueryView) -> int {
        value.expires
    }

    fn expires(&self) -> (expires: Duration) {
        self.expires
    }
}

/// An address and a name that it was the answer for.  Names are kept in lower case, so two of them
/// are the same where they are equal.
pub struct BindingKey {
    pub address: IpAddr,
    pub name: Vec<u8>,
}

impl View for BindingKey {
    type V = (IpAddr, Seq<u8>);

    open spec fn view(&self) -> (IpAddr, Seq<u8>) {
        (self.address, self.name@)
    }
}

impl TableKey for BindingKey {
    fn same(&self, other: &BindingKey) -> (same: bool) {
        self.address == other.address && same_bytes(self.name.as_slice(), other.name.as_slice())
    }
}

pub struct DnsBinding {
    pub expires: Duration,
}

impl View for DnsBinding {
    type V = int;

    open spec fn view(&self) -> int {
        self.expires@
    }
}

impl Expiring for DnsBinding {
    open spec fn expiry(value: int) -> int {
        value
    }

    fn expires(&self) -> (expires: Duration) {
        self.expires
    }
}

impl View for FlowKey {
    type V = FlowKey;

    open spec fn view(&self) -> FlowKey {
        *self
    }
}

impl TableKey for FlowKey {
    fn same(&self, other: &FlowKey) -> (same: bool) {
        *self == *other
    }
}

impl View for DnsQueryKey {
    type V = DnsQueryKey;

    open spec fn view(&self) -> DnsQueryKey {
        *self
    }
}

impl TableKey for DnsQueryKey {
    fn same(&self, other: &DnsQueryKey) -> (same: bool) {
        *self == *other
    }
}

impl TableKey for Vec<u8> {
    fn same(&self, other: &Vec<u8>) -> (same: bool) {
        same_bytes(self.as_slice(), other.as_slice())
    }
}

/// A policy together with the state of the flows, queries and bindings that it has seen.
pub struct PolicyEngine {
    config: PolicyConfig,
    flows: Table<FlowKey, FlowState>,
    pending_dns: Table<DnsQueryKey, PendingDns>,
    dns_bindings: Table<BindingKey, DnsBinding>,
}

impl View for PolicyEngine {
    type V = EngineView;

    closed spec fn view(&self) -> EngineView {
        EngineView {
            flows: self.flows@,
            queries: self.pending_dns@,
            bindings: self.dns_bindings@,
        }
    }
}

/// The flow that a packet belongs to.
pub fn flow_key(
    direction: FrameDirection,
    source: IpAddr,
    destination: IpAddr,
    source_port: u16,
    destination_port: u16,
    transport: Transport,
) -> (key: FlowKey)
    ensures
        key == crate::policy::model::flow_key_of(
            direction,
            source,
            destination,
            source_port,
            destination_port,
            transport,
        ),
{
    match direction {
        FrameDirection::GuestToNetwork => FlowKey {
            guest_ip: source,
            guest_port: source_port,
            remote_ip: destination,
            remote_port: destination_port,
            transport,
        },
        FrameDirection::NetworkToGuest => FlowKey {
            guest_ip: destination,
            guest_port: destination_port,
            remote_ip: source,
            remote_port: source_port,
            transport,
        },
    }
}

/// The lifetime that an answer is given, in seconds.
pub fn effective_dns_ttl(ttl: u32) -> (secs: u64)
    ensures
        secs == crate::policy::model::effective_ttl(ttl),
{
    if ttl == 0 {
        ZERO_TTL_DNS_BINDING_GRACE_SECS
    } else {
        ttl as u64
    }
}

fn chained(path: u64, ttl: u32, max: u64) -> (secs: u64)
    ensures
        secs == crate::policy::model::chained_ttl(path as int, ttl, max as int),
{
    let own: u64 = effective_dns_ttl(ttl);
    let shorter: u64 = if path <= own {
        path
    } else {
        own
    };
    if shorter <= max {
        shorter
    } else {
        max
    }
}

/// The sequence number of the first payload byte of a segment.
fn payload_sequence(tcp: &TcpPacket<'_>) -> (sequence: u32)
    ensures
        sequence == crate::policy::model::payload_sequence(tcp@),
{
    if tcp.syn {
        tcp.sequence.wrapping_add(1)
    } else {
        tcp.sequence
    }
}

/// How far behind the first byte of a connection a segment's payload begins.
fn segment_offset(tcp: &TcpPacket<'_>, initial_sequence: u32) -> (offset: u32)
    ensures
        offset == (crate::policy::model::payload_sequence(tcp@) - initial_sequence)
            % 0x1_0000_0000,
{
    payload_sequence(tcp).wrapping_sub(initial_sequence)
}

/// Adds a segment to the first bytes of a connection and reads them again.
pub fn append_tls_segment(
    flow: &mut TlsFlow,
    tcp: &TcpPacket<'_>,
    per_flow_limit: usize,
    total_remaining: usize,
) -> (progress: Result<TlsParse, DenyReason>)
    ensures
        final(flow).initial_sequence == old(flow).initial_sequence,
        final(flow).expires == old(flow).expires,
        final(flow).bytes@ == crate::policy::model::tls_kept(
            old(flow).initial_sequence,
            old(flow).bytes@,
            tcp@,
            per_flow_limit as int,
            total_remaining as int,
        ),
        match (
            progress,
            crate::policy::model::tls_progress(
                old(flow).initial_sequence,
                old(flow).bytes@,
                tcp@,
                per_flow_limit as int,
                total_remaining as int,
            ),
        ) {
            (Ok(parse), Ok((bytes, expected))) => parse@ == expected && final(flow).bytes@ == bytes,
            (Err(reason), Err(expected)) => reason == expected,
            _ => false,
        },
{
    if tcp.payload.len() == 0 {
        return Ok(TlsParse::NeedMore);
    }
    let offset: usize = segment_offset(tcp, flow.initial_sequence) as usize;
    if offset > flow.bytes.len() {
        return Err(DenyReason::OutOfOrder);
    }
    let overlap: usize = flow.bytes.len() - offset;
    let checked: usize = if overlap <= tcp.payload.len() {
        overlap
    } else {
        tcp.payload.len()
    };
    if !same_bytes(
        slice_subrange(flow.bytes.as_slice(), offset, offset + checked),
        slice_subrange(tcp.payload, 0, checked),
    ) {
        return Err(DenyReason::OutOfOrder);
    }
    let new_bytes: &[u8] = slice_subrange(tcp.payload, checked, tcp.payload.len());
    if flow.bytes.len() > per_flow_limit || new_bytes.len() > per_flow_limit - flow.bytes.len()
        || new_bytes.len() > total_remaining {
        return Err(DenyReason::StateLimit);
    }
    append_bytes(&mut flow.bytes, new_bytes);
    parse_tls_client_hello(flow.bytes.as_slice())
}

proof fn lemma_pass_without_change(
    reach: Map<Seq<u8>, u64>,
    records: Seq<RecordView>,
    done: nat,
    passes: nat,
    max: int,
)
    requires
        done <= passes,
        crate::policy::model::follow_aliases(
            crate::policy::model::reachable_after(reach, records, done, max),
            records,
            records.len(),
            max,
        ) == crate::policy::model::reachable_after(reach, records, done, max),
    ensures
        crate::policy::model::reachable_after(reach, records, passes, max)
            == crate::policy::model::reachable_after(reach, records, done, max),
    decreases passes,
{
    if done < passes {
        lemma_pass_without_change(reach, records, done, (passes - 1) as nat, max);
    }
}

/// The names that the answers reach from the question, with their lifetimes in seconds.
fn reachable_names(question: &Vec<u8>, answers: &Vec<DnsRecord>, max: u64) -> (reach: Table<
    Vec<u8>,
    u64,
>)
    ensures
        reach.wf(),
        reach@ == crate::policy::model::reachable(
            question@,
            crate::policy::dns::record_views(answers@),
            max as int,
        ),
{
    let ghost records = crate::policy::dns::record_views(answers@);
    let mut reach: Table<Vec<u8>, u64> = Table::new();
    reach.insert(copy_bytes(question.as_slice()), max);
    let ghost first = reach@;
    let mut pass: usize = 0;
    let mut changed = true;
    while pass < answers.len() && changed
        invariant
            pass <= answers@.len(),
            reach.wf(),
            records == crate::policy::dns::record_views(answers@),
            changed ==> reach@ == crate::policy::model::reachable_after(
                first,
                records,
                pass as nat,
                max as int,
            ),
            !changed ==> reach@ == crate::policy::model::reachable_after(
                first,
                records,
                records.len(),
                max as int,
            ),
        decreases answers@.len() - pass,
    {
        let ghost start = reach@;
        changed = false;
        let mut i: usize = 0;
        while i < answers.len()
            invariant
                i <= answers@.len(),
                reach.wf(),
                records == crate::policy::dns::record_views(answers@),
                reach@ == crate::policy::model::follow_aliases(
                    start,
                    records,
                    i as nat,
                    max as int,
                ),
                !changed ==> reach@ == start,
            decreases answers@.len() - i,
        {
            assert(records[i as int] == answers@[i as int]@);
            match &answers[i] {
                DnsRecord::Cname { owner, target, ttl } => {
                    let parent: Option<u64> = match reach.get(owner) {
                        Some(lifetime) => Some(*lifetime),
                        None => None,
                    };
                    match parent {
                        Some(path) => {
                            let lifetime: u64 = chained(path, *ttl, max);
                            if lifetime != 0 {
                                let known: bool = match reach.get(target) {
                                    Some(existing) => *existing <= lifetime,
                                    None => false,
                                };
                                if !known {
                                    reach.insert(copy_bytes(target.as_slice()), lifetime);
                                    changed = true;
                                }
                            }
                        },
                        None => {},
                    }
                },
                DnsRecord::Address { .. } => {},
            }
            i += 1;
        }
        proof {
            if !changed {
                lemma_pass_without_change(
                    first,
                    records,
                    pass as nat,
                    records.len(),
                    max as int,
                );
            }
        }
        pass += 1;
    }
    reach
}

impl PolicyEngine {
    /// The policy that the engine applies.
    pub closed spec fn policy(self) -> ConfigView {
        self.config@
    }

    spec fn tables_wf(self) -> bool {
        &&& self.config.wf()
        &&& self.flows.wf()
        &&& self.pending_dns.wf()
        &&& self.dns_bindings.wf()
    }

    /// The state is within the policy's bounds, and no key stands twice in it.
    pub closed spec fn wf(self) -> bool {
        self.tables_wf() && self@.bounded(self.policy().limits)
    }

    /// After any frames, an engine holds no more than its limits allow.
    pub proof fn law_engine_keeps_to_its_bounds(self)
        requires
            self.wf(),
        ensures
            self@.bounded(self.policy().limits),
            self.policy().limits.valid(),
    {
        self.config.lemma_limits();
    }

    spec fn step_is(before: PolicyEngine, after: PolicyEngine, step: Step, decision: PolicyDecision) -> bool {
        &&& after.tables_wf()
        &&& after.config@ == before.config@
        &&& after@ == step.state
        &&& decision == step.decision
    }

    /// An engine that has seen nothing yet.
    pub fn new(config: PolicyConfig) -> (engine: PolicyEngine)
        requires
            config.wf(),
        ensures
            engine.wf(),
            engine.policy() == config@,
            engine@ == EngineView::empty(),
    {
        let engine = PolicyEngine {
            config,
            flows: Table::new(),
            pending_dns: Table::new(),
            dns_bindings: Table::new(),
        };
        proof {
            crate::policy::laws::lemma_total_empty();
            assert(engine@ =~= EngineView::empty());
        }
        engine
    }

    /// Decides a frame.
    pub fn evaluate_ethernet(
        &mut self,
        direction: FrameDirection,
        frame: &[u8],
        now: Duration,
    ) -> (decision: PolicyDecision)
        requires
            old(self).wf(),
        ensures
            final(self).wf(),
            final(self).policy() == old(self).policy(),
            final(self)@ == crate::policy::model::step(
                old(self).policy(),
                old(self)@,
                direction,
                frame@,
                now@,
            ).state,
            decision == crate::policy::model::step(
                old(self).policy(),
                old(self)@,
                direction,
                frame@,
                now@,
            ).decision,
    {
        proof {
            crate::policy::laws::law_state_stays_bounded(
                self.policy(),
                self@,
                direction,
                frame@,
                now@,
            );
            crate::policy::laws::law_expiry_keeps_bounds(self@, self.policy().limits, now@);
        }
        self.expire(now);
        if self.config.mode() == PolicyMode::Disabled {
            return PolicyDecision::Deny(DenyReason::Disabled);
        }
        if frame.len() < ETHERNET_HEADER_LEN {
            return PolicyDecision::Deny(DenyReason::Malformed);
        }
        let ether_type: u16 = read_be16(frame, 12);
        let payload: &[u8] = slice_subrange(frame, ETHERNET_HEADER_LEN, frame.len());
        if ether_type == ETHERTYPE_ARP {
            return self.evaluate_arp(direction, payload);
        }
        if ether_type != ETHERTYPE_IPV4 && ether_type != ETHERTYPE_IPV6 {
            return PolicyDecision::Deny(DenyReason::UnsupportedEtherType);
        }
        let packet = if ether_type == ETHERTYPE_IPV4 {
            parse_ipv4(payload)
        } else {
            parse_ipv6(payload)
        };
        match packet {
            Ok(packet) => self.evaluate_ip(direction, packet, now),
            Err(reason) => PolicyDecision::Deny(reason),
        }
    }

    /// The number of flows that are known.
    pub fn flow_count(&self) -> (count: usize)
        requires
            self.wf(),
        ensures
            count == self@.flows.dom().len(),
    {
        self.flows.len()
    }

    /// The number of names that addresses are bound to.
    pub fn dns_binding_count(&self) -> (count: usize)
        requires
            self.wf(),
        ensures
            count == self@.bindings.dom().len(),
    {
        self.dns_bindings.len()
    }

    fn expire(&mut self, now: Duration)
        requires
            old(self).tables_wf(),
        ensures
            final(self).tables_wf(),
            final(self).config == old(self).config,
            final(self)@ == old(self)@.expired(now@),
    {
        let ghost before = self@;
        self.pending_dns.expire(now);
        self.dns_bindings.expire(now);
        self.flows.expire(now);
        proof {
            assert(self@.flows =~= crate::policy::model::live_flows(before.flows, now@));
            assert(self@.queries =~= crate::policy::model::live_queries(before.queries, now@));
            assert(self@.bindings =~= crate::policy::model::live_bindings(before.bindings, now@));
        }
    }

    fn evaluate_arp(&self, direction: FrameDirection, payload: &[u8]) -> (decision: PolicyDecision)
        ensures
            decision == crate::policy::model::arp_decision(self.policy(), direction, payload@),
    {
        if payload.len() < 28 || read_be16(payload, 0) != 1 || read_be16(payload, 2)
            != ETHERTYPE_IPV4 || payload[4] != 6 || payload[5] != 4 {
            return PolicyDecision::Deny(DenyReason::Malformed);
        }
        let operation: u16 = read_be16(payload, 6);
        let sender = Ipv4Addr { bits: read_be32(payload, 14) };
        let target = Ipv4Addr { bits: read_be32(payload, 24) };
        let allowed: bool = match direction {
            FrameDirection::GuestToNetwork => {
                (operation == 1 && self.config.is_arp_target(&target)) || (operation == 2
                    && self.config.is_guest_address(&sender) && self.config.is_arp_target(&target))
            },
            FrameDirection::NetworkToGuest => {
                (operation == 2 && self.config.is_arp_target(&sender)) || (operation == 1
                    && self.config.is_arp_target(&sender) && self.config.is_guest_address(&target))
            },
        };
        if allowed {
            PolicyDecision::Allow(AllowReason::ArpInfrastructure)
        } else {
            PolicyDecision::Deny(DenyReason::Infrastructure)
        }
    }

    fn evaluate_ip(
        &mut self,
        direction: FrameDirection,
        packet: IpPacket<'_>,
        now: Duration,
    ) -> (decision: PolicyDecision)
        requires
            old(self).wf(),
        ensures
            Self::step_is(
                *old(self),
                *final(self),
                crate::policy::model::ip_step(
                    old(self).policy(),
                    old(self)@,
                    direction,
                    packet@,
                    now@,
                ),
                decision,
            ),
    {
        if packet.protocol == IPPROTO_UDP {
            match parse_udp(packet.payload) {
                Ok(udp) => self.evaluate_udp(
                    direction,
                    packet.source,
                    packet.destination,
                    udp,
                    now,
                ),
                Err(reason) => PolicyDecision::Deny(reason),
            }
        } else if packet.protocol == IPPROTO_TCP {
            match parse_tcp(packet.payload) {
                Ok(tcp) => self.evaluate_tcp(
                    direction,
                    packet.source,
                    packet.destination,
                    tcp,
                    now,
                ),
                Err(reason) => PolicyDecision::Deny(reason),
            }
        } else {
            PolicyDecision::Deny(DenyReason::UnsupportedProtocol)
        }
    }

    fn evaluate_udp(
        &mut self,
        direction: FrameDirection,
        source: IpAddr,
        destination: IpAddr,
        udp: UdpPacket<'_>,
        now: Duration,
    ) -> (decision: PolicyDecision)
        requires
            old(self).wf(),
        ensures
            Self::step_is(
                *old(self),
                *final(self),
                crate::policy::model::udp_step(
                    old(self).policy(),
                    old(self)@,
                    direction,
                    source,
                    destination,
                    udp@,
                    now@,
                ),
                decision,
            ),
    {
        let outbound: bool = direction == FrameDirection::GuestToNetwork;
        if self.is_dhcp(direction, source, destination, &udp) {
            return PolicyDecision::Allow(AllowReason::DhcpInfrastructure);
        }
        if outbound && udp.destination_port == DNS_PORT && self.config.is_dns_server(&destination) {
            return self.start_dns_query(source, destination, &udp, now);
        }
        if !outbound && udp.source_port == DNS_PORT && self.config.is_dns_server(&source) {
            return self.finish_dns_response(source, destination, &udp, now);
        }
        if outbound && self.config.is_control_address(&destination) {
            return PolicyDecision::Deny(DenyReason::ControlEndpoint);
        }
        let key = flow_key(
            direction,
            source,
            destination,
            udp.source_port,
            udp.destination_port,
            Transport::Udp,
        );
        if !outbound {
            return self.allow_reverse(&key, now);
        }
        let known: bool = match self.flows.get(&key) {
            Some(FlowState::Allowed { .. }) => true,
            _ => false,
        };
        if known {
            return self.allow_reverse(&key, now);
        }
        match self.config.mode() {
            PolicyMode::Disabled => PolicyDecision::Deny(DenyReason::Disabled),
            PolicyMode::Unrestricted => self.insert_allowed_flow(
                key,
                AllowReason::Unrestricted,
                now,
            ),
            PolicyMode::Allowlist => {
                if self.config.cidr_matches(destination) {
                    self.insert_allowed_flow(key, AllowReason::Cidr, now)
                } else if self.has_domain_binding(destination) {
                    PolicyDecision::Deny(DenyReason::DomainRequiresTcpTls)
                } else {
                    PolicyDecision::Deny(DenyReason::NotAllowlisted)
                }
            },
        }
    }

    fn evaluate_tcp(
        &mut self,
        direction: FrameDirection,
        source: IpAddr,
        destination: IpAddr,
        tcp: TcpPacket<'_>,
        now: Duration,
    ) -> (decision: PolicyDecision)
        requires
            old(self).wf(),
        ensures
            Self::step_is(
                *old(self),
                *final(self),
                crate::policy::model::tcp_step(
                    old(self).policy(),
                    old(self)@,
                    direction,
                    source,
                    destination,
                    tcp@,
                    now@,
                ),
                decision,
            ),
    {
        let key = flow_key(
            direction,
            source,
            destination,
            tcp.source_port,
            tcp.destination_port,
            Transport::Tcp,
        );
        if direction == FrameDirection::NetworkToGuest {
            if self.flows.contains(&key) {
                return self.allow_reverse(&key, now);
            }
            if tcp.syn && !tcp.ack && self.config.is_published_port(tcp.destination_port) {
                return self.insert_allowed_flow(key, AllowReason::Preview, now);
            }
            return PolicyDecision::Deny(DenyReason::NoReverseFlow);
        }
        let ghost state = self@;
        proof {
            if state.flows.contains_key(key) {
                crate::policy::laws::lemma_removal_keeps_bounds(state, self.policy().limits, key);
            }
        }
        if let Some(flow) = self.flows.remove(&key) {
            assert(self@ =~= state.without_flow(key));
            assert(self@.with_flow(key, flow@) =~= state);
            return self.evaluate_existing_tcp(key, flow, &tcp, now);
        }
        assert(self@.flows =~= state.flows);
        if self.config.is_control_address(&destination) {
            return PolicyDecision::Deny(DenyReason::ControlEndpoint);
        }
        if !tcp.syn {
            return PolicyDecision::Deny(DenyReason::NoReverseFlow);
        }
        match self.config.mode() {
            PolicyMode::Disabled => PolicyDecision::Deny(DenyReason::Disabled),
            PolicyMode::Unrestricted => self.insert_allowed_flow(
                key,
                AllowReason::Unrestricted,
                now,
            ),
            PolicyMode::Allowlist => {
                if self.config.cidr_matches(destination) {
                    return self.insert_allowed_flow(key, AllowReason::Cidr, now);
                }
                if tcp.destination_port != HTTPS_PORT || !self.has_domain_binding(destination) {
                    return PolicyDecision::Deny(DenyReason::NotAllowlisted);
                }
                if self.flows.len() >= self.config.limits().max_flows {
                    return PolicyDecision::Deny(DenyReason::StateLimit);
                }
                let initial_sequence: u32 = payload_sequence(&tcp);
                let mut flow = TlsFlow {
                    initial_sequence,
                    bytes: Vec::new(),
                    expires: now.saturating_add(self.config.limits().pending_tls_ttl),
                };
                assert(flow.bytes@ =~= Seq::empty());
                let remaining: usize = self.tls_room();
                let progress = append_tls_segment(
                    &mut flow,
                    &tcp,
                    self.config.limits().max_tls_buffer_per_flow,
                    remaining,
                );
                self.finish_tls_progress(key, flow, Ghost(Seq::empty()), progress, &tcp, now)
            },
        }
    }

    /// Goes on with a connection whose entry has been taken out of the table.
    fn evaluate_existing_tcp(
        &mut self,
        key: FlowKey,
        flow: FlowState,
        tcp: &TcpPacket<'_>,
        now: Duration,
    ) -> (decision: PolicyDecision)
        requires
            old(self).wf(),
            !old(self)@.flows.contains_key(key),
        ensures
            Self::step_is(
                *old(self),
                *final(self),
                crate::policy::model::known_tcp_step(
                    old(self).policy(),
                    old(self)@.with_flow(key, flow@),
                    key,
                    tcp@,
                    now@,
                ),
                decision,
            ),
    {
        let ghost state = self@;
        proof {
            assert(state.with_flow(key, flow@).without_flow(key) =~= state);
        }
        match flow {
            FlowState::Allowed { .. } => {
                if !tcp.rst {
                    let expires = now.saturating_add(self.config.limits().flow_ttl);
                    self.flows.insert(key, FlowState::Allowed { expires });
                    assert(self@.flows =~= state.flows.insert(key, flow@).insert(
                        key,
                        FlowView::Allowed { expires: expires@ },
                    ));
                }
                PolicyDecision::Allow(AllowReason::ReverseFlow)
            },
            FlowState::PendingTls(flow) => {
                let mut flow = flow;
                let ghost bytes = flow.bytes@;
                let remaining: usize = self.tls_room();
                let progress = append_tls_segment(
                    &mut flow,
                    tcp,
                    self.config.limits().max_tls_buffer_per_flow,
                    remaining,
                );
                self.finish_tls_progress(key, flow, Ghost(bytes), progress, tcp, now)
            },
        }
    }

    /// Decides a segment by what the first bytes of its connection say; `before` are the bytes
    /// that were there before the segment.
    fn finish_tls_progress(
        &mut self,
        key: FlowKey,
        flow: TlsFlow,
        before: Ghost<Seq<u8>>,
        progress: Result<TlsParse, DenyReason>,
        tcp: &TcpPacket<'_>,
        now: Duration,
    ) -> (decision: PolicyDecision)
        requires
            old(self).wf(),
            match (
                progress,
                crate::policy::model::tls_progress(
                    flow.initial_sequence,
                    before@,
                    tcp@,
                    old(self).policy().limits.max_tls_buffer_per_flow as int,
                    crate::policy::model::tls_room(old(self).policy(), old(self)@.flows),
                ),
            ) {
                (Ok(parse), Ok((bytes, expected))) => parse@ == expected && flow.bytes@ == bytes,
                (Err(reason), Err(expected)) => reason == expected,
                _ => false,
            },
        ensures
            Self::step_is(
                *old(self),
                *final(self),
                crate::policy::model::tls_step(
                    old(self).policy(),
                    old(self)@,
                    key,
                    flow.initial_sequence,
                    before@,
                    tcp@,
                    now@,
                ),
                decision,
            ),
    {
        if tcp.rst {
            return PolicyDecision::Allow(AllowReason::DomainHandshake);
        }
        match progress {
            Ok(TlsParse::NeedMore) => {
                let expires = now.saturating_add(self.config.limits().pending_tls_ttl);
                let pending = TlsFlow {
                    initial_sequence: flow.initial_sequence,
                    bytes: flow.bytes,
                    expires,
                };
                self.flows.insert(key, FlowState::PendingTls(pending));
                if tcp.payload.len() > 0 {
                    PolicyDecision::Hold(HoldReason::TlsClientHello)
                } else {
                    PolicyDecision::Allow(AllowReason::DomainHandshake)
                }
            },
            Ok(TlsParse::ClientHello { sni, ech }) => {
                if ech {
                    return PolicyDecision::Deny(DenyReason::TlsEch);
                }
                match sni {
                    None => PolicyDecision::Deny(DenyReason::TlsNoSni),
                    Some(name) => {
                        if !self.config.domain_matches(name.as_slice()) {
                            return PolicyDecision::Deny(DenyReason::TlsSniMismatch);
                        }
                        let binding = BindingKey { address: key.remote_ip, name };
                        if !self.dns_bindings.contains(&binding) {
                            return PolicyDecision::Deny(DenyReason::TlsSniMismatch);
                        }
                        let expires = now.saturating_add(self.config.limits().flow_ttl);
                        self.flows.insert(key, FlowState::Allowed { expires });
                        PolicyDecision::Allow(AllowReason::DomainSni)
                    },
                }
            },
            Err(reason) => PolicyDecision::Deny(reason),
        }
    }

    /// Opens a flow for a reason, where the limit leaves room for it.
    fn insert_allowed_flow(
        &mut self,
        key: FlowKey,
        reason: AllowReason,
        now: Duration,
    ) -> (decision: PolicyDecision)
        requires
            old(self).tables_wf(),
        ensures
            Self::step_is(
                *old(self),
                *final(self),
                crate::policy::model::open_flow(
                    old(self).policy(),
                    old(self)@,
                    key,
                    reason,
                    now@,
                ),
                decision,
            ),
    {
        if !self.flows.contains(&key) && self.flows.len() >= self.config.limits().max_flows {
            return PolicyDecision::Deny(DenyReason::StateLimit);
        }
        let expires = now.saturating_add(self.config.limits().flow_ttl);
        self.flows.insert(key, FlowState::Allowed { expires });
        PolicyDecision::Allow(reason)
    }

    fn allow_reverse(&mut self, key: &FlowKey, now: Duration) -> (decision: PolicyDecision)
        requires
            old(self).tables_wf(),
        ensures
            Self::step_is(
                *old(self),
                *final(self),
                crate::policy::model::reverse_step(old(self).policy(), old(self)@, *key, now@),
                decision,
            ),
    {
        let allowed: bool = match self.flows.get(key) {
            None => {
                return PolicyDecision::Deny(DenyReason::NoReverseFlow);
            },
            Some(FlowState::Allowed { .. }) => true,
            Some(FlowState::PendingTls(_)) => false,
        };
        if allowed {
            let expires = now.saturating_add(self.config.limits().flow_ttl);
            self.flows.insert(*key, FlowState::Allowed { expires });
            PolicyDecision::Allow(AllowReason::ReverseFlow)
        } else {
            PolicyDecision::Allow(AllowReason::DomainHandshake)
        }
    }

    /// How many more bytes may be held for connections whose server name is not known yet.
    fn tls_room(&self) -> (room: usize)
        requires
            self.wf(),
        ensures
            room == crate::policy::model::tls_room(self.policy(), self@.flows),
    {
        let limit: usize = self.config.limits().max_total_tls_bytes;
        let total: usize = self.total_tls_bytes();
        if total <= limit {
            limit - total
        } else {
            0
        }
    }

    fn total_tls_bytes(&self) -> (total: usize)
        requires
            self.wf(),
        ensures
            total == crate::policy::model::tls_total(self@.flows),
    {
        let ghost limits = self.policy().limits;
        let ghost entries = self.flows.entries@;
        proof {
            self.config.lemma_limits();
            crate::table::lemma_len(entries);
            crate::table::lemma_entries(entries);
        }
        let mut total: usize = 0;
        let mut i: usize = 0;
        proof {
            crate::policy::laws::lemma_total_empty();
            assert(crate::table::entries_map(entries.subrange(0, 0)) =~= Map::empty()) by {
                assert forall|key: FlowKey| !crate::table::has_key(
                    entries.subrange(0, 0),
                    key,
                ) by {}
            }
        }
        while i < self.flows.entries.len()
            invariant
                i <= entries.len(),
                entries == self.flows.entries@,
                crate::table::keys_distinct(entries),
                entries.len() <= crate::policy::config::MAX_FLOWS_HARD,
                forall|j: int|
                    0 <= j < entries.len() ==> (#[trigger] entries[j]).1@.buffered() <= 0x1_0000,
                total == crate::policy::model::tls_total(
                    crate::table::entries_map(entries.subrange(0, i as int)),
                ),
                total <= i * 0x1_0000,
            decreases entries.len() - i,
        {
            let held: usize = match &self.flows.entries[i].1 {
                FlowState::PendingTls(flow) => flow.bytes.len(),
                FlowState::Allowed { .. } => 0,
            };
            assert(held == entries[i as int].1@.buffered());
            proof {
                lemma_total_prefix(entries, i as int);
            }
            total = total + held;
            i += 1;
        }
        assert(entries.subrange(0, i as int) =~= entries);
        total
    }

    /// Whether an address was the answer for a name that the policy allows.
    fn has_domain_binding(&self, address: IpAddr) -> (bound: bool)
        requires
            self.tables_wf(),
        ensures
            bound == self@.has_domain_binding(self.policy(), address),
    {
        let ghost entries = self.dns_bindings.entries@;
        proof {
            crate::table::lemma_entries(entries);
        }
        let mut i: usize = 0;
        while i < self.dns_bindings.entries.len()
            invariant
                i <= entries.len(),
                entries == self.dns_bindings.entries@,
                crate::table::keys_distinct(entries),
                forall|j: int|
                    0 <= j < i ==> !((#[trigger] entries[j]).0.address == address
                        && self.policy().domain_matches(entries[j].0.name@)),
            decreases entries.len() - i,
        {
            let key = &self.dns_bindings.entries[i].0;
            if key.address == address && self.config.domain_matches(key.name.as_slice()) {
                proof {
                    crate::table::lemma_entry(entries, i as int);
                    assert(self@.bindings.contains_key((address, key.name@)));
                }
                return true;
            }
            i += 1;
        }
        proof {
            if self@.has_domain_binding(self.policy(), address) {
                let name = choose|name: Seq<u8>| #[trigger]
                    self@.bindings.contains_key((address, name)) && self.policy().domain_matches(
                        name,
                    );
                assert(crate::table::has_key(entries, (address, name)));
                let j = choose|j: int|
                    0 <= j < entries.len() && #[trigger] entries[j].0@ == (address, name);
                assert(entries[j].0.address == address);
            }
        }
        false
    }

    fn is_dhcp(
        &self,
        direction: FrameDirection,
        source: IpAddr,
        destination: IpAddr,
        udp: &UdpPacket<'_>,
    ) -> (is_dhcp: bool)
        ensures
            is_dhcp == crate::policy::model::dhcp(
                self.policy(),
                direction,
                source,
                destination,
                udp@,
            ),
    {
        match (direction, source, destination) {
            (FrameDirection::GuestToNetwork, IpAddr::V4(from), IpAddr::V4(to)) => {
                udp.source_port == DHCP_CLIENT_PORT && udp.destination_port == DHCP_SERVER_PORT && (
                from.bits == 0 || from.is_private()) && (to.bits == 0xffff_ffff
                    || self.config.is_arp_target(&to))
            },
            (FrameDirection::NetworkToGuest, IpAddr::V4(from), IpAddr::V4(to)) => {
                udp.source_port == DHCP_SERVER_PORT && udp.destination_port == DHCP_CLIENT_PORT
                    && self.config.is_arp_target(&from) && (to.bits == 0xffff_ffff
                    || to.is_private())
            },
            _ => false,
        }
    }

    fn start_dns_query(
        &mut self,
        guest: IpAddr,
        server: IpAddr,
        udp: &UdpPacket<'_>,
        now: Duration,
    ) -> (decision: PolicyDecision)
        requires
            old(self).tables_wf(),
        ensures
            Self::step_is(
                *old(self),
                *final(self),
                crate::policy::model::dns_query_step(
                    old(self).policy(),
                    old(self)@,
                    guest,
                    server,
                    udp@,
                    now@,
                ),
                decision,
            ),
    {
        let query = match parse_dns_query(udp.payload) {
            Some(query) => query,
            None => {
                return PolicyDecision::Deny(DenyReason::Malformed);
            },
        };
        if self.config.mode() == PolicyMode::Allowlist && !self.config.domain_matches(
            query.name.as_slice(),
        ) {
            return PolicyDecision::Deny(DenyReason::NotAllowlisted);
        }
        let key = DnsQueryKey { server, guest, guest_port: udp.source_port, id: query.id };
        if !self.pending_dns.contains(&key) && self.pending_dns.len()
            >= self.config.limits().max_pending_dns {
            return PolicyDecision::Deny(DenyReason::StateLimit);
        }
        let expires = now.saturating_add(self.config.limits().dns_query_ttl);
        self.pending_dns.insert(key, PendingDns { name: query.name, expires });
        PolicyDecision::Allow(AllowReason::DnsInfrastructure)
    }

    fn finish_dns_response(
        &mut self,
        server: IpAddr,
        guest: IpAddr,
        udp: &UdpPacket<'_>,
        now: Duration,
    ) -> (decision: PolicyDecision)
        requires
            old(self).tables_wf(),
        ensures
            Self::step_is(
                *old(self),
                *final(self),
                crate::policy::model::dns_response_step(
                    old(self).policy(),
                    old(self)@,
                    server,
                    guest,
                    udp@,
                    now@,
                ),
                decision,
            ),
    {
        if udp.payload.len() < 2 {
            return PolicyDecision::Deny(DenyReason::Malformed);
        }
        let id: u16 = read_be16(udp.payload, 0);
        let key = DnsQueryKey { server, guest, guest_port: udp.destination_port, id };
        let ghost state = self@;
        let pending = match self.pending_dns.remove(&key) {
            Some(pending) => pending,
            None => {
                assert(self@.queries =~= state.queries);
                return PolicyDecision::Deny(DenyReason::NoReverseFlow);
            },
        };
        let response = match parse_dns_response(udp.payload) {
            Some(response) => response,
            None => {
                return PolicyDecision::Deny(DenyReason::Malformed);
            },
        };
        if !same_bytes(response.question.as_slice(), pending.name.as_slice()) {
            return PolicyDecision::Deny(DenyReason::Infrastructure);
        }
        if self.config.mode() == PolicyMode::Allowlist {
            self.observe_dns_answers(&pending.name, &response.answers, now);
        }
        PolicyDecision::Allow(AllowReason::DnsInfrastructure)
    }

    fn observe_dns_answers(
        &mut self,
        question: &Vec<u8>,
        answers: &Vec<DnsRecord>,
        now: Duration,
    )
        requires
            old(self).tables_wf(),
        ensures
            final(self).tables_wf(),
            final(self).config == old(self).config,
            final(self)@ == (EngineView {
                bindings: crate::policy::model::observed(
                    old(self).policy(),
                    old(self)@.bindings,
                    question@,
                    crate::policy::dns::record_views(answers@),
                    now@,
                ),
                ..old(self)@
            }),
    {
        let ghost records = crate::policy::dns::record_views(answers@);
        let ghost state = self@;
        let secs: u64 = self.config.limits().max_dns_ttl.as_secs();
        let max_ttl_secs: u64 = if secs <= 0xffff_ffff {
            secs
        } else {
            0xffff_ffff
        };
        let reach = reachable_names(question, answers, max_ttl_secs);
        let mut i: usize = 0;
        while i < answers.len()
            invariant
                i <= answers@.len(),
                self.tables_wf(),
                self.config == old(self).config,
                records == crate::policy::dns::record_views(answers@),
                reach.wf(),
                max_ttl_secs == crate::policy::model::max_ttl_secs(self.config@),
                self@.flows == state.flows,
                self@.queries == state.queries,
                self@.bindings == crate::policy::model::bind_records(
                    self.config@,
                    state.bindings,
                    question@,
                    records,
                    i as nat,
                    reach@,
                    now@,
                ),
            decreases answers@.len() - i,
        {
            assert(records[i as int] == answers@[i as int]@);
            match &answers[i] {
                DnsRecord::Address { owner, address, ttl } => {
                    let path: Option<u64> = match reach.get(owner) {
                        Some(lifetime) => Some(*lifetime),
                        None => None,
                    };
                    match path {
                        Some(path) => {
                            let lifetime: u64 = chained(path, *ttl, max_ttl_secs);
                            if lifetime != 0 {
                                self.insert_dns_binding(
                                    *address,
                                    question,
                                    now.saturating_add(Duration::from_secs(lifetime)),
                                );
                            }
                        },
                        None => {},
                    }
                },
                DnsRecord::Cname { .. } => {},
            }
            i += 1;
        }
    }

    fn insert_dns_binding(&mut self, address: IpAddr, name: &Vec<u8>, expires: Duration)
        requires
            old(self).tables_wf(),
        ensures
            final(self).tables_wf(),
            final(self).config == old(self).config,
            final(self)@ == (EngineView {
                bindings: crate::policy::model::bind(
                    old(self)@.bindings,
                    address,
                    name@,
                    expires@,
                    old(self).policy().limits,
                ),
                ..old(self)@
            }),
    {
        let key = BindingKey { address, name: copy_bytes(name.as_slice()) };
        if !self.dns_bindings.contains(&key) && self.dns_bindings.len()
            >= self.config.limits().max_dns_bindings {
            return ;
        }
        self.dns_bindings.insert(key, DnsBinding { expires });
    }
}

/// One more entry raises the total by what is held for it.
proof fn lemma_total_prefix(entries: Seq<(FlowKey, FlowState)>, i: int)
    requires
        crate::table::keys_distinct(entries),
        0 <= i < entries.len(),
    ensures
        crate::policy::model::tls_total(crate::table::entries_map(entries.subrange(0, i + 1)))
            == crate::policy::model::tls_total(crate::table::entries_map(entries.subrange(0, i)))
            + entries[i].1@.buffered(),
{
    let shorter = entries.subrange(0, i);
    let longer = entries.subrange(0, i + 1);
    let key = entries[i].0@;
    assert(crate::table::keys_distinct(shorter)) by {
        assert forall|a: int, b: int| 0 <= a < b < shorter.len() implies #[trigger] shorter[a].0@
            != #[trigger] shorter[b].0@ by {
            assert(shorter[a] == entries[a] && shorter[b] == entries[b]);
        }
    }
    assert(crate::table::keys_distinct(longer)) by {
        assert forall|a: int, b: int| 0 <= a < b < longer.len() implies #[trigger] longer[a].0@
            != #[trigger] longer[b].0@ by {
            assert(longer[a] == entries[a] && longer[b] == entries[b]);
        }
    }
    crate::table::lemma_len(shorter);
    crate::table::lemma_entries(shorter);
    let map = crate::table::entries_map(shorter);
    assert(!map.contains_key(key)) by {
        if crate::table::has_key(shorter, key) {
            let j = choose|j: int| 0 <= j < shorter.len() && #[trigger] shorter[j].0@ == key;
            assert(entries[j].0@ == key);
            assert(entries[j].0@ != entries[i].0@);
        }
    }
    let grown = map.insert(key, entries[i].1@);
    assert forall|k: FlowKey| #[trigger] grown.contains_key(k) implies crate::table::has_key(
        longer,
        k,
    ) by {
        if k == key {
            assert(longer[i].0@ == k);
        } else {
            let j = choose|j: int| 0 <= j < shorter.len() && #[trigger] shorter[j].0@ == k;
            assert(longer[j] == shorter[j]);
            assert(longer[j].0@ == k);
        }
    }
    assert forall|a: int| 0 <= a < longer.len() implies grown.contains_key(
        (#[trigger] longer[a]).0@,
    ) && grown[longer[a].0@] == longer[a].1@ by {
        if a < i {
            assert(longer[a] == shorter[a]);
            assert(entries[a].0@ != entries[i].0@);
        }
    }
    crate::table::lemma_content(longer, grown);
    crate::policy::laws::lemma_total_insert(map, key, entries[i].1@);
}

} // verus!
