use moraebox::net::{IpAddr, Ipv4Addr, Ipv6Addr};
use moraebox::policy::config::{Cidr, PolicyConfig, PolicyLimits};
use moraebox::policy::dns::{parse_dns_query, parse_dns_response};
use moraebox::policy::domain::DomainPattern;
use moraebox::policy::engine::{append_tls_segment, PolicyEngine, TlsFlow};
use moraebox::policy::model::{
    DHCP_CLIENT_PORT, DHCP_SERVER_PORT, DNS_PORT, HTTPS_PORT, ZERO_TTL_DNS_BINDING_GRACE_SECS,
};
use moraebox::policy::packet::{checksum, TcpPacket};
use moraebox::policy::tls::{parse_tls_client_hello, TlsParse};
use moraebox::policy::{AllowReason, DenyReason, FrameDirection, HoldReason, PolicyDecision, PolicyMode};
use moraebox::time::Duration;

const ETHERNET_HEADER_LEN: usize = 14;
const ETHERTYPE_IPV4: u16 = 0x0800;
const ETHERTYPE_ARP: u16 = 0x0806;
const ETHERTYPE_IPV6: u16 = 0x86dd;
const IPPROTO_TCP: u8 = 6;
const IPPROTO_UDP: u8 = 17;

fn guest() -> Ipv4Addr {
    Ipv4Addr::new(10, 0, 2, 15)
}

fn dns() -> Ipv4Addr {
    Ipv4Addr::new(10, 0, 2, 3)
}

fn gateway() -> Ipv4Addr {
    Ipv4Addr::new(10, 0, 2, 2)
}

fn control() -> Ipv4Addr {
    Ipv4Addr::new(10, 0, 2, 254)
}

fn remote() -> Ipv4Addr {
    Ipv4Addr::new(203, 0, 113, 9)
}

fn v6(text: &str) -> Ipv6Addr {
    match IpAddr::parse_text(text) {
        Some(IpAddr::V6(address)) => address,
        _ => panic!("not an IPv6 address: {text}"),
    }
}


fn config(cidrs: &[&str], domains: &[&str], limits: PolicyLimits) -> PolicyConfig {
    PolicyConfig::new(
        PolicyMode::Allowlist,
        cidrs.iter().map(|value| value.parse().unwrap()).collect(),
        domains.iter().map(|value| value.parse().unwrap()).collect(),
        vec![IpAddr::V4(dns())],
        vec![gateway(), dns()],
        vec![IpAddr::V4(control())],
        limits,
    )
    .unwrap()
}

fn ethernet(ether_type: u16, payload: &[u8]) -> Vec<u8> {
    let mut frame = vec![0; ETHERNET_HEADER_LEN];
    frame[12..14].copy_from_slice(&ether_type.to_be_bytes());
    frame.extend_from_slice(payload);
    frame
}

fn ipv4(
    source: Ipv4Addr,
    destination: Ipv4Addr,
    protocol: u8,
    payload: &[u8],
    fragment: u16,
) -> Vec<u8> {
    let mut packet = vec![0_u8; 20];
    packet[0] = 0x45;
    packet[2..4].copy_from_slice(&u16::try_from(20 + payload.len()).unwrap().to_be_bytes());
    packet[6..8].copy_from_slice(&fragment.to_be_bytes());
    packet[8] = 64;
    packet[9] = protocol;
    packet[12..16].copy_from_slice(&source.octets());
    packet[16..20].copy_from_slice(&destination.octets());
    let header_checksum = checksum(&packet);
    packet[10..12].copy_from_slice(&header_checksum.to_be_bytes());
    packet.extend_from_slice(payload);
    ethernet(ETHERTYPE_IPV4, &packet)
}

fn ipv6(source: Ipv6Addr, destination: Ipv6Addr, protocol: u8, payload: &[u8]) -> Vec<u8> {
    let mut packet = vec![0_u8; 40];
    packet[0] = 0x60;
    packet[4..6].copy_from_slice(&u16::try_from(payload.len()).unwrap().to_be_bytes());
    packet[6] = protocol;
    packet[7] = 64;
    packet[8..24].copy_from_slice(&source.bits.to_be_bytes());
    packet[24..40].copy_from_slice(&destination.bits.to_be_bytes());
    packet.extend_from_slice(payload);
    ethernet(ETHERTYPE_IPV6, &packet)
}

fn udp(source_port: u16, destination_port: u16, payload: &[u8]) -> Vec<u8> {
    let mut packet = Vec::with_capacity(8 + payload.len());
    packet.extend_from_slice(&source_port.to_be_bytes());
    packet.extend_from_slice(&destination_port.to_be_bytes());
    packet.extend_from_slice(&u16::try_from(8 + payload.len()).unwrap().to_be_bytes());
    packet.extend_from_slice(&[0, 0]);
    packet.extend_from_slice(payload);
    packet
}

fn tcp(
    source_port: u16,
    destination_port: u16,
    sequence: u32,
    flags: u8,
    payload: &[u8],
) -> Vec<u8> {
    let mut packet = vec![0_u8; 20];
    packet[0..2].copy_from_slice(&source_port.to_be_bytes());
    packet[2..4].copy_from_slice(&destination_port.to_be_bytes());
    packet[4..8].copy_from_slice(&sequence.to_be_bytes());
    packet[12] = 5 << 4;
    packet[13] = flags;
    packet.extend_from_slice(payload);
    packet
}

fn outbound_udp(remote: Ipv4Addr, guest_port: u16, remote_port: u16) -> Vec<u8> {
    ipv4(
        guest(),
        remote,
        IPPROTO_UDP,
        &udp(guest_port, remote_port, b"data"),
        0,
    )
}

fn dns_name(name: &str) -> Vec<u8> {
    let mut encoded = Vec::new();
    for label in name.split('.') {
        encoded.push(u8::try_from(label.len()).unwrap());
        encoded.extend_from_slice(label.as_bytes());
    }
    encoded.push(0);
    encoded
}

fn dns_query(id: u16, name: &str, query_type: u16) -> Vec<u8> {
    let mut message = Vec::new();
    message.extend_from_slice(&id.to_be_bytes());
    message.extend_from_slice(&0x0100_u16.to_be_bytes());
    message.extend_from_slice(&1_u16.to_be_bytes());
    message.extend_from_slice(&[0; 6]);
    message.extend_from_slice(&dns_name(name));
    message.extend_from_slice(&query_type.to_be_bytes());
    message.extend_from_slice(&1_u16.to_be_bytes());
    message
}

enum TestAnswer<'a> {
    A(&'a str, Ipv4Addr, u32),
    Aaaa(&'a str, Ipv6Addr, u32),
    Cname(&'a str, &'a str, u32),
}

fn dns_response(
    id: u16,
    question: &str,
    query_type: u16,
    answers: &[TestAnswer<'_>],
) -> Vec<u8> {
    let mut message = Vec::new();
    message.extend_from_slice(&id.to_be_bytes());
    message.extend_from_slice(&0x8180_u16.to_be_bytes());
    message.extend_from_slice(&1_u16.to_be_bytes());
    message.extend_from_slice(&u16::try_from(answers.len()).unwrap().to_be_bytes());
    message.extend_from_slice(&[0; 4]);
    message.extend_from_slice(&dns_name(question));
    message.extend_from_slice(&query_type.to_be_bytes());
    message.extend_from_slice(&1_u16.to_be_bytes());
    for answer in answers {
        let (owner, record_type, ttl, data) = match answer {
            TestAnswer::A(owner, address, ttl) => {
                (*owner, 1_u16, *ttl, address.octets().to_vec())
            }
            TestAnswer::Aaaa(owner, address, ttl) => {
                (*owner, 28_u16, *ttl, address.bits.to_be_bytes().to_vec())
            }
            TestAnswer::Cname(owner, target, ttl) => (*owner, 5_u16, *ttl, dns_name(target)),
        };
        message.extend_from_slice(&dns_name(owner));
        message.extend_from_slice(&record_type.to_be_bytes());
        message.extend_from_slice(&1_u16.to_be_bytes());
        message.extend_from_slice(&ttl.to_be_bytes());
        message.extend_from_slice(&u16::try_from(data.len()).unwrap().to_be_bytes());
        message.extend_from_slice(&data);
    }
    message
}

fn exchange_dns(
    engine: &mut PolicyEngine,
    name: &str,
    query_type: u16,
    answers: &[TestAnswer<'_>],
    now: Duration,
) {
    let id = 0x1234;
    let query = ipv4(
        guest(),
        dns(),
        IPPROTO_UDP,
        &udp(53_000, DNS_PORT, &dns_query(id, name, query_type)),
        0,
    );
    assert_eq!(
        engine.evaluate_ethernet(FrameDirection::GuestToNetwork, &query, now),
        PolicyDecision::Allow(AllowReason::DnsInfrastructure)
    );
    let response = ipv4(
        dns(),
        guest(),
        IPPROTO_UDP,
        &udp(
            DNS_PORT,
            53_000,
            &dns_response(id, name, query_type, answers),
        ),
        0,
    );
    assert_eq!(
        engine.evaluate_ethernet(FrameDirection::NetworkToGuest, &response, now),
        PolicyDecision::Allow(AllowReason::DnsInfrastructure)
    );
}

fn client_hello(sni: Option<&str>, ech: bool) -> Vec<u8> {
    let mut extensions = Vec::new();
    if let Some(sni) = sni {
        let name = sni.as_bytes();
        let mut extension = Vec::new();
        extension.extend_from_slice(&u16::try_from(name.len() + 3).unwrap().to_be_bytes());
        extension.push(0);
        extension.extend_from_slice(&u16::try_from(name.len()).unwrap().to_be_bytes());
        extension.extend_from_slice(name);
        extensions.extend_from_slice(&0_u16.to_be_bytes());
        extensions.extend_from_slice(&u16::try_from(extension.len()).unwrap().to_be_bytes());
        extensions.extend_from_slice(&extension);
    }
    if ech {
        extensions.extend_from_slice(&0xfe0d_u16.to_be_bytes());
        extensions.extend_from_slice(&1_u16.to_be_bytes());
        extensions.push(0);
    }
    let mut body = Vec::new();
    body.extend_from_slice(&[3, 3]);
    body.extend_from_slice(&[0; 32]);
    body.push(0);
    body.extend_from_slice(&2_u16.to_be_bytes());
    body.extend_from_slice(&0x1301_u16.to_be_bytes());
    body.push(1);
    body.push(0);
    body.extend_from_slice(&u16::try_from(extensions.len()).unwrap().to_be_bytes());
    body.extend_from_slice(&extensions);
    let mut handshake = vec![1];
    let body_len = u32::try_from(body.len()).unwrap().to_be_bytes();
    handshake.extend_from_slice(&body_len[1..]);
    handshake.extend_from_slice(&body);
    let mut record = vec![22, 3, 3];
    record.extend_from_slice(&u16::try_from(handshake.len()).unwrap().to_be_bytes());
    record.extend_from_slice(&handshake);
    record
}

fn tls_syn(engine: &mut PolicyEngine, remote: Ipv4Addr, guest_port: u16) -> PolicyDecision {
    let syn = ipv4(
        guest(),
        remote,
        IPPROTO_TCP,
        &tcp(guest_port, HTTPS_PORT, 100, 0x02, &[]),
        0,
    );
    engine.evaluate_ethernet(FrameDirection::GuestToNetwork, &syn, Duration::zero())
}

#[test]
fn cidr_and_domain_patterns_are_strict() {
    let cidr: Cidr = "192.0.2.0/24".parse().unwrap();
    assert!(cidr.contains(IpAddr::parse_text("192.0.2.255").unwrap()));
    assert!(!cidr.contains(IpAddr::parse_text("192.0.3.1").unwrap()));
    assert!("2001:db8::/129".parse::<Cidr>().is_err());

    let wildcard: DomainPattern = "*.example.com".parse().unwrap();
    assert!(wildcard.matches("api.example.com"));
    assert!(wildcard.matches("deep.api.example.com"));
    assert!(!wildcard.matches("example.com"));
    assert!(!wildcard.matches("badexample.com"));
    assert!("*example.com".parse::<DomainPattern>().is_err());
}

#[test]
fn cidr_allows_ipv4_ipv6_and_only_correlated_reverse_flows() {
    let mut engine = PolicyEngine::new(config(
        &["203.0.113.0/24", "2001:db8::/32"],
        &[],
        PolicyLimits::default(),
    ));
    assert_eq!(
        engine.evaluate_ethernet(
            FrameDirection::GuestToNetwork,
            &outbound_udp(remote(), 50_000, 123),
            Duration::zero(),
        ),
        PolicyDecision::Allow(AllowReason::Cidr)
    );
    let reverse = ipv4(remote(), guest(), IPPROTO_UDP, &udp(123, 50_000, b"reply"), 0);
    assert_eq!(
        engine.evaluate_ethernet(FrameDirection::NetworkToGuest, &reverse, Duration::zero()),
        PolicyDecision::Allow(AllowReason::ReverseFlow)
    );
    let unsolicited = ipv4(remote(), guest(), IPPROTO_UDP, &udp(123, 50_001, b"reply"), 0);
    assert_eq!(
        engine.evaluate_ethernet(FrameDirection::NetworkToGuest, &unsolicited, Duration::zero()),
        PolicyDecision::Deny(DenyReason::NoReverseFlow)
    );

    let v6 = ipv6(
        v6("fd00::2"),
        v6("2001:db8::1"),
        IPPROTO_UDP,
        &udp(40_000, 123, b"v6"),
    );
    assert!(
        engine
            .evaluate_ethernet(FrameDirection::GuestToNetwork, &v6, Duration::zero())
            .is_allowed()
    );
}

#[test]
fn malformed_fragments_and_control_endpoint_fail_closed() {
    let mut engine = PolicyEngine::new(config(&["0.0.0.0/0"], &[], PolicyLimits::default()));
    assert_eq!(
        engine.evaluate_ethernet(FrameDirection::GuestToNetwork, &[0; 13], Duration::zero()),
        PolicyDecision::Deny(DenyReason::Malformed)
    );
    let fragment = ipv4(guest(), remote(), IPPROTO_UDP, &udp(1000, 1000, b"x"), 0x2000);
    assert_eq!(
        engine.evaluate_ethernet(FrameDirection::GuestToNetwork, &fragment, Duration::zero()),
        PolicyDecision::Deny(DenyReason::Fragment)
    );
    assert_eq!(
        engine.evaluate_ethernet(
            FrameDirection::GuestToNetwork,
            &outbound_udp(control(), 1000, 80),
            Duration::zero(),
        ),
        PolicyDecision::Deny(DenyReason::ControlEndpoint)
    );
    let v6_fragment = ipv6(
        v6("fd00::2"),
        v6("2001:db8::1"),
        44,
        &[0; 8],
    );
    assert_eq!(
        engine.evaluate_ethernet(FrameDirection::GuestToNetwork, &v6_fragment, Duration::zero()),
        PolicyDecision::Deny(DenyReason::Fragment)
    );
}

#[test]
fn infrastructure_is_narrowly_limited() {
    let mut engine = PolicyEngine::new(config(&[], &["example.com"], PolicyLimits::default()));
    let mut arp = vec![0_u8; 28];
    arp[0..2].copy_from_slice(&1_u16.to_be_bytes());
    arp[2..4].copy_from_slice(&ETHERTYPE_IPV4.to_be_bytes());
    arp[4] = 6;
    arp[5] = 4;
    arp[6..8].copy_from_slice(&1_u16.to_be_bytes());
    arp[24..28].copy_from_slice(&gateway().octets());
    assert_eq!(
        engine.evaluate_ethernet(
            FrameDirection::GuestToNetwork,
            &ethernet(ETHERTYPE_ARP, &arp),
            Duration::zero(),
        ),
        PolicyDecision::Allow(AllowReason::ArpInfrastructure)
    );
    arp[24..28].copy_from_slice(&Ipv4Addr::new(10, 0, 2, 99).octets());
    assert_eq!(
        engine.evaluate_ethernet(
            FrameDirection::GuestToNetwork,
            &ethernet(ETHERTYPE_ARP, &arp),
            Duration::zero(),
        ),
        PolicyDecision::Deny(DenyReason::Infrastructure)
    );
    let discover = ipv4(
        Ipv4Addr::unspecified(),
        Ipv4Addr::broadcast(),
        IPPROTO_UDP,
        &udp(DHCP_CLIENT_PORT, DHCP_SERVER_PORT, b"discover"),
        0,
    );
    assert_eq!(
        engine.evaluate_ethernet(FrameDirection::GuestToNetwork, &discover, Duration::zero()),
        PolicyDecision::Allow(AllowReason::DhcpInfrastructure)
    );
    let untrusted_dns = ipv4(
        guest(),
        gateway(),
        IPPROTO_UDP,
        &udp(53000, DNS_PORT, &dns_query(1, "example.com", 1)),
        0,
    );
    assert_eq!(
        engine.evaluate_ethernet(
            FrameDirection::GuestToNetwork,
            &untrusted_dns,
            Duration::zero()
        ),
        PolicyDecision::Deny(DenyReason::NotAllowlisted)
    );
}

#[test]
fn dns_and_dhcp_are_narrow_exceptions_on_the_control_address() {
    let policy = PolicyConfig::new(
        PolicyMode::Allowlist,
        vec![],
        vec!["example.com".parse().unwrap()],
        vec![IpAddr::V4(control())],
        vec![control()],
        vec![IpAddr::V4(control())],
        PolicyLimits::default(),
    )
    .unwrap();
    let mut engine = PolicyEngine::new(policy);
    let query = ipv4(
        guest(),
        control(),
        IPPROTO_UDP,
        &udp(53_000, DNS_PORT, &dns_query(7, "example.com", 1)),
        0,
    );
    assert_eq!(
        engine.evaluate_ethernet(FrameDirection::GuestToNetwork, &query, Duration::zero()),
        PolicyDecision::Allow(AllowReason::DnsInfrastructure)
    );
    let renew = ipv4(
        guest(),
        control(),
        IPPROTO_UDP,
        &udp(DHCP_CLIENT_PORT, DHCP_SERVER_PORT, b"renew"),
        0,
    );
    assert_eq!(
        engine.evaluate_ethernet(FrameDirection::GuestToNetwork, &renew, Duration::zero()),
        PolicyDecision::Allow(AllowReason::DhcpInfrastructure)
    );
    assert_eq!(
        engine.evaluate_ethernet(
            FrameDirection::GuestToNetwork,
            &outbound_udp(control(), 53_001, 80),
            Duration::zero(),
        ),
        PolicyDecision::Deny(DenyReason::ControlEndpoint)
    );
}

#[test]
fn trusted_dns_cname_and_aaaa_bindings_expire() {
    let mut engine =
        PolicyEngine::new(config(&[], &["*.example.com"], PolicyLimits::default()));
    let remote_v6: Ipv6Addr = v6("2001:db8::44");
    exchange_dns(
        &mut engine,
        "api.example.com",
        28,
        &[
            TestAnswer::Aaaa("edge.cdn.test", remote_v6, 20),
            TestAnswer::Cname("api.example.com", "edge.cdn.test", 2),
        ],
        Duration::zero(),
    );
    assert_eq!(engine.dns_binding_count(), 1);
    let syn = ipv6(
        v6("fd00::2"),
        remote_v6,
        IPPROTO_TCP,
        &tcp(40_000, HTTPS_PORT, 10, 0x02, &[]),
    );
    assert_eq!(
        engine.evaluate_ethernet(FrameDirection::GuestToNetwork, &syn, Duration::from_secs(1)),
        PolicyDecision::Allow(AllowReason::DomainHandshake)
    );
    let expired_syn = ipv6(
        v6("fd00::2"),
        remote_v6,
        IPPROTO_TCP,
        &tcp(40_001, HTTPS_PORT, 10, 0x02, &[]),
    );
    assert_eq!(
        engine.evaluate_ethernet(
            FrameDirection::GuestToNetwork,
            &expired_syn,
            Duration::from_secs(3),
        ),
        PolicyDecision::Deny(DenyReason::NotAllowlisted)
    );
    assert_eq!(engine.dns_binding_count(), 0);
}

#[test]
fn zero_ttl_dns_answer_has_only_a_short_connection_grace() {
    let mut engine = PolicyEngine::new(config(&[], &["example.com"], PolicyLimits::default()));
    exchange_dns(
        &mut engine,
        "example.com",
        1,
        &[TestAnswer::A("example.com", remote(), 0)],
        Duration::zero(),
    );
    assert_eq!(engine.dns_binding_count(), 1);

    let immediate = ipv4(
        guest(),
        remote(),
        IPPROTO_TCP,
        &tcp(40_000, HTTPS_PORT, 100, 0x02, &[]),
        0,
    );
    assert_eq!(
        engine.evaluate_ethernet(
            FrameDirection::GuestToNetwork,
            &immediate,
            Duration::from_secs(ZERO_TTL_DNS_BINDING_GRACE_SECS - 1),
        ),
        PolicyDecision::Allow(AllowReason::DomainHandshake)
    );

    let expired = ipv4(
        guest(),
        remote(),
        IPPROTO_TCP,
        &tcp(40_001, HTTPS_PORT, 100, 0x02, &[]),
        0,
    );
    assert_eq!(
        engine.evaluate_ethernet(
            FrameDirection::GuestToNetwork,
            &expired,
            Duration::from_secs(ZERO_TTL_DNS_BINDING_GRACE_SECS + 1),
        ),
        PolicyDecision::Deny(DenyReason::NotAllowlisted)
    );
    assert_eq!(engine.dns_binding_count(), 0);
}

#[test]
fn domain_tls_requires_dns_and_matching_sni_across_retransmissions() {
    let mut engine =
        PolicyEngine::new(config(&[], &["*.example.com"], PolicyLimits::default()));
    exchange_dns(
        &mut engine,
        "api.example.com",
        1,
        &[TestAnswer::A("api.example.com", remote(), 60)],
        Duration::zero(),
    );
    assert_eq!(
        tls_syn(&mut engine, remote(), 40_000),
        PolicyDecision::Allow(AllowReason::DomainHandshake)
    );
    let hello = client_hello(Some("api.example.com"), false);
    let split = 23;
    let first = ipv4(
        guest(),
        remote(),
        IPPROTO_TCP,
        &tcp(40_000, HTTPS_PORT, 101, 0x18, &hello[..split]),
        0,
    );
    assert_eq!(
        engine.evaluate_ethernet(
            FrameDirection::GuestToNetwork,
            &first,
            Duration::from_millis(1)
        ),
        PolicyDecision::Hold(HoldReason::TlsClientHello)
    );
    assert_eq!(
        engine.evaluate_ethernet(
            FrameDirection::GuestToNetwork,
            &first,
            Duration::from_millis(2)
        ),
        PolicyDecision::Hold(HoldReason::TlsClientHello)
    );
    let second = ipv4(
        guest(),
        remote(),
        IPPROTO_TCP,
        &tcp(
            40_000,
            HTTPS_PORT,
            101 + u32::try_from(split).unwrap(),
            0x18,
            &hello[split..],
        ),
        0,
    );
    assert_eq!(
        engine.evaluate_ethernet(
            FrameDirection::GuestToNetwork,
            &second,
            Duration::from_millis(3)
        ),
        PolicyDecision::Allow(AllowReason::DomainSni)
    );
    let reverse = ipv4(
        remote(),
        guest(),
        IPPROTO_TCP,
        &tcp(HTTPS_PORT, 40_000, 1, 0x10, b"server"),
        0,
    );
    assert_eq!(
        engine.evaluate_ethernet(
            FrameDirection::NetworkToGuest,
            &reverse,
            Duration::from_millis(4)
        ),
        PolicyDecision::Allow(AllowReason::ReverseFlow)
    );
}

fn engine_with_binding() -> PolicyEngine {
    let mut engine =
        PolicyEngine::new(config(&[], &["*.example.com"], PolicyLimits::default()));
    exchange_dns(
        &mut engine,
        "api.example.com",
        1,
        &[TestAnswer::A("api.example.com", remote(), 60)],
        Duration::zero(),
    );
    engine
}

#[test]
fn domain_only_denies_udp_quic_ech_no_sni_and_mismatched_sni() {
    let mut engine = engine_with_binding();
    assert_eq!(
        engine.evaluate_ethernet(
            FrameDirection::GuestToNetwork,
            &outbound_udp(remote(), 40_000, HTTPS_PORT),
            Duration::zero(),
        ),
        PolicyDecision::Deny(DenyReason::DomainRequiresTcpTls)
    );

    for (port, hello, expected) in [
        (
            40_001,
            client_hello(Some("api.example.com"), true),
            DenyReason::TlsEch,
        ),
        (40_002, client_hello(None, false), DenyReason::TlsNoSni),
        (
            40_003,
            client_hello(Some("other.example.com"), false),
            DenyReason::TlsSniMismatch,
        ),
    ] {
        assert!(tls_syn(&mut engine, remote(), port).is_allowed());
        let frame = ipv4(
            guest(),
            remote(),
            IPPROTO_TCP,
            &tcp(port, HTTPS_PORT, 101, 0x18, &hello),
            0,
        );
        assert_eq!(
            engine.evaluate_ethernet(
                FrameDirection::GuestToNetwork,
                &frame,
                Duration::from_millis(1),
            ),
            PolicyDecision::Deny(expected)
        );
    }
}

#[test]
fn state_limits_and_pending_tls_expiry_are_enforced() {
    let limits = PolicyLimits {
        max_flows: 1,
        max_pending_dns: 1,
        max_dns_bindings: 1,
        max_tls_buffer_per_flow: 512,
        max_total_tls_bytes: 512,
        pending_tls_ttl: Duration::from_secs(1),
        ..PolicyLimits::default()
    };
    let mut engine = PolicyEngine::new(config(&["203.0.113.0/24"], &[], limits));
    assert!(
        engine
            .evaluate_ethernet(
                FrameDirection::GuestToNetwork,
                &outbound_udp(remote(), 40_000, 1),
                Duration::zero(),
            )
            .is_allowed()
    );
    assert_eq!(engine.flow_count(), 1);
    assert_eq!(
        engine.evaluate_ethernet(
            FrameDirection::GuestToNetwork,
            &outbound_udp(remote(), 40_001, 1),
            Duration::zero(),
        ),
        PolicyDecision::Deny(DenyReason::StateLimit)
    );

    let invalid_limits = PolicyLimits {
        max_total_tls_bytes: 1,
        ..PolicyLimits::default()
    };
    assert!(
        PolicyConfig::new(
            PolicyMode::Unrestricted,
            vec![],
            vec![],
            vec![],
            vec![],
            vec![],
            invalid_limits,
        )
            .is_err()
    );
}

#[test]
fn published_tcp_port_allows_only_inbound_initiated_preview_flow() {
    let config = config(&["203.0.113.0/24"], &[], PolicyLimits::default())
        .with_guest_ipv4_addresses(vec![guest()])
        .unwrap()
        .with_published_tcp_ports(vec![8080])
        .unwrap();
    let mut engine = PolicyEngine::new(config);
    let unpublished = ipv4(
        remote(),
        guest(),
        IPPROTO_TCP,
        &tcp(50_000, 8081, 1, 0x02, &[]),
        0,
    );
    assert_eq!(
        engine.evaluate_ethernet(FrameDirection::NetworkToGuest, &unpublished, Duration::zero(),),
        PolicyDecision::Deny(DenyReason::NoReverseFlow)
    );

    let inbound = ipv4(
        control(),
        guest(),
        IPPROTO_TCP,
        &tcp(50_000, 8080, 1, 0x02, &[]),
        0,
    );
    assert_eq!(
        engine.evaluate_ethernet(FrameDirection::NetworkToGuest, &inbound, Duration::zero(),),
        PolicyDecision::Allow(AllowReason::Preview)
    );
    let mut request = vec![0_u8; 28];
    request[0..2].copy_from_slice(&1_u16.to_be_bytes());
    request[2..4].copy_from_slice(&ETHERTYPE_IPV4.to_be_bytes());
    request[4] = 6;
    request[5] = 4;
    request[6..8].copy_from_slice(&1_u16.to_be_bytes());
    request[14..18].copy_from_slice(&gateway().octets());
    request[24..28].copy_from_slice(&guest().octets());
    assert_eq!(
        engine.evaluate_ethernet(
            FrameDirection::NetworkToGuest,
            &ethernet(ETHERTYPE_ARP, &request),
            Duration::zero(),
        ),
        PolicyDecision::Allow(AllowReason::ArpInfrastructure)
    );
    request[6..8].copy_from_slice(&2_u16.to_be_bytes());
    request[14..18].copy_from_slice(&guest().octets());
    request[24..28].copy_from_slice(&gateway().octets());
    assert_eq!(
        engine.evaluate_ethernet(
            FrameDirection::GuestToNetwork,
            &ethernet(ETHERTYPE_ARP, &request),
            Duration::zero(),
        ),
        PolicyDecision::Allow(AllowReason::ArpInfrastructure)
    );
    let reply = ipv4(
        guest(),
        control(),
        IPPROTO_TCP,
        &tcp(8080, 50_000, 10, 0x12, &[]),
        0,
    );
    assert_eq!(
        engine.evaluate_ethernet(FrameDirection::GuestToNetwork, &reply, Duration::zero(),),
        PolicyDecision::Allow(AllowReason::ReverseFlow)
    );
}

fn segment(sequence: u32, payload: &[u8]) -> TcpPacket<'_> {
    TcpPacket {
        source_port: 40_000,
        destination_port: HTTPS_PORT,
        sequence,
        syn: false,
        ack: true,
        rst: false,
        payload,
    }
}

#[test]
fn segments_extend_what_is_kept_or_leave_it() {
    let hello = client_hello(Some("example.com"), false);
    let mut flow = TlsFlow {
        initial_sequence: 100,
        bytes: vec![],
        expires: Duration::from_secs(9),
    };
    let first = append_tls_segment(&mut flow, &segment(100, &hello[..10]), 4096, 4096);
    assert!(matches!(first, Ok(TlsParse::NeedMore)));
    assert_eq!(flow.bytes, hello[..10]);
    let again = append_tls_segment(&mut flow, &segment(100, &hello[..10]), 4096, 0);
    assert!(matches!(again, Ok(TlsParse::NeedMore)));
    assert_eq!(flow.bytes, hello[..10]);
    let gap = append_tls_segment(&mut flow, &segment(111, &hello[11..]), 4096, 4096);
    assert!(matches!(gap, Err(DenyReason::OutOfOrder)));
    assert_eq!(flow.bytes, hello[..10]);
    let wrong = append_tls_segment(&mut flow, &segment(100, &[0; 4]), 4096, 4096);
    assert!(matches!(wrong, Err(DenyReason::OutOfOrder)));
    assert_eq!(flow.bytes, hello[..10]);
    let over = append_tls_segment(&mut flow, &segment(110, &hello[10..]), 12, 4096);
    assert!(matches!(over, Err(DenyReason::StateLimit)));
    let full = append_tls_segment(&mut flow, &segment(110, &hello[10..]), 4096, 3);
    assert!(matches!(full, Err(DenyReason::StateLimit)));
    assert_eq!(flow.bytes, hello[..10]);
    let whole = append_tls_segment(&mut flow, &segment(105, &hello[5..]), 4096, 4096);
    assert!(matches!(
        whole,
        Ok(TlsParse::ClientHello { sni: Some(name), ech: false }) if name == b"example.com"
    ));
    assert_eq!(flow.bytes, hello);
    assert_eq!(flow.expires, Duration::from_secs(9));
    let mut broken = TlsFlow {
        initial_sequence: 7,
        bytes: vec![],
        expires: Duration::from_secs(1),
    };
    let refused = append_tls_segment(&mut broken, &segment(7, b"GET / HTTP"), 4096, 4096);
    assert!(matches!(refused, Err(DenyReason::TlsInvalid)));
    assert_eq!(broken.bytes, b"GET / HTTP");
}

#[test]
fn nothing_may_follow_a_dns_message() {
    let response = dns_response(
        7,
        "example.com",
        1,
        &[
            TestAnswer::Cname("example.com", "a.example.com", 60),
            TestAnswer::A("a.example.com", remote(), 60),
        ],
    );
    assert_eq!(parse_dns_response(&response).unwrap().answers.len(), 2);
    let query = dns_query(7, "example.com", 1);
    assert_eq!(parse_dns_query(&query).unwrap().name, b"example.com");
    for more in [&[0_u8][..], &[1, 2, 3], &response] {
        assert!(parse_dns_response(&[&response[..], more].concat()).is_none());
        assert!(parse_dns_query(&[&query[..], more].concat()).is_none());
    }
}

#[test]
fn verdicts_on_first_bytes_stay() {
    let hello = client_hello(Some("example.com"), false);
    let longer = [&hello[..], b"more bytes"].concat();
    for bytes in [&hello, &longer] {
        assert!(matches!(
            parse_tls_client_hello(bytes),
            Ok(TlsParse::ClientHello { sni: Some(name), ech: false }) if name == b"example.com"
        ));
    }
    for bytes in [&b"GET / HTTP/1.1"[..], b"GET /"] {
        assert!(matches!(
            parse_tls_client_hello(bytes),
            Err(DenyReason::TlsInvalid)
        ));
    }
}

#[test]
fn headers_with_their_own_checksum_verify() {
    for header in [
        vec![0_u8; 20],
        vec![0x45, 0, 0, 0x73, 0, 0, 0x40, 0, 0x40, 0x11, 0, 0, 0xc0, 0xa8, 0, 1],
        vec![0, 0, 0xff, 0xff, 0xff, 0xff, 7],
    ] {
        let at = if header.len() == 16 { 10 } else { 0 };
        let mut written = header.clone();
        written[at..at + 2].copy_from_slice(&checksum(&header).to_be_bytes());
        assert_eq!(checksum(&written), 0);
    }
}
