//! What a policy allows: CIDR rules, domain rules, infrastructure addresses and state limits.

use std::str::FromStr;

use vstd::prelude::*;
use vstd::slice::*;
use vstd::string::*;

use crate::net::{parse_ip_text, IpAddr, Ipv4Addr};
use crate::policy::domain::{DomainPattern, PatternView};
use crate::policy::{PolicyConfigError, PolicyMode};
use crate::text::{find_byte, read_decimal};
use crate::time::Duration;

verus! {

pub const MAX_CIDRS: usize = 128;

pub const MAX_DOMAINS: usize = 128;

pub const MAX_PUBLISHED_PORTS: usize = 32;

pub const MAX_INFRASTRUCTURE_ADDRESSES: usize = 16;

pub const MAX_CONTROL_ADDRESSES: usize = 16;

pub const MAX_FLOWS_HARD: usize = 16_384;

pub const MAX_DNS_STATE_HARD: usize = 16_384;

pub const MIN_TLS_BUFFER: usize = 512;

pub const MAX_TLS_BUFFER_HARD: usize = 64 * 1024;

pub const MAX_TOTAL_TLS_BYTES_HARD: usize = 16 * 1024 * 1024;

pub const SLASH: u8 = 47;

pub const PLUS: u8 = 43;

/// Bounds on the state that an engine keeps, and how long it keeps it.
#[derive(Debug, Clone, Copy, PartialEq, Eq, Structural)]
pub struct PolicyLimits {
    pub max_flows: usize,
    pub max_pending_dns: usize,
    pub max_dns_bindings: usize,
    pub max_tls_buffer_per_flow: usize,
    pub max_total_tls_bytes: usize,
    pub flow_ttl: Duration,
    pub pending_tls_ttl: Duration,
    pub dns_query_ttl: Duration,
    pub max_dns_ttl: Duration,
}

impl Default for PolicyLimits {
    fn default() -> (limits: PolicyLimits)
        ensures
            limits.max_flows == 1024,
            limits.max_pending_dns == 256,
            limits.max_dns_bindings == 1024,
            limits.max_tls_buffer_per_flow == 16 * 1024,
            limits.max_total_tls_bytes == 1024 * 1024,
            limits.flow_ttl@ == 300 * crate::time::NANOS_PER_SEC,
            limits.pending_tls_ttl@ == 30 * crate::time::NANOS_PER_SEC,
            limits.dns_query_ttl@ == 10 * crate::time::NANOS_PER_SEC,
            limits.max_dns_ttl@ == 3600 * crate::time::NANOS_PER_SEC,
            limits.valid(),
    {
        PolicyLimits {
            max_flows: 1024,
            max_pending_dns: 256,
            max_dns_bindings: 1024,
            max_tls_buffer_per_flow: 16 * 1024,
            max_total_tls_bytes: 1024 * 1024,
            flow_ttl: Duration::from_secs(5 * 60),
            pending_tls_ttl: Duration::from_secs(30),
            dns_query_ttl: Duration::from_secs(10),
            max_dns_ttl: Duration::from_secs(60 * 60),
        }
    }
}

impl PolicyLimits {
    pub open spec fn flows_valid(self) -> bool {
        0 < self.max_flows <= MAX_FLOWS_HARD
    }

    pub open spec fn dns_valid(self) -> bool {
        &&& 0 < self.max_pending_dns <= MAX_DNS_STATE_HARD
        &&& 0 < self.max_dns_bindings <= MAX_DNS_STATE_HARD
    }

    pub open spec fn tls_valid(self) -> bool {
        &&& MIN_TLS_BUFFER <= self.max_tls_buffer_per_flow <= MAX_TLS_BUFFER_HARD
        &&& self.max_tls_buffer_per_flow <= self.max_total_tls_bytes <= MAX_TOTAL_TLS_BYTES_HARD
    }

    pub open spec fn ttls_valid(self) -> bool {
        self.flow_ttl@ != 0 && self.pending_tls_ttl@ != 0 && self.dns_query_ttl@ != 0
            && self.max_dns_ttl@ != 0
    }

    pub open spec fn valid(self) -> bool {
        self.flows_valid() && self.dns_valid() && self.tls_valid() && self.ttls_valid()
    }

    /// What is wrong with the limits, in the order in which they are looked at.
    pub open spec fn complaint(self) -> Option<Seq<char>> {
        if !self.flows_valid() {
            Some("max_flows is outside the safe bound"@)
        } else if !self.dns_valid() {
            Some("DNS state limit is outside the safe bound"@)
        } else if !self.tls_valid() {
            Some("TLS state limit is outside the safe bound"@)
        } else if !self.ttls_valid() {
            Some("policy state TTLs must be non-zero"@)
        } else {
            None
        }
    }

    /// Whether every bound is non-zero and no greater than what is safe.
    pub fn validate(self) -> (checked: Result<(), PolicyConfigError>)
        ensures
            match checked {
                Ok(()) => self.valid(),
                Err(error) => !self.valid() && self.complaint() == Some(error@),
            },
    {
        if self.max_flows == 0 || self.max_flows > MAX_FLOWS_HARD {
            return Err(PolicyConfigError::new("max_flows is outside the safe bound"));
        }
        if self.max_pending_dns == 0 || self.max_pending_dns > MAX_DNS_STATE_HARD
            || self.max_dns_bindings == 0 || self.max_dns_bindings > MAX_DNS_STATE_HARD {
            return Err(PolicyConfigError::new("DNS state limit is outside the safe bound"));
        }
        if self.max_tls_buffer_per_flow < MIN_TLS_BUFFER || self.max_tls_buffer_per_flow
            > MAX_TLS_BUFFER_HARD || self.max_total_tls_bytes < self.max_tls_buffer_per_flow
            || self.max_total_tls_bytes > MAX_TOTAL_TLS_BYTES_HARD {
            return Err(PolicyConfigError::new("TLS state limit is outside the safe bound"));
        }
        if self.flow_ttl.is_zero() || self.pending_tls_ttl.is_zero() || self.dns_query_ttl.is_zero()
            || self.max_dns_ttl.is_zero() {
            return Err(PolicyConfigError::new("policy state TTLs must be non-zero"));
        }
        Ok(())
    }
}

/// A block of addresses that share their first `prefix` bits.
#[derive(Debug, Clone, Copy, PartialEq, Eq, Structural)]
pub struct Cidr {
    address: IpAddr,
    prefix: u8,
}

pub struct CidrView {
    pub address: IpAddr,
    pub prefix: nat,
}

/// The number of bits of an address.
pub open spec fn address_width(address: IpAddr) -> nat {
    match address {
        IpAddr::V4(_) => 32,
        IpAddr::V6(_) => 128,
    }
}

impl CidrView {
    /// Whether an address of the same family has the same first `prefix` bits.
    pub open spec fn contains(self, candidate: IpAddr) -> bool {
        match (self.address, candidate) {
            (IpAddr::V4(network), IpAddr::V4(other)) => {
                let unit = vstd::arithmetic::power2::pow2((32 - self.prefix) as nat);
                network.bits as nat / unit == other.bits as nat / unit
            },
            (IpAddr::V6(network), IpAddr::V6(other)) => {
                let unit = vstd::arithmetic::power2::pow2((128 - self.prefix) as nat);
                network.bits as nat / unit == other.bits as nat / unit
            },
            _ => false,
        }
    }
}

impl View for Cidr {
    type V = CidrView;

    closed spec fn view(&self) -> CidrView {
        CidrView { address: self.address, prefix: self.prefix as nat }
    }
}

/// A number of at most 255 in decimal digits, which a plus sign may precede.
pub open spec fn u8_of(text: Seq<u8>) -> Option<nat> {
    let digits = if text.len() > 0 && text[0] == PLUS {
        text.subrange(1, text.len() as int)
    } else {
        text
    };
    if digits.len() > 0 && crate::text::is_digits(digits) && crate::text::dec_value(digits) <= 255 {
        Some(crate::text::dec_value(digits))
    } else {
        None
    }
}

fn read_u8(text: &[u8]) -> (number: Option<u8>)
    ensures
        match number {
            Some(value) => u8_of(text@) == Some(value as nat),
            None => u8_of(text@) is None,
        },
{
    let digits: &[u8] = if text.len() > 0 && text[0] == PLUS {
        slice_subrange(text, 1, text.len())
    } else {
        text
    };
    match read_decimal(digits, 255) {
        Some(value) => Some(value as u8),
        None => None,
    }
}

/// What the text of a block says: an address, a slash and a prefix length.
pub open spec fn cidr_of(text: Seq<u8>) -> Result<CidrView, Seq<char>> {
    let slash = crate::text::find_from(text, 0, SLASH);
    if slash >= text.len() {
        Err("CIDR is missing a prefix"@)
    } else {
        let address = text.subrange(0, slash);
        let prefix = text.subrange(slash + 1, text.len() as int);
        if address.len() == 0 || prefix.len() == 0 || prefix.contains(SLASH) {
            Err("CIDR has invalid syntax"@)
        } else {
            match (crate::net::ip_of(address), u8_of(prefix)) {
                (None, _) => Err("CIDR has an invalid address"@),
                (_, None) => Err("CIDR has an invalid prefix"@),
                (Some(address), Some(prefix)) => if prefix > address_width(address) {
                    Err("CIDR prefix exceeds address width"@)
                } else {
                    Ok(CidrView { address, prefix })
                },
            }
        }
    }
}

impl Cidr {
    #[verifier::type_invariant]
    spec fn prefix_fits(self) -> bool {
        self.prefix <= address_width(self.address)
    }

    /// The block that a text such as `192.0.2.0/24` spells.
    pub fn parse_text(value: &str) -> (parsed: Result<Cidr, PolicyConfigError>)
        ensures
            match parsed {
                Ok(cidr) => cidr_of(value.spec_bytes()) == Ok::<CidrView, Seq<char>>(cidr@),
                Err(error) => cidr_of(value.spec_bytes()) == Err::<CidrView, Seq<char>>(error@),
            },
    {
        let text: &[u8] = value.as_bytes();
        let slash: usize = find_byte(text, 0, SLASH);
        if slash >= text.len() {
            return Err(PolicyConfigError::new("CIDR is missing a prefix"));
        }
        let address: &[u8] = slice_subrange(text, 0, slash);
        let prefix: &[u8] = slice_subrange(text, slash + 1, text.len());
        let second: usize = find_byte(prefix, 0, SLASH);
        proof {
            if second < prefix@.len() {
                assert(prefix@[second as int] == SLASH);
                assert(prefix@.contains(SLASH));
            }
        }
        if address.len() == 0 || prefix.len() == 0 || second < prefix.len() {
            return Err(PolicyConfigError::new("CIDR has invalid syntax"));
        }
        let address: IpAddr = match parse_ip_text(address) {
            Some(address) => address,
            None => {
                return Err(PolicyConfigError::new("CIDR has an invalid address"));
            },
        };
        let prefix: u8 = match read_u8(prefix) {
            Some(prefix) => prefix,
            None => {
                return Err(PolicyConfigError::new("CIDR has an invalid prefix"));
            },
        };
        let width: u8 = match address {
            IpAddr::V4(_) => 32,
            IpAddr::V6(_) => 128,
        };
        if prefix > width {
            return Err(PolicyConfigError::new("CIDR prefix exceeds address width"));
        }
        Ok(Cidr { address, prefix })
    }

    /// Whether an address lies in the block.
    pub fn contains(self, candidate: IpAddr) -> (inside: bool)
        ensures
            inside == self@.contains(candidate),
    {
        proof {
            use_type_invariant(&self);
        }
        match (self.address, candidate) {
            (IpAddr::V4(network), IpAddr::V4(other)) => {
                if self.prefix == 0 {
                    proof {
                        lemma_no_bits_shared_v4(network.bits, other.bits);
                    }
                    true
                } else {
                    let shift: u32 = 32 - self.prefix as u32;
                    proof {
                        vstd::bits::lemma_u32_shr_is_div(network.bits, shift);
                        vstd::bits::lemma_u32_shr_is_div(other.bits, shift);
                    }
                    (network.bits >> shift) == (other.bits >> shift)
                }
            },
            (IpAddr::V6(network), IpAddr::V6(other)) => {
                if self.prefix == 0 {
                    proof {
                        lemma_no_bits_shared_v6(network.bits, other.bits);
                    }
                    true
                } else {
                    let shift: u128 = 128 - self.prefix as u128;
                    proof {
                        vstd::bits::lemma_u128_shr_is_div(network.bits, shift);
                        vstd::bits::lemma_u128_shr_is_div(other.bits, shift);
                    }
                    (network.bits >> shift) == (other.bits >> shift)
                }
            },
            _ => false,
        }
    }
}

proof fn lemma_no_bits_shared_v4(left: u32, right: u32)
    ensures
        left as nat / vstd::arithmetic::power2::pow2(32) == right as nat
            / vstd::arithmetic::power2::pow2(32),
{
    vstd::arithmetic::power2::lemma2_to64();
    vstd::arithmetic::power2::lemma2_to64_rest();
}

proof fn lemma_no_bits_shared_v6(left: u128, right: u128)
    ensures
        left as nat / vstd::arithmetic::power2::pow2(128) == right as nat
            / vstd::arithmetic::power2::pow2(128),
{
    vstd::arithmetic::power2::lemma2_to64();
    vstd::arithmetic::power2::lemma2_to64_rest();
    vstd::arithmetic::power2::lemma_pow2_adds(64, 64);
    assert(vstd::arithmetic::power2::pow2(128) == 0x1_0000_0000_0000_0000 * 0x1_0000_0000_0000_0000);
    vstd::arithmetic::div_mod::lemma_basic_div(
        left as int,
        vstd::arithmetic::power2::pow2(128) as int,
    );
    vstd::arithmetic::div_mod::lemma_basic_div(
        right as int,
        vstd::arithmetic::power2::pow2(128) as int,
    );
}

impl FromStr for Cidr {
    type Err = PolicyConfigError;

    fn from_str(value: &str) -> (parsed: Result<Cidr, PolicyConfigError>)
        ensures
            match parsed {
                Ok(cidr) => cidr_of(value.spec_bytes()) == Ok::<CidrView, Seq<char>>(cidr@),
                Err(error) => cidr_of(value.spec_bytes()) == Err::<CidrView, Seq<char>>(error@),
            },
    {
        Cidr::parse_text(value)
    }
}

/// A plain value, told apart from another by what it is.
pub trait Item: Copy {
    fn same(self, other: Self) -> (same: bool)
        ensures
            same == (self == other),
    ;
}

impl Item for IpAddr {
    fn same(self, other: IpAddr) -> (same: bool) {
        self == other
    }
}

impl Item for Ipv4Addr {
    fn same(self, other: Ipv4Addr) -> (same: bool) {
        self == other
    }
}

impl Item for u16 {
    fn same(self, other: u16) -> (same: bool) {
        self == other
    }
}

/// Whether a list holds an item.
pub fn contains_item<T: Item>(items: &Vec<T>, wanted: T) -> (present: bool)
    ensures
        present == items@.contains(wanted),
{
    let mut i: usize = 0;
    while i < items.len()
        invariant
            i <= items@.len(),
            forall|j: int| 0 <= j < i ==> items@[j] != wanted,
        decreases items@.len() - i,
    {
        if items[i].same(wanted) {
            assert(items@[i as int] == wanted);
            return true;
        }
        i += 1;
    }
    false
}

/// One more element, kept unless it was there, adds exactly that element to what is contained.
proof fn lemma_keep_step<T>(before: Seq<T>, after: Seq<T>, all: Seq<T>, upto: int)
    requires
        0 < upto <= all.len(),
        before.no_duplicates(),
        after == (if before.contains(all[upto - 1]) {
            before
        } else {
            before.push(all[upto - 1])
        }),
        forall|item: T|
            before.contains(item) == #[trigger] all.subrange(0, upto - 1).contains(item),
    ensures
        after.no_duplicates(),
        forall|item: T| after.contains(item) == #[trigger] all.subrange(0, upto).contains(item),
{
    let last = all[upto - 1];
    assert(all.subrange(0, upto) =~= all.subrange(0, upto - 1).push(last));
    assert forall|item: T|
        after.contains(item) == #[trigger] all.subrange(0, upto).contains(item) by {
        let shorter = all.subrange(0, upto - 1);
        assert(before.contains(item) == shorter.contains(item));
        if before.contains(item) && !before.contains(last) {
            let j = choose|j: int| 0 <= j < before.len() && before[j] == item;
            assert(after[j] == item);
        }
        if shorter.contains(item) {
            let j = choose|j: int| 0 <= j < shorter.len() && shorter[j] == item;
            assert(all.subrange(0, upto)[j] == item);
        }
        if item == last {
            assert(all.subrange(0, upto)[upto - 1] == item);
            if !before.contains(last) {
                assert(after[before.len() as int] == item);
            }
        }
    }
}

/// The items of a list, each kept once.
pub fn distinct<T: Item>(items: &Vec<T>) -> (kept: Vec<T>)
    ensures
        kept@.no_duplicates(),
        kept@.to_set() == items@.to_set(),
{
    let mut kept: Vec<T> = Vec::new();
    let mut i: usize = 0;
    while i < items.len()
        invariant
            i <= items@.len(),
            kept@.no_duplicates(),
            forall|item: T|
                kept@.contains(item) == #[trigger] items@.subrange(0, i as int).contains(item),
        decreases items@.len() - i,
    {
        let item: T = items[i];
        let known: bool = contains_item(&kept, item);
        let ghost before = kept@;
        if !known {
            kept.push(item);
        }
        i += 1;
        proof {
            lemma_keep_step(before, kept@, items@, i as int);
        }
    }
    assert(items@.subrange(0, i as int) =~= items@);
    assert(kept@.to_set() =~= items@.to_set());
    kept
}

/// A complete policy.  Address and port lists hold nothing twice.
pub struct PolicyConfig {
    mode: PolicyMode,
    cidrs: Vec<Cidr>,
    domains: Vec<DomainPattern>,
    dns_servers: Vec<IpAddr>,
    arp_targets: Vec<Ipv4Addr>,
    guest_ipv4_addresses: Vec<Ipv4Addr>,
    control_addresses: Vec<IpAddr>,
    published_tcp_ports: Vec<u16>,
    limits: PolicyLimits,
}

/// A policy as sets and sequences of plain values.
#[verifier::ext_equal]
pub struct ConfigView {
    pub mode: PolicyMode,
    pub cidrs: Seq<CidrView>,
    pub domains: Seq<PatternView>,
    pub dns_servers: Set<IpAddr>,
    pub arp_targets: Set<Ipv4Addr>,
    pub guest_ipv4_addresses: Set<Ipv4Addr>,
    pub control_addresses: Set<IpAddr>,
    pub published_tcp_ports: Set<u16>,
    pub limits: PolicyLimits,
}

pub open spec fn cidr_views(cidrs: Seq<Cidr>) -> Seq<CidrView> {
    cidrs.map_values(|cidr: Cidr| cidr@)
}

pub open spec fn pattern_views(domains: Seq<DomainPattern>) -> Seq<PatternView> {
    domains.map_values(|domain: DomainPattern| domain@)
}

impl View for PolicyConfig {
    type V = ConfigView;

    closed spec fn view(&self) -> ConfigView {
        ConfigView {
            mode: self.mode,
            cidrs: cidr_views(self.cidrs@),
            domains: pattern_views(self.domains@),
            dns_servers: self.dns_servers@.to_set(),
            arp_targets: self.arp_targets@.to_set(),
            guest_ipv4_addresses: self.guest_ipv4_addresses@.to_set(),
            control_addresses: self.control_addresses@.to_set(),
            published_tcp_ports: self.published_tcp_ports@.to_set(),
            limits: self.limits,
        }
    }
}

impl ConfigView {
    /// Whether some CIDR rule covers an address.
    pub open spec fn cidr_matches(self, address: IpAddr) -> bool {
        exists|i: int| 0 <= i < self.cidrs.len() && (#[trigger] self.cidrs[i]).contains(address)
    }

    /// Whether some domain rule stands for a name.
    pub open spec fn domain_matches(self, name: Seq<u8>) -> bool {
        exists|i: int| 0 <= i < self.domains.len() && (#[trigger] self.domains[i]).matches(name)
    }
}

/// Why a policy of these parts is refused, if it is.
pub open spec fn config_complaint(
    mode: PolicyMode,
    cidrs: nat,
    domains: nat,
    dns_servers: Set<IpAddr>,
    arp_targets: Set<Ipv4Addr>,
    control_addresses: Set<IpAddr>,
    limits: PolicyLimits,
) -> Option<Seq<char>> {
    if !limits.valid() {
        limits.complaint()
    } else if cidrs > MAX_CIDRS || domains > MAX_DOMAINS {
        Some("allowlist exceeds the rule bound"@)
    } else if dns_servers.len() > MAX_INFRASTRUCTURE_ADDRESSES || arp_targets.len()
        > MAX_INFRASTRUCTURE_ADDRESSES || control_addresses.len() > MAX_CONTROL_ADDRESSES {
        Some("infrastructure address list exceeds its bound"@)
    } else if mode != PolicyMode::Allowlist && (cidrs > 0 || domains > 0) {
        Some("CIDR and domain rules require allowlist mode"@)
    } else {
        None
    }
}

/// Whether a set of guest addresses is within its bound and names hosts only.
pub open spec fn guest_addresses_valid(addresses: Set<Ipv4Addr>) -> bool {
    &&& addresses.len() <= MAX_INFRASTRUCTURE_ADDRESSES
    &&& !addresses.contains(Ipv4Addr { bits: 0 })
    &&& !addresses.contains(Ipv4Addr { bits: 0xffff_ffff })
}

impl PolicyConfig {
    /// The limits are valid.
    pub closed spec fn wf(self) -> bool {
        self.limits.valid()
    }

    /// The limits of a configuration are valid.
    pub proof fn lemma_limits(self)
        requires
            self.wf(),
        ensures
            self@.limits.valid(),
    {
    }

    pub fn new(
        mode: PolicyMode,
        cidrs: Vec<Cidr>,
        domains: Vec<DomainPattern>,
        dns_servers: Vec<IpAddr>,
        arp_targets: Vec<Ipv4Addr>,
        control_addresses: Vec<IpAddr>,
        limits: PolicyLimits,
    ) -> (made: Result<PolicyConfig, PolicyConfigError>)
        ensures
            ({
                let complaint = config_complaint(
                    mode,
                    cidrs@.len(),
                    domains@.len(),
                    dns_servers@.to_set(),
                    arp_targets@.to_set(),
                    control_addresses@.to_set(),
                    limits,
                );
                match made {
                    Ok(config) => complaint is None && config.wf() && config@ == (ConfigView {
                        mode,
                        cidrs: cidr_views(cidrs@),
                        domains: pattern_views(domains@),
                        dns_servers: dns_servers@.to_set(),
                        arp_targets: arp_targets@.to_set(),
                        guest_ipv4_addresses: Set::empty(),
                        control_addresses: control_addresses@.to_set(),
                        published_tcp_ports: Set::empty(),
                        limits,
                    }),
                    Err(error) => complaint == Some(error@),
                }
            }),
    {
        match limits.validate() {
            Ok(()) => {},
            Err(error) => {
                return Err(error);
            },
        }
        let dns_servers = distinct(&dns_servers);
        let arp_targets = distinct(&arp_targets);
        let control_addresses = distinct(&control_addresses);
        proof {
            dns_servers@.unique_seq_to_set();
            arp_targets@.unique_seq_to_set();
            control_addresses@.unique_seq_to_set();
        }
        if cidrs.len() > MAX_CIDRS || domains.len() > MAX_DOMAINS {
            return Err(PolicyConfigError::new("allowlist exceeds the rule bound"));
        }
        if dns_servers.len() > MAX_INFRASTRUCTURE_ADDRESSES || arp_targets.len()
            > MAX_INFRASTRUCTURE_ADDRESSES || control_addresses.len() > MAX_CONTROL_ADDRESSES {
            return Err(PolicyConfigError::new("infrastructure address list exceeds its bound"));
        }
        if mode != PolicyMode::Allowlist && (cidrs.len() > 0 || domains.len() > 0) {
            return Err(PolicyConfigError::new("CIDR and domain rules require allowlist mode"));
        }
        let guest_ipv4_addresses: Vec<Ipv4Addr> = Vec::new();
        let published_tcp_ports: Vec<u16> = Vec::new();
        assert(guest_ipv4_addresses@.to_set() =~= Set::empty());
        assert(published_tcp_ports@.to_set() =~= Set::empty());
        Ok(
            PolicyConfig {
                mode,
                cidrs,
                domains,
                dns_servers,
                arp_targets,
                guest_ipv4_addresses,
                control_addresses,
                published_tcp_ports,
                limits,
            },
        )
    }

    /// The same policy with other published ports.
    pub fn with_published_tcp_ports(self, ports: Vec<u16>) -> (made: Result<
        PolicyConfig,
        PolicyConfigError,
    >)
        ensures
            match made {
                Ok(config) => {
                    &&& ports@.to_set().len() <= MAX_PUBLISHED_PORTS && !ports@.contains(0)
                    &&& config@ == (ConfigView { published_tcp_ports: ports@.to_set(), ..self@ })
                    &&& self.wf() ==> config.wf()
                },
                Err(error) => {
                    &&& ports@.to_set().len() > MAX_PUBLISHED_PORTS || ports@.contains(0)
                    &&& error@ == "published TCP ports exceed the safe bound or contain zero"@
                },
            },
    {
        let ports_given = ports;
        let ports = distinct(&ports_given);
        proof {
            ports@.unique_seq_to_set();
            assert(ports@.to_set().contains(0) == ports_given@.to_set().contains(0));
        }
        if ports.len() > MAX_PUBLISHED_PORTS || contains_item(&ports, 0) {
            return Err(
                PolicyConfigError::new("published TCP ports exceed the safe bound or contain zero"),
            );
        }
        let mut config = self;
        config.published_tcp_ports = ports;
        Ok(config)
    }

    /// The same policy with other guest addresses.
    pub fn with_guest_ipv4_addresses(self, addresses: Vec<Ipv4Addr>) -> (made: Result<
        PolicyConfig,
        PolicyConfigError,
    >)
        ensures
            match made {
                Ok(config) => {
                    &&& guest_addresses_valid(addresses@.to_set())
                    &&& config@ == (ConfigView {
                        guest_ipv4_addresses: addresses@.to_set(),
                        ..self@
                    })
                    &&& self.wf() ==> config.wf()
                },
                Err(error) => {
                    &&& !guest_addresses_valid(addresses@.to_set())
                    &&& error@
                        == "guest IPv4 address list exceeds its bound or contains an invalid address"@
                },
            },
    {
        let given = addresses;
        let addresses = distinct(&given);
        proof {
            addresses@.unique_seq_to_set();
            assert(forall|address: Ipv4Addr|
                addresses@.contains(address) == #[trigger] addresses@.to_set().contains(address));
        }
        if addresses.len() > MAX_INFRASTRUCTURE_ADDRESSES || contains_item(
            &addresses,
            Ipv4Addr::unspecified(),
        ) || contains_item(&addresses, Ipv4Addr::broadcast()) {
            return Err(
                PolicyConfigError::new(
                    "guest IPv4 address list exceeds its bound or contains an invalid address",
                ),
            );
        }
        let mut config = self;
        config.guest_ipv4_addresses = addresses;
        Ok(config)
    }

    pub fn mode(&self) -> (mode: PolicyMode)
        ensures
            mode == self@.mode,
    {
        self.mode
    }

    pub fn limits(&self) -> (limits: PolicyLimits)
        ensures
            limits == self@.limits,
    {
        self.limits
    }

    pub fn is_dns_server(&self, address: &IpAddr) -> (known: bool)
        ensures
            known == self@.dns_servers.contains(*address),
    {
        contains_item(&self.dns_servers, *address)
    }

    pub fn is_arp_target(&self, address: &Ipv4Addr) -> (known: bool)
        ensures
            known == self@.arp_targets.contains(*address),
    {
        contains_item(&self.arp_targets, *address)
    }

    pub fn is_guest_address(&self, address: &Ipv4Addr) -> (known: bool)
        ensures
            known == self@.guest_ipv4_addresses.contains(*address),
    {
        contains_item(&self.guest_ipv4_addresses, *address)
    }

    pub fn is_control_address(&self, address: &IpAddr) -> (known: bool)
        ensures
            known == self@.control_addresses.contains(*address),
    {
        contains_item(&self.control_addresses, *address)
    }

    pub fn is_published_port(&self, port: u16) -> (known: bool)
        ensures
            known == self@.published_tcp_ports.contains(port),
    {
        contains_item(&self.published_tcp_ports, port)
    }

    /// Whether some CIDR rule covers an address.
    pub fn cidr_matches(&self, address: IpAddr) -> (matched: bool)
        ensures
            matched == self@.cidr_matches(address),
    {
        let mut i: usize = 0;
        while i < self.cidrs.len()
            invariant
                i <= self.cidrs@.len(),
                forall|j: int|
                    0 <= j < i ==> !(#[trigger] self@.cidrs[j]).contains(address),
            decreases self.cidrs@.len() - i,
        {
            assert(self@.cidrs[i as int] == self.cidrs@[i as int]@);
            if self.cidrs[i].contains(address) {
                return true;
            }
            i += 1;
        }
        false
    }

    /// Whether some domain rule stands for a name.
    pub fn domain_matches(&self, name: &[u8]) -> (matched: bool)
        ensures
            matched == self@.domain_matches(name@),
    {
        let mut i: usize = 0;
        while i < self.domains.len()
            invariant
                i <= self.domains@.len(),
                forall|j: int|
                    0 <= j < i ==> !(#[trigger] self@.domains[j]).matches(name@),
            decreases self.domains@.len() - i,
        {
            assert(self@.domains[i as int] == self.domains@[i as int]@);
            if self.domains[i].matches_bytes(name) {
                return true;
            }
            i += 1;
        }
        false
    }
}

} // verus!
