//! The network of a virtual machine: its proxy, its policy and its published ports.

use vstd::prelude::*;
use vstd::slice::*;
use vstd::string::*;

use crate::backend::{BackendError, BackendErrorView};
use crate::bytes::append_bytes;
use crate::libkrun::NetworkArgument;
use crate::net::{IpAddr, Ipv4Addr};
use crate::paths::join_path;
use crate::policy::config::{Cidr, CidrView, ConfigView, PolicyConfig, PolicyLimits};
use crate::policy::domain::{DomainPattern, PatternView};
use crate::policy::engine::PolicyEngine;
use crate::policy::{FrameDirection, PolicyMode};
use crate::text::{decimal, from_utf8_lossy, join, join3, trim};
use crate::time::Duration;

verus! {

/// 192.168.127.1
pub const GVPROXY_GATEWAY_BITS: u32 = 0xc0a8_7f01;

/// 192.168.127.2
pub const GVPROXY_GUEST_BITS: u32 = 0xc0a8_7f02;

pub const MAX_ETHERNET_FRAME: usize = 65_535;

pub const MAX_SERVICES_RESPONSE: usize = 64 * 1024;

pub const AUTO_PORT_ATTEMPTS: usize = 8;

pub const NETWORK_PROXY_START_TIMEOUT_SECS: u64 = 5;

pub const NETWORK_PROXY_STDERR_LIMIT: usize = 16 * 1024;

/// The longest path of a Unix socket, with its terminator.
pub const SOCKET_PATH_LIMIT: usize = 104;

/// The last bytes of a byte string, no more than a limit of them.
pub open spec fn bounded_tail(bytes: Seq<u8>, limit: int) -> Seq<u8> {
    if bytes.len() <= limit {
        bytes
    } else {
        bytes.subrange(bytes.len() - limit, bytes.len() as int)
    }
}

/// Adds bytes to what is retained, and keeps the last of them within a limit.
pub fn append_bounded_tail(retained: &mut Vec<u8>, bytes: &[u8], limit: usize)
    ensures
        final(retained)@ == bounded_tail(old(retained)@ + bytes@, limit as int),
        final(retained)@.len() <= limit,
{
    let ghost before = retained@;
    let ghost all = before + bytes@;
    if bytes.len() >= limit {
        let mut kept: Vec<u8> = Vec::new();
        append_bytes(&mut kept, slice_subrange(bytes, bytes.len() - limit, bytes.len()));
        *retained = kept;
        assert(retained@ =~= bounded_tail(all, limit as int));
        return ;
    }
    let room: usize = limit - bytes.len();
    if retained.len() > room {
        let overflow: usize = retained.len() - room;
        let mut kept: Vec<u8> = Vec::new();
        append_bytes(&mut kept, slice_subrange(retained.as_slice(), overflow, retained.len()));
        *retained = kept;
    }
    append_bytes(retained, bytes);
    assert(retained@ =~= bounded_tail(all, limit as int));
}

/// Keeping the tail piece by piece keeps the tail of the whole.
pub proof fn law_tail_of_pieces(first: Seq<u8>, second: Seq<u8>, limit: int)
    requires
        limit >= 0,
    ensures
        bounded_tail(bounded_tail(first, limit) + second, limit) == bounded_tail(
            first + second,
            limit,
        ),
        bounded_tail(first, limit).len() <= limit,
{
    assert(bounded_tail(bounded_tail(first, limit) + second, limit) =~= bounded_tail(
        first + second,
        limit,
    ));
}

/// What a proxy wrote to its standard error, as the end of a message.
pub open spec fn diagnostics_text(stderr: Seq<u8>) -> Seq<char> {
    if stderr.len() == 0 {
        Seq::empty()
    } else {
        "; stderr (last "@ + crate::text::decimal_text(stderr.len()) + (" bytes): "@
            + crate::text::trim_of(crate::text::lossy_text(stderr)))
    }
}

/// Puts what was written to standard error into words.
pub fn stderr_diagnostics(stderr: &[u8]) -> (text: String)
    ensures
        text@ == diagnostics_text(stderr@),
{
    if stderr.len() == 0 {
        return String::new();
    }
    let written = from_utf8_lossy(stderr);
    join3(
        "; stderr (last ",
        decimal(stderr.len() as u64).as_str(),
        join(" bytes): ", trim(written.as_str()).as_str()).as_str(),
    )
}

/// The address of a Unix socket under a scheme; refused for a path that is relative or too long.
pub open spec fn socket_uri(path: Seq<char>, length: nat, scheme: Seq<char>) -> Result<
    Seq<char>,
    BackendErrorView,
> {
    if path.len() == 0 || path[0] != '/' {
        Err(BackendErrorView::Control("gvproxy socket path must be absolute"@))
    } else if length >= SOCKET_PATH_LIMIT {
        Err(
            BackendErrorView::Control(
                "gvproxy socket path exceeds the Unix limit: "@ + crate::text::decimal_text(length)
                    + " bytes"@,
            ),
        )
    } else {
        Ok(scheme + "://"@ + path)
    }
}

pub fn unix_socket_uri_with_scheme(path: &str, scheme: &str) -> (uri: Result<String, BackendError>)
    ensures
        match uri {
            Ok(text) => socket_uri(path@, path.spec_bytes().len(), scheme@) == Ok::<
                Seq<char>,
                BackendErrorView,
            >(text@),
            Err(error) => socket_uri(path@, path.spec_bytes().len(), scheme@) == Err::<
                Seq<char>,
                BackendErrorView,
            >(error@),
        },
{
    if path.unicode_len() == 0 || path.get_char(0) != '/' {
        return Err(BackendError::Control("gvproxy socket path must be absolute".to_owned()));
    }
    let length: usize = path.as_bytes().len();
    if length >= SOCKET_PATH_LIMIT {
        return Err(
            BackendError::Control(
                join3(
                    "gvproxy socket path exceeds the Unix limit: ",
                    decimal(length as u64).as_str(),
                    " bytes",
                ),
            ),
        );
    }
    Ok(join3(scheme, "://", path))
}

/// The address of the proxy's datagram socket.
pub fn vfkit_socket_uri(path: &str) -> (uri: Result<String, BackendError>)
    ensures
        match uri {
            Ok(text) => socket_uri(path@, path.spec_bytes().len(), "unixgram"@) == Ok::<
                Seq<char>,
                BackendErrorView,
            >(text@),
            Err(error) => socket_uri(path@, path.spec_bytes().len(), "unixgram"@) == Err::<
                Seq<char>,
                BackendErrorView,
            >(error@),
        },
{
    unix_socket_uri_with_scheme(path, "unixgram")
}

/// The address of the proxy's service socket.
pub fn unix_socket_uri(path: &str) -> (uri: Result<String, BackendError>)
    ensures
        match uri {
            Ok(text) => socket_uri(path@, path.spec_bytes().len(), "unix"@) == Ok::<
                Seq<char>,
                BackendErrorView,
            >(text@),
            Err(error) => socket_uri(path@, path.spec_bytes().len(), "unix"@) == Err::<
                Seq<char>,
                BackendErrorView,
            >(error@),
        },
{
    unix_socket_uri_with_scheme(path, "unix")
}

/// The arguments of the proxy: its datagram socket, and its service socket where there is one.
pub open spec fn proxy_arguments(
    upstream: Seq<char>,
    upstream_length: nat,
    services: Option<(Seq<char>, nat)>,
) -> Result<Seq<Seq<char>>, BackendErrorView> {
    match socket_uri(upstream, upstream_length, "unixgram"@) {
        Err(error) => Err(error),
        Ok(uri) => match services {
            None => Ok(seq!["--listen-vfkit"@, uri]),
            Some((path, length)) => match socket_uri(path, length, "unix"@) {
                Err(error) => Err(error),
                Ok(services_uri) => Ok(
                    seq!["--listen-vfkit"@, uri, "--services"@, services_uri],
                ),
            },
        },
    }
}

pub open spec fn path_and_length(path: Option<&str>) -> Option<(Seq<char>, nat)> {
    match path {
        Some(text) => Some((text@, text.spec_bytes().len())),
        None => None,
    }
}

/// Makes the proxy's arguments.
pub fn gvproxy_arguments(upstream: &str, services: Option<&str>) -> (arguments: Result<
    Vec<String>,
    BackendError,
>)
    ensures
        ({
            let expected = proxy_arguments(
                upstream@,
                upstream.spec_bytes().len(),
                path_and_length(services),
            );
            match arguments {
                Ok(list) => expected == Ok::<Seq<Seq<char>>, BackendErrorView>(crate::text::strings(list@)),
                Err(error) => expected == Err::<Seq<Seq<char>>, BackendErrorView>(error@),
            }
        }),
{
    let uri = match vfkit_socket_uri(upstream) {
        Ok(uri) => uri,
        Err(error) => {
            return Err(error);
        },
    };
    let mut list: Vec<String> = Vec::new();
    let ghost first = uri@;
    list.push("--listen-vfkit".to_owned());
    list.push(uri);
    match services {
        None => {
            assert(crate::text::strings(list@) =~= seq!["--listen-vfkit"@, first]);
        },
        Some(path) => {
            let services_uri = match unix_socket_uri(path) {
                Ok(uri) => uri,
                Err(error) => {
                    return Err(error);
                },
            };
            let ghost second = services_uri@;
            list.push("--services".to_owned());
            list.push(services_uri);
            assert(crate::text::strings(list@) =~= seq!["--listen-vfkit"@, first, "--services"@, second]);
        },
    }
    Ok(list)
}

/// What is seen of a proxy that is starting.
pub struct ProxyPoll {
    /// Its exit status in words, where it has exited.
    pub exited: Option<String>,
    /// What is wrong with its endpoints, where they cannot be reached.
    pub unreachable: Option<String>,
    pub elapsed: Duration,
}

#[derive(Debug, Clone, Copy, PartialEq, Eq, Structural)]
pub enum ProxyVerdict {
    Ready,
    Exited,
    TooSlow,
    PollAgain,
}

pub open spec fn proxy_verdict(exited: bool, unreachable: bool, elapsed: int) -> ProxyVerdict {
    if exited {
        ProxyVerdict::Exited
    } else if !unreachable {
        ProxyVerdict::Ready
    } else if elapsed >= NETWORK_PROXY_START_TIMEOUT_SECS * crate::time::NANOS_PER_SEC {
        ProxyVerdict::TooSlow
    } else {
        ProxyVerdict::PollAgain
    }
}

impl ProxyPoll {
    /// Whether the proxy is ready, has failed, or is to be looked at again.
    pub fn verdict(&self) -> (verdict: ProxyVerdict)
        ensures
            verdict == proxy_verdict(self.exited is Some, self.unreachable is Some, self.elapsed@),
    {
        if self.exited.is_some() {
            return ProxyVerdict::Exited;
        }
        if self.unreachable.is_none() {
            return ProxyVerdict::Ready;
        }
        let limit = Duration::from_secs(NETWORK_PROXY_START_TIMEOUT_SECS);
        if limit.exceeds(&self.elapsed) {
            ProxyVerdict::PollAgain
        } else {
            ProxyVerdict::TooSlow
        }
    }
}

/// How a failed cleanup ends a message.
pub open spec fn cleanup_suffix(cleanup: Option<Seq<char>>) -> Seq<char> {
    match cleanup {
        Some(error) => "; cleanup failed: "@ + error,
        None => Seq::empty(),
    }
}

fn with_cleanup(message: String, cleanup: &Option<String>) -> (text: String)
    ensures
        text@ == message@ + cleanup_suffix(crate::text::text_of(*cleanup)),
{
    let ghost before = message@;
    match cleanup {
        Some(error) => {
            let suffix = join("; cleanup failed: ", error.as_str());
            join(message.as_str(), suffix.as_str())
        },
        None => {
            assert(before + Seq::empty() =~= before);
            message
        },
    }
}

/// Why the start of a network failed.
#[derive(Debug)]
pub enum StartFailure {
    /// The proxy exited with the given status.
    ProxyExited { status: String, stderr: Vec<u8> },
    /// The proxy's endpoints could not be reached in time; the last error in words.
    ProxyTooSlow { error: String, stderr: Vec<u8> },
    Relay(String),
    Publish(String),
}

pub open spec fn start_failure_text(failure: StartFailure, cleanup: Option<Seq<char>>) -> Seq<char> {
    (match failure {
        StartFailure::ProxyExited { status, stderr } => {
            "gvproxy exited before its vfkit endpoint was ready: "@ + status@ + diagnostics_text(
                stderr@,
            )
        },
        StartFailure::ProxyTooSlow { error, stderr } => {
            "gvproxy vfkit endpoint was not connectable within 5 seconds; last socket error: "@
                + error@ + diagnostics_text(stderr@)
        },
        StartFailure::Relay(error) => "failed to start network policy relay: "@ + error@,
        StartFailure::Publish(error) => "failed to publish preview port: "@ + error@,
    }) + cleanup_suffix(cleanup)
}

/// The error of a failed start, with what became of the cleanup behind it.
pub fn start_error(failure: StartFailure, cleanup: Option<String>) -> (error: BackendError)
    ensures
        error@ == BackendErrorView::Control(
            start_failure_text(failure, crate::text::text_of(cleanup)),
        ),
{
    let message = match failure {
        StartFailure::ProxyExited { status, stderr } => join3(
            "gvproxy exited before its vfkit endpoint was ready: ",
            status.as_str(),
            stderr_diagnostics(stderr.as_slice()).as_str(),
        ),
        StartFailure::ProxyTooSlow { error, stderr } => join3(
            "gvproxy vfkit endpoint was not connectable within 5 seconds; last socket error: ",
            error.as_str(),
            stderr_diagnostics(stderr.as_slice()).as_str(),
        ),
        StartFailure::Relay(error) => join("failed to start network policy relay: ", error.as_str()),
        StartFailure::Publish(error) => join("failed to publish preview port: ", error.as_str()),
    };
    BackendError::Control(with_cleanup(message, &cleanup))
}

/// Where the start of a network stands.
#[derive(Debug, Clone, Copy, PartialEq, Eq, Structural)]
pub enum StartPhase {
    Polling,
    StartingRelay,
    Publishing,
    Ready,
    Failed,
}

/// The start of a network: the proxy first, then the relay where there is a policy, then the
/// published ports where there are any.
#[derive(Debug, Clone, Copy, PartialEq, Eq, Structural)]
pub struct NetworkStart {
    pub phase: StartPhase,
    pub has_policy: bool,
    pub publishes: bool,
}

#[derive(Debug, Clone, Copy, PartialEq, Eq, Structural)]
pub enum StartEvent {
    Polled(ProxyVerdict),
    RelayStarted,
    RelayFailed,
    Published,
    PublishFailed,
}

impl NetworkStart {
    pub open spec fn after_proxy(self) -> StartPhase {
        if self.has_policy {
            StartPhase::StartingRelay
        } else {
            self.after_relay()
        }
    }

    pub open spec fn after_relay(self) -> StartPhase {
        if self.publishes {
            StartPhase::Publishing
        } else {
            StartPhase::Ready
        }
    }

    pub open spec fn after(self, event: StartEvent) -> NetworkStart {
        NetworkStart {
            phase: match (self.phase, event) {
                (StartPhase::Polling, StartEvent::Polled(ProxyVerdict::Ready)) => {
                    self.after_proxy()
                },
                (StartPhase::Polling, StartEvent::Polled(ProxyVerdict::PollAgain)) => {
                    StartPhase::Polling
                },
                (StartPhase::StartingRelay, StartEvent::RelayStarted) => self.after_relay(),
                (StartPhase::Publishing, StartEvent::Published) => StartPhase::Ready,
                (StartPhase::Ready, _) => StartPhase::Ready,
                _ => StartPhase::Failed,
            },
            ..self
        }
    }

    pub fn new(has_policy: bool, publishes: bool) -> (start: NetworkStart)
        ensures
            start == (NetworkStart { phase: StartPhase::Polling, has_policy, publishes }),
    {
        NetworkStart { phase: StartPhase::Polling, has_policy, publishes }
    }

    /// Takes an event; the new phase says what is to be done next.
    pub fn step(&mut self, event: StartEvent)
        ensures
            *final(self) == old(self).after(event),
    {
        let relayed: StartPhase = if self.publishes {
            StartPhase::Publishing
        } else {
            StartPhase::Ready
        };
        self.phase =
        match (self.phase, event) {
            (StartPhase::Polling, StartEvent::Polled(ProxyVerdict::Ready)) => {
                if self.has_policy {
                    StartPhase::StartingRelay
                } else {
                    relayed
                }
            },
            (StartPhase::Polling, StartEvent::Polled(ProxyVerdict::PollAgain)) => {
                StartPhase::Polling
            },
            (StartPhase::StartingRelay, StartEvent::RelayStarted) => relayed,
            (StartPhase::Publishing, StartEvent::Published) => StartPhase::Ready,
            (StartPhase::Ready, _) => StartPhase::Ready,
            _ => StartPhase::Failed,
        };
    }
}

/// A network with a policy is not ready before its relay runs.
pub proof fn law_policy_needs_relay(start: NetworkStart, event: StartEvent)
    requires
        start.has_policy,
        start.phase == StartPhase::Polling,
    ensures
        start.after(event).phase != StartPhase::Ready,
        start.after(event).phase != StartPhase::Publishing,
{
}

#[derive(Debug, Clone, Copy, PartialEq, Eq, Structural)]
pub enum NetworkMode {
    Disabled,
    Unrestricted,
    Allowlist,
}

/// What a run allows, in words.
#[derive(Debug)]
pub struct NetworkPolicy {
    pub allow_cidrs: Vec<String>,
    pub allow_domains: Vec<String>,
}

pub open spec fn byte_texts(texts: Seq<String>) -> Seq<(Seq<char>, Seq<u8>)> {
    texts.map_values(|text: String| (text@, vstd::utf8::encode_utf8(text@)))
}

/// The blocks that the first `upto` texts spell, or the error of the first that spells none.
pub open spec fn cidrs_of(texts: Seq<(Seq<char>, Seq<u8>)>, upto: nat) -> Result<
    Seq<CidrView>,
    Seq<char>,
>
    decreases upto,
{
    if upto == 0 {
        Ok(Seq::empty())
    } else {
        match cidrs_of(texts, (upto - 1) as nat) {
            Err(error) => Err(error),
            Ok(earlier) => match crate::policy::config::cidr_of(texts[upto - 1].1) {
                Ok(cidr) => Ok(earlier.push(cidr)),
                Err(error) => Err(
                    "invalid network CIDR "@ + texts[upto - 1].0 + (": "@ + error),
                ),
            },
        }
    }
}

/// The message for a text that is no pattern.
pub open spec fn pattern_complaint(text: Seq<u8>) -> Seq<char> {
    if text.len() > 0 && text[0] == 42 && !crate::policy::domain::has_wildcard(text) {
        "wildcard must be the complete first label"@
    } else {
        "invalid domain pattern"@
    }
}

/// The patterns that the first `upto` texts spell, or the error of the first that spells none.
pub open spec fn patterns_of(texts: Seq<(Seq<char>, Seq<u8>)>, upto: nat) -> Result<
    Seq<PatternView>,
    Seq<char>,
>
    decreases upto,
{
    if upto == 0 {
        Ok(Seq::empty())
    } else {
        match patterns_of(texts, (upto - 1) as nat) {
            Err(error) => Err(error),
            Ok(earlier) => match crate::policy::domain::pattern_of(texts[upto - 1].1) {
                Some(pattern) => Ok(earlier.push(pattern)),
                None => Err(
                    "invalid network domain pattern "@ + texts[upto - 1].0 + (": "@
                        + pattern_complaint(texts[upto - 1].1)),
                ),
            },
        }
    }
}

proof fn lemma_cidr_error_stays(texts: Seq<(Seq<char>, Seq<u8>)>, upto: nat, total: nat)
    requires
        upto <= total,
        cidrs_of(texts, upto) is Err,
    ensures
        cidrs_of(texts, total) == cidrs_of(texts, upto),
    decreases total,
{
    if upto < total {
        lemma_cidr_error_stays(texts, upto, (total - 1) as nat);
    }
}

proof fn lemma_pattern_error_stays(texts: Seq<(Seq<char>, Seq<u8>)>, upto: nat, total: nat)
    requires
        upto <= total,
        patterns_of(texts, upto) is Err,
    ensures
        patterns_of(texts, total) == patterns_of(texts, upto),
    decreases total,
{
    if upto < total {
        lemma_pattern_error_stays(texts, upto, (total - 1) as nat);
    }
}

fn parse_cidrs(texts: &Vec<String>) -> (parsed: Result<Vec<Cidr>, BackendError>)
    ensures
        match parsed {
            Ok(cidrs) => cidrs_of(byte_texts(texts@), texts@.len()) == Ok::<
                Seq<CidrView>,
                Seq<char>,
            >(crate::policy::config::cidr_views(cidrs@)),
            Err(error) => cidrs_of(byte_texts(texts@), texts@.len()) is Err && error@
                == BackendErrorView::Control(cidrs_of(byte_texts(texts@), texts@.len())->Err_0),
        },
{
    let ghost views = byte_texts(texts@);
    let mut cidrs: Vec<Cidr> = Vec::new();
    let mut i: usize = 0;
    assert(crate::policy::config::cidr_views(cidrs@) =~= Seq::empty());
    while i < texts.len()
        invariant
            i <= texts@.len(),
            views == byte_texts(texts@),
            cidrs_of(views, i as nat) == Ok::<Seq<CidrView>, Seq<char>>(
                crate::policy::config::cidr_views(cidrs@),
            ),
        decreases texts@.len() - i,
    {
        let ghost before = cidrs@;
        assert(views[i as int] == (texts@[i as int]@, vstd::utf8::encode_utf8(
            texts@[i as int]@,
        )));
        match Cidr::parse_text(texts[i].as_str()) {
            Ok(cidr) => {
                cidrs.push(cidr);
                assert(crate::policy::config::cidr_views(cidrs@)
                    =~= crate::policy::config::cidr_views(before).push(cidr@));
            },
            Err(error) => {
                proof {
                    lemma_cidr_error_stays(views, (i + 1) as nat, texts@.len());
                }
                return Err(
                    BackendError::Control(
                        join3(
                            "invalid network CIDR ",
                            texts[i].as_str(),
                            join(": ", error.text()).as_str(),
                        ),
                    ),
                );
            },
        }
        i += 1;
    }
    Ok(cidrs)
}

fn parse_patterns(texts: &Vec<String>) -> (parsed: Result<Vec<DomainPattern>, BackendError>)
    ensures
        match parsed {
            Ok(patterns) => patterns_of(byte_texts(texts@), texts@.len()) == Ok::<
                Seq<PatternView>,
                Seq<char>,
            >(crate::policy::config::pattern_views(patterns@)),
            Err(error) => patterns_of(byte_texts(texts@), texts@.len()) is Err && error@
                == BackendErrorView::Control(patterns_of(byte_texts(texts@), texts@.len())->Err_0),
        },
{
    let ghost views = byte_texts(texts@);
    let mut patterns: Vec<DomainPattern> = Vec::new();
    let mut i: usize = 0;
    assert(crate::policy::config::pattern_views(patterns@) =~= Seq::empty());
    while i < texts.len()
        invariant
            i <= texts@.len(),
            views == byte_texts(texts@),
            patterns_of(views, i as nat) == Ok::<Seq<PatternView>, Seq<char>>(
                crate::policy::config::pattern_views(patterns@),
            ),
        decreases texts@.len() - i,
    {
        let ghost before = patterns@;
        assert(views[i as int] == (texts@[i as int]@, vstd::utf8::encode_utf8(
            texts@[i as int]@,
        )));
        match DomainPattern::parse_text(texts[i].as_str()) {
            Ok(pattern) => {
                let ghost added = pattern@;
                patterns.push(pattern);
                assert(crate::policy::config::pattern_views(patterns@)
                    =~= crate::policy::config::pattern_views(before).push(added));
            },
            Err(error) => {
                proof {
                    lemma_pattern_error_stays(views, (i + 1) as nat, texts@.len());
                }
                return Err(
                    BackendError::Control(
                        join3(
                            "invalid network domain pattern ",
                            texts[i].as_str(),
                            join(": ", error.text()).as_str(),
                        ),
                    ),
                );
            },
        }
        i += 1;
    }
    Ok(patterns)
}

pub open spec fn gateway() -> Ipv4Addr {
    Ipv4Addr { bits: GVPROXY_GATEWAY_BITS }
}

pub open spec fn guest() -> Ipv4Addr {
    Ipv4Addr { bits: GVPROXY_GUEST_BITS }
}

/// The complaint about a policy of these rules and ports behind the gateway, if there is one.
pub open spec fn gateway_complaint(cidrs: nat, domains: nat, ports: Set<u16>) -> Option<Seq<char>> {
    if cidrs > crate::policy::config::MAX_CIDRS || domains > crate::policy::config::MAX_DOMAINS {
        Some("allowlist exceeds the rule bound"@)
    } else if ports.len() > crate::policy::config::MAX_PUBLISHED_PORTS || ports.contains(0) {
        Some("published TCP ports exceed the safe bound or contain zero"@)
    } else {
        None
    }
}

/// Whether a policy is the one of these rules and ports behind the gateway, which is the only DNS
/// server, the only ARP target and a control address, with the default limits.
pub open spec fn is_gateway_policy(
    config: ConfigView,
    cidrs: Seq<CidrView>,
    domains: Seq<PatternView>,
    ports: Set<u16>,
) -> bool {
    &&& config.mode == PolicyMode::Allowlist
    &&& config.cidrs == cidrs
    &&& config.domains == domains
    &&& config.dns_servers == Set::empty().insert(IpAddr::V4(gateway()))
    &&& config.arp_targets == Set::empty().insert(gateway())
    &&& config.guest_ipv4_addresses == Set::empty().insert(guest())
    &&& config.control_addresses == Set::empty().insert(IpAddr::V4(gateway()))
    &&& config.published_tcp_ports == ports
    &&& config.limits.max_flows == 1024
    &&& config.limits.max_pending_dns == 256
    &&& config.limits.max_dns_bindings == 1024
    &&& config.limits.max_tls_buffer_per_flow == 16 * 1024
    &&& config.limits.max_total_tls_bytes == 1024 * 1024
    &&& config.limits.flow_ttl@ == 300 * crate::time::NANOS_PER_SEC
    &&& config.limits.pending_tls_ttl@ == 30 * crate::time::NANOS_PER_SEC
    &&& config.limits.dns_query_ttl@ == 10 * crate::time::NANOS_PER_SEC
    &&& config.limits.max_dns_ttl@ == 3600 * crate::time::NANOS_PER_SEC
}

/// The policy that a run's relay applies: none where the network is off or unrestricted.
pub fn policy_config_for_spec(
    mode: NetworkMode,
    policy: Option<NetworkPolicy>,
    guest_ports: Vec<u16>,
) -> (made: Result<Option<PolicyConfig>, BackendError>)
    ensures
        match made {
            Ok(None) => mode != NetworkMode::Allowlist,
            Ok(Some(config)) => {
                &&& mode == NetworkMode::Allowlist && policy is Some
                &&& config.wf()
                &&& ({
                    let cidrs = cidrs_of(
                        byte_texts(policy->0.allow_cidrs@),
                        policy->0.allow_cidrs@.len(),
                    );
                    let domains = patterns_of(
                        byte_texts(policy->0.allow_domains@),
                        policy->0.allow_domains@.len(),
                    );
                    &&& cidrs is Ok && domains is Ok
                    &&& gateway_complaint(
                        policy->0.allow_cidrs@.len(),
                        policy->0.allow_domains@.len(),
                        guest_ports@.to_set(),
                    ) is None
                    &&& is_gateway_policy(
                        config@,
                        cidrs->Ok_0,
                        domains->Ok_0,
                        guest_ports@.to_set(),
                    )
                })
            },
            Err(error) => {
                &&& mode == NetworkMode::Allowlist
                &&& match policy {
                    None => error@ == BackendErrorView::Control(
                        "allowlist mode requires a typed network policy"@,
                    ),
                    Some(rules) => {
                        let cidrs = cidrs_of(byte_texts(rules.allow_cidrs@), rules.allow_cidrs@.len());
                        let domains = patterns_of(
                            byte_texts(rules.allow_domains@),
                            rules.allow_domains@.len(),
                        );
                        match (cidrs, domains) {
                            (Err(text), _) => error@ == BackendErrorView::Control(text),
                            (_, Err(text)) => error@ == BackendErrorView::Control(text),
                            _ => {
                                let complaint = gateway_complaint(
                                    rules.allow_cidrs@.len(),
                                    rules.allow_domains@.len(),
                                    guest_ports@.to_set(),
                                );
                                complaint is Some && error@ == BackendErrorView::Control(
                                    "invalid network policy: "@ + complaint->0,
                                )
                            },
                        }
                    },
                }
            },
        },
{
    if mode != NetworkMode::Allowlist {
        return Ok(None);
    }
    let policy = match policy {
        Some(policy) => policy,
        None => {
            return Err(
                BackendError::Control(
                    "allowlist mode requires a typed network policy".to_owned(),
                ),
            );
        },
    };
    let cidrs = match parse_cidrs(&policy.allow_cidrs) {
        Ok(cidrs) => cidrs,
        Err(error) => {
            return Err(error);
        },
    };
    let domains = match parse_patterns(&policy.allow_domains) {
        Ok(domains) => domains,
        Err(error) => {
            return Err(error);
        },
    };
    proof {
        lemma_cidr_count(byte_texts(policy.allow_cidrs@), policy.allow_cidrs@.len());
        lemma_pattern_count(byte_texts(policy.allow_domains@), policy.allow_domains@.len());
        assert(crate::policy::config::cidr_views(cidrs@).len() == cidrs@.len());
        assert(crate::policy::config::pattern_views(domains@).len() == domains@.len());
    }
    let gateway_address = Ipv4Addr { bits: GVPROXY_GATEWAY_BITS };
    let guest_address = Ipv4Addr { bits: GVPROXY_GUEST_BITS };
    let servers: Vec<IpAddr> = vec![IpAddr::V4(gateway_address)];
    let targets: Vec<Ipv4Addr> = vec![gateway_address];
    let control: Vec<IpAddr> = vec![IpAddr::V4(gateway_address)];
    let guests: Vec<Ipv4Addr> = vec![guest_address];
    proof {
        lemma_single(servers@, IpAddr::V4(gateway()));
        lemma_single(targets@, gateway());
        lemma_single(control@, IpAddr::V4(gateway()));
        lemma_single(guests@, guest());
    }
    let limits = PolicyLimits::default();
    let ghost port_set = guest_ports@.to_set();
    proof {
        assert(port_set.contains(0) == guest_ports@.contains(0));
    }
    let base = PolicyConfig::new(
        PolicyMode::Allowlist,
        cidrs,
        domains,
        servers,
        targets,
        control,
        limits,
    );
    let config = match base {
        Ok(config) => config,
        Err(error) => {
            return Err(
                BackendError::Control(join("invalid network policy: ", error.text())),
            );
        },
    };
    let config = match config.with_guest_ipv4_addresses(guests) {
        Ok(config) => config,
        Err(error) => {
            return Err(
                BackendError::Control(join("invalid network policy: ", error.text())),
            );
        },
    };
    match config.with_published_tcp_ports(guest_ports) {
        Ok(config) => Ok(Some(config)),
        Err(error) => Err(BackendError::Control(join("invalid network policy: ", error.text()))),
    }
}

proof fn lemma_single<T>(items: Seq<T>, item: T)
    requires
        items.len() == 1,
        items[0] == item,
    ensures
        items.to_set() == Set::empty().insert(item),
        items.to_set().len() == 1,
{
    assert(items.to_set() =~= Set::empty().insert(item));
}

proof fn lemma_cidr_count(texts: Seq<(Seq<char>, Seq<u8>)>, upto: nat)
    ensures
        cidrs_of(texts, upto) matches Ok(cidrs) ==> cidrs.len() == upto,
    decreases upto,
{
    if upto > 0 {
        lemma_cidr_count(texts, (upto - 1) as nat);
    }
}

proof fn lemma_pattern_count(texts: Seq<(Seq<char>, Seq<u8>)>, upto: nat)
    ensures
        patterns_of(texts, upto) matches Ok(patterns) ==> patterns.len() == upto,
    decreases upto,
{
    if upto > 0 {
        lemma_pattern_count(texts, (upto - 1) as nat);
    }
}

/// Whether a frame goes on to the other side: only one that the policy lets through does.
pub fn relay_frame(
    engine: &mut PolicyEngine,
    direction: FrameDirection,
    frame: &[u8],
    now: Duration,
) -> (forwarded: bool)
    requires
        old(engine).wf(),
    ensures
        final(engine).wf(),
        final(engine).policy() == old(engine).policy(),
        final(engine)@ == crate::policy::model::step(
            old(engine).policy(),
            old(engine)@,
            direction,
            frame@,
            now@,
        ).state,
        forwarded == (crate::policy::model::step(
            old(engine).policy(),
            old(engine)@,
            direction,
            frame@,
            now@,
        ).decision is Allow),
{
    engine.evaluate_ethernet(direction, frame, now).is_allowed()
}

/// How the relay of a network ended.
#[derive(Debug)]
pub enum RelayEnd {
    Done,
    /// The proxy's endpoint is gone, which it may be as soon as the machine is.
    EndpointGone,
    Failed(String),
}

/// What taking down a network came to: the relay's failure first, then the proxy's, then that of
/// what was kept on disk.
pub open spec fn cleanup_error(
    relay: RelayEnd,
    child: Option<Seq<char>>,
    state: Option<Seq<char>>,
) -> Option<Seq<char>> {
    match (relay, child) {
        (RelayEnd::Failed(error), _) => Some(error@),
        (_, Some(error)) => Some(error),
        (_, None) => state,
    }
}

/// What taking down a network came to.
pub fn cleanup_network_proxy(relay: RelayEnd, child: Option<String>, state: Option<String>) -> (
error: Option<String>)
    ensures
        crate::text::text_of(error) == cleanup_error(
            relay,
            crate::text::text_of(child),
            crate::text::text_of(state),
        ),
{
    match relay {
        RelayEnd::Failed(error) => Some(error),
        RelayEnd::Done | RelayEnd::EndpointGone => match child {
            Some(error) => Some(error),
            None => state,
        },
    }
}

/// How the helper is given a network.
pub open spec fn network_argument_of(
    relay_socket: Option<u32>,
    proxy_socket: Option<String>,
) -> NetworkArgument {
    match (relay_socket, proxy_socket) {
        (Some(number), _) => NetworkArgument::Descriptor(number),
        (None, Some(path)) => NetworkArgument::Socket(path),
        (None, None) => NetworkArgument::Absent,
    }
}

/// How the helper is given a network: the relay's socket where there is one, and else the proxy's.
pub fn helper_network_argument(relay_socket: Option<u32>, proxy_socket: Option<String>) -> (argument:
    NetworkArgument)
    ensures
        argument == network_argument_of(relay_socket, proxy_socket),
        argument == (match (relay_socket, proxy_socket) {
            (Some(number), _) => NetworkArgument::Descriptor(number),
            (None, Some(path)) => NetworkArgument::Socket(path),
            (None, None) => NetworkArgument::Absent,
        }),
{
    match relay_socket {
        Some(number) => NetworkArgument::Descriptor(number),
        None => match proxy_socket {
            Some(path) => NetworkArgument::Socket(path),
            None => NetworkArgument::Absent,
        },
    }
}

/// The socket of a proxy in a directory of its own, if it can have one there.
pub fn proxy_socket_in(directory: &str) -> (socket: Result<String, BackendError>)
    ensures
        ({
            let path = crate::paths::join_of(directory@, "gvproxy.sock"@);
            let uri = socket_uri(path, vstd::utf8::encode_utf8(path).len(), "unixgram"@);
            match socket {
                Ok(found) => uri is Ok && found@ == path,
                Err(error) => uri == Err::<Seq<char>, BackendErrorView>(error@),
            }
        }),
{
    let path = join_path(directory, "gvproxy.sock");
    match vfkit_socket_uri(path.as_str()) {
        Ok(_) => Ok(path),
        Err(error) => Err(error),
    }
}

} // verus!
