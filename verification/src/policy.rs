//! Fail-closed Ethernet egress policy for the native network relay.
//!
//! This module deliberately owns no sockets.  A relay supplies complete Ethernet frames, their
//! direction, and a monotonic timestamp.  The engine returns a decision and retains only bounded
//! DNS, flow, and TLS `ClientHello` state.

pub mod bounds;
pub mod config;
pub mod decisions;
pub mod dns;
pub mod domain;
pub mod engine;
pub mod frames;
pub mod hello;
pub mod laws;
pub mod model;
pub mod names;
pub mod packet;
pub mod refusals;
pub mod tls;

use vstd::prelude::*;

verus! {

#[derive(Debug, Clone, Copy, PartialEq, Eq, Structural)]
pub enum PolicyMode {
    Disabled,
    Unrestricted,
    Allowlist,
}

#[derive(Debug, Clone, Copy, PartialEq, Eq, Structural)]
pub enum FrameDirection {
    GuestToNetwork,
    NetworkToGuest,
}

#[derive(Debug, Clone, Copy, PartialEq, Eq, Structural)]
pub enum AllowReason {
    ArpInfrastructure,
    DhcpInfrastructure,
    DnsInfrastructure,
    Unrestricted,
    Cidr,
    DomainHandshake,
    DomainSni,
    Preview,
    ReverseFlow,
}

#[derive(Debug, Clone, Copy, PartialEq, Eq, Structural)]
pub enum DenyReason {
    Disabled,
    Malformed,
    UnsupportedEtherType,
    Fragment,
    UnsupportedProtocol,
    Infrastructure,
    ControlEndpoint,
    NotAllowlisted,
    DomainRequiresTcpTls,
    TlsInvalid,
    TlsNoSni,
    TlsEch,
    TlsSniMismatch,
    OutOfOrder,
    StateLimit,
    NoReverseFlow,
}

#[derive(Debug, Clone, Copy, PartialEq, Eq, Structural)]
pub enum HoldReason {
    TlsClientHello,
}

#[derive(Debug, Clone, Copy, PartialEq, Eq, Structural)]
pub enum PolicyDecision {
    Allow(AllowReason),
    /// The relay must not write this frame to the network.  It may discard it and rely on TCP
    /// retransmission after a later frame yields `Allow(AllowReason::DomainSni)`; any retained
    /// frames must instead be bounded per flow and released only for that verified flow.
    Hold(HoldReason),
    Deny(DenyReason),
}

/// Why a policy configuration was refused.
#[derive(Debug, Clone, PartialEq, Eq)]
pub struct PolicyConfigError {
    pub message: String,
}

impl View for PolicyConfigError {
    type V = Seq<char>;

    open spec fn view(&self) -> Seq<char> {
        self.message@
    }
}

impl PolicyConfigError {
    pub fn new(message: &str) -> (error: PolicyConfigError)
        ensures
            error@ == message@,
    {
        PolicyConfigError { message: message.to_owned() }
    }

    /// The message to show.
    pub fn text(&self) -> (message: &str)
        ensures
            message@ == self@,
    {
        self.message.as_str()
    }
}

impl PolicyDecision {
    pub fn is_allowed(self) -> (allowed: bool)
        ensures
            allowed == (self is Allow),
    {
        matches!(self, PolicyDecision::Allow(_))
    }

    pub fn is_held(self) -> (held: bool)
        ensures
            held == (self is Hold),
    {
        matches!(self, PolicyDecision::Hold(_))
    }
}

} // verus!
