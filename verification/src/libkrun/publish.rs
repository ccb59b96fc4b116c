//! Publishing guest ports on the host, through the proxy's service socket.

use vstd::prelude::*;
use vstd::string::*;

use crate::libkrun::network::{AUTO_PORT_ATTEMPTS, MAX_SERVICES_RESPONSE};
use crate::net::IpAddr;
use crate::text::{
    copy_after_blank_line, copy_first_line, decimal, find_second_word, from_utf8_lossy, join,
    join3, read_u16, trim,
};

verus! {

#[derive(Debug, Clone, Copy, PartialEq, Eq, Structural)]
pub enum PublishProtocol {
    Tcp,
}

/// A guest port that is to be reached on the host; a host port of zero stands for any.
#[derive(Debug, Clone, Copy, PartialEq, Eq, Structural)]
pub struct PublishRequest {
    pub protocol: PublishProtocol,
    pub host_address: IpAddr,
    pub host_port: u16,
    pub guest_port: u16,
}

impl PublishRequest {
    pub open spec fn at_port(self, port: u16) -> PublishRequest {
        PublishRequest { host_port: port, ..self }
    }

    /// How often a request is tried: several times where any host port will do.
    pub open spec fn attempts_spec(self) -> int {
        if self.host_port == 0 {
            AUTO_PORT_ATTEMPTS as int
        } else {
            1
        }
    }

    pub fn attempts(&self) -> (attempts: usize)
        ensures
            attempts == self.attempts_spec(),
    {
        if self.host_port == 0 {
            AUTO_PORT_ATTEMPTS
        } else {
            1
        }
    }
}

#[derive(Debug, Clone, Copy, PartialEq, Eq, Structural)]
pub enum PublishPhase {
    /// A free host port is needed for the current request.
    Allocating,
    /// The request in the brackets is to be made.
    Exposing(PublishRequest),
    Done,
    /// The last error ends the publishing.
    Failed,
}

#[derive(Debug, Clone, Copy, PartialEq, Eq, Structural)]
pub enum PublishEvent {
    Allocated(u16),
    AllocationFailed,
    Exposed,
    ExposeFailed,
}

/// Publishes one request after the other.
pub struct Publisher {
    requests: Vec<PublishRequest>,
    published: Vec<PublishRequest>,
    attempt: usize,
    phase: PublishPhase,
}

pub struct PublisherView {
    pub requests: Seq<PublishRequest>,
    pub published: Seq<PublishRequest>,
    /// The failed attempts of the current request.
    pub attempt: int,
    pub phase: PublishPhase,
}

impl View for Publisher {
    type V = PublisherView;

    closed spec fn view(&self) -> PublisherView {
        PublisherView {
            requests: self.requests@,
            published: self.published@,
            attempt: self.attempt as int,
            phase: self.phase,
        }
    }
}

/// How a request is tried: at its own port, or at one that is still to be found.
pub open spec fn phase_of(requests: Seq<PublishRequest>, index: int) -> PublishPhase {
    if index >= requests.len() {
        PublishPhase::Done
    } else if requests[index].host_port == 0 {
        PublishPhase::Allocating
    } else {
        PublishPhase::Exposing(requests[index])
    }
}

impl PublisherView {
    /// The request that is being worked on.
    pub open spec fn current(self) -> PublishRequest {
        self.requests[self.published.len() as int]
    }

    pub open spec fn wf(self) -> bool {
        &&& self.published.len() <= self.requests.len()
        &&& forall|i: int|
            0 <= i < self.published.len() ==> {
                &&& (#[trigger] self.published[i]) == self.requests[i].at_port(
                    self.published[i].host_port,
                )
                &&& self.requests[i].host_port != 0 ==> self.published[i] == self.requests[i]
            }
        &&& match self.phase {
            PublishPhase::Allocating => {
                &&& self.published.len() < self.requests.len()
                &&& self.current().host_port == 0
                &&& 0 <= self.attempt < self.current().attempts_spec()
            },
            PublishPhase::Exposing(request) => {
                &&& self.published.len() < self.requests.len()
                &&& request == self.current().at_port(request.host_port)
                &&& self.current().host_port != 0 ==> request == self.current()
                &&& 0 <= self.attempt < self.current().attempts_spec()
            },
            PublishPhase::Done => self.published.len() == self.requests.len(),
            PublishPhase::Failed => true,
        }
    }

    pub open spec fn expects(self, event: PublishEvent) -> bool {
        match self.phase {
            PublishPhase::Allocating => event is Allocated || event is AllocationFailed,
            PublishPhase::Exposing(_) => event is Exposed || event is ExposeFailed,
            _ => false,
        }
    }

    pub open spec fn after(self, event: PublishEvent) -> PublisherView {
        match (self.phase, event) {
            (PublishPhase::Allocating, PublishEvent::Allocated(port)) => PublisherView {
                phase: PublishPhase::Exposing(self.current().at_port(port)),
                ..self
            },
            (PublishPhase::Exposing(request), PublishEvent::Exposed) => PublisherView {
                published: self.published.push(request),
                attempt: 0,
                phase: phase_of(self.requests, (self.published.len() + 1) as int),
                ..self
            },
            (PublishPhase::Exposing(_), PublishEvent::ExposeFailed) => if self.attempt + 1
                < self.current().attempts_spec() {
                PublisherView {
                    attempt: self.attempt + 1,
                    phase: phase_of(self.requests, self.published.len() as int),
                    ..self
                }
            } else {
                PublisherView { phase: PublishPhase::Failed, ..self }
            },
            _ => PublisherView { phase: PublishPhase::Failed, ..self },
        }
    }
}

/// Whatever happens, each published port stands for its request: the same protocol, address and
/// guest port, and the same host port where one was asked for.
pub proof fn law_published_ports_match_requests(state: PublisherView, event: PublishEvent)
    requires
        state.wf(),
        state.expects(event),
    ensures
        state.after(event).wf(),
{
    let after = state.after(event);
    assert forall|i: int| 0 <= i < after.published.len() implies {
        &&& (#[trigger] after.published[i]) == after.requests[i].at_port(
            after.published[i].host_port,
        )
        &&& after.requests[i].host_port != 0 ==> after.published[i] == after.requests[i]
    } by {
        if i < state.published.len() {
            assert(after.published[i] == state.published[i]);
        }
    }
}

impl Publisher {
    pub open spec fn wf(self) -> bool {
        self@.wf()
    }

    pub fn new(requests: Vec<PublishRequest>) -> (publisher: Publisher)
        ensures
            publisher.wf(),
            publisher@ == (PublisherView {
                requests: requests@,
                published: Seq::empty(),
                attempt: 0,
                phase: phase_of(requests@, 0),
            }),
    {
        let phase = if requests.len() == 0 {
            PublishPhase::Done
        } else if requests[0].host_port == 0 {
            PublishPhase::Allocating
        } else {
            PublishPhase::Exposing(requests[0])
        };
        Publisher { requests, published: Vec::new(), attempt: 0, phase }
    }

    /// What is to be done next.
    pub fn phase(&self) -> (phase: PublishPhase)
        ensures
            phase == self@.phase,
    {
        self.phase
    }

    /// The address on which a free port is needed.
    pub fn address(&self) -> (address: IpAddr)
        requires
            self.wf(),
            self@.phase == PublishPhase::Allocating,
        ensures
            address == self@.current().host_address,
    {
        self.requests[self.published.len()].host_address
    }

    fn next_phase(&self) -> (phase: PublishPhase)
        ensures
            phase == phase_of(self@.requests, self@.published.len() as int),
    {
        let index: usize = self.published.len();
        if index >= self.requests.len() {
            PublishPhase::Done
        } else if self.requests[index].host_port == 0 {
            PublishPhase::Allocating
        } else {
            PublishPhase::Exposing(self.requests[index])
        }
    }

    pub fn step(&mut self, event: PublishEvent)
        requires
            old(self).wf(),
            old(self)@.expects(event),
        ensures
            final(self).wf(),
            final(self)@ == old(self)@.after(event),
    {
        proof {
            law_published_ports_match_requests(self@, event);
        }
        match (self.phase, event) {
            (PublishPhase::Allocating, PublishEvent::Allocated(port)) => {
                let request: PublishRequest = self.requests[self.published.len()];
                self.phase = PublishPhase::Exposing(
                    PublishRequest {
                        protocol: request.protocol,
                        host_address: request.host_address,
                        host_port: port,
                        guest_port: request.guest_port,
                    },
                );
            },
            (PublishPhase::Exposing(request), PublishEvent::Exposed) => {
                self.published.push(request);
                self.attempt = 0;
                self.phase = self.next_phase();
            },
            (PublishPhase::Exposing(_), PublishEvent::ExposeFailed) => {
                let attempts: usize = self.requests[self.published.len()].attempts();
                if self.attempt + 1 < attempts {
                    self.attempt = self.attempt + 1;
                    self.phase = self.next_phase();
                } else {
                    self.phase = PublishPhase::Failed;
                }
            },
            _ => {
                self.phase = PublishPhase::Failed;
            },
        }
    }

    /// The ports that have been published.
    pub fn into_published(self) -> (published: Vec<PublishRequest>)
        ensures
            published@ == self@.published,
    {
        self.published
    }
}

/// What the proxy's service is told of a port.
#[derive(Debug)]
pub struct ExposeRequest {
    pub local: String,
    pub remote: String,
    pub protocol: &'static str,
}

/// A socket address: IPv6 addresses stand in brackets.
pub open spec fn endpoint_text(is_v6: bool, address: Seq<char>, port: u16) -> Seq<char> {
    if is_v6 {
        "["@ + address + ("]:"@ + crate::text::decimal_text(port as nat))
    } else {
        address + ":"@ + crate::text::decimal_text(port as nat)
    }
}

impl PublishRequest {
    /// What the proxy's service is told: `address` is the host's address in words.
    pub fn expose_request(&self, address: &str) -> (request: ExposeRequest)
        ensures
            request.local@ == endpoint_text(self.host_address is V6, address@, self.host_port),
            request.remote@ == endpoint_text(false, "192.168.127.2"@, self.guest_port),
            request.protocol@ == "tcp"@,
    {
        let port = decimal(self.host_port as u64);
        let local = match self.host_address {
            IpAddr::V6(_) => join3("[", address, join("]:", port.as_str()).as_str()),
            IpAddr::V4(_) => join3(address, ":", port.as_str()),
        };
        let remote = join3("192.168.127.2", ":", decimal(self.guest_port as u64).as_str());
        ExposeRequest { local, remote, protocol: "tcp" }
    }
}

/// The head of a request to the service socket.
pub open spec fn request_head(endpoint: Seq<char>, length: nat) -> Seq<char> {
    "POST "@ + endpoint
        + " HTTP/1.1\r\nHost: localhost\r\nContent-Type: application/json\r\nContent-Length: "@ + (
    crate::text::decimal_text(length) + "\r\nConnection: close\r\n\r\n"@)
}

/// Makes the head of a request with a body of the given length.
pub fn services_request_head(endpoint: &str, body_len: usize) -> (head: String)
    ensures
        head@ == request_head(endpoint@, body_len as nat),
{
    let tail = join(decimal(body_len as u64).as_str(), "\r\nConnection: close\r\n\r\n");
    let head = join3(
        "POST ",
        endpoint,
        " HTTP/1.1\r\nHost: localhost\r\nContent-Type: application/json\r\nContent-Length: ",
    );
    join(head.as_str(), tail.as_str())
}

/// The status code of a response: the second word of its first line.
pub open spec fn response_status(text: Seq<char>) -> Option<nat> {
    match crate::text::first_line(text) {
        None => None,
        Some(line) => match crate::text::second_word(line) {
            None => None,
            Some(word) => crate::text::u16_of(vstd::utf8::encode_utf8(word)),
        },
    }
}

/// Why a response of the given text is no success, if it is none.
pub open spec fn text_error(text: Seq<char>) -> Option<Seq<char>> {
    match response_status(text) {
        None => Some("gvproxy services returned an invalid HTTP response"@),
        Some(status) => if 200 <= status < 300 {
            None
        } else {
            Some(
                "gvproxy services returned HTTP "@ + crate::text::decimal_text(status) + (": "@
                    + crate::text::trim_of(crate::text::after_blank_line(text))),
            )
        },
    }
}

/// Why a response is no success, if it is none.
pub open spec fn response_error(response: Seq<u8>) -> Option<Seq<char>> {
    if response.len() > MAX_SERVICES_RESPONSE {
        Some("gvproxy services response exceeded 64 KiB"@)
    } else {
        text_error(crate::text::lossy_text(response))
    }
}

/// Judges a response that was read up to one byte beyond the limit.
pub fn check_services_response(response: &[u8]) -> (checked: Result<(), String>)
    ensures
        match checked {
            Ok(()) => response_error(response@) is None,
            Err(message) => response_error(response@) == Some(message@),
        },
{
    if response.len() > MAX_SERVICES_RESPONSE {
        return Err("gvproxy services response exceeded 64 KiB".to_owned());
    }
    let text = from_utf8_lossy(response);
    judge_services_text(text.as_str())
}

/// Judges the text of a response.
pub fn judge_services_text(text: &str) -> (checked: Result<(), String>)
    ensures
        match checked {
            Ok(()) => text_error(text@) is None,
            Err(message) => text_error(text@) == Some(message@),
        },
{
    let status: Option<u16> = match copy_first_line(text) {
        None => None,
        Some(line) => match find_second_word(line.as_str()) {
            None => None,
            Some(word) => read_u16(word.as_str()),
        },
    };
    match status {
        None => Err("gvproxy services returned an invalid HTTP response".to_owned()),
        Some(status) => {
            if 200 <= status && status < 300 {
                return Ok(());
            }
            let body = copy_after_blank_line(text);
            Err(
                join3(
                    "gvproxy services returned HTTP ",
                    decimal(status as u64).as_str(),
                    join(": ", trim(body.as_str()).as_str()).as_str(),
                ),
            )
        },
    }
}

} // verus!
