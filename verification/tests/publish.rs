use moraebox::libkrun::publish::{
    check_services_response, services_request_head, PublishEvent, PublishPhase, PublishProtocol,
    PublishRequest, Publisher,
};
use moraebox::net::{IpAddr, Ipv4Addr, Ipv6Addr};

fn request(host_port: u16, guest_port: u16) -> PublishRequest {
    PublishRequest {
        protocol: PublishProtocol::Tcp,
        host_address: IpAddr::V4(Ipv4Addr::new(127, 0, 0, 1)),
        host_port,
        guest_port,
    }
}

#[test]
fn services_client_publishes_multiple_auto_ports() {
    let requests = vec![request(0, 3000), request(0, 8080)];
    let mut publisher = Publisher::new(requests);
    let mut free: u16 = 40_000;
    let mut remotes = Vec::new();
    let mut protocols = Vec::new();
    loop {
        match publisher.phase() {
            PublishPhase::Allocating => {
                free += 1;
                publisher.step(PublishEvent::Allocated(free));
            }
            PublishPhase::Exposing(request) => {
                let exposed = request.expose_request("127.0.0.1");
                assert_eq!(exposed.local, format!("127.0.0.1:{free}"));
                remotes.push(exposed.remote);
                protocols.push(exposed.protocol);
                publisher.step(PublishEvent::Exposed);
            }
            PublishPhase::Done => break,
            PublishPhase::Failed => panic!("nothing failed"),
        }
    }
    let published = publisher.into_published();
    assert_eq!(published.len(), 2);
    assert!(published.iter().all(|request| request.host_port != 0));
    assert_ne!(published[0].host_port, published[1].host_port);
    assert_eq!(remotes[0], "192.168.127.2:3000");
    assert_eq!(remotes[1], "192.168.127.2:8080");
    assert_eq!(protocols[0], "tcp");
}

#[test]
fn chosen_ports_are_tried_once() {
    assert_eq!(request(8080, 80).attempts(), 1);
    let mut publisher = Publisher::new(vec![request(8080, 80)]);
    assert_eq!(
        publisher.phase(),
        PublishPhase::Exposing(request(8080, 80))
    );
    publisher.step(PublishEvent::ExposeFailed);
    assert_eq!(publisher.phase(), PublishPhase::Failed);
}

#[test]
fn free_ports_are_tried_again() {
    let attempts = request(0, 80).attempts();
    assert!(attempts > 1);
    let mut publisher = Publisher::new(vec![request(0, 80)]);
    for _ in 0..attempts {
        assert_eq!(publisher.phase(), PublishPhase::Allocating);
        publisher.step(PublishEvent::Allocated(50_000));
        publisher.step(PublishEvent::ExposeFailed);
    }
    assert_eq!(publisher.phase(), PublishPhase::Failed);
    let mut unlucky = Publisher::new(vec![request(0, 80)]);
    unlucky.step(PublishEvent::AllocationFailed);
    assert_eq!(unlucky.phase(), PublishPhase::Failed);
    assert_eq!(Publisher::new(vec![]).phase(), PublishPhase::Done);
}

#[test]
fn long_addresses_stand_in_brackets() {
    let mut request = request(8080, 80);
    request.host_address = IpAddr::V6(Ipv6Addr { bits: 1 });
    assert_eq!(request.expose_request("::1").local, "[::1]:8080");
}

#[test]
fn services_speak_plain_http() {
    assert_eq!(
        services_request_head("/services/forwarder/expose", 12),
        "POST /services/forwarder/expose HTTP/1.1\r\nHost: localhost\r\nContent-Type: application/json\r\nContent-Length: 12\r\nConnection: close\r\n\r\n"
    );
    assert!(check_services_response(b"HTTP/1.1 204 No Content\r\n\r\n").is_ok());
    assert_eq!(
        check_services_response(b"HTTP/1.1 500 Oops\r\nX: y\r\n\r\n port in use \n"),
        Err("gvproxy services returned HTTP 500: port in use".to_owned())
    );
    assert_eq!(
        check_services_response(b"garbage"),
        Err("gvproxy services returned an invalid HTTP response".to_owned())
    );
    assert!(check_services_response(b"").is_err());
    assert!(check_services_response(b"HTTP/1.1 99999 x\r\n\r\n").is_err());
}
