use ureq_transport::addr::{IpAddr, SocketAddr, Target, TargetAddr};
use ureq_transport::bound_proxy::{connect_bound_proxy, BoundEvent, BoundStep};
use ureq_transport::error::{Error, ErrorKind, Fault, IoError};
use ureq_transport::handshake::Step;
use ureq_transport::proxy::{connect_proxy, Dial, Handshake, Proxy, ProxyProtocol};
use ureq_transport::proxy_attempts::{ProxyAttempts, ProxyProgress};
use ureq_transport::socks::{
    attempt_received, try_connect_single, ProxyWait, SocksConnect, SocksConnector,
};
use ureq_transport::socks4::{check_socks4_reply, connect_socks4};
use ureq_transport::socks5::{connect_socks5, consume_socks5_addr, encode_socks5_addr, Phase};
use ureq_transport::tcp::{SingleStep, SocketPlan};
use ureq_transport::time::{Duration, ExactDuration, NextTimeout, Timeout};

const LOCALHOST: [u8; 4] = [127, 0, 0, 1];
const LOCALHOST_V6: [u8; 16] = [0, 0, 0, 0, 0, 0, 0, 0, 0, 0, 0, 0, 0, 0, 0, 1];

fn proxy(protocol: ProxyProtocol) -> Proxy {
    Proxy { protocol, username: None, password: None, resolve_target: true }
}

fn with_password(username: &str, password: &str) -> Proxy {
    Proxy {
        protocol: ProxyProtocol::Socks5,
        username: Some(username.to_string()),
        password: Some(password.to_string()),
        resolve_target: true,
    }
}

/// What a proxy sends, in the order of the replies, and what it gets to see.
struct Script {
    stream: Vec<u8>,
    read: usize,
    sent: Vec<u8>,
}

impl Script {
    fn new(stream: &[u8]) -> Script {
        Script { stream: stream.to_vec(), read: 0, sent: Vec::new() }
    }

    fn exchange(&mut self, send: &[u8], expect: usize) -> Vec<u8> {
        self.sent.extend_from_slice(send);
        let reply = self.stream[self.read..self.read + expect].to_vec();
        self.read += expect;
        reply
    }
}

fn shake(proxy: &Proxy, target: &Target, script: &mut Script) -> Result<(), Fault> {
    let (mut handshake, mut step) = Handshake::begin(proxy, target).unwrap();
    loop {
        match step {
            Step::Exchange { send, expect } => {
                let reply = script.exchange(&send, expect);
                step = handshake.resume(&reply);
            }
            Step::Done(outcome) => return outcome,
        }
    }
}

fn domain_target() -> Target {
    Target::HostPort("example.test".to_string(), 80)
}

fn fault_of(stream: &[u8], proxy: &Proxy, target: &Target) -> Fault {
    shake(proxy, target, &mut Script::new(stream)).unwrap_err()
}

/// The handshake over a bound socket that connects and takes its timeouts.
fn shake_bound(proxy: &Proxy, target: &Target, script: &mut Script) -> Result<(), IoError> {
    let addr = SocketAddr::V4(LOCALHOST, 1080);
    let local_ip = IpAddr::V4(LOCALHOST);
    let (mut bound, mut step) = connect_bound_proxy(proxy, addr, target, local_ip, None);
    loop {
        let event = match step {
            BoundStep::Exchange { send, expect } => {
                BoundEvent::Received(script.exchange(&send, expect))
            }
            BoundStep::Done(outcome) => return outcome,
            _ => BoundEvent::Ready,
        };
        step = bound.resume(event);
    }
}

#[test]
fn a_bound_connection_has_the_conversation_of_the_handshake() {
    let target = domain_target();
    let granted4: &[u8] = &[0, 90, 0, 0, 0, 0, 0, 0, 7];
    let rejected4: &[u8] = &[0, 91, 0, 0, 0, 0, 0, 0, 7];
    let granted5: &[u8] = &[5, 2, 1, 0, 5, 0, 0, 3, 1, 97, 0, 80, 7];
    let rejected5: &[u8] = &[5, 0, 5, 5, 0, 1, 7];
    let cases = [
        (proxy(ProxyProtocol::Socks4), granted4, 8),
        (proxy(ProxyProtocol::Socks4), rejected4, 8),
        (with_password("user", "word"), granted5, 12),
        (with_password("user", "word"), rejected5, 6),
    ];
    for (settings, stream, read) in cases {
        let mut alone = Script::new(stream);
        let mut over_socket = Script::new(stream);
        let expected = shake(&settings, &target, &mut alone);
        let outcome = shake_bound(&settings, &target, &mut over_socket);
        assert_eq!(over_socket.sent, alone.sent);
        assert_eq!(over_socket.read, read);
        match (outcome, expected) {
            (Ok(()), Ok(())) => {}
            (Err(IoError::Own(fault)), Err(expected)) => assert_eq!(fault, expected),
            _ => panic!("the outcome has to be that of the handshake"),
        }
    }
}

#[test]
fn socks5_connection_can_bind_local_ip() {
    let local_ip = IpAddr::V4([127, 0, 0, 2]);
    let proxy = proxy(ProxyProtocol::Socks5);
    let target = Target::Text("example.test:80".to_string());
    let (mut bound, step) = connect_bound_proxy(
        &proxy,
        SocketAddr::V4(LOCALHOST, 1080),
        &target,
        local_ip,
        Some(ExactDuration::from_secs(2)),
    );
    match step {
        BoundStep::Connect(SocketPlan::BindAndConnect { bind, timeout, .. }) => {
            assert_eq!(bind, SocketAddr::V4([127, 0, 0, 2], 0));
            assert_eq!(timeout.unwrap().as_secs(), 2);
        }
        _ => panic!("the socket has to be bound and connected"),
    }
    match bound.resume(BoundEvent::Ready) {
        BoundStep::SetReadTimeout(timeout) => assert_eq!(timeout.unwrap().as_secs(), 2),
        _ => panic!("the timeout for reading comes next"),
    }
    match bound.resume(BoundEvent::Ready) {
        BoundStep::SetWriteTimeout(timeout) => assert_eq!(timeout.unwrap().as_secs(), 2),
        _ => panic!("the timeout for writing comes next"),
    }
    let mut script = Script::new(&[5, 0, 5, 0, 0, 1, 127, 0, 0, 1, 0, 0]);
    let mut step = bound.resume(BoundEvent::Ready);
    let outcome = loop {
        match step {
            BoundStep::Exchange { send, expect } => {
                let reply = script.exchange(&send, expect);
                step = bound.resume(BoundEvent::Received(reply));
            }
            BoundStep::Done(outcome) => break outcome,
            _ => panic!("the handshake comes last"),
        }
    };
    assert!(outcome.is_ok());
    assert_eq!(script.read, 12);
    let mut expected = vec![5, 1, 0, 5, 1, 0, 3, 12];
    expected.extend_from_slice(b"example.test");
    expected.extend_from_slice(&[0, 80]);
    assert_eq!(script.sent, expected);
}

#[test]
fn local_ip_filters_proxy_addresses_but_not_target_addresses() {
    let proxy = proxy(ProxyProtocol::Socks5);
    let local_ip = IpAddr::V4([127, 0, 0, 2]);
    let proxy_addrs = [SocketAddr::V6(LOCALHOST_V6, 1080), SocketAddr::V4(LOCALHOST, 1080)];
    let targets = [SocketAddr::V6(LOCALHOST_V6, 80)];
    let connector = SocksConnector::with_local_ip(local_ip);
    let route = connector
        .proxy_resolved(&proxy, &proxy_addrs, false, &targets, "localhost", 80)
        .unwrap()
        .unwrap();
    assert_eq!(route.targets, vec![Target::Addr(SocketAddr::V6(LOCALHOST_V6, 80))]);
    assert_eq!(route.local_ip, Some(local_ip));
    let mut attempts = route.attempts;
    let (target, via) = match attempts.current::<u32>() {
        ProxyProgress::Attempt { target, proxy } => (target, proxy),
        ProxyProgress::Done(_) => panic!("an attempt is expected"),
    };
    assert_eq!((target, via), (0, 1));

    let two_seconds = Duration::Exact(ExactDuration::from_secs(2));
    let wait = try_connect_single(NextTimeout { after: two_seconds, reason: Timeout::Connect });
    let (_, step) = connect_bound_proxy(
        &proxy,
        proxy_addrs[via],
        &route.targets[target],
        local_ip,
        wait.socket_timeout(),
    );
    match step {
        BoundStep::Connect(SocketPlan::BindAndConnect { bind, timeout, .. }) => {
            assert_eq!(bind, SocketAddr::V4([127, 0, 0, 2], 0));
            assert_eq!(timeout.unwrap().as_secs(), 2);
        }
        _ => panic!("the socket has to be bound and connected"),
    }
    let mut script = Script::new(&[5, 0, 5, 0, 0, 1, 127, 0, 0, 1, 0, 0]);
    assert!(shake(&proxy, &route.targets[target], &mut script).is_ok());
    assert_eq!(&script.sent[..7], &[5, 1, 0, 5, 1, 0, 4]);
    assert_eq!(&script.sent[7..23], &LOCALHOST_V6);
    assert_eq!(&script.sent[23..], &[0, 80]);
    match attempts.advance(Ok(9u32)) {
        ProxyProgress::Done(Ok(stream)) => assert_eq!(stream, 9),
        _ => panic!("the attempts have to end"),
    }
}

#[test]
fn no_proxy_address_of_the_local_family() {
    let proxy_addrs = [SocketAddr::V6(LOCALHOST_V6, 1080)];
    let local_ip = Some(IpAddr::V4(LOCALHOST));
    match ProxyAttempts::new(&proxy_addrs, 1, local_ip) {
        Err(Error::Io(IoError::Own(fault))) => {
            assert_eq!(fault, Fault::NoProxyInLocalFamily);
            assert_eq!(fault.kind(), ErrorKind::AddrNotAvailable);
            assert_eq!(
                fault.message(),
                "no resolved proxy address matches the local bind IP family"
            );
        }
        _ => panic!("a fault is expected"),
    }
    assert!(ProxyAttempts::new(&[], 1, None).is_err());
    assert!(ProxyAttempts::new(&proxy_addrs, 1, None).is_ok());
}

#[test]
fn every_target_is_tried_through_every_proxy_address() {
    let v4 = SocketAddr::V4(LOCALHOST, 1080);
    let v6 = SocketAddr::V6(LOCALHOST_V6, 1080);
    let local_ip = Some(IpAddr::V6(LOCALHOST_V6));
    let mut attempts = ProxyAttempts::new(&[v6, v4, v6], 2, local_ip).unwrap();
    let mut progress = attempts.current::<u32>();
    let mut pairs = Vec::new();
    let faults =
        [Fault::Socks5Rejected(5), Fault::Socks4Rejected(91), Fault::NoAddressConnected];
    loop {
        match progress {
            ProxyProgress::Attempt { target, proxy } => {
                let fault = faults[pairs.len() % 3];
                pairs.push((target, proxy));
                progress = attempts.advance(Err(Error::Io(IoError::Own(fault))));
            }
            ProxyProgress::Done(result) => {
                assert!(result.unwrap_err().is_refused());
                break;
            }
        }
    }
    assert_eq!(pairs, vec![(0, 0), (0, 2), (1, 0), (1, 2)]);
    let none = ProxyAttempts::new(&[v4], 0, None).unwrap();
    assert!(matches!(none.current::<u32>(), ProxyProgress::Done(Err(_))));
}

#[test]
fn the_first_outcome_that_is_no_refusal_counts() {
    let v4 = SocketAddr::V4(LOCALHOST, 1080);
    let refused = || Err(Error::Io(IoError::Own(Fault::Socks5Rejected(5))));
    let mut attempts = ProxyAttempts::new(&[v4, v4], 2, None).unwrap();
    let progress = attempts.advance::<u32>(refused());
    assert!(matches!(progress, ProxyProgress::Attempt { target: 0, proxy: 1 }));
    let progress = attempts.advance::<u32>(refused());
    assert!(matches!(progress, ProxyProgress::Attempt { target: 1, proxy: 0 }));
    assert!(matches!(attempts.advance(Ok(42)), ProxyProgress::Done(Ok(42))));

    let mut attempts = ProxyAttempts::new(&[v4], 1, None).unwrap();
    match attempts.advance::<u32>(refused()) {
        ProxyProgress::Done(Err(Error::Io(IoError::Own(fault)))) => {
            assert_eq!(fault, Fault::NoAddressConnected);
        }
        _ => panic!("the attempts have to end in vain"),
    }
}

#[test]
fn errors_other_than_refusals_end_the_attempts_through_a_proxy() {
    let v4 = SocketAddr::V4(LOCALHOST, 1080);
    for fault in [Fault::Socks5AuthenticationFailed, Fault::Socks5InvalidResponse] {
        let mut attempts = ProxyAttempts::new(&[v4, v4], 2, None).unwrap();
        match attempts.advance::<u32>(Err(Error::Io(IoError::Own(fault)))) {
            ProxyProgress::Done(Err(Error::Io(IoError::Own(own)))) => assert_eq!(own, fault),
            _ => panic!("the attempts have to end"),
        }
    }
    let mut attempts = ProxyAttempts::new(&[v4, v4], 2, None).unwrap();
    match attempts.advance::<u32>(Err(Error::Timeout(Timeout::Connect))) {
        ProxyProgress::Done(Err(Error::Timeout(reason))) => assert_eq!(reason, Timeout::Connect),
        _ => panic!("the attempts have to end"),
    }
}

#[test]
fn a_connector_needs_a_socks_proxy_and_no_chained_connection() {
    let connector = SocksConnector::default();
    assert!(connector.local_ip().is_none());
    for protocol in [
        ProxyProtocol::Socks4,
        ProxyProtocol::Socks4A,
        ProxyProtocol::Socks5,
        ProxyProtocol::Socks5h,
    ] {
        let settings = proxy(protocol);
        assert!(matches!(
            connector.connect(Some(&settings), None::<u32>),
            SocksConnect::ResolveProxy
        ));
        assert!(matches!(
            connector.connect(Some(&settings), Some(1u32)),
            SocksConnect::Chained(Some(1))
        ));
    }
    for protocol in [ProxyProtocol::Http, ProxyProtocol::Https] {
        let settings = proxy(protocol);
        assert!(matches!(
            connector.connect(Some(&settings), None::<u32>),
            SocksConnect::Chained(None)
        ));
    }
    assert!(matches!(connector.connect(None, Some(2u32)), SocksConnect::Chained(Some(2))));
    assert!(matches!(connector.connect(None, None::<u32>), SocksConnect::Chained(None)));
}

#[test]
fn the_proxy_is_asked_for_addresses_or_for_the_name() {
    let addrs = [SocketAddr::V4([1, 2, 3, 4], 443), SocketAddr::V6(LOCALHOST_V6, 443)];
    let via = [SocketAddr::V4(LOCALHOST, 1080)];
    let connector = SocksConnector::default();
    let mut settings = proxy(ProxyProtocol::Socks5);
    let route = connector.proxy_resolved(&settings, &via, false, &addrs, "host", 443).unwrap();
    assert_eq!(
        route.unwrap().targets,
        vec![Target::Addr(addrs[0]), Target::Addr(addrs[1])]
    );
    settings.resolve_target = false;
    let route = connector.proxy_resolved(&settings, &via, false, &addrs, "host", 443).unwrap();
    assert_eq!(route.unwrap().targets, vec![Target::HostPort("host".to_string(), 443)]);
    let route = connector.proxy_resolved(&settings, &via, true, &addrs, "host", 443).unwrap();
    assert!(route.is_none());
    assert!(matches!(connector.attempts_over(Ok(3u32), true), SingleStep::SetNoDelay(3)));
    assert!(matches!(connector.attempts_over(Ok(3u32), false), SingleStep::Done(Ok(3))));
    let failed = connector.attempts_over::<u32>(Err(Error::Timeout(Timeout::Connect)), true);
    assert!(matches!(failed, SingleStep::Done(Err(Error::Timeout(Timeout::Connect)))));
}

#[test]
fn clients_are_picked_by_protocol_and_user() {
    let local = IpAddr::V4(LOCALHOST);
    let mut settings = with_password("me", "secret");
    assert!(matches!(connect_proxy(&settings, Some(local)), Dial::Bound(ip) if ip == local));
    assert!(matches!(
        connect_proxy(&settings, None),
        Dial::Socks5WithPassword("me", "secret")
    ));
    settings.password = None;
    assert!(matches!(connect_proxy(&settings, None), Dial::Socks5WithPassword("me", "")));
    settings.protocol = ProxyProtocol::Socks4A;
    assert!(matches!(connect_proxy(&settings, None), Dial::Socks4("")));
    settings.protocol = ProxyProtocol::Socks5h;
    settings.username = None;
    assert!(matches!(connect_proxy(&settings, None), Dial::Socks5));
    let local = IpAddr::V4(LOCALHOST);
    let http = proxy(ProxyProtocol::Http);
    let dial = connect_proxy(&http, Some(local));
    assert!(matches!(dial, Dial::Bound(bound) if bound == local));
}

#[test]
fn waiting_is_limited_only_by_a_timeout() {
    let after = |after| NextTimeout { after, reason: Timeout::Connect };
    let unlimited = try_connect_single(after(Duration::NotHappening));
    assert!(matches!(unlimited, ProxyWait::Unlimited));
    assert!(unlimited.socket_timeout().is_none());
    let limited = try_connect_single(after(Duration::Exact(ExactDuration::from_secs(0))));
    assert_eq!(limited.socket_timeout().unwrap().as_secs(), 1);
    match limited {
        ProxyWait::Limited { wait, socket_timeout } => {
            assert!(wait.is_zero());
            assert_eq!(socket_timeout.unwrap().as_secs(), 1);
        }
        ProxyWait::Unlimited => panic!("there is a limit"),
    }
    assert!(matches!(attempt_received(Some(Ok(5u32)), Timeout::Connect), Ok(5)));
    let late = attempt_received::<u32>(None, Timeout::PerCall);
    assert!(matches!(late, Err(Error::Timeout(Timeout::PerCall))));
}

#[test]
fn targets_are_read_from_hosts_and_texts() {
    let read = |target: Target| target.to_target_addr();
    let host = |host: &str| Target::HostPort(host.to_string(), 8080);
    let v4 = TargetAddr::Ip(SocketAddr::V4([10, 1, 2, 3], 8080));
    let v6 = TargetAddr::Ip(SocketAddr::V6(LOCALHOST_V6, 8080));
    let name = TargetAddr::Domain("example.test".to_string(), 8080);
    assert_eq!(read(host("10.1.2.3")).unwrap(), v4);
    assert_eq!(read(host("::1")).unwrap(), v6);
    assert_eq!(read(host("example.test")).unwrap(), name);
    let text = |text: &str| Target::Text(text.to_string());
    assert_eq!(read(text("10.1.2.3:8080")).unwrap(), v4);
    assert_eq!(read(text("[::1]:8080")).unwrap(), v6);
    assert_eq!(read(text("example.test:8080")).unwrap(), name);
    for bad in ["example.test", "example.test:http", "example.test:65536"] {
        match read(text(bad)) {
            Err(error) => assert_eq!(error.kind(), ErrorKind::InvalidInput),
            Ok(_) => panic!("the text names no target"),
        }
    }
    let addr = SocketAddr::V4([9, 8, 7, 6], 5);
    assert_eq!(read(Target::Addr(addr)).unwrap(), TargetAddr::Ip(addr));
}

#[test]
fn a_target_that_cannot_be_read_ends_a_bound_connection() {
    let settings = proxy(ProxyProtocol::Socks5);
    let target = Target::Text("nowhere".to_string());
    let local = IpAddr::V4(LOCALHOST);
    let addr = SocketAddr::V4(LOCALHOST, 1080);
    let (mut bound, _) = connect_bound_proxy(&settings, addr, &target, local, None);
    assert!(matches!(bound.resume(BoundEvent::Ready), BoundStep::SetReadTimeout(None)));
    assert!(matches!(bound.resume(BoundEvent::Ready), BoundStep::SetWriteTimeout(None)));
    match bound.resume(BoundEvent::Ready) {
        BoundStep::Done(Err(error)) => assert_eq!(error.kind(), ErrorKind::InvalidInput),
        _ => panic!("an error is expected"),
    }
}

#[test]
fn a_failure_ends_a_bound_connection() {
    let settings = proxy(ProxyProtocol::Socks5);
    let target = domain_target();
    let local = IpAddr::V4(LOCALHOST);
    let addr = SocketAddr::V4(LOCALHOST, 1080);
    let (mut bound, _) = connect_bound_proxy(&settings, addr, &target, local, None);
    let cause = std::io::Error::other("gone");
    let failed = IoError::Outside { kind: ErrorKind::TimedOut, cause };
    match bound.resume(BoundEvent::Failed(failed)) {
        BoundStep::Done(Err(IoError::Outside { kind, cause })) => {
            assert_eq!(kind, ErrorKind::TimedOut);
            assert_eq!(cause.to_string(), "gone");
        }
        _ => panic!("the failure has to be passed on"),
    }
    let http = proxy(ProxyProtocol::Http);
    let (mut bound, _) = connect_bound_proxy(&http, addr, &target, local, None);
    assert!(matches!(bound.resume(BoundEvent::Ready), BoundStep::SetReadTimeout(None)));
    let cause = std::io::Error::other("gone");
    let failed = IoError::Outside { kind: ErrorKind::Other, cause };
    assert!(matches!(bound.resume(BoundEvent::Failed(failed)), BoundStep::Done(Err(_))));
    let v6 = SocketAddr::V6(LOCALHOST_V6, 1080);
    let (_, step) = connect_bound_proxy(&settings, v6, &target, local, None);
    assert!(matches!(step, BoundStep::Done(Err(IoError::Own(Fault::LocalFamilyMismatch)))));
}

#[test]
fn socks4_requests() {
    match connect_socks4(&TargetAddr::Ip(SocketAddr::V4([1, 2, 3, 4], 0x1234))) {
        Step::Exchange { send, expect } => {
            assert_eq!(send, vec![4, 1, 0x12, 0x34, 1, 2, 3, 4, 0]);
            assert_eq!(expect, 8);
        }
        Step::Done(_) => panic!("an exchange is expected"),
    }
    match connect_socks4(&TargetAddr::Domain("ab".to_string(), 80)) {
        Step::Exchange { send, expect } => {
            assert_eq!(send, vec![4, 1, 0, 80, 0, 0, 0, 1, 0, b'a', b'b', 0]);
            assert_eq!(expect, 8);
        }
        Step::Done(_) => panic!("an exchange is expected"),
    }
    let step = connect_socks4(&TargetAddr::Ip(SocketAddr::V6(LOCALHOST_V6, 80)));
    assert_eq!(step, Step::Done(Err(Fault::Socks4Ipv6Target)));
    assert_eq!(Fault::Socks4Ipv6Target.kind(), ErrorKind::InvalidInput);
    assert_eq!(Fault::Socks4Ipv6Target.message(), "SOCKS4 does not support IPv6");
}

#[test]
fn socks4_replies() {
    assert_eq!(check_socks4_reply(&[0, 90, 1, 2, 3, 4, 5, 6]), Ok(()));
    let rejected = check_socks4_reply(&[0, 91, 0, 0, 0, 0, 0, 0]).unwrap_err();
    assert_eq!(rejected, Fault::Socks4Rejected(91));
    assert_eq!(rejected.kind(), ErrorKind::ConnectionRefused);
    assert_eq!(rejected.message(), "SOCKS4 proxy rejected CONNECT with status 91");
    let version = check_socks4_reply(&[4, 90, 0, 0, 0, 0, 0, 0]).unwrap_err();
    assert_eq!(version, Fault::Socks4Rejected(90));
}

#[test]
fn socks4_leaves_what_follows_its_reply() {
    let mut script = Script::new(&[0, 90, 0, 0, 0, 0, 0, 0, b'H', b'i']);
    assert!(shake(&proxy(ProxyProtocol::Socks4), &domain_target(), &mut script).is_ok());
    assert_eq!(script.read, 8);
}

#[test]
fn socks5_sends_the_password_only_if_it_is_asked_to() {
    let settings = with_password("me", "secret");
    let mut script = Script::new(&[5, 2, 1, 0, 5, 0, 0, 1, 0, 0, 0, 0, 0, 0]);
    assert!(shake(&settings, &Target::Addr(SocketAddr::V4([1, 2, 3, 4], 80)), &mut script).is_ok());
    let mut expected = vec![5, 2, 2, 0, 1, 2, b'm', b'e', 6];
    expected.extend_from_slice(b"secret");
    expected.extend_from_slice(&[5, 1, 0, 1, 1, 2, 3, 4, 0, 80]);
    assert_eq!(script.sent, expected);

    let mut script = Script::new(&[5, 0, 5, 0, 0, 1, 0, 0, 0, 0, 0, 0]);
    assert!(shake(&settings, &Target::Addr(SocketAddr::V4([1, 2, 3, 4], 80)), &mut script).is_ok());
    assert_eq!(script.sent, vec![5, 2, 2, 0, 5, 1, 0, 1, 1, 2, 3, 4, 0, 80]);
}

#[test]
fn socks5_reads_every_kind_of_address_to_its_end() {
    let settings = proxy(ProxyProtocol::Socks5);
    let mut v4 = vec![5, 0, 5, 0, 0, 1, 1, 2, 3, 4, 0, 80];
    let mut v6 = vec![5, 0, 5, 0, 0, 4];
    v6.extend_from_slice(&LOCALHOST_V6);
    v6.extend_from_slice(&[0, 80]);
    let mut name = vec![5, 0, 5, 0, 0, 3, 2, b'a', b'b', 0, 80];
    let mut empty = vec![5, 0, 5, 0, 0, 3, 0, 0, 80];
    for stream in [&mut v4, &mut v6, &mut name, &mut empty] {
        let len = stream.len();
        stream.extend_from_slice(b"HTTP/1.1 200 OK");
        let mut script = Script::new(stream);
        assert!(shake(&settings, &domain_target(), &mut script).is_ok());
        assert_eq!(script.read, len);
    }
}

#[test]
fn socks5_faults_of_the_method() {
    let settings = proxy(ProxyProtocol::Socks5);
    let target = domain_target();
    for stream in [[4, 0], [5, 0xff]] {
        assert_eq!(fault_of(&stream, &settings, &target), Fault::Socks5MethodsRejected);
    }
    assert_eq!(Fault::Socks5MethodsRejected.kind(), ErrorKind::PermissionDenied);
    assert_eq!(
        Fault::Socks5MethodsRejected.message(),
        "SOCKS5 proxy rejected authentication methods"
    );
    assert_eq!(fault_of(&[5, 1], &settings, &target), Fault::Socks5UnsupportedMethod);
    assert_eq!(Fault::Socks5UnsupportedMethod.kind(), ErrorKind::InvalidData);
    assert_eq!(
        Fault::Socks5UnsupportedMethod.message(),
        "SOCKS5 proxy selected an unsupported authentication method"
    );
}

#[test]
fn socks5_faults_of_the_credentials() {
    let target = domain_target();
    let long = "x".repeat(256);
    for settings in [
        proxy(ProxyProtocol::Socks5),
        with_password("", "secret"),
        with_password("me", ""),
        with_password(&long, "secret"),
        with_password("me", &long),
    ] {
        assert_eq!(fault_of(&[5, 2], &settings, &target), Fault::Socks5CredentialLength);
    }
    assert_eq!(Fault::Socks5CredentialLength.kind(), ErrorKind::InvalidInput);
    assert_eq!(
        Fault::Socks5CredentialLength.message(),
        "invalid SOCKS5 username or password length"
    );
    let settings = with_password("me", &long[..255]);
    for stream in [[5, 2, 1, 1], [5, 2, 5, 0]] {
        assert_eq!(fault_of(&stream, &settings, &target), Fault::Socks5AuthenticationFailed);
    }
    assert_eq!(Fault::Socks5AuthenticationFailed.kind(), ErrorKind::PermissionDenied);
    assert_eq!(
        Fault::Socks5AuthenticationFailed.message(),
        "SOCKS5 password authentication failed"
    );
}

#[test]
fn socks5_faults_of_the_answer() {
    let settings = proxy(ProxyProtocol::Socks5);
    let target = domain_target();
    for stream in [[5, 0, 4, 0, 0, 1], [5, 0, 5, 0, 1, 1]] {
        assert_eq!(fault_of(&stream, &settings, &target), Fault::Socks5InvalidResponse);
    }
    assert_eq!(Fault::Socks5InvalidResponse.kind(), ErrorKind::InvalidData);
    assert_eq!(Fault::Socks5InvalidResponse.message(), "invalid SOCKS5 CONNECT response");
    let rejected = fault_of(&[5, 0, 5, 7, 0, 9], &settings, &target);
    assert_eq!(rejected, Fault::Socks5Rejected(7));
    assert_eq!(rejected.kind(), ErrorKind::ConnectionRefused);
    assert_eq!(rejected.message(), "SOCKS5 proxy rejected CONNECT with status 7");
    assert_eq!(
        Fault::Socks5Rejected(205).message(),
        "SOCKS5 proxy rejected CONNECT with status 205"
    );
    let addr_type = fault_of(&[5, 0, 5, 0, 0, 2], &settings, &target);
    assert_eq!(addr_type, Fault::Socks5InvalidAddressType);
    assert_eq!(addr_type.kind(), ErrorKind::InvalidData);
    assert_eq!(addr_type.message(), "invalid SOCKS5 response address type");
}

#[test]
fn socks5_host_names_have_a_limit() {
    let settings = proxy(ProxyProtocol::Socks5h);
    let fits = Target::HostPort("a".repeat(255), 1);
    let mut script = Script::new(&[5, 0, 5, 0, 0, 1, 0, 0, 0, 0, 0, 0]);
    assert!(shake(&settings, &fits, &mut script).is_ok());
    assert_eq!(&script.sent[3..8], &[5, 1, 0, 3, 255]);
    let too_long = Target::HostPort("a".repeat(256), 1);
    let mut script = Script::new(&[5, 0]);
    let fault = shake(&settings, &too_long, &mut script).unwrap_err();
    assert_eq!(fault, Fault::Socks5DomainTooLong);
    assert_eq!(fault.kind(), ErrorKind::InvalidInput);
    assert_eq!(fault.message(), "SOCKS5 target domain is too long");
    assert_eq!(script.sent, vec![5, 1, 0]);
}

#[test]
fn socks5_addresses_are_appended() {
    let mut out = vec![9];
    encode_socks5_addr(&mut out, &TargetAddr::Ip(SocketAddr::V4([1, 2, 3, 4], 258))).unwrap();
    assert_eq!(out, vec![9, 1, 1, 2, 3, 4, 1, 2]);
    let mut out = Vec::new();
    encode_socks5_addr(&mut out, &TargetAddr::Ip(SocketAddr::V6(LOCALHOST_V6, 65535))).unwrap();
    assert_eq!(out[0], 4);
    assert_eq!(&out[1..17], &LOCALHOST_V6);
    assert_eq!(&out[17..], &[255, 255]);
    let mut out = Vec::new();
    encode_socks5_addr(&mut out, &TargetAddr::Domain("\u{e9}".to_string(), 0)).unwrap();
    assert_eq!(out, vec![3, 2, 0xc3, 0xa9, 0, 0]);
    let mut out = vec![9];
    let long = TargetAddr::Domain("a".repeat(300), 0);
    assert_eq!(encode_socks5_addr(&mut out, &long), Err(Fault::Socks5DomainTooLong));
    assert_eq!(out, vec![9]);
}

#[test]
fn socks5_address_types() {
    let exchange = |expect| Step::Exchange { send: Vec::new(), expect };
    assert_eq!(consume_socks5_addr(1), (Phase::Address(6), exchange(6)));
    assert_eq!(consume_socks5_addr(4), (Phase::Address(18), exchange(18)));
    assert_eq!(consume_socks5_addr(3), (Phase::AddressLength, exchange(1)));
    for unknown in [0, 2, 5, 255] {
        assert_eq!(
            consume_socks5_addr(unknown),
            (Phase::Closed, Step::Done(Err(Fault::Socks5InvalidAddressType)))
        );
    }
}

#[test]
fn socks5_begins_with_the_methods_on_offer() {
    let target = TargetAddr::Domain("example.test".to_string(), 80);
    let (_, step) = connect_socks5(target.clone(), None, Some("unused"));
    assert_eq!(step, Step::Exchange { send: vec![5, 1, 0], expect: 2 });
    let (mut handshake, step) = connect_socks5(target, Some("me"), None);
    assert_eq!(step, Step::Exchange { send: vec![5, 2, 2, 0], expect: 2 });
    assert_eq!(handshake.resume(&[5, 2]), Step::Done(Err(Fault::Socks5CredentialLength)));
}
