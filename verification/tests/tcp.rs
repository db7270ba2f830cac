use ureq_transport::addr::{matches_local_ip_family, IpAddr, SocketAddr};
use ureq_transport::error::{Error, ErrorKind, Fault, IoError};
use ureq_transport::tcp::{
    connect_socket, finish_no_delay, try_connect_single, Domain, Progress, SingleStep, SocketPlan,
    TcpAttempts, TcpConnect, TcpConnector,
};
use ureq_transport::time::{Duration, ExactDuration, NextTimeout, Timeout};

const LOCALHOST: [u8; 4] = [127, 0, 0, 1];
const LOCALHOST_V6: [u8; 16] = [0, 0, 0, 0, 0, 0, 0, 0, 0, 0, 0, 0, 0, 0, 0, 1];

fn secs(secs: u64) -> Duration {
    Duration::Exact(ExactDuration::from_secs(secs))
}

fn ten_seconds() -> NextTimeout {
    NextTimeout { after: secs(10), reason: Timeout::Global }
}

fn outside(kind: ErrorKind, text: &str) -> IoError {
    IoError::Outside { kind, cause: std::io::Error::other(text.to_string()) }
}

fn refused() -> Result<u32, Error> {
    Err(Error::Io(outside(ErrorKind::ConnectionRefused, "refused")))
}

fn timed_out() -> Result<u32, Error> {
    Err(Error::Timeout(Timeout::Connect))
}

fn asked(progress: Progress<u32>) -> (usize, u128) {
    match progress {
        Progress::Attempt(attempt) => {
            (attempt.index, attempt.timeout.unwrap().as_nanos() / 1_000_000)
        }
        _ => panic!("an attempt is expected"),
    }
}

fn ended(progress: Progress<u32>) -> Result<u32, Error> {
    match progress {
        Progress::Done(result) => result,
        _ => panic!("the end is expected"),
    }
}

/// Goes on with an outcome, and with the time that has elapsed if the clock is asked for.
fn advance(
    attempts: &mut TcpAttempts,
    outcome: Result<u32, Error>,
    elapsed: Duration,
) -> Progress<u32> {
    match attempts.advance(outcome) {
        Progress::ReadClock => attempts.clock_read(elapsed),
        progress => progress,
    }
}

#[test]
fn connector_can_bind_a_local_ip() {
    let connector = TcpConnector::with_local_ip(IpAddr::V4(LOCALHOST));
    assert_eq!(connector.local_ip(), Some(IpAddr::V4(LOCALHOST)));
    let plan = connect_socket(
        SocketAddr::V4(LOCALHOST, 4321),
        Some(ExactDuration::from_secs(1)),
        connector.local_ip(),
    )
    .unwrap();
    match plan {
        SocketPlan::BindAndConnect { domain, bind, timeout } => {
            assert_eq!(domain, Domain::Ipv4);
            assert_eq!(bind, SocketAddr::V4([127, 0, 0, 1], 0));
            assert_eq!(timeout.unwrap().as_secs(), 1);
        }
        SocketPlan::Connect { .. } => panic!("the socket has to be bound"),
    }
}

#[test]
fn an_unbound_socket_just_connects() {
    let addr = SocketAddr::V6(LOCALHOST_V6, 80);
    assert!(TcpConnector::default().local_ip().is_none());
    let plan = connect_socket(addr, None, None).unwrap();
    assert!(matches!(plan, SocketPlan::Connect { timeout: None }));
    let plan = connect_socket(addr, Some(ExactDuration::from_millis(5)), None).unwrap();
    assert!(matches!(plan, SocketPlan::Connect { timeout: Some(t) } if t.as_nanos() == 5_000_000));
}

#[test]
fn a_bound_socket_needs_an_address_of_its_family() {
    let v4 = IpAddr::V4(LOCALHOST);
    let v6 = IpAddr::V6(LOCALHOST_V6);
    let fault = connect_socket(SocketAddr::V6(LOCALHOST_V6, 80), None, Some(v4)).unwrap_err();
    assert_eq!(fault, Fault::LocalFamilyMismatch);
    assert_eq!(fault.kind(), ErrorKind::AddrNotAvailable);
    assert_eq!(fault.message(), "local bind IP family does not match remote address");
    let fault = connect_socket(SocketAddr::V4(LOCALHOST, 80), None, Some(v6)).unwrap_err();
    assert_eq!(fault, Fault::LocalFamilyMismatch);
    match connect_socket(SocketAddr::V6(LOCALHOST_V6, 80), None, Some(v6)).unwrap() {
        SocketPlan::BindAndConnect { domain, bind, timeout } => {
            assert_eq!(domain, Domain::Ipv6);
            assert_eq!(bind, SocketAddr::V6(LOCALHOST_V6, 0));
            assert!(timeout.is_none());
        }
        SocketPlan::Connect { .. } => panic!("the socket has to be bound"),
    }
    assert!(matches_local_ip_family(&SocketAddr::V4(LOCALHOST, 1), None));
    assert!(matches_local_ip_family(&SocketAddr::V4(LOCALHOST, 1), Some(v4)));
    assert!(!matches_local_ip_family(&SocketAddr::V4(LOCALHOST, 1), Some(v6)));
    assert!(matches_local_ip_family(&SocketAddr::V6(LOCALHOST_V6, 1), Some(v6)));
}

#[test]
fn a_chained_connection_overrides() {
    let connector = TcpConnector::default();
    match connector.connect(4, ten_seconds(), Some("chained")) {
        TcpConnect::Chained(inner) => assert_eq!(inner, "chained"),
        TcpConnect::Dial { .. } => panic!("the chained connection has to be taken"),
    }
    match connector.connect(4, ten_seconds(), None::<&str>) {
        TcpConnect::Chained(_) => panic!("there is no chained connection"),
        TcpConnect::Dial { attempts, local_ip } => {
            assert_eq!(asked(attempts.current()), (0, 5333));
            assert!(local_ip.is_none());
        }
    }
}

#[test]
fn timeouts_halve_the_share() {
    let mut attempts = TcpAttempts::new(4, ten_seconds());
    assert_eq!(asked(attempts.current()), (0, 5333));
    assert_eq!(asked(advance(&mut attempts, timed_out(), secs(5))), (1, 2666));
    assert_eq!(asked(advance(&mut attempts, timed_out(), secs(7))), (2, 1333));
    assert_eq!(asked(advance(&mut attempts, timed_out(), secs(9))), (3, 666));
    let error = ended(advance(&mut attempts, timed_out(), secs(10))).unwrap_err();
    assert!(matches!(error, Error::Io(IoError::Own(Fault::NoAddressConnected))));
}

#[test]
fn refusals_halve_the_share_too() {
    let mut attempts = TcpAttempts::new(4, ten_seconds());
    assert_eq!(asked(attempts.current()), (0, 5333));
    assert_eq!(asked(advance(&mut attempts, refused(), secs(0))), (1, 2666));
    assert_eq!(asked(advance(&mut attempts, timed_out(), secs(3))), (2, 1333));
    assert_eq!(asked(advance(&mut attempts, refused(), secs(3))), (3, 666));
    assert_eq!(ended(advance(&mut attempts, Ok(42), secs(3))).unwrap(), 42);
}

#[test]
fn the_times_given_stay_within_the_budget() {
    for first in [refused, timed_out] {
        for second in [refused, timed_out] {
            let mut attempts = TcpAttempts::new(4, ten_seconds());
            let mut given = asked(attempts.current()).1;
            given += asked(advance(&mut attempts, first(), secs(1))).1;
            given += asked(advance(&mut attempts, second(), secs(2))).1;
            given += asked(advance(&mut attempts, first(), secs(3))).1;
            assert_eq!(given, 9998);
        }
    }
}

#[test]
fn no_address_connects() {
    let mut attempts = TcpAttempts::new(2, ten_seconds());
    assert_eq!(asked(advance(&mut attempts, refused(), secs(0))).0, 1);
    match ended(advance(&mut attempts, refused(), secs(0))) {
        Err(Error::Io(error)) => {
            assert_eq!(error.kind(), ErrorKind::ConnectionRefused);
            let text = "Connection refused";
            assert!(matches!(error, IoError::Own(fault) if fault.message() == text));
        }
        _ => panic!("an I/O error is expected"),
    }
    let none = TcpAttempts::new(0, ten_seconds());
    assert!(ended(none.current()).is_err());
}

#[test]
fn the_overall_timeout_ends_the_attempts() {
    let mut attempts = TcpAttempts::new(3, ten_seconds());
    let late = Duration::Exact(ExactDuration::new(10, 1));
    match ended(advance(&mut attempts, timed_out(), late)) {
        Err(Error::Timeout(reason)) => assert_eq!(reason, Timeout::Global),
        _ => panic!("a timeout is expected"),
    }
}

#[test]
fn the_clock_is_read_only_after_a_timeout() {
    let mut attempts = TcpAttempts::new(3, ten_seconds());
    assert!(matches!(attempts.current::<u32>(), Progress::Attempt(_)));
    assert!(matches!(attempts.advance(refused()), Progress::Attempt(_)));
    assert!(matches!(attempts.advance(timed_out()), Progress::ReadClock));
    assert!(matches!(attempts.current::<u32>(), Progress::ReadClock));
    assert_eq!(asked(attempts.clock_read(secs(10))).0, 2);
    assert!(matches!(attempts.advance(timed_out()), Progress::ReadClock));
    assert!(matches!(ended(attempts.clock_read(secs(11))), Err(Error::Timeout(Timeout::Global))));
    let mut attempts = TcpAttempts::new(3, ten_seconds());
    assert_eq!(ended(attempts.advance(Ok(42))).unwrap(), 42);
    let failed = Err(Error::Io(outside(ErrorKind::Other, "no route")));
    assert!(ended(attempts.advance(failed)).is_err());
}

#[test]
fn other_errors_end_the_attempts() {
    let mut attempts = TcpAttempts::new(3, ten_seconds());
    let outcome = Err(Error::Io(outside(ErrorKind::Other, "no route")));
    match ended(advance(&mut attempts, outcome, secs(0))) {
        Err(Error::Io(IoError::Outside { kind, cause })) => {
            assert_eq!(kind, ErrorKind::Other);
            assert_eq!(cause.to_string(), "no route");
        }
        _ => panic!("the error has to be passed on"),
    }
    let mismatch = Err(Error::Io(IoError::Own(Fault::LocalFamilyMismatch)));
    let mut attempts = TcpAttempts::new(3, ten_seconds());
    assert!(ended(advance(&mut attempts, mismatch, secs(0))).is_err());
}

#[test]
fn without_a_timeout_attempts_have_no_limit() {
    let timeout = NextTimeout { after: Duration::NotHappening, reason: Timeout::Connect };
    let mut attempts = TcpAttempts::new(2, timeout);
    match attempts.current::<u32>() {
        Progress::Attempt(attempt) => assert!(attempt.index == 0 && attempt.timeout.is_none()),
        _ => panic!("an attempt is expected"),
    }
    match advance(&mut attempts, timed_out(), secs(1_000_000)) {
        Progress::Attempt(attempt) => assert!(attempt.index == 1 && attempt.timeout.is_none()),
        _ => panic!("an attempt is expected"),
    }
}

#[test]
fn a_single_attempt_tells_timeouts_from_errors() {
    for kind in [ErrorKind::TimedOut, ErrorKind::WouldBlock] {
        match try_connect_single::<u32>(Err(outside(kind, "late")), true) {
            SingleStep::Done(Err(Error::Timeout(reason))) => assert_eq!(reason, Timeout::Connect),
            _ => panic!("a timeout is expected"),
        }
    }
    match try_connect_single::<u32>(Err(outside(ErrorKind::ConnectionRefused, "no")), true) {
        SingleStep::Done(Err(error)) => assert!(error.is_refused()),
        _ => panic!("an error is expected"),
    }
    assert!(matches!(try_connect_single(Ok(7u32), false), SingleStep::Done(Ok(7))));
    assert!(matches!(try_connect_single(Ok(7u32), true), SingleStep::SetNoDelay(7)));
    assert!(matches!(finish_no_delay(7u32, Ok(())), Ok(7)));
    let failed = finish_no_delay(7u32, Err(outside(ErrorKind::InvalidInput, "no")));
    assert!(matches!(failed, Err(Error::Io(error)) if error.kind() == ErrorKind::InvalidInput));
}
