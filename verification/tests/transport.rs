use ureq_transport::error::{normalize_would_block, Error, ErrorKind, IoError};
use ureq_transport::time::{Duration, ExactDuration, NextTimeout, Timeout};
use ureq_transport::transport::{
    await_input, input_to_append, is_open, maybe_update_timeout, output_to_send, probe_entered,
    probe_left, probe_read, probe_tcp_stream, transmit_output, ProbeStep, TcpTransport,
};

fn after_millis(millis: u64) -> NextTimeout {
    NextTimeout {
        after: Duration::Exact(ExactDuration::from_millis(millis)),
        reason: Timeout::RecvResponse,
    }
}

fn never() -> NextTimeout {
    NextTimeout { after: Duration::NotHappening, reason: Timeout::RecvResponse }
}

fn outside(kind: ErrorKind) -> IoError {
    IoError::Outside { kind, cause: std::io::Error::other("outside") }
}

fn nanos(update: Option<Option<ExactDuration>>) -> Option<Option<u128>> {
    update.map(|set| set.map(|timeout| timeout.as_nanos()))
}

#[test]
fn the_stream_and_the_buffers_are_kept() {
    let mut transport = TcpTransport::new("stream".to_string(), vec![1u8, 2]);
    assert_eq!(transport.stream(), "stream");
    transport.buffers().push(3);
    let (stream, buffers) = transport.parts();
    stream.push('!');
    buffers.push(4);
    assert_eq!(transport.stream(), "stream!");
    assert_eq!(*transport.buffers(), vec![1, 2, 3, 4]);
}

#[test]
fn timeouts_are_set_only_when_they_change() {
    let mut transport = TcpTransport::new((), ());
    assert_eq!(nanos(transport.begin_output(never())), None);
    let update = transport.begin_output(after_millis(20));
    assert_eq!(nanos(update), Some(Some(20_000_000)));
    assert!(transport.output_timeout_set(update.unwrap(), Ok(())).is_ok());
    assert_eq!(nanos(transport.begin_output(after_millis(20))), None);
    assert_eq!(nanos(transport.begin_input(after_millis(20))), Some(Some(20_000_000)));
    assert_eq!(nanos(transport.begin_output(never())), Some(None));
    let update = transport.begin_input(after_millis(30));
    assert!(transport.input_timeout_set(update.unwrap(), Ok(())).is_ok());
    assert_eq!(nanos(transport.begin_input(after_millis(30))), None);
    assert_eq!(nanos(transport.begin_output(after_millis(20))), None);
}

#[test]
fn a_timeout_that_was_not_set_is_set_again() {
    let mut transport = TcpTransport::new((), ());
    let update = transport.begin_output(after_millis(20)).unwrap();
    let failed = transport.output_timeout_set(update, Err(outside(ErrorKind::InvalidInput)));
    assert!(matches!(failed, Err(Error::Io(e)) if e.kind() == ErrorKind::InvalidInput));
    assert_eq!(nanos(transport.begin_output(after_millis(20))), Some(Some(20_000_000)));
    let update = transport.begin_input(after_millis(20)).unwrap();
    assert!(transport.input_timeout_set(update, Err(outside(ErrorKind::Other))).is_err());
    assert_eq!(nanos(transport.begin_input(after_millis(20))), Some(Some(20_000_000)));
}

#[test]
fn a_zero_timeout_is_set_to_a_second() {
    assert_eq!(nanos(maybe_update_timeout(after_millis(0), None)), Some(Some(1_000_000_000)));
    let second = Some(ExactDuration::from_secs(1));
    assert_eq!(nanos(maybe_update_timeout(after_millis(0), second)), None);
    assert_eq!(nanos(maybe_update_timeout(never(), second)), Some(None));
}

#[test]
fn running_out_of_time_is_a_timeout() {
    for kind in [ErrorKind::TimedOut, ErrorKind::WouldBlock] {
        let written = transmit_output(Err(outside(kind)), after_millis(1));
        assert!(matches!(written, Err(Error::Timeout(Timeout::RecvResponse))));
        let read = await_input(Err(outside(kind)), after_millis(1));
        assert!(matches!(read, Err(Error::Timeout(Timeout::RecvResponse))));
        assert_eq!(normalize_would_block(kind), ErrorKind::TimedOut);
    }
    let written = transmit_output(Err(outside(ErrorKind::Other)), after_millis(1));
    assert!(matches!(written, Err(Error::Io(IoError::Outside { kind: ErrorKind::Other, .. }))));
    let read = await_input(Err(outside(ErrorKind::Other)), after_millis(1));
    assert!(matches!(read, Err(Error::Io(IoError::Outside { kind: ErrorKind::Other, .. }))));
    assert!(transmit_output(Ok(()), after_millis(1)).is_ok());
    assert_eq!(normalize_would_block(ErrorKind::Other), ErrorKind::Other);
}

#[test]
fn reading_nothing_is_no_input() {
    assert!(matches!(await_input(Ok(0), never()), Ok(false)));
    assert!(matches!(await_input(Ok(1), never()), Ok(true)));
    assert!(matches!(await_input(Ok(4096), never()), Ok(true)));
}

#[test]
fn only_what_was_read_is_appended() {
    assert_eq!(input_to_append(&Ok(0)), 0);
    assert_eq!(input_to_append(&Ok(4096)), 4096);
    assert_eq!(input_to_append(&Err(outside(ErrorKind::WouldBlock))), 0);
}

#[test]
fn only_the_amount_asked_for_is_sent() {
    let output = [1u8, 2, 3, 4];
    assert_eq!(output_to_send(&output, 0), &[] as &[u8]);
    assert_eq!(output_to_send(&output, 3), &[1, 2, 3]);
    assert_eq!(output_to_send(&output, 4), &output);
}

fn done(step: ProbeStep) -> Result<bool, Error> {
    match step {
        ProbeStep::Done(result) => result,
        _ => panic!("the end of the probe is expected"),
    }
}

#[test]
fn a_silent_stream_is_open() {
    assert!(matches!(probe_tcp_stream(), ProbeStep::SetNonblocking(true)));
    assert!(matches!(probe_entered(Ok(())), ProbeStep::ReadByte));
    let waiting = probe_read(Err(outside(ErrorKind::WouldBlock)));
    assert!(matches!(waiting, ProbeStep::SetNonblocking(false)));
    assert!(is_open(done(probe_left(Ok(())))));
}

#[test]
fn any_other_stream_is_closed() {
    assert!(!is_open(done(probe_read(Ok(0)))));
    assert!(!is_open(done(probe_read(Ok(1)))));
    assert!(!is_open(done(probe_read(Err(outside(ErrorKind::TimedOut))))));
    assert!(!is_open(done(probe_read(Err(outside(ErrorKind::Other))))));
    assert!(done(probe_entered(Err(outside(ErrorKind::Other)))).is_err());
    assert!(!is_open(done(probe_entered(Err(outside(ErrorKind::Other))))));
    assert!(done(probe_left(Err(outside(ErrorKind::Other)))).is_err());
    assert!(!is_open(done(probe_left(Err(outside(ErrorKind::Other))))));
}
