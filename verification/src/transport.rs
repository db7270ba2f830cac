//! A transport over a connected TCP stream.

use vstd::prelude::*;

use crate::error;
use crate::error::{Error, ErrorKind, IoError};
use crate::time;
use crate::time::{Duration, ExactDuration, NextTimeout};

verus! {

/// Either of two transports.
#[derive(Debug)]
pub enum Either<A, B> {
    /// The first.
    A(A),
    /// The second.
    B(B),
}

/// Whether a socket that times out after `previous` has to be told anew, for it to time out
/// after `after`.
pub open spec fn needs_update(previous: Option<ExactDuration>, after: Duration) -> bool {
    time::nanos_of(previous) != time::not_zero_nanos(after)
}

/// Decides whether the timeout of a socket, which is `previous`, has to be set, so that there is
/// a system call only if it is necessary. `Some` holds the timeout to set.
pub fn maybe_update_timeout(timeout: NextTimeout, previous: Option<ExactDuration>) -> (update:
    Option<Option<ExactDuration>>)
    ensures
        match update {
            None => !needs_update(previous, timeout.after),
            Some(set) => {
                &&& needs_update(previous, timeout.after)
                &&& time::nanos_of(set) == time::not_zero_nanos(timeout.after)
            },
        },
{
    let wanted = timeout.not_zero();
    let unchanged = match (&wanted, &previous) {
        (None, None) => true,
        (Some(a), Some(b)) => a.same(b),
        _ => false,
    };
    if unchanged {
        None
    } else {
        Some(wanted)
    }
}

/// A socket that was told to time out after some time does not have to be told again as long as
/// that time stays the same.
pub proof fn lemma_update_settles(set: Option<ExactDuration>, after: Duration)
    requires
        time::nanos_of(set) == time::not_zero_nanos(after),
    ensures
        !needs_update(set, after),
{
}

/// A transport over the TCP stream `S`, with the buffers `B`. It remembers the timeouts that the
/// stream was last given.
pub struct TcpTransport<S, B> {
    stream: S,
    buffers: B,
    timeout_write: Option<ExactDuration>,
    timeout_read: Option<ExactDuration>,
}

impl<S, B> TcpTransport<S, B> {
    /// The stream.
    pub closed spec fn stream_spec(&self) -> S {
        self.stream
    }

    /// The buffers.
    pub closed spec fn buffers_spec(&self) -> B {
        self.buffers
    }

    /// The timeout that the stream was last given for writing.
    pub closed spec fn timeout_write(&self) -> Option<ExactDuration> {
        self.timeout_write
    }

    /// The timeout that the stream was last given for reading.
    pub closed spec fn timeout_read(&self) -> Option<ExactDuration> {
        self.timeout_read
    }

    /// A transport over a stream that has no timeouts yet.
    pub fn new(stream: S, buffers: B) -> (transport: TcpTransport<S, B>)
        ensures
            transport.stream_spec() == stream,
            transport.buffers_spec() == buffers,
            transport.timeout_write() is None,
            transport.timeout_read() is None,
    {
        TcpTransport { stream, buffers, timeout_read: None, timeout_write: None }
    }

    /// The stream.
    pub fn stream(&self) -> (stream: &S)
        ensures
            *stream == self.stream_spec(),
    {
        &self.stream
    }

    /// The buffers.
    pub fn buffers(&mut self) -> (buffers: &mut B)
        ensures
            *buffers == old(self).buffers_spec(),
            final(self).buffers_spec() == *final(buffers),
            final(self).stream_spec() == old(self).stream_spec(),
            final(self).timeout_write() == old(self).timeout_write(),
            final(self).timeout_read() == old(self).timeout_read(),
    {
        &mut self.buffers
    }

    /// The stream and the buffers, to move bytes between them.
    pub fn parts(&mut self) -> (parts: (&mut S, &mut B))
        ensures
            *parts.0 == old(self).stream_spec(),
            *parts.1 == old(self).buffers_spec(),
            final(self).stream_spec() == *final(parts.0),
            final(self).buffers_spec() == *final(parts.1),
            final(self).timeout_write() == old(self).timeout_write(),
            final(self).timeout_read() == old(self).timeout_read(),
    {
        (&mut self.stream, &mut self.buffers)
    }

    /// Begins to send output under `timeout`: `Some` holds the timeout that the stream has to be
    /// given for writing first.
    pub fn begin_output(&self, timeout: NextTimeout) -> (update: Option<Option<ExactDuration>>)
        ensures
            match update {
                None => !needs_update(self.timeout_write(), timeout.after),
                Some(set) => {
                    &&& needs_update(self.timeout_write(), timeout.after)
                    &&& time::nanos_of(set) == time::not_zero_nanos(timeout.after)
                },
            },
    {
        maybe_update_timeout(timeout, self.timeout_write)
    }

    /// Takes note of how setting the timeout for writing to `set` went. If it failed, the
    /// timeout that is remembered stays what it was, so that it is tried again.
    pub fn output_timeout_set(
        &mut self,
        set: Option<ExactDuration>,
        outcome: Result<(), IoError>,
    ) -> (done: Result<(), Error>)
        ensures
            match outcome {
                Ok(()) => done is Ok && final(self).timeout_write() == set,
                Err(error) => done == Err::<(), Error>(Error::Io(error))
                    && final(self).timeout_write() == old(self).timeout_write(),
            },
            final(self).timeout_read() == old(self).timeout_read(),
            final(self).stream_spec() == old(self).stream_spec(),
            final(self).buffers_spec() == old(self).buffers_spec(),
    {
        match outcome {
            Ok(()) => {
                self.timeout_write = set;
                Ok(())
            },
            Err(error) => Err(Error::Io(error)),
        }
    }

    /// Begins to wait for input under `timeout`: `Some` holds the timeout that the stream has to
    /// be given for reading first.
    pub fn begin_input(&self, timeout: NextTimeout) -> (update: Option<Option<ExactDuration>>)
        ensures
            match update {
                None => !needs_update(self.timeout_read(), timeout.after),
                Some(set) => {
                    &&& needs_update(self.timeout_read(), timeout.after)
                    &&& time::nanos_of(set) == time::not_zero_nanos(timeout.after)
                },
            },
    {
        maybe_update_timeout(timeout, self.timeout_read)
    }

    /// Takes note of how setting the timeout for reading to `set` went. If it failed, the
    /// timeout that is remembered stays what it was, so that it is tried again.
    pub fn input_timeout_set(
        &mut self,
        set: Option<ExactDuration>,
        outcome: Result<(), IoError>,
    ) -> (done: Result<(), Error>)
        ensures
            match outcome {
                Ok(()) => done is Ok && final(self).timeout_read() == set,
                Err(error) => done == Err::<(), Error>(Error::Io(error))
                    && final(self).timeout_read() == old(self).timeout_read(),
            },
            final(self).timeout_write() == old(self).timeout_write(),
            final(self).stream_spec() == old(self).stream_spec(),
            final(self).buffers_spec() == old(self).buffers_spec(),
    {
        match outcome {
            Ok(()) => {
                self.timeout_read = set;
                Ok(())
            },
            Err(error) => Err(Error::Io(error)),
        }
    }
}

/// The part of the output to send.
pub fn output_to_send(output: &[u8], amount: usize) -> (part: &[u8])
    requires
        amount <= output@.len(),
    ensures
        part@ == output@.take(amount as int),
{
    let part = vstd::slice::slice_subrange(output, 0, amount);
    assert(part@ =~= output@.take(amount as int));
    part
}

/// Sorts how sending went: running out of time is the timeout that was to come next.
pub fn transmit_output(written: Result<(), IoError>, timeout: NextTimeout) -> (done: Result<
    (),
    Error,
>)
    ensures
        done == error::timed_spec(written, timeout.reason),
{
    error::timed(written, timeout.reason)
}

/// The number of bytes that reading added to the input buffer: as many as were read, and none if
/// reading failed.
pub fn input_to_append(read: &Result<usize, IoError>) -> (amount: usize)
    ensures
        amount == match *read {
            Ok(count) => count,
            Err(_) => 0,
        },
{
    match read {
        Ok(count) => *count,
        Err(_) => 0,
    }
}

/// What waiting for input came to: whether there is any, or why there is none. Reading nothing
/// means that the peer has closed the stream.
pub open spec fn input_outcome(read: Result<usize, IoError>, timeout: NextTimeout) -> Result<
    bool,
    Error,
> {
    match error::timed_spec(read, timeout.reason) {
        Ok(amount) => Ok(amount > 0),
        Err(error) => Err(error),
    }
}

/// Sorts how reading went: whether there is input, with running out of time the timeout that was
/// to come next.
pub fn await_input(read: Result<usize, IoError>, timeout: NextTimeout) -> (has_input: Result<
    bool,
    Error,
>)
    ensures
        has_input == input_outcome(read, timeout),
{
    match error::timed(read, timeout.reason) {
        Ok(amount) => Ok(amount > 0),
        Err(error) => Err(error),
    }
}

/// What probing a stream asks for next.
#[derive(Debug)]
pub enum ProbeStep {
    /// Let operations on the stream wait, or not wait.
    SetNonblocking(bool),
    /// Read a byte.
    ReadByte,
    /// The probe is over: whether the stream can still be used.
    Done(Result<bool, Error>),
}

/// What follows from having made the stream nonblocking.
pub open spec fn probe_after_enter(entered: Result<(), IoError>) -> ProbeStep {
    match entered {
        Ok(()) => ProbeStep::ReadByte,
        Err(error) => ProbeStep::Done(Err(Error::Io(error))),
    }
}

/// What follows from having read a byte. That reading would have to wait is the right condition:
/// bytes that nobody asked for, the end of the stream and any other error all say that the
/// stream is of no use any more.
pub open spec fn probe_after_read(read: Result<usize, IoError>) -> ProbeStep {
    if read matches Err(error) && error.kind() == ErrorKind::WouldBlock {
        ProbeStep::SetNonblocking(false)
    } else {
        ProbeStep::Done(Ok(false))
    }
}

/// What follows from having made the stream blocking again.
pub open spec fn probe_after_leave(left: Result<(), IoError>) -> ProbeStep {
    match left {
        Ok(()) => ProbeStep::Done(Ok(true)),
        Err(error) => ProbeStep::Done(Err(Error::Io(error))),
    }
}

/// Begins to probe whether a stream that is not in use is still open.
pub fn probe_tcp_stream() -> (step: ProbeStep)
    ensures
        step == ProbeStep::SetNonblocking(true),
{
    ProbeStep::SetNonblocking(true)
}

/// Goes on with the probe after the stream was made nonblocking.
pub fn probe_entered(entered: Result<(), IoError>) -> (step: ProbeStep)
    ensures
        step == probe_after_enter(entered),
{
    match entered {
        Ok(()) => ProbeStep::ReadByte,
        Err(error) => ProbeStep::Done(Err(Error::Io(error))),
    }
}

/// Goes on with the probe after a byte was read.
pub fn probe_read(read: Result<usize, IoError>) -> (step: ProbeStep)
    ensures
        step == probe_after_read(read),
{
    match read {
        Err(error) => if error.kind() == ErrorKind::WouldBlock {
            ProbeStep::SetNonblocking(false)
        } else {
            ProbeStep::Done(Ok(false))
        },
        Ok(_) => ProbeStep::Done(Ok(false)),
    }
}

/// Ends the probe after the stream was made blocking again.
pub fn probe_left(left: Result<(), IoError>) -> (step: ProbeStep)
    ensures
        step == probe_after_leave(left),
{
    match left {
        Ok(()) => ProbeStep::Done(Ok(true)),
        Err(error) => ProbeStep::Done(Err(Error::Io(error))),
    }
}

/// Whether a probe found the stream open. A probe that failed did not.
pub fn is_open(probed: Result<bool, Error>) -> (open: bool)
    ensures
        open == (probed matches Ok(found) && found),
{
    match probed {
        Ok(found) => found,
        Err(_) => false,
    }
}

/// What a whole probe comes to, if its three operations end as given.
pub open spec fn probe_result(
    entered: Result<(), IoError>,
    read: Result<usize, IoError>,
    left: Result<(), IoError>,
) -> Result<bool, Error> {
    match probe_after_enter(entered) {
        ProbeStep::Done(result) => result,
        _ => match probe_after_read(read) {
            ProbeStep::Done(result) => result,
            _ => probe_after_leave(left)->Done_0,
        },
    }
}

/// A stream is found open only if it is silent, and if it is blocking again as it was before.
pub proof fn lemma_open_is_silent_and_blocking(
    entered: Result<(), IoError>,
    read: Result<usize, IoError>,
    left: Result<(), IoError>,
)
    ensures
        (probe_result(entered, read, left) == Ok::<bool, Error>(true)) == {
            &&& entered is Ok
            &&& probe_after_read(read) == ProbeStep::SetNonblocking(false)
            &&& read matches Err(error) && error.kind() == ErrorKind::WouldBlock
            &&& left is Ok
        },
{
}

/// Whether a socket with the timeout `given` times out after `after`: never if that never comes,
/// and after a second in place of no time at all.
pub open spec fn times_out_after(given: Option<ExactDuration>, after: Duration) -> bool {
    match (given, after) {
        (None, Duration::NotHappening) => true,
        (Some(exact), Duration::Exact(wanted)) => if wanted@ == 0 {
            exact@ == 1_000_000_000
        } else {
            exact@ == wanted@
        },
        _ => false,
    }
}

/// Whether `update` is the least that makes a socket with the timeout `previous` time out after
/// `after`: nothing if it does so already, and otherwise the timeout with which it does.
pub open spec fn is_least_update(
    update: Option<Option<ExactDuration>>,
    previous: Option<ExactDuration>,
    after: Duration,
) -> bool {
    match update {
        None => times_out_after(previous, after),
        Some(set) => !times_out_after(previous, after) && times_out_after(set, after),
    }
}

/// A socket is told a timeout if and only if it would not time out when it has to, and it then
/// does.
pub proof fn lemma_socket_times_out_when_it_has_to(
    timeout: NextTimeout,
    previous: Option<ExactDuration>,
    update: Option<Option<ExactDuration>>,
)
    requires
        call_ensures(maybe_update_timeout, (timeout, previous), update),
    ensures
        is_least_update(update, previous, timeout.after),
{
}

/// A new transport takes its stream to have no timeouts.
pub proof fn lemma_new_transport_has_no_timeouts<S, B>(
    stream: S,
    buffers: B,
    transport: TcpTransport<S, B>,
    held: &S,
)
    requires
        call_ensures(TcpTransport::<S, B>::new, (stream, buffers), transport),
        call_ensures(TcpTransport::<S, B>::stream, (&transport,), held),
    ensures
        *held == stream,
        transport.buffers_spec() == buffers,
        transport.timeout_write() == None::<ExactDuration>,
        transport.timeout_read() == None::<ExactDuration>,
{
}

/// Output and input have a timeout each. Before either the stream is told just what it was not
/// told before.
pub proof fn lemma_each_way_has_its_timeout<S, B>(
    transport: TcpTransport<S, B>,
    timeout: NextTimeout,
    output: Option<Option<ExactDuration>>,
    input: Option<Option<ExactDuration>>,
)
    requires
        call_ensures(TcpTransport::<S, B>::begin_output, (&transport, timeout), output),
        call_ensures(TcpTransport::<S, B>::begin_input, (&transport, timeout), input),
    ensures
        is_least_update(output, transport.timeout_write(), timeout.after),
        is_least_update(input, transport.timeout_read(), timeout.after),
{
}

/// Once the stream has taken a timeout for writing, it is not told again for the same time. If it
/// has not taken it, it is told again, and the error is handed on. Reading is left alone.
pub proof fn lemma_output_timeout_is_remembered<S, B>(
    before: TcpTransport<S, B>,
    after: TcpTransport<S, B>,
    timeout: NextTimeout,
    set: Option<ExactDuration>,
    outcome: Result<(), IoError>,
    done: Result<(), Error>,
    again: Option<Option<ExactDuration>>,
)
    requires
        call_ensures(TcpTransport::<S, B>::begin_output, (&before, timeout), Some(set)),
        exists|transport: &mut TcpTransport<S, B>|
            {
                &&& *transport == before
                &&& *final(transport) == after
                &&& #[trigger] call_ensures(
                    TcpTransport::<S, B>::output_timeout_set,
                    (transport, set, outcome),
                    done,
                )
            },
        call_ensures(TcpTransport::<S, B>::begin_output, (&after, timeout), again),
    ensures
        is_handed_on(outcome, done),
        outcome is Ok ==> again is None,
        outcome is Err ==> again is Some,
        after.timeout_read() == before.timeout_read(),
        after.stream_spec() == before.stream_spec(),
        after.buffers_spec() == before.buffers_spec(),
{
}

/// Once the stream has taken a timeout for reading, it is not told again for the same time. If it
/// has not taken it, it is told again, and the error is handed on. Writing is left alone.
pub proof fn lemma_input_timeout_is_remembered<S, B>(
    before: TcpTransport<S, B>,
    after: TcpTransport<S, B>,
    timeout: NextTimeout,
    set: Option<ExactDuration>,
    outcome: Result<(), IoError>,
    done: Result<(), Error>,
    again: Option<Option<ExactDuration>>,
)
    requires
        call_ensures(TcpTransport::<S, B>::begin_input, (&before, timeout), Some(set)),
        exists|transport: &mut TcpTransport<S, B>|
            {
                &&& *transport == before
                &&& *final(transport) == after
                &&& #[trigger] call_ensures(
                    TcpTransport::<S, B>::input_timeout_set,
                    (transport, set, outcome),
                    done,
                )
            },
        call_ensures(TcpTransport::<S, B>::begin_input, (&after, timeout), again),
    ensures
        is_handed_on(outcome, done),
        outcome is Ok ==> again is None,
        outcome is Err ==> again is Some,
        after.timeout_write() == before.timeout_write(),
        after.stream_spec() == before.stream_spec(),
        after.buffers_spec() == before.buffers_spec(),
{
}

/// Whether `done` is just what an operation on a socket ended with.
pub open spec fn is_handed_on(outcome: Result<(), IoError>, done: Result<(), Error>) -> bool {
    match (outcome, done) {
        (Ok(()), Ok(())) => true,
        (Err(error), Err(Error::Io(same))) => same == error,
        _ => false,
    }
}

/// As many bytes are sent as were asked for, and they are those that the output begins with, each
/// in its place.
pub proof fn lemma_output_is_sent_from_its_beginning(output: &[u8], amount: usize, part: &[u8])
    requires
        amount <= output@.len(),
        call_ensures(output_to_send, (output, amount), part),
    ensures
        part@.len() == amount,
        forall|i: int| 0 <= i < amount ==> #[trigger] part@[i] == output@[i],
{
}

/// Sending ends well if and only if all was written. It ends as the timeout that was to come if
/// time ran out, and otherwise with the error as it was.
pub proof fn lemma_output_is_sent_or_fails(
    written: Result<(), IoError>,
    timeout: NextTimeout,
    done: Result<(), Error>,
)
    requires
        call_ensures(transmit_output, (written, timeout), done),
    ensures
        error::is_sorted_outcome(written, timeout.reason, done),
{
}

/// After reading, there is input if and only if anything is added to the buffer, however much it
/// is. All that was read is added.
pub proof fn lemma_input_is_what_was_read(
    amount: usize,
    timeout: NextTimeout,
    has_input: Result<bool, Error>,
    added: usize,
)
    requires
        call_ensures(await_input, (Ok::<usize, IoError>(amount), timeout), has_input),
        call_ensures(input_to_append, (&Ok::<usize, IoError>(amount),), added),
    ensures
        added == amount,
        has_input == Ok::<bool, Error>(true) <==> added > 0,
        has_input == Ok::<bool, Error>(false) <==> added == 0,
{
}

/// If reading failed, nothing is added to the buffer, and waiting ends as the timeout that was to
/// come if time ran out, and otherwise with the error as it was.
pub proof fn lemma_failed_reading_adds_nothing(
    error: IoError,
    timeout: NextTimeout,
    has_input: Result<bool, Error>,
    added: usize,
)
    requires
        call_ensures(await_input, (Err::<usize, IoError>(error), timeout), has_input),
        call_ensures(input_to_append, (&Err::<usize, IoError>(error),), added),
    ensures
        added == 0,
        match has_input {
            Ok(_) => false,
            Err(Error::Timeout(reason)) => reason == timeout.reason && error::says_time_ran_out(
                error,
            ),
            Err(Error::Io(same)) => same == error && !error::says_time_ran_out(error),
        },
{
}

/// A probe makes the stream nonblocking, reads, and makes it blocking again. It finds the stream
/// open if and only if all three went as they do on a silent stream: reading would have had to
/// wait, and the other two worked. If one of these two did not work, the probe ends with its
/// error, and the stream does not count as open.
pub proof fn lemma_probe_finds_silent_streams_open(
    entered: Result<(), IoError>,
    read: Result<usize, IoError>,
    left: Result<(), IoError>,
    first: ProbeStep,
    second: ProbeStep,
    third: ProbeStep,
    last: ProbeStep,
)
    requires
        call_ensures(probe_tcp_stream, (), first),
        call_ensures(probe_entered, (entered,), second),
        call_ensures(probe_read, (read,), third),
        call_ensures(probe_left, (left,), last),
    ensures
        first == ProbeStep::SetNonblocking(true),
        match (entered, second) {
            (Ok(()), ProbeStep::ReadByte) => true,
            (Err(error), ProbeStep::Done(Err(Error::Io(same)))) => same == error,
            _ => false,
        },
        match third {
            ProbeStep::SetNonblocking(on) => !on && would_wait(read),
            ProbeStep::Done(Ok(found)) => !found && !would_wait(read),
            _ => false,
        },
        match (left, last) {
            (Ok(()), ProbeStep::Done(Ok(found))) => found,
            (Err(error), ProbeStep::Done(Err(Error::Io(same)))) => same == error,
            _ => false,
        },
{
}

/// Whether reading ended because it would have had to wait.
pub open spec fn would_wait(read: Result<usize, IoError>) -> bool {
    match read {
        Err(IoError::Outside { kind, cause: _ }) => kind is WouldBlock,
        _ => false,
    }
}

/// A stream counts as open if and only if the probe found it so.
pub proof fn lemma_failed_probe_is_not_open(
    found: bool,
    error: Error,
    open: bool,
    open_after_error: bool,
)
    requires
        call_ensures(is_open, (Ok::<bool, Error>(found),), open),
        call_ensures(is_open, (Err::<bool, Error>(error),), open_after_error),
    ensures
        open == found,
        !open_after_error,
{
}

} // verus!
