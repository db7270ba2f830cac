//! Connecting to a host over TCP.

use vstd::prelude::*;

use crate::addr;
use crate::addr::{IpAddr, SocketAddr};
use crate::budget;
use crate::error;
use crate::error::{Error, Fault, IoError};
use crate::time;
use crate::time::{Duration, ExactDuration, NextTimeout, Timeout};

verus! {

/// Connector for regular TCP sockets.
pub struct TcpConnector {
    local_ip: Option<IpAddr>,
}

impl Default for TcpConnector {
    fn default() -> (connector: TcpConnector)
        ensures
            connector.local_ip_spec() is None,
    {
        TcpConnector { local_ip: None }
    }
}

/// How a TCP connector goes about a connection.
#[derive(Debug)]
pub enum TcpConnect<In> {
    /// It takes the connection that is there already.
    Chained(In),
    /// It opens a connection of its own.
    Dial {
        /// The attempts to open it.
        attempts: TcpAttempts,
        /// The local IP that every attempt is bound to, if there is one.
        local_ip: Option<IpAddr>,
    },
}

impl TcpConnector {
    /// The local IP that outgoing sockets are bound to, if they are bound at all.
    pub closed spec fn local_ip_spec(&self) -> Option<IpAddr> {
        self.local_ip
    }

    /// Bind outgoing TCP sockets to this local IP before connecting.
    pub fn with_local_ip(local_ip: IpAddr) -> (connector: TcpConnector)
        ensures
            connector.local_ip_spec() == Some(local_ip),
    {
        TcpConnector { local_ip: Some(local_ip) }
    }

    /// The local IP that outgoing sockets are bound to, if they are bound at all.
    pub fn local_ip(&self) -> (local_ip: Option<IpAddr>)
        ensures
            local_ip == self.local_ip_spec(),
    {
        self.local_ip
    }

    /// Decides how to connect to a host with `num_addrs` addresses. A connection that an earlier
    /// connector opened, such as one through a SOCKS proxy, overrides what would be opened here.
    pub fn connect<In>(&self, num_addrs: usize, timeout: NextTimeout, chained: Option<In>) -> (way:
        TcpConnect<In>)
        ensures
            match chained {
                Some(inner) => way == TcpConnect::Chained(inner),
                None => {
                    &&& way matches TcpConnect::Dial { attempts, local_ip }
                    &&& attempts.starts(num_addrs, timeout)
                    &&& local_ip == self.local_ip_spec()
                },
            },
    {
        match chained {
            Some(inner) => TcpConnect::Chained(inner),
            None => TcpConnect::Dial {
                attempts: TcpAttempts::new(num_addrs, timeout),
                local_ip: self.local_ip,
            },
        }
    }
}

/// The address family of a socket.
#[derive(Debug, Clone, Copy, PartialEq, Eq, Structural)]
pub enum Domain {
    /// IPv4.
    Ipv4,
    /// IPv6.
    Ipv6,
}

/// How a socket is connected. A `timeout` of `None` lets the operating system decide how long to
/// wait.
#[derive(Debug, Clone, Copy)]
pub enum SocketPlan {
    /// Connect, from whatever local address the operating system picks.
    Connect {
        /// How long to wait.
        timeout: Option<ExactDuration>,
    },
    /// Make a socket of the family `domain`, bind it to `bind`, then connect it.
    BindAndConnect {
        /// The family of the socket.
        domain: Domain,
        /// The local address, with port 0 so that the operating system picks the port.
        bind: SocketAddr,
        /// How long to wait.
        timeout: Option<ExactDuration>,
    },
}

/// How to connect a socket to `addr`, bound to `local_ip` if there is one. The two have to be of
/// one family.
pub open spec fn socket_plan(
    addr: SocketAddr,
    timeout: Option<ExactDuration>,
    local_ip: Option<IpAddr>,
) -> Result<SocketPlan, Fault> {
    match local_ip {
        None => Ok(SocketPlan::Connect { timeout }),
        Some(local) => if addr::family_matches(addr, local_ip) {
            Ok(
                SocketPlan::BindAndConnect {
                    domain: if addr is V4 {
                        Domain::Ipv4
                    } else {
                        Domain::Ipv6
                    },
                    bind: SocketAddr::of(local, 0),
                    timeout,
                },
            )
        } else {
            Err(Fault::LocalFamilyMismatch)
        },
    }
}

/// Plans how to connect a socket to `addr`, bound to `local_ip` if there is one.
pub fn connect_socket(
    addr: SocketAddr,
    timeout: Option<ExactDuration>,
    local_ip: Option<IpAddr>,
) -> (plan: Result<SocketPlan, Fault>)
    ensures
        plan == socket_plan(addr, timeout, local_ip),
{
    match local_ip {
        None => Ok(SocketPlan::Connect { timeout }),
        Some(local) => {
            if local.is_ipv4() != addr.is_ipv4() {
                return Err(Fault::LocalFamilyMismatch);
            }
            let domain = if addr.is_ipv4() {
                Domain::Ipv4
            } else {
                Domain::Ipv6
            };
            Ok(SocketPlan::BindAndConnect { domain, bind: SocketAddr::new(local, 0), timeout })
        },
    }
}

/// What is left to do once it is known whether a socket connected.
#[derive(Debug)]
pub enum SingleStep<S> {
    /// Switch off the delay of small packets, and report the outcome.
    SetNoDelay(S),
    /// The attempt is over.
    Done(Result<S, Error>),
}

/// What follows from the outcome of connecting to one address. The reason of a timeout is not
/// passed on by the attempts that this is part of.
pub open spec fn single_step<S>(connected: Result<S, IoError>, no_delay: bool) -> SingleStep<S> {
    match error::timed_spec(connected, Timeout::Connect) {
        Ok(stream) => if no_delay {
            SingleStep::SetNoDelay(stream)
        } else {
            SingleStep::Done(Ok(stream))
        },
        Err(error) => SingleStep::Done(Err(error)),
    }
}

/// Goes on with an attempt after the socket connected, or failed to.
pub fn try_connect_single<S>(connected: Result<S, IoError>, no_delay: bool) -> (step: SingleStep<S>)
    ensures
        step == single_step(connected, no_delay),
{
    match error::timed(connected, Timeout::Connect) {
        Ok(stream) => if no_delay {
            SingleStep::SetNoDelay(stream)
        } else {
            SingleStep::Done(Ok(stream))
        },
        Err(error) => SingleStep::Done(Err(error)),
    }
}

/// The stream with its option set, or the error with which that failed.
pub open spec fn no_delay_outcome<S>(stream: S, outcome: Result<(), IoError>) -> Result<S, Error> {
    match outcome {
        Ok(()) => Ok(stream),
        Err(error) => Err(Error::Io(error)),
    }
}

/// Ends an attempt, or a whole connection through a proxy, with the outcome of switching off the
/// delay of small packets.
pub fn finish_no_delay<S>(stream: S, outcome: Result<(), IoError>) -> (done: Result<S, Error>)
    ensures
        done == no_delay_outcome(stream, outcome),
{
    match outcome {
        Ok(()) => Ok(stream),
        Err(error) => Err(Error::Io(error)),
    }
}

/// One attempt to connect.
#[derive(Debug, Clone, Copy)]
pub struct Attempt {
    /// The index of the address to connect to.
    pub index: usize,
    /// How long to wait, or `None` for no limit.
    pub timeout: Option<ExactDuration>,
}

/// What the attempts ask for next.
#[derive(Debug)]
pub enum Progress<S> {
    /// Try to connect to this address.
    Attempt(Attempt),
    /// Read the clock, and say how much time has elapsed since the start.
    ReadClock,
    /// The attempts are over.
    Done(Result<S, Error>),
}

/// The time that the attempt at the address at `index` is given, in nanoseconds, or `None` for
/// no limit.
pub open spec fn attempt_nanos(after: Duration, num_addrs: nat, index: nat) -> Option<nat> {
    match time::not_zero_nanos(after) {
        None => None,
        Some(nanos) => Some(
            budget::attempt_millis(nanos, num_addrs, index) * time::NANOS_PER_MILLI as nat,
        ),
    }
}

/// The result of having tried every address in vain.
pub open spec fn none_connected<S>() -> Result<S, Error> {
    Err(Error::Io(IoError::Own(Fault::NoAddressConnected)))
}

/// The attempts to connect to the addresses of a host, one after another, until one connects.
///
/// The time to connect is shared between the addresses: see [`budget`]. The share of an address
/// goes by its place alone. The first has the largest, and each has half of the one before it,
/// whether that one timed out or refused the connection at once.
///
/// The clock is read after an attempt that timed out, to see whether there is any time left for
/// the others, and at no other time.
#[derive(Debug)]
pub struct TcpAttempts {
    num_addrs: usize,
    timeout: NextTimeout,
    index: usize,
    awaits_clock: bool,
}

impl TcpAttempts {
    #[verifier::type_invariant]
    closed spec fn in_range(self) -> bool {
        &&& self.index <= self.num_addrs
        &&& self.awaits_clock ==> self.index < self.num_addrs
    }

    /// The number of addresses.
    pub closed spec fn num_addrs(self) -> nat {
        self.num_addrs as nat
    }

    /// The timeout for all the attempts together.
    pub closed spec fn timeout(self) -> NextTimeout {
        self.timeout
    }

    /// The number of addresses that were tried in vain.
    pub closed spec fn index(self) -> nat {
        self.index as nat
    }

    /// Whether the attempt at the address at the index timed out, and the time that has elapsed
    /// decides how to go on.
    pub closed spec fn awaits_clock(self) -> bool {
        self.awaits_clock
    }

    /// Whether there is an attempt of which the outcome is awaited.
    pub open spec fn awaits_outcome(self) -> bool {
        self.index() < self.num_addrs() && !self.awaits_clock()
    }

    /// Whether these attempts are about to start.
    pub open spec fn starts(self, num_addrs: usize, timeout: NextTimeout) -> bool {
        &&& self.num_addrs() == num_addrs
        &&& self.timeout() == timeout
        &&& self.index() == 0
        &&& !self.awaits_clock()
    }

    /// Whether `progress` is what these attempts ask for: the clock, if they await it; otherwise
    /// the address at their index with the time that is due to it, or, with no address left, the
    /// end.
    pub open spec fn asks_for<S>(self, progress: Progress<S>) -> bool {
        if self.awaits_clock() {
            progress is ReadClock
        } else if self.index() < self.num_addrs() {
            &&& progress matches Progress::Attempt(attempt)
            &&& attempt.index == self.index()
            &&& time::nanos_of(attempt.timeout) == attempt_nanos(
                self.timeout().after,
                self.num_addrs(),
                self.index(),
            )
        } else {
            progress == Progress::Done(none_connected::<S>())
        }
    }

    /// Whether `next` are these attempts with one more address tried in vain.
    pub open spec fn moves_on(self, next: TcpAttempts) -> bool {
        &&& next.num_addrs() == self.num_addrs()
        &&& next.timeout() == self.timeout()
        &&& next.index() == self.index() + 1
        &&& !next.awaits_clock()
    }

    /// Whether `next` are these attempts with the clock awaited.
    pub open spec fn turns_to_clock(self, next: TcpAttempts) -> bool {
        &&& next.num_addrs() == self.num_addrs()
        &&& next.timeout() == self.timeout()
        &&& next.index() == self.index()
        &&& next.awaits_clock()
    }

    /// Whether `next` with `progress` is what follows from an outcome: after a timeout the clock
    /// is asked for, after a refusal the next address is, and any other outcome is the result.
    pub open spec fn advances<S>(
        self,
        outcome: Result<S, Error>,
        next: TcpAttempts,
        progress: Progress<S>,
    ) -> bool {
        match outcome {
            Err(Error::Timeout(_)) => {
                &&& self.turns_to_clock(next)
                &&& progress is ReadClock
            },
            Err(error) if error.refused() => {
                &&& self.moves_on(next)
                &&& next.asks_for(progress)
            },
            other => {
                &&& next == self
                &&& progress == Progress::Done(other)
            },
        }
    }

    /// Whether `next` with `progress` is what follows from the time that has elapsed: the timeout
    /// for all the attempts if it is over, and otherwise what is asked for next.
    pub open spec fn weighs<S>(
        self,
        elapsed: Duration,
        next: TcpAttempts,
        progress: Progress<S>,
    ) -> bool {
        if elapsed.longer_than(self.timeout().after) {
            &&& next == self
            &&& progress == Progress::Done(Err::<S, Error>(Error::Timeout(self.timeout().reason)))
        } else {
            &&& self.moves_on(next)
            &&& next.asks_for(progress)
        }
    }

    /// Attempts for a host with `num_addrs` addresses.
    pub fn new(num_addrs: usize, timeout: NextTimeout) -> (attempts: TcpAttempts)
        ensures
            attempts.starts(num_addrs, timeout),
    {
        TcpAttempts { num_addrs, timeout, index: 0, awaits_clock: false }
    }

    /// What to do now.
    pub fn current<S>(&self) -> (progress: Progress<S>)
        ensures
            self.asks_for(progress),
    {
        proof {
            use_type_invariant(self);
        }
        if self.awaits_clock {
            Progress::ReadClock
        } else if self.index < self.num_addrs {
            let timeout = match self.timeout.not_zero() {
                None => None,
                Some(total) => Some(budget::attempt_budget(total, self.num_addrs, self.index)),
            };
            Progress::Attempt(Attempt { index: self.index, timeout })
        } else {
            Progress::Done(Err(Error::Io(IoError::Own(Fault::NoAddressConnected))))
        }
    }

    /// Goes on with the outcome of the attempt that was asked for.
    pub fn advance<S>(&mut self, outcome: Result<S, Error>) -> (progress: Progress<S>)
        requires
            old(self).awaits_outcome(),
        ensures
            old(self).advances(outcome, *final(self), progress),
    {
        proof {
            use_type_invariant(&*self);
        }
        match outcome {
            Ok(stream) => {
                return Progress::Done(Ok(stream));
            },
            Err(Error::Timeout(_)) => {
                self.awaits_clock = true;
                return Progress::ReadClock;
            },
            Err(error) => {
                if !error.is_refused() {
                    return Progress::Done(Err(error));
                }
            },
        }
        self.index = self.index + 1;
        self.current()
    }

    /// Goes on with the time that has elapsed since the start, when the clock was asked for.
    pub fn clock_read<S>(&mut self, elapsed: Duration) -> (progress: Progress<S>)
        requires
            old(self).awaits_clock(),
        ensures
            old(self).weighs(elapsed, *final(self), progress),
    {
        proof {
            use_type_invariant(&*self);
        }
        if elapsed.is_longer_than(&self.timeout.after) {
            return Progress::Done(Err(Error::Timeout(self.timeout.reason)));
        }
        self.awaits_clock = false;
        self.index = self.index + 1;
        self.current()
    }
}

} // verus!
