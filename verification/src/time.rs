//! Durations, timeouts, and the budget that a connection attempt gets.

use vstd::prelude::*;

verus! {

/// Nanoseconds in one second.
pub const NANOS_PER_SEC: u32 = 1_000_000_000;

/// Nanoseconds in one millisecond.
pub const NANOS_PER_MILLI: u32 = 1_000_000;

/// A length of time with nanosecond precision. The view is its number of nanoseconds.
#[derive(Debug, Clone, Copy, PartialEq, Eq, Structural)]
pub struct ExactDuration {
    secs: u64,
    nanos: u32,
}

impl View for ExactDuration {
    type V = nat;

    closed spec fn view(&self) -> nat {
        (self.secs * NANOS_PER_SEC + self.nanos) as nat
    }
}

impl ExactDuration {
    #[verifier::type_invariant]
    closed spec fn canonical(self) -> bool {
        self.nanos < NANOS_PER_SEC
    }

    /// The duration of `secs` seconds and `nanos` nanoseconds.
    pub fn new(secs: u64, nanos: u32) -> (duration: ExactDuration)
        requires
            nanos < NANOS_PER_SEC,
        ensures
            duration@ == secs * NANOS_PER_SEC + nanos,
    {
        ExactDuration { secs, nanos }
    }

    /// The duration of `secs` seconds.
    pub fn from_secs(secs: u64) -> (duration: ExactDuration)
        ensures
            duration@ == secs * NANOS_PER_SEC,
    {
        ExactDuration { secs, nanos: 0 }
    }

    /// The duration of `millis` milliseconds.
    pub fn from_millis(millis: u64) -> (duration: ExactDuration)
        ensures
            duration@ == millis * NANOS_PER_MILLI,
    {
        ExactDuration { secs: millis / 1000, nanos: (millis % 1000) as u32 * NANOS_PER_MILLI }
    }

    /// The whole seconds of the duration.
    pub fn as_secs(&self) -> (secs: u64)
        ensures
            secs == self@ / NANOS_PER_SEC as nat,
    {
        proof {
            use_type_invariant(self);
        }
        self.secs
    }

    /// The nanoseconds that remain beside the whole seconds.
    pub fn subsec_nanos(&self) -> (nanos: u32)
        ensures
            nanos == self@ % NANOS_PER_SEC as nat,
    {
        proof {
            use_type_invariant(self);
        }
        self.nanos
    }

    /// The duration in nanoseconds.
    pub fn as_nanos(&self) -> (nanos: u128)
        ensures
            nanos == self@,
            nanos < 0x1_0000_0000_0000_0000 * NANOS_PER_SEC,
    {
        proof {
            use_type_invariant(self);
        }
        let whole: u128 = self.secs as u128 * NANOS_PER_SEC as u128;
        assert(whole <= u64::MAX * 1_000_000_000) by (nonlinear_arith)
            requires
                whole == self.secs * 1_000_000_000,
                self.secs <= u64::MAX,
        ;
        whole + self.nanos as u128
    }

    /// Whether the duration is of zero length.
    pub fn is_zero(&self) -> (zero: bool)
        ensures
            zero == (self@ == 0),
    {
        self.secs == 0 && self.nanos == 0
    }

    /// Whether two durations are of the same length.
    pub fn same(&self, other: &ExactDuration) -> (same: bool)
        ensures
            same == (self@ == other@),
    {
        self.as_nanos() == other.as_nanos()
    }
}

/// A length of time that may also be so long that it never passes.
#[derive(Debug, Clone, Copy, PartialEq, Eq, Structural)]
pub enum Duration {
    /// A duration of known length.
    Exact(ExactDuration),
    /// A duration that does not end.
    NotHappening,
}

impl Duration {
    /// Whether this duration is longer than `other`. One that does not end is longer than every
    /// exact one, and not longer than itself.
    pub open spec fn longer_than(self, other: Duration) -> bool {
        match (self, other) {
            (Duration::Exact(a), Duration::Exact(b)) => a@ > b@,
            (Duration::NotHappening, Duration::Exact(_)) => true,
            (_, Duration::NotHappening) => false,
        }
    }

    /// Whether the duration never passes.
    pub fn is_not_happening(&self) -> (never: bool)
        ensures
            never == (*self is NotHappening),
    {
        match self {
            Duration::NotHappening => true,
            Duration::Exact(_) => false,
        }
    }

    /// Whether this duration is longer than `other`.
    pub fn is_longer_than(&self, other: &Duration) -> (longer: bool)
        ensures
            longer == self.longer_than(*other),
    {
        match (self, other) {
            (Duration::Exact(a), Duration::Exact(b)) => a.as_nanos() > b.as_nanos(),
            (Duration::NotHappening, Duration::Exact(_)) => true,
            (_, Duration::NotHappening) => false,
        }
    }
}

/// What a timeout is for.
#[derive(Debug, Clone, Copy, PartialEq, Eq, Structural)]
pub enum Timeout {
    /// The whole call, redirects included.
    Global,
    /// One request of the call.
    PerCall,
    /// Looking up the host name.
    Resolve,
    /// Opening the connection.
    Connect,
    /// Sending the request headers.
    SendRequest,
    /// Waiting for a 100-continue response.
    Await100,
    /// Sending the request body.
    SendBody,
    /// Receiving the response headers.
    RecvResponse,
    /// Receiving the response body.
    RecvBody,
}

/// The timeout that comes next: when, and what it is for.
#[derive(Debug, Clone, Copy)]
pub struct NextTimeout {
    /// The time until the timeout.
    pub after: Duration,
    /// What runs out then.
    pub reason: Timeout,
}

/// The number of nanoseconds to hand to a socket that has to time out after `after`: none if
/// the timeout never comes, and a second in place of zero, which sockets do not accept.
pub open spec fn not_zero_nanos(after: Duration) -> Option<nat> {
    match after {
        Duration::NotHappening => None,
        Duration::Exact(exact) => if exact@ == 0 {
            Some(NANOS_PER_SEC as nat)
        } else {
            Some(exact@)
        },
    }
}

/// The nanoseconds of an optional duration.
pub open spec fn nanos_of(duration: Option<ExactDuration>) -> Option<nat> {
    match duration {
        None => None,
        Some(exact) => Some(exact@),
    }
}

impl NextTimeout {
    /// The timeout as a socket takes it: `None` if it never comes, one second if it is zero.
    pub fn not_zero(&self) -> (timeout: Option<ExactDuration>)
        ensures
            nanos_of(timeout) == not_zero_nanos(self.after),
    {
        match self.after {
            Duration::NotHappening => None,
            Duration::Exact(exact) => if exact.is_zero() {
                Some(ExactDuration::from_secs(1))
            } else {
                Some(exact)
            },
        }
    }
}

/// A duration is made of the seconds and nanoseconds that it is read as, and of nothing else.
pub proof fn lemma_parts_read_back(
    secs: u64,
    nanos: u32,
    made: ExactDuration,
    whole: u64,
    rest: u32,
    total: u128,
)
    requires
        nanos < 1_000_000_000,
        call_ensures(ExactDuration::new, (secs, nanos), made),
        call_ensures(ExactDuration::as_secs, (&made,), whole),
        call_ensures(ExactDuration::subsec_nanos, (&made,), rest),
        call_ensures(ExactDuration::as_nanos, (&made,), total),
    ensures
        whole == secs,
        rest == nanos,
        total == secs * 1_000_000_000 + nanos,
{
}

/// Seconds and milliseconds are read back as what they were, whatever their number.
pub proof fn lemma_units_read_back(
    number: u64,
    of_secs: ExactDuration,
    of_millis: ExactDuration,
    nanos_of_secs: u128,
    nanos_of_millis: u128,
)
    requires
        call_ensures(ExactDuration::from_secs, (number,), of_secs),
        call_ensures(ExactDuration::from_millis, (number,), of_millis),
        call_ensures(ExactDuration::as_nanos, (&of_secs,), nanos_of_secs),
        call_ensures(ExactDuration::as_nanos, (&of_millis,), nanos_of_millis),
    ensures
        nanos_of_secs == number * 1_000_000_000,
        nanos_of_millis == number * 1_000_000,
{
}

/// Durations are compared by their seconds, and with the same seconds by their nanoseconds: they
/// are the same if both are, and none is longer than itself or than one that is longer.
pub proof fn lemma_parts_decide(
    a: (u64, u32),
    b: (u64, u32),
    left: ExactDuration,
    right: ExactDuration,
    zero: bool,
    same: bool,
    longer: bool,
)
    requires
        a.1 < 1_000_000_000,
        b.1 < 1_000_000_000,
        call_ensures(ExactDuration::new, a, left),
        call_ensures(ExactDuration::new, b, right),
        call_ensures(ExactDuration::is_zero, (&left,), zero),
        call_ensures(ExactDuration::same, (&left, &right), same),
        call_ensures(
            Duration::is_longer_than,
            (&Duration::Exact(left), &Duration::Exact(right)),
            longer,
        ),
    ensures
        zero == (a.0 == 0 && a.1 == 0),
        same == (a.0 == b.0 && a.1 == b.1),
        longer == (a.0 > b.0 || (a.0 == b.0 && a.1 > b.1)),
{
}

/// A duration that never passes is longer than every one that does, and nothing is longer than
/// it.
pub proof fn lemma_never_is_longest(
    exact: ExactDuration,
    any: Duration,
    never_longer: bool,
    any_longer: bool,
    never: bool,
)
    requires
        call_ensures(
            Duration::is_longer_than,
            (&Duration::NotHappening, &Duration::Exact(exact)),
            never_longer,
        ),
        call_ensures(
            Duration::is_longer_than,
            (&any, &Duration::NotHappening),
            any_longer,
        ),
        call_ensures(Duration::is_not_happening, (&any,), never),
    ensures
        never_longer,
        !any_longer,
        never <==> !(any matches Duration::Exact(_)),
{
}

/// A socket is given a timeout if and only if it ever comes. The timeout is never zero, and it is
/// the time that there is, except that no time at all is made a second.
pub proof fn lemma_sockets_accept(timeout: NextTimeout, given: Option<ExactDuration>)
    requires
        call_ensures(NextTimeout::not_zero, (&timeout,), given),
    ensures
        match (timeout.after, given) {
            (Duration::NotHappening, None) => true,
            (Duration::Exact(after), Some(exact)) => {
                &&& exact@ > 0
                &&& after@ > 0 ==> exact@ == after@
                &&& after@ == 0 ==> exact@ == 1_000_000_000
            },
            _ => false,
        },
{
}

} // verus!
