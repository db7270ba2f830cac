//! What holds of every run of the attempts to connect to a host.

use vstd::prelude::*;

use crate::addr;
use crate::addr::{IpAddr, SocketAddr};
use crate::budget;
use crate::error;
use crate::error::{Error, Fault, IoError};
use crate::tcp;
use crate::tcp::{
    Attempt, Progress, SingleStep, SocketPlan, TcpAttempts, TcpConnect, TcpConnector,
};
use crate::time;
use crate::time::{Duration, ExactDuration, NextTimeout, Timeout};

verus! {

/// Whether an outcome leads on to the next address: a refused connection does, and so does an
/// attempt that timed out with the whole of the time not yet over.
pub open spec fn leads_on<S>(
    outcome: Result<S, Error>,
    elapsed: Duration,
    after: Duration,
) -> bool {
    match outcome {
        Ok(_) => false,
        Err(error) => error.refused() || (error is Timeout && !elapsed.longer_than(after)),
    }
}

/// The result that an outcome which does not lead on gives: itself, except that a timeout is
/// reported with the reason of the timeout that is over.
pub open spec fn verdict<S>(outcome: Result<S, Error>, timeout: NextTimeout) -> Result<S, Error> {
    match outcome {
        Err(Error::Timeout(_)) => Err(Error::Timeout(timeout.reason)),
        other => other,
    }
}

/// Whether attempts that await the outcome at an address come to `next` with `progress` when it is
/// `outcome`, and the clock, if it is asked for, says that `elapsed` has elapsed.
pub open spec fn goes_through<S>(
    state: TcpAttempts,
    outcome: Result<S, Error>,
    elapsed: Duration,
    next: TcpAttempts,
    progress: Progress<S>,
) -> bool {
    &&& state.awaits_outcome()
    &&& exists|between: TcpAttempts, asked: Progress<S>|
        {
            &&& #[trigger] state.advances(outcome, between, asked)
            &&& if asked is ReadClock {
                between.weighs(elapsed, next, progress)
            } else {
                next == between && progress == asked
            }
        }
}

/// What the outcome at an address comes to, with the clock if it is asked for: one that leads on
/// is followed by what is asked for next, and any other gives its verdict.
pub proof fn lemma_outcome_with_clock<S>(
    state: TcpAttempts,
    outcome: Result<S, Error>,
    elapsed: Duration,
    next: TcpAttempts,
    progress: Progress<S>,
)
    requires
        goes_through(state, outcome, elapsed, next, progress),
    ensures
        if leads_on(outcome, elapsed, state.timeout().after) {
            state.moves_on(next) && next.asks_for(progress)
        } else {
            progress == Progress::Done(verdict(outcome, state.timeout()))
        },
{
}

/// The clock is asked for after an attempt that timed out, and at no other time: not at the
/// start, not after any other outcome, and not once more after it was read.
pub proof fn lemma_clock_only_after_timeout<S>(
    state: TcpAttempts,
    outcome: Result<S, Error>,
    elapsed: Duration,
    num_addrs: usize,
    timeout: NextTimeout,
    next: TcpAttempts,
    progress: Progress<S>,
)
    ensures
        state.starts(num_addrs, timeout) && state.asks_for(progress) ==> !(progress is ReadClock),
        state.advances(outcome, next, progress) ==> (progress is ReadClock <==> outcome matches Err(
            Error::Timeout(_),
        )),
        state.weighs(elapsed, next, progress) ==> !(progress is ReadClock),
{
}

/// Whether `states` are those of attempts for `num_addrs` addresses that started, and then went
/// through `outcomes`, each with the time that had elapsed, all of which led on.
pub open spec fn is_run<S>(
    states: Seq<TcpAttempts>,
    outcomes: Seq<(Result<S, Error>, Duration)>,
    num_addrs: usize,
    timeout: NextTimeout,
) -> bool {
    &&& states.len() == outcomes.len() + 1
    &&& states[0].starts(num_addrs, timeout)
    &&& forall|i: int|
        0 <= i < outcomes.len() ==> {
            &&& leads_on((#[trigger] outcomes[i]).0, outcomes[i].1, timeout.after)
            &&& exists|progress: Progress<S>| #[trigger]
                goes_through(states[i], outcomes[i].0, outcomes[i].1, states[i + 1], progress)
        }
}

/// The addresses are tried one after another, in their order and none of them twice: after so
/// many outcomes that led on, so many addresses were tried, and the attempt that is asked for is
/// at the next. Its time is the share of that address, whatever the outcomes before it were. The
/// attempts end in vain if and only if every address was tried.
pub proof fn lemma_addresses_in_order<S>(
    states: Seq<TcpAttempts>,
    outcomes: Seq<(Result<S, Error>, Duration)>,
    num_addrs: usize,
    timeout: NextTimeout,
    progress: Progress<S>,
)
    requires
        is_run(states, outcomes, num_addrs, timeout),
        states.last().asks_for(progress),
    ensures
        outcomes.len() <= num_addrs,
        match progress {
            Progress::Attempt(attempt) => {
                &&& outcomes.len() < num_addrs
                &&& attempt.index == outcomes.len()
                &&& time::nanos_of(attempt.timeout) == tcp::attempt_nanos(
                    timeout.after,
                    num_addrs as nat,
                    outcomes.len(),
                )
            },
            Progress::Done(result) => {
                &&& outcomes.len() == num_addrs
                &&& result == tcp::none_connected::<S>()
            },
            Progress::ReadClock => false,
        },
{
    lemma_run_index(states, outcomes, num_addrs, timeout, outcomes.len() as int);
}

/// In a run there is one address more tried in vain from each state to the next.
proof fn lemma_run_index<S>(
    states: Seq<TcpAttempts>,
    outcomes: Seq<(Result<S, Error>, Duration)>,
    num_addrs: usize,
    timeout: NextTimeout,
    at: int,
)
    requires
        is_run(states, outcomes, num_addrs, timeout),
        0 <= at < states.len(),
    ensures
        states[at].num_addrs() == num_addrs,
        states[at].timeout() == timeout,
        states[at].index() == at <= num_addrs,
        !states[at].awaits_clock(),
    decreases at,
{
    if at > 0 {
        lemma_run_index(states, outcomes, num_addrs, timeout, at - 1);
        let (outcome, elapsed) = outcomes[at - 1];
        let progress = choose|progress: Progress<S>| #[trigger]
            goes_through(states[at - 1], outcome, elapsed, states[at - 1 + 1], progress);
        lemma_outcome_with_clock(states[at - 1], outcome, elapsed, states[at], progress);
    }
}

/// The result of trying addresses in their order, from the one at `at` on, if trying each of them
/// ends in the one of `outcomes` at its place: that of the first outcome that does not lead on.
pub open spec fn result_from<S>(
    outcomes: Seq<(Result<S, Error>, Duration)>,
    timeout: NextTimeout,
    at: int,
) -> Result<S, Error>
    decreases outcomes.len() - at,
{
    if at >= outcomes.len() {
        tcp::none_connected()
    } else if leads_on(outcomes[at].0, outcomes[at].1, timeout.after) {
        result_from(outcomes, timeout, at + 1)
    } else {
        verdict(outcomes[at].0, timeout)
    }
}

/// Whether attempts at as many addresses as there are `outcomes` started, went through the first
/// of these, and came to `progress` on the way, of which the last is the end.
pub open spec fn is_whole_run<S>(
    states: Seq<TcpAttempts>,
    outcomes: Seq<(Result<S, Error>, Duration)>,
    progress: Seq<Progress<S>>,
    timeout: NextTimeout,
) -> bool {
    &&& outcomes.len() <= usize::MAX
    &&& progress.len() > 0
    &&& states.len() == progress.len() + 1
    &&& states[0].starts(outcomes.len() as usize, timeout)
    &&& forall|i: int|
        0 <= i < progress.len() ==> {
            &&& goes_through(
                states[i],
                outcomes[i].0,
                outcomes[i].1,
                states[i + 1],
                #[trigger] progress[i],
            )
            &&& progress[i] is Done <==> i == progress.len() - 1
        }
}

/// Whatever the outcomes at the addresses are, the attempts end with the result of the first
/// outcome that does not lead on, or in vain if every one of them does. In particular the first
/// address that connects is the one that is used.
pub proof fn lemma_first_decisive_outcome_counts<S>(
    states: Seq<TcpAttempts>,
    outcomes: Seq<(Result<S, Error>, Duration)>,
    progress: Seq<Progress<S>>,
    timeout: NextTimeout,
)
    requires
        is_whole_run(states, outcomes, progress, timeout),
    ensures
        progress.last() == Progress::Done(result_from(outcomes, timeout, 0)),
{
    lemma_result_from(states, outcomes, progress, timeout, 0);
}

proof fn lemma_result_from<S>(
    states: Seq<TcpAttempts>,
    outcomes: Seq<(Result<S, Error>, Duration)>,
    progress: Seq<Progress<S>>,
    timeout: NextTimeout,
    at: int,
)
    requires
        is_whole_run(states, outcomes, progress, timeout),
        0 <= at < progress.len(),
        states[at].num_addrs() == outcomes.len(),
        states[at].timeout() == timeout,
        states[at].index() == at,
    ensures
        progress.last() == Progress::Done(result_from(outcomes, timeout, at)),
    decreases progress.len() - at,
{
    let (outcome, elapsed) = outcomes[at];
    lemma_outcome_with_clock(states[at], outcome, elapsed, states[at + 1], progress[at]);
    if at < progress.len() - 1 {
        lemma_result_from(states, outcomes, progress, timeout, at + 1);
    } else {
        reveal_with_fuel(result_from, 2);
    }
}

/// The time that attempts are given together, in nanoseconds, if each of them has a limit.
pub open spec fn nanos_given(asked: Seq<Attempt>) -> nat
    decreases asked.len(),
{
    if asked.len() == 0 {
        0
    } else {
        nanos_given(asked.drop_last()) + match time::nanos_of(asked.last().timeout) {
            None => 0,
            Some(nanos) => nanos,
        }
    }
}

/// Whatever the outcomes are, the times that the addresses are given never add up to more than
/// the time that there is for all of them, as long as no share is below the least time that every
/// attempt is given. At worst they are over by that least time for each of them. Without a limit
/// on the time for all of them, none of them has one.
pub proof fn lemma_given_within_budget<S>(
    states: Seq<TcpAttempts>,
    outcomes: Seq<(Result<S, Error>, Duration)>,
    num_addrs: usize,
    timeout: NextTimeout,
    asked: Seq<Attempt>,
)
    requires
        is_run(states, outcomes, num_addrs, timeout),
        0 < asked.len() <= states.len(),
        forall|i: int|
            0 <= i < asked.len() ==> states[i].asks_for(
                Progress::<S>::Attempt(#[trigger] asked[i]),
            ),
    ensures
        match time::not_zero_nanos(timeout.after) {
            None => forall|i: int| 0 <= i < asked.len() ==> (#[trigger] asked[i]).timeout is None,
            Some(nanos) => {
                let given = nanos_given(asked);
                let least = budget::MIN_PER_ADDRESS_MILLIS;
                let last = (asked.len() - 1) as nat;
                &&& budget::share_millis(nanos, num_addrs as nat, last) >= least ==> given <= nanos
                &&& given <= nanos + asked.len() * least * time::NANOS_PER_MILLI
            },
        },
{
    assert forall|i: int| 0 <= i < asked.len() implies time::nanos_of(
        (#[trigger] asked[i]).timeout,
    ) == tcp::attempt_nanos(timeout.after, num_addrs as nat, i as nat) && i < num_addrs by {
        lemma_run_index(states, outcomes, num_addrs, timeout, i);
        assert(states[i].asks_for(Progress::<S>::Attempt(asked[i])));
    }
    match time::not_zero_nanos(timeout.after) {
        None => {},
        Some(nanos) => {
            assert(asked.last() == asked[asked.len() - 1]);
            lemma_given_is_attempt_sum(nanos, num_addrs as nat, timeout.after, asked);
            budget::lemma_attempts_within_budget(nanos, num_addrs as nat, asked.len());
        },
    }
}

proof fn lemma_given_is_attempt_sum(
    nanos: nat,
    num_addrs: nat,
    after: Duration,
    asked: Seq<Attempt>,
)
    requires
        time::not_zero_nanos(after) == Some(nanos),
        forall|i: int|
            0 <= i < asked.len() ==> time::nanos_of((#[trigger] asked[i]).timeout)
                == tcp::attempt_nanos(after, num_addrs, i as nat),
    ensures
        nanos_given(asked) == budget::attempt_sum(nanos, num_addrs, asked.len())
            * time::NANOS_PER_MILLI,
    decreases asked.len(),
{
    if asked.len() > 0 {
        lemma_given_is_attempt_sum(nanos, num_addrs, after, asked.drop_last());
        assert(asked.last() == asked[asked.len() - 1]);
    }
}

/// A connector binds to the local IP that it was made with, and to none if it was made without.
pub proof fn lemma_connector_keeps_its_local_ip(
    local_ip: IpAddr,
    bound: TcpConnector,
    unbound: TcpConnector,
    of_bound: Option<IpAddr>,
    of_unbound: Option<IpAddr>,
)
    requires
        call_ensures(TcpConnector::with_local_ip, (local_ip,), bound),
        call_ensures(TcpConnector::default, (), unbound),
        call_ensures(TcpConnector::local_ip, (&bound,), of_bound),
        call_ensures(TcpConnector::local_ip, (&unbound,), of_unbound),
    ensures
        of_bound == Some(local_ip),
        of_unbound == None::<IpAddr>,
{
}

/// A connection that is there already is taken as it is. Otherwise the addresses are tried from
/// the first on, with the local IP of the connector.
pub proof fn lemma_connector_dials_only_without_connection<In>(
    connector: TcpConnector,
    local_ip: Option<IpAddr>,
    num_addrs: usize,
    timeout: NextTimeout,
    chained: Option<In>,
    way: TcpConnect<In>,
)
    requires
        call_ensures(TcpConnector::local_ip, (&connector,), local_ip),
        call_ensures(TcpConnector::connect::<In>, (&connector, num_addrs, timeout, chained), way),
    ensures
        match (chained, way) {
            (Some(inner), TcpConnect::Chained(taken)) => taken == inner,
            (None, TcpConnect::Dial { attempts, local_ip: bind }) => {
                &&& bind == local_ip
                &&& attempts.num_addrs() == num_addrs
                &&& attempts.timeout() == timeout
                &&& attempts.index() == 0
                &&& !attempts.awaits_clock()
            },
            _ => false,
        },
{
}

/// A socket is bound if and only if there is a local IP to bind it to. It is then bound to just
/// that IP, with the port left open, and is of the family of both sides, which have to be of one
/// family. The timeout is the one that was asked for.
pub proof fn lemma_sockets_are_bound_to_the_local_ip(
    addr: SocketAddr,
    timeout: Option<ExactDuration>,
    local_ip: Option<IpAddr>,
    plan: Result<SocketPlan, Fault>,
)
    requires
        call_ensures(tcp::connect_socket, (addr, timeout, local_ip), plan),
    ensures
        is_plan_for(addr, timeout, local_ip, plan),
{
}

/// Whether a plan connects a socket to `addr` within `timeout`, from `local_ip` if there is one.
pub open spec fn is_plan_for(
    addr: SocketAddr,
    timeout: Option<ExactDuration>,
    local_ip: Option<IpAddr>,
    plan: Result<SocketPlan, Fault>,
) -> bool {
    match (local_ip, plan) {
        (None, Ok(SocketPlan::Connect { timeout: limit })) => limit == timeout,
        (Some(local), Ok(SocketPlan::BindAndConnect { domain, bind, timeout: limit })) => {
            &&& addr::one_family(local, addr)
            &&& addr::has_parts(bind, local, 0)
            &&& (domain is Ipv4) == (addr is V4)
            &&& limit == timeout
        },
        (Some(local), Err(fault)) => {
            &&& !addr::one_family(local, addr)
            &&& fault is LocalFamilyMismatch
        },
        _ => false,
    }
}

/// A stream that connected is the one that the attempt ends with, and only if the delay of small
/// packets could be switched off where it was to be. No stream comes of an attempt that failed;
/// it ends as a timeout if time ran out, and otherwise with the error as it was.
pub proof fn lemma_attempt_ends_with_its_stream<S>(
    connected: Result<S, IoError>,
    no_delay: bool,
    step: SingleStep<S>,
)
    requires
        call_ensures(tcp::try_connect_single::<S>, (connected, no_delay), step),
    ensures
        match (connected, step) {
            (Ok(stream), SingleStep::SetNoDelay(same)) => no_delay && same == stream,
            (Ok(stream), SingleStep::Done(Ok(same))) => !no_delay && same == stream,
            (Err(_), SingleStep::Done(done)) => {
                &&& done is Err
                &&& error::is_sorted_outcome(connected, Timeout::Connect, done)
            },
            _ => false,
        },
{
}

/// Once the delay of small packets was to be switched off, the stream is handed on if and only if
/// that worked, and otherwise the error is.
pub proof fn lemma_no_delay_decides<S>(
    stream: S,
    outcome: Result<(), IoError>,
    done: Result<S, Error>,
)
    requires
        call_ensures(tcp::finish_no_delay::<S>, (stream, outcome), done),
    ensures
        match (outcome, done) {
            (Ok(()), Ok(same)) => same == stream,
            (Err(error), Err(Error::Io(same))) => same == error,
            _ => false,
        },
{
}

/// Whether `progress` is what is due when the first `index` of `num_addrs` addresses were tried
/// in vain: the address at that index, with the time that is due to it, and without limit if
/// there is none for all of them; or that no address is left.
pub open spec fn is_next<S>(
    progress: Progress<S>,
    timeout: NextTimeout,
    num_addrs: nat,
    index: nat,
) -> bool {
    match progress {
        Progress::Attempt(attempt) => {
            &&& index < num_addrs
            &&& attempt.index == index
            &&& match (timeout.after, attempt.timeout) {
                (Duration::NotHappening, None) => true,
                (Duration::Exact(after), Some(given)) => budget::is_due(
                    given@,
                    if after@ == 0 {
                        1_000_000_000
                    } else {
                        after@
                    },
                    num_addrs,
                    index,
                ),
                _ => false,
            }
        },
        Progress::Done(result) => {
            &&& index == num_addrs
            &&& result matches Err(Error::Io(IoError::Own(Fault::NoAddressConnected)))
        },
        Progress::ReadClock => false,
    }
}

proof fn lemma_asked_is_next<S>(state: TcpAttempts, progress: Progress<S>)
    requires
        state.asks_for(progress),
        state.index() <= state.num_addrs() <= usize::MAX,
        !state.awaits_clock(),
    ensures
        is_next(progress, state.timeout(), state.num_addrs(), state.index()),
{
    if state.index() < state.num_addrs() {
        if let Duration::Exact(after) = state.timeout().after {
            let nanos = time::not_zero_nanos(state.timeout().after)->Some_0;
            budget::lemma_attempt_is_due(nanos, state.num_addrs(), state.index());
        }
    }
}

/// The attempts at a host start at its first address, with the time that is due to it. If the
/// host has no address they are over at once.
pub proof fn lemma_attempts_start_at_the_first_address<S>(
    num_addrs: usize,
    timeout: NextTimeout,
    attempts: TcpAttempts,
    progress: Progress<S>,
)
    requires
        call_ensures(TcpAttempts::new, (num_addrs, timeout), attempts),
        call_ensures(TcpAttempts::current::<S>, (&attempts,), progress),
    ensures
        is_next(progress, timeout, num_addrs as nat, 0),
{
    lemma_asked_is_next(attempts, progress);
}

/// Whether an error was reported as a refusal, or is one of the failures that say so.
pub open spec fn says_refused(error: IoError) -> bool {
    match error {
        IoError::Outside { kind, cause: _ } => kind is ConnectionRefused,
        IoError::Own(fault) => fault is NoAddressConnected || fault is Socks4Rejected
            || fault is Socks5Rejected,
    }
}

/// An outcome is handled by what it is. A stream ends the attempts with that stream. A refusal
/// leads on to the next address, with the time that is due to it. A timeout has the clock read
/// first, and leaves everything else as it is. Any other error ends the attempts with that error.
pub proof fn lemma_outcome_decides<S>(
    before: TcpAttempts,
    outcome: Result<S, Error>,
    after: TcpAttempts,
    progress: Progress<S>,
)
    requires
        before.awaits_outcome(),
        before.num_addrs() <= usize::MAX,
        exists|attempts: &mut TcpAttempts|
            {
                &&& *attempts == before
                &&& *final(attempts) == after
                &&& #[trigger] call_ensures(
                    TcpAttempts::advance::<S>,
                    (attempts, outcome),
                    progress,
                )
            },
    ensures
        after.num_addrs() == before.num_addrs(),
        after.timeout() == before.timeout(),
        match outcome {
            Ok(stream) => {
                &&& progress matches Progress::Done(Ok(same))
                &&& same == stream
            },
            Err(Error::Timeout(_)) => {
                &&& progress is ReadClock
                &&& after.index() == before.index()
                &&& after.awaits_clock()
            },
            Err(Error::Io(error)) => if says_refused(error) {
                &&& after.index() == before.index() + 1
                &&& !after.awaits_clock()
                &&& is_next(progress, after.timeout(), after.num_addrs(), after.index())
            } else {
                &&& progress matches Progress::Done(Err(Error::Io(same)))
                &&& same == error
            },
        },
{
    if outcome matches Err(error) && error.refused() {
        lemma_asked_is_next(after, progress);
    }
}

/// After a timeout the clock decides. If more time has elapsed than there is for all the
/// addresses, they end with that timeout, for its own reason. Otherwise the next address is
/// tried, with the time that is due to it.
pub proof fn lemma_clock_decides<S>(
    before: TcpAttempts,
    elapsed: Duration,
    after: TcpAttempts,
    progress: Progress<S>,
)
    requires
        before.awaits_clock(),
        before.index() < before.num_addrs() <= usize::MAX,
        exists|attempts: &mut TcpAttempts|
            {
                &&& *attempts == before
                &&& *final(attempts) == after
                &&& #[trigger] call_ensures(
                    TcpAttempts::clock_read::<S>,
                    (attempts, elapsed),
                    progress,
                )
            },
    ensures
        after.num_addrs() == before.num_addrs(),
        after.timeout() == before.timeout(),
        if before.timeout().after matches Duration::Exact(limit) && (elapsed is NotHappening
            || elapsed->Exact_0@ > limit@) {
            progress == Progress::Done(Err::<S, Error>(Error::Timeout(before.timeout().reason)))
        } else {
            &&& after.index() == before.index() + 1
            &&& !after.awaits_clock()
            &&& is_next(progress, after.timeout(), after.num_addrs(), after.index())
        },
{
    if !elapsed.longer_than(before.timeout().after) {
        lemma_asked_is_next(after, progress);
    }
}

/// Asking what to do now changes nothing of it: it is the clock if that is awaited, and otherwise
/// the address that is due.
pub proof fn lemma_current_is_what_is_due<S>(attempts: TcpAttempts, progress: Progress<S>)
    requires
        attempts.index() <= attempts.num_addrs() <= usize::MAX,
        call_ensures(TcpAttempts::current::<S>, (&attempts,), progress),
    ensures
        attempts.awaits_clock() ==> progress is ReadClock,
        !attempts.awaits_clock() ==> is_next(
            progress,
            attempts.timeout(),
            attempts.num_addrs(),
            attempts.index(),
        ),
{
    if !attempts.awaits_clock() {
        lemma_asked_is_next(attempts, progress);
    }
}

} // verus!
