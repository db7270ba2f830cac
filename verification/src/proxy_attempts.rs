//! The order in which a host is tried through the addresses of a proxy.

use vstd::prelude::*;

use crate::addr;
use crate::addr::{IpAddr, SocketAddr};
use crate::error::{Error, Fault, IoError};
use crate::tcp;
use crate::tcp_laws;

verus! {

/// The indices of the first `count` addresses that can be reached from a socket bound to
/// `local_ip`, in their order.
pub open spec fn usable_among(
    addrs: Seq<SocketAddr>,
    local_ip: Option<IpAddr>,
    count: nat,
) -> Seq<usize>
    decreases count,
{
    if count == 0 {
        seq![]
    } else {
        let last = (count - 1) as nat;
        let before = usable_among(addrs, local_ip, last);
        if addr::family_matches(addrs[last as int], local_ip) {
            before.push(last as usize)
        } else {
            before
        }
    }
}

/// The indices of the addresses that can be reached from a socket bound to `local_ip`, in their
/// order.
pub open spec fn usable(addrs: Seq<SocketAddr>, local_ip: Option<IpAddr>) -> Seq<usize> {
    usable_among(addrs, local_ip, addrs.len())
}

/// What the attempts through a proxy ask for next.
#[derive(Debug)]
pub enum ProxyProgress<S> {
    /// Ask for a target through an address of the proxy.
    Attempt {
        /// The index of the target.
        target: usize,
        /// The index of the address of the proxy.
        proxy: usize,
    },
    /// The attempts are over.
    Done(Result<S, Error>),
}

/// Whether an outcome is that the connection was refused, by the proxy or by the target.
pub open spec fn is_refusal<S>(outcome: Result<S, Error>) -> bool {
    outcome matches Err(error) && error.refused()
}

/// The attempts to reach a host through a proxy: each target in turn through each address of the
/// proxy that can be used, until one connects.
#[derive(Debug)]
pub struct ProxyAttempts {
    num_targets: usize,
    proxies: Vec<usize>,
    target: usize,
    proxy: usize,
}

impl ProxyAttempts {
    #[verifier::type_invariant]
    closed spec fn in_range(self) -> bool {
        &&& self.target <= self.num_targets
        &&& self.proxy < self.proxies@.len()
        &&& self.target == self.num_targets ==> self.proxy == 0
    }

    /// The number of targets.
    pub closed spec fn num_targets(self) -> nat {
        self.num_targets as nat
    }

    /// The indices of the addresses of the proxy that are used.
    pub closed spec fn proxies(self) -> Seq<usize> {
        self.proxies@
    }

    /// The number of attempts in all.
    pub open spec fn total(self) -> nat {
        self.num_targets() * self.proxies().len()
    }

    /// The number of attempts that were refused.
    pub closed spec fn position(self) -> nat {
        (self.target * self.proxies@.len() + self.proxy) as nat
    }

    /// Whether `progress` is what these attempts ask for: the pair of target and address at
    /// their position, with the addresses going round the faster; or, with no pair left, the
    /// end.
    pub open spec fn asks_for<S>(self, progress: ProxyProgress<S>) -> bool {
        let count = self.proxies().len();
        if self.position() < self.total() {
            &&& progress matches ProxyProgress::Attempt { target, proxy }
            &&& target == self.position() / count
            &&& proxy == self.proxies()[(self.position() % count) as int]
        } else {
            progress == ProxyProgress::Done(tcp::none_connected::<S>())
        }
    }

    /// Whether `next` are these attempts after one more was refused.
    pub open spec fn moves_on(self, next: ProxyAttempts) -> bool {
        &&& next.num_targets() == self.num_targets()
        &&& next.proxies() == self.proxies()
        &&& next.position() == self.position() + 1
    }

    /// Whether `next` with `progress` is what follows from an outcome: a refusal is followed by
    /// what is asked for next, and any other outcome is the result.
    pub open spec fn advances<S>(
        self,
        outcome: Result<S, Error>,
        next: ProxyAttempts,
        progress: ProxyProgress<S>,
    ) -> bool {
        if is_refusal(outcome) {
            &&& self.moves_on(next)
            &&& next.asks_for(progress)
        } else {
            &&& next == self
            &&& progress == ProxyProgress::Done(outcome)
        }
    }

    /// Attempts to reach `num_targets` targets through a proxy with the addresses
    /// `proxy_addrs`, from a socket that is bound to `local_ip` if there is one. Only the
    /// addresses of the proxy have to be of the family of the local IP: the targets are for the
    /// proxy to reach. That none of them is of that family is an error.
    pub fn new(
        proxy_addrs: &[SocketAddr],
        num_targets: usize,
        local_ip: Option<IpAddr>,
    ) -> (attempts: Result<ProxyAttempts, Error>)
        ensures
            match attempts {
                Ok(attempts) => {
                    &&& attempts.num_targets() == num_targets
                    &&& attempts.proxies() == usable(proxy_addrs@, local_ip)
                    &&& attempts.proxies().len() > 0
                    &&& attempts.position() == 0
                },
                Err(error) => {
                    &&& usable(proxy_addrs@, local_ip).len() == 0
                    &&& error == Error::Io(IoError::Own(Fault::NoProxyInLocalFamily))
                },
            },
    {
        let mut proxies: Vec<usize> = Vec::new();
        let mut i: usize = 0;
        while i < proxy_addrs.len()
            invariant
                i <= proxy_addrs@.len(),
                proxies@ == usable_among(proxy_addrs@, local_ip, i as nat),
            decreases proxy_addrs@.len() - i,
        {
            if addr::matches_local_ip_family(&proxy_addrs[i], local_ip) {
                proxies.push(i);
            }
            i = i + 1;
        }
        if proxies.len() == 0 {
            return Err(Error::Io(IoError::Own(Fault::NoProxyInLocalFamily)));
        }
        Ok(ProxyAttempts { num_targets, proxies, target: 0, proxy: 0 })
    }

    /// What to do now.
    pub fn current<S>(&self) -> (progress: ProxyProgress<S>)
        ensures
            self.asks_for(progress),
    {
        proof {
            use_type_invariant(self);
            let count = self.proxies@.len() as int;
            vstd::arithmetic::div_mod::lemma_fundamental_div_mod_converse(
                self.position() as int,
                count,
                self.target as int,
                self.proxy as int,
            );
            if self.target < self.num_targets {
                assert(self.target * count + self.proxy < self.num_targets * count)
                    by (nonlinear_arith)
                    requires
                        self.target + 1 <= self.num_targets,
                        0 <= self.proxy < count,
                ;
            }
        }
        if self.target < self.num_targets {
            ProxyProgress::Attempt { target: self.target, proxy: self.proxies[self.proxy] }
        } else {
            ProxyProgress::Done(Err(Error::Io(IoError::Own(Fault::NoAddressConnected))))
        }
    }

    /// Goes on with the outcome of the attempt that was asked for. A refusal, by the proxy
    /// itself or of the request, leads on to the next pair. Any other error ends the attempts.
    pub fn advance<S>(&mut self, outcome: Result<S, Error>) -> (progress: ProxyProgress<S>)
        requires
            old(self).position() < old(self).total(),
        ensures
            old(self).advances(outcome, *final(self), progress),
    {
        proof {
            use_type_invariant(&*self);
        }
        match outcome {
            Ok(stream) => {
                return ProxyProgress::Done(Ok(stream));
            },
            Err(error) => {
                if !error.is_refused() {
                    return ProxyProgress::Done(Err(error));
                }
            },
        }
        assert((self.target + 1) * self.proxies@.len() == self.target * self.proxies@.len()
            + self.proxies@.len()) by (nonlinear_arith);
        if self.proxy < self.proxies.len() - 1 {
            self.proxy = self.proxy + 1;
        } else {
            self.proxy = 0;
            self.target = self.target + 1;
        }
        self.current()
    }
}

proof fn lemma_usable_among(addrs: Seq<SocketAddr>, local_ip: Option<IpAddr>, count: nat)
    requires
        count <= addrs.len() <= usize::MAX,
    ensures
        ({
            let indices = usable_among(addrs, local_ip, count);
            &&& indices.len() <= count
            &&& forall|k: int|
                0 <= k < indices.len() ==> (#[trigger] indices[k]) < count && addr::family_matches(
                    addrs[indices[k] as int],
                    local_ip,
                )
            &&& forall|j: int, k: int|
                0 <= j < k < indices.len() ==> (#[trigger] indices[j]) < (#[trigger] indices[k])
            &&& forall|i: int|
                0 <= i < count && addr::family_matches(#[trigger] addrs[i], local_ip)
                    ==> indices.contains(i as usize)
        }),
    decreases count,
{
    if count > 0 {
        let last = (count - 1) as nat;
        lemma_usable_among(addrs, local_ip, last);
        let before = usable_among(addrs, local_ip, last);
        let indices = usable_among(addrs, local_ip, count);
        assert forall|i: int|
            0 <= i < count && addr::family_matches(#[trigger] addrs[i], local_ip)
            implies indices.contains(i as usize) by {
            if i == last {
                assert(indices[before.len() as int] == i as usize);
            } else {
                let k = choose|k: int| 0 <= k < before.len() && before[k] == i as usize;
                assert(indices[k] == i as usize);
            }
        }
    }
}

/// A local IP to bind to filters the addresses of the proxy: the ones that are used are just
/// those of its family, each of them once, and in their order. Without a local IP all of them
/// are used.
pub proof fn lemma_local_ip_filters_proxies(addrs: Seq<SocketAddr>, local_ip: Option<IpAddr>)
    requires
        addrs.len() <= usize::MAX,
    ensures
        ({
            let indices = usable(addrs, local_ip);
            &&& forall|k: int|
                0 <= k < indices.len() ==> (#[trigger] indices[k]) < addrs.len()
                    && addr::family_matches(addrs[indices[k] as int], local_ip)
            &&& forall|j: int, k: int|
                0 <= j < k < indices.len() ==> (#[trigger] indices[j]) < (#[trigger] indices[k])
            &&& forall|i: int|
                0 <= i < addrs.len() && addr::family_matches(#[trigger] addrs[i], local_ip)
                    ==> indices.contains(i as usize)
            &&& local_ip is None ==> forall|i: int|
                0 <= i < addrs.len() ==> indices.contains(#[trigger] (i as usize))
        }),
{
    lemma_usable_among(addrs, local_ip, addrs.len());
    let indices = usable(addrs, local_ip);
    if local_ip is None {
        assert forall|i: int|
            0 <= i < addrs.len() implies indices.contains(#[trigger] (i as usize)) by {
            assert(addr::family_matches(addrs[i], local_ip));
        }
    }
}

/// Whether `states` are those of attempts that started, and of which then one after another was
/// refused.
pub open spec fn is_run(states: Seq<ProxyAttempts>) -> bool {
    &&& states.len() > 0
    &&& states[0].position() == 0
    &&& states[0].proxies().len() > 0
    &&& forall|i: int|
        0 <= i < states.len() - 1 ==> (#[trigger] states[i]).position() < states[i].total()
            && states[i].moves_on(states[i + 1])
}

/// After so many refusals the attempt that is asked for is the one at that place of the order in
/// which every target comes in turn, each through every address that is used. The local IP does
/// not filter the targets. The attempts end in vain if and only if all of them were refused.
pub proof fn lemma_pairs_in_order<S>(states: Seq<ProxyAttempts>, progress: ProxyProgress<S>)
    requires
        is_run(states),
        states.last().asks_for(progress),
    ensures
        ({
            let refused = states.len() - 1;
            let start = states[0];
            &&& refused <= start.total()
            &&& progress is Done <==> refused == start.total()
            &&& progress matches ProxyProgress::Attempt { target, proxy } ==> {
                &&& target < start.num_targets()
                &&& exists|place: int|
                    #![trigger start.proxies()[place]]
                    0 <= place < start.proxies().len() && proxy == start.proxies()[place]
                        && refused == target * start.proxies().len() + place
            }
        }),
{
    let start = states[0];
    let refused = states.len() - 1;
    lemma_run_position(states);
    let count = start.proxies().len() as int;
    if refused < start.total() {
        let target = refused / count;
        let place = refused % count;
        vstd::arithmetic::div_mod::lemma_fundamental_div_mod(refused, count);
        vstd::arithmetic::div_mod::lemma_mod_bound(refused, count);
        assert(count * target == target * count) by (nonlinear_arith);
        assert(target < start.num_targets()) by (nonlinear_arith)
            requires
                refused == target * count + place,
                0 <= place,
                refused < start.num_targets() * count,
                0 < count,
        ;
        assert(start.proxies()[place] == start.proxies()[(states.last().position()
            % start.proxies().len()) as int]);
    }
}

/// The result of attempts in their order, from the one at `at` on, if each of them ends in the
/// one of `outcomes` at its place: the first outcome that is not a refusal.
pub open spec fn result_from<S>(outcomes: Seq<Result<S, Error>>, at: int) -> Result<S, Error>
    decreases outcomes.len() - at,
{
    if at >= outcomes.len() {
        tcp::none_connected()
    } else if is_refusal(outcomes[at]) {
        result_from(outcomes, at + 1)
    } else {
        outcomes[at]
    }
}

/// Whether as many attempts as there are `outcomes` started, went through the first of these, and
/// came to `progress` on the way, of which the last is the end.
pub open spec fn is_whole_run<S>(
    states: Seq<ProxyAttempts>,
    outcomes: Seq<Result<S, Error>>,
    progress: Seq<ProxyProgress<S>>,
) -> bool {
    &&& progress.len() > 0
    &&& states.len() == progress.len() + 1
    &&& states[0].position() == 0
    &&& states[0].total() == outcomes.len()
    &&& forall|i: int|
        0 <= i < progress.len() ==> {
            &&& states[i].position() < states[i].total()
            &&& states[i].advances(outcomes[i], states[i + 1], #[trigger] progress[i])
            &&& progress[i] is Done <==> i == progress.len() - 1
        }
}

/// Whatever the outcomes of the attempts are, the result is the first of them that is not a
/// refusal, and if all of them are refusals, that none connected.
pub proof fn lemma_first_decisive_outcome_counts<S>(
    states: Seq<ProxyAttempts>,
    outcomes: Seq<Result<S, Error>>,
    progress: Seq<ProxyProgress<S>>,
)
    requires
        is_whole_run(states, outcomes, progress),
    ensures
        progress.last() == ProxyProgress::Done(result_from(outcomes, 0)),
{
    lemma_result_from(states, outcomes, progress, 0);
}

proof fn lemma_result_from<S>(
    states: Seq<ProxyAttempts>,
    outcomes: Seq<Result<S, Error>>,
    progress: Seq<ProxyProgress<S>>,
    at: int,
)
    requires
        is_whole_run(states, outcomes, progress),
        0 <= at < progress.len(),
        states[at].total() == outcomes.len(),
        states[at].position() == at,
    ensures
        progress.last() == ProxyProgress::Done(result_from(outcomes, at)),
    decreases progress.len() - at,
{
    assert(states[at].advances(outcomes[at], states[at + 1], progress[at]));
    if at < progress.len() - 1 {
        lemma_result_from(states, outcomes, progress, at + 1);
    } else {
        reveal_with_fuel(result_from, 2);
    }
}

proof fn lemma_run_position(states: Seq<ProxyAttempts>)
    requires
        is_run(states),
    ensures
        states.last().position() == states.len() - 1,
        states.last().proxies() == states[0].proxies(),
        states.last().num_targets() == states[0].num_targets(),
        states.len() - 1 <= states[0].total(),
    decreases states.len(),
{
    if states.len() > 1 {
        let before = states.drop_last();
        let last = states.len() - 2;
        assert(states[last].moves_on(states[last + 1]));
        assert forall|i: int| 0 <= i < before.len() - 1 implies (#[trigger] before[i]).position()
            < before[i].total() && before[i].moves_on(before[i + 1]) by {
            assert(states[i].moves_on(states[i + 1]));
        }
        lemma_run_position(before);
        assert(before.last() == states[last]);
    }
}

/// Whether an address of the proxy can be used: with a local IP it has to be of its family.
pub open spec fn can_be_used(addr: SocketAddr, local_ip: Option<IpAddr>) -> bool {
    match local_ip {
        None => true,
        Some(local) => addr::one_family(local, addr),
    }
}

/// The addresses of the proxy that are used are all those that can be, each once and in their
/// order, and they start from the first attempt. That there is none is an error, and the only
/// one. The targets are not filtered.
pub proof fn lemma_every_usable_address_is_used(
    proxy_addrs: &[SocketAddr],
    num_targets: usize,
    local_ip: Option<IpAddr>,
    made: Result<ProxyAttempts, Error>,
)
    requires
        call_ensures(ProxyAttempts::new, (proxy_addrs, num_targets, local_ip), made),
        proxy_addrs@.len() <= usize::MAX,
    ensures
        match made {
            Ok(attempts) => {
                let used = attempts.proxies();
                &&& attempts.num_targets() == num_targets
                &&& attempts.position() == 0
                &&& used.len() > 0
                &&& forall|i: int|
                    0 <= i < proxy_addrs@.len() ==> (used.contains(i as usize) <==> can_be_used(
                        #[trigger] proxy_addrs@[i],
                        local_ip,
                    ))
                &&& forall|k: int| 0 <= k < used.len() ==> #[trigger] used[k] < proxy_addrs@.len()
                &&& forall|j: int, k: int|
                    0 <= j < k < used.len() ==> (#[trigger] used[j]) < (#[trigger] used[k])
            },
            Err(error) => {
                &&& error matches Error::Io(IoError::Own(Fault::NoProxyInLocalFamily))
                &&& forall|i: int|
                    0 <= i < proxy_addrs@.len() ==> !can_be_used(
                        #[trigger] proxy_addrs@[i],
                        local_ip,
                    )
            },
        },
{
    lemma_usable_is_what_can_be_used(proxy_addrs@, local_ip);
}

/// The addresses that are used are all those that can be, each once and in their order.
pub proof fn lemma_usable_is_what_can_be_used(addrs: Seq<SocketAddr>, local_ip: Option<IpAddr>)
    requires
        addrs.len() <= usize::MAX,
    ensures
        ({
            let used = usable(addrs, local_ip);
            &&& forall|i: int|
                0 <= i < addrs.len() ==> (used.contains(i as usize) <==> can_be_used(
                    #[trigger] addrs[i],
                    local_ip,
                ))
            &&& forall|k: int| 0 <= k < used.len() ==> #[trigger] used[k] < addrs.len()
            &&& forall|j: int, k: int|
                0 <= j < k < used.len() ==> (#[trigger] used[j]) < (#[trigger] used[k])
            &&& used.len() == 0 ==> forall|i: int|
                0 <= i < addrs.len() ==> !can_be_used(#[trigger] addrs[i], local_ip)
        }),
{
    lemma_usable_among(addrs, local_ip, addrs.len());
    let used = usable(addrs, local_ip);
    assert forall|i: int| 0 <= i < addrs.len() implies (used.contains(i as usize) <==> can_be_used(
        #[trigger] addrs[i],
        local_ip,
    )) by {
        if used.contains(i as usize) {
            let k = choose|k: int| 0 <= k < used.len() && used[k] == i as usize;
            assert(addr::family_matches(addrs[used[k] as int], local_ip));
        }
        if can_be_used(addrs[i], local_ip) {
            assert(addr::family_matches(addrs[i], local_ip));
        }
    }
}

/// Whether `progress` is what is due after `refused` attempts were refused: the target and the
/// address that come at that place, if every target is tried through every address before the
/// next target is; or that none is left.
pub open spec fn is_next<S>(
    progress: ProxyProgress<S>,
    num_targets: nat,
    proxies: Seq<usize>,
    refused: nat,
) -> bool {
    match progress {
        ProxyProgress::Attempt { target, proxy } => {
            &&& target < num_targets
            &&& exists|place: int|
                #![trigger proxies[place]]
                0 <= place < proxies.len() && proxy == proxies[place] && refused == target
                    * proxies.len() + place
        },
        ProxyProgress::Done(result) => {
            &&& refused == num_targets * proxies.len()
            &&& result matches Err(Error::Io(IoError::Own(Fault::NoAddressConnected)))
        },
    }
}

proof fn lemma_asked_is_next<S>(state: ProxyAttempts, progress: ProxyProgress<S>)
    requires
        state.asks_for(progress),
        state.position() <= state.total(),
        state.proxies().len() > 0,
    ensures
        is_next(progress, state.num_targets(), state.proxies(), state.position()),
{
    let count = state.proxies().len() as int;
    let refused = state.position() as int;
    if refused < state.total() {
        let target = refused / count;
        let place = refused % count;
        vstd::arithmetic::div_mod::lemma_fundamental_div_mod(refused, count);
        vstd::arithmetic::div_mod::lemma_mod_bound(refused, count);
        assert(count * target == target * count) by (nonlinear_arith);
        assert(target < state.num_targets()) by (nonlinear_arith)
            requires
                refused == target * count + place,
                0 <= place,
                refused < state.num_targets() * count,
                0 < count,
        ;
        assert(state.proxies()[place] == state.proxies()[(state.position()
            % state.proxies().len()) as int]);
    }
}

/// What is asked for goes by how many attempts were refused, and by nothing else.
pub proof fn lemma_current_is_what_is_due<S>(attempts: ProxyAttempts, progress: ProxyProgress<S>)
    requires
        attempts.position() <= attempts.total(),
        attempts.proxies().len() > 0,
        call_ensures(ProxyAttempts::current::<S>, (&attempts,), progress),
    ensures
        is_next(progress, attempts.num_targets(), attempts.proxies(), attempts.position()),
{
    lemma_asked_is_next(attempts, progress);
}

/// An outcome is handled by what it is. A stream ends the attempts with that stream. A refusal
/// leads on to the attempt that comes next. Any other error, a timeout among them, ends the
/// attempts with that error.
pub proof fn lemma_outcome_decides<S>(
    before: ProxyAttempts,
    outcome: Result<S, Error>,
    after: ProxyAttempts,
    progress: ProxyProgress<S>,
)
    requires
        before.position() < before.total(),
        before.proxies().len() > 0,
        exists|attempts: &mut ProxyAttempts|
            {
                &&& *attempts == before
                &&& *final(attempts) == after
                &&& #[trigger] call_ensures(
                    ProxyAttempts::advance::<S>,
                    (attempts, outcome),
                    progress,
                )
            },
    ensures
        after.num_targets() == before.num_targets(),
        after.proxies() == before.proxies(),
        match outcome {
            Err(Error::Io(error)) if tcp_laws::says_refused(error) => {
                &&& after.position() == before.position() + 1
                &&& is_next(progress, after.num_targets(), after.proxies(), after.position())
            },
            other => progress == ProxyProgress::Done(other),
        },
{
    if is_refusal(outcome) {
        lemma_asked_is_next(after, progress);
    }
}

} // verus!
