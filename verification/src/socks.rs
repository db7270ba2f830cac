//! Connecting to a host through a SOCKS proxy.

use vstd::prelude::*;

use crate::addr::{IpAddr, SocketAddr, Target};
use crate::error::{Error, Fault, IoError};
use crate::proxy::Proxy;
use crate::proxy_attempts;
use crate::proxy_attempts::ProxyAttempts;
use crate::tcp::SingleStep;
use crate::time;
use crate::time::{Duration, ExactDuration, NextTimeout, Timeout};
use crate::transport;

verus! {

/// How an attempt through a proxy is waited for.
#[derive(Debug, Clone, Copy)]
pub enum ProxyWait {
    /// For as long as it takes, on the thread that makes the attempt.
    Unlimited,
    /// For no longer than `wait`, with the attempt on a thread of its own.
    Limited {
        /// How long to wait.
        wait: ExactDuration,
        /// The timeout for the socket of the attempt.
        socket_timeout: Option<ExactDuration>,
    },
}

impl ProxyWait {
    /// The timeout for the socket of the attempt.
    pub open spec fn socket_timeout_spec(&self) -> Option<ExactDuration> {
        match *self {
            ProxyWait::Unlimited => None,
            ProxyWait::Limited { wait: _, socket_timeout } => socket_timeout,
        }
    }

    /// The timeout for the socket of the attempt: `None` if there is no limit.
    #[verifier::when_used_as_spec(socket_timeout_spec)]
    pub fn socket_timeout(&self) -> (timeout: Option<ExactDuration>)
        ensures
            timeout == self.socket_timeout_spec(),
    {
        match *self {
            ProxyWait::Unlimited => None,
            ProxyWait::Limited { wait: _, socket_timeout } => socket_timeout,
        }
    }
}

/// Decides how an attempt through a proxy is waited for: a thread of its own is only used to cap
/// the time. Either way the socket of the attempt gets the timeout as sockets take it, which
/// without a limit is none.
pub fn try_connect_single(timeout: NextTimeout) -> (wait: ProxyWait)
    ensures
        match timeout.after {
            Duration::NotHappening => wait == ProxyWait::Unlimited,
            Duration::Exact(after) => {
                &&& wait matches ProxyWait::Limited { wait: limit, socket_timeout: _ }
                &&& limit == after
            },
        },
        time::nanos_of(wait.socket_timeout()) == time::not_zero_nanos(timeout.after),
{
    match timeout.after {
        Duration::NotHappening => ProxyWait::Unlimited,
        Duration::Exact(after) => ProxyWait::Limited {
            wait: after,
            socket_timeout: timeout.not_zero(),
        },
    }
}

/// What an attempt comes to that was waited for: its own outcome, or the timeout `reason` if
/// there is none in time.
pub fn attempt_received<S>(outcome: Option<Result<S, Error>>, reason: Timeout) -> (received: Result<
    S,
    Error,
>)
    ensures
        received == match outcome {
            Some(own) => own,
            None => Err(Error::Timeout(reason)),
        },
{
    match outcome {
        Some(own) => own,
        None => Err(Error::Timeout(reason)),
    }
}

/// A request that a proxy rejects, like a connection that it refuses, leads on to the next
/// attempt; nothing else that is found here does.
pub proof fn lemma_rejection_leads_on(fault: Fault)
    ensures
        Error::Io(IoError::Own(fault)).refused() == (fault is Socks4Rejected
            || fault is Socks5Rejected || fault is NoAddressConnected),
{
}

/// Connector for SOCKS proxies.
///
/// It looks at the settings of the proxy to decide whether to attempt a connection through it.
pub struct SocksConnector {
    local_ip: Option<IpAddr>,
}

impl Default for SocksConnector {
    fn default() -> (connector: SocksConnector)
        ensures
            connector.local_ip_spec() is None,
    {
        SocksConnector { local_ip: None }
    }
}

/// How a SOCKS connector goes about a connection.
#[derive(Debug)]
pub enum SocksConnect<In> {
    /// It takes whatever is there already, which may be nothing.
    Chained(Option<In>),
    /// It connects through the proxy, whose addresses have to be looked up first.
    ResolveProxy,
}

/// The way through a proxy: the targets to ask for, and the attempts at them.
#[derive(Debug)]
pub struct SocksRoute {
    /// The targets.
    pub targets: Vec<Target>,
    /// The attempts.
    pub attempts: ProxyAttempts,
    /// The local IP that every attempt is bound to, if there is one.
    pub local_ip: Option<IpAddr>,
}

/// Whether `targets` is what the proxy is asked for: each address of the host if it is resolved
/// here, and otherwise its name and port alone.
pub open spec fn are_targets(
    targets: Seq<Target>,
    resolve_target: bool,
    addrs: Seq<SocketAddr>,
    host: Seq<char>,
    port: u16,
) -> bool {
    if resolve_target {
        targets =~= addrs.map_values(|addr: SocketAddr| Target::Addr(addr))
    } else {
        &&& targets.len() == 1
        &&& targets[0] matches Target::HostPort(name, number) && name@ == host && number == port
    }
}

impl SocksConnector {
    /// The local IP that connections to the proxy are bound to, if they are bound at all.
    pub closed spec fn local_ip_spec(&self) -> Option<IpAddr> {
        self.local_ip
    }

    /// Bind the TCP connection to the SOCKS proxy to this local IP.
    pub fn with_local_ip(local_ip: IpAddr) -> (connector: SocksConnector)
        ensures
            connector.local_ip_spec() == Some(local_ip),
    {
        SocksConnector { local_ip: Some(local_ip) }
    }

    /// The local IP that connections to the proxy are bound to, if they are bound at all.
    pub fn local_ip(&self) -> (local_ip: Option<IpAddr>)
        ensures
            local_ip == self.local_ip_spec(),
    {
        self.local_ip
    }

    /// Decides whether to connect through `proxy`: only if there is one, if it is a SOCKS proxy,
    /// and if there is no connection yet.
    pub fn connect<In>(&self, proxy: Option<&Proxy>, chained: Option<In>) -> (way: SocksConnect<In>)
        ensures
            way == (if chained is None && (proxy matches Some(settings)
                && settings.protocol.socks()) {
                SocksConnect::ResolveProxy
            } else {
                SocksConnect::Chained(chained)
            }),
    {
        match proxy {
            Some(settings) => if settings.protocol.is_socks() && chained.is_none() {
                SocksConnect::ResolveProxy
            } else {
                SocksConnect::Chained(chained)
            },
            None => SocksConnect::Chained(chained),
        }
    }

    /// Finds the way through `proxy` once its addresses are known. There is none for a host that
    /// is not supposed to be proxied. `addrs` are the addresses of the host, and `host` and
    /// `port` its name and port.
    pub fn proxy_resolved(
        &self,
        proxy: &Proxy,
        proxy_addrs: &[SocketAddr],
        is_no_proxy: bool,
        addrs: &[SocketAddr],
        host: &str,
        port: u16,
    ) -> (route: Result<Option<SocksRoute>, Error>)
        ensures
            if is_no_proxy {
                route == Ok::<Option<SocksRoute>, Error>(None)
            } else if proxy_attempts::usable(proxy_addrs@, self.local_ip_spec()).len() == 0 {
                route == Err::<Option<SocksRoute>, Error>(
                    Error::Io(IoError::Own(Fault::NoProxyInLocalFamily)),
                )
            } else {
                &&& route matches Ok(Some(found))
                &&& are_targets(found.targets@, proxy.resolve_target, addrs@, host@, port)
                &&& found.attempts.num_targets() == found.targets@.len()
                &&& found.attempts.proxies() == proxy_attempts::usable(
                    proxy_addrs@,
                    self.local_ip_spec(),
                )
                &&& found.attempts.position() == 0
                &&& found.local_ip == self.local_ip_spec()
            },
    {
        if is_no_proxy {
            return Ok(None);
        }
        let mut targets: Vec<Target> = Vec::new();
        if proxy.resolve_target {
            let mut i: usize = 0;
            while i < addrs.len()
                invariant
                    i <= addrs@.len(),
                    targets@.len() == i,
                    forall|k: int| 0 <= k < i ==> #[trigger] targets@[k] == Target::Addr(addrs@[k]),
                decreases addrs@.len() - i,
            {
                targets.push(Target::Addr(addrs[i]));
                i = i + 1;
            }
        } else {
            targets.push(Target::HostPort(host.to_owned(), port));
        }
        match ProxyAttempts::new(proxy_addrs, targets.len(), self.local_ip) {
            Ok(attempts) => Ok(Some(SocksRoute { targets, attempts, local_ip: self.local_ip })),
            Err(error) => Err(error),
        }
    }

    /// Goes on once the attempts through the proxy are over: the delay of small packets is
    /// switched off, if it is to be, on the stream that connected. See
    /// [`finish_no_delay`](crate::tcp::finish_no_delay).
    pub fn attempts_over<S>(&self, connected: Result<S, Error>, no_delay: bool) -> (step:
        SingleStep<S>)
        ensures
            step == match connected {
                Ok(stream) => if no_delay {
                    SingleStep::SetNoDelay(stream)
                } else {
                    SingleStep::Done(Ok(stream))
                },
                Err(error) => SingleStep::Done(Err(error)),
            },
    {
        match connected {
            Ok(stream) => if no_delay {
                SingleStep::SetNoDelay(stream)
            } else {
                SingleStep::Done(Ok(stream))
            },
            Err(error) => SingleStep::Done(Err(error)),
        }
    }
}

/// Without a limit an attempt is waited for as long as it takes, and its socket has no timeout.
/// With one it is waited for just as long as there is, and its socket gets the same time, but a
/// second in place of none.
pub proof fn lemma_wait_is_the_time_there_is(
    timeout: NextTimeout,
    wait: ProxyWait,
    given: Option<ExactDuration>,
)
    requires
        call_ensures(try_connect_single, (timeout,), wait),
        call_ensures(ProxyWait::socket_timeout, (&wait,), given),
    ensures
        transport::times_out_after(given, timeout.after),
        match (timeout.after, wait) {
            (Duration::NotHappening, ProxyWait::Unlimited) => true,
            (Duration::Exact(after), ProxyWait::Limited { wait: limit, socket_timeout }) => {
                &&& limit@ == after@
                &&& socket_timeout == given
            },
            _ => false,
        },
{
}

/// What an attempt came to in time is handed on as it is, a timeout of its own included. If
/// nothing came, that is the timeout that was to come.
pub proof fn lemma_attempt_in_time_is_handed_on<S>(
    outcome: Result<S, Error>,
    reason: Timeout,
    in_time: Result<S, Error>,
    too_late: Result<S, Error>,
)
    requires
        call_ensures(attempt_received::<S>, (Some(outcome), reason), in_time),
        call_ensures(attempt_received::<S>, (None::<Result<S, Error>>, reason), too_late),
    ensures
        in_time == outcome,
        too_late matches Err(Error::Timeout(cause)) && cause == reason,
{
}

/// A connector binds to the local IP that it was made with, and to none if it was made without.
pub proof fn lemma_connector_keeps_its_local_ip(
    local_ip: IpAddr,
    bound: SocksConnector,
    unbound: SocksConnector,
    of_bound: Option<IpAddr>,
    of_unbound: Option<IpAddr>,
)
    requires
        call_ensures(SocksConnector::with_local_ip, (local_ip,), bound),
        call_ensures(SocksConnector::default, (), unbound),
        call_ensures(SocksConnector::local_ip, (&bound,), of_bound),
        call_ensures(SocksConnector::local_ip, (&unbound,), of_unbound),
    ensures
        of_bound == Some(local_ip),
        of_unbound == None::<IpAddr>,
{
}

/// A proxy is connected through if and only if it is a SOCKS proxy and there is no connection yet.
/// Otherwise whatever is there is taken as it is.
pub proof fn lemma_only_socks_proxies_are_used<In>(
    connector: SocksConnector,
    proxy: Option<&Proxy>,
    chained: Option<In>,
    way: SocksConnect<In>,
)
    requires
        call_ensures(SocksConnector::connect::<In>, (&connector, proxy, chained), way),
    ensures
        match way {
            SocksConnect::ResolveProxy => {
                &&& chained is None
                &&& proxy matches Some(settings) && !(settings.protocol is Http
                    || settings.protocol is Https)
            },
            SocksConnect::Chained(taken) => {
                &&& taken == chained
                &&& chained is Some || proxy is None || (proxy->Some_0.protocol is Http
                    || proxy->Some_0.protocol is Https)
            },
        },
{
}

/// A host that is not to be proxied has no way through the proxy. Any other has one, unless no
/// address of the proxy can be used: it starts with the first attempt, goes through just the
/// addresses that can be used, and is bound to the local IP of the connector. It asks for every
/// address of the host, in their order, if the host is resolved here, and otherwise for its name
/// and port, as they are.
pub proof fn lemma_way_leads_to_the_host(
    connector: SocksConnector,
    local_ip: Option<IpAddr>,
    proxy: Proxy,
    proxy_addrs: &[SocketAddr],
    is_no_proxy: bool,
    addrs: &[SocketAddr],
    host: &str,
    port: u16,
    route: Result<Option<SocksRoute>, Error>,
)
    requires
        proxy_addrs@.len() <= usize::MAX,
        call_ensures(SocksConnector::local_ip, (&connector,), local_ip),
        call_ensures(
            SocksConnector::proxy_resolved,
            (&connector, &proxy, proxy_addrs, is_no_proxy, addrs, host, port),
            route,
        ),
    ensures
        match route {
            Ok(None) => is_no_proxy,
            Err(error) => {
                &&& !is_no_proxy
                &&& error matches Error::Io(IoError::Own(Fault::NoProxyInLocalFamily))
                &&& forall|i: int|
                    0 <= i < proxy_addrs@.len() ==> !proxy_attempts::can_be_used(
                        #[trigger] proxy_addrs@[i],
                        local_ip,
                    )
            },
            Ok(Some(way)) => {
                let used = way.attempts.proxies();
                &&& !is_no_proxy
                &&& way.local_ip == local_ip
                &&& way.attempts.position() == 0
                &&& way.attempts.num_targets() == way.targets@.len()
                &&& used.len() > 0
                &&& forall|i: int|
                    0 <= i < proxy_addrs@.len() ==> (used.contains(i as usize)
                        <==> proxy_attempts::can_be_used(#[trigger] proxy_addrs@[i], local_ip))
                &&& forall|k: int| 0 <= k < used.len() ==> #[trigger] used[k] < proxy_addrs@.len()
                &&& forall|j: int, k: int|
                    0 <= j < k < used.len() ==> (#[trigger] used[j]) < (#[trigger] used[k])
                &&& if proxy.resolve_target {
                    &&& way.targets@.len() == addrs@.len()
                    &&& forall|i: int|
                        0 <= i < addrs@.len() ==> #[trigger] way.targets@[i] == Target::Addr(
                            addrs@[i],
                        )
                } else {
                    &&& way.targets@.len() == 1
                    &&& way.targets@[0] matches Target::HostPort(name, number)
                    &&& name@ == host@
                    &&& number == port
                }
            },
        },
{
    proxy_attempts::lemma_usable_is_what_can_be_used(proxy_addrs@, local_ip);
}

/// A stream that the attempts ended with is handed on as it is, with the delay of small packets
/// to be switched off first if and only if that is wanted. An error is handed on as it is.
pub proof fn lemma_stream_is_handed_on<S>(
    connector: SocksConnector,
    connected: Result<S, Error>,
    no_delay: bool,
    step: SingleStep<S>,
)
    requires
        call_ensures(
            SocksConnector::attempts_over::<S>,
            (&connector, connected, no_delay),
            step,
        ),
    ensures
        match (connected, step) {
            (Ok(stream), SingleStep::SetNoDelay(same)) => no_delay && same == stream,
            (Ok(stream), SingleStep::Done(Ok(same))) => !no_delay && same == stream,
            (Err(error), SingleStep::Done(Err(same))) => same == error,
            _ => false,
        },
{
}

} // verus!
