//! The settings of a proxy, and how it is talked to.

use vstd::prelude::*;

use crate::addr;
use crate::addr::{IpAddr, Target, TargetView};
use crate::error::{ErrorKind, Fault, IoError};
use crate::handshake::{Conversation, Step, StepView};
use crate::socks4;
use crate::socks5;
use crate::socks5::{Params, Phase, Socks5};
use crate::socks5_laws;

verus! {

/// How a proxy is talked to.
#[derive(Debug, Clone, Copy, PartialEq, Eq, Structural)]
pub enum ProxyProtocol {
    /// HTTP CONNECT.
    Http,
    /// HTTP CONNECT over TLS.
    Https,
    /// SOCKS4.
    Socks4,
    /// SOCKS4 with host names.
    Socks4A,
    /// SOCKS5.
    Socks5,
    /// SOCKS5 with host names.
    Socks5h,
}

impl ProxyProtocol {
    /// Whether the protocol is a version of SOCKS4.
    pub open spec fn socks4(self) -> bool {
        self == ProxyProtocol::Socks4 || self == ProxyProtocol::Socks4A
    }

    /// Whether the protocol is a version of SOCKS5.
    pub open spec fn socks5(self) -> bool {
        self == ProxyProtocol::Socks5 || self == ProxyProtocol::Socks5h
    }

    /// Whether the protocol is a version of SOCKS.
    pub open spec fn socks(self) -> bool {
        self.socks4() || self.socks5()
    }

    /// Whether the protocol is a version of SOCKS4.
    pub fn is_socks4(&self) -> (socks4: bool)
        ensures
            socks4 == self.socks4(),
    {
        matches!(self, ProxyProtocol::Socks4 | ProxyProtocol::Socks4A)
    }

    /// Whether the protocol is a version of SOCKS.
    pub fn is_socks(&self) -> (socks: bool)
        ensures
            socks == self.socks(),
    {
        matches!(
            self,
            ProxyProtocol::Socks4 | ProxyProtocol::Socks4A | ProxyProtocol::Socks5
                | ProxyProtocol::Socks5h
        )
    }
}

/// The settings of a proxy.
#[derive(Clone)]
pub struct Proxy {
    /// How it is talked to.
    pub protocol: ProxyProtocol,
    /// The user name to give, if any.
    pub username: Option<String>,
    /// The password to give, if any.
    pub password: Option<String>,
    /// Whether the host name of the target is resolved here rather than by the proxy.
    pub resolve_target: bool,
}

/// The text of an optional string.
fn as_text(text: &Option<String>) -> (borrowed: Option<&str>)
    ensures
        match text {
            None => borrowed is None,
            Some(string) => borrowed matches Some(text) && text@ == string@,
        },
{
    match text {
        None => None,
        Some(string) => Some(string.as_str()),
    }
}

/// How the connection through a proxy is made.
#[derive(Clone, Copy)]
pub enum Dial<'a> {
    /// On a socket that is bound to this local IP: see [`bound_proxy`](crate::bound_proxy).
    Bound(IpAddr),
    /// By a SOCKS4 client, which gives this user name.
    Socks4(&'a str),
    /// By a SOCKS5 client, without authentication.
    Socks5,
    /// By a SOCKS5 client, which gives this user name and this password.
    Socks5WithPassword(&'a str, &'a str),
}

/// Decides how the connection through `proxy` is made. SOCKS4 knows no password, and no user
/// name is given to it. With SOCKS5 a user name without a password goes with an empty one.
pub fn connect_proxy<'a>(proxy: &'a Proxy, local_ip: Option<IpAddr>) -> (dial: Dial<'a>)
    requires
        local_ip is None ==> proxy.protocol.socks(),
    ensures
        match local_ip {
            Some(local) => dial == Dial::Bound(local),
            None => if proxy.protocol.socks4() {
                dial matches Dial::Socks4(userid) && userid@ == Seq::<char>::empty()
            } else {
                match proxy.username {
                    None => dial == Dial::Socks5,
                    Some(username) => {
                        &&& dial matches Dial::Socks5WithPassword(user, pass)
                        &&& user@ == username@
                        &&& pass@ == match proxy.password {
                            Some(password) => password@,
                            None => Seq::<char>::empty(),
                        }
                    },
                }
            },
        },
{
    if let Some(local) = local_ip {
        return Dial::Bound(local);
    }
    proof {
        reveal_strlit("");
    }
    if proxy.protocol.is_socks4() {
        assert(""@ =~= Seq::<char>::empty());
        return Dial::Socks4("");
    }
    match as_text(&proxy.username) {
        None => Dial::Socks5,
        Some(username) => {
            assert(""@ =~= Seq::<char>::empty());
            let password = match as_text(&proxy.password) {
                Some(password) => password,
                None => "",
            };
            Dial::Socks5WithPassword(username, password)
        },
    }
}

/// A handshake with a SOCKS proxy of either version.
pub enum Handshake<'a> {
    /// With a SOCKS4 proxy: its reply is awaited.
    Socks4,
    /// With a SOCKS5 proxy.
    Socks5(Socks5<'a>),
}

/// The bytes of an optional string.
pub open spec fn string_bytes(text: Option<String>) -> Option<Seq<u8>> {
    match text {
        None => None,
        Some(string) => Some(addr::text_bytes(string@)),
    }
}

impl Proxy {
    /// What a SOCKS5 handshake that connects to `target` through the proxy is for.
    pub open spec fn params(self, target: TargetView) -> Params {
        Params {
            target,
            username: string_bytes(self.username),
            password: string_bytes(self.password),
        }
    }

    /// All that passes between the two sides when the proxy is asked to connect to `target`, if
    /// it sends `stream`.
    pub open spec fn conversation(self, target: TargetView, stream: Seq<u8>) -> Conversation {
        if self.protocol.socks4() {
            socks4::conversation(target, stream)
        } else {
            self.params(target).conversation(stream)
        }
    }
}

impl<'a> Handshake<'a> {
    /// The number of bytes that the proxy is expected to send next.
    pub open spec fn expects(self) -> nat {
        match self {
            Handshake::Socks4 => socks4::REPLY_LEN as nat,
            Handshake::Socks5(inner) => inner.phase().expects(),
        }
    }

    /// All that passes from here on, if the proxy sends `stream`.
    pub open spec fn conversation_from(self, stream: Seq<u8>) -> Conversation {
        match self {
            Handshake::Socks4 => if stream.len() < socks4::REPLY_LEN {
                Conversation { sent: seq![], received: stream.len(), outcome: None }
            } else {
                Conversation {
                    sent: seq![],
                    received: socks4::REPLY_LEN as nat,
                    outcome: Some(socks4::outcome(stream.take(socks4::REPLY_LEN as int))),
                }
            },
            Handshake::Socks5(inner) => inner.params().conversation_from(inner.phase(), stream),
        }
    }

    /// Whether the handshake can go on with something that the proxy sends.
    pub open spec fn waiting(self) -> bool {
        self matches Handshake::Socks5(inner) ==> inner.phase() != Phase::Closed
    }

    /// Whether this handshake with its first step is how `proxy` is asked to connect to a target
    /// with the view `view`.
    pub open spec fn begins(self, proxy: Proxy, view: TargetView, step: StepView) -> bool {
        if proxy.protocol.socks4() {
            &&& self is Socks4
            &&& step == socks4::first_step(view)
        } else {
            &&& self matches Handshake::Socks5(inner)
            &&& inner.phase() == Phase::Method
            &&& inner.params() == proxy.params(view)
            &&& step == (StepView::Exchange { send: proxy.params(view).greeting(), expect: 2 })
        }
    }

    /// Whether `next` with a step is what follows from this handshake when the proxy sends
    /// `reply`.
    pub open spec fn continues(self, reply: Seq<u8>, next: Handshake<'a>, step: StepView) -> bool {
        match self {
            Handshake::Socks4 => {
                &&& next is Socks4
                &&& step == StepView::Done(socks4::outcome(reply))
            },
            Handshake::Socks5(inner) => {
                &&& next matches Handshake::Socks5(after)
                &&& (after.phase(), step) == inner.params().after(inner.phase(), reply)
                &&& after.params() == inner.params()
            },
        }
    }

    /// Begins the handshake that asks `proxy` to connect to `target`. A target that cannot be
    /// read is an error before anything is sent.
    pub fn begin(proxy: &'a Proxy, target: &Target) -> (begun: Result<
        (Handshake<'a>, Step),
        IoError,
    >)
        requires
            proxy.protocol.socks(),
        ensures
            match target.resolved() {
                None => begun is Err && begun->Err_0 is Outside && begun->Err_0.kind()
                    == ErrorKind::InvalidInput,
                Some(view) => {
                    &&& begun matches Ok((handshake, step))
                    &&& handshake.begins(*proxy, view, step@)
                },
            },
    {
        match target.to_target_addr() {
            Err(error) => Err(error),
            Ok(addr) => {
                if proxy.protocol.is_socks4() {
                    return Ok((Handshake::Socks4, socks4::connect_socks4(&addr)));
                }
                let (inner, step) = socks5::connect_socks5(
                    addr,
                    as_text(&proxy.username),
                    as_text(&proxy.password),
                );
                Ok((Handshake::Socks5(inner), step))
            },
        }
    }

    /// Goes on with what the proxy sent.
    pub fn resume(&mut self, reply: &[u8]) -> (step: Step)
        requires
            old(self).waiting(),
            reply@.len() == old(self).expects(),
        ensures
            old(self).continues(reply@, *final(self), step@),
            step@ matches StepView::Exchange { send: _, expect } ==> {
                &&& final(self).waiting()
                &&& expect == final(self).expects()
            },
    {
        match self {
            Handshake::Socks4 => Step::Done(socks4::check_socks4_reply(reply)),
            Handshake::Socks5(inner) => inner.resume(reply),
        }
    }
}

/// A proxy is a SOCKS proxy unless it is one for HTTP, and of those the ones of version 4 are told
/// from the ones of version 5.
pub proof fn lemma_versions_of_socks(protocol: ProxyProtocol, is_socks: bool, is_socks4: bool)
    requires
        call_ensures(ProxyProtocol::is_socks, (&protocol,), is_socks),
        call_ensures(ProxyProtocol::is_socks4, (&protocol,), is_socks4),
    ensures
        is_socks <==> !(protocol is Http || protocol is Https),
        is_socks4 <==> protocol is Socks4 || protocol is Socks4A,
        is_socks == protocol.socks(),
        is_socks4 == protocol.socks4(),
{
}

/// With a local IP the connection is made from a socket that is bound to just that IP. Without
/// one it is made by a client of the version of the proxy. A SOCKS4 proxy is told no user name. A
/// SOCKS5 proxy is told user name and password as they are set, with an empty password where none
/// is set, and neither if no user name is set.
pub proof fn lemma_client_fits_the_proxy<'a>(
    proxy: &'a Proxy,
    local: IpAddr,
    bound: Dial<'a>,
    unbound: Dial<'a>,
)
    requires
        call_ensures(connect_proxy, (proxy, Some(local)), bound),
        call_ensures(connect_proxy, (proxy, None::<IpAddr>), unbound),
    ensures
        bound matches Dial::Bound(ip) && ip == local,
        match unbound {
            Dial::Bound(_) => false,
            Dial::Socks4(userid) => {
                &&& proxy.protocol is Socks4 || proxy.protocol is Socks4A
                &&& userid@.len() == 0
            },
            Dial::Socks5 => {
                &&& !(proxy.protocol is Socks4 || proxy.protocol is Socks4A)
                &&& proxy.username is None
            },
            Dial::Socks5WithPassword(user, pass) => {
                &&& !(proxy.protocol is Socks4 || proxy.protocol is Socks4A)
                &&& proxy.username matches Some(username) && user@ == username@
                &&& proxy.password matches Some(password) ==> pass@ == password@
                &&& proxy.password is None ==> pass@.len() == 0
            },
        },
{
}

/// The bytes of an optional text.
pub open spec fn setting_in_bytes(text: Option<String>) -> Option<Seq<u8>> {
    match text {
        None => None,
        Some(string) => Some(vstd::utf8::encode_utf8(string@)),
    }
}

/// A handshake with a SOCKS5 proxy is about the target that was asked for, and about user name
/// and password as they are set for the proxy, all of each. It begins with a greeting that offers
/// what can be done with them. One with a SOCKS4 proxy begins as
/// [`connect_socks4`](crate::socks4::connect_socks4) does for that target. There is none if and
/// only if the target cannot be read.
pub proof fn lemma_handshake_is_about_target_and_settings<'a>(
    proxy: &'a Proxy,
    target: Target,
    begun: Result<(Handshake<'a>, Step), IoError>,
)
    requires
        proxy.protocol.socks(),
        call_ensures(Handshake::<'a>::begin, (proxy, &target), begun),
    ensures
        match begun {
            Err(error) => target.resolved() is None && error.kind() is InvalidInput,
            Ok((handshake, step)) => {
                &&& target.resolved() matches Some(view)
                &&& match handshake {
                    Handshake::Socks4 => {
                        &&& proxy.protocol is Socks4 || proxy.protocol is Socks4A
                        &&& step@ == socks4::first_step(view)
                    },
                    Handshake::Socks5(inner) => {
                        &&& proxy.protocol is Socks5 || proxy.protocol is Socks5h
                        &&& inner.phase() == Phase::Method
                        &&& inner.params().target == view
                        &&& inner.params().username == setting_in_bytes(proxy.username)
                        &&& inner.params().password == setting_in_bytes(proxy.password)
                        &&& step matches Step::Exchange { send, expect }
                        &&& expect == 2
                        &&& socks5_laws::is_greeting(send@, proxy.username is Some)
                    },
                }
            },
        },
{
    if let Ok((Handshake::Socks5(inner), step)) = begun {
        let greeting = step->send@;
        let methods = greeting.skip(2);
        assert(greeting == inner.params().greeting());
        assert(methods[methods.len() - 1] == 0);
        if proxy.username is Some {
            assert(methods[0] == 2);
        }
    }
}

/// A handshake goes on as that of its version does: with a SOCKS4 proxy it ends with the one reply
/// that there is, and is granted by a zero byte and the status 90; with a SOCKS5 proxy it goes on
/// with what is due there, about the same target and settings.
pub proof fn lemma_handshake_stays_with_its_version<'a>(
    before: Handshake<'a>,
    reply: &[u8],
    after: Handshake<'a>,
    step: Step,
)
    requires
        before.waiting(),
        reply@.len() == before.expects(),
        exists|handshake: &mut Handshake<'a>|
            {
                &&& *handshake == before
                &&& *final(handshake) == after
                &&& #[trigger] call_ensures(Handshake::<'a>::resume, (handshake, reply), step)
            },
    ensures
        match (before, after) {
            (Handshake::Socks4, Handshake::Socks4) => if reply@[0] == 0 && reply@[1] == 90 {
                step == Step::Done(Ok(()))
            } else {
                step == Step::Done(Err(Fault::Socks4Rejected(reply@[1])))
            },
            (Handshake::Socks5(inner), Handshake::Socks5(next)) => {
                &&& next.params() == inner.params()
                &&& (next.phase(), step@) == inner.params().after(inner.phase(), reply@)
            },
            _ => false,
        },
{
}

} // verus!
