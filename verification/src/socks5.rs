//! The handshake with a SOCKS5 proxy.

use vstd::prelude::*;

use crate::addr;
use crate::addr::{SocketAddr, TargetAddr, TargetView};
use crate::error::Fault;
use crate::handshake;
use crate::handshake::{Conversation, Step, StepView};

verus! {

/// The version byte that begins most messages.
pub const VERSION: u8 = 5;

/// The version byte of the messages about user name and password.
pub const AUTH_VERSION: u8 = 1;

/// The method without authentication.
pub const METHOD_NONE: u8 = 0;

/// The method with user name and password.
pub const METHOD_PASSWORD: u8 = 2;

/// The answer of a proxy that takes none of the methods.
pub const METHOD_REFUSED: u8 = 0xff;

/// The type byte of an IPv4 address.
pub const TYPE_V4: u8 = 1;

/// The type byte of a host name.
pub const TYPE_DOMAIN: u8 = 3;

/// The type byte of an IPv6 address.
pub const TYPE_V6: u8 = 4;

/// What the proxy is expected to send next.
#[derive(Debug, Clone, Copy, PartialEq, Eq, Structural)]
pub enum Phase {
    /// The method that it picks.
    Method,
    /// Its answer to user name and password.
    Password,
    /// The head of its answer to the request.
    Response,
    /// The length byte of the host name in its answer.
    AddressLength,
    /// The last bytes of its answer, this many.
    Address(usize),
    /// Nothing: the handshake is over.
    Closed,
}

impl Phase {
    /// The number of bytes that the proxy is expected to send next.
    pub open spec fn expects(self) -> nat {
        match self {
            Phase::Method => 2,
            Phase::Password => 2,
            Phase::Response => 4,
            Phase::AddressLength => 1,
            Phase::Address(len) => len as nat,
            Phase::Closed => 0,
        }
    }

    /// The number of phases that can still follow.
    pub open spec fn remaining(self) -> nat {
        match self {
            Phase::Method => 5,
            Phase::Password => 4,
            Phase::Response => 3,
            Phase::AddressLength => 2,
            Phase::Address(_) => 1,
            Phase::Closed => 0,
        }
    }
}

/// What a handshake is for: the target, and the user name and the password, in bytes.
#[verifier::ext_equal]
pub struct Params {
    /// Where to connect to.
    pub target: TargetView,
    /// The user name, if there is one.
    pub username: Option<Seq<u8>>,
    /// The password, if there is one.
    pub password: Option<Seq<u8>>,
}

/// The bytes of an optional text.
pub open spec fn optional_bytes(text: Option<&str>) -> Option<Seq<u8>> {
    match text {
        None => None,
        Some(text) => Some(addr::text_bytes(text@)),
    }
}

impl Params {
    /// The user name to send: empty if there is none.
    pub open spec fn user(self) -> Seq<u8> {
        match self.username {
            Some(bytes) => bytes,
            None => seq![],
        }
    }

    /// The password to send: empty if there is none.
    pub open spec fn pass(self) -> Seq<u8> {
        match self.password {
            Some(bytes) => bytes,
            None => seq![],
        }
    }

    /// The first message: the methods on offer. Without a user name that is only the one without
    /// authentication; with a user name, the one with a password comes first.
    pub open spec fn greeting(self) -> Seq<u8> {
        if self.username is Some {
            seq![VERSION, 2u8, METHOD_PASSWORD, METHOD_NONE]
        } else {
            seq![VERSION, 1u8, METHOD_NONE]
        }
    }

    /// Whether user name and password can be sent: each has from 1 to 255 bytes.
    pub open spec fn credentials_fit(self) -> bool {
        0 < self.user().len() <= 255 && 0 < self.pass().len() <= 255
    }

    /// The message with user name and password, each with its length before it.
    pub open spec fn credentials(self) -> Seq<u8> {
        seq![AUTH_VERSION, self.user().len() as u8] + self.user() + seq![self.pass().len() as u8]
            + self.pass()
    }

    /// The request to connect to the target.
    pub open spec fn request(self) -> Result<Seq<u8>, Fault> {
        match encoded_addr(self.target) {
            Ok(bytes) => Ok(seq![VERSION, 1u8, 0u8] + bytes),
            Err(fault) => Err(fault),
        }
    }

    /// What comes once the proxy needs no authentication any more.
    pub open spec fn request_step(self) -> (Phase, StepView) {
        match self.request() {
            Ok(bytes) => (Phase::Response, StepView::Exchange { send: bytes, expect: 4 }),
            Err(fault) => closed(Err(fault)),
        }
    }

    /// What comes after the method that the proxy picked.
    pub open spec fn after_method(self, reply: Seq<u8>) -> (Phase, StepView) {
        if reply[0] != VERSION || reply[1] == METHOD_REFUSED {
            closed(Err(Fault::Socks5MethodsRejected))
        } else if reply[1] == METHOD_PASSWORD {
            if self.credentials_fit() {
                (Phase::Password, StepView::Exchange { send: self.credentials(), expect: 2 })
            } else {
                closed(Err(Fault::Socks5CredentialLength))
            }
        } else if reply[1] != METHOD_NONE {
            closed(Err(Fault::Socks5UnsupportedMethod))
        } else {
            self.request_step()
        }
    }

    /// What comes after the answer to user name and password.
    pub open spec fn after_password(self, reply: Seq<u8>) -> (Phase, StepView) {
        if reply[0] != AUTH_VERSION || reply[1] != 0 {
            closed(Err(Fault::Socks5AuthenticationFailed))
        } else {
            self.request_step()
        }
    }

    /// What comes in a phase after the bytes that were expected in it.
    pub open spec fn after(self, phase: Phase, reply: Seq<u8>) -> (Phase, StepView) {
        match phase {
            Phase::Method => self.after_method(reply),
            Phase::Password => self.after_password(reply),
            Phase::Response => after_response(reply),
            Phase::AddressLength => (
                Phase::Address((reply[0] + 2) as usize),
                StepView::Exchange { send: seq![], expect: reply[0] as nat + 2 },
            ),
            Phase::Address(_) | Phase::Closed => closed(Ok(())),
        }
    }

    /// All that passes from a phase on, if the proxy sends `stream`.
    pub open spec fn conversation_from(self, phase: Phase, stream: Seq<u8>) -> Conversation
        decreases phase.remaining(),
    {
        let expect = phase.expects();
        if stream.len() < expect {
            Conversation { sent: seq![], received: stream.len(), outcome: None }
        } else {
            let (next, step) = self.after(phase, stream.take(expect as int));
            match step {
                StepView::Done(outcome) => Conversation {
                    sent: seq![],
                    received: expect,
                    outcome: Some(outcome),
                },
                StepView::Exchange { send, expect: _ } => {
                    let rest = self.conversation_from(next, stream.skip(expect as int));
                    Conversation {
                        sent: send + rest.sent,
                        received: expect + rest.received,
                        outcome: rest.outcome,
                    }
                },
            }
        }
    }

    /// All that passes between the two sides, if the proxy sends `stream`.
    pub open spec fn conversation(self, stream: Seq<u8>) -> Conversation {
        let rest = self.conversation_from(Phase::Method, stream);
        Conversation {
            sent: self.greeting() + rest.sent,
            received: rest.received,
            outcome: rest.outcome,
        }
    }
}

/// The end of a handshake.
pub open spec fn closed(outcome: Result<(), Fault>) -> (Phase, StepView) {
    (Phase::Closed, StepView::Done(outcome))
}

/// What comes after the head of the answer to the request.
pub open spec fn after_response(reply: Seq<u8>) -> (Phase, StepView) {
    if reply[0] != VERSION || reply[2] != 0 {
        closed(Err(Fault::Socks5InvalidResponse))
    } else if reply[1] != 0 {
        closed(Err(Fault::Socks5Rejected(reply[1])))
    } else {
        after_addr_type(reply[3])
    }
}

/// How the rest of the answer is read, by the type of the address in it: the address and two
/// bytes of port, for a host name behind its length.
pub open spec fn after_addr_type(addr_type: u8) -> (Phase, StepView) {
    if addr_type == TYPE_V4 {
        (Phase::Address(6), StepView::Exchange { send: seq![], expect: 6 })
    } else if addr_type == TYPE_V6 {
        (Phase::Address(18), StepView::Exchange { send: seq![], expect: 18 })
    } else if addr_type == TYPE_DOMAIN {
        (Phase::AddressLength, StepView::Exchange { send: seq![], expect: 1 })
    } else {
        closed(Err(Fault::Socks5InvalidAddressType))
    }
}

/// A target as it is sent: the type, the address, and the port. A host name has its length
/// before it, in one byte.
pub open spec fn encoded_addr(target: TargetView) -> Result<Seq<u8>, Fault> {
    match target {
        TargetView::V4(octets, port) => Ok(
            seq![TYPE_V4] + octets + handshake::port_bytes(port),
        ),
        TargetView::V6(octets, port) => Ok(
            seq![TYPE_V6] + octets + handshake::port_bytes(port),
        ),
        TargetView::Domain(name, port) => if name.len() > 255 {
            Err(Fault::Socks5DomainTooLong)
        } else {
            Ok(seq![TYPE_DOMAIN, name.len() as u8] + name + handshake::port_bytes(port))
        },
    }
}

/// Appends `target` to `out` as it is sent.
pub fn encode_socks5_addr(out: &mut Vec<u8>, target: &TargetAddr) -> (encoded: Result<(), Fault>)
    ensures
        match encoded_addr(target@) {
            Ok(bytes) => encoded is Ok && final(out)@ == old(out)@ + bytes,
            Err(fault) => encoded == Err::<(), Fault>(fault) && final(out)@ == old(out)@,
        },
{
    match target {
        TargetAddr::Ip(SocketAddr::V4(octets, port)) => {
            out.push(TYPE_V4);
            handshake::append_bytes(out, octets.as_slice());
            handshake::append_port(out, *port);
        },
        TargetAddr::Ip(SocketAddr::V6(octets, port)) => {
            out.push(TYPE_V6);
            handshake::append_bytes(out, octets.as_slice());
            handshake::append_port(out, *port);
        },
        TargetAddr::Domain(name, port) => {
            let bytes = name.as_str().as_bytes();
            if bytes.len() > 255 {
                return Err(Fault::Socks5DomainTooLong);
            }
            out.push(TYPE_DOMAIN);
            out.push(bytes.len() as u8);
            handshake::append_bytes(out, bytes);
            handshake::append_port(out, *port);
        },
    }
    assert(out@ =~= old(out)@ + encoded_addr(target@)->Ok_0);
    Ok(())
}

/// Begins to read the address in an answer, whose type is `addr_type`: what is expected next,
/// and the step that asks for it.
pub fn consume_socks5_addr(addr_type: u8) -> (next: (Phase, Step))
    ensures
        (next.0, next.1@) == after_addr_type(addr_type),
{
    let len: usize = match addr_type {
        1 => 6,
        4 => 18,
        3 => {
            return (Phase::AddressLength, Step::Exchange { send: Vec::new(), expect: 1 });
        },
        _ => {
            return (Phase::Closed, Step::Done(Err(Fault::Socks5InvalidAddressType)));
        },
    };
    (Phase::Address(len), Step::Exchange { send: Vec::new(), expect: len })
}

/// A handshake with a SOCKS5 proxy. It is driven by [`Socks5::resume`].
pub struct Socks5<'a> {
    target: TargetAddr,
    username: Option<&'a str>,
    password: Option<&'a str>,
    phase: Phase,
}

impl<'a> Socks5<'a> {
    /// What the handshake is for.
    pub closed spec fn params(self) -> Params {
        Params {
            target: self.target@,
            username: optional_bytes(self.username),
            password: optional_bytes(self.password),
        }
    }

    /// What the proxy is expected to send next.
    pub closed spec fn phase(self) -> Phase {
        self.phase
    }

    /// Goes on with what the proxy sent.
    pub fn resume(&mut self, reply: &[u8]) -> (step: Step)
        requires
            old(self).phase() != Phase::Closed,
            reply@.len() == old(self).phase().expects(),
        ensures
            (final(self).phase(), step@) == old(self).params().after(old(self).phase(), reply@),
            final(self).params() == old(self).params(),
            step@ matches StepView::Exchange { send: _, expect } ==> {
                &&& final(self).phase() != Phase::Closed
                &&& expect == final(self).phase().expects()
            },
    {
        let (next, step) = match self.phase {
            Phase::Method => {
                if reply[0] != VERSION || reply[1] == METHOD_REFUSED {
                    (Phase::Closed, Step::Done(Err(Fault::Socks5MethodsRejected)))
                } else if reply[1] == METHOD_PASSWORD {
                    self.password_step()
                } else if reply[1] != METHOD_NONE {
                    (Phase::Closed, Step::Done(Err(Fault::Socks5UnsupportedMethod)))
                } else {
                    self.request_step()
                }
            },
            Phase::Password => {
                if reply[0] != AUTH_VERSION || reply[1] != 0 {
                    (Phase::Closed, Step::Done(Err(Fault::Socks5AuthenticationFailed)))
                } else {
                    self.request_step()
                }
            },
            Phase::Response => {
                if reply[0] != VERSION || reply[2] != 0 {
                    (Phase::Closed, Step::Done(Err(Fault::Socks5InvalidResponse)))
                } else if reply[1] != 0 {
                    (Phase::Closed, Step::Done(Err(Fault::Socks5Rejected(reply[1]))))
                } else {
                    consume_socks5_addr(reply[3])
                }
            },
            Phase::AddressLength => {
                let len: usize = reply[0] as usize + 2;
                (Phase::Address(len), Step::Exchange { send: Vec::new(), expect: len })
            },
            Phase::Address(_) | Phase::Closed => (Phase::Closed, Step::Done(Ok(()))),
        };
        self.phase = next;
        step
    }

    /// Sends user name and password, if they can be sent.
    fn password_step(&self) -> (next: (Phase, Step))
        ensures
            (next.0, next.1@) == (if self.params().credentials_fit() {
                (
                    Phase::Password,
                    StepView::Exchange { send: self.params().credentials(), expect: 2 },
                )
            } else {
                closed(Err(Fault::Socks5CredentialLength))
            }),
    {
        let user = bytes_or_empty(self.username);
        let pass = bytes_or_empty(self.password);
        assert(user@ == self.params().user() && pass@ == self.params().pass());
        if user.len() == 0 || user.len() > 255 || pass.len() == 0 || pass.len() > 255 {
            return (Phase::Closed, Step::Done(Err(Fault::Socks5CredentialLength)));
        }
        let mut message: Vec<u8> = Vec::with_capacity(3 + user.len() + pass.len());
        message.push(AUTH_VERSION);
        message.push(user.len() as u8);
        handshake::append_bytes(&mut message, user.as_slice());
        message.push(pass.len() as u8);
        handshake::append_bytes(&mut message, pass.as_slice());
        assert(message@ =~= self.params().credentials());
        (Phase::Password, Step::Exchange { send: message, expect: 2 })
    }

    /// Sends the request, if the target can be sent.
    fn request_step(&self) -> (next: (Phase, Step))
        ensures
            (next.0, next.1@) == self.params().request_step(),
    {
        let mut message: Vec<u8> = Vec::new();
        message.push(VERSION);
        message.push(1);
        message.push(0);
        match encode_socks5_addr(&mut message, &self.target) {
            Ok(()) => {
                assert(message@ =~= self.params().request()->Ok_0);
                (Phase::Response, Step::Exchange { send: message, expect: 4 })
            },
            Err(fault) => (Phase::Closed, Step::Done(Err(fault))),
        }
    }
}

/// Begins the handshake that connects to `target` through a SOCKS5 proxy.
pub fn connect_socks5<'a>(
    target: TargetAddr,
    username: Option<&'a str>,
    password: Option<&'a str>,
) -> (begun: (Socks5<'a>, Step))
    ensures
        begun.0.params() == (Params {
            target: target@,
            username: optional_bytes(username),
            password: optional_bytes(password),
        }),
        begun.0.phase() == Phase::Method,
        begun.1@ == (StepView::Exchange { send: begun.0.params().greeting(), expect: 2 }),
{
    let mut greeting: Vec<u8> = Vec::new();
    greeting.push(VERSION);
    if username.is_some() {
        greeting.push(2);
        greeting.push(METHOD_PASSWORD);
    } else {
        greeting.push(1);
    }
    greeting.push(METHOD_NONE);
    let handshake = Socks5 { target, username, password, phase: Phase::Method };
    assert(greeting@ =~= handshake.params().greeting());
    (handshake, Step::Exchange { send: greeting, expect: 2 })
}

/// The bytes of a text, none if there is no text.
fn bytes_or_empty(text: Option<&str>) -> (bytes: Vec<u8>)
    ensures
        bytes@ == match optional_bytes(text) {
            Some(bytes) => bytes,
            None => seq![],
        },
{
    let mut bytes: Vec<u8> = Vec::new();
    if let Some(text) = text {
        handshake::append_bytes(&mut bytes, text.as_bytes());
        assert(bytes@ =~= addr::text_bytes(text@));
    }
    bytes
}

/// The number of bytes of the answer to the request, whose type byte is at `at`, from that byte
/// to its end: the type, the address, and the port.
pub open spec fn addr_len(stream: Seq<u8>, at: int) -> nat {
    if stream[at] == TYPE_V4 {
        7
    } else if stream[at] == TYPE_V6 {
        19
    } else {
        (stream[at + 1] + 4) as nat
    }
}

/// The number of bytes that the proxy sends before its answer to the request.
pub open spec fn preamble_len(stream: Seq<u8>) -> nat {
    if stream[1] == METHOD_PASSWORD {
        4
    } else {
        2
    }
}

/// The number of bytes that a proxy sends that grants the request.
pub open spec fn granted_len(stream: Seq<u8>) -> nat {
    let at = preamble_len(stream) + 3;
    at + addr_len(stream, at as int)
}

impl Params {
    /// Whether the proxy picks a method that is known and lets the client in.
    pub open spec fn admits(self, stream: Seq<u8>) -> bool {
        &&& stream.len() >= 2
        &&& stream[0] == VERSION
        &&& {
            ||| stream[1] == METHOD_NONE
            ||| {
                &&& stream[1] == METHOD_PASSWORD
                &&& self.credentials_fit()
                &&& stream.len() >= 4
                &&& stream[2] == AUTH_VERSION
                &&& stream[3] == 0
            }
        }
    }

    /// Whether what the proxy sends grants the request, down to the last byte of its answer.
    pub open spec fn grants(self, stream: Seq<u8>) -> bool {
        &&& self.admits(stream)
        &&& self.request() is Ok
        &&& answer_grants(stream.skip(preamble_len(stream) as int))
    }
}

/// Whether an answer to the request says that the connection stands, and is whole.
pub open spec fn answer_grants(answer: Seq<u8>) -> bool {
    &&& answer.len() >= 4
    &&& answer[0] == VERSION
    &&& answer[1] == 0
    &&& answer[2] == 0
    &&& answer[3] == TYPE_V4 || answer[3] == TYPE_V6 || (answer[3] == TYPE_DOMAIN && answer.len()
        >= 5)
    &&& answer.len() >= 3 + addr_len(answer, 3)
}

/// The target of a handshake is an address of either family, or a host name.
pub proof fn lemma_target_has_its_form(handshake: Socks5)
    ensures
        match handshake.params().target {
            TargetView::V4(octets, _) => octets.len() == 4,
            TargetView::V6(octets, _) => octets.len() == 16,
            TargetView::Domain(_, _) => true,
        },
{
}

} // verus!
