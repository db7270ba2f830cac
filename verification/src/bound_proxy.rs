//! Connecting to a proxy from a socket that is bound to a local IP.

use vstd::prelude::*;

use crate::addr::{IpAddr, SocketAddr, Target};
use crate::error::{ErrorKind, Fault, IoError};
use crate::handshake::{Step, StepView};
use crate::proxy::{Handshake, Proxy};
use crate::tcp;
use crate::tcp::SocketPlan;
use crate::time::ExactDuration;

verus! {

/// What connecting to a proxy from a bound socket asks for next.
#[derive(Debug)]
pub enum BoundStep {
    /// Connect a socket.
    Connect(SocketPlan),
    /// Give the socket this timeout for reading.
    SetReadTimeout(Option<ExactDuration>),
    /// Give the socket this timeout for writing.
    SetWriteTimeout(Option<ExactDuration>),
    /// Send all of `send`, if there is any, then read exactly `expect` bytes.
    Exchange {
        /// The bytes to send.
        send: Vec<u8>,
        /// The number of bytes to read.
        expect: usize,
    },
    /// It is over. With `Ok`, the socket is connected to the target.
    Done(Result<(), IoError>),
}

/// How what was asked for went.
#[derive(Debug)]
pub enum BoundEvent {
    /// The socket was connected, or was given its timeout.
    Ready,
    /// The bytes were sent, and these were read.
    Received(Vec<u8>),
    /// It failed.
    Failed(IoError),
}

/// How far connecting to a proxy from a bound socket has come.
pub enum BoundStage<'a> {
    /// The socket is being connected.
    Connecting,
    /// The timeout for reading is being set.
    SettingReadTimeout,
    /// The timeout for writing is being set.
    SettingWriteTimeout,
    /// The handshake is under way.
    Talking(Handshake<'a>),
    /// It is over.
    Over,
}

/// Connecting to a proxy from a socket that is bound to a local IP: the socket is connected and
/// given its timeouts, and only then does the handshake begin.
pub struct BoundProxy<'a> {
    proxy: &'a Proxy,
    target: &'a Target,
    timeout: Option<ExactDuration>,
    stage: BoundStage<'a>,
}

/// The end that the outcome of the handshake leads to.
pub open spec fn end_of(outcome: Result<(), Fault>) -> BoundStep {
    match outcome {
        Ok(()) => BoundStep::Done(Ok(())),
        Err(fault) => BoundStep::Done(Err(IoError::Own(fault))),
    }
}

/// Whether `step` is what a step of the handshake asks for.
pub open spec fn is_handshake_step(step: BoundStep, inner: StepView) -> bool {
    match inner {
        StepView::Exchange { send, expect } => {
            &&& step matches BoundStep::Exchange { send: bytes, expect: len }
            &&& bytes@ == send
            &&& len == expect
        },
        StepView::Done(outcome) => step == end_of(outcome),
    }
}

impl<'a> BoundProxy<'a> {
    /// The settings of the proxy.
    pub closed spec fn proxy(self) -> Proxy {
        *self.proxy
    }

    /// The target to ask for.
    pub closed spec fn target(self) -> Target {
        *self.target
    }

    /// The timeout of the socket.
    pub closed spec fn timeout(self) -> Option<ExactDuration> {
        self.timeout
    }

    /// How far it has come.
    pub closed spec fn stage(self) -> BoundStage<'a> {
        self.stage
    }

    /// Whether an event can answer what was asked for last.
    pub open spec fn takes(self, event: BoundEvent) -> bool {
        match event {
            BoundEvent::Failed(_) => true,
            BoundEvent::Ready => self.stage() is Connecting || self.stage() is SettingReadTimeout
                || self.stage() is SettingWriteTimeout,
            BoundEvent::Received(bytes) => {
                &&& self.stage() matches BoundStage::Talking(handshake)
                &&& handshake.waiting()
                &&& bytes@.len() == handshake.expects()
            },
        }
    }

    /// Whether the stage is over if `step` is the end, and otherwise the handshake waits for
    /// what `step` asks for.
    pub open spec fn talks(self, step: BoundStep) -> bool {
        match step {
            BoundStep::Done(_) => self.stage() is Over,
            BoundStep::Exchange { send: _, expect } => {
                &&& self.stage() matches BoundStage::Talking(handshake)
                &&& handshake.waiting()
                &&& handshake.expects() == expect
            },
            _ => false,
        }
    }

    /// Whether `next` with a step is what follows from how what was asked for went. Once the
    /// socket is connected it is given its timeout for reading, then the one for writing, and
    /// then the handshake begins.
    pub open spec fn resumes(
        self,
        event: BoundEvent,
        next: BoundProxy<'a>,
        step: BoundStep,
    ) -> bool {
        &&& next.proxy() == self.proxy()
        &&& next.target() == self.target()
        &&& next.timeout() == self.timeout()
        &&& match event {
            BoundEvent::Failed(error) => {
                &&& step == BoundStep::Done(Err(error))
                &&& next.stage() is Over
            },
            BoundEvent::Ready => match self.stage() {
                BoundStage::Connecting => {
                    &&& step == BoundStep::SetReadTimeout(self.timeout())
                    &&& next.stage() is SettingReadTimeout
                },
                BoundStage::SettingReadTimeout => {
                    &&& step == BoundStep::SetWriteTimeout(self.timeout())
                    &&& next.stage() is SettingWriteTimeout
                },
                _ => self.begins_handshake(next, step),
            },
            BoundEvent::Received(bytes) => {
                &&& next.talks(step)
                &&& exists|handshake: Handshake<'a>, inner: StepView|
                    #![trigger self.stage()->Talking_0.continues(bytes@, handshake, inner)]
                    {
                        &&& self.stage()->Talking_0.continues(bytes@, handshake, inner)
                        &&& is_handshake_step(step, inner)
                        &&& inner is Exchange ==> next.stage() == BoundStage::Talking(handshake)
                    }
            },
        }
    }

    /// Whether `next` with a step is the beginning of the handshake. A target that cannot be
    /// read is an error of the kind `InvalidInput`.
    pub open spec fn begins_handshake(self, next: BoundProxy<'a>, step: BoundStep) -> bool {
        match self.target().resolved() {
            None => {
                &&& step matches BoundStep::Done(Err(error))
                &&& error is Outside && error.kind() == ErrorKind::InvalidInput
                &&& next.stage() is Over
            },
            Some(view) => {
                &&& next.talks(step)
                &&& exists|handshake: Handshake<'a>, inner: StepView|
                    #![trigger handshake.begins(self.proxy(), view, inner)]
                    {
                        &&& handshake.begins(self.proxy(), view, inner)
                        &&& is_handshake_step(step, inner)
                        &&& inner is Exchange ==> next.stage() == BoundStage::Talking(handshake)
                    }
            },
        }
    }

    /// Goes on with how what was asked for went. Any failure ends it, and is passed on as it is.
    /// The protocol of the proxy matters once the handshake begins.
    pub fn resume(&mut self, event: BoundEvent) -> (step: BoundStep)
        requires
            old(self).takes(event),
            event is Ready && old(self).stage() is SettingWriteTimeout
                ==> old(self).proxy().protocol.socks(),
        ensures
            old(self).resumes(event, *final(self), step),
    {
        match event {
            BoundEvent::Failed(error) => {
                self.stage = BoundStage::Over;
                BoundStep::Done(Err(error))
            },
            BoundEvent::Ready => match &self.stage {
                BoundStage::Connecting => {
                    self.stage = BoundStage::SettingReadTimeout;
                    BoundStep::SetReadTimeout(self.timeout)
                },
                BoundStage::SettingReadTimeout => {
                    self.stage = BoundStage::SettingWriteTimeout;
                    BoundStep::SetWriteTimeout(self.timeout)
                },
                _ => match Handshake::begin(self.proxy, self.target) {
                    Err(error) => {
                        self.stage = BoundStage::Over;
                        BoundStep::Done(Err(error))
                    },
                    Ok((handshake, step)) => self.talk(handshake, step),
                },
            },
            BoundEvent::Received(bytes) => {
                let mut stage = BoundStage::Over;
                std::mem::swap(&mut stage, &mut self.stage);
                match stage {
                    BoundStage::Talking(mut handshake) => {
                        let step = handshake.resume(bytes.as_slice());
                        self.talk(handshake, step)
                    },
                    _ => BoundStep::Done(Ok(())),
                }
            },
        }
    }

    /// Asks for a step of the handshake.
    fn talk(&mut self, handshake: Handshake<'a>, step: Step) -> (asked: BoundStep)
        requires
            step@ matches StepView::Exchange { send: _, expect } ==> handshake.waiting()
                && handshake.expects() == expect,
        ensures
            final(self).proxy() == old(self).proxy(),
            final(self).target() == old(self).target(),
            final(self).timeout() == old(self).timeout(),
            is_handshake_step(asked, step@),
            final(self).talks(asked),
            step@ is Exchange ==> final(self).stage() == BoundStage::Talking(handshake),
    {
        match step {
            Step::Exchange { send, expect } => {
                self.stage = BoundStage::Talking(handshake);
                BoundStep::Exchange { send, expect }
            },
            Step::Done(outcome) => {
                self.stage = BoundStage::Over;
                match outcome {
                    Ok(()) => BoundStep::Done(Ok(())),
                    Err(fault) => BoundStep::Done(Err(IoError::Own(fault))),
                }
            },
        }
    }
}

/// Begins to connect to `target` through the proxy at `proxy_addr`, from a socket that is bound
/// to `local_ip`.
pub fn connect_bound_proxy<'a>(
    proxy: &'a Proxy,
    proxy_addr: SocketAddr,
    target: &'a Target,
    local_ip: IpAddr,
    timeout: Option<ExactDuration>,
) -> (begun: (BoundProxy<'a>, BoundStep))
    ensures
        begun.0.proxy() == *proxy,
        begun.0.target() == *target,
        begun.0.timeout() == timeout,
        match tcp::socket_plan(proxy_addr, timeout, Some(local_ip)) {
            Ok(plan) => {
                &&& begun.0.stage() is Connecting
                &&& begun.1 == BoundStep::Connect(plan)
            },
            Err(fault) => {
                &&& begun.0.stage() is Over
                &&& begun.1 == BoundStep::Done(Err(IoError::Own(fault)))
            },
        },
{
    match tcp::connect_socket(proxy_addr, timeout, Some(local_ip)) {
        Ok(plan) => (
            BoundProxy { proxy, target, timeout, stage: BoundStage::Connecting },
            BoundStep::Connect(plan),
        ),
        Err(fault) => (
            BoundProxy { proxy, target, timeout, stage: BoundStage::Over },
            BoundStep::Done(Err(IoError::Own(fault))),
        ),
    }
}

} // verus!
