//! What the handshakes with SOCKS proxies have in common.
//!
//! A handshake is a sequence of exchanges: bytes are sent to the proxy, and then an exact number
//! of bytes is read from it. The handshake says what the next exchange is, and is told what was
//! read.

use vstd::prelude::*;

use crate::error::Fault;

verus! {

/// What a handshake asks for next.
#[derive(Debug, PartialEq, Eq)]
pub enum Step {
    /// Send all of `send`, if there is any, then read exactly `expect` bytes.
    Exchange {
        /// The bytes to send.
        send: Vec<u8>,
        /// The number of bytes to read.
        expect: usize,
    },
    /// The handshake is over. With `Ok`, all that the proxy sends from here on is from the
    /// target.
    Done(Result<(), Fault>),
}

/// What a [`Step`] asks for, in bytes.
#[verifier::ext_equal]
pub enum StepView {
    /// The bytes to send and the number of bytes to read.
    Exchange { send: Seq<u8>, expect: nat },
    /// The outcome.
    Done(Result<(), Fault>),
}

impl View for Step {
    type V = StepView;

    open spec fn view(&self) -> StepView {
        match *self {
            Step::Exchange { send, expect } => StepView::Exchange {
                send: send@,
                expect: expect as nat,
            },
            Step::Done(outcome) => StepView::Done(outcome),
        }
    }
}

/// All that passes between the two sides: the bytes that are sent, the number of bytes that are
/// read, and the outcome, which is `None` if the proxy stops before the end.
#[verifier::ext_equal]
pub struct Conversation {
    /// The bytes that are sent to the proxy.
    pub sent: Seq<u8>,
    /// The number of bytes that are read from the proxy.
    pub received: nat,
    /// The outcome of the handshake.
    pub outcome: Option<Result<(), Fault>>,
}

/// A port as it is sent: its two bytes, the more significant one first.
pub open spec fn port_bytes(port: u16) -> Seq<u8> {
    seq![(port / 256) as u8, (port % 256) as u8]
}

/// Appends `bytes` to `out`.
pub(crate) fn append_bytes(out: &mut Vec<u8>, bytes: &[u8])
    ensures
        final(out)@ == old(out)@ + bytes@,
{
    out.extend_from_slice(bytes);
    assert(out@ =~= old(out)@ + bytes@);
}

/// Appends `port` to `out` as it is sent.
pub(crate) fn append_port(out: &mut Vec<u8>, port: u16)
    ensures
        final(out)@ == old(out)@ + port_bytes(port),
{
    out.push((port / 256) as u8);
    out.push((port % 256) as u8);
    assert(out@ =~= old(out)@ + port_bytes(port));
}

} // verus!
