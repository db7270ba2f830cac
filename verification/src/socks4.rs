//! The handshake with a SOCKS4 proxy, with the SOCKS4A extension for host names.

use vstd::prelude::*;

use crate::addr::{SocketAddr, TargetAddr, TargetView};
use crate::error::Fault;
use crate::handshake;
use crate::handshake::{Conversation, Step, StepView};

verus! {

/// The length of a SOCKS4 reply.
pub const REPLY_LEN: usize = 8;

/// The status of a request that the proxy granted.
pub const GRANTED: u8 = 90;

/// The request to connect to `target`: version and command, the port, the address, and an empty
/// user name. With a host name the address is the invalid `0.0.0.1`, and the name follows, with
/// a zero byte behind it.
pub open spec fn request(target: TargetView) -> Result<Seq<u8>, Fault> {
    match target {
        TargetView::V4(octets, port) => Ok(
            seq![4u8, 1u8] + handshake::port_bytes(port) + octets + seq![0u8],
        ),
        TargetView::V6(_, _) => Err(Fault::Socks4Ipv6Target),
        TargetView::Domain(name, port) => Ok(
            seq![4u8, 1u8] + handshake::port_bytes(port) + seq![0u8, 0u8, 0u8, 1u8] + seq![0u8]
                + name + seq![0u8],
        ),
    }
}

/// How the handshake begins.
pub open spec fn first_step(target: TargetView) -> StepView {
    match request(target) {
        Ok(bytes) => StepView::Exchange { send: bytes, expect: REPLY_LEN as nat },
        Err(fault) => StepView::Done(Err(fault)),
    }
}

/// What a reply of eight bytes means. It grants the request if its first byte is zero and its
/// status is [`GRANTED`]; the other bytes do not matter.
pub open spec fn outcome(reply: Seq<u8>) -> Result<(), Fault> {
    if reply[0] != 0 || reply[1] != GRANTED {
        Err(Fault::Socks4Rejected(reply[1]))
    } else {
        Ok(())
    }
}

/// All that passes between the two sides if the proxy sends `stream`.
pub open spec fn conversation(target: TargetView, stream: Seq<u8>) -> Conversation {
    match first_step(target) {
        StepView::Done(outcome) => Conversation {
            sent: seq![],
            received: 0,
            outcome: Some(outcome),
        },
        StepView::Exchange { send, expect } => if stream.len() < expect {
            Conversation { sent: send, received: stream.len(), outcome: None }
        } else {
            Conversation {
                sent: send,
                received: expect,
                outcome: Some(outcome(stream.take(expect as int))),
            }
        },
    }
}

/// Begins the handshake that connects to `target` through a SOCKS4 proxy: the whole request is
/// one exchange. SOCKS4 has no IPv6, so that with such a target nothing is sent at all.
pub fn connect_socks4(target: &TargetAddr) -> (step: Step)
    ensures
        step@ == first_step(target@),
{
    let mut bytes: Vec<u8> = Vec::new();
    bytes.push(4);
    bytes.push(1);
    match target {
        TargetAddr::Ip(SocketAddr::V4(octets, port)) => {
            handshake::append_port(&mut bytes, *port);
            handshake::append_bytes(&mut bytes, octets.as_slice());
            bytes.push(0);
        },
        TargetAddr::Ip(SocketAddr::V6(_, _)) => {
            return Step::Done(Err(Fault::Socks4Ipv6Target));
        },
        TargetAddr::Domain(name, port) => {
            handshake::append_port(&mut bytes, *port);
            bytes.push(0);
            bytes.push(0);
            bytes.push(0);
            bytes.push(1);
            bytes.push(0);
            handshake::append_bytes(&mut bytes, name.as_str().as_bytes());
            bytes.push(0);
        },
    }
    assert(bytes@ =~= request(target@)->Ok_0);
    Step::Exchange { send: bytes, expect: REPLY_LEN }
}

/// Ends the handshake with the reply of the proxy.
pub fn check_socks4_reply(reply: &[u8]) -> (granted: Result<(), Fault>)
    requires
        reply@.len() == REPLY_LEN,
    ensures
        granted == outcome(reply@),
{
    if reply[0] != 0 || reply[1] != GRANTED {
        Err(Fault::Socks4Rejected(reply[1]))
    } else {
        Ok(())
    }
}

/// The handshake succeeds if and only if the target can be asked for and the proxy sends a reply
/// that grants the request. It has then read that reply, and has sent the request.
pub proof fn lemma_succeeds_iff_granted(target: TargetView, stream: Seq<u8>)
    ensures
        (conversation(target, stream).outcome == Some(Ok::<(), Fault>(()))) == (request(target)
            is Ok && stream.len() >= REPLY_LEN && stream[0] == 0 && stream[1] == GRANTED),
        conversation(target, stream).outcome == Some(Ok::<(), Fault>(())) ==> {
            &&& conversation(target, stream).received == REPLY_LEN
            &&& conversation(target, stream).sent == request(target)->Ok_0
        },
{
}

/// Once the handshake is over, for better or worse, it has not looked at anything that the proxy
/// sends after it.
pub proof fn lemma_rest_is_left(target: TargetView, stream: Seq<u8>, extra: Seq<u8>)
    requires
        conversation(target, stream).outcome is Some,
    ensures
        conversation(target, stream + extra) == conversation(target, stream),
        conversation(target, stream).received <= stream.len(),
{
    if request(target) is Ok {
        assert((stream + extra).take(REPLY_LEN as int) =~= stream.take(REPLY_LEN as int));
    }
}

/// With an IPv6 target nothing is sent, and nothing is read.
pub proof fn lemma_ipv6_stays_silent(octets: Seq<u8>, port: u16, stream: Seq<u8>)
    ensures
        conversation(TargetView::V6(octets, port), stream) == (Conversation {
            sent: seq![],
            received: 0,
            outcome: Some(Err(Fault::Socks4Ipv6Target)),
        }),
{
}

/// The place of the first zero byte from `at` on, if there is one.
pub open spec fn zero_from(bytes: Seq<u8>, at: int) -> Option<int>
    decreases bytes.len() - at,
{
    if at < 0 || at >= bytes.len() {
        None
    } else if bytes[at] == 0 {
        Some(at)
    } else {
        zero_from(bytes, at + 1)
    }
}

/// What a proxy with the SOCKS4A extension reads in a request to connect: the target, and the
/// number of bytes of the request. After version 4 and command 1 come two bytes of port, the more
/// significant one first, four octets, and a user name up to a zero byte. An address of the form
/// `0.0.0.x`, with `x` not zero, says that a host name follows, up to a zero byte.
pub open spec fn decoded_request(bytes: Seq<u8>) -> Option<(TargetView, nat)> {
    if bytes.len() < 9 || bytes[0] != 4 || bytes[1] != 1 {
        None
    } else {
        let port = (bytes[2] * 256 + bytes[3]) as u16;
        match zero_from(bytes, 8) {
            None => None,
            Some(user_end) => if bytes[4] == 0 && bytes[5] == 0 && bytes[6] == 0 && bytes[7] != 0 {
                match zero_from(bytes, user_end + 1) {
                    None => None,
                    Some(name_end) => Some(
                        (
                            TargetView::Domain(bytes.subrange(user_end + 1, name_end), port),
                            (name_end + 1) as nat,
                        ),
                    ),
                }
            } else {
                Some((TargetView::V4(bytes.subrange(4, 8), port), (user_end + 1) as nat))
            },
        }
    }
}

proof fn lemma_zero_after(bytes: Seq<u8>, at: int, end: int)
    requires
        0 <= at <= end < bytes.len(),
        bytes[end] == 0,
        forall|i: int| at <= i < end ==> #[trigger] bytes[i] != 0,
    ensures
        zero_from(bytes, at) == Some(end),
    decreases end - at,
{
    if at < end {
        lemma_zero_after(bytes, at + 1, end);
    }
}

/// A request for an address tells the proxy that address and that port, and ends there. It is
/// told nothing of a user name. The addresses `0.0.0.x` are the ones that SOCKS4A gives another
/// meaning to; they are sent like every other.
pub proof fn lemma_request_for_address_decodes(octets: [u8; 4], port: u16, step: Step)
    requires
        call_ensures(
            connect_socks4,
            (&TargetAddr::Ip(SocketAddr::V4(octets, port)),),
            step,
        ),
    ensures
        step matches Step::Exchange { send, expect } && {
            &&& expect == 8
            &&& send@.len() == 9
            &&& send@[0] == 4 && send@[1] == 1
            &&& send@.subrange(4, 8) == octets@
            &&& send@[2] * 256 + send@[3] == port
            &&& send@[8] == 0
            &&& !(octets@[0] == 0 && octets@[1] == 0 && octets@[2] == 0 && octets@[3] != 0)
                ==> decoded_request(send@) == Some((TargetView::V4(octets@, port), send@.len()))
        },
{
    let send = step->send;
    let bytes = seq![4u8, 1u8] + handshake::port_bytes(port) + octets@ + seq![0u8];
    assert(send@ == bytes);
    assert(bytes.subrange(4, 8) =~= octets@);
    assert(bytes[4] == octets@[0] && bytes[5] == octets@[1] && bytes[6] == octets@[2] && bytes[7]
        == octets@[3]);
    lemma_zero_after(bytes, 8, 8);
}

/// A request for a host name tells the proxy that name and that port, however long the name is,
/// and ends there. It is told nothing of a user name. All of the name is sent in any case, and a
/// name that holds no zero byte is read back as it is.
pub proof fn lemma_request_for_name_decodes(name: String, port: u16, step: Step)
    requires
        call_ensures(connect_socks4, (&TargetAddr::Domain(name, port),), step),
    ensures
        step matches Step::Exchange { send, expect } && {
            let host = vstd::utf8::encode_utf8(name@);
            &&& expect == 8
            &&& send@.len() == host.len() + 10
            &&& send@[0] == 4 && send@[1] == 1
            &&& send@[2] * 256 + send@[3] == port
            &&& send@[4] == 0 && send@[5] == 0 && send@[6] == 0 && send@[7] != 0
            &&& send@[8] == 0 && send@.last() == 0
            &&& send@.subrange(9, 9 + host.len() as int) == host
            &&& !host.contains(0u8) ==> decoded_request(send@) == Some(
                (TargetView::Domain(host, port), send@.len()),
            )
        },
{
    let send = step->send;
    let host = vstd::utf8::encode_utf8(name@);
    let bytes = seq![4u8, 1u8] + handshake::port_bytes(port) + seq![0u8, 0u8, 0u8, 1u8] + seq![0u8]
        + host + seq![0u8];
    assert(send@ == bytes);
    assert(bytes.subrange(9, 9 + host.len() as int) =~= host);
    lemma_zero_after(bytes, 8, 8);
    if !host.contains(0u8) {
        assert forall|i: int| 9 <= i < 9 + host.len() implies #[trigger] bytes[i] != 0 by {
            assert(bytes[i] == host[i - 9]);
        }
        lemma_zero_after(bytes, 9, 9 + host.len() as int);
    }
}

/// An IPv6 address cannot be asked for: nothing is sent.
pub proof fn lemma_no_request_for_ipv6(octets: [u8; 16], port: u16, step: Step)
    requires
        call_ensures(
            connect_socks4,
            (&TargetAddr::Ip(SocketAddr::V6(octets, port)),),
            step,
        ),
    ensures
        step matches Step::Done(Err(fault)) && fault is Socks4Ipv6Target,
{
}

/// A reply grants the request if and only if it begins with a zero byte and the status 90. If it
/// does not, the failure tells the status that the proxy gave.
pub proof fn lemma_reply_grants_or_tells_status(reply: &[u8], granted: Result<(), Fault>)
    requires
        reply@.len() == 8,
        call_ensures(check_socks4_reply, (reply,), granted),
    ensures
        match granted {
            Ok(()) => reply@[0] == 0 && reply@[1] == 90,
            Err(fault) => {
                &&& reply@[0] != 0 || reply@[1] != 90
                &&& fault matches Fault::Socks4Rejected(status)
                &&& status == reply@[1]
            },
        },
{
}

/// Whatever the proxy sends, the handshake over a whole stream ends by its first eight bytes. It
/// ends well only if they begin with a zero byte and the status 90, and is not over before all
/// eight are there.
pub proof fn lemma_first_eight_bytes_decide(target: TargetView, stream: Seq<u8>)
    requires
        !(target is V6),
    ensures
        ({
            let talk = conversation(target, stream);
            if stream.len() < 8 {
                talk.outcome is None && talk.received == stream.len()
            } else {
                &&& talk.received == 8
                &&& talk.outcome == Some(Ok::<(), Fault>(())) <==> stream[0] == 0 && stream[1] == 90
                &&& talk.outcome matches Some(Err(fault)) ==> fault == Fault::Socks4Rejected(
                    stream[1],
                )
            }
        }),
{
}

} // verus!
