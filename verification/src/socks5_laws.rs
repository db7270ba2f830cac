//! What holds of every handshake with a SOCKS5 proxy.

use vstd::prelude::*;

use crate::addr::{TargetAddr, TargetView};
use crate::error::{ErrorKind, Fault};
use crate::handshake;
use crate::handshake::{Conversation, Step, StepView};
use crate::socks5;
use crate::socks5::{Params, Phase, Socks5};

verus! {

/// What is sent and read while the answer to the request is awaited.
proof fn lemma_answer(params: Params, answer: Seq<u8>)
    ensures
        ({
            let talk = params.conversation_from(Phase::Response, answer);
            &&& (talk.outcome == Some(Ok::<(), Fault>(()))) == socks5::answer_grants(answer)
            &&& talk.sent =~= seq![]
            &&& socks5::answer_grants(answer) ==> talk.received == 3 + socks5::addr_len(answer, 3)
        }),
{
    reveal_with_fuel(Params::conversation_from, 3);
}

/// The handshake succeeds if and only if the proxy admits the client and answers the request
/// with success and a whole address. It has then read that answer to its last byte and nothing
/// beyond, and has sent the methods on offer, user name and password if the proxy picked that
/// method, and the request.
pub proof fn lemma_succeeds_iff_granted(params: Params, stream: Seq<u8>)
    ensures
        (params.conversation(stream).outcome == Some(Ok::<(), Fault>(()))) == params.grants(stream),
        params.grants(stream) ==> {
            let talk = params.conversation(stream);
            &&& talk.received == socks5::granted_len(stream)
            &&& talk.sent == params.greeting() + (if stream[1] == socks5::METHOD_PASSWORD {
                params.credentials()
            } else {
                seq![]
            }) + params.request()->Ok_0
        },
{
    reveal_with_fuel(Params::conversation_from, 2);
    if stream.len() >= 2 {
        let rest = stream.skip(2);
        lemma_answer(params, rest);
        if rest.len() >= 2 {
            assert(stream.skip(4) =~= rest.skip(2));
            lemma_answer(params, rest.skip(2));
        }
        if params.grants(stream) {
            let talk = params.conversation(stream);
            if stream[1] == socks5::METHOD_PASSWORD {
                assert(talk.sent =~= params.greeting() + params.credentials()
                    + params.request()->Ok_0);
            } else {
                assert(talk.sent =~= params.greeting() + seq![] + params.request()->Ok_0);
            }
        }
    }
}

proof fn lemma_rest_is_left_from(params: Params, phase: Phase, stream: Seq<u8>, extra: Seq<u8>)
    requires
        params.conversation_from(phase, stream).outcome is Some,
    ensures
        params.conversation_from(phase, stream + extra) == params.conversation_from(phase, stream),
        params.conversation_from(phase, stream).received <= stream.len(),
    decreases phase.remaining(),
{
    let expect = phase.expects() as int;
    assert((stream + extra).take(expect) =~= stream.take(expect));
    let (next, step) = params.after(phase, stream.take(expect));
    if step is Exchange {
        assert((stream + extra).skip(expect) =~= stream.skip(expect) + extra);
        lemma_rest_is_left_from(params, next, stream.skip(expect), extra);
    }
}

/// Once the handshake is over, for better or worse, it has not looked at anything that the proxy
/// sends after it: those bytes are the target's.
pub proof fn lemma_rest_is_left(params: Params, stream: Seq<u8>, extra: Seq<u8>)
    requires
        params.conversation(stream).outcome is Some,
    ensures
        params.conversation(stream + extra) == params.conversation(stream),
        params.conversation(stream).received <= stream.len(),
{
    lemma_rest_is_left_from(params, Phase::Method, stream, extra);
}

proof fn lemma_answer_ignores_credentials(a: Params, b: Params, phase: Phase, stream: Seq<u8>)
    requires
        phase is Response || phase is AddressLength || phase is Address || phase is Closed,
    ensures
        a.conversation_from(phase, stream) == b.conversation_from(phase, stream),
    decreases phase.remaining(),
{
    let expect = phase.expects() as int;
    if stream.len() >= expect {
        let (next, step) = a.after(phase, stream.take(expect));
        if step is Exchange {
            lemma_answer_ignores_credentials(a, b, next, stream.skip(expect));
        }
    }
}

/// A proxy that does not pick the method with user name and password learns nothing of either,
/// beyond whether there is a user name: all that passes is the same whatever they are.
pub proof fn lemma_credentials_only_on_demand(a: Params, b: Params, stream: Seq<u8>)
    requires
        a.target == b.target,
        a.username is Some == b.username is Some,
        stream.len() >= 2 ==> stream[1] != socks5::METHOD_PASSWORD,
    ensures
        a.conversation(stream) == b.conversation(stream),
{
    reveal_with_fuel(Params::conversation_from, 2);
    if stream.len() >= 2 {
        lemma_answer_ignores_credentials(a, b, Phase::Response, stream.skip(2));
    }
}

/// A request that the proxy rejects ends the handshake with the status that the proxy gave, and
/// counts as a refused connection.
pub proof fn lemma_rejection_is_refusal(params: Params, stream: Seq<u8>)
    requires
        params.admits(stream),
        params.request() is Ok,
        stream.len() >= socks5::preamble_len(stream) + 4,
        ({
            let answer = stream.skip(socks5::preamble_len(stream) as int);
            answer[0] == socks5::VERSION && answer[2] == 0 && answer[1] != 0
        }),
    ensures
        ({
            let status = stream[socks5::preamble_len(stream) as int + 1];
            &&& params.conversation(stream).outcome == Some(
                Err::<(), Fault>(Fault::Socks5Rejected(status)),
            )
            &&& Fault::Socks5Rejected(status).kind() == ErrorKind::ConnectionRefused
        }),
{
    reveal_with_fuel(Params::conversation_from, 3);
    if stream[1] == socks5::METHOD_PASSWORD {
        assert(stream.skip(4) =~= stream.skip(2).skip(2));
    }
}

/// Every exchange asks for just what the phase after it expects, and brings the handshake nearer
/// to its end: there are at most five.
pub proof fn lemma_handshake_advances(params: Params, phase: Phase, reply: Seq<u8>)
    requires
        reply.len() == phase.expects(),
    ensures
        ({
            let (next, step) = params.after(phase, reply);
            &&& next.remaining() <= 5
            &&& step is Done <==> next is Closed
            &&& step matches StepView::Exchange { send: _, expect } ==> expect == next.expects()
                && 0 < expect && next.remaining() < phase.remaining()
        }),
{
}

/// Whether a view can be that of a target.
pub open spec fn is_target(target: TargetView) -> bool {
    match target {
        TargetView::V4(octets, _) => octets.len() == 4,
        TargetView::V6(octets, _) => octets.len() == 16,
        TargetView::Domain(_, _) => true,
    }
}

/// The port at `at`.
pub open spec fn port_at(bytes: Seq<u8>, at: int) -> u16 {
    (bytes[at] * 256 + bytes[at + 1]) as u16
}

/// The target that `bytes` begin with, as the other side reads it, and the number of bytes that
/// it takes.
pub open spec fn decoded_addr(bytes: Seq<u8>) -> Option<(TargetView, nat)> {
    if bytes.len() < 2 {
        None
    } else if bytes[0] == 1 && bytes.len() >= 7 {
        Some((TargetView::V4(bytes.subrange(1, 5), port_at(bytes, 5)), 7))
    } else if bytes[0] == 4 && bytes.len() >= 19 {
        Some((TargetView::V6(bytes.subrange(1, 17), port_at(bytes, 17)), 19))
    } else if bytes[0] == 3 && bytes.len() >= bytes[1] + 4 {
        Some(
            (
                TargetView::Domain(
                    bytes.subrange(2, bytes[1] + 2),
                    port_at(bytes, bytes[1] + 2),
                ),
                (bytes[1] + 4) as nat,
            ),
        )
    } else {
        None
    }
}

/// What is sent of a target tells the other side that target and no other, and where it ends.
pub proof fn lemma_encoding_decodes(target: TargetView, rest: Seq<u8>)
    requires
        is_target(target),
        socks5::encoded_addr(target) is Ok,
    ensures
        ({
            let bytes = socks5::encoded_addr(target)->Ok_0;
            decoded_addr(bytes + rest) == Some((target, bytes.len()))
        }),
{
    let bytes = socks5::encoded_addr(target)->Ok_0;
    let all = bytes + rest;
    match target {
        TargetView::V4(octets, port) => {
            assert(all.subrange(1, 5) =~= octets);
            assert(all[5] == handshake::port_bytes(port)[0]);
            assert(all[6] == handshake::port_bytes(port)[1]);
        },
        TargetView::V6(octets, port) => {
            assert(all.subrange(1, 17) =~= octets);
            assert(all[17] == handshake::port_bytes(port)[0]);
            assert(all[18] == handshake::port_bytes(port)[1]);
        },
        TargetView::Domain(name, port) => {
            let end = name.len() as int + 2;
            assert(all[1] == name.len());
            assert(all.subrange(2, end) =~= name);
            assert(all[end] == handshake::port_bytes(port)[0] && all[end + 1]
                == handshake::port_bytes(port)[1]);
        },
    }
}

/// An answer that says success and holds an address, of any kind that can be sent, is read to
/// the last byte of that address.
pub proof fn lemma_any_address_is_consumed(params: Params, bound: TargetView, rest: Seq<u8>)
    requires
        is_target(bound),
        socks5::encoded_addr(bound) is Ok,
    ensures
        ({
            let bytes = socks5::encoded_addr(bound)->Ok_0;
            let head = seq![socks5::VERSION, 0u8, 0u8];
            let talk = params.conversation_from(Phase::Response, head + bytes + rest);
            &&& talk.outcome == Some(Ok::<(), Fault>(()))
            &&& talk.received == head.len() + bytes.len()
        }),
{
    let bytes = socks5::encoded_addr(bound)->Ok_0;
    let head = seq![socks5::VERSION, 0u8, 0u8];
    let answer = head + bytes + rest;
    assert(answer[3] == bytes[0] && answer[4] == bytes[1]);
    lemma_answer(params, answer);
}

/// The bytes that a step sends.
pub open spec fn sent_by(step: StepView) -> Seq<u8> {
    match step {
        StepView::Exchange { send, expect: _ } => send,
        StepView::Done(_) => seq![],
    }
}

/// Whether a handshake that is in the first of `phases` goes through all of them, as the proxy
/// sends one after another of `replies`, and asks for `steps` on the way, of which the last ends
/// it.
pub open spec fn is_run(
    params: Params,
    phases: Seq<Phase>,
    replies: Seq<Seq<u8>>,
    steps: Seq<StepView>,
) -> bool {
    &&& replies.len() > 0
    &&& phases.len() == replies.len() + 1
    &&& steps.len() == replies.len()
    &&& forall|i: int|
        0 <= i < replies.len() ==> {
            &&& (#[trigger] replies[i]).len() == phases[i].expects()
            &&& (phases[i + 1], steps[i]) == params.after(phases[i], replies[i])
            &&& steps[i] is Done <==> i == replies.len() - 1
        }
}

/// A handshake that goes on step by step has, once it is over, had just the conversation that
/// its replies in a row make: it has sent what its steps asked to send, has read the replies, and
/// ends with the outcome of its last step.
pub proof fn lemma_run_is_conversation(
    params: Params,
    phases: Seq<Phase>,
    replies: Seq<Seq<u8>>,
    steps: Seq<StepView>,
    extra: Seq<u8>,
)
    requires
        is_run(params, phases, replies, steps),
    ensures
        params.conversation_from(phases[0], replies.flatten() + extra) == (Conversation {
            sent: steps.map_values(|step: StepView| sent_by(step)).flatten(),
            received: replies.flatten().len(),
            outcome: Some(steps.last()->Done_0),
        }),
    decreases replies.len(),
{
    let stream = replies.flatten() + extra;
    let expect = phases[0].expects() as int;
    let first = replies[0];
    let rest = replies.drop_first();
    let sends = steps.map_values(|step: StepView| sent_by(step));
    assert(replies.flatten() == first + rest.flatten());
    assert(sends.flatten() == sends[0] + sends.drop_first().flatten());
    assert(stream.take(expect) =~= first);
    assert(stream.skip(expect) =~= rest.flatten() + extra);
    if replies.len() == 1 {
        assert(rest.flatten() =~= seq![]);
        assert(sends.drop_first().flatten() =~= seq![]);
    } else {
        let later = steps.drop_first();
        assert(sends.drop_first() =~= later.map_values(|step: StepView| sent_by(step)));
        assert forall|i: int| 0 <= i < rest.len() implies {
            &&& (#[trigger] rest[i]).len() == phases.drop_first()[i].expects()
            &&& (phases.drop_first()[i + 1], later[i]) == params.after(
                phases.drop_first()[i],
                rest[i],
            )
            &&& later[i] is Done <==> i == rest.len() - 1
        } by {
            assert(rest[i] == replies[i + 1]);
        }
        lemma_run_is_conversation(params, phases.drop_first(), rest, later, extra);
    }
}

/// The bytes of an optional text.
pub open spec fn text_in_bytes(text: Option<&str>) -> Option<Seq<u8>> {
    match text {
        None => None,
        Some(text) => Some(vstd::utf8::encode_utf8(text@)),
    }
}

/// The methods that a greeting offers, in the order of preference: after version 5 comes their
/// number, and then one byte for each.
pub open spec fn methods_offered(greeting: Seq<u8>) -> Option<Seq<u8>> {
    if greeting.len() >= 2 && greeting[0] == 5 && greeting.len() == greeting[1] + 2 {
        Some(greeting.skip(2))
    } else {
        None
    }
}

/// The handshake is about the target, the user name and the password that it was begun with, all
/// of each. Its first message offers to do without authentication, always, and to send user name
/// and password if and only if there is a user name, and then before all else. Nothing else is
/// offered, and nothing twice.
pub proof fn lemma_greeting_offers_methods<'a>(
    target: TargetAddr,
    username: Option<&'a str>,
    password: Option<&'a str>,
    begun: (Socks5<'a>, Step),
)
    requires
        call_ensures(socks5::connect_socks5, (target, username, password), begun),
    ensures
        begun.0.phase() == Phase::Method,
        begun.0.params().target == target@,
        begun.0.params().username == text_in_bytes(username),
        begun.0.params().password == text_in_bytes(password),
        begun.1 matches Step::Exchange { send, expect } && expect == 2 && is_greeting(
            send@,
            username is Some,
        ),
{
    let greeting = begun.1->send@;
    let methods = greeting.skip(2);
    assert(greeting == begun.0.params().greeting());
    assert(methods[methods.len() - 1] == 0);
    if username is Some {
        assert(methods[0] == 2);
    }
}

/// Whether a greeting offers just what can be done with a user name, or without one.
pub open spec fn is_greeting(greeting: Seq<u8>, has_user: bool) -> bool {
    &&& methods_offered(greeting) matches Some(methods)
    &&& methods.contains(0u8)
    &&& has_user <==> methods.contains(2u8)
    &&& has_user ==> methods[0] == 2
    &&& forall|i: int| 0 <= i < methods.len() ==> #[trigger] methods[i] == 0 || methods[i] == 2
    &&& methods.no_duplicates()
}

/// What the other side reads in the message with user name and password: version 1, one byte of
/// length and as many bytes of user name, one byte of length and as many bytes of password, and
/// nothing more.
pub open spec fn decoded_credentials(bytes: Seq<u8>) -> Option<(Seq<u8>, Seq<u8>)> {
    if bytes.len() < 2 || bytes[0] != 1 || bytes.len() < bytes[1] + 3 {
        None
    } else {
        let at = bytes[1] + 2;
        if bytes.len() != at + 1 + bytes[at] {
            None
        } else {
            Some((bytes.subrange(2, at), bytes.skip(at + 1)))
        }
    }
}

/// Whether there are a user name and a password of 1 to 255 bytes each.
pub open spec fn has_credentials(params: Params) -> bool {
    match (params.username, params.password) {
        (Some(user), Some(pass)) => 1 <= user.len() <= 255 && 1 <= pass.len() <= 255,
        _ => false,
    }
}

/// The message with user name and password tells the other side just these, byte for byte,
/// whatever they are and however long they are.
pub proof fn lemma_credentials_decode(params: Params)
    requires
        has_credentials(params),
    ensures
        decoded_credentials(params.credentials()) == Some(
            (params.username->Some_0, params.password->Some_0),
        ),
{
    let user = params.username->Some_0;
    let pass = params.password->Some_0;
    let bytes = params.credentials();
    let at = user.len() as int + 2;
    assert(bytes.len() == user.len() + pass.len() + 3);
    assert(bytes[1] == user.len());
    assert(bytes[at] == pass.len());
    assert(bytes.subrange(2, at) =~= user);
    assert(bytes.skip(at + 1) =~= pass);
}

/// Whether a step asks the proxy to connect to `target`, as the proxy reads it: version 5,
/// command 1, a zero byte, and the target, to its last byte. A host name of more than 255 bytes
/// cannot be asked for, and is a failure instead.
pub open spec fn requests_target(step: Step, next: Phase, target: TargetView) -> bool {
    match step {
        Step::Exchange { send, expect } => {
            &&& next == Phase::Response
            &&& expect == 4
            &&& send@.len() >= 3 && send@[0] == 5 && send@[1] == 1 && send@[2] == 0
            &&& decoded_addr(send@.skip(3)) == Some((target, (send@.len() - 3) as nat))
        },
        Step::Done(outcome) => {
            &&& target matches TargetView::Domain(name, _) && name.len() > 255
            &&& outcome matches Err(fault) && fault is Socks5DomainTooLong
        },
    }
}

proof fn lemma_request_step(params: Params, next: Phase, step: Step)
    requires
        is_target(params.target),
        (next, step@) == params.request_step(),
    ensures
        requests_target(step, next, params.target),
{
    if let Step::Exchange { send, expect: _ } = step {
        lemma_encoding_decodes(params.target, seq![]);
        let bytes = socks5::encoded_addr(params.target)->Ok_0;
        assert(send@.skip(3) =~= bytes + seq![]);
    }
}

/// The method that the proxy picks decides how the handshake goes on. With the method that does
/// without authentication the request follows. With the method with user name and password these
/// are sent, just as they are, if each has from 1 to 255 bytes; and nothing is sent if not. A
/// proxy of another version, one that takes no method, and one that picks another method end the
/// handshake, each with its own failure.
pub proof fn lemma_method_decides<'a>(
    before: Socks5<'a>,
    reply: &[u8],
    after: Socks5<'a>,
    step: Step,
)
    requires
        before.phase() == Phase::Method,
        reply@.len() == 2,
        exists|handshake: &mut Socks5<'a>|
            {
                &&& *handshake == before
                &&& *final(handshake) == after
                &&& #[trigger] call_ensures(Socks5::resume, (handshake, reply), step)
            },
    ensures
        after.params() == before.params(),
        if reply@[0] != 5 || reply@[1] == 255 {
            step matches Step::Done(Err(fault)) && fault is Socks5MethodsRejected
        } else if reply@[1] == 0 {
            requests_target(step, after.phase(), before.params().target)
        } else if reply@[1] != 2 {
            step matches Step::Done(Err(fault)) && fault is Socks5UnsupportedMethod
        } else if !has_credentials(before.params()) {
            step matches Step::Done(Err(fault)) && fault is Socks5CredentialLength
        } else {
            &&& step matches Step::Exchange { send, expect }
            &&& expect == 2
            &&& decoded_credentials(send@) == Some(
                (before.params().username->Some_0, before.params().password->Some_0),
            )
            &&& after.phase() == Phase::Password
        },
{
    socks5::lemma_target_has_its_form(before);
    let params = before.params();
    if reply@[0] == 5 && reply@[1] == 0 {
        lemma_request_step(params, after.phase(), step);
    } else if reply@[0] == 5 && reply@[1] == 2 && has_credentials(params) {
        lemma_credentials_decode(params);
    }
}

/// The request follows user name and password if and only if the proxy answers them with version
/// 1 and a zero byte. With any other answer the handshake ends.
pub proof fn lemma_login_decides<'a>(
    before: Socks5<'a>,
    reply: &[u8],
    after: Socks5<'a>,
    step: Step,
)
    requires
        before.phase() == Phase::Password,
        reply@.len() == 2,
        exists|handshake: &mut Socks5<'a>|
            {
                &&& *handshake == before
                &&& *final(handshake) == after
                &&& #[trigger] call_ensures(Socks5::resume, (handshake, reply), step)
            },
    ensures
        after.params() == before.params(),
        if reply@[0] == 1 && reply@[1] == 0 {
            requests_target(step, after.phase(), before.params().target)
        } else {
            step matches Step::Done(Err(fault)) && fault is Socks5AuthenticationFailed
        },
{
    socks5::lemma_target_has_its_form(before);
    if reply@[0] == 1 && reply@[1] == 0 {
        lemma_request_step(before.params(), after.phase(), step);
    }
}

/// Whether a step sends nothing and goes on to read `len` bytes, in a phase that expects them.
pub open spec fn only_reads(step: Step, next: Phase, phase: Phase, len: nat) -> bool {
    &&& step matches Step::Exchange { send, expect }
    &&& send@.len() == 0
    &&& expect == len
    &&& next == phase
}

/// Whether a step reads on behind the type of an address: an IPv4 address and a port are 6 bytes,
/// an IPv6 address and a port 18, and a host name has its length before it. There is no other
/// type.
pub open spec fn reads_address(addr_type: u8, step: Step, next: Phase) -> bool {
    match addr_type {
        1 => only_reads(step, next, Phase::Address(6), 6),
        4 => only_reads(step, next, Phase::Address(18), 18),
        3 => only_reads(step, next, Phase::AddressLength, 1),
        _ => step matches Step::Done(Err(fault)) && fault is Socks5InvalidAddressType,
    }
}

/// The answer to the request is read on if and only if it says that the connection stands: it has
/// version 5, status 0, a zero byte, and a known type of address. Another status ends the
/// handshake and is told, and whatever else is wrong has a failure of its own.
pub proof fn lemma_answer_decides<'a>(
    before: Socks5<'a>,
    reply: &[u8],
    after: Socks5<'a>,
    step: Step,
)
    requires
        before.phase() == Phase::Response,
        reply@.len() == 4,
        exists|handshake: &mut Socks5<'a>|
            {
                &&& *handshake == before
                &&& *final(handshake) == after
                &&& #[trigger] call_ensures(Socks5::resume, (handshake, reply), step)
            },
    ensures
        after.params() == before.params(),
        if reply@[0] != 5 || reply@[2] != 0 {
            step matches Step::Done(Err(fault)) && fault is Socks5InvalidResponse
        } else if reply@[1] != 0 {
            &&& step matches Step::Done(Err(Fault::Socks5Rejected(status)))
            &&& status == reply@[1]
        } else {
            reads_address(reply@[3], step, after.phase())
        },
{
}

/// The address in an answer is read by its type.
pub proof fn lemma_address_is_read_by_type(addr_type: u8, next: (Phase, Step))
    requires
        call_ensures(socks5::consume_socks5_addr, (addr_type,), next),
    ensures
        reads_address(addr_type, next.1, next.0),
{
}

/// Behind the length of a host name come as many bytes as it says, and two of port. Once they are
/// read the handshake is over, and the connection stands. Nothing more is sent.
pub proof fn lemma_address_is_read_to_its_end<'a>(
    before: Socks5<'a>,
    reply: &[u8],
    after: Socks5<'a>,
    step: Step,
)
    requires
        exists|handshake: &mut Socks5<'a>|
            {
                &&& *handshake == before
                &&& *final(handshake) == after
                &&& #[trigger] call_ensures(Socks5::resume, (handshake, reply), step)
            },
    ensures
        after.params() == before.params(),
        before.phase() == Phase::AddressLength && reply@.len() == 1 ==> {
            let len = reply@[0] + 2;
            only_reads(step, after.phase(), Phase::Address(len as usize), len as nat)
        },
        before.phase() is Address ==> step == Step::Done(Ok(())),
{
}

/// What is appended of a target tells the other side that target and no other, and leaves what
/// was there before as it is. A host name of more than 255 bytes is refused, and nothing is
/// appended; nothing else is refused.
pub proof fn lemma_target_is_appended(
    before: Vec<u8>,
    target: TargetAddr,
    after: Vec<u8>,
    encoded: Result<(), Fault>,
)
    requires
        exists|out: &mut Vec<u8>|
            {
                &&& *out == before
                &&& *final(out) == after
                &&& #[trigger] call_ensures(socks5::encode_socks5_addr, (out, &target), encoded)
            },
    ensures
        match encoded {
            Ok(()) => {
                let added = after@.skip(before@.len() as int);
                &&& before@ == after@.take(before@.len() as int)
                &&& decoded_addr(added) == Some((target@, added.len()))
            },
            Err(fault) => {
                &&& fault is Socks5DomainTooLong
                &&& after@ == before@
                &&& target matches TargetAddr::Domain(name, _) && vstd::utf8::encode_utf8(
                    name@,
                ).len() > 255
            },
        },
{
    if encoded is Ok {
        lemma_encoding_decodes(target@, seq![]);
        let bytes = socks5::encoded_addr(target@)->Ok_0;
        assert(after@.skip(before@.len() as int) =~= bytes + seq![]);
        assert(after@.take(before@.len() as int) =~= before@);
    }
}

} // verus!
