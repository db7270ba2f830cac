//! What holds of every connection to a proxy from a socket that is bound to a local IP.

use vstd::prelude::*;

use crate::addr::{IpAddr, SocketAddr, Target, TargetView};
use crate::bound_proxy;
use crate::bound_proxy::{BoundEvent, BoundProxy, BoundStage, BoundStep};
use crate::error::IoError;
use crate::handshake::{Conversation, StepView};
use crate::proxy::{Handshake, Proxy};
use crate::tcp_laws;
use crate::time::ExactDuration;

verus! {

/// Whether `states` are those of a connection whose socket is being connected, which then goes
/// on with one after another of `events`, and asks for `steps`.
pub open spec fn is_run(
    states: Seq<BoundProxy>,
    events: Seq<BoundEvent>,
    steps: Seq<BoundStep>,
) -> bool {
    &&& states.len() == events.len() + 1
    &&& steps.len() == events.len()
    &&& states[0].stage() is Connecting
    &&& forall|i: int|
        0 <= i < events.len() ==> (#[trigger] states[i]).takes(events[i]) && states[i].resumes(
            events[i],
            states[i + 1],
            steps[i],
        )
}

/// Nothing is sent to the proxy before the socket has both its timeouts.
pub proof fn lemma_timeouts_before_handshake(
    states: Seq<BoundProxy>,
    events: Seq<BoundEvent>,
    steps: Seq<BoundStep>,
    at: int,
)
    requires
        is_run(states, events, steps),
        0 <= at < steps.len(),
        steps[at] is Exchange,
    ensures
        at >= 2,
        steps[0] == BoundStep::SetReadTimeout(states[0].timeout()),
        steps[1] == BoundStep::SetWriteTimeout(states[0].timeout()),
        events[0] is Ready && events[1] is Ready && events[2] is Ready,
{
    assert(states[0].takes(events[0]));
    if events[0] is Failed {
        lemma_over_stays_over(states, events, steps, 1, at);
    } else if at > 0 {
        assert(states[1].takes(events[1]));
        if events[1] is Failed {
            lemma_over_stays_over(states, events, steps, 2, at);
        } else if at > 1 {
            assert(states[2].takes(events[2]));
            if events[2] is Failed {
                lemma_over_stays_over(states, events, steps, 3, at);
            }
        }
    }
}

proof fn lemma_over_stays_over(
    states: Seq<BoundProxy>,
    events: Seq<BoundEvent>,
    steps: Seq<BoundStep>,
    from: int,
    at: int,
)
    requires
        is_run(states, events, steps),
        0 <= from < states.len(),
        states[from].stage() is Over,
        at < steps.len(),
    ensures
        from <= at ==> steps[at] is Done,
    decreases at - from + 1,
{
    if from <= at {
        assert(states[from].takes(events[from]));
        lemma_over_stays_over(states, events, steps, from + 1, at);
    }
}

/// The bytes that a step sends to the proxy.
pub open spec fn bytes_sent(step: BoundStep) -> Seq<u8> {
    match step {
        BoundStep::Exchange { send, expect: _ } => send@,
        _ => seq![],
    }
}

/// The bytes that an event brings from the proxy.
pub open spec fn bytes_read(event: BoundEvent) -> Seq<u8> {
    match event {
        BoundEvent::Received(bytes) => bytes@,
        _ => seq![],
    }
}

/// The bytes that steps send to the proxy, in a row.
pub open spec fn all_sent(steps: Seq<BoundStep>) -> Seq<u8> {
    steps.map_values(|step: BoundStep| bytes_sent(step)).flatten()
}

/// The bytes that events bring from the proxy, in a row.
pub open spec fn all_read(events: Seq<BoundEvent>) -> Seq<u8> {
    events.map_values(|event: BoundEvent| bytes_read(event)).flatten()
}

/// If nothing fails on the way, all that passes over the socket, once it has its timeouts and
/// until the end, is just the handshake with the proxy about the target: the bytes that are sent,
/// the bytes that are read, and the outcome. What the proxy sends after it is left unread.
pub proof fn lemma_run_is_conversation(
    states: Seq<BoundProxy>,
    events: Seq<BoundEvent>,
    steps: Seq<BoundStep>,
    view: TargetView,
    extra: Seq<u8>,
)
    requires
        is_run(states, events, steps),
        forall|i: int| 0 <= i < events.len() ==> !((#[trigger] events[i]) is Failed),
        steps.len() > 0,
        steps.last() is Done,
        states[0].target().resolved() == Some(view),
    ensures
        ({
            let stream = all_read(events);
            let whole = states[0].proxy().conversation(view, stream + extra);
            &&& whole.sent == all_sent(steps)
            &&& whole.received == stream.len()
            &&& whole.outcome matches Some(outcome)
            &&& steps.last() == bound_proxy::end_of(outcome)
        }),
{
    assert(states[0].takes(events[0]));
    assert(states[1].takes(events[1]));
    assert(states[2].takes(events[2]));
    let (handshake, inner) = choose|handshake: Handshake, inner: StepView|
        {
            &&& handshake.begins(states[2].proxy(), view, inner)
            &&& bound_proxy::is_handshake_step(steps[2], inner)
            &&& inner is Exchange ==> states[3].stage() == BoundStage::Talking(handshake)
        };
    lemma_tail(events, steps, 0);
    lemma_tail(events, steps, 1);
    lemma_tail(events, steps, 2);
    assert(events.skip(0) =~= events && steps.skip(0) =~= steps);
    lemma_begins(handshake, states[0].proxy(), view, inner, all_read(events) + extra);
    if inner is Exchange {
        assert(all_read(events) =~= all_read(events.skip(3)));
        lemma_talk(states, events, steps, handshake, 3, extra);
    } else if events.len() > 3 {
        assert(states[3].takes(events[3]));
    } else {
        assert(all_read(events.skip(3)) =~= seq![]);
        assert(all_sent(steps.skip(3)) =~= seq![]);
    }
}

/// What a handshake begins with, and what passes from there on.
proof fn lemma_begins(
    handshake: Handshake,
    proxy: Proxy,
    view: TargetView,
    step: StepView,
    stream: Seq<u8>,
)
    requires
        handshake.begins(proxy, view, step),
    ensures
        proxy.conversation(view, stream) == (match step {
            StepView::Done(outcome) => Conversation {
                sent: seq![],
                received: 0,
                outcome: Some(outcome),
            },
            StepView::Exchange { send, expect: _ } => Conversation {
                sent: send + handshake.conversation_from(stream).sent,
                ..handshake.conversation_from(stream)
            },
        }),
{
}

/// What passes when a handshake goes on with a reply, and from there on.
proof fn lemma_continues(
    handshake: Handshake,
    reply: Seq<u8>,
    next: Handshake,
    step: StepView,
    more: Seq<u8>,
)
    requires
        reply.len() == handshake.expects(),
        handshake.continues(reply, next, step),
    ensures
        handshake.conversation_from(reply + more) == (match step {
            StepView::Done(outcome) => Conversation {
                sent: seq![],
                received: reply.len(),
                outcome: Some(outcome),
            },
            StepView::Exchange { send, expect: _ } => Conversation {
                sent: send + next.conversation_from(more).sent,
                received: reply.len() + next.conversation_from(more).received,
                outcome: next.conversation_from(more).outcome,
            },
        }),
{
    assert((reply + more).take(reply.len() as int) =~= reply);
    assert((reply + more).skip(reply.len() as int) =~= more);
}

/// The bytes of all the events and steps from one on are those of this one and of the rest.
proof fn lemma_tail(events: Seq<BoundEvent>, steps: Seq<BoundStep>, at: int)
    requires
        0 <= at < events.len() == steps.len(),
    ensures
        all_read(events.skip(at)) == bytes_read(events[at]) + all_read(events.skip(at + 1)),
        all_sent(steps.skip(at)) == bytes_sent(steps[at]) + all_sent(steps.skip(at + 1)),
{
    let read = |event: BoundEvent| bytes_read(event);
    let sent = |step: BoundStep| bytes_sent(step);
    assert(events.skip(at).map_values(read).drop_first() =~= events.skip(at + 1).map_values(read));
    assert(steps.skip(at).map_values(sent).drop_first() =~= steps.skip(at + 1).map_values(sent));
}

/// What passes from a state on in which the handshake is under way.
proof fn lemma_talk(
    states: Seq<BoundProxy>,
    events: Seq<BoundEvent>,
    steps: Seq<BoundStep>,
    handshake: Handshake,
    at: int,
    extra: Seq<u8>,
)
    requires
        is_run(states, events, steps),
        forall|i: int| 0 <= i < events.len() ==> !((#[trigger] events[i]) is Failed),
        0 < at < states.len(),
        steps.last() is Done,
        states[at].stage() == BoundStage::Talking(handshake),
        states[at].talks(steps[at - 1]),
    ensures
        ({
            let stream = all_read(events.skip(at));
            let rest = handshake.conversation_from(stream + extra);
            &&& rest.sent == all_sent(steps.skip(at))
            &&& rest.received == stream.len()
            &&& rest.outcome matches Some(outcome)
            &&& steps.last() == bound_proxy::end_of(outcome)
        }),
    decreases states.len() - at,
{
    assert(at < events.len());
    assert(states[at].takes(events[at]));
    let reply = bytes_read(events[at]);
    let (next, inner) = choose|next: Handshake, inner: StepView|
        {
            &&& handshake.continues(reply, next, inner)
            &&& bound_proxy::is_handshake_step(steps[at], inner)
            &&& inner is Exchange ==> states[at + 1].stage() == BoundStage::Talking(next)
        };
    let more = all_read(events.skip(at + 1));
    lemma_tail(events, steps, at);
    lemma_continues(handshake, reply, next, inner, more + extra);
    assert(reply + more + extra =~= reply + (more + extra));
    if inner is Exchange {
        lemma_talk(states, events, steps, next, at + 1, extra);
    } else if at + 1 < events.len() {
        assert(states[at + 1].takes(events[at + 1]));
    } else {
        assert(more =~= seq![]);
        assert(all_sent(steps.skip(at + 1)) =~= seq![]);
    }
}

/// In every run, whatever fails: a failure, in whatever stage, ends it with just that error. And
/// it ends well only if nothing failed and the proxy granted the request: all that was sent and
/// read is the whole handshake about the target, and that succeeds.
pub proof fn lemma_stands_only_if_granted(
    states: Seq<BoundProxy>,
    events: Seq<BoundEvent>,
    steps: Seq<BoundStep>,
)
    requires
        is_run(states, events, steps),
    ensures
        forall|i: int|
            0 <= i < events.len() && (#[trigger] events[i]) is Failed ==> steps[i]
                == BoundStep::Done(Err::<(), IoError>(events[i]->Failed_0)),
        (steps.len() > 0 && steps.last() == BoundStep::Done(Ok::<(), IoError>(()))) ==> {
            &&& forall|i: int| 0 <= i < events.len() ==> !((#[trigger] events[i]) is Failed)
            &&& states[0].target().resolved() matches Some(view) && {
                let talk = states[0].proxy().conversation(view, all_read(events));
                &&& talk.outcome matches Some(Ok(()))
                &&& talk.sent == all_sent(steps)
                &&& talk.received == all_read(events).len()
            }
        },
{
    assert forall|i: int| 0 <= i < events.len() && (#[trigger] events[i]) is Failed implies steps[i]
        == BoundStep::Done(Err::<(), IoError>(events[i]->Failed_0)) by {
        assert(states[i].takes(events[i]));
    }
    if steps.len() > 0 && steps.last() == BoundStep::Done(Ok::<(), IoError>(())) {
        assert forall|i: int| 0 <= i < events.len() implies !((#[trigger] events[i]) is Failed) by {
            if events[i] is Failed {
                assert(states[i].takes(events[i]));
                lemma_failed_stays_failed(states, events, steps, i, steps.len() - 1);
            }
        }
        assert(states[0].takes(events[0]));
        assert(states[1].takes(events[1]));
        assert(states[2].takes(events[2]));
        lemma_same_connection(states, events, steps, 2);
        if states[0].target().resolved() is None {
            if steps.len() > 3 {
                assert(states[3].takes(events[3]));
            }
        } else {
            let view = states[0].target().resolved()->Some_0;
            let none = Seq::<u8>::empty();
            lemma_run_is_conversation(states, events, steps, view, none);
            assert(all_read(events) + none =~= all_read(events));
        }
    }
}

proof fn lemma_same_connection(
    states: Seq<BoundProxy>,
    events: Seq<BoundEvent>,
    steps: Seq<BoundStep>,
    at: int,
)
    requires
        is_run(states, events, steps),
        0 <= at < states.len(),
    ensures
        states[at].proxy() == states[0].proxy(),
        states[at].target() == states[0].target(),
        states[at].timeout() == states[0].timeout(),
    decreases at,
{
    if at > 0 {
        lemma_same_connection(states, events, steps, at - 1);
        assert(states[at - 1].takes(events[at - 1]));
    }
}

/// After a failure every step is the end, and none of them says that the connection stands.
proof fn lemma_failed_stays_failed(
    states: Seq<BoundProxy>,
    events: Seq<BoundEvent>,
    steps: Seq<BoundStep>,
    from: int,
    at: int,
)
    requires
        is_run(states, events, steps),
        0 <= from <= at < steps.len(),
        events[from] is Failed,
    ensures
        steps[at] matches BoundStep::Done(Err(_)),
    decreases at - from,
{
    assert(states[from].takes(events[from]));
    if from < at {
        assert(states[from + 1].takes(events[from + 1]));
        lemma_failed_stays_failed(states, events, steps, from + 1, at);
    }
}

/// The socket for a proxy is bound to the local IP, and is given the timeout to connect within.
/// Whatever comes of it is about the proxy, the target and the timeout that were asked for. If
/// the socket cannot be bound for that address, nothing is done at all.
pub proof fn lemma_socket_is_bound_first<'a>(
    proxy: &'a Proxy,
    proxy_addr: SocketAddr,
    target: &'a Target,
    local_ip: IpAddr,
    timeout: Option<ExactDuration>,
    begun: (BoundProxy<'a>, BoundStep),
)
    requires
        call_ensures(
            bound_proxy::connect_bound_proxy,
            (proxy, proxy_addr, target, local_ip, timeout),
            begun,
        ),
    ensures
        begun.0.proxy() == *proxy,
        begun.0.target() == *target,
        begun.0.timeout() == timeout,
        match begun.1 {
            BoundStep::Connect(plan) => {
                &&& begun.0.stage() is Connecting
                &&& tcp_laws::is_plan_for(proxy_addr, timeout, Some(local_ip), Ok(plan))
            },
            BoundStep::Done(Err(IoError::Own(fault))) => {
                &&& begun.0.stage() is Over
                &&& tcp_laws::is_plan_for(proxy_addr, timeout, Some(local_ip), Err(fault))
            },
            _ => false,
        },
{
}

/// A failure ends the connection with just that error, in whatever stage it comes.
pub proof fn lemma_failure_is_passed_on<'a>(
    before: BoundProxy<'a>,
    error: IoError,
    after: BoundProxy<'a>,
    step: BoundStep,
)
    requires
        exists|bound: &mut BoundProxy<'a>|
            {
                &&& *bound == before
                &&& *final(bound) == after
                &&& #[trigger] call_ensures(
                    BoundProxy::<'a>::resume,
                    (bound, BoundEvent::Failed(error)),
                    step,
                )
            },
    ensures
        step matches BoundStep::Done(Err(same)) && same == error,
        after.stage() is Over,
{
}

/// A socket that connected is given its timeout for reading, then the same for writing, and then
/// the handshake begins: with what that of the proxy begins with, or with the error that the
/// target cannot be read.
pub proof fn lemma_ready_socket_goes_on<'a>(
    before: BoundProxy<'a>,
    after: BoundProxy<'a>,
    step: BoundStep,
)
    requires
        before.takes(BoundEvent::Ready),
        exists|bound: &mut BoundProxy<'a>|
            {
                &&& *bound == before
                &&& *final(bound) == after
                &&& #[trigger] call_ensures(
                    BoundProxy::<'a>::resume,
                    (bound, BoundEvent::Ready),
                    step,
                )
            },
    ensures
        after.proxy() == before.proxy(),
        after.target() == before.target(),
        after.timeout() == before.timeout(),
        match before.stage() {
            BoundStage::Connecting => {
                &&& after.stage() is SettingReadTimeout
                &&& step matches BoundStep::SetReadTimeout(given) && given == before.timeout()
            },
            BoundStage::SettingReadTimeout => {
                &&& after.stage() is SettingWriteTimeout
                &&& step matches BoundStep::SetWriteTimeout(given) && given == before.timeout()
            },
            _ => match before.target().resolved() {
                None => step matches BoundStep::Done(Err(error)) && error.kind() is InvalidInput,
                Some(view) => begins_conversation(before.proxy(), view, after, step),
            },
        },
{
    if let Some(view) = before.target().resolved() {
        if before.stage() is SettingWriteTimeout {
            let (handshake, inner) = choose|handshake: Handshake, inner: StepView|
                {
                    &&& handshake.begins(before.proxy(), view, inner)
                    &&& bound_proxy::is_handshake_step(step, inner)
                    &&& inner is Exchange ==> after.stage() == BoundStage::Talking(handshake)
                };
            assert forall|stream: Seq<u8>| #[trigger]
                passes_with(after, step, stream) == Some(
                before.proxy().conversation(view, stream),
            ) by {
                lemma_begins(handshake, before.proxy(), view, inner, stream);
            }
        }
    }
}

/// What passes once `step` is taken, if the proxy then sends `stream`.
pub open spec fn passes_with(
    after: BoundProxy,
    step: BoundStep,
    stream: Seq<u8>,
) -> Option<Conversation> {
    match (step, after.stage()) {
        (BoundStep::Exchange { send, expect: _ }, BoundStage::Talking(handshake)) => {
            let rest = handshake.conversation_from(stream);
            Some(
                Conversation {
                    sent: send@ + rest.sent,
                    received: rest.received,
                    outcome: rest.outcome,
                },
            )
        },
        (BoundStep::Done(Ok(())), _) => Some(
            Conversation { sent: seq![], received: 0, outcome: Some(Ok(())) },
        ),
        (BoundStep::Done(Err(IoError::Own(fault))), _) => Some(
            Conversation { sent: seq![], received: 0, outcome: Some(Err(fault)) },
        ),
        _ => None,
    }
}

/// Whether a step, with what it leads to, is the beginning of the handshake with `proxy` about a
/// target: whatever the proxy sends then, all that passes is the same.
pub open spec fn begins_conversation(
    proxy: Proxy,
    view: TargetView,
    after: BoundProxy,
    step: BoundStep,
) -> bool {
    forall|stream: Seq<u8>| #[trigger]
        passes_with(after, step, stream) == Some(proxy.conversation(view, stream))
}

/// With what the proxy sends the handshake goes on where it was: whatever the proxy sends next,
/// all that passes in the end is the same.
pub proof fn lemma_reply_carries_the_handshake_on<'a>(
    before: BoundProxy<'a>,
    bytes: Vec<u8>,
    after: BoundProxy<'a>,
    step: BoundStep,
    stream: Seq<u8>,
)
    requires
        before.takes(BoundEvent::Received(bytes)),
        exists|bound: &mut BoundProxy<'a>|
            {
                &&& *bound == before
                &&& *final(bound) == after
                &&& #[trigger] call_ensures(
                    BoundProxy::<'a>::resume,
                    (bound, BoundEvent::Received(bytes)),
                    step,
                )
            },
    ensures
        after.proxy() == before.proxy(),
        after.target() == before.target(),
        passes_with(after, step, stream) matches Some(rest) && before.stage()
            ->Talking_0.conversation_from(bytes@ + stream) == (Conversation {
            sent: rest.sent,
            received: bytes@.len() + rest.received,
            outcome: rest.outcome,
        }),
{
    let handshake = before.stage()->Talking_0;
    let (next, inner) = choose|next: Handshake, inner: StepView|
        {
            &&& handshake.continues(bytes@, next, inner)
            &&& bound_proxy::is_handshake_step(step, inner)
            &&& inner is Exchange ==> after.stage() == BoundStage::Talking(next)
        };
    lemma_continues(handshake, bytes@, next, inner, stream);
}

} // verus!
