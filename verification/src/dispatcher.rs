//! The dispatcher: fans numbered work items out over the lanes
//! round-robin, probes the idle lanes with heartbeats, collects the
//! replies in lane order, and appends each completed item to the sink.
//! This is the lock-step variant: every lane is messaged on every step,
//! and the sink order equals step order.

use vstd::prelude::*;
use vstd::string::StringExecFns;
use crate::decimal::{decimal_seq, decimal_string, lemma_decimal_seq_len};
use crate::envelope::{EnvelopeView, MessageKind};
use crate::lane::{lane_stamp, lane_stamped, lane_step, spec_lane_step, LaneAction};
use crate::message::{is_complete, message_name, msg_views, HistoryKind, Message, MessageView};

verus! {

/// The label the harness gives lane `i`: lanes are named `ch1`, `ch2`,
/// ... from index 0.
pub open spec fn lane_label(i: nat) -> Seq<char> {
    "ch"@ + decimal_seq(i + 1)
}

/// The label of lane `i`, as a string.
pub fn lane_label_string(i: usize) -> (r: String)
    requires
        i < usize::MAX,
    ensures
        r@ == lane_label(i as nat),
{
    let mut r = "ch".to_owned();
    let digits = decimal_string(i + 1);
    r.append(digits.as_str());
    r
}

/// Which lane receives the live request of `step`: round-robin over the
/// pool.
pub fn lane_for_step(step: usize, lane_count: usize) -> (i: usize)
    requires
        0 < lane_count,
    ensures
        i == step as int % lane_count as int,
        i < lane_count,
{
    step % lane_count
}

/// The fresh, unstamped message of `step`.
pub open spec fn fresh_message(step: nat) -> MessageView {
    MessageView {
        name: message_name(step),
        identifier: step,
        history: Map::<HistoryKind, Seq<char>>::empty(),
    }
}

/// The envelope lane `i` is sent on `step`: the live request if the
/// round-robin picks it, a heartbeat probe otherwise.
pub open spec fn step_fanout(step: nat, lane_count: nat, i: int) -> EnvelopeView {
    if i == step % lane_count {
        EnvelopeView::Request(fresh_message(step))
    } else {
        EnvelopeView::HeartBeat(step)
    }
}

/// The fan-out of one step: the envelope for each lane, in lane order.
pub fn step_envelopes(step: usize, lane_count: usize) -> (envs: Vec<MessageKind>)
    requires
        0 < lane_count,
    ensures
        envs@.len() == lane_count,
        forall|i: int|
            0 <= i < lane_count ==> envs@[i]@ == step_fanout(step as nat, lane_count as nat, i),
{
    let target = step % lane_count;
    let mut envs: Vec<MessageKind> = Vec::new();
    for i in 0..lane_count
        invariant
            target == step as int % lane_count as int,
            envs@.len() == i,
            forall|j: int|
                0 <= j < i ==> envs@[j]@ == step_fanout(step as nat, lane_count as nat, j),
    {
        if i == target {
            envs.push(MessageKind::Request(Message::new(step)));
        } else {
            envs.push(MessageKind::HeartBeat(step));
        }
    }
    envs
}

/// The message as the dispatcher stamps it on collection, before it
/// reaches the sink.
pub open spec fn dispatcher_stamped(m: MessageView) -> MessageView {
    MessageView {
        name: m.name,
        identifier: m.identifier,
        history: m.history.insert(HistoryKind::Response, "OK"@),
    }
}

/// What the sink holds after the dispatcher handles one inbound
/// envelope: a response is stamped and appended; a heartbeat echo, a
/// terminate, or a stray request leaves the sink untouched — probe
/// payloads never reach the sink.
pub open spec fn collected(received: EnvelopeView, sink: Seq<MessageView>) -> Seq<MessageView> {
    match received {
        EnvelopeView::Response(m) => sink.push(dispatcher_stamped(m)),
        _ => sink,
    }
}

/// One collection step: append a stamped response to the sink, discard
/// everything else.
pub fn collect_envelope(received: MessageKind, sink: &mut Vec<Message>)
    ensures
        msg_views(final(sink)@) == collected(received@, msg_views(old(sink)@)),
{
    match received {
        MessageKind::Response(mut msg) => {
            let ghost m = msg@;
            msg.history.insert(HistoryKind::Response, "OK".to_owned());
            sink.push(msg);
            proof {
                assert(msg_views(sink@) =~= msg_views(old(sink)@).push(dispatcher_stamped(m)));
            }
        },
        _ => {},
    }
}

/// The record that step `step` contributes to the sink: the step's fresh
/// message, stamped first by its lane and then by the dispatcher.
pub open spec fn run_record(step: nat, lane_count: nat) -> MessageView {
    dispatcher_stamped(lane_stamped(lane_label(step % lane_count), fresh_message(step)))
}

/// The whole sink of a run over steps `0 ..= last_step`.
pub open spec fn spec_sink(lane_count: nat, last_step: nat) -> Seq<MessageView> {
    Seq::new(last_step + 1, |s: int| run_record(s as nat, lane_count))
}

/// One dispatch step of the lock-step protocol: send each lane its
/// envelope, take each lane's reply in lane order, and collect. Exactly
/// the target lane's response reaches the sink; every heartbeat echo is
/// discarded.
pub fn run_step(step: usize, lane_count: usize, sink: &mut Vec<Message>)
    requires
        0 < lane_count,
    ensures
        msg_views(final(sink)@) == msg_views(old(sink)@).push(
            run_record(step as nat, lane_count as nat),
        ),
{
    let ghost sink0 = msg_views(old(sink)@);
    let target = step % lane_count;
    for i in 0..lane_count
        invariant
            0 < lane_count,
            target == step as int % lane_count as int,
            target < lane_count,
            msg_views(sink@) == (if i <= target {
                sink0
            } else {
                sink0.push(run_record(step as nat, lane_count as nat))
            }),
    {
        let label = lane_label_string(i);
        let env = if i == target {
            MessageKind::Request(Message::new(step))
        } else {
            MessageKind::HeartBeat(step)
        };
        proof {
            assert(env@ == step_fanout(step as nat, lane_count as nat, i as int));
        }
        let action = lane_step(label.as_str(), env);
        match action {
            LaneAction::Reply(reply) => {
                collect_envelope(reply, sink);
            },
            LaneAction::Ignore => {},
            LaneAction::Exit => {},
        }
    }
}

/// A whole run of the lock-step harness over steps `0 ..= last_step`:
/// the returned sink holds exactly one record per step, in step order.
pub fn run_dispatch(lane_count: usize, last_step: usize) -> (sink: Vec<Message>)
    requires
        0 < lane_count,
        last_step < usize::MAX,
    ensures
        msg_views(sink@) == spec_sink(lane_count as nat, last_step as nat),
        sink@.len() == last_step + 1,
{
    let mut sink: Vec<Message> = Vec::new();
    let mut step: usize = 0;
    proof {
        assert(msg_views(sink@) =~= spec_sink(lane_count as nat, last_step as nat).take(0));
    }
    while step <= last_step
        invariant
            0 < lane_count,
            last_step < usize::MAX,
            step <= last_step + 1,
            sink@.len() == step,
            msg_views(sink@) == spec_sink(lane_count as nat, last_step as nat).take(step as int),
        decreases last_step + 1 - step,
    {
        run_step(step, lane_count, &mut sink);
        proof {
            assert(msg_views(sink@) =~= spec_sink(lane_count as nat, last_step as nat).take(
                step as int + 1,
            ));
        }
        step = step + 1;
    }
    proof {
        assert(spec_sink(lane_count as nat, last_step as nat).take(step as int) =~= spec_sink(
            lane_count as nat,
            last_step as nat,
        ));
    }
    sink
}

/// Law: over a full run the sink record at position `i` carries
/// identifier `i` — the sink is in ascending step order.
pub proof fn lemma_sink_identifiers(lane_count: nat, last_step: nat)
    requires
        0 < lane_count,
    ensures
        spec_sink(lane_count, last_step).len() == last_step + 1,
        forall|i: int|
            0 <= i <= last_step ==> #[trigger] spec_sink(lane_count, last_step)[i].identifier
                == i,
{
}

/// Law: over a full run the sink holds, for every step `s` of the run,
/// exactly one record whose identifier is `s` — no duplicates, no gaps.
pub proof fn lemma_one_record_per_step(lane_count: nat, last_step: nat, s: nat)
    requires
        0 < lane_count,
        s <= last_step,
    ensures
        exists|i: int|
            0 <= i < spec_sink(lane_count, last_step).len() && #[trigger] spec_sink(
                lane_count,
                last_step,
            )[i].identifier == s,
        forall|i: int, j: int|
            0 <= i < spec_sink(lane_count, last_step).len() && 0 <= j < spec_sink(
                lane_count,
                last_step,
            ).len() && #[trigger] spec_sink(lane_count, last_step)[i].identifier == #[trigger] spec_sink(
                lane_count,
                last_step,
            )[j].identifier ==> i == j,
{
    lemma_sink_identifiers(lane_count, last_step);
    assert(spec_sink(lane_count, last_step)[s as int].identifier == s);
}

/// Law: every sink record of a full run is complete — its history holds
/// both the `Request` and the `Response` stage, each with a non-empty
/// annotation.
pub proof fn lemma_records_complete(lane_count: nat, last_step: nat, i: int)
    requires
        0 < lane_count,
        0 <= i <= last_step,
    ensures
        is_complete(spec_sink(lane_count, last_step)[i]),
{
    let m = spec_sink(lane_count, last_step)[i];
    reveal_strlit("OK");
    reveal_strlit(": OK");
    reveal_strlit("ch");
    lemma_decimal_seq_len((i as nat % lane_count) + 1);
    assert(lane_stamp(lane_label(i as nat % lane_count)).len() > 0);
    assert(m.history[HistoryKind::Response] == "OK"@);
}

} // verus!
