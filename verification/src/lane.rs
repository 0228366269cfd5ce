//! A worker lane: a sequential processor that consumes inbound envelopes
//! until it is told to terminate, stamping its provenance on each work
//! item and echoing liveness probes.

use vstd::prelude::*;
use vstd::string::StringExecFns;
use crate::envelope::{env_views, EnvelopeView, MessageKind};
use crate::message::{HistoryKind, MessageView};

verus! {

/// What a lane does with one inbound envelope: send a reply, silently
/// discard it, or exit its consume loop.
pub enum LaneAction {
    Reply(MessageKind),
    Ignore,
    Exit,
}

/// The mathematical value of a lane action.
#[verifier::ext_equal]
pub ghost enum LaneActionView {
    Reply(EnvelopeView),
    Ignore,
    Exit,
}

impl View for LaneAction {
    type V = LaneActionView;

    open spec fn view(&self) -> LaneActionView {
        match self {
            LaneAction::Reply(e) => LaneActionView::Reply(e@),
            LaneAction::Ignore => LaneActionView::Ignore,
            LaneAction::Exit => LaneActionView::Exit,
        }
    }
}

/// The annotation a lane writes when it processes a request.
pub open spec fn lane_stamp(lane: Seq<char>) -> Seq<char> {
    lane + ": OK"@
}

/// The message as it leaves a lane: the request stage stamped with the
/// lane's annotation, everything else unchanged.
pub open spec fn lane_stamped(lane: Seq<char>, m: MessageView) -> MessageView {
    MessageView {
        name: m.name,
        identifier: m.identifier,
        history: m.history.insert(HistoryKind::Request, lane_stamp(lane)),
    }
}

/// The lane protocol, one envelope at a time: requests come back as
/// stamped responses, stray responses are discarded, heartbeats are
/// echoed verbatim, and `Terminate` ends the lane.
pub open spec fn spec_lane_step(lane: Seq<char>, received: EnvelopeView) -> LaneActionView {
    match received {
        EnvelopeView::Request(m) => LaneActionView::Reply(
            EnvelopeView::Response(lane_stamped(lane, m)),
        ),
        EnvelopeView::Response(_) => LaneActionView::Ignore,
        EnvelopeView::Terminate => LaneActionView::Exit,
        EnvelopeView::HeartBeat(n) => LaneActionView::Reply(EnvelopeView::HeartBeat(n)),
    }
}

/// One step of a lane named `lane`: the reaction to a single inbound
/// envelope.
pub fn lane_step(lane: &str, received: MessageKind) -> (action: LaneAction)
    ensures
        action@ == spec_lane_step(lane@, received@),
{
    match received {
        MessageKind::Request(mut msg) => {
            let mut stamp = lane.to_owned();
            stamp.append(": OK");
            msg.history.insert(HistoryKind::Request, stamp);
            LaneAction::Reply(MessageKind::Response(msg))
        },
        MessageKind::Response(_) => LaneAction::Ignore,
        MessageKind::Terminate => LaneAction::Exit,
        MessageKind::HeartBeat(step) => LaneAction::Reply(MessageKind::HeartBeat(step)),
    }
}

/// The envelopes a lane emits for an inbox, in order, stopping at the
/// first `Terminate`.
pub open spec fn lane_outputs(lane: Seq<char>, inbox: Seq<EnvelopeView>) -> Seq<EnvelopeView>
    decreases inbox.len(),
{
    if inbox.len() == 0 {
        Seq::empty()
    } else {
        match spec_lane_step(lane, inbox[0]) {
            LaneActionView::Exit => Seq::empty(),
            LaneActionView::Reply(e) => seq![e] + lane_outputs(lane, inbox.drop_first()),
            LaneActionView::Ignore => lane_outputs(lane, inbox.drop_first()),
        }
    }
}

/// How many inbound envelopes a lane consumes before its thread of
/// control ends: its whole inbox, or everything up to and including the
/// first `Terminate`.
pub open spec fn lane_consumed(inbox: Seq<EnvelopeView>) -> nat
    decreases inbox.len(),
{
    if inbox.len() == 0 {
        0
    } else if inbox[0] is Terminate {
        1
    } else {
        1 + lane_consumed(inbox.drop_first())
    }
}

/// Law: a lane never consumes more envelopes than its inbox holds.
pub proof fn lemma_consumed_le_len(inbox: Seq<EnvelopeView>)
    ensures
        lane_consumed(inbox) <= inbox.len(),
    decreases inbox.len(),
{
    if inbox.len() != 0 && !(inbox[0] is Terminate) {
        lemma_consumed_le_len(inbox.drop_first());
    }
}

/// Law: sending `Terminate` bounds a lane's consumption. If position `t`
/// of the inbox holds a `Terminate`, the lane processes at most `t + 1`
/// envelopes before exiting — there is no unbounded replay.
pub proof fn lemma_terminate_bounds_consumption(inbox: Seq<EnvelopeView>, t: int)
    requires
        0 <= t < inbox.len(),
        inbox[t] is Terminate,
    ensures
        lane_consumed(inbox) <= t + 1,
    decreases t,
{
    if !(inbox[0] is Terminate) {
        assert(inbox.drop_first()[t - 1] == inbox[t]);
        lemma_terminate_bounds_consumption(inbox.drop_first(), t - 1);
    }
}

/// Law: a lane only ever emits responses and heartbeat echoes — never a
/// `Terminate` and never a fresh request.
pub proof fn lemma_lane_outputs_kinds(lane: Seq<char>, inbox: Seq<EnvelopeView>, i: int)
    requires
        0 <= i < lane_outputs(lane, inbox).len(),
    ensures
        lane_outputs(lane, inbox)[i] is Response || lane_outputs(lane, inbox)[i] is HeartBeat,
    decreases inbox.len(),
{
    if inbox.len() != 0 {
        match spec_lane_step(lane, inbox[0]) {
            LaneActionView::Exit => {},
            LaneActionView::Reply(e) => {
                if i > 0 {
                    lemma_lane_outputs_kinds(lane, inbox.drop_first(), i - 1);
                }
            },
            LaneActionView::Ignore => {
                lemma_lane_outputs_kinds(lane, inbox.drop_first(), i);
            },
        }
    }
}

/// A whole lane run: consume the inbox in order, react to each envelope,
/// and stop at the first `Terminate`. Returns the emitted envelopes and
/// how many inbound envelopes were consumed.
pub fn make_task(identifier: &str, inbox: Vec<MessageKind>) -> (r: (Vec<MessageKind>, usize))
    ensures
        env_views(r.0@) == lane_outputs(identifier@, env_views(inbox@)),
        r.1 == lane_consumed(env_views(inbox@)),
{
    let ghost all = env_views(inbox@);
    let mut queue = inbox;
    let n = queue.len();
    let mut out: Vec<MessageKind> = Vec::new();
    let mut consumed: usize = 0;
    let mut terminated = false;
    proof {
        assert(all.len() == n);
        assert(all.skip(0) =~= all);
        assert(env_views(out@) =~= Seq::<EnvelopeView>::empty());
        assert(Seq::<EnvelopeView>::empty() + lane_outputs(identifier@, all)
            =~= lane_outputs(identifier@, all));
    }
    while queue.len() > 0 && !terminated
        invariant
            consumed <= all.len(),
            all.len() <= usize::MAX,
            !terminated ==> env_views(queue@) == all.skip(consumed as int),
            !terminated ==> env_views(out@) + lane_outputs(identifier@, all.skip(consumed as int))
                == lane_outputs(identifier@, all),
            !terminated ==> consumed + lane_consumed(all.skip(consumed as int))
                == lane_consumed(all),
            terminated ==> env_views(out@) == lane_outputs(identifier@, all),
            terminated ==> consumed == lane_consumed(all),
        decreases queue.len(),
    {
        let ghost rest = all.skip(consumed as int);
        let ghost out0 = env_views(out@);
        proof {
            assert(rest.len() == env_views(queue@).len());
        }
        let env = queue.remove(0);
        proof {
            assert(env@ == rest[0]);
            assert(env_views(queue@) =~= rest.drop_first());
            assert(rest.drop_first() =~= all.skip(consumed as int + 1));
        }
        let action = lane_step(identifier, env);
        match action {
            LaneAction::Reply(e) => {
                proof {
                    assert(lane_outputs(identifier@, rest)
                        =~= seq![e@] + lane_outputs(identifier@, all.skip(consumed as int + 1)));
                }
                out.push(e);
                proof {
                    assert(env_views(out@) =~= out0.push(e@));
                    assert(out0.push(e@) + lane_outputs(identifier@, all.skip(consumed as int + 1))
                        =~= out0 + lane_outputs(identifier@, rest));
                }
            },
            LaneAction::Ignore => {
                proof {
                    assert(lane_outputs(identifier@, rest)
                        == lane_outputs(identifier@, all.skip(consumed as int + 1)));
                }
            },
            LaneAction::Exit => {
                terminated = true;
                proof {
                    assert(env@ is Terminate);
                    assert(lane_outputs(identifier@, rest) =~= Seq::<EnvelopeView>::empty());
                    assert(env_views(out@) + Seq::<EnvelopeView>::empty() =~= env_views(out@));
                    assert(lane_consumed(rest) == 1);
                }
            },
        }
        consumed = consumed + 1;
    }
    proof {
        if !terminated {
            assert(all.skip(consumed as int).len() == 0);
            assert(all.skip(consumed as int) =~= Seq::<EnvelopeView>::empty());
            assert(env_views(out@) + Seq::<EnvelopeView>::empty() =~= env_views(out@));
        }
    }
    (out, consumed)
}

} // verus!
