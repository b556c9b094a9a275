//! The frame driver: on each tick of the event loop it applies the pending
//! control messages in the order they were enqueued, advances the visual
//! state once more without a message, and then asks for one frame.
use crate::visuals::{updated_intensity, VisualEngine, INTENSITY_ONE, INTENSITY_STEP};
use std::collections::VecDeque;
use vstd::arithmetic::div_mod::{lemma_add_mod_noop, lemma_small_mod};
use vstd::prelude::*;

verus! {

/// The intensity reached from `intensity` by the updates in `updates`, first
/// to last.
pub open spec fn updates_applied(intensity: nat, updates: Seq<Option<rosc::OscPacket>>) -> nat
    decreases updates.len(),
{
    if updates.len() == 0 {
        intensity
    } else {
        updated_intensity(updates_applied(intensity, updates.drop_last()), updates.last() is Some)
    }
}

/// One update per message, in the order given.
pub open spec fn message_updates(pending: Seq<rosc::OscPacket>) -> Seq<Option<rosc::OscPacket>> {
    pending.map_values(|p: rosc::OscPacket| Some(p))
}

/// The updates of one tick: each pending message in the order it was
/// enqueued, then one update without a message.
pub open spec fn tick_updates(pending: Seq<rosc::OscPacket>) -> Seq<Option<rosc::OscPacket>> {
    message_updates(pending).push(None)
}

/// Applying the first `k` of a run of messages moves the intensity on by `k`
/// steps, modulo one.
pub proof fn lemma_messages_advance(intensity: nat, pending: Seq<rosc::OscPacket>)
    requires
        intensity < INTENSITY_ONE,
    ensures
        updates_applied(intensity, message_updates(pending)) == (intensity + pending.len()
            * INTENSITY_STEP) % (INTENSITY_ONE as int),
    decreases pending.len(),
{
    let m = INTENSITY_ONE as int;
    let n = pending.len() as int;
    if n == 0 {
        lemma_small_mod(intensity, INTENSITY_ONE as nat);
    } else {
        let front = pending.drop_last();
        assert(message_updates(pending).drop_last() =~= message_updates(front));
        lemma_messages_advance(intensity, front);
        let before = intensity + (n - 1) * INTENSITY_STEP;
        lemma_add_mod_noop(before, INTENSITY_STEP as int, m);
        lemma_small_mod(INTENSITY_STEP as nat, INTENSITY_ONE as nat);
        assert(before + INTENSITY_STEP == intensity + n * INTENSITY_STEP) by (nonlinear_arith)
            requires
                before == intensity + (n - 1) * INTENSITY_STEP,
        ;
    }
}

/// A tick applies every message enqueued before it, each once and in the
/// order it was enqueued, before its update without a message: after the
/// first `k` messages the intensity has moved on by exactly `k` steps, and the
/// tick ends at the start moved on by one step per message, modulo one.
pub proof fn lemma_tick_applies_all_in_order(intensity: nat, pending: Seq<rosc::OscPacket>)
    requires
        intensity < INTENSITY_ONE,
    ensures
        updates_applied(intensity, tick_updates(pending)) == updated_intensity(
            updates_applied(intensity, message_updates(pending)),
            false,
        ),
        forall|k: int|
            0 <= k <= pending.len() ==> #[trigger] updates_applied(
                intensity,
                message_updates(pending.subrange(0, k)),
            ) == (intensity + k * INTENSITY_STEP) % (INTENSITY_ONE as int),
        updates_applied(intensity, tick_updates(pending)) == (intensity + pending.len()
            * INTENSITY_STEP) % (INTENSITY_ONE as int),
{
    assert(tick_updates(pending).drop_last() =~= message_updates(pending));
    lemma_messages_advance(intensity, pending);
    assert forall|k: int| 0 <= k <= pending.len() implies #[trigger] updates_applied(
        intensity,
        message_updates(pending.subrange(0, k)),
    ) == (intensity + k * INTENSITY_STEP) % (INTENSITY_ONE as int) by {
        lemma_messages_advance(intensity, pending.subrange(0, k));
    }
}

/// What the event loop is to do after the driver has handled an event.
#[derive(Debug, Clone, Copy, PartialEq, Eq, Structural)]
pub enum DriverAction {
    /// Submit one frame, then ask for the next tick.
    SubmitFrame,
    /// Tear the GPU context down and leave the loop.
    Exit,
}

/// The frame driver's state.
pub struct FrameDriver {
    pub engine: VisualEngine,
    /// Set once the window has asked to close; no frame follows.
    pub closed: bool,
}

impl FrameDriver {
    pub open spec fn wf(&self) -> bool {
        self.engine.wf()
    }

    /// A driver over `engine` that has not been closed.
    pub fn new(engine: VisualEngine) -> (r: Self)
        requires
            engine.wf(),
        ensures
            r.wf(),
            r.engine == engine,
            !r.closed,
    {
        FrameDriver { engine, closed: false }
    }

    /// One tick of the event loop, with the messages drained from the channel
    /// before it, oldest first.
    pub fn on_work_ready(&mut self, pending: VecDeque<rosc::OscPacket>) -> (r: DriverAction)
        requires
            old(self).wf(),
        ensures
            final(self).wf(),
            final(self).closed == old(self).closed,
            old(self).closed ==> r == DriverAction::Exit && final(self).engine == old(self).engine,
            !old(self).closed ==> r == DriverAction::SubmitFrame && final(self).engine.intensity
                == updates_applied(old(self).engine.intensity as nat, tick_updates(pending@)),
    {
        if self.closed {
            return DriverAction::Exit;
        }
        let ghost start = self.engine.intensity as nat;
        let ghost msgs = pending@;
        let mut queue = pending;
        while queue.len() > 0
            invariant
                self.engine.wf(),
                self.closed == old(self).closed,
                queue@.len() <= msgs.len(),
                queue@ == msgs.subrange(msgs.len() - queue@.len(), msgs.len() as int),
                self.engine.intensity == updates_applied(
                    start,
                    message_updates(msgs.subrange(0, msgs.len() - queue@.len())),
                ),
            decreases queue@.len(),
        {
            let ghost done = msgs.len() - queue@.len();
            let packet = queue.pop_front();
            proof {
                let before = message_updates(msgs.subrange(0, done));
                assert(message_updates(msgs.subrange(0, done + 1)) =~= before.push(packet));
                assert(before.push(packet).drop_last() =~= before);
            }
            self.engine.update(packet);
        }
        assert(msgs.subrange(0, msgs.len() as int) =~= msgs);
        assert(tick_updates(msgs).drop_last() =~= message_updates(msgs));
        self.engine.update(None);
        DriverAction::SubmitFrame
    }

    /// The window asked to close: the loop ends, and the GPU context is torn
    /// down before it does.
    pub fn on_close_requested(&mut self) -> (r: DriverAction)
        ensures
            final(self).closed,
            final(self).engine == old(self).engine,
            r == DriverAction::Exit,
    {
        self.closed = true;
        DriverAction::Exit
    }
}

} // verus!
