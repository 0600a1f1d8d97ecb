use vstd::prelude::*;

verus! {

/// How many consecutive idle ticks the monitor tolerates before it
/// tears the session down.
pub const IDLE_TICK_LIMIT: u64 = 5;

/// What a monitor tick asks of its caller.
#[derive(Debug, Clone, Copy, PartialEq, Eq, Structural)]
pub enum IdleTick {
    /// Keep the session; nothing to do.
    Continue,
    /// Tear the session down: stop its handles, leave the channel,
    /// drop its registry entry, cancel this monitor.
    Teardown,
}

/// A tick counts as idle when the bot's channel has no listener
/// besides bots, or nothing is queued.
pub open spec fn idle_now(queue_empty: bool, occupants: u64) -> bool {
    occupants == 0 || queue_empty
}

/// The elapsed count and effect one tick produces.
#[verifier::ext_equal]
pub struct TickStep {
    pub elapsed: int,
    pub effect: IdleTick,
}

/// One monitor tick: an idle tick raises the consecutive count and,
/// at the limit, asks for teardown; any non-idle tick resets the
/// count to zero.
pub open spec fn spec_tick(elapsed: int, queue_empty: bool, occupants: u64) -> TickStep {
    if idle_now(queue_empty, occupants) {
        if elapsed + 1 >= IDLE_TICK_LIMIT {
            TickStep { elapsed: 0, effect: IdleTick::Teardown }
        } else {
            TickStep { elapsed: elapsed + 1, effect: IdleTick::Continue }
        }
    } else {
        TickStep { elapsed: 0, effect: IdleTick::Continue }
    }
}

/// The periodic per-guild monitor that samples voice-channel
/// occupancy and queue emptiness, and asks for teardown after
/// `IDLE_TICK_LIMIT` consecutive idle ticks.
pub struct ChannelIdleChecker {
    elapsed: u64,
}

impl View for ChannelIdleChecker {
    type V = int;

    closed spec fn view(&self) -> int {
        self.elapsed as int
    }
}

impl ChannelIdleChecker {
    /// The counter never reaches the limit between ticks.
    pub open spec fn wf(&self) -> bool {
        0 <= self@ < IDLE_TICK_LIMIT
    }

    /// A fresh monitor, with no idle ticks seen.
    pub fn new() -> (r: ChannelIdleChecker)
        ensures
            r@ == 0,
            r.wf(),
    {
        ChannelIdleChecker { elapsed: 0 }
    }

    /// Feed the monitor one sample: whether the guild's queue is
    /// empty, and how many non-bot occupants share the channel.
    pub fn tick(&mut self, queue_empty: bool, occupants: u64) -> (r: IdleTick)
        requires
            old(self).wf(),
        ensures
            final(self)@ == spec_tick(old(self)@, queue_empty, occupants).elapsed,
            r == spec_tick(old(self)@, queue_empty, occupants).effect,
            final(self).wf(),
    {
        if occupants == 0 || queue_empty {
            if self.elapsed + 1 >= IDLE_TICK_LIMIT {
                self.elapsed = 0;
                IdleTick::Teardown
            } else {
                self.elapsed = self.elapsed + 1;
                IdleTick::Continue
            }
        } else {
            self.elapsed = 0;
            IdleTick::Continue
        }
    }
}

/// **Law (idle teardown).** From a fresh monitor, five consecutive
/// idle samples — an empty queue, zero occupants, or both, in any
/// mixture — produce four `Continue` effects and then exactly one
/// `Teardown` on the fifth. Together with `QueueMap::teardown_guild`,
/// whose contract removes the registry entry and reports handles to
/// stop only when the entry still exists, the session is torn down
/// and the channel left exactly once.
pub proof fn lemma_idle_teardown_at_limit(qe: Seq<bool>, occ: Seq<u64>)
    requires
        qe.len() == 5,
        occ.len() == 5,
        forall|i: int| 0 <= i < 5 ==> idle_now(qe[i], occ[i]),
    ensures
        ({
            let s1 = spec_tick(0, qe[0], occ[0]);
            let s2 = spec_tick(s1.elapsed, qe[1], occ[1]);
            let s3 = spec_tick(s2.elapsed, qe[2], occ[2]);
            let s4 = spec_tick(s3.elapsed, qe[3], occ[3]);
            let s5 = spec_tick(s4.elapsed, qe[4], occ[4]);
            &&& s1.effect is Continue
            &&& s2.effect is Continue
            &&& s3.effect is Continue
            &&& s4.effect is Continue
            &&& s5.effect is Teardown
        }),
{
    assert(idle_now(qe[0], occ[0]));
    assert(idle_now(qe[1], occ[1]));
    assert(idle_now(qe[2], occ[2]));
    assert(idle_now(qe[3], occ[3]));
    assert(idle_now(qe[4], occ[4]));
}

} // verus!
