use vstd::prelude::*;

verus! {

/// The countdown of the waiting phase. Each tick yields the label to
/// announce (seconds still to wait) and consumes one second; the caller
/// sleeps one second per tick, so drift stays within one sleep quantum
/// per iteration.
#[derive(Clone, Copy, PartialEq, Eq, Structural, Debug)]
pub struct Countdown {
    pub remaining: u64,
}

impl Countdown {
    /// A countdown over a whole span of seconds.
    pub fn new(total_seconds: u64) -> (r: Countdown)
        ensures
            r.remaining == total_seconds,
    {
        Countdown { remaining: total_seconds }
    }

    /// Whether the wait is over.
    pub fn is_finished(&self) -> (r: bool)
        ensures
            r == (self.remaining == 0),
    {
        self.remaining == 0
    }

    /// Consume one second of the wait; the result is the number of
    /// seconds that were still to go, counting down to one.
    pub fn tick(&mut self) -> (label: u64)
        requires
            old(self).remaining > 0,
        ensures
            final(self).remaining == old(self).remaining - 1,
            label == old(self).remaining,
    {
        let label = self.remaining;
        self.remaining = self.remaining - 1;
        label
    }
}

/// What the playback loop does next.
#[derive(Clone, Copy, PartialEq, Eq, Structural, Debug)]
pub enum PlayerAction {
    /// Queue the audio once more from the start.
    StartPass,
    /// Sleep one polling interval, then look again.
    Poll,
    /// Leave the loop.
    Stop,
}

/// The playback loop's decision, from the last observed value of the
/// cancellation flag and whether the current pass still has audio
/// queued: stop as soon as cancellation is observed, otherwise poll a
/// running pass or start a new one.
pub open spec fn spec_player_step(cancelled: bool, pass_active: bool) -> PlayerAction {
    if cancelled {
        PlayerAction::Stop
    } else if pass_active {
        PlayerAction::Poll
    } else {
        PlayerAction::StartPass
    }
}

/// One decision of the playback loop.
pub fn player_step(cancelled: bool, pass_active: bool) -> (a: PlayerAction)
    ensures
        a == spec_player_step(cancelled, pass_active),
{
    if cancelled {
        PlayerAction::Stop
    } else if pass_active {
        PlayerAction::Poll
    } else {
        PlayerAction::StartPass
    }
}

/// Once cancellation has been observed, the loop stops at its very next
/// decision: no new playback pass ever begins, whatever state the
/// current pass is in.
pub proof fn lemma_cancel_stops_promptly(pass_active: bool)
    ensures
        spec_player_step(true, pass_active) == PlayerAction::Stop,
        spec_player_step(true, pass_active) != PlayerAction::StartPass,
{
}

} // verus!
