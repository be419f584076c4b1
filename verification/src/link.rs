//! Joining the Wi-Fi network at start-up: up to [`WIFI_MAX_RETRIES`]
//! connection attempts with a pause after each failure (the last one
//! included); when all fail, the nearby access points are listed and the
//! terminal runs offline.

use vstd::prelude::*;

verus! {

/// Connection attempts before giving up.
pub const WIFI_MAX_RETRIES: u32 = 5;

/// What the start-up has to do next.
#[derive(Debug, Clone, Copy, PartialEq, Eq, Structural)]
pub enum JoinStep {
    /// Try to connect; `attempt` counts from 1.
    Connect { attempt: u32 },
    /// Pause after a failed attempt; attempt `next_attempt` follows, or the
    /// access point list when `next_attempt` is past the last attempt.
    Wait { next_attempt: u32 },
    /// Every attempt failed: show the nearby access points.
    ListAccessPoints,
    /// Run without the network.
    Offline,
    /// Connected.
    Connected,
}

/// The start-up's progress in joining the network.
pub struct WifiJoin {
    step: JoinStep,
}

impl WifiJoin {
    /// The step due now.
    pub closed spec fn due(&self) -> JoinStep {
        self.step
    }

    /// Attempt numbers stay between 1 and [`WIFI_MAX_RETRIES`].
    pub open spec fn valid_step(s: JoinStep) -> bool {
        match s {
            JoinStep::Connect { attempt } => 1 <= attempt <= WIFI_MAX_RETRIES,
            JoinStep::Wait { next_attempt } => 2 <= next_attempt <= WIFI_MAX_RETRIES + 1,
            _ => true,
        }
    }

    /// Before the first attempt.
    pub fn new() -> (j: Self)
        ensures
            j.due() == (JoinStep::Connect { attempt: 1 }),
    {
        WifiJoin { step: JoinStep::Connect { attempt: 1 } }
    }

    /// The step due now.
    pub fn step(&self) -> (s: JoinStep)
        ensures
            s == self.due(),
    {
        self.step
    }

    /// Reports the outcome of a connection attempt: success ends the
    /// start-up connected; a failure pauses.
    pub fn connect_result(&mut self, ok: bool)
        requires
            old(self).due() is Connect,
            WifiJoin::valid_step(old(self).due()),
        ensures
            WifiJoin::valid_step(final(self).due()),
            final(self).due() == spec_connect_result(old(self).due(), ok),
    {
        if let JoinStep::Connect { attempt } = self.step {
            if ok {
                self.step = JoinStep::Connected;
            } else {
                self.step = JoinStep::Wait { next_attempt: attempt + 1 };
            }
        }
    }

    /// The pause is over: the next attempt is due, or the access point list
    /// after the last attempt.
    pub fn waited(&mut self)
        requires
            old(self).due() is Wait,
            WifiJoin::valid_step(old(self).due()),
        ensures
            WifiJoin::valid_step(final(self).due()),
            final(self).due() == spec_waited(old(self).due()),
    {
        if let JoinStep::Wait { next_attempt } = self.step {
            if next_attempt <= WIFI_MAX_RETRIES {
                self.step = JoinStep::Connect { attempt: next_attempt };
            } else {
                self.step = JoinStep::ListAccessPoints;
            }
        }
    }

    /// The access points have been shown: run offline.
    pub fn listed(&mut self)
        requires
            old(self).due() == JoinStep::ListAccessPoints,
        ensures
            final(self).due() == JoinStep::Offline,
    {
        self.step = JoinStep::Offline;
    }
}

/// The step after the outcome `ok` of the attempt due in `s`.
pub open spec fn spec_connect_result(s: JoinStep, ok: bool) -> JoinStep {
    match s {
        JoinStep::Connect { attempt } => if ok {
            JoinStep::Connected
        } else {
            JoinStep::Wait { next_attempt: (attempt + 1) as u32 }
        },
        _ => s,
    }
}

/// The step after the pause due in `s`.
pub open spec fn spec_waited(s: JoinStep) -> JoinStep {
    match s {
        JoinStep::Wait { next_attempt } => if next_attempt <= WIFI_MAX_RETRIES {
            JoinStep::Connect { attempt: next_attempt }
        } else {
            JoinStep::ListAccessPoints
        },
        _ => s,
    }
}

/// The step after `k` failed attempts from the start, each failure
/// followed by its pause.
pub open spec fn after_failures(k: nat) -> JoinStep
    decreases k,
{
    if k == 0 {
        JoinStep::Connect { attempt: 1 }
    } else {
        spec_waited(spec_connect_result(after_failures((k - 1) as nat), false))
    }
}

/// The start-up makes at most [`WIFI_MAX_RETRIES`] attempts, numbered
/// from 1 in order: every failure, the last one included, is followed by a
/// pause; after `k` failures and their pauses attempt `k + 1` is due, and
/// after the last failure and its pause the access points are listed.
pub proof fn lemma_join_attempts(k: nat)
    requires
        k <= WIFI_MAX_RETRIES,
    ensures
        k < WIFI_MAX_RETRIES ==> after_failures(k) == (JoinStep::Connect { attempt: (k + 1) as u32 }),
        k < WIFI_MAX_RETRIES ==> spec_connect_result(after_failures(k), false) == (JoinStep::Wait {
            next_attempt: (k + 2) as u32,
        }),
        k == WIFI_MAX_RETRIES ==> after_failures(k) == JoinStep::ListAccessPoints,
    decreases k,
{
    if k > 0 {
        lemma_join_attempts((k - 1) as nat);
    }
}

} // verus!
