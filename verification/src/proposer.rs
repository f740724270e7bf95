//! The proposer's retry-loop decision core.

use vstd::prelude::*;
use crate::alpha::{Id, Round};

verus! {

/// The round-scheduling state of one proposing process.
pub struct Proposer {
    pub id: Id,
    pub round: Round,
}

impl Proposer {
    /// A proposer for the process `id`, starting at that process's first round.
    pub fn new(id: Id) -> (p: Self)
        ensures
            p.id == id,
            p.round.tick.0 == 0,
            p.round.process_id == id,
    {
        Proposer { id, round: Round::new(id) }
    }

    /// Whether a round should be attempted now: only while the failure
    /// detector names this process as the current leader.
    pub fn should_attempt(&self, leader: Id) -> (b: bool)
        ensures
            b == (leader == self.id),
    {
        leader.0 == self.id.0
    }

    /// The round the next attempt runs at.
    pub fn round(&self) -> (r: Round)
        ensures
            r == self.round,
    {
        self.round
    }

    /// Record an iteration that produced no decision (an aborted attempt, or
    /// an iteration spent not being leader): advance to the next round.
    pub fn advance(&mut self)
        requires
            old(self).round.tick.0 < u64::MAX,
        ensures
            final(self).id == old(self).id,
            final(self).round.tick.0 == old(self).round.tick.0 + 1,
            final(self).round.process_id == old(self).round.process_id,
            old(self).round.spec_lt(final(self).round),
    {
        self.round = self.round.next();
    }
}

} // verus!
