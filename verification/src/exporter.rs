//! The export of one tick, message by message.
//!
//! Delivery is fire-and-forget.  The driver asks the [`Exporter`] for the
//! message that is due, hands it to the sink, and passes on what the sink
//! answered.  The exporter moves on to the next message whatever that was:
//! nothing is sent twice, nothing is held back, and a sink that drops every
//! message leaves the export where a sink that takes every message leaves
//! it.

use vstd::prelude::*;
use vstd::arithmetic::div_mod::lemma_fundamental_div_mod_converse;
use crate::telemetry::{slot_at, Scheme, Slot};

verus! {

/// What the sink answered for one message.
#[derive(Clone, Copy, Debug, PartialEq, Eq, Structural)]
pub enum Delivery {
    /// The sink took the message.
    Accepted,
    /// The sink could not be reached or refused the message.
    Failed,
}

/// Where the export of a tick stands.
pub struct Progress {
    /// The encoding in use.
    pub scheme: Scheme,
    /// The size of the flock.
    pub agents: nat,
    /// How many messages have been handed to the sink.
    pub sent: nat,
}

impl Progress {
    /// How many messages the tick has in all.
    pub open spec fn total(self) -> nat {
        self.scheme.spec_per_agent() * self.agents
    }

    /// Whether every message of the tick has been handed to the sink.
    pub open spec fn done(self) -> bool {
        self.sent >= self.total()
    }

    /// The state after the sink has answered for the message that was due:
    /// one message further, whatever the answer.  A finished export stays as
    /// it is.
    pub open spec fn settled(self, outcome: Delivery) -> Progress {
        if self.done() {
            self
        } else {
            Progress { sent: self.sent + 1, ..self }
        }
    }

    /// The state after the sink has answered for several messages in turn.
    pub open spec fn settled_all(self, outcomes: Seq<Delivery>) -> Progress
        decreases outcomes.len(),
    {
        if outcomes.len() == 0 {
            self
        } else {
            self.settled_all(outcomes.drop_last()).settled(outcomes.last())
        }
    }
}

/// After any answers the export has moved on by their number, or stands at
/// its end if that comes first.
pub proof fn lemma_settled_all(start: Progress, outcomes: Seq<Delivery>)
    ensures
        start.settled_all(outcomes).scheme == start.scheme,
        start.settled_all(outcomes).agents == start.agents,
        start.settled_all(outcomes).sent == if start.done() {
            start.sent
        } else if start.sent + outcomes.len() <= start.total() {
            start.sent + outcomes.len()
        } else {
            start.total()
        },
    decreases outcomes.len(),
{
    if outcomes.len() > 0 {
        lemma_settled_all(start, outcomes.drop_last());
    }
}

/// What the sink answers has no influence on the export: two runs with the
/// same number of answers end in the same state, whichever deliveries failed.
pub proof fn lemma_failures_leave_no_trace(
    start: Progress,
    first: Seq<Delivery>,
    second: Seq<Delivery>,
)
    requires
        first.len() == second.len(),
    ensures
        start.settled_all(first) == start.settled_all(second),
{
    lemma_settled_all(start, first);
    lemma_settled_all(start, second);
}

/// An export is complete after as many answers as the tick has messages, and
/// not before.
pub proof fn lemma_export_completes(scheme: Scheme, agents: nat, outcomes: Seq<Delivery>)
    ensures
        (Progress { scheme, agents, sent: 0 }).settled_all(outcomes).done()
            <==> outcomes.len() >= scheme.spec_per_agent() * agents,
{
    lemma_settled_all(Progress { scheme, agents, sent: 0 }, outcomes);
}

/// The cursor over the messages of one tick.
pub struct Exporter {
    scheme: Scheme,
    agents: usize,
    agent: usize,
    part: usize,
}

impl View for Exporter {
    type V = Progress;

    closed spec fn view(&self) -> Progress {
        Progress {
            scheme: self.scheme,
            agents: self.agents as nat,
            sent: (self.agent * self.scheme.spec_per_agent() + self.part) as nat,
        }
    }
}

impl Exporter {
    #[verifier::type_invariant]
    spec fn inv(self) -> bool {
        &&& self.agent <= self.agents
        &&& self.part < self.scheme.spec_per_agent()
        &&& self.agent == self.agents ==> self.part == 0
    }

    /// Starts the export of a tick for a flock of `agents` agents.
    pub fn begin(scheme: Scheme, agents: usize) -> (e: Exporter)
        ensures
            e@ == (Progress { scheme, agents: agents as nat, sent: 0 }),
    {
        assert(0 * scheme.spec_per_agent() == 0) by (nonlinear_arith);
        Exporter { scheme, agents, agent: 0, part: 0 }
    }

    /// Whether every message of the tick has been handed to the sink.
    pub fn is_done(&self) -> (done: bool)
        ensures
            done == self@.done(),
            self@.sent <= self@.total(),
    {
        proof {
            use_type_invariant(self);
            self.lemma_position();
        }
        self.agent >= self.agents
    }

    /// The message that is due, or `None` when the export is complete.
    pub fn pending(&self) -> (due: Option<Slot>)
        ensures
            self@.done() <==> due is None,
            due matches Some(slot) ==> slot@ == self@.scheme.plan(self@.agents)[self@.sent as int],
    {
        proof {
            use_type_invariant(self);
            self.lemma_position();
        }
        if self.agent >= self.agents {
            None
        } else {
            Some(slot_at(self.scheme, self.agent, self.part))
        }
    }

    /// Takes the sink's answer for the message that was due and moves on to
    /// the next one.  The answer is not acted upon.
    pub fn settle(&mut self, outcome: Delivery)
        ensures
            final(self)@ == old(self)@.settled(outcome),
    {
        proof {
            use_type_invariant(&*self);
            self.lemma_position();
        }
        if self.agent < self.agents {
            let per = self.scheme.per_agent();
            let ghost before = *self;
            if self.part + 1 < per {
                *self = Exporter {
                    scheme: self.scheme,
                    agents: self.agents,
                    agent: self.agent,
                    part: self.part + 1,
                };
            } else {
                *self = Exporter {
                    scheme: self.scheme,
                    agents: self.agents,
                    agent: self.agent + 1,
                    part: 0,
                };
                assert((before.agent + 1) * per == before.agent * per + per)
                    by (nonlinear_arith);
            }
        }
    }

    /// Relates the cursor to the number of messages sent.
    proof fn lemma_position(&self)
        requires
            self.inv(),
        ensures
            self@.sent <= self@.total(),
            self@.done() <==> self.agent >= self.agents,
            self@.sent / self.scheme.spec_per_agent() == self.agent,
            self@.sent % self.scheme.spec_per_agent() == self.part,
    {
        let per = self.scheme.spec_per_agent() as int;
        let agent = self.agent as int;
        let agents = self.agents as int;
        assert(1 <= per <= 2);
        lemma_fundamental_div_mod_converse(agent * per + self.part, per, agent, self.part as int);
        if agent < agents {
            assert((agent + 1) * per <= agents * per) by (nonlinear_arith)
                requires
                    agent + 1 <= agents,
                    per >= 1,
            ;
            assert((agent + 1) * per == agent * per + per) by (nonlinear_arith);
        }
        assert(agents * per == per * agents) by (nonlinear_arith);
    }
}

} // verus!
