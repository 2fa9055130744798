//! The flock and the shape of its tick.
//!
//! A [`Flock`] owns its agents and is generic in the vector type that holds a
//! position or a velocity: the arithmetic on those vectors is the caller's,
//! handed in as two rules.  What the flock itself guarantees is the frame
//! around the rules: that there are always at least two agents, that every
//! new velocity is computed from the flock as it stood before the tick, that
//! every new position is computed from its own agent alone, that no agent
//! appears, vanishes or changes place, and that a refused tick changes
//! nothing.

use vstd::prelude::*;

verus! {

/// Why a flock or a tick was refused.  A refused tick changes nothing.
#[derive(Clone, Copy, Debug, PartialEq, Eq, Structural)]
pub enum Rejection {
    /// The flock has fewer than two agents, so no agent has another to align
    /// with.
    TooFewAgents,
    /// The elapsed time handed to the tick is negative.
    NegativeElapsed,
}

/// The two counts that the rules of a tick divide by.
#[derive(Clone, Copy, Debug, PartialEq, Eq, Structural)]
pub struct Headcount {
    /// The size of the flock; the centroid is the sum of positions over it.
    pub agents: usize,
    /// The size of the flock less one; alignment divides by it, whatever the
    /// number of neighbours.
    pub others: usize,
}

/// Whether the agent at index `other` acts on the agent at index `me`, where
/// `marks[j]` tells whether the caller found agent `j` within the radius of
/// the rule at hand.  An agent never acts on itself.
pub open spec fn acts_on(marks: Seq<bool>, me: int, other: int) -> bool {
    0 <= other < marks.len() && other != me && marks[other]
}

/// Whether `s` lists indices in strictly ascending order.
pub open spec fn ascending(s: Seq<usize>) -> bool {
    forall|a: int, b: int| 0 <= a < b < s.len() ==> s[a] < s[b]
}

/// The indices of the agents that act on the agent at index `me`, in flock
/// order: every marked agent but `me` itself, each once.
pub fn neighbours(me: usize, marks: &Vec<bool>) -> (out: Vec<usize>)
    ensures
        ascending(out@),
        forall|j: usize| out@.contains(j) <==> acts_on(marks@, me as int, j as int),
{
    let mut out: Vec<usize> = Vec::new();
    let mut j: usize = 0;
    while j < marks.len()
        invariant
            j <= marks.len(),
            ascending(out@),
            forall|a: int| 0 <= a < out@.len() ==> out@[a] < j,
            forall|k: usize| out@.contains(k) <==> acts_on(marks@, me as int, k as int) && k < j,
        decreases marks.len() - j,
    {
        if j != me && marks[j] {
            let ghost before = out@;
            out.push(j);
            proof {
                assert(out@[before.len() as int] == j);
                assert forall|k: usize| out@.contains(k) implies acts_on(
                    marks@,
                    me as int,
                    k as int,
                ) && k < j + 1 by {
                    let at = choose|at: int| 0 <= at < out@.len() && out@[at] == k;
                    if at < before.len() {
                        assert(before[at] == k);
                        assert(before.contains(k));
                    }
                }
                assert forall|k: usize|
                    acts_on(marks@, me as int, k as int) && k < j + 1 implies out@.contains(k) by {
                    if k < j {
                        assert(before.contains(k));
                        let at = choose|at: int| 0 <= at < before.len() && before[at] == k;
                        assert(out@[at] == k);
                    }
                }
            }
        }
        j = j + 1;
    }
    out
}

/// One agent: where it is and how it moves.  The library never looks inside
/// the two vectors; it only carries them.
#[derive(Debug, PartialEq)]
pub struct Agent<T> {
    pub position: T,
    pub velocity: T,
}

impl<T> Agent<T> {
    /// The same agent moving at `velocity`.
    pub open spec fn steered(self, velocity: T) -> Agent<T> {
        Agent { position: self.position, velocity }
    }
}

/// The agents of a simulation in a fixed order.  A flock has at least two
/// agents, and none is added or removed after construction.
pub struct Flock<T> {
    agents: Vec<Agent<T>>,
}

impl<T> View for Flock<T> {
    type V = Seq<Agent<T>>;

    closed spec fn view(&self) -> Seq<Agent<T>> {
        self.agents@
    }
}

/// Whether `after` is `before` with every velocity replaced by what `steer`
/// returns for that agent when shown the whole of `before`, and with nothing
/// else changed.
pub open spec fn steered_by<T, F: Fn(&Flock<T>, usize) -> T>(
    steer: F,
    before: Flock<T>,
    after: Flock<T>,
) -> bool {
    &&& after@.len() == before@.len()
    &&& forall|i: int|
        0 <= i < before@.len() ==> {
            &&& (#[trigger] after@[i]).position == before@[i].position
            &&& call_ensures(steer, (&before, i as usize), after@[i].velocity)
        }
}

/// Whether `after` is `before` with every position replaced by what
/// `advance` returns when shown that agent alone, and with nothing else
/// changed.
pub open spec fn advanced_by<T, G: Fn(&Agent<T>) -> T>(
    advance: G,
    before: Flock<T>,
    after: Flock<T>,
) -> bool {
    &&& after@.len() == before@.len()
    &&& forall|i: int|
        0 <= i < before@.len() ==> {
            &&& (#[trigger] after@[i]).velocity == before@[i].velocity
            &&& call_ensures(advance, (&before@[i],), after@[i].position)
        }
}

/// Whether `after` is `before` one tick later: every velocity is what
/// `steer` returns for that agent when shown the whole of `before`, and every
/// position is what `advance` returns when shown that agent at its old
/// position with its new velocity.
pub open spec fn ticked_by<T, F: Fn(&Flock<T>, usize) -> T, G: Fn(&Agent<T>) -> T>(
    steer: F,
    advance: G,
    before: Flock<T>,
    after: Flock<T>,
) -> bool {
    &&& after@.len() == before@.len()
    &&& forall|i: int|
        0 <= i < before@.len() ==> {
            &&& call_ensures(steer, (&before, i as usize), (#[trigger] after@[i]).velocity)
            &&& call_ensures(
                advance,
                (&before@[i].steered(after@[i].velocity),),
                after@[i].position,
            )
        }
}

/// A tick is a velocity update followed by a position update.
pub proof fn lemma_tick_in_two_steps<T, F: Fn(&Flock<T>, usize) -> T, G: Fn(&Agent<T>) -> T>(
    steer: F,
    advance: G,
    before: Flock<T>,
    between: Flock<T>,
    after: Flock<T>,
)
    requires
        steered_by(steer, before, between),
        advanced_by(advance, between, after),
    ensures
        ticked_by(steer, advance, before, after),
{
    assert forall|i: int| 0 <= i < before@.len() implies {
        &&& call_ensures(steer, (&before, i as usize), (#[trigger] after@[i]).velocity)
        &&& call_ensures(advance, (&before@[i].steered(after@[i].velocity),), after@[i].position)
    } by {
        assert(between@[i].position == before@[i].position);
        assert(after@[i].velocity == between@[i].velocity);
        assert(between@[i] == before@[i].steered(after@[i].velocity));
    }
}

/// A position update whose rule hands every position back, as the rule of
/// motion does when no time has elapsed, leaves every agent as it was.
pub proof fn lemma_idle_advance<T, G: Fn(&Agent<T>) -> T>(
    advance: G,
    before: Flock<T>,
    after: Flock<T>,
)
    requires
        advanced_by(advance, before, after),
        forall|agent: Agent<T>, position: T|
            call_ensures(advance, (&agent,), position) ==> position == agent.position,
    ensures
        after@ == before@,
{
    assert forall|i: int| 0 <= i < before@.len() implies after@[i] == before@[i] by {
        assert(after@[i].velocity == before@[i].velocity);
        assert(call_ensures(advance, (&before@[i],), after@[i].position));
    }
    assert(after@ =~= before@);
}

/// The new position of an agent depends on that agent alone: under a rule
/// that has one answer for each agent, equal agents end at equal positions
/// whatever flocks they are in and wherever they stand in them.
pub proof fn lemma_advance_is_local<T, G: Fn(&Agent<T>) -> T>(
    advance: G,
    first: Flock<T>,
    first_after: Flock<T>,
    i: int,
    second: Flock<T>,
    second_after: Flock<T>,
    j: int,
)
    requires
        advanced_by(advance, first, first_after),
        advanced_by(advance, second, second_after),
        0 <= i < first@.len(),
        0 <= j < second@.len(),
        first@[i] == second@[j],
        forall|agent: Agent<T>, p: T, q: T|
            call_ensures(advance, (&agent,), p) && call_ensures(advance, (&agent,), q) ==> p == q,
    ensures
        first_after@[i] == second_after@[j],
{
    assert(first_after@[i].velocity == first@[i].velocity);
    assert(second_after@[j].velocity == second@[j].velocity);
    assert(call_ensures(advance, (&first@[i],), first_after@[i].position));
    assert(call_ensures(advance, (&second@[j],), second_after@[j].position));
}

impl<T> Flock<T> {
    #[verifier::type_invariant]
    spec fn inv(self) -> bool {
        self.agents.len() >= 2
    }

    /// Takes ownership of the agents.  Fewer than two are refused.
    pub fn new(agents: Vec<Agent<T>>) -> (r: Result<Flock<T>, Rejection>)
        ensures
            match r {
                Ok(flock) => agents@.len() >= 2 && flock@ == agents@,
                Err(why) => agents@.len() <= 1 && why == Rejection::TooFewAgents,
            },
    {
        if agents.len() < 2 {
            Err(Rejection::TooFewAgents)
        } else {
            Ok(Flock { agents })
        }
    }

    /// The agents, for reading only.
    pub fn agents(&self) -> (all: &Vec<Agent<T>>)
        ensures
            all@ == self@,
            all@.len() >= 2,
    {
        proof {
            use_type_invariant(self);
        }
        &self.agents
    }

    /// The size of the flock and the size less one.  Neither is zero.
    pub fn headcount(&self) -> (count: Headcount)
        ensures
            count.agents == self@.len(),
            count.others == self@.len() - 1,
            count.others >= 1,
    {
        proof {
            use_type_invariant(self);
        }
        Headcount { agents: self.agents.len(), others: self.agents.len() - 1 }
    }

    /// The indices of the other agents that `close` accepts when shown the
    /// agent at index `me` and then the other one, in flock order.  Every
    /// other agent is asked about once; the agent itself is not.
    pub fn neighbours_of<C: Fn(&Agent<T>, &Agent<T>) -> bool>(&self, me: usize, close: C) -> (out:
        Vec<usize>)
        requires
            me < self@.len(),
            forall|j: int|
                0 <= j < self@.len() && j != me ==> call_requires(
                    close,
                    (&self@[me as int], &self@[j]),
                ),
        ensures
            ascending(out@),
            forall|j: usize|
                out@.contains(j) ==> j < self@.len() && j != me && call_ensures(
                    close,
                    (&self@[me as int], &self@[j as int]),
                    true,
                ),
            forall|j: usize|
                j < self@.len() && j != me && !out@.contains(j) ==> call_ensures(
                    close,
                    (&self@[me as int], &self@[j as int]),
                    false,
                ),
    {
        let count = self.agents.len();
        let mut marks: Vec<bool> = Vec::new();
        let mut j: usize = 0;
        while j < count
            invariant
                j <= count,
                count == self.agents.len(),
                me < count,
                marks.len() == j,
                forall|k: int|
                    0 <= k < self@.len() && k != me ==> call_requires(
                        close,
                        (&self@[me as int], &self@[k]),
                    ),
                forall|k: int|
                    0 <= k < j ==> if k == me {
                        !marks@[k]
                    } else {
                        call_ensures(close, (&self@[me as int], &self@[k]), #[trigger] marks@[k])
                    },
            decreases count - j,
        {
            let mark = if j == me {
                false
            } else {
                assert(call_requires(close, (&self@[me as int], &self@[j as int])));
                close(&self.agents[me], &self.agents[j])
            };
            marks.push(mark);
            j = j + 1;
        }
        let out = neighbours(me, &marks);
        proof {
            assert forall|k: usize| out@.contains(k) implies k < self@.len() && k != me
                && call_ensures(close, (&self@[me as int], &self@[k as int]), true) by {
                assert(acts_on(marks@, me as int, k as int));
                assert(marks@[k as int]);
            }
            assert forall|k: usize|
                k < self@.len() && k != me && !out@.contains(k) implies call_ensures(
                close,
                (&self@[me as int], &self@[k as int]),
                false,
            ) by {
                assert(!acts_on(marks@, me as int, k as int));
                assert(!marks@[k as int]);
            }
        }
        out
    }

}

impl<T: Copy> Flock<T> {
    /// Replaces every velocity by what `steer` computes for that agent from
    /// the flock as it stands before the call.  No agent's new velocity is
    /// visible to `steer` while the others are computed, and no position
    /// changes.
    pub fn update_velocities<F: Fn(&Flock<T>, usize) -> T>(&mut self, steer: F)
        requires
            forall|me: usize| me < old(self)@.len() ==> call_requires(steer, (&*old(self), me)),
        ensures
            steered_by(steer, *old(self), *final(self)),
    {
        proof {
            use_type_invariant(&*self);
        }
        let count = self.agents.len();
        let mut next: Vec<Agent<T>> = Vec::new();
        let mut me: usize = 0;
        while me < count
            invariant
                me <= count,
                count == self.agents.len(),
                *self == *old(self),
                next.len() == me,
                forall|k: usize| k < old(self)@.len() ==> call_requires(steer, (&*old(self), k)),
                forall|i: int|
                    0 <= i < me ==> {
                        &&& (#[trigger] next@[i]).position == old(self)@[i].position
                        &&& call_ensures(steer, (&*old(self), i as usize), next@[i].velocity)
                    },
            decreases count - me,
        {
            let velocity = steer(&*self, me);
            next.push(Agent { position: self.agents[me].position, velocity });
            me = me + 1;
        }
        self.agents = next;
    }

    /// Replaces every position by what `advance` computes from that agent
    /// alone.  No agent's new position depends on another agent, and no
    /// velocity changes.
    pub fn update_positions<G: Fn(&Agent<T>) -> T>(&mut self, advance: G)
        requires
            forall|i: int| 0 <= i < old(self)@.len() ==> call_requires(advance, (&old(self)@[i],)),
        ensures
            advanced_by(advance, *old(self), *final(self)),
    {
        proof {
            use_type_invariant(&*self);
        }
        let count = self.agents.len();
        let mut next: Vec<Agent<T>> = Vec::new();
        let mut me: usize = 0;
        while me < count
            invariant
                me <= count,
                count == self.agents.len(),
                *self == *old(self),
                next.len() == me,
                forall|i: int|
                    0 <= i < old(self)@.len() ==> call_requires(advance, (&old(self)@[i],)),
                forall|i: int|
                    0 <= i < me ==> {
                        &&& (#[trigger] next@[i]).velocity == old(self)@[i].velocity
                        &&& call_ensures(advance, (&old(self)@[i],), next@[i].position)
                    },
            decreases count - me,
        {
            assert(self.agents@[me as int] == old(self)@[me as int]);
            assert(call_requires(advance, (&old(self)@[me as int],)));
            let position = advance(&self.agents[me]);
            next.push(Agent { position, velocity: self.agents[me].velocity });
            me = me + 1;
        }
        self.agents = next;
    }

    /// Advances the flock by one tick: every velocity from the flock as it
    /// stands, then every position from its agent's old position and new
    /// velocity.  A tick with a negative elapsed time is refused and leaves
    /// the flock as it was.
    pub fn tick<F: Fn(&Flock<T>, usize) -> T, G: Fn(&Agent<T>) -> T>(
        &mut self,
        elapsed_negative: bool,
        steer: F,
        advance: G,
    ) -> (r: Result<(), Rejection>)
        requires
            forall|me: usize| me < old(self)@.len() ==> call_requires(steer, (&*old(self), me)),
            forall|agent: Agent<T>| call_requires(advance, (&agent,)),
        ensures
            elapsed_negative ==> r == Err::<(), Rejection>(Rejection::NegativeElapsed)
                && *final(self) == *old(self),
            !elapsed_negative ==> r == Ok::<(), Rejection>(()) && ticked_by(
                steer,
                advance,
                *old(self),
                *final(self),
            ),
    {
        if elapsed_negative {
            return Err(Rejection::NegativeElapsed);
        }
        self.update_velocities(steer);
        let ghost between = *self;
        self.update_positions(advance);
        proof {
            lemma_tick_in_two_steps(steer, advance, *old(self), between, *self);
        }
        Ok(())
    }
}

} // verus!
