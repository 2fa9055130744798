//! The messages that one tick sends to the telemetry sink: which agent each
//! one reports, what it carries, and the address it goes to.
//!
//! A message is an address and a short list of numbers.  The numbers are
//! computed by the caller from the agent's position; this module fixes
//! everything else about the message, so a [`Slot`] is a message that still
//! lacks its numbers.

use vstd::prelude::*;
use vstd::string::*;
use vstd::arithmetic::div_mod::lemma_fundamental_div_mod;
use crate::decimal::{digits, lemma_digits_injective, push_decimal};

verus! {

/// How an agent's position is put on the wire.
#[derive(Clone, Copy, Debug, PartialEq, Eq, Structural)]
pub enum Scheme {
    /// Two messages per agent, the polar angle and then the polar radius of
    /// its position, on channels numbered from one.
    PolarSplit,
    /// One message per agent with both coordinates, on channels numbered from
    /// zero.
    CartesianCombined,
}

/// What a message carries.
#[derive(Clone, Copy, Debug, PartialEq, Eq, Structural)]
pub enum Quantity {
    /// The polar angle of the position, `atan2(y, x)`: one number.
    Angle,
    /// The Euclidean norm of the position: one number.
    Length,
    /// The coordinates `x` and `y` of the position: two numbers.
    Position,
}

/// A message of a tick without its numbers.
#[derive(Debug)]
pub struct Slot {
    /// Index in the flock of the agent that the message reports.
    pub agent: usize,
    /// What the message carries.
    pub quantity: Quantity,
    /// The address that the message is sent to.
    pub address: String,
}

/// The mathematical content of a [`Slot`].
pub struct SlotView {
    pub agent: nat,
    pub quantity: Quantity,
    pub address: Seq<char>,
}

impl View for Slot {
    type V = SlotView;

    open spec fn view(&self) -> SlotView {
        SlotView { agent: self.agent as nat, quantity: self.quantity, address: self.address@ }
    }
}

impl Quantity {
    /// The fixed part of the address of a message that carries `self`.
    pub open spec fn stem(self) -> Seq<char> {
        match self {
            Quantity::Angle => "/boid/angle"@,
            Quantity::Length => "/boid/length"@,
            Quantity::Position => "/boid/position "@,
        }
    }

    /// How many numbers a message that carries `self` holds.
    pub open spec fn spec_arity(self) -> nat {
        match self {
            Quantity::Angle => 1,
            Quantity::Length => 1,
            Quantity::Position => 2,
        }
    }

    /// How many numbers a message that carries `self` holds.
    pub fn arity(self) -> (n: usize)
        ensures
            n == self.spec_arity(),
    {
        match self {
            Quantity::Angle => 1,
            Quantity::Length => 1,
            Quantity::Position => 2,
        }
    }
}

impl Scheme {
    /// The channel number of the agent at `index`.
    pub open spec fn channel(self, index: nat) -> nat {
        match self {
            Scheme::PolarSplit => index + 1,
            Scheme::CartesianCombined => index,
        }
    }

    /// What the messages of one agent carry, in the order they are sent.
    pub open spec fn quantities(self) -> Seq<Quantity> {
        match self {
            Scheme::PolarSplit => seq![Quantity::Angle, Quantity::Length],
            Scheme::CartesianCombined => seq![Quantity::Position],
        }
    }

    /// How many messages one agent takes.
    pub open spec fn spec_per_agent(self) -> nat {
        self.quantities().len()
    }

    /// How many messages one agent takes: two when split, one when combined.
    pub fn per_agent(self) -> (n: usize)
        ensures
            n == self.spec_per_agent(),
    {
        match self {
            Scheme::PolarSplit => 2,
            Scheme::CartesianCombined => 1,
        }
    }

    /// The `part`-th message of the agent at index `agent`.
    pub open spec fn slot(self, agent: nat, part: int) -> SlotView {
        let quantity = self.quantities()[part];
        SlotView { agent, quantity, address: address_of(quantity, self.channel(agent)) }
    }

    /// The messages of the agent at index `agent`, in the order they are sent.
    pub open spec fn agent_slots(self, agent: nat) -> Seq<SlotView> {
        Seq::new(self.spec_per_agent(), |part: int| self.slot(agent, part))
    }

    /// The `k`-th message of a tick: agents in flock order, each with all its
    /// messages before the next agent's.
    pub open spec fn nth(self, k: nat) -> SlotView {
        self.slot(k / self.spec_per_agent(), (k % self.spec_per_agent()) as int)
    }

    /// The messages of one tick for a flock of `agents` agents.
    pub open spec fn plan(self, agents: nat) -> Seq<SlotView> {
        Seq::new(self.spec_per_agent() * agents, |k: int| self.nth(k as nat))
    }
}

/// The address of the message that carries `quantity` on channel `number`:
/// the quantity's stem followed by the number in decimal.
pub open spec fn address_of(quantity: Quantity, number: nat) -> Seq<char> {
    quantity.stem() + digits(number)
}

/// Builds the address of the message that carries `quantity` on channel
/// `number`.
pub fn address(quantity: Quantity, number: u128) -> (a: String)
    ensures
        a@ == address_of(quantity, number as nat),
{
    let stem = match quantity {
        Quantity::Angle => "/boid/angle",
        Quantity::Length => "/boid/length",
        Quantity::Position => "/boid/position ",
    };
    let mut a = String::from_str(stem);
    push_decimal(&mut a, number);
    a
}

/// An address names one quantity on one channel: equal addresses carry the
/// same quantity and the same channel number.
pub proof fn lemma_address_identifies(first: Quantity, m: nat, second: Quantity, n: nat)
    requires
        address_of(first, m) == address_of(second, n),
    ensures
        first == second,
        m == n,
{
    reveal_strlit("/boid/angle");
    reveal_strlit("/boid/length");
    reveal_strlit("/boid/position ");
    let a = address_of(first, m);
    let b = address_of(second, n);
    assert(a[6] == first.stem()[6]);
    assert(b[6] == second.stem()[6]);
    assert(first == second);
    let stem = first.stem();
    assert(digits(m) =~= a.subrange(stem.len() as int, a.len() as int));
    assert(digits(n) =~= b.subrange(stem.len() as int, b.len() as int));
    lemma_digits_injective(m, n);
}

/// No two messages of a tick go to the same address.
pub proof fn lemma_plan_addresses_distinct(scheme: Scheme, agents: nat, i: int, j: int)
    requires
        0 <= i < scheme.plan(agents).len(),
        0 <= j < scheme.plan(agents).len(),
        scheme.plan(agents)[i].address == scheme.plan(agents)[j].address,
    ensures
        i == j,
{
    let per = scheme.spec_per_agent() as int;
    let first = scheme.nth(i as nat);
    let second = scheme.nth(j as nat);
    assert(1 <= per <= 2);
    lemma_address_identifies(
        first.quantity,
        scheme.channel((i / per) as nat),
        second.quantity,
        scheme.channel((j / per) as nat),
    );
    assert(i / per == j / per);
    assert(i % per == j % per);
    lemma_fundamental_div_mod(i, per);
    lemma_fundamental_div_mod(j, per);
}

/// The mathematical content of a list of slots.
pub open spec fn views(slots: Seq<Slot>) -> Seq<SlotView> {
    slots.map_values(|s: Slot| s@)
}

/// A tick's messages for one more agent are the tick's messages so far
/// followed by that agent's.
pub proof fn lemma_plan_grows(scheme: Scheme, agents: nat)
    ensures
        scheme.plan(agents + 1) == scheme.plan(agents) + scheme.agent_slots(agents),
{
    let per = scheme.spec_per_agent();
    let longer = scheme.plan(agents + 1);
    let joined = scheme.plan(agents) + scheme.agent_slots(agents);
    assert(per * (agents + 1) == per * agents + per) by (nonlinear_arith);
    assert(longer.len() == joined.len());
    assert forall|k: int| 0 <= k < longer.len() implies longer[k] == joined[k] by {
        if k >= per * agents {
            match scheme {
                Scheme::PolarSplit => {
                    assert(per == 2);
                    assert(k / 2 == agents);
                    assert(k % 2 == k - 2 * agents);
                },
                Scheme::CartesianCombined => {
                    assert(per == 1);
                },
            }
        }
    }
    assert(longer =~= joined);
}

/// Builds the `part`-th message of the agent at index `agent`.
pub(crate) fn slot_at(scheme: Scheme, agent: usize, part: usize) -> (slot: Slot)
    requires
        part < scheme.spec_per_agent(),
    ensures
        slot@ == scheme.slot(agent as nat, part as int),
{
    let (quantity, number) = match scheme {
        Scheme::PolarSplit => {
            let number: u128 = agent as u128 + 1;
            if part == 0 {
                (Quantity::Angle, number)
            } else {
                (Quantity::Length, number)
            }
        },
        Scheme::CartesianCombined => {
            let number: u128 = agent as u128;
            (Quantity::Position, number)
        },
    };
    Slot { agent, quantity, address: address(quantity, number) }
}

fn push_agent(out: &mut Vec<Slot>, scheme: Scheme, agent: usize)
    ensures
        views(final(out)@) == views(old(out)@) + scheme.agent_slots(agent as nat),
{
    let per = scheme.per_agent();
    let mut part: usize = 0;
    while part < per
        invariant
            part <= per,
            per == scheme.spec_per_agent(),
            views(out@) == views(old(out)@) + scheme.agent_slots(agent as nat).take(part as int),
        decreases per - part,
    {
        let ghost before = out@;
        let slot = slot_at(scheme, agent, part);
        let ghost added = slot@;
        out.push(slot);
        proof {
            let all = scheme.agent_slots(agent as nat);
            assert(views(out@) =~= views(before).push(added));
            assert(all[part as int] == added);
            assert(all.take(part + 1) =~= all.take(part as int).push(added));
        }
        part = part + 1;
    }
    assert(scheme.agent_slots(agent as nat).take(per as int) =~= scheme.agent_slots(agent as nat));
}

/// The messages that report the agent at index `agent`, in the order they
/// are sent.
pub fn agent_messages(scheme: Scheme, agent: usize) -> (out: Vec<Slot>)
    ensures
        views(out@) == scheme.agent_slots(agent as nat),
{
    let mut out: Vec<Slot> = Vec::new();
    push_agent(&mut out, scheme, agent);
    assert(views(out@) =~= scheme.agent_slots(agent as nat));
    out
}

/// The messages of one tick for a flock of `agents` agents: the agents in
/// flock order, each with all of its messages.
pub fn plan(scheme: Scheme, agents: usize) -> (out: Vec<Slot>)
    ensures
        views(out@) == scheme.plan(agents as nat),
        out@.len() == scheme.spec_per_agent() * agents,
{
    let mut out: Vec<Slot> = Vec::new();
    let mut agent: usize = 0;
    assert(views(out@) =~= scheme.plan(0));
    while agent < agents
        invariant
            agent <= agents,
            views(out@) == scheme.plan(agent as nat),
        decreases agents - agent,
    {
        proof {
            lemma_plan_grows(scheme, agent as nat);
        }
        push_agent(&mut out, scheme, agent);
        agent = agent + 1;
    }
    out
}

} // verus!
