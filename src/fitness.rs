use vstd::prelude::*;

verus! {

/// What one broken hard constraint costs: a tenth of `i64::MAX`, so that all
/// of them broken at once still fit in an `i64`.
pub const PENALTY: i64 = 922337203685477580;

/// The largest magnitude that a soft reward counts with. Six of them stay
/// below `PENALTY`, which is what lets feasibility dominate every reward.
pub const REWARD_LIMIT: i64 = 1000000000000000;

/// The outcome of checking one candidate design against the load case:
/// one flag per hard constraint (true when it is met) and the three soft
/// rewards, already in whole units.
#[derive(Clone, Copy, Debug)]
pub struct Assessment {
    /// The geometry gives finite, positive section properties. A design
    /// without them is as unfit as a design can be.
    pub geometry_ok: bool,
    pub length_ok: bool,
    pub height_ok: bool,
    pub width_ok: bool,
    pub weight_ok: bool,
    pub cost_ok: bool,
    pub safety_ok: bool,
    pub deflection_ok: bool,
    pub fatigue_ok: bool,
    /// The topology's own limits on thickness against width and height.
    pub shape_ok: bool,
    /// Lower weight is better: the negated weight.
    pub weight_reward: i64,
    /// Lower cost is better: the gap to the price cap.
    pub cost_reward: i64,
    /// Higher factor of safety is better: scaled by the weight bound.
    pub safety_reward: i64,
}

/// A soft reward as it counts: clamped to `[-REWARD_LIMIT, REWARD_LIMIT]`.
#[verifier::opaque]
pub open spec fn capped(reward: i64) -> int {
    if reward > REWARD_LIMIT {
        REWARD_LIMIT as int
    } else if reward < -REWARD_LIMIT {
        -REWARD_LIMIT
    } else {
        reward as int
    }
}

/// A hard constraint with no reward: nothing when met, the penalty when not.
#[verifier::opaque]
pub open spec fn gate(ok: bool) -> int {
    if ok {
        0
    } else {
        -PENALTY
    }
}

/// A hard constraint that carries a reward: the capped reward when met, the
/// penalty when not.
#[verifier::opaque]
pub open spec fn rewarded(ok: bool, reward: i64) -> int {
    if ok {
        capped(reward)
    } else {
        -PENALTY
    }
}

impl Assessment {
    /// Every hard constraint is met.
    pub open spec fn feasible(self) -> bool {
        &&& self.geometry_ok
        &&& self.length_ok
        &&& self.height_ok
        &&& self.width_ok
        &&& self.weight_ok
        &&& self.cost_ok
        &&& self.safety_ok
        &&& self.deflection_ok
        &&& self.fatigue_ok
        &&& self.shape_ok
    }

    /// The fitness of the candidate: one term per hard constraint, or every
    /// penalty at once for degenerate geometry.
    pub open spec fn fitness(self) -> int {
        if !self.geometry_ok {
            9 * -PENALTY
        } else {
            self.constraint_total()
        }
    }

    /// The sum of the terms of the hard constraints.
    pub open spec fn constraint_total(self) -> int {
        gate(self.length_ok) + gate(self.height_ok) + gate(self.width_ok)
            + rewarded(self.weight_ok, self.weight_reward)
            + rewarded(self.cost_ok, self.cost_reward)
            + rewarded(self.safety_ok, self.safety_reward)
            + gate(self.deflection_ok) + gate(self.fatigue_ok) + gate(self.shape_ok)
    }

    /// The fitness score of the candidate; higher is better.
    pub fn score(&self) -> (r: i64)
        ensures
            r == self.fitness(),
            self.feasible() ==> r == capped(self.weight_reward) + capped(self.cost_reward)
                + capped(self.safety_reward),
            !self.feasible() ==> r <= -PENALTY + 3 * REWARD_LIMIT,
            !self.geometry_ok ==> r == 9 * -PENALTY,
            r >= 9 * -PENALTY,
    {
        proof {
            self.lemma_fitness_range();
        }
        if !self.geometry_ok {
            return -9 * PENALTY;
        }
        let mut total: i64 = 0;
        total = total + gate_value(self.length_ok);
        total = total + gate_value(self.height_ok);
        total = total + gate_value(self.width_ok);
        total = total + reward_value(self.weight_ok, self.weight_reward);
        total = total + reward_value(self.cost_ok, self.cost_reward);
        total = total + reward_value(self.safety_ok, self.safety_reward);
        total = total + gate_value(self.deflection_ok);
        total = total + gate_value(self.fatigue_ok);
        total = total + gate_value(self.shape_ok);
        total
    }

    /// The terms of the hard constraints stay in their ranges, and so does
    /// the fitness of a feasible or an infeasible candidate.
    proof fn lemma_fitness_range(self)
        ensures
            self.feasible() ==> self.fitness() == capped(self.weight_reward) + capped(
                self.cost_reward,
            ) + capped(self.safety_reward),
            !self.feasible() ==> self.fitness() <= -PENALTY + 3 * REWARD_LIMIT,
            gate_bounds(self.length_ok),
            gate_bounds(self.height_ok),
            gate_bounds(self.width_ok),
            reward_bounds(self.weight_ok, self.weight_reward),
            reward_bounds(self.cost_ok, self.cost_reward),
            reward_bounds(self.safety_ok, self.safety_reward),
            gate_bounds(self.deflection_ok),
            gate_bounds(self.fatigue_ok),
            gate_bounds(self.shape_ok),
    {
        assert(gate_bounds(self.length_ok) && gate_bounds(self.height_ok) && gate_bounds(
            self.width_ok,
        ) && reward_bounds(self.weight_ok, self.weight_reward) && reward_bounds(
            self.cost_ok,
            self.cost_reward,
        ) && reward_bounds(self.safety_ok, self.safety_reward) && gate_bounds(self.deflection_ok)
            && gate_bounds(self.fatigue_ok) && gate_bounds(self.shape_ok)) by {
            reveal(gate);
            reveal(rewarded);
            reveal(capped);
        }
    }
}

spec fn gate_bounds(ok: bool) -> bool {
    &&& -PENALTY <= gate(ok) <= 0
    &&& ok ==> gate(ok) == 0
    &&& !ok ==> gate(ok) == -PENALTY
}

spec fn reward_bounds(ok: bool, reward: i64) -> bool {
    &&& -PENALTY <= rewarded(ok, reward) <= REWARD_LIMIT
    &&& ok ==> rewarded(ok, reward) == capped(reward)
    &&& ok ==> -REWARD_LIMIT <= capped(reward) <= REWARD_LIMIT
    &&& !ok ==> rewarded(ok, reward) == -PENALTY
}

fn clamp_reward(reward: i64) -> (r: i64)
    ensures
        r == capped(reward),
{
    reveal(capped);
    if reward > REWARD_LIMIT {
        REWARD_LIMIT
    } else if reward < -REWARD_LIMIT {
        -REWARD_LIMIT
    } else {
        reward
    }
}

fn gate_value(ok: bool) -> (r: i64)
    ensures
        r == gate(ok),
{
    reveal(gate);
    if ok {
        0
    } else {
        -PENALTY
    }
}

fn reward_value(ok: bool, reward: i64) -> (r: i64)
    ensures
        r == rewarded(ok, reward),
{
    reveal(rewarded);
    if ok {
        clamp_reward(reward)
    } else {
        -PENALTY
    }
}

/// A candidate that breaks any hard constraint scores strictly below every
/// candidate that meets them all, whatever the soft rewards of either.
pub proof fn infeasible_ranks_below_feasible(bad: Assessment, good: Assessment)
    requires
        !bad.feasible(),
        good.feasible(),
    ensures
        bad.fitness() < good.fitness(),
{
    bad.lemma_fitness_range();
    good.lemma_fitness_range();
}

} // verus!
