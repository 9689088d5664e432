use vstd::prelude::*;
use rand::Rng;
use crate::selection::{select_survivors, best_index, is_top_selection, is_first_best};

verus! {

/// The sizes of one genetic run.
#[derive(Clone, Copy, Debug)]
pub struct EngineConfig {
    pub population_size: usize,
    /// How many of the best members breed the next generation.
    pub survivor_count: usize,
    /// How many generations a run goes through before it stops.
    pub generation_count: u64,
}

impl EngineConfig {
    /// At least one survivor, and no more survivors than members.
    pub open spec fn valid(self) -> bool {
        0 < self.survivor_count <= self.population_size
    }
}

/// What one generation step decided.
pub struct Breeding {
    /// The score of each member of the old generation, by position.
    pub scores: Vec<i64>,
    /// The positions of the old members that bred, best first.
    pub survivors: Vec<usize>,
    /// For each child, by position, the two old members it came from.
    pub parents: Vec<(usize, usize)>,
}

/// The state a run ends in.
pub struct RunOutcome<G> {
    /// The final generation.
    pub population: Vec<G>,
    /// The score of each member of the final generation, by position.
    pub scores: Vec<i64>,
    /// The position of the best member of the final generation.
    pub best: usize,
}

/// Relies on rand's `thread_rng().gen_range(0..bound)`: a value in
/// `0..bound`; it panics only on an empty range.
#[verifier::external_body]
fn draw_below(bound: usize) -> (r: usize)
    requires
        bound > 0,
    ensures
        r < bound,
{
    rand::thread_rng().gen_range(0..bound)
}

/// The score of every member, by position: what `fitness` returned for it.
pub fn evaluate<G, F: Fn(&G) -> i64>(population: &Vec<G>, fitness: &F) -> (scores: Vec<i64>)
    requires
        forall|g: &G| fitness.requires((g,)),
    ensures
        scores.len() == population.len(),
        forall|i: int|
            0 <= i < population.len() ==> fitness.ensures((&population[i],), #[trigger] scores[i]),
{
    let mut scores: Vec<i64> = Vec::new();
    let mut i: usize = 0;
    while i < population.len()
        invariant
            forall|g: &G| fitness.requires((g,)),
            i <= population.len(),
            scores.len() == i,
            forall|k: int| 0 <= k < i ==> fitness.ensures((&population[k],), #[trigger] scores[k]),
        decreases population.len() - i,
    {
        scores.push(fitness(&population[i]));
        i = i + 1;
    }
    scores
}

/// `count` pairs of parents, each drawn at random, with replacement, from
/// `survivors`.
pub fn draw_parents(survivors: &Vec<usize>, count: usize) -> (parents: Vec<(usize, usize)>)
    requires
        survivors.len() > 0,
    ensures
        parents.len() == count,
        forall|k: int|
            0 <= k < count ==> survivors@.contains(#[trigger] parents[k].0) && survivors@.contains(
                parents[k].1,
            ),
{
    let mut parents: Vec<(usize, usize)> = Vec::new();
    let mut k: usize = 0;
    while k < count
        invariant
            survivors.len() > 0,
            k <= count,
            parents.len() == k,
            forall|p: int|
                0 <= p < k ==> survivors@.contains(#[trigger] parents[p].0)
                    && survivors@.contains(parents[p].1),
        decreases count - k,
    {
        let a = survivors[draw_below(survivors.len())];
        let b = survivors[draw_below(survivors.len())];
        parents.push((a, b));
        k = k + 1;
    }
    parents
}

/// One child per pair of parents: what `offspring` returned for the two
/// members that the pair names.
pub fn breed<G, B: Fn(&G, &G) -> G>(population: &Vec<G>, parents: &Vec<(usize, usize)>, offspring: &B) -> (children: Vec<G>)
    requires
        forall|k: int|
            0 <= k < parents.len() ==> #[trigger] parents[k].0 < population.len()
                && parents[k].1 < population.len(),
        forall|a: &G, b: &G| offspring.requires((a, b)),
    ensures
        children.len() == parents.len(),
        forall|k: int|
            0 <= k < parents.len() ==> offspring.ensures(
                (&population[parents[k].0 as int], &population[parents[k].1 as int]),
                #[trigger] children[k],
            ),
{
    let mut children: Vec<G> = Vec::new();
    let mut k: usize = 0;
    while k < parents.len()
        invariant
            k <= parents.len(),
            children.len() == k,
            forall|p: int|
                0 <= p < parents.len() ==> #[trigger] parents[p].0 < population.len()
                    && parents[p].1 < population.len(),
            forall|a: &G, b: &G| offspring.requires((a, b)),
            forall|p: int|
                0 <= p < k ==> offspring.ensures(
                    (&population[parents[p].0 as int], &population[parents[p].1 as int]),
                    #[trigger] children[p],
                ),
        decreases parents.len() - k,
    {
        let pair = parents[k];
        let child = offspring(&population[pair.0], &population[pair.1]);
        children.push(child);
        k = k + 1;
    }
    children
}

/// What one generation step from `old` to `new` decided and did: `step`
/// scores each old member by `fitness`, keeps the `survivor_count` best, and
/// each new member is what `offspring` made of two survivors.
pub open spec fn is_generation_step<G, F: Fn(&G) -> i64, B: Fn(&G, &G) -> G>(
    fitness: F,
    offspring: B,
    survivor_count: int,
    old: Seq<G>,
    step: Breeding,
    new: Seq<G>,
) -> bool {
    &&& new.len() == old.len()
    &&& step.scores@.len() == old.len()
    &&& forall|i: int| 0 <= i < old.len() ==> fitness.ensures((&old[i],), #[trigger] step.scores@[i])
    &&& is_top_selection(step.scores@, step.survivors@, survivor_count)
    &&& step.parents@.len() == old.len()
    &&& forall|k: int|
        0 <= k < old.len() ==> step.survivors@.contains(#[trigger] step.parents@[k].0)
            && step.survivors@.contains(step.parents@[k].1)
    &&& forall|k: int|
        0 <= k < old.len() ==> offspring.ensures(
            (&old[step.parents@[k].0 as int], &old[step.parents@[k].1 as int]),
            #[trigger] new[k],
        )
}

/// `populations` and `steps` record a run: each step leads from one
/// population to the next.
pub open spec fn is_run_history<G, F: Fn(&G) -> i64, B: Fn(&G, &G) -> G>(
    fitness: F,
    offspring: B,
    survivor_count: int,
    populations: Seq<Seq<G>>,
    steps: Seq<Breeding>,
) -> bool {
    &&& populations.len() == steps.len() + 1
    &&& forall|g: int|
        0 <= g < steps.len() ==> is_generation_step(
            fitness,
            offspring,
            survivor_count,
            populations[g],
            #[trigger] steps[g],
            populations[g + 1],
        )
}

/// One generation: score every member, keep the `survivor_count` best, and
/// replace the population with as many children as it had members, each bred
/// from two survivors drawn at random.
pub fn next_generation<G, F: Fn(&G) -> i64, B: Fn(&G, &G) -> G>(
    population: &mut Vec<G>,
    survivor_count: usize,
    fitness: &F,
    offspring: &B,
) -> (step: Breeding)
    requires
        0 < survivor_count <= old(population).len(),
        forall|g: &G| fitness.requires((g,)),
        forall|a: &G, b: &G| offspring.requires((a, b)),
    ensures
        final(population).len() == old(population).len(),
        is_generation_step(
            *fitness,
            *offspring,
            survivor_count as int,
            old(population)@,
            step,
            final(population)@,
        ),
{
    let scores = evaluate(population, fitness);
    let survivors = select_survivors(&scores, survivor_count);
    let parents = draw_parents(&survivors, population.len());
    let children = breed(population, &parents, offspring);
    *population = children;
    Breeding { scores, survivors, parents }
}

/// A whole run: `generation_count` generations from `population`, then the
/// final generation scored. The result is the best member of the final
/// generation, not the best ever seen.
pub fn run<G, F: Fn(&G) -> i64, B: Fn(&G, &G) -> G>(
    population: Vec<G>,
    config: &EngineConfig,
    fitness: &F,
    offspring: &B,
) -> (outcome: RunOutcome<G>)
    requires
        config.valid(),
        population.len() == config.population_size,
        forall|g: &G| fitness.requires((g,)),
        forall|a: &G, b: &G| offspring.requires((a, b)),
    ensures
        exists|populations: Seq<Seq<G>>, steps: Seq<Breeding>|
            #[trigger] is_run_history(
                *fitness,
                *offspring,
                config.survivor_count as int,
                populations,
                steps,
            ) && steps.len() == config.generation_count && populations[0] == population@
                && populations.last() == outcome.population@,
        outcome.population.len() == config.population_size,
        outcome.scores.len() == config.population_size,
        forall|i: int|
            0 <= i < config.population_size ==> fitness.ensures(
                (&outcome.population[i],),
                #[trigger] outcome.scores[i],
            ),
        is_first_best(outcome.scores@, outcome.best as int),
{
    let ghost start = population@;
    let mut population = population;
    let ghost mut populations: Seq<Seq<G>> = seq![start];
    let ghost mut steps: Seq<Breeding> = Seq::empty();
    let mut generation: u64 = 0;
    while generation < config.generation_count
        invariant
            config.valid(),
            population.len() == config.population_size,
            forall|g: &G| fitness.requires((g,)),
            forall|a: &G, b: &G| offspring.requires((a, b)),
            generation <= config.generation_count,
            steps.len() == generation,
            is_run_history(*fitness, *offspring, config.survivor_count as int, populations, steps),
            populations[0] == start,
            populations.last() == population@,
        decreases config.generation_count - generation,
    {
        let step = next_generation(&mut population, config.survivor_count, fitness, offspring);
        proof {
            let old_populations = populations;
            let old_steps = steps;
            populations = populations.push(population@);
            steps = steps.push(step);
            assert forall|g: int| 0 <= g < steps.len() implies is_generation_step(
                *fitness,
                *offspring,
                config.survivor_count as int,
                populations[g],
                #[trigger] steps[g],
                populations[g + 1],
            ) by {
                if g < old_steps.len() {
                    assert(old_steps[g] == steps[g]);
                    assert(populations[g] == old_populations[g]);
                    assert(populations[g + 1] == old_populations[g + 1]);
                }
            }
        }
        generation = generation + 1;
    }
    let scores = evaluate(&population, fitness);
    let best = best_index(&scores);
    RunOutcome { population, scores, best }
}

} // verus!
