use beam_search::{breed, draw_parents, evaluate, next_generation, run, EngineConfig};

/// A one-parameter design whose best width is 30.
#[derive(Clone, Copy, Debug, PartialEq)]
struct Bar {
    width: f64,
}

const STEP: f64 = 0.4;

impl Bar {
    fn fitness(&self) -> i64 {
        -((self.width - 30.0).abs() * 1000.0) as i64
    }

    fn crossover(&self, other: &Bar) -> Bar {
        Bar { width: (self.width + other.width) / 2.0 }
    }

    fn mutate(&self) -> Bar {
        Bar { width: self.width + (rand::random::<f64>() - 0.5) * STEP }
    }
}

/// A design whose breeding is fully determined, to watch who bred whom.
#[derive(Clone, Copy, Debug, PartialEq)]
struct Tally {
    value: i64,
}

impl Tally {
    fn fitness(&self) -> i64 {
        self.value
    }

    fn crossover(&self, other: &Tally) -> Tally {
        Tally { value: self.value + other.value }
    }

    fn mutate(&self) -> Tally {
        Tally { value: self.value + 1 }
    }
}

fn bar_fitness(b: &Bar) -> i64 {
    b.fitness()
}

fn bar_offspring(a: &Bar, b: &Bar) -> Bar {
    a.crossover(b).mutate()
}

fn tally_fitness(t: &Tally) -> i64 {
    t.fitness()
}

fn tally_offspring(a: &Tally, b: &Tally) -> Tally {
    a.crossover(b).mutate()
}

fn tallies(values: &[i64]) -> Vec<Tally> {
    values.iter().map(|&value| Tally { value }).collect()
}

#[test]
fn evaluate_scores_each_member() {
    assert_eq!(evaluate(&tallies(&[4, -2, 9]), &tally_fitness), vec![4, -2, 9]);
    assert!(evaluate(&Vec::<Tally>::new(), &tally_fitness).is_empty());
}

#[test]
fn breed_crosses_then_mutates_the_named_parents() {
    let population = tallies(&[1, 10, 100]);
    let children = breed(&population, &vec![(0, 1), (2, 2), (1, 0)], &tally_offspring);
    assert_eq!(children, tallies(&[12, 201, 12]));
}

#[test]
fn parents_come_from_the_survivors() {
    let pairs = draw_parents(&vec![5], 10);
    assert_eq!(pairs, vec![(5, 5); 10]);
    let pairs = draw_parents(&vec![1, 4], 50);
    assert_eq!(pairs.len(), 50);
    assert!(pairs.iter().all(|&(a, b)| (a == 1 || a == 4) && (b == 1 || b == 4)));
    assert!(draw_parents(&vec![3], 0).is_empty());
}

#[test]
fn generation_keeps_population_size() {
    let mut population = tallies(&[3, 1, 4, 1, 5, 9, 2, 6]);
    for _ in 0..20 {
        let step = next_generation(&mut population, 3, &tally_fitness, &tally_offspring);
        assert_eq!(population.len(), 8);
        assert_eq!(step.scores.len(), 8);
        assert_eq!(step.parents.len(), 8);
        assert_eq!(step.survivors.len(), 3);
    }
}

#[test]
fn generation_breeds_only_from_the_best() {
    let mut population = tallies(&[3, 1, 4, 1, 5, 9, 2, 6]);
    let step = next_generation(&mut population, 2, &tally_fitness, &tally_offspring);
    assert_eq!(step.scores, vec![3, 1, 4, 1, 5, 9, 2, 6]);
    assert_eq!(step.survivors, vec![5, 7]);
    for (k, &(a, b)) in step.parents.iter().enumerate() {
        assert!(a == 5 || a == 7);
        assert!(b == 5 || b == 7);
        let expected = step.scores[a] + step.scores[b] + 1;
        assert_eq!(population[k].value, expected);
    }
}

#[test]
fn identical_population_stays_close_after_one_generation() {
    let parent = Bar { width: 30.0 };
    let mut population = vec![parent; 100];
    next_generation(&mut population, 10, &bar_fitness, &bar_offspring);
    assert_eq!(population.len(), 100);
    let parent_fitness = parent.fitness();
    for child in &population {
        assert!((child.width - parent.width).abs() <= STEP / 2.0);
        assert!((child.fitness() - parent_fitness).abs() <= (STEP / 2.0 * 1000.0) as i64 + 1);
    }
}

#[test]
fn run_returns_best_of_final_generation() {
    let config = EngineConfig { population_size: 40, survivor_count: 8, generation_count: 30 };
    let population: Vec<Bar> = (0..40).map(|i| Bar { width: 22.0 + 0.4 * i as f64 }).collect();
    let outcome = run(population, &config, &bar_fitness, &bar_offspring);
    assert_eq!(outcome.population.len(), 40);
    assert_eq!(outcome.scores.len(), 40);
    let best = outcome.scores[outcome.best];
    assert!(outcome.scores.iter().all(|&s| s <= best));
    assert_eq!(outcome.population[outcome.best].fitness(), best);
}

#[test]
fn run_without_generations_scores_the_start() {
    let config = EngineConfig { population_size: 3, survivor_count: 1, generation_count: 0 };
    let outcome = run(tallies(&[7, 9, 9]), &config, &tally_fitness, &tally_offspring);
    assert_eq!(outcome.population, tallies(&[7, 9, 9]));
    assert_eq!(outcome.scores, vec![7, 9, 9]);
    assert_eq!(outcome.best, 1);
}
