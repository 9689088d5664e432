//! Genetic search for beam cross-sections: the integer side of the search.
//!
//! The structural formulas work on floating-point geometry and live with the
//! caller. This crate holds what is decided on integers and indices: how a
//! design's constraint outcomes and rewards become one fitness score, which
//! members of a population survive, how a generation is bred and replaced,
//! which runs a search spawns, and how their reports reduce to one winner.

mod material;
mod fitness;
mod selection;
mod engine;
mod search;

pub use material::{Material, material_label};
pub use fitness::{Assessment, PENALTY, REWARD_LIMIT, infeasible_ranks_below_feasible};
pub use selection::{select_survivors, best_index, is_top_selection, is_first_best};
pub use engine::{
    EngineConfig, Breeding, RunOutcome, evaluate, draw_parents, breed, next_generation, run,
    is_generation_step, is_run_history,
};
pub use search::{
    Topology, RunSpec, RunReport, FanInError, run_plan, pick_winner,
    winner_score_ignores_arrival_order,
};
