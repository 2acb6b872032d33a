//! A settlement simulation engine: workers are matched against work orders
//! under building and material constraints, progressed tick by tick, trained,
//! and occasionally resolved through stochastic duels.

pub mod assign;
pub mod combat;
pub mod defs;
pub mod entities;
pub mod game;
pub mod rng;
pub mod text;
