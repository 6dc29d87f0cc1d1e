//! Verified core of an evolutionary foraging simulation.
//!
//! A population of agents moves on a bounded, wraparound 2D plane. Each agent
//! perceives nearby food through a discretized angular sensor (`eye`), decides
//! its next turn and speed with a small feed-forward network (`network`,
//! `brain`), and is scored by the food it collects. At each generation
//! boundary a genetic algorithm (`ga`, `selection`, `crossover`, `mutation`)
//! evolves the population, treating each network's weights as a chromosome.
//!
//! All real-valued quantities are held in a saturating fixed-point encoding
//! with six decimal places (see `fixed`), so every arithmetic step has an
//! exact integer meaning that the contracts state and Verus proves.

pub mod animal;
pub mod animal_individual;
pub mod brain;
pub mod chromosome;
pub mod crossover;
pub mod eye;
pub mod fixed;
pub mod mutation;
pub mod network;
pub mod pos;
pub mod config;
pub mod food;
pub mod ga;
pub mod individual;
pub mod rng;
pub mod selection;
pub mod simulation;
pub mod statistics;
pub mod trig;
pub mod world;

pub use fixed::UNIT;
pub use fixed::VAL_MAX;
