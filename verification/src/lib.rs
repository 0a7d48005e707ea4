//! Polyminis core: the creature body plan (morphology) built from genome
//! chromosomes, its traits, sensors and actuators, the serialization of these
//! values into a JSON value model, and the integer rules of the simulation:
//! which statistics fitness is scored from, how brains are reshaped, how
//! overlapping bodies are pushed apart, and how epochs are counted.

pub mod types;
pub mod json;
pub mod serialization;
pub mod sensors;
pub mod actuators;
pub mod instincts;
pub mod traits;
pub mod assoc;
pub mod coord_map;
pub mod placement;
pub mod morphology;
pub mod genetics;
pub mod species;
pub mod evaluation;
pub mod collision;
pub mod control;
pub mod stats;
pub mod epoch;
