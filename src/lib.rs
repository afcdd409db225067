//! Fuzzy lookup of game files under ordered search roots, and the decisions
//! of a batch renderer whose queue an operator can extend mid-run.
pub mod alias_map;
pub mod autoload;
pub mod cmd;
pub mod engine;
pub mod error;
pub mod job;
pub mod pwads;
pub mod scheduler;
pub mod score;
pub mod search;
pub mod text;
