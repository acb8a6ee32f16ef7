//! Graph-based resource planning: a lazy tabular frame, a content-addressed
//! graph data model, a scoped graph store, and the analyzer, solver and runner
//! stages that turn a stored graph into an executed flow assignment.
//!
//! A graph goes through the stages in one direction: the [`analyzer`] refines
//! a raw graph and a declared problem, the [`solver`] finds a minimum-cost
//! flow over the refined graph, and the [`runner`] simulates the solved graph
//! and records it in the [`store`]. A stage that fails leaves the store as it
//! was.
//!
//! Beside the pipeline stand the model storages and their controllers
//! ([`dash`]), the storages of a messaging pipe ([`pipe`]), and the jobs that
//! provision machines ([`provision`]).

pub mod analyzer;
pub mod dash;
pub mod digest;
pub mod error;
pub mod frame;
pub mod graph;
pub mod hex;
pub mod json;
pub mod pipe;
pub mod pipeline;
pub mod problem;
pub mod provision;
pub mod runner;
pub mod solver;
pub mod store;
pub mod text;
