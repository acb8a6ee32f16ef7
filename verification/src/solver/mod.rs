//! The solver: a minimum-cost flow over a graph, under the capacities of its
//! edges and nodes and the supplies of its nodes.

pub mod flow;
pub mod network;
pub mod reading;
pub mod search;
pub mod solve;

pub use self::solve::NetworkSolver;
