//! Model storages, the bindings of models to them, and the decisions of the
//! controllers that reconcile them.

pub mod binding;
pub mod claim;
pub mod storage;
