//! The lazy tabular frame: a deferred columnar computation that commits to no
//! execution engine until it is collected.

pub mod expr;
pub mod lazy;
pub mod ops;
pub mod plan;
pub mod slice;
pub mod table;

pub use self::lazy::{DataFrame, IntoLazyFrame, LazyFrame};
pub use self::slice::{Feature, IntoLazySlice, LazySlice, Number};
