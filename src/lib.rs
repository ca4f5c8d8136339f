//! Producers of consecutive `u64` values and their wrap-around sum.
//!
//! Three producers enumerate a run of consecutive numbers: one with an
//! exclusive end, one with an inclusive end, and one that picks either form
//! once, when it is built, so that any inclusive run can be enumerated
//! without overflow. `calc` folds whatever a producer yields with
//! wrap-on-overflow addition.

pub mod laws;
pub mod producer;
pub mod sum;

pub use producer::{DynamicInclusiveRange, ExclusiveRange, InclusiveRange, Producer};
