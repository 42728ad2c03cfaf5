//! Regular expressions.
//!
//! Patterns are checked by `oxc_regular_expression` and run by `regress`; the
//! contracts of these calls stand in [`matcher`] and [`flags`].

pub mod data;
pub mod exec;
pub mod flags;
pub mod initialize;
pub mod last_index;
pub mod match_result;
pub mod matcher;
