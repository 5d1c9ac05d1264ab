//! Cost estimation for industrial assets against a versioned cost reference
//! library.
//!
//! The library decides everything about an estimate that is not arithmetic:
//! which reference item each requested cost item resolves to, whether the
//! request supplies every parameter that item's formulas read, which
//! currency rate and inflation factor apply, which numbers each formula
//! reads, which years of an asset's life carry which costs, and how the
//! errors of many items and assets combine into one. The numbers themselves
//! stay with the caller, at the positions that the returned plans name.

pub mod api;
pub mod combinators;
pub mod cost_calculator;
pub mod error;
pub mod estimate;
pub mod library;
pub mod linked_cost_item;
pub mod request;
pub mod timeline;
