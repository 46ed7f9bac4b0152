//! Verified core of a multi-timeframe trading strategy toolkit: timeframes,
//! strategy syntax trees, constraints, validation, timestamp alignment and
//! trade statistics.

use vstd::prelude::*;

pub mod text;
pub mod doubles;
pub mod timeframe;
pub mod order;
pub mod nodes;
pub mod constraints;
pub mod builder;
pub mod validator;
pub mod semantic;
pub mod alignment;
pub mod synchronizer;
pub mod cache;
pub mod context;
pub mod statistics;
pub mod engine;
pub mod export;
pub mod dataset;

verus! {

} // verus!
