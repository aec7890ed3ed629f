//! Verified record logic for storing technical-analysis indicators, their
//! inputs and indicator sets in a relational database.
//!
//! The database itself is not part of this crate: the functions here compute
//! the rows that are written, rebuild indicators from the rows that are read,
//! and make the random selections that populate indicator sets and runs.
use vstd::prelude::*;

pub mod decimal;
pub mod params;
pub mod db_indicator;
pub mod input_order;
pub mod db_indicator_set;
pub mod loader;
pub mod population;
mod random;
pub mod spread;

verus! {

} // verus!
