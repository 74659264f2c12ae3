//! Verified core logic of a perpetual-futures clearing house, a tokenized
//! options protocol, an options pricing module and a time weighted average
//! price helper.
pub mod arith;
pub mod clearing_house;
pub mod options_pricing;
pub mod origin;
pub mod swap_bytes;
pub mod tokenized_options;
pub mod twap;

use vstd::prelude::*;

verus! {

} // verus!
