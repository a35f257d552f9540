//! A set of integers kept as sorted, disjoint, non-adjacent closed
//! intervals, merged as values are inserted.
//!
//! [`Ranger`] holds the set; [`Value`] is what its elements must be: a
//! bounded integer type with saturating subtraction. The set's contents
//! are modelled as a sequence of integer intervals (see [`model`]), which
//! every operation keeps in canonical form.
use vstd::prelude::*;

pub mod model;
pub mod ranger;
pub mod text;
mod unit;
pub mod value;

pub use ranger::Ranger;
pub use value::Value;

verus! {

} // verus!
