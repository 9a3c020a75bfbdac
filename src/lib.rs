//! A Johnny Decimal taxonomy: identifiers, the indentation-coded outline
//! format that describes a system, the tree built from it, and the
//! filesystem actions that materialise it.
use vstd::prelude::*;

pub mod config;
pub mod jid;
pub mod line;
pub mod markdown;
pub mod model;
pub mod notes;
pub mod text;

verus! {

} // verus!
