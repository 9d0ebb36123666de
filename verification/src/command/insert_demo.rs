//! The `insert-demo` command, which fills the tables with sample data.

use vstd::prelude::*;

verus! {

/// Insert demo data into the database.
#[derive(Debug, Copy, Clone, PartialEq, Eq, Structural)]
pub struct InsertDemo {}

} // verus!
