//! A journal of job applications: the record of one application, its
//! calendar dates, its textual forms, and the rules by which records
//! travel to and from a table of stored rows.

use vstd::prelude::*;

pub mod text;
pub mod date;
pub mod record;
pub mod list;
pub mod row;
pub mod store;

verus! {

/// The sum of two sizes.
pub fn add(left: usize, right: usize) -> (sum: usize)
    requires
        left + right <= usize::MAX,
    ensures
        sum == left + right,
{
    left + right
}

} // verus!
