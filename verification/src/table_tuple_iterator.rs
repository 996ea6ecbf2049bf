use crate::table_iterator::TableIterator;
use vstd::prelude::*;

verus! {

/// The walk over all tuples of a table that are not deleted.
pub type TableTupleIterator = TableIterator;

} // verus!
