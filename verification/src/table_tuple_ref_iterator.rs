use crate::error::Error;
use crate::record_id::RecordId;
use crate::table_page::{readable, slot_of, tuple_bytes, tuple_count_of, TablePageRef};
use crate::tuple::TupleRef;
use vstd::prelude::*;

verus! {

/// Walks the slots of one table page and hands out each tuple where it lies
/// in the page, without copying it.
pub struct TableTupleIterator<'a> {
    page: &'a TablePageRef<'a>,
    current_slot: u16,
}

impl<'a> TableTupleIterator<'a> {
    /// The page that the iterator walks.
    pub closed spec fn page(&self) -> TablePageRef<'a> {
        *self.page
    }

    /// The slot that the iterator hands out next.
    pub closed spec fn spec_current_slot(&self) -> u16 {
        self.current_slot
    }

    pub fn new(page: &'a TablePageRef<'a>) -> (iter: TableTupleIterator<'a>)
        ensures
            iter.page() == *page,
            iter.current_slot() == 0,
    {
        TableTupleIterator { page, current_slot: 0 }
    }

    #[verifier::when_used_as_spec(spec_current_slot)]
    pub fn current_slot(&self) -> (slot: u16)
        ensures
            slot == self.spec_current_slot(),
    {
        self.current_slot
    }

    /// The tuple of the current slot, deleted or not; `None` past the last
    /// slot.
    pub fn next(&mut self) -> (r: Option<Result<TupleRef<'a>, Error>>)
        ensures
            final(self).page() == old(self).page(),
            old(self).current_slot() >= tuple_count_of(old(self).page().bytes()) ==> {
                &&& r is None
                &&& final(self).current_slot() == old(self).current_slot()
            },
            old(self).current_slot() < tuple_count_of(old(self).page().bytes()) ==> {
                &&& final(self).current_slot() == old(self).current_slot() + 1
                &&& r matches Some(found)
                &&& match found {
                    Ok(tuple) => {
                        &&& readable(old(self).page().bytes(), old(self).current_slot() as int)
                        &&& tuple.spec_metadata() == slot_of(
                            old(self).page().bytes(),
                            old(self).current_slot() as int,
                        ).metadata
                        &&& tuple@ == tuple_bytes(
                            old(self).page().bytes(),
                            old(self).current_slot() as int,
                        )
                    },
                    Err(Error::OutOfBounds) => !readable(
                        old(self).page().bytes(),
                        old(self).current_slot() as int,
                    ),
                    Err(_) => false,
                }
            },
    {
        if self.current_slot >= self.page.tuple_count() {
            return None;
        }
        let rid = RecordId::new(self.page.page_id(), self.current_slot);
        let tuple_ref = self.page.get_tuple_ref(&rid);
        self.current_slot = self.current_slot + 1;
        Some(tuple_ref)
    }
}

} // verus!
