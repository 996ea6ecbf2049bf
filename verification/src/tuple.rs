use crate::table_page::TupleMetadata;
use vstd::prelude::*;

verus! {

/// An owned tuple: the bytes of one record.
pub struct Tuple {
    data: Vec<u8>,
}

impl View for Tuple {
    type V = Seq<u8>;

    closed spec fn view(&self) -> Seq<u8> {
        self.data@
    }
}

impl Tuple {
    pub fn new(data: Vec<u8>) -> (tuple: Tuple)
        ensures
            tuple@ == data@,
    {
        Tuple { data }
    }

    pub fn tuple_size(&self) -> (size: usize)
        ensures
            size == self@.len(),
    {
        self.data.len()
    }

    pub fn data(&self) -> (data: &Vec<u8>)
        ensures
            data@ == self@,
    {
        &self.data
    }

    pub fn data_mut(&mut self) -> (data: &mut Vec<u8>)
        ensures
            data@ == old(self)@,
            final(self)@ == final(data)@,
    {
        &mut self.data
    }
}

/// A borrowed tuple: bytes that still lie in their page, with their metadata.
pub struct TupleRef<'a> {
    metadata: TupleMetadata,
    data: &'a [u8],
}

impl<'a> View for TupleRef<'a> {
    type V = Seq<u8>;

    closed spec fn view(&self) -> Seq<u8> {
        self.data@
    }
}

impl<'a> TupleRef<'a> {
    pub closed spec fn spec_metadata(&self) -> TupleMetadata {
        self.metadata
    }

    pub fn new(data: &'a [u8], metadata: TupleMetadata) -> (tuple: TupleRef<'a>)
        ensures
            tuple@ == data@,
            tuple.spec_metadata() == metadata,
    {
        TupleRef { metadata, data }
    }

    pub fn data(&self) -> (data: &[u8])
        ensures
            data@ == self@,
    {
        self.data
    }

    pub fn metadata(&self) -> (metadata: TupleMetadata)
        ensures
            metadata == self.spec_metadata(),
    {
        self.metadata
    }
}

} // verus!
