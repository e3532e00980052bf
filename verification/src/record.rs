//! References to stored records.

use vstd::prelude::*;

verus! {

/// A reference to a stored record: the table it lives in and its key there.
#[derive(Debug, PartialEq)]
pub struct RecordRef {
    pub table: String,
    pub key: String,
}

/// The mathematical value of a [`RecordRef`].
pub struct RecordRefView {
    pub table: Seq<char>,
    pub key: Seq<char>,
}

impl View for RecordRef {
    type V = RecordRefView;

    open spec fn view(&self) -> RecordRefView {
        RecordRefView { table: self.table@, key: self.key@ }
    }
}

impl Clone for RecordRef {
    fn clone(&self) -> (r: Self)
        ensures
            r == *self,
    {
        RecordRef { table: self.table.clone(), key: self.key.clone() }
    }
}

impl RecordRef {
    /// A reference to the record with the given key in the given table.
    pub fn new(table: &str, key: &str) -> (r: Self)
        ensures
            r@ == (RecordRefView { table: table@, key: key@ }),
    {
        RecordRef { table: table.to_owned(), key: key.to_owned() }
    }

    /// Whether two references name the same record.
    pub fn same(&self, other: &RecordRef) -> (b: bool)
        ensures
            b == (self@ == other@),
    {
        self.table == other.table && self.key == other.key
    }
}

/// A stored record, known by its reference alone.
#[derive(Debug, PartialEq)]
pub struct Record {
    pub id: RecordRef,
}

impl View for Record {
    type V = RecordRefView;

    open spec fn view(&self) -> RecordRefView {
        self.id@
    }
}

} // verus!
