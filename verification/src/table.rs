//! The table-identifier collaborator.

use vstd::prelude::*;

use crate::common::opt_bytes_view;

verus! {

/// A reference to a table, optionally under an alias.
#[derive(Clone, Debug, PartialEq, Eq, Hash)]
pub struct Table {
    pub name: Vec<u8>,
    pub alias: Option<Vec<u8>>,
}

/// Mathematical model of a table reference.
#[verifier::ext_equal]
pub struct TableV {
    pub name: Seq<u8>,
    pub alias: Option<Seq<u8>>,
}

impl View for Table {
    type V = TableV;

    open spec fn view(&self) -> TableV {
        TableV { name: self.name@, alias: opt_bytes_view(self.alias) }
    }
}

impl Table {
    /// A table reference with the given name and no alias.
    pub fn named(name: Vec<u8>) -> (r: Table)
        ensures
            r@ == (TableV { name: name@, alias: None }),
    {
        Table { name, alias: None }
    }
}

} // verus!
