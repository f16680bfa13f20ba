//! The closed set of failure modes of the store. Every failing call
//! returns one of these values; the store itself never prints and never
//! substitutes defaults for malformed data.

use crate::ident::ItemId;
use vstd::prelude::*;

verus! {

#[derive(Debug, Clone, PartialEq, Eq)]
pub enum Error {
    /// A page index at or past the end of a document's page list.
    InvalidPage { page: usize, id: ItemId },
    /// A file could not be read; the path is attached.
    ReadFile { path: String },
    /// A file could not be written; the path is attached.
    WriteFile { path: String },
    /// A sidecar file is not valid JSON or does not match the expected
    /// schema; the path is attached.
    ParseJson { path: String },
    /// The store root directory could not be listed.
    ReadStore { path: String },
    /// A binary page file was rejected by the page decoder.
    ParseLines { path: String },
    /// A filename-derived identifier is not in canonical form.
    InvalidUuid,
    /// A metadata discriminant that is neither of the two recognized
    /// values.
    InvalidItemType { id: String, type_: String },
}

impl Error {
    /// The `ParseJson` error for the sidecar at `path`.
    pub fn json_at(path: &str) -> (r: Error)
        ensures
            (r matches Error::ParseJson { path: p } && p@ == path@),
    {
        Error::ParseJson { path: String::from_str(path) }
    }
}

} // verus!
