//! A collection: a folder-like entry grouping other entries. Its
//! content sidecar carries only tags.

use crate::error::Error;
use crate::ident::canon_chars;
use crate::item::Item;
use crate::jsonval::{contents_of, get_str_list, str_list_field, Json};
use vstd::prelude::*;

verus! {

/// Content payload of a collection's `.content` sidecar.
#[derive(Debug, Clone)]
pub struct Content {
    pub tags: Vec<String>,
}

#[derive(Debug, Clone)]
pub struct Collection {
    pub metadata: Item,
    pub content: Content,
}

impl Collection {
    /// The one-line rendering of a collection.
    pub fn display_string(&self) -> (r: String)
        ensures
            r@ == "collection: "@ + self.metadata.visible_name@ + " #"@ + canon_chars(
                self.metadata.id.value,
            ),
    {
        let mut s = String::from_str("collection: ");
        s.append(self.metadata.visible_name.as_str());
        s.append(" #");
        let c = self.metadata.id.to_canonical();
        s.append(c.as_str());
        s
    }
}

/// Exactly the collection content sidecar trees this store accepts:
/// an object holding an array of strings under `tags`.
pub open spec fn collection_schema_ok(j: Json) -> bool {
    str_list_field(j, "tags"@) is Some
}

/// The content an accepted collection sidecar tree yields: the tags it
/// holds, in order.
pub open spec fn collection_content_matches(c: Content, j: Json) -> bool {
    Some(c.tags@.map_values(|s: String| s@)) == str_list_field(j, "tags"@)
}

/// Read a collection's content payload from its parsed `.content`
/// sidecar. Succeeds exactly on the trees `collection_schema_ok`
/// accepts, the tags taken from the sidecar.
pub fn collection_content_from_json(v: &serde_json::Value, path: &str) -> (r: Result<
    Content,
    Error,
>)
    ensures
        r is Ok <==> collection_schema_ok(contents_of(*v)),
        r matches Ok(c) ==> collection_content_matches(c, contents_of(*v)),
        r matches Err(e) ==> (e matches Error::ParseJson { path: p } && p@ == path@),
{
    match get_str_list(v, "tags") {
        None => Err(Error::json_at(path)),
        Some(tags) => Ok(Content { tags }),
    }
}

} // verus!
