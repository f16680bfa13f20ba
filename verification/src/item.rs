//! The shared, type-erased metadata every store entry carries, read
//! from its `.metadata` sidecar. The entry's identifier is always the
//! one derived from the sidecar's filename; an identifier embedded in
//! the JSON is ignored. `item_schema_ok` says exactly which sidecar
//! trees are accepted, and `item_matches` says exactly which item a
//! tree yields.

use crate::error::Error;
use crate::ident::{
    canon_chars, lemma_hex_num_bound, lemma_pow16_32_value, is_canonical_uuid, uuid_digits,
    uuid_num, ItemId,
};
use crate::jsonval::{
    bool_field, contents_of, field_of, get_bool, get_str, get_u64, json_get, str_field, u64_field,
    Json,
};
use crate::strutil::str_eq;
use vstd::prelude::*;

verus! {

/// An entry's parent reference. `Root` is a top-level entry, `Trash`
/// a discarded one (written on disk as the word `trash` or as the
/// reserved all-zero identifier), `Folder` a real parent.
#[derive(Debug, Clone, Copy, PartialEq, Eq, Structural)]
pub enum Parent {
    Root,
    Trash,
    Folder(ItemId),
}

/// What a parent field's text means: empty means root, the word
/// `trash` or the all-zero identifier means trash, a canonical
/// identifier names a folder, and anything else is malformed.
pub open spec fn parent_of_chars(s: Seq<char>) -> Option<Parent> {
    if s.len() == 0 {
        Some(Parent::Root)
    } else if s == "trash"@ {
        Some(Parent::Trash)
    } else if is_canonical_uuid(s) {
        if uuid_num(s) == 0 {
            Some(Parent::Trash)
        } else {
            Some(Parent::Folder(ItemId { value: uuid_num(s) as u128 }))
        }
    } else {
        None
    }
}

pub fn parse_parent(s: &str) -> (r: Option<Parent>)
    ensures
        r == parent_of_chars(s@),
{
    let n = s.unicode_len();
    if n == 0 {
        return Some(Parent::Root);
    }
    if str_eq(s, "trash") {
        return Some(Parent::Trash);
    }
    match ItemId::parse_str(s) {
        None => None,
        Some(id) => {
            proof {
                lemma_hex_num_bound(uuid_digits(s@));
                lemma_pow16_32_value();
            }
            if id.is_nil() {
                Some(Parent::Trash)
            } else {
                Some(Parent::Folder(id))
            }
        },
    }
}

/// The parent field is acceptable: present, and either JSON null or a
/// string whose meaning is recognized.
pub open spec fn parent_field_ok(j: Json) -> bool {
    match field_of(j, "parent"@) {
        Some(p) => match p {
            Json::Null => true,
            Json::Text(t) => parent_of_chars(t) is Some,
            _ => false,
        },
        None => false,
    }
}

/// The parent an acceptable parent field denotes.
pub open spec fn spec_parent(j: Json) -> Parent {
    match field_of(j, "parent"@) {
        Some(Json::Text(t)) => match parent_of_chars(t) {
            Some(p) => p,
            None => Parent::Root,
        },
        _ => Parent::Root,
    }
}

/// An optional string field is acceptable: absent, null, or a string.
/// Anything else is malformed, never silently dropped.
pub open spec fn opt_str_field_ok(j: Json, key: Seq<char>) -> bool {
    match field_of(j, key) {
        None => true,
        Some(Json::Null) => true,
        Some(Json::Text(t)) => true,
        Some(_) => false,
    }
}

/// An optional page-number field is acceptable: absent, null, or a
/// non-negative integer no larger than `bound`.
pub open spec fn opt_count_field_ok(j: Json, key: Seq<char>, bound: u64) -> bool {
    match field_of(j, key) {
        None => true,
        Some(Json::Null) => true,
        Some(Json::Num { as_u, as_i }) => (as_u matches Some(p) && p <= bound),
        Some(_) => false,
    }
}

/// The number an acceptable optional page-number field holds.
pub open spec fn opt_count_field(j: Json, key: Seq<char>) -> Option<u64> {
    match field_of(j, key) {
        Some(Json::Num { as_u, as_i }) => as_u,
        _ => None,
    }
}

/// An optional string value against its model: present on both sides
/// with the same characters, or absent on both.
pub open spec fn opt_str_eq(a: Option<String>, b: Option<Seq<char>>) -> bool {
    match (a, b) {
        (Some(s), Some(t)) => s@ == t,
        (None, None) => true,
        _ => false,
    }
}

/// Exactly the metadata sidecar trees this store accepts: every
/// required field present with the right shape, the version a small
/// integer, the parent field recognized, and the optional fields
/// absent, null or well-shaped.
pub open spec fn item_schema_ok(j: Json) -> bool {
    &&& str_field(j, "type"@) is Some
    &&& bool_field(j, "deleted"@) is Some
    &&& str_field(j, "lastModified"@) is Some
    &&& bool_field(j, "metadatamodified"@) is Some
    &&& bool_field(j, "modified"@) is Some
    &&& parent_field_ok(j)
    &&& bool_field(j, "pinned"@) is Some
    &&& bool_field(j, "synced"@) is Some
    &&& (u64_field(j, "version"@) matches Some(x) && x <= 255)
    &&& str_field(j, "visibleName"@) is Some
    &&& opt_str_field_ok(j, "lastOpened"@)
    &&& opt_count_field_ok(j, "lastOpenedPage"@, 65535)
}

/// The item an accepted metadata sidecar tree yields, under the given
/// filename-derived identifier: every field equal to what the sidecar
/// holds.
pub open spec fn item_matches(item: Metadata, id: ItemId, j: Json) -> bool {
    &&& item.id == id
    &&& Some(item.type_@) == str_field(j, "type"@)
    &&& Some(item.deleted) == bool_field(j, "deleted"@)
    &&& Some(item.last_modified@) == str_field(j, "lastModified"@)
    &&& Some(item.metadatamodified) == bool_field(j, "metadatamodified"@)
    &&& Some(item.modified) == bool_field(j, "modified"@)
    &&& item.parent == spec_parent(j)
    &&& Some(item.pinned) == bool_field(j, "pinned"@)
    &&& Some(item.synced) == bool_field(j, "synced"@)
    &&& Some(item.version as u64) == u64_field(j, "version"@)
    &&& Some(item.visible_name@) == str_field(j, "visibleName"@)
    &&& opt_str_eq(item.last_opened, str_field(j, "lastOpened"@))
    &&& (match item.last_opened_page {
        Some(p) => Some(p as u64) == opt_count_field(j, "lastOpenedPage"@),
        None => opt_count_field(j, "lastOpenedPage"@) is None,
    })
}

/// Shared metadata of any store entry. The store's typed variants
/// both carry one of these; `Item` names the same type where an entry
/// is spoken of as a whole.
#[derive(Debug, Clone)]
pub struct Metadata {
    /// Derived from the sidecar's filename, never from file content.
    pub id: ItemId,
    /// The raw discriminant string; `load` dispatches on it.
    pub type_: String,
    pub deleted: bool,
    pub last_modified: String,
    pub metadatamodified: bool,
    pub modified: bool,
    pub parent: Parent,
    pub pinned: bool,
    pub synced: bool,
    pub version: u8,
    pub visible_name: String,
    pub last_opened: Option<String>,
    pub last_opened_page: Option<u16>,
}

pub type Item = Metadata;

impl Metadata {
    /// Fetch one entry by identifier from the text of its metadata
    /// sidecar: the store facade's `by_id`, under the name the
    /// metadata type itself offers.
    pub fn by_id(store: &crate::store::FileSystemStore, id: &str, metadata_text: &str) -> (r:
        Result<Metadata, Error>)
        ensures
            r matches Ok(item) ==> is_canonical_uuid(id@) && item.id.value == uuid_num(id@),
            !is_canonical_uuid(id@) ==> r is Err,
            r is Ok <==> (crate::jsonval::json_of(metadata_text@) matches Some(j)
                && is_canonical_uuid(id@) && item_schema_ok(j)),
            crate::jsonval::json_of(metadata_text@) matches Some(j) ==> ((is_canonical_uuid(id@)
                && item_schema_ok(j)) ==> (r matches Ok(item) && item_matches(
                item,
                (ItemId { value: uuid_num(id@) as u128 }),
                j,
            ))),
    {
        store.by_id(id, metadata_text)
    }

    /// Read this entry's content sidecar as the document schema, from
    /// the text of that sidecar.
    pub fn content(&self, store: &crate::store::FileSystemStore, content_text: &str) -> (r: Result<
        crate::document::Content,
        Error,
    >)
        ensures
            r matches Err(e) ==> (e matches Error::ParseJson { path: p } && p@
                == crate::store::content_path_chars(store.path@, canon_chars(self.id.value))),
            r is Ok <==> (crate::jsonval::json_of(content_text@) matches Some(j)
                && crate::document::document_schema_ok(j)),
            crate::jsonval::json_of(content_text@) matches Some(j) ==> (
            crate::document::document_schema_ok(j) ==> (r matches Ok(c)
                && crate::document::document_content_matches(c, j))),
    {
        let canonical = self.id.to_canonical();
        let path = store.content_path(canonical.as_str());
        let v = match crate::jsonval::parse_json(content_text) {
            None => { return Err(Error::json_at(path.as_str())); },
            Some(v) => v,
        };
        crate::document::document_content_from_json(&v, path.as_str())
    }

    /// The one-line rendering of an entry: its name and identifier.
    pub fn display_string(&self) -> (r: String)
        ensures
            r@ == self.visible_name@ + " ("@ + canon_chars(self.id.value) + ")"@,
    {
        let mut s = String::from_str(self.visible_name.as_str());
        s.append(" (");
        let c = self.id.to_canonical();
        s.append(c.as_str());
        s.append(")");
        s
    }
}

/// Read the shared metadata fields from a parsed sidecar, forcing the
/// identifier to the filename-derived one that the caller supplies.
/// Succeeds exactly on the trees `item_schema_ok` accepts, and the
/// returned item's fields are exactly what the sidecar holds; a field
/// of the wrong shape is an error, never a silently substituted
/// default.
pub fn item_from_json(id: ItemId, v: &serde_json::Value, path: &str) -> (r: Result<Metadata, Error>)
    ensures
        r is Ok <==> item_schema_ok(contents_of(*v)),
        r matches Ok(item) ==> item_matches(item, id, contents_of(*v)),
        r matches Err(e) ==> (e matches Error::ParseJson { path: p } && p@ == path@),
{
    let type_ = match get_str(v, "type") {
        None => { return Err(Error::json_at(path)); },
        Some(x) => x,
    };
    let deleted = match get_bool(v, "deleted") {
        None => { return Err(Error::json_at(path)); },
        Some(x) => x,
    };
    let last_modified = match get_str(v, "lastModified") {
        None => { return Err(Error::json_at(path)); },
        Some(x) => x,
    };
    let metadatamodified = match get_bool(v, "metadatamodified") {
        None => { return Err(Error::json_at(path)); },
        Some(x) => x,
    };
    let modified = match get_bool(v, "modified") {
        None => { return Err(Error::json_at(path)); },
        Some(x) => x,
    };
    let parent = match json_get(v, "parent") {
        None => { return Err(Error::json_at(path)); },
        Some(x) => match x.as_null() {
            Some(_) => Parent::Root,
            None => match x.as_str() {
                None => { return Err(Error::json_at(path)); },
                Some(s) => match parse_parent(s) {
                    None => { return Err(Error::json_at(path)); },
                    Some(p) => p,
                },
            },
        },
    };
    let pinned = match get_bool(v, "pinned") {
        None => { return Err(Error::json_at(path)); },
        Some(x) => x,
    };
    let synced = match get_bool(v, "synced") {
        None => { return Err(Error::json_at(path)); },
        Some(x) => x,
    };
    let version_wide = match get_u64(v, "version") {
        None => { return Err(Error::json_at(path)); },
        Some(x) => x,
    };
    if version_wide > 255 {
        return Err(Error::json_at(path));
    }
    let version = version_wide as u8;
    let visible_name = match get_str(v, "visibleName") {
        None => { return Err(Error::json_at(path)); },
        Some(x) => x,
    };
    let last_opened = match json_get(v, "lastOpened") {
        None => None,
        Some(x) => match x.as_null() {
            Some(_) => None,
            None => match x.as_str() {
                None => { return Err(Error::json_at(path)); },
                Some(s) => Some(String::from_str(s)),
            },
        },
    };
    let last_opened_page = match json_get(v, "lastOpenedPage") {
        None => None,
        Some(x) => match x.as_null() {
            Some(_) => None,
            None => match x.as_u64() {
                None => { return Err(Error::json_at(path)); },
                Some(p) => {
                    if p <= 65535 {
                        Some(p as u16)
                    } else {
                        return Err(Error::json_at(path));
                    }
                },
            },
        },
    };
    Ok(
        Metadata {
            id,
            type_,
            deleted,
            last_modified,
            metadatamodified,
            modified,
            parent,
            pinned,
            synced,
            version,
            visible_name,
            last_opened,
            last_opened_page,
        },
    )
}

} // verus!
