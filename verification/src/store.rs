//! The store facade: enumerate entries, fetch one by identifier or
//! sidecar path, and load an entry into its typed variant. The store
//! itself performs no disk access: the caller lists the root directory
//! and reads sidecar files, and hands filenames and file contents in as
//! plain values; every decision taken on them is made, and verified,
//! here.

use crate::collection::{
    collection_content_from_json, collection_content_matches, collection_schema_ok, Collection,
};
use crate::document::{
    document_content_from_json, document_content_matches, document_schema_ok, Document,
};
use crate::error::Error;
use crate::ident::{canon_chars, is_canonical_uuid, is_hex_digit, is_hyphen_pos, uuid_num, ItemId};
use crate::item::{item_from_json, item_matches, item_schema_ok, Item};
use crate::jsonval::{json_of, parse_json, str_field};
use crate::strutil::{concat_str, has_suffix, join_path, joined, stem_of, str_eq};
use vstd::prelude::*;

verus! {

/// The sum type a successful `load` produces: exactly one of the two
/// variants, each carrying the full typed payload.
#[derive(Debug)]
pub enum ItemType {
    Collection(Box<Collection>),
    Document(Box<Document>),
}

/// A handle on one store root directory. The root is an explicit
/// configuration value; the store holds no other state.
#[derive(Debug, Clone)]
pub struct FileSystemStore {
    pub path: String,
}

pub open spec fn metadata_path_chars(root: Seq<char>, id: Seq<char>) -> Seq<char> {
    joined(root, id + ".metadata"@)
}

pub open spec fn content_path_chars(root: Seq<char>, id: Seq<char>) -> Seq<char> {
    joined(root, id + ".content"@)
}

pub open spec fn page_path_chars(root: Seq<char>, doc_id: ItemId, page_id: ItemId) -> Seq<char> {
    joined(root, canon_chars(doc_id.value) + seq!['/'] + canon_chars(page_id.value) + ".rm"@)
}

/// A well-formed metadata sidecar: valid JSON whose tree the item
/// schema accepts.
pub open spec fn wf_item_sidecar(t: Seq<char>) -> bool {
    json_of(t) matches Some(j) && item_schema_ok(j)
}

impl FileSystemStore {
    /// A store over an explicit root directory.
    pub fn new(path: String) -> (r: FileSystemStore)
        ensures
            r.path == path,
    {
        FileSystemStore { path }
    }

    /// The path of the metadata sidecar of the entry named `id`.
    pub fn metadata_path(&self, id: &str) -> (r: String)
        ensures
            r@ == metadata_path_chars(self.path@, id@),
    {
        let name = concat_str(id, ".metadata");
        join_path(self.path.as_str(), name.as_str())
    }

    /// The path of the content sidecar of the entry named `id`.
    pub fn content_path(&self, id: &str) -> (r: String)
        ensures
            r@ == content_path_chars(self.path@, id@),
    {
        let name = concat_str(id, ".content");
        join_path(self.path.as_str(), name.as_str())
    }

    /// The path of one binary page file of a document.
    pub fn page_path(&self, doc_id: &ItemId, page_id: &ItemId) -> (r: String)
        ensures
            r@ == page_path_chars(self.path@, *doc_id, *page_id),
    {
        let mut name = doc_id.to_canonical();
        name.append("/");
        let pc = page_id.to_canonical();
        name.append(pc.as_str());
        name.append(".rm");
        proof {
            reveal_strlit("/");
            assert(name@ =~= canon_chars(doc_id.value) + seq!['/'] + canon_chars(page_id.value)
                + ".rm"@);
        }
        join_path(self.path.as_str(), name.as_str())
    }

    /// The sidecar filenames among a root directory listing: exactly
    /// those ending in `.metadata`, in listing order. Every other
    /// filename is deliberately skipped, never an error.
    pub fn metadata_files(&self, listing: &Vec<String>) -> (r: Vec<String>)
        ensures
            r@ == listing@.filter(|s: String| has_suffix(s@, ".metadata"@)),
    {
        let ghost pred = |s: String| has_suffix(s@, ".metadata"@);
        let mut out: Vec<String> = Vec::new();
        let n = listing.len();
        let mut i: usize = 0;
        proof {
            reveal(Seq::filter);
            assert(listing@.subrange(0, 0) =~= Seq::<String>::empty());
        }
        while i < n
            invariant
                n == listing@.len(),
                i <= n,
                out@ == listing@.subrange(0, i as int).filter(pred),
                pred == (|s: String| has_suffix(s@, ".metadata"@)),
            decreases n - i,
        {
            proof {
                reveal(Seq::filter);
                assert(listing@.subrange(0, i as int + 1).drop_last() =~= listing@.subrange(
                    0,
                    i as int,
                ));
                assert(listing@.subrange(0, i as int + 1).last() == listing@[i as int]);
            }
            if str_has_suffix_string(&listing[i]) {
                out.push(listing[i].clone());
            }
            i = i + 1;
        }
        proof {
            assert(listing@.subrange(0, n as int) =~= listing@);
        }
        out
    }

    /// Read one entry from the text of its metadata sidecar, the
    /// identifier taken from the sidecar's path: the filename between
    /// the last slash and the last dot must be a canonical identifier,
    /// whatever the sidecar's JSON may claim.
    pub fn by_path(&self, path: &str, metadata_text: &str) -> (r: Result<Item, Error>)
        ensures
            r matches Ok(item) ==> is_canonical_uuid(stem_of(path@)) && item.id.value == uuid_num(
                stem_of(path@),
            ),
            !is_canonical_uuid(stem_of(path@)) ==> r is Err,
            r matches Err(e) ==> (e == Error::InvalidUuid || (e matches Error::ParseJson {
                path: p,
            } && p@ == path@)),
            r is Ok <==> (json_of(metadata_text@) matches Some(j) && is_canonical_uuid(
                stem_of(path@),
            ) && item_schema_ok(j)),
            json_of(metadata_text@) is None ==> (r matches Err(e) && e matches Error::ParseJson {
                path: p,
            } && p@ == path@),
            json_of(metadata_text@) matches Some(j) ==> (!is_canonical_uuid(stem_of(path@)) ==> r
                == Err::<Item, Error>(Error::InvalidUuid)),
            json_of(metadata_text@) matches Some(j) ==> ((is_canonical_uuid(stem_of(path@))
                && !item_schema_ok(j)) ==> (r matches Err(e) && e matches Error::ParseJson {
                path: p,
            } && p@ == path@)),
            json_of(metadata_text@) matches Some(j) ==> ((is_canonical_uuid(stem_of(path@))
                && item_schema_ok(j)) ==> (r matches Ok(item) && item_matches(
                item,
                (ItemId { value: uuid_num(stem_of(path@)) as u128 }),
                j,
            ))),
    {
        let v = match parse_json(metadata_text) {
            None => { return Err(Error::json_at(path)); },
            Some(v) => v,
        };
        let stem = crate::strutil::file_stem(path);
        let id = match ItemId::parse_str(stem) {
            None => { return Err(Error::InvalidUuid); },
            Some(id) => id,
        };
        item_from_json(id, &v, path)
    }

    /// Read one entry from the text of its metadata sidecar, fetched by
    /// identifier: the given identifier must itself be canonical, and
    /// the returned item carries it, whatever the sidecar's JSON may
    /// claim.
    pub fn by_id(&self, id: &str, metadata_text: &str) -> (r: Result<Item, Error>)
        ensures
            r matches Ok(item) ==> is_canonical_uuid(id@) && item.id.value == uuid_num(id@),
            !is_canonical_uuid(id@) ==> r is Err,
            r matches Err(e) ==> (e == Error::InvalidUuid || (e matches Error::ParseJson {
                path: p,
            } && p@ == metadata_path_chars(self.path@, id@))),
            r is Ok <==> (json_of(metadata_text@) matches Some(j) && is_canonical_uuid(id@)
                && item_schema_ok(j)),
            json_of(metadata_text@) is None ==> (r matches Err(e) && e matches Error::ParseJson {
                path: p,
            } && p@ == metadata_path_chars(self.path@, id@)),
            json_of(metadata_text@) matches Some(j) ==> (!is_canonical_uuid(id@) ==> r == Err::<
                Item,
                Error,
            >(Error::InvalidUuid)),
            json_of(metadata_text@) matches Some(j) ==> ((is_canonical_uuid(id@)
                && !item_schema_ok(j)) ==> (r matches Err(e) && e matches Error::ParseJson {
                path: p,
            } && p@ == metadata_path_chars(self.path@, id@))),
            json_of(metadata_text@) matches Some(j) ==> ((is_canonical_uuid(id@)
                && item_schema_ok(j)) ==> (r matches Ok(item) && item_matches(
                item,
                (ItemId { value: uuid_num(id@) as u128 }),
                j,
            ))),
    {
        let path = self.metadata_path(id);
        let v = match parse_json(metadata_text) {
            None => { return Err(Error::json_at(path.as_str())); },
            Some(v) => v,
        };
        let parsed = match ItemId::parse_str(id) {
            None => { return Err(Error::InvalidUuid); },
            Some(x) => x,
        };
        item_from_json(parsed, &v, path.as_str())
    }

    /// Read every entry of the store from the sidecar filenames and
    /// their contents, in order: one item per sidecar. The first
    /// failing sidecar aborts the whole enumeration.
    pub fn all(&self, names: &Vec<String>, texts: &Vec<String>) -> (r: Result<Vec<Item>, Error>)
        requires
            names@.len() == texts@.len(),
        ensures
            r matches Ok(items) ==> {
                &&& items@.len() == names@.len()
                &&& forall|i: int|
                    0 <= i < names@.len() ==> is_canonical_uuid(stem_of(#[trigger] names@[i]@))
                        && (#[trigger] items@[i]).id.value == uuid_num(stem_of(names@[i]@))
            },
            r matches Ok(items) ==> (forall|i: int|
                0 <= i < names@.len() ==> (json_of((#[trigger] texts@[i])@) matches Some(j)
                    && item_schema_ok(j) && item_matches(
                    items@[i],
                    (ItemId { value: uuid_num(stem_of(names@[i]@)) as u128 }),
                    j,
                ))),
            (forall|i: int|
                0 <= i < names@.len() ==> is_canonical_uuid(stem_of((#[trigger] names@[i])@))
                    && wf_item_sidecar((#[trigger] texts@[i])@)) ==> r is Ok,
            r matches Err(e) ==> (e == Error::InvalidUuid || (e matches Error::ParseJson {
                path: p,
            } && exists|i: int| 0 <= i < names@.len() && p@ == (#[trigger] names@[i])@)),
    {
        let mut out: Vec<Item> = Vec::new();
        let n = names.len();
        let mut i: usize = 0;
        while i < n
            invariant
                n == names@.len(),
                n == texts@.len(),
                i <= n,
                out@.len() == i,
                forall|j: int|
                    0 <= j < i ==> is_canonical_uuid(stem_of(#[trigger] names@[j]@)) && (
                    #[trigger] out@[j]).id.value == uuid_num(stem_of(names@[j]@)),
                forall|j: int|
                    0 <= j < i ==> (json_of((#[trigger] texts@[j])@) matches Some(jj)
                        && item_schema_ok(jj) && item_matches(
                        out@[j],
                        (ItemId { value: uuid_num(stem_of(names@[j]@)) as u128 }),
                        jj,
                    )),
            decreases n - i,
        {
            match self.by_path(names[i].as_str(), texts[i].as_str()) {
                Err(e) => {
                    proof {
                        if forall|k: int|
                            0 <= k < names@.len() ==> is_canonical_uuid(
                                stem_of((#[trigger] names@[k])@),
                            ) && wf_item_sidecar((#[trigger] texts@[k])@) {
                            assert(is_canonical_uuid(stem_of((names@[i as int])@)));
                            assert(wf_item_sidecar((texts@[i as int])@));
                            assert(false);
                        }
                        match &e {
                            Error::ParseJson { path: p } => {
                                assert(p@ == (names@[i as int])@);
                                assert(0 <= (i as int) < names@.len());
                            },
                            _ => {},
                        }
                    }
                    return Err(e);
                },
                Ok(item) => {
                    proof {
                        assert(json_of((texts@[i as int])@) matches Some(jj) && item_schema_ok(jj)
                            && item_matches(
                            item,
                            (ItemId { value: uuid_num(stem_of(names@[i as int]@)) as u128 }),
                            jj,
                        ));
                    }
                    out.push(item);
                },
            }
            i = i + 1;
        }
        Ok(out)
    }

    /// Load the entry named `id` into its typed variant, given the
    /// texts of its two sidecars. The metadata's discriminant alone
    /// selects the variant: `CollectionType` always yields a
    /// collection, `DocumentType` always yields a document, and any
    /// other value fails with `InvalidItemType`, never a fallback.
    pub fn load(&self, id: &str, metadata_text: &str, content_text: &str) -> (r: Result<
        ItemType,
        Error,
    >)
        ensures
            r matches Ok(t) ==> is_canonical_uuid(id@),
            r matches Ok(t) ==> match t {
                ItemType::Collection(c) => c.metadata.type_@ == "CollectionType"@
                    && c.metadata.id.value == uuid_num(id@),
                ItemType::Document(d) => d.metadata.type_@ == "DocumentType"@
                    && d.metadata.id.value == uuid_num(id@),
            },
            !is_canonical_uuid(id@) ==> r is Err,
            r matches Err(e) ==> (e matches Error::InvalidItemType { id: eid, type_: t } ==> (
            eid@ == id@ && !(t@ == "CollectionType"@) && !(t@ == "DocumentType"@))),
            r matches Err(e) ==> (e is InvalidUuid || e is ParseJson || e is InvalidItemType),
            r matches Err(e) ==> (e matches Error::ParseJson { path: p } ==> (p@
                == metadata_path_chars(self.path@, id@) || p@ == content_path_chars(
                self.path@,
                id@,
            ))),
            r is Ok <==> (json_of(metadata_text@) matches Some(mj) && is_canonical_uuid(id@)
                && item_schema_ok(mj) && ((json_of(content_text@) matches Some(cj) && str_field(
                mj,
                "type"@,
            ) == Some("CollectionType"@) && collection_schema_ok(cj)) || (json_of(content_text@)
                matches Some(cj2) && str_field(mj, "type"@) == Some("DocumentType"@)
                && document_schema_ok(cj2)))),
            json_of(metadata_text@) is None ==> (r matches Err(e) && e matches Error::ParseJson {
                path: p,
            } && p@ == metadata_path_chars(self.path@, id@)),
            json_of(metadata_text@) matches Some(mj) ==> (!is_canonical_uuid(id@) ==> r == Err::<
                ItemType,
                Error,
            >(Error::InvalidUuid)),
            json_of(metadata_text@) matches Some(mj) ==> ((is_canonical_uuid(id@)
                && !item_schema_ok(mj)) ==> (r matches Err(e) && e matches Error::ParseJson {
                path: p,
            } && p@ == metadata_path_chars(self.path@, id@))),
            json_of(metadata_text@) matches Some(mj) ==> ((is_canonical_uuid(id@)
                && item_schema_ok(mj) && str_field(mj, "type"@) != Some("CollectionType"@)
                && str_field(mj, "type"@) != Some("DocumentType"@)) ==> (r matches Err(e) && (
            e matches Error::InvalidItemType { id: eid, type_: t } && eid@ == id@ && Some(t@)
                == str_field(mj, "type"@)))),
            json_of(metadata_text@) matches Some(mj) ==> ((is_canonical_uuid(id@)
                && item_schema_ok(mj) && str_field(mj, "type"@) == Some("CollectionType"@)) ==> (
            match json_of(content_text@) {
                None => (r matches Err(e) && e matches Error::ParseJson { path: p } && p@
                    == content_path_chars(self.path@, id@)),
                Some(cj) => {
                    if collection_schema_ok(cj) {
                        r matches Ok(t) && t matches ItemType::Collection(c) && item_matches(
                            c.metadata,
                            (ItemId { value: uuid_num(id@) as u128 }),
                            mj,
                        ) && collection_content_matches(c.content, cj)
                    } else {
                        r matches Err(e) && e matches Error::ParseJson { path: p } && p@
                            == content_path_chars(self.path@, id@)
                    }
                },
            })),
            json_of(metadata_text@) matches Some(mj) ==> ((is_canonical_uuid(id@)
                && item_schema_ok(mj) && str_field(mj, "type"@) == Some("DocumentType"@)) ==> (
            match json_of(content_text@) {
                None => (r matches Err(e) && e matches Error::ParseJson { path: p } && p@
                    == content_path_chars(self.path@, id@)),
                Some(cj) => {
                    if document_schema_ok(cj) {
                        r matches Ok(t) && t matches ItemType::Document(d) && item_matches(
                            d.metadata,
                            (ItemId { value: uuid_num(id@) as u128 }),
                            mj,
                        ) && document_content_matches(d.content, cj)
                    } else {
                        r matches Err(e) && e matches Error::ParseJson { path: p } && p@
                            == content_path_chars(self.path@, id@)
                    }
                },
            })),
    {
        proof {
            reveal_strlit("CollectionType");
            reveal_strlit("DocumentType");
            broadcast use vstd::string::group_string_axioms;

            assert("CollectionType"@.len() == 14);
            assert("DocumentType"@.len() == 12);
            assert("CollectionType"@ != "DocumentType"@);
        }
        let metadata = match self.by_id(id, metadata_text) {
            Err(e) => { return Err(e); },
            Ok(m) => m,
        };
        let path = self.content_path(id);
        if str_eq(metadata.type_.as_str(), "CollectionType") {
            let v = match parse_json(content_text) {
                None => { return Err(Error::json_at(path.as_str())); },
                Some(v) => v,
            };
            let content = match collection_content_from_json(&v, path.as_str()) {
                Err(e) => { return Err(e); },
                Ok(c) => c,
            };
            Ok(ItemType::Collection(Box::new(Collection { metadata, content })))
        } else if str_eq(metadata.type_.as_str(), "DocumentType") {
            let v = match parse_json(content_text) {
                None => { return Err(Error::json_at(path.as_str())); },
                Some(v) => v,
            };
            let content = match document_content_from_json(&v, path.as_str()) {
                Err(e) => { return Err(e); },
                Ok(c) => c,
            };
            Ok(ItemType::Document(Box::new(Document { metadata, content })))
        } else {
            Err(
                Error::InvalidItemType {
                    id: String::from_str(id),
                    type_: metadata.type_,
                },
            )
        }
    }
}

/// What the sidecar filter admits, stated of any listing and of what
/// `metadata_files` returns for it: every filename the store
/// enumerates ends in `.metadata`, and every entry of the listing that
/// ends in `.metadata` is enumerated; files of any other extension
/// never appear.
pub proof fn lemma_metadata_files_exact(listing: Seq<String>, names: Seq<String>)
    requires
        names == listing.filter(|s: String| has_suffix(s@, ".metadata"@)),
    ensures
        forall|k: int| 0 <= k < names.len() ==> has_suffix((#[trigger] names[k])@, ".metadata"@),
        forall|i: int|
            0 <= i < listing.len() && has_suffix((#[trigger] listing[i])@, ".metadata"@)
                ==> names.contains(listing[i]),
{
    let pred = |s: String| has_suffix(s@, ".metadata"@);
    assert forall|k: int| 0 <= k < names.len() implies has_suffix(
        (#[trigger] names[k])@,
        ".metadata"@,
    ) by {
        listing.lemma_filter_pred(pred, k);
    }
    assert forall|i: int|
        0 <= i < listing.len() && has_suffix((#[trigger] listing[i])@, ".metadata"@) implies names
        .contains(listing[i]) by {
        listing.lemma_filter_contains(pred, i);
    }
}

/// The two ways of reaching an entry agree: the filename stem of the
/// metadata sidecar path built from a canonical identifier is that
/// identifier itself, whatever the root. Fetching by identifier and
/// reading the sidecar at the built path therefore derive the same
/// identifier.
#[verifier::rlimit(30)]
pub proof fn lemma_metadata_path_stem(root: Seq<char>, id: Seq<char>)
    requires
        is_canonical_uuid(id),
    ensures
        stem_of(metadata_path_chars(root, id)) == id,
{
    reveal_strlit(".metadata");
    let ext = ".metadata"@;
    let pre: Seq<char> = if root.len() > 0 && root.last() == '/' {
        root
    } else {
        root + seq!['/']
    };
    let p = metadata_path_chars(root, id);
    assert(p =~= pre + id + ext);
    let n = pre.len() as int;
    crate::strutil::lemma_last_pos_of(p, '/');
    assert(p[n - 1] == '/');
    assert forall|j: int| n <= j < p.len() implies #[trigger] p[j] != '/' by {
        if j < n + 36 {
            assert(p[j] == id[j - n]);
            if is_hyphen_pos(j - n) {
            } else {
                assert(is_hex_digit(id[j - n]));
            }
        } else {
            assert(p[j] == ext[j - n - 36]);
        }
    }
    let lp = crate::strutil::last_pos_of(p, '/');
    assert(lp == n - 1);
    let b = p.subrange(lp + 1, p.len() as int);
    assert(b =~= id + ext);
    crate::strutil::lemma_last_pos_of(b, '.');
    assert(b[36] == '.');
    assert forall|j: int| 36 < j < b.len() implies #[trigger] b[j] != '.' by {
        assert(b[j] == ext[j - 36]);
    }
    let ld = crate::strutil::last_pos_of(b, '.');
    assert(ld == 36);
    assert(b.subrange(0, 36) =~= id);
}

/// Whether a filename is a metadata sidecar's.
fn str_has_suffix_string(s: &String) -> (r: bool)
    ensures
        r == has_suffix(s@, ".metadata"@),
{
    crate::strutil::str_has_suffix(s.as_str(), ".metadata")
}

} // verus!
