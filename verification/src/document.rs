//! A document: a leaf entry with an ordered list of pages. The
//! `.content` sidecar carries the full document schema;
//! `document_schema_ok` says exactly which sidecar trees are accepted
//! and `document_content_matches` exactly which content they yield.
//! Each page is a binary file, decoded outside this crate, whose
//! decoded pages are assembled here in page-list order.

use crate::error::Error;
use crate::ident::{canon_chars, is_canonical_uuid, uuid_num, ItemId};
use crate::item::{opt_count_field, opt_count_field_ok, Item};
use crate::jsonval::{
    arr_field, bool_field, contents_of, field_of, get_bool, get_i64, get_i64_list, get_str,
    get_str_list, get_u64, i64_field, i64_list_field, json_get, str_field, str_list_field,
    u64_field, Json,
};
use crate::store::FileSystemStore;
use vstd::prelude::*;

verus! {

/// Content payload of a document's `.content` sidecar. The `pages`
/// list is authoritative: its order defines document page numbering,
/// 0-based.
#[derive(Debug, Clone)]
pub struct Content {
    pub cover_page_number: isize,
    pub dummy_document: bool,
    pub font_name: String,
    pub format_version: usize,
    /// Drives the rendering choice, not structural typing.
    pub file_type: String,
    pub last_opened_page: Option<usize>,
    pub line_height: i32,
    pub margins: usize,
    pub orientation: String,
    pub original_page_count: i32,
    pub page_count: usize,
    pub pages: Vec<ItemId>,
    pub redirection_page_map: Vec<isize>,
    pub size_in_bytes: String,
    pub tags: Vec<String>,
    pub text_alignment: String,
    pub text_scale: usize,
}

#[derive(Debug, Clone)]
pub struct Document {
    pub metadata: Item,
    pub content: Content,
}

/// The rendering kinds a document's `file_type` selects among.
#[derive(Debug)]
pub enum DocumentType {
    Notebook(Notebook),
    Pdf(Pdf),
    Epub(Epub),
}

#[derive(Debug)]
pub struct Notebook {}

#[derive(Debug)]
pub struct Pdf {}

#[derive(Debug)]
pub struct Epub {}

fn u64_to_usize(x: u64) -> (r: Option<usize>)
    ensures
        r is Some <==> x <= usize::MAX,
        r matches Some(y) ==> y == x,
{
    if x <= usize::MAX as u64 {
        Some(x as usize)
    } else {
        None
    }
}

fn i64_to_isize(x: i64) -> (r: Option<isize>)
    ensures
        r is Some <==> isize::MIN <= x <= isize::MAX,
        r matches Some(y) ==> y == x,
{
    if isize::MIN as i64 <= x && x <= isize::MAX as i64 {
        Some(x as isize)
    } else {
        None
    }
}

fn i64_to_i32(x: i64) -> (r: Option<i32>)
    ensures
        r is Some <==> i32::MIN <= x <= i32::MAX,
        r matches Some(y) ==> y == x,
{
    if i32::MIN as i64 <= x && x <= i32::MAX as i64 {
        Some(x as i32)
    } else {
        None
    }
}

/// The `pages` field holds an array of strings, each a canonical
/// identifier.
pub open spec fn pages_field_ok(j: Json) -> bool {
    str_list_field(j, "pages"@) matches Some(xs) && (forall|k: int|
        0 <= k < xs.len() ==> is_canonical_uuid(#[trigger] xs[k]))
}

/// The parsed page list against its model: one identifier per string,
/// in order.
pub open spec fn pages_match(ids: Seq<ItemId>, j: Json) -> bool {
    str_list_field(j, "pages"@) matches Some(xs) && ids.len() == xs.len() && (forall|k: int|
        0 <= k < xs.len() ==> (#[trigger] ids[k]).value == uuid_num(xs[k]))
}

/// Exactly the document content sidecar trees this store accepts:
/// every field of the schema present with the right shape and range,
/// every page identifier canonical.
pub open spec fn document_schema_ok(j: Json) -> bool {
    &&& (i64_field(j, "coverPageNumber"@) matches Some(x) && isize::MIN <= x <= isize::MAX)
    &&& field_of(j, "documentMetadata"@) is Some
    &&& bool_field(j, "dummyDocument"@) is Some
    &&& field_of(j, "extraMetadata"@) is Some
    &&& str_field(j, "fontName"@) is Some
    &&& (u64_field(j, "formatVersion"@) matches Some(x) && x <= usize::MAX)
    &&& str_field(j, "fileType"@) is Some
    &&& opt_count_field_ok(j, "lastOpenedPage"@, usize::MAX as u64)
    &&& (i64_field(j, "lineHeight"@) matches Some(x) && i32::MIN <= x <= i32::MAX)
    &&& (u64_field(j, "margins"@) matches Some(x) && x <= usize::MAX)
    &&& str_field(j, "orientation"@) is Some
    &&& (i64_field(j, "originalPageCount"@) matches Some(x) && i32::MIN <= x <= i32::MAX)
    &&& (u64_field(j, "pageCount"@) matches Some(x) && x <= usize::MAX)
    &&& pages_field_ok(j)
    &&& arr_field(j, "pageTags"@) is Some
    &&& (match field_of(j, "redirectionPageMap"@) {
        None => true,
        Some(_) => (i64_list_field(j, "redirectionPageMap"@) matches Some(xs) && (forall|k: int|
            0 <= k < xs.len() ==> isize::MIN <= #[trigger] xs[k] <= isize::MAX)),
    })
    &&& str_field(j, "sizeInBytes"@) is Some
    &&& str_list_field(j, "tags"@) is Some
    &&& str_field(j, "textAlignment"@) is Some
    &&& (u64_field(j, "textScale"@) matches Some(x) && x <= usize::MAX)
}

/// The content an accepted document sidecar tree yields: every field
/// equal to what the sidecar holds.
pub open spec fn document_content_matches(c: Content, j: Json) -> bool {
    &&& Some(c.cover_page_number as i64) == i64_field(j, "coverPageNumber"@)
    &&& Some(c.dummy_document) == bool_field(j, "dummyDocument"@)
    &&& Some(c.font_name@) == str_field(j, "fontName"@)
    &&& Some(c.format_version as u64) == u64_field(j, "formatVersion"@)
    &&& Some(c.file_type@) == str_field(j, "fileType"@)
    &&& (match c.last_opened_page {
        Some(p) => Some(p as u64) == opt_count_field(j, "lastOpenedPage"@),
        None => opt_count_field(j, "lastOpenedPage"@) is None,
    })
    &&& Some(c.line_height as i64) == i64_field(j, "lineHeight"@)
    &&& Some(c.margins as u64) == u64_field(j, "margins"@)
    &&& Some(c.orientation@) == str_field(j, "orientation"@)
    &&& Some(c.original_page_count as i64) == i64_field(j, "originalPageCount"@)
    &&& Some(c.page_count as u64) == u64_field(j, "pageCount"@)
    &&& pages_match(c.pages@, j)
    &&& (match field_of(j, "redirectionPageMap"@) {
        None => c.redirection_page_map@ == Seq::<isize>::empty(),
        Some(_) => Some(c.redirection_page_map@.map_values(|x: isize| x as i64)) == i64_list_field(
            j,
            "redirectionPageMap"@,
        ),
    })
    &&& Some(c.size_in_bytes@) == str_field(j, "sizeInBytes"@)
    &&& Some(c.tags@.map_values(|s: String| s@)) == str_list_field(j, "tags"@)
    &&& Some(c.text_alignment@) == str_field(j, "textAlignment"@)
    &&& Some(c.text_scale as u64) == u64_field(j, "textScale"@)
}

/// The ordered page identifiers under `pages`, each in canonical form.
fn pages_from_json(v: &serde_json::Value, path: &str) -> (r: Result<Vec<ItemId>, Error>)
    ensures
        r is Ok <==> pages_field_ok(contents_of(*v)),
        r matches Ok(ids) ==> pages_match(ids@, contents_of(*v)),
        r matches Err(e) ==> (e matches Error::ParseJson { path: p } && p@ == path@),
{
    let names = match get_str_list(v, "pages") {
        None => { return Err(Error::json_at(path)); },
        Some(x) => x,
    };
    let ghost xs = str_list_field(contents_of(*v), "pages"@)->Some_0;
    proof {
        assert(names@.map_values(|s: String| s@) == xs);
    }
    let mut out: Vec<ItemId> = Vec::new();
    let n = names.len();
    let mut i: usize = 0;
    while i < n
        invariant
            str_list_field(contents_of(*v), "pages"@) == Some(xs),
            n == names@.len(),
            names@.map_values(|s: String| s@) == xs,
            n == xs.len(),
            i <= n,
            out@.len() == i,
            forall|k: int| 0 <= k < i ==> is_canonical_uuid(#[trigger] xs[k]),
            forall|k: int| 0 <= k < i ==> (#[trigger] out@[k]).value == uuid_num(xs[k]),
        decreases n - i,
    {
        proof {
            assert(xs[i as int] == names@[i as int]@);
        }
        match ItemId::parse_str(names[i].as_str()) {
            None => {
                proof {
                    let j = contents_of(*v);
                    if pages_field_ok(j) {
                        let xs2 = str_list_field(j, "pages"@)->Some_0;
                        assert(xs2 == xs);
                        assert(is_canonical_uuid(xs2[i as int]));
                        assert(false);
                    }
                }
                return Err(Error::json_at(path));
            },
            Some(id) => out.push(id),
        }
        i = i + 1;
    }
    Ok(out)
}

/// Read a document's content payload from its parsed `.content`
/// sidecar. Succeeds exactly on the trees `document_schema_ok`
/// accepts, with every field equal to what the sidecar holds; a field
/// of the wrong shape or range is an error, never a silently
/// substituted default.
pub fn document_content_from_json(v: &serde_json::Value, path: &str) -> (r: Result<Content, Error>)
    ensures
        r is Ok <==> document_schema_ok(contents_of(*v)),
        r matches Ok(c) ==> document_content_matches(c, contents_of(*v)),
        r matches Err(e) ==> (e matches Error::ParseJson { path: p } && p@ == path@),
{
    let cover_page_number = match get_i64(v, "coverPageNumber") {
        None => { return Err(Error::json_at(path)); },
        Some(x) => match i64_to_isize(x) {
            None => { return Err(Error::json_at(path)); },
            Some(y) => y,
        },
    };
    if json_get(v, "documentMetadata").is_none() {
        return Err(Error::json_at(path));
    }
    let dummy_document = match get_bool(v, "dummyDocument") {
        None => { return Err(Error::json_at(path)); },
        Some(x) => x,
    };
    if json_get(v, "extraMetadata").is_none() {
        return Err(Error::json_at(path));
    }
    let font_name = match get_str(v, "fontName") {
        None => { return Err(Error::json_at(path)); },
        Some(x) => x,
    };
    let format_version = match get_u64(v, "formatVersion") {
        None => { return Err(Error::json_at(path)); },
        Some(x) => match u64_to_usize(x) {
            None => { return Err(Error::json_at(path)); },
            Some(y) => y,
        },
    };
    let file_type = match get_str(v, "fileType") {
        None => { return Err(Error::json_at(path)); },
        Some(x) => x,
    };
    let last_opened_page = match json_get(v, "lastOpenedPage") {
        None => None,
        Some(x) => match x.as_null() {
            Some(_) => None,
            None => match x.as_u64() {
                None => { return Err(Error::json_at(path)); },
                Some(p) => match u64_to_usize(p) {
                    None => { return Err(Error::json_at(path)); },
                    Some(y) => Some(y),
                },
            },
        },
    };
    let line_height = match get_i64(v, "lineHeight") {
        None => { return Err(Error::json_at(path)); },
        Some(x) => match i64_to_i32(x) {
            None => { return Err(Error::json_at(path)); },
            Some(y) => y,
        },
    };
    let margins = match get_u64(v, "margins") {
        None => { return Err(Error::json_at(path)); },
        Some(x) => match u64_to_usize(x) {
            None => { return Err(Error::json_at(path)); },
            Some(y) => y,
        },
    };
    let orientation = match get_str(v, "orientation") {
        None => { return Err(Error::json_at(path)); },
        Some(x) => x,
    };
    let original_page_count = match get_i64(v, "originalPageCount") {
        None => { return Err(Error::json_at(path)); },
        Some(x) => match i64_to_i32(x) {
            None => { return Err(Error::json_at(path)); },
            Some(y) => y,
        },
    };
    let page_count = match get_u64(v, "pageCount") {
        None => { return Err(Error::json_at(path)); },
        Some(x) => match u64_to_usize(x) {
            None => { return Err(Error::json_at(path)); },
            Some(y) => y,
        },
    };
    let pages = match pages_from_json(v, path) {
        Err(e) => { return Err(e); },
        Ok(x) => x,
    };
    let page_tags_present = match json_get(v, "pageTags") {
        None => false,
        Some(x) => x.as_array().is_some(),
    };
    if !page_tags_present {
        return Err(Error::json_at(path));
    }
    let redirection_page_map = match json_get(v, "redirectionPageMap") {
        None => Vec::new(),
        Some(_) => match get_i64_list(v, "redirectionPageMap") {
            None => { return Err(Error::json_at(path)); },
            Some(xs) => {
                let ghost model = i64_list_field(contents_of(*v), "redirectionPageMap"@)->Some_0;
                proof {
                    assert(xs@ == model);
                }
                let mut out: Vec<isize> = Vec::new();
                let n = xs.len();
                let mut i: usize = 0;
                while i < n
                    invariant
                        field_of(contents_of(*v), "redirectionPageMap"@) is Some,
                        i64_list_field(contents_of(*v), "redirectionPageMap"@) == Some(xs@),
                        n == xs@.len(),
                        i <= n,
                        out@.len() == i,
                        forall|k: int| 0 <= k < i ==> isize::MIN <= #[trigger] xs@[k] <= isize::MAX,
                        forall|k: int| 0 <= k < i ==> #[trigger] out@[k] as i64 == xs@[k],
                    decreases n - i,
                {
                    match i64_to_isize(xs[i]) {
                        None => {
                            proof {
                                let j = contents_of(*v);
                                if document_schema_ok(j) {
                                    let m = i64_list_field(j, "redirectionPageMap"@)->Some_0;
                                    assert(m == xs@);
                                    assert(isize::MIN <= m[i as int] <= isize::MAX);
                                    assert(false);
                                }
                            }
                            return Err(Error::json_at(path));
                        },
                        Some(y) => out.push(y),
                    }
                    i = i + 1;
                }
                proof {
                    assert(out@.map_values(|x: isize| x as i64) =~= xs@);
                }
                out
            },
        },
    };
    let size_in_bytes = match get_str(v, "sizeInBytes") {
        None => { return Err(Error::json_at(path)); },
        Some(x) => x,
    };
    let tags = match get_str_list(v, "tags") {
        None => { return Err(Error::json_at(path)); },
        Some(x) => x,
    };
    let text_alignment = match get_str(v, "textAlignment") {
        None => { return Err(Error::json_at(path)); },
        Some(x) => x,
    };
    let text_scale = match get_u64(v, "textScale") {
        None => { return Err(Error::json_at(path)); },
        Some(x) => match u64_to_usize(x) {
            None => { return Err(Error::json_at(path)); },
            Some(y) => y,
        },
    };
    Ok(
        Content {
            cover_page_number,
            dummy_document,
            font_name,
            format_version,
            file_type,
            last_opened_page,
            line_height,
            margins,
            orientation,
            original_page_count,
            page_count,
            pages,
            redirection_page_map,
            size_in_bytes,
            tags,
            text_alignment,
            text_scale,
        },
    )
}

/// All page sequences of `batches`, joined in order.
pub open spec fn concat_all<T>(batches: Seq<Seq<T>>) -> Seq<T>
    decreases batches.len(),
{
    if batches.len() == 0 {
        Seq::empty()
    } else {
        batches.first() + concat_all(batches.drop_first())
    }
}

/// A document whose page files each decode to exactly one logical page
/// assembles to exactly as many pages as its page list names: the page
/// count round-trips through decoding.
pub proof fn lemma_one_page_per_file_count<T>(batches: Seq<Seq<T>>)
    requires
        forall|i: int| 0 <= i < batches.len() ==> #[trigger] batches[i].len() == 1,
    ensures
        concat_all(batches).len() == batches.len(),
    decreases batches.len(),
{
    if batches.len() > 0 {
        assert(batches.first().len() == 1);
        assert forall|i: int| 0 <= i < batches.drop_first().len() implies #[trigger] batches
            .drop_first()[i].len() == 1 by {
            assert(batches.drop_first()[i] == batches[i + 1]);
        }
        lemma_one_page_per_file_count(batches.drop_first());
    }
}

impl Document {
    /// The one-line rendering of a document: its kind, name and
    /// identifier.
    pub fn display_string(&self) -> (r: String)
        ensures
            r@ == self.content.file_type@ + ": "@ + self.metadata.visible_name@ + " #"@
                + canon_chars(self.metadata.id.value),
    {
        let mut s = String::from_str(self.content.file_type.as_str());
        s.append(": ");
        s.append(self.metadata.visible_name.as_str());
        s.append(" #");
        let c = self.metadata.id.to_canonical();
        s.append(c.as_str());
        s
    }

    /// Assemble the document's drawable pages from the per-file decoder
    /// output, one entry per identifier in `content.pages`, in that
    /// order. An entry of `None` means the decoder rejected that page
    /// file; the first such failure aborts the whole assembly and
    /// surfaces the failing page file's path. No partial result is ever
    /// returned.
    pub fn pages<T>(&self, store: &FileSystemStore, decoded: Vec<Option<Vec<T>>>) -> (r: Result<
        Vec<T>,
        Error,
    >)
        requires
            decoded@.len() == self.content.pages@.len(),
        ensures
            (forall|i: int| 0 <= i < decoded@.len() ==> #[trigger] decoded@[i] is Some) ==> (
            r matches Ok(pages) && pages@ == concat_all(
                decoded@.map_values(|d: Option<Vec<T>>| d->Some_0@),
            )),
            r matches Err(e) ==> (e matches Error::ParseLines { path: p } && exists|i: int|
                0 <= i < decoded@.len() && #[trigger] decoded@[i] is None && (forall|j: int|
                    0 <= j < i ==> #[trigger] decoded@[j] is Some) && p@
                    == crate::store::page_path_chars(
                    store.path@,
                    self.metadata.id,
                    self.content.pages@[i],
                )),
            r is Err <==> exists|i: int| 0 <= i < decoded@.len() && #[trigger] decoded@[i] is None,
    {
        let ghost orig = decoded@;
        let ghost views = decoded@.map_values(|d: Option<Vec<T>>| d->Some_0@);
        let mut out: Vec<T> = Vec::new();
        let mut rest = decoded;
        let mut k: usize = 0;
        let n = rest.len();
        proof {
            assert(rest@ =~= orig.skip(0));
            assert(views.skip(0) =~= views);
            assert(out@ + concat_all(views) =~= concat_all(views));
        }
        while k < n
            invariant
                orig == decoded@,
                views == decoded@.map_values(|d: Option<Vec<T>>| d->Some_0@),
                n == orig.len(),
                n == self.content.pages@.len(),
                k <= n,
                rest@ == orig.skip(k as int),
                views == orig.map_values(|d: Option<Vec<T>>| d->Some_0@),
                forall|j: int| 0 <= j < k ==> #[trigger] orig[j] is Some,
                out@ + concat_all(views.skip(k as int)) == concat_all(views),
            decreases n - k,
        {
            let d = rest.remove(0);
            proof {
                assert(d == orig[k as int]);
                assert(rest@ =~= orig.skip(k as int + 1));
            }
            match d {
                None => {
                    let p = store.page_path(&self.metadata.id, &self.content.pages[k]);
                    proof {
                        assert(decoded@[k as int] is None);
                        assert(forall|j: int| 0 <= j < k ==> #[trigger] decoded@[j] is Some);
                    }
                    return Err(Error::ParseLines { path: p });
                },
                Some(mut b) => {
                    proof {
                        assert(views.skip(k as int).first() == b@);
                        assert(views.skip(k as int).drop_first() =~= views.skip(k as int + 1));
                    }
                    out.append(&mut b);
                },
            }
            k = k + 1;
        }
        proof {
            assert(views.skip(n as int) =~= Seq::<Seq<T>>::empty());
            assert(out@ + Seq::<T>::empty() =~= out@);
        }
        Ok(out)
    }

    /// Pick the page at `page` of the assembled list; 0-based. Fails
    /// with `InvalidPage` exactly when the index is at or past the end
    /// of the list, and succeeds for every index before it.
    pub fn select_page<'a, T>(&self, pages: &'a Vec<T>, page: usize) -> (r: Result<&'a T, Error>)
        ensures
            r is Ok <==> page < pages@.len(),
            r matches Ok(p) ==> *p == pages@[page as int],
            page >= pages@.len() ==> r == Err::<&'a T, Error>(
                Error::InvalidPage { page, id: self.metadata.id },
            ),
    {
        if page < pages.len() {
            Ok(&pages[page])
        } else {
            Err(Error::InvalidPage { page, id: self.metadata.id })
        }
    }

    /// Whether the assembled page count agrees with the sidecar's
    /// stored `page_count`. The assembled count is authoritative for
    /// indexing; a mismatch means the stored field is stale.
    pub fn page_count_matches<T>(&self, pages: &Vec<T>) -> (r: bool)
        ensures
            r == (pages@.len() == self.content.page_count),
    {
        pages.len() == self.content.page_count
    }
}

} // verus!
