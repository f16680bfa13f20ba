use unremarkable_notes::document::Document;
use unremarkable_notes::error::Error;
use unremarkable_notes::ident::ItemId;
use unremarkable_notes::item::{parse_parent, Metadata, Parent};
use unremarkable_notes::store::{FileSystemStore, ItemType};

const DOC_ID: &str = "7063a1a0-26e6-4941-aa0e-b8786aaf28bd";
const COLL_ID: &str = "c9ce9bcb-61a1-4c54-9209-c2a1f1e04ee1";
const PAGE_ID_A: &str = "11111111-2222-4333-8444-555555555555";
const PAGE_ID_B: &str = "66666666-7777-4888-9999-aaaaaaaaaaaa";

const DOC_META: &str = r#"{"type": "DocumentType", "deleted": false, "lastModified": "1633191210000", "metadatamodified": false, "modified": false, "parent": "", "pinned": false, "synced": true, "version": 2, "visibleName": "The Rust Programming Language"}"#;

const DOC_CONTENT: &str = r#"{"coverPageNumber": -1, "documentMetadata": {}, "dummyDocument": false, "extraMetadata": {}, "fontName": "", "formatVersion": 1, "fileType": "epub", "lineHeight": -1, "margins": 100, "orientation": "portrait", "originalPageCount": 1, "pageCount": 2, "pages": ["11111111-2222-4333-8444-555555555555", "66666666-7777-4888-9999-aaaaaaaaaaaa"], "pageTags": [], "sizeInBytes": "12345", "tags": [], "textAlignment": "justify", "textScale": 1}"#;

const COLL_META: &str = r#"{"type": "CollectionType", "deleted": false, "lastModified": "1633191210001", "metadatamodified": false, "modified": false, "parent": "trash", "pinned": true, "synced": false, "version": 1, "visibleName": "Books"}"#;

const COLL_CONTENT: &str = r#"{"tags": ["work"]}"#;

fn store() -> FileSystemStore {
    FileSystemStore::new(String::from("/store"))
}

fn load_doc() -> Document {
    match store().load(DOC_ID, DOC_META, DOC_CONTENT).unwrap() {
        ItemType::Document(d) => *d,
        ItemType::Collection(_) => panic!("expected a document"),
    }
}

#[test]
fn it_can_list_and_parse_all_notebooks() {
    let store = store();
    let listing = vec![
        format!("{}.metadata", DOC_ID),
        format!("{}.content", DOC_ID),
        format!("{}.metadata", COLL_ID),
        format!("{}.thumbnails", DOC_ID),
    ];
    let names = store.metadata_files(&listing);
    let texts = vec![String::from(DOC_META), String::from(COLL_META)];
    let items = store.all(&names, &texts).unwrap();
    assert!(items.len() > 0);
    for item in items {
        let id = item.id.to_canonical();
        let (meta, content) = if id == DOC_ID {
            (DOC_META, DOC_CONTENT)
        } else {
            (COLL_META, COLL_CONTENT)
        };
        match store.load(id.as_str(), meta, content).unwrap() {
            ItemType::Collection(c) => println!("as collection: {:?}", c),
            ItemType::Document(d) => println!("as document: {:?}", d),
        }
    }
}

#[test]
fn it_fails_on_nonexistant_notebooks() {
    let id = "non-existant";
    let store = store();
    let file = store.by_id(id, DOC_META);
    assert!(file.is_err())
}

#[test]
fn it_can_parse_epubs() {
    let id = "7063a1a0-26e6-4941-aa0e-b8786aaf28bd";
    let store = store();
    let item = store.by_id(id, DOC_META).unwrap();
    assert_eq!(
        item.id.value,
        uuid::Uuid::parse_str(id)
            .expect("Could not parse test id")
            .as_u128()
    );
    assert_eq!(item.visible_name, "The Rust Programming Language");
}

#[test]
fn filename_wins_over_embedded_id() {
    // The sidecar claims another identifier; the filename is
    // authoritative.
    let meta = r#"{"id": "ffffffff-ffff-ffff-ffff-ffffffffffff", "type": "DocumentType", "deleted": false, "lastModified": "0", "metadatamodified": false, "modified": false, "parent": "", "pinned": false, "synced": true, "version": 1, "visibleName": "x"}"#;
    let path = format!("/store/{}.metadata", DOC_ID);
    let item = store().by_path(path.as_str(), meta).unwrap();
    assert_eq!(item.id, ItemId::parse_str(DOC_ID).unwrap());
}

#[test]
fn listing_keeps_only_metadata_sidecars() {
    let listing = vec![
        String::from("a.metadata"),
        String::from("a.content"),
        String::from("a.pagedata"),
        String::from("b.metadata"),
        String::from("b.thumbnails"),
        String::from("c.pdf"),
    ];
    let names = store().metadata_files(&listing);
    assert_eq!(names, vec![String::from("a.metadata"), String::from("b.metadata")]);
}

#[test]
fn all_returns_one_item_per_sidecar() {
    let store = store();
    let names = vec![
        format!("{}.metadata", DOC_ID),
        format!("{}.metadata", COLL_ID),
    ];
    let texts = vec![String::from(DOC_META), String::from(COLL_META)];
    let items = store.all(&names, &texts).unwrap();
    assert_eq!(items.len(), 2);
    assert_eq!(items[0].id, ItemId::parse_str(DOC_ID).unwrap());
    assert_eq!(items[1].id, ItemId::parse_str(COLL_ID).unwrap());
}

#[test]
fn load_collection_discriminant() {
    match store().load(COLL_ID, COLL_META, COLL_CONTENT).unwrap() {
        ItemType::Collection(c) => {
            assert_eq!(c.metadata.type_, "CollectionType");
            assert_eq!(c.metadata.visible_name, "Books");
            assert_eq!(c.content.tags, vec![String::from("work")]);
        }
        ItemType::Document(_) => panic!("collection loaded as document"),
    }
}

#[test]
fn load_document_discriminant() {
    let d = load_doc();
    assert_eq!(d.metadata.type_, "DocumentType");
    assert_eq!(d.metadata.id, ItemId::parse_str(DOC_ID).unwrap());
    assert_eq!(d.metadata.visible_name, "The Rust Programming Language");
    assert_eq!(d.content.file_type, "epub");
    assert_eq!(d.content.page_count, 2);
    assert_eq!(d.content.cover_page_number, -1);
    assert_eq!(d.content.margins, 100);
    assert_eq!(d.content.orientation, "portrait");
    assert_eq!(d.content.size_in_bytes, "12345");
    assert_eq!(
        d.content.pages,
        vec![
            ItemId::parse_str(PAGE_ID_A).unwrap(),
            ItemId::parse_str(PAGE_ID_B).unwrap()
        ]
    );
}

#[test]
fn load_rejects_unknown_discriminant() {
    let meta = r#"{"type": "BogusType", "deleted": false, "lastModified": "0", "metadatamodified": false, "modified": false, "parent": "", "pinned": false, "synced": true, "version": 1, "visibleName": "x"}"#;
    let err = store().load(DOC_ID, meta, DOC_CONTENT).unwrap_err();
    assert_eq!(
        err,
        Error::InvalidItemType {
            id: String::from(DOC_ID),
            type_: String::from("BogusType"),
        }
    );
}

#[test]
fn load_reports_malformed_json() {
    let err = store().by_id(DOC_ID, "not json at all").unwrap_err();
    assert_eq!(
        err,
        Error::ParseJson {
            path: format!("/store/{}.metadata", DOC_ID),
        }
    );
}

#[test]
fn load_reports_missing_schema_field() {
    // Valid JSON, but the required visibleName field is absent.
    let meta = r#"{"type": "DocumentType", "deleted": false, "lastModified": "0", "metadatamodified": false, "modified": false, "parent": "", "pinned": false, "synced": true, "version": 1}"#;
    let err = store().by_id(DOC_ID, meta).unwrap_err();
    assert!(matches!(err, Error::ParseJson { .. }));
}

#[test]
fn by_id_rejects_malformed_identifier() {
    let err = store().by_id("not-a-uuid", DOC_META).unwrap_err();
    assert_eq!(err, Error::InvalidUuid);
}

#[test]
fn select_page_rejects_out_of_range_index() {
    // Page index 5 on a document with 2 assembled pages.
    let d = load_doc();
    let pages: Vec<i32> = vec![10, 20];
    let err = d.select_page(&pages, 5).unwrap_err();
    assert_eq!(
        err,
        Error::InvalidPage {
            page: 5,
            id: ItemId::parse_str(DOC_ID).unwrap(),
        }
    );
}

#[test]
fn select_page_returns_each_valid_index() {
    let d = load_doc();
    let pages: Vec<i32> = vec![10, 20];
    assert_eq!(*d.select_page(&pages, 0).unwrap(), 10);
    assert_eq!(*d.select_page(&pages, 1).unwrap(), 20);
    assert!(d.select_page(&pages, 2).is_err());
}

#[test]
fn pages_assemble_in_order() {
    let d = load_doc();
    let decoded: Vec<Option<Vec<&str>>> = vec![Some(vec!["a"]), Some(vec!["b", "c"])];
    let pages = d.pages(&store(), decoded).unwrap();
    assert_eq!(pages, vec!["a", "b", "c"]);
}

#[test]
fn pages_abort_on_first_decode_failure() {
    let d = load_doc();
    let decoded: Vec<Option<Vec<&str>>> = vec![Some(vec!["a"]), None];
    let err = d.pages(&store(), decoded).unwrap_err();
    assert_eq!(
        err,
        Error::ParseLines {
            path: format!("/store/{}/{}.rm", DOC_ID, PAGE_ID_B),
        }
    );
}

#[test]
fn assembled_count_checked_against_stored_count() {
    let d = load_doc();
    let decoded: Vec<Option<Vec<&str>>> = vec![Some(vec!["a"]), Some(vec!["b"])];
    let pages = d.pages(&store(), decoded).unwrap();
    // One logical page per file: the assembled count round-trips to the
    // stored pageCount.
    assert!(d.page_count_matches(&pages));
    let short: Vec<&str> = vec!["a"];
    assert!(!d.page_count_matches(&short));
}

#[test]
fn sidecar_paths_are_built_from_the_root() {
    let s = FileSystemStore::new(String::from("/store"));
    assert_eq!(s.metadata_path("abc"), "/store/abc.metadata");
    assert_eq!(s.content_path("abc"), "/store/abc.content");
    let slashed = FileSystemStore::new(String::from("/store/"));
    assert_eq!(slashed.metadata_path("abc"), "/store/abc.metadata");
    let doc = ItemId::parse_str(DOC_ID).unwrap();
    let page = ItemId::parse_str(PAGE_ID_A).unwrap();
    assert_eq!(
        s.page_path(&doc, &page),
        format!("/store/{}/{}.rm", DOC_ID, PAGE_ID_A)
    );
}

#[test]
fn parent_field_states_are_distinct() {
    assert_eq!(parse_parent(""), Some(Parent::Root));
    assert_eq!(parse_parent("trash"), Some(Parent::Trash));
    assert_eq!(
        parse_parent("00000000-0000-0000-0000-000000000000"),
        Some(Parent::Trash)
    );
    assert_eq!(
        parse_parent(COLL_ID),
        Some(Parent::Folder(ItemId::parse_str(COLL_ID).unwrap()))
    );
    assert_eq!(parse_parent("junk"), None);
}

#[test]
fn display_strings_name_the_entry() {
    let item = store().by_id(DOC_ID, DOC_META).unwrap();
    assert_eq!(
        item.display_string(),
        format!("The Rust Programming Language ({})", DOC_ID)
    );
    let d = load_doc();
    assert_eq!(
        d.display_string(),
        format!("epub: The Rust Programming Language #{}", DOC_ID)
    );
    match store().load(COLL_ID, COLL_META, COLL_CONTENT).unwrap() {
        ItemType::Collection(c) => {
            assert_eq!(c.display_string(), format!("collection: Books #{}", COLL_ID));
        }
        ItemType::Document(_) => panic!("collection loaded as document"),
    }
}

#[test]
fn metadata_type_offers_the_lookup() {
    let m = Metadata::by_id(&store(), DOC_ID, DOC_META).unwrap();
    assert_eq!(m.visible_name, "The Rust Programming Language");
    let content = m.content(&store(), DOC_CONTENT).unwrap();
    assert_eq!(content.file_type, "epub");
    let err = m.content(&store(), "nope").unwrap_err();
    assert_eq!(
        err,
        Error::ParseJson {
            path: format!("/store/{}.content", DOC_ID),
        }
    );
}

#[test]
fn malformed_optional_fields_are_errors() {
    // A lastOpened of the wrong type is malformed, not silently None.
    let meta = r#"{"type": "DocumentType", "deleted": false, "lastModified": "0", "metadatamodified": false, "modified": false, "parent": "", "pinned": false, "synced": true, "version": 1, "visibleName": "x", "lastOpened": 5}"#;
    assert!(matches!(
        store().by_id(DOC_ID, meta).unwrap_err(),
        Error::ParseJson { .. }
    ));
    // A lastOpenedPage past the largest page number is malformed too.
    let meta2 = r#"{"type": "DocumentType", "deleted": false, "lastModified": "0", "metadatamodified": false, "modified": false, "parent": "", "pinned": false, "synced": true, "version": 1, "visibleName": "x", "lastOpenedPage": 70000}"#;
    assert!(matches!(
        store().by_id(DOC_ID, meta2).unwrap_err(),
        Error::ParseJson { .. }
    ));
    // Null and well-typed values are accepted.
    let meta3 = r#"{"type": "DocumentType", "deleted": false, "lastModified": "0", "metadatamodified": false, "modified": false, "parent": "", "pinned": false, "synced": true, "version": 1, "visibleName": "x", "lastOpened": null, "lastOpenedPage": 7}"#;
    let item = store().by_id(DOC_ID, meta3).unwrap();
    assert_eq!(item.last_opened, None);
    assert_eq!(item.last_opened_page, Some(7));
}

#[test]
fn page_tags_must_be_an_array() {
    let content = DOC_CONTENT.replace(r#""pageTags": []"#, r#""pageTags": 3"#);
    let err = store().load(DOC_ID, DOC_META, &content).unwrap_err();
    assert!(matches!(err, Error::ParseJson { .. }));
    // And with the array restored the same text loads.
    assert!(store().load(DOC_ID, DOC_META, DOC_CONTENT).is_ok());
}

#[test]
fn trashed_parent_is_parsed_from_metadata() {
    let item = store().by_id(COLL_ID, COLL_META).unwrap();
    assert_eq!(item.parent, Parent::Trash);
    let doc = store().by_id(DOC_ID, DOC_META).unwrap();
    assert_eq!(doc.parent, Parent::Root);
    assert_eq!(doc.version, 2);
    assert_eq!(doc.last_opened_page, None);
}
