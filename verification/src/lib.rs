//! Typed, read-oriented access to the on-disk document store of a
//! note-taking device: flat directories of JSON sidecar files plus binary
//! page files. The library resolves entries by identifier, classifies them
//! into typed variants (collection or document), assembles a document's
//! ordered page list, and validates page indices for rendering. All disk
//! reads and all calls into the binary page decoder happen outside this
//! crate; the functions here take file names and file contents as plain
//! values and are verified against the contracts they state.

pub mod collection;
pub mod document;
pub mod error;
pub mod ident;
pub mod item;
pub mod jsonval;
pub mod store;
pub mod strutil;
