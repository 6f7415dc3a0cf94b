//! The core of a bulletin board's offline library: full-text search over a
//! read-only archive, the session logic that makes searching while typing
//! safe, and the reader for what was found. Every function carries a
//! contract that Verus proves.
//!
//! The archive is read by the caller; the index is kept by `tantivy`, plain
//! text is made by `html2text`, and the reader searches with `regex`. What
//! the library believes of those crates is written down, item by item, in
//! the functions that call them.
//!
//! - [`archive`]: the entries of an archive, and which of them are indexed.
//! - [`cache`]: the directories in which indexes are kept, and the steps
//!   that build an index once and reuse it afterwards.
//! - [`schema`], [`indexer`]: the fields of the index and the document that
//!   is written for an entry.
//! - [`query`], [`engine`]: the plan of a query, its run on the index, and
//!   the articles that come of the hits.
//! - [`registry`]: the table in which sessions find the library.
//! - [`session`]: tickets for queries in flight; the last request wins.
//! - [`lines`], [`viewer`]: the reader's text, viewport and search.
//! - [`markup`], [`pattern`], [`text`]: rendering, literal patterns, and
//!   small things about text.
//! - [`chat`], [`settings`], [`stack`], [`user`]: what the board around the
//!   library decides.

pub mod archive;
pub mod cache;
pub mod chat;
pub mod engine;
pub mod indexer;
pub mod lines;
pub mod markup;
pub mod pattern;
pub mod query;
pub mod registry;
pub mod schema;
pub mod session;
pub mod settings;
pub mod stack;
pub mod text;
pub mod user;
pub mod viewer;
