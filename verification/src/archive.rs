//! What the library reads of the archive: its entries, and what becomes of
//! each when the index is built.
//!
//! The archive itself is opened and read by the caller. An entry names its
//! body by cluster and blob; only entries of HTML are indexed.

use vstd::prelude::*;
use crate::text::same_text;

verus! {

/// The kind of content that an entry has.
#[derive(Debug, Clone)]
pub enum MimeType {
    /// The entry stands for another entry.
    Redirect,
    LinkTarget,
    DeletedEntry,
    /// A MIME type from the archive's table, such as `text/html`.
    Type(String),
}

/// Where an entry leads.
#[derive(Debug, Clone, Copy, PartialEq, Eq, Structural)]
pub enum Target {
    /// Another entry, by its place among the URLs.
    Redirect(u32),
    /// A body in the archive: cluster and blob.
    Cluster(u32, u32),
}

/// An entry of the archive.
#[derive(Debug, Clone)]
pub struct Entry {
    pub title: String,
    pub mime_type: MimeType,
    pub target: Option<Target>,
}

/// Why the archive gave no content.
#[derive(Debug, Clone, Copy, PartialEq, Eq, Structural)]
pub enum ArchiveError {
    /// The file is not an archive of this format.
    Format,
    /// The file could not be read.
    Io,
    /// No such cluster or blob.
    OutOfRange,
    /// The cluster could not be unpacked.
    Decompression,
}

/// What to do with an entry when the index is built.
#[derive(Debug, Clone, Copy, PartialEq, Eq, Structural)]
pub enum EntryPlan {
    /// Not HTML: leave it out; this is no failure.
    Skip,
    /// HTML without a body in the archive: it cannot be indexed.
    NoTarget,
    /// Fetch the body under this cluster and blob and index it.
    Fetch(u32, u32),
}

/// The MIME type of the entries that are indexed.
pub open spec fn html_mime() -> Seq<char> {
    "text/html"@
}

/// Whether a MIME type is that of HTML.
pub open spec fn is_html(mime_type: MimeType) -> bool {
    match mime_type {
        MimeType::Type(name) => name@ == html_mime(),
        _ => false,
    }
}

/// What is to be done with an entry of this type and target.
pub open spec fn plan_for(mime_type: MimeType, target: Option<Target>) -> EntryPlan {
    if !is_html(mime_type) {
        EntryPlan::Skip
    } else {
        match target {
            Some(Target::Cluster(cluster, blob)) => EntryPlan::Fetch(cluster, blob),
            _ => EntryPlan::NoTarget,
        }
    }
}

/// Decides what to do with an entry when the index is built.
pub fn classify(entry: &Entry) -> (plan: EntryPlan)
    ensures
        plan == plan_for(entry.mime_type, entry.target),
{
    let html = match &entry.mime_type {
        MimeType::Type(name) => same_text(name.as_str(), "text/html"),
        _ => false,
    };
    if !html {
        EntryPlan::Skip
    } else {
        match entry.target {
            Some(Target::Cluster(cluster, blob)) => EntryPlan::Fetch(cluster, blob),
            _ => EntryPlan::NoTarget,
        }
    }
}

} // verus!
