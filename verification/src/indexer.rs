//! Building the index: the document that is written for an entry, and the
//! tally of a build.
//!
//! The index holds a document per HTML entry of the archive: the title, a
//! lower-cased copy of it to search in, the plain text of the body to
//! search in, and the pointer to the body. The body itself stays in the
//! archive. An entry that is not HTML is left out. An entry of HTML that
//! cannot be indexed ends the build: nothing is committed, and no index
//! comes of it.

use vstd::prelude::*;
use vstd::utf8::{decode_utf8, decode_utf8_encode_utf8, valid_utf8};
use tantivy::schema::Field;
use tantivy::{Document, IndexWriter, TantivyError};
use crate::archive::EntryPlan;
use crate::cache::{IndexError, IndexEvent};
use crate::engine::{article_of, hit_of, stored_pointer, HitView, StoredValueView};
use crate::schema::IndexFields;
use crate::session::ArticleView;
use crate::markup::{render_plain, rendered_text, RenderError};
use crate::text::{lowercase, text_from_utf8, to_lowercase};

verus! {

#[verifier::external_type_specification]
#[verifier::external_body]
pub struct ExIndexWriter(IndexWriter);

/// The width at which a body is rendered for the index: without wrapping.
pub const UNWRAPPED: usize = usize::MAX;

/// What is written to the index for one entry.
#[derive(Debug, Clone)]
pub struct IndexDocument {
    pub title: String,
    pub title_lowercase: String,
    pub cluster: u64,
    pub blob: u64,
    pub content: String,
}

/// What an [`IndexDocument`] is to the contracts.
pub struct DocumentView {
    pub title: Seq<char>,
    pub title_lowercase: Seq<char>,
    pub cluster: u64,
    pub blob: u64,
    pub content: Seq<char>,
}

impl View for IndexDocument {
    type V = DocumentView;

    open spec fn view(&self) -> DocumentView {
        DocumentView {
            title: self.title@,
            title_lowercase: self.title_lowercase@,
            cluster: self.cluster,
            blob: self.blob,
            content: self.content@,
        }
    }
}

/// Why an entry could not be indexed.
#[derive(Debug, Clone, Copy, PartialEq, Eq, Structural)]
pub enum DocumentError {
    /// The body is not UTF-8 text.
    NotText,
    /// The body could not be rendered as plain text.
    Render(RenderError),
    /// The index did not take the document.
    Write,
}

/// The document for an entry with this title, pointer and body.
pub open spec fn document_of(title: Seq<char>, cluster: u32, blob: u32, body: Seq<u8>) -> Result<
    DocumentView,
    DocumentError,
> {
    if !valid_utf8(body) {
        Err(DocumentError::NotText)
    } else {
        match rendered_text(body, UNWRAPPED) {
            Ok(text) => Ok(
                DocumentView {
                    title,
                    title_lowercase: lowercase(title),
                    cluster: cluster as u64,
                    blob: blob as u64,
                    content: lowercase(text),
                },
            ),
            Err(e) => Err(DocumentError::Render(e)),
        }
    }
}

/// What the outcome of making a document is to the contracts.
pub open spec fn made_view(made: Result<IndexDocument, DocumentError>) -> Result<
    DocumentView,
    DocumentError,
> {
    match made {
        Ok(document) => Ok(document@),
        Err(e) => Err(e),
    }
}

/// The values that a document holds in the index, field by field.
pub open spec fn field_values(fields: IndexFields, document: DocumentView) -> Seq<
    (u32, StoredValueView),
> {
    seq![
        (fields.title, StoredValueView::Text(document.title)),
        (fields.title_lowercase, StoredValueView::Text(document.title_lowercase)),
        (fields.cluster, StoredValueView::Number(document.cluster)),
        (fields.blob, StoredValueView::Number(document.blob)),
        (fields.content, StoredValueView::Text(document.content)),
    ]
}

/// The documents that were handed to a writer, in order, each as the values
/// that it holds field by field.
pub uninterp spec fn staged_documents(writer: IndexWriter) -> Seq<Seq<(u32, StoredValueView)>>;

/// Hands a document to the writer.
///
/// Trusted: fills a `tantivy::Document` field by field with `add_text` and
/// `add_u64` and calls `tantivy::IndexWriter::add_document`, which queues
/// the document, or fails without queueing it where the writer has died.
#[verifier::external_body]
fn add_document(writer: &mut IndexWriter, fields: &IndexFields, document: &IndexDocument) -> (added:
    Result<(), TantivyError>)
    ensures
        added is Ok ==> staged_documents(*final(writer)) == staged_documents(*old(writer)).push(
            field_values(*fields, document@),
        ),
        added is Err ==> staged_documents(*final(writer)) == staged_documents(*old(writer)),
{
    let mut doc = Document::new();
    doc.add_text(Field::from_field_id(fields.title), &document.title);
    doc.add_text(Field::from_field_id(fields.title_lowercase), &document.title_lowercase);
    doc.add_u64(Field::from_field_id(fields.cluster), document.cluster);
    doc.add_u64(Field::from_field_id(fields.blob), document.blob);
    doc.add_text(Field::from_field_id(fields.content), &document.content);
    writer.add_document(doc)?;
    Ok(())
}

/// Makes what was handed to the writer part of the index.
/// Trusted: calls `tantivy::IndexWriter::commit`. When it returns well, all that was handed
/// in before is published; whether it does depends on the disk. It hands no document in.
#[verifier::external_body]
fn commit_writer(writer: &mut IndexWriter) -> (committed: Result<(), TantivyError>)
    ensures
        staged_documents(*final(writer)) == staged_documents(*old(writer)),
        committed is Ok ==> published_documents(*final(writer)) == staged_documents(*old(writer)),
{
    writer.commit()?;
    Ok(())
}

/// Makes the document for an entry with this title, pointer and body.
pub fn document_for(title: &str, cluster: u32, blob: u32, body: Vec<u8>) -> (made: Result<
    IndexDocument,
    DocumentError,
>)
    ensures
        made_view(made) == document_of(title@, cluster, blob, body@),
{
    let ghost bytes = body@;
    let html = match text_from_utf8(body) {
        Some(html) => html,
        None => {
            return Err(DocumentError::NotText);
        },
    };
    proof {
        decode_utf8_encode_utf8(bytes);
    }
    let text = match render_plain(html.as_str().as_bytes(), UNWRAPPED) {
        Ok(text) => text,
        Err(e) => {
            return Err(DocumentError::Render(e));
        },
    };
    Ok(
        IndexDocument {
            title: title.to_owned(),
            title_lowercase: to_lowercase(title),
            cluster: cluster as u64,
            blob: blob as u64,
            content: to_lowercase(text.as_str()),
        },
    )
}

/// Indexes one entry: makes its document and hands it to the writer. An
/// entry that fails leaves the writer as it was; whether the writer takes
/// a document is the writer's to say.
pub fn index_document(
    writer: &mut IndexWriter,
    fields: &IndexFields,
    title: &str,
    cluster: u32,
    blob: u32,
    body: Vec<u8>,
) -> (indexed: Result<(), DocumentError>)
    ensures
        match (indexed, document_of(title@, cluster, blob, body@)) {
            (Ok(_), Ok(document)) => staged_documents(*final(writer)) == staged_documents(
                *old(writer),
            ).push(field_values(*fields, document)),
            (Err(e), Ok(_)) => e == DocumentError::Write && staged_documents(*final(writer))
                == staged_documents(*old(writer)),
            (Err(e), Err(reason)) => e == reason && staged_documents(*final(writer))
                == staged_documents(*old(writer)),
            (Ok(_), Err(_)) => false,
        },
{
    let document = match document_for(title, cluster, blob, body) {
        Ok(document) => document,
        Err(e) => {
            return Err(e);
        },
    };
    match add_document(writer, fields, &document) {
        Ok(_) => Ok(()),
        Err(_) => Err(DocumentError::Write),
    }
}

/// Commits a build, once, after the last entry: publishes what was staged.
pub fn commit(writer: &mut IndexWriter) -> (committed: Result<(), IndexError>)
    ensures
        staged_documents(*final(writer)) == staged_documents(*old(writer)),
        committed is Ok ==> published_documents(*final(writer)) == staged_documents(
            *old(writer),
        ),
        committed matches Err(e) ==> e == IndexError::Build,
{
    match commit_writer(writer) {
        Ok(_) => Ok(()),
        Err(_) => Err(IndexError::Build),
    }
}

/// The documents handed to a writer that a commit has published, in order.
/// A commit that succeeds publishes all that was handed in before it; one
/// that fails leaves open how much of it is published.
pub uninterp spec fn published_documents(writer: IndexWriter) -> Seq<Seq<(u32, StoredValueView)>>;

/// What became of one entry of the archive during a build.
#[derive(Debug, Clone, Copy, PartialEq, Eq, Structural)]
pub enum EntryOutcome {
    /// A document was written for it.
    Indexed,
    /// It is not HTML and was left out.
    Skipped,
    /// It should have been indexed and could not be.
    Failed,
}

/// The tally of a build.
#[derive(Debug, Clone, Copy, PartialEq, Eq, Structural)]
pub struct BuildReport {
    pub total: u64,
    pub indexed: u64,
    pub skipped: u64,
    pub failed: u64,
}

impl BuildReport {
    /// Every entry seen is counted once, under what became of it.
    pub open spec fn wf(self) -> bool {
        self.total == self.indexed + self.skipped + self.failed
    }

    /// The tally with one more entry.
    pub open spec fn with(self, outcome: EntryOutcome) -> BuildReport {
        match outcome {
            EntryOutcome::Indexed => BuildReport {
                total: (self.total + 1) as u64,
                indexed: (self.indexed + 1) as u64,
                ..self
            },
            EntryOutcome::Skipped => BuildReport {
                total: (self.total + 1) as u64,
                skipped: (self.skipped + 1) as u64,
                ..self
            },
            EntryOutcome::Failed => BuildReport {
                total: (self.total + 1) as u64,
                failed: (self.failed + 1) as u64,
                ..self
            },
        }
    }

    /// The tally before the first entry.
    pub fn new() -> (report: Self)
        ensures
            report == (BuildReport { total: 0, indexed: 0, skipped: 0, failed: 0 }),
            report.wf(),
    {
        BuildReport { total: 0, indexed: 0, skipped: 0, failed: 0 }
    }

    /// Counts one entry.
    pub fn record(&mut self, outcome: EntryOutcome)
        requires
            old(self).wf(),
            old(self).total < u64::MAX,
        ensures
            *final(self) == old(self).with(outcome),
            final(self).wf(),
    {
        self.total = self.total + 1;
        match outcome {
            EntryOutcome::Indexed => {
                self.indexed = self.indexed + 1;
            },
            EntryOutcome::Skipped => {
                self.skipped = self.skipped + 1;
            },
            EntryOutcome::Failed => {
                self.failed = self.failed + 1;
            },
        }
    }
}

/// The outcome to count for an entry that was handed to `index_document`.
pub fn outcome_of(indexed: &Result<(), DocumentError>) -> (outcome: EntryOutcome)
    ensures
        outcome == (if indexed is Ok {
            EntryOutcome::Indexed
        } else {
            EntryOutcome::Failed
        }),
{
    match indexed {
        Ok(_) => EntryOutcome::Indexed,
        Err(_) => EntryOutcome::Failed,
    }
}

/// What the writer holds after an entry was dealt with, and how the entry
/// is counted. An entry that is not HTML is skipped. An entry of HTML is
/// indexed if it has a body in the archive, the body was fetched, a
/// document could be made of it and the writer took the document; else it
/// has failed. Only an indexed entry adds to the writer.
pub open spec fn entry_dealt_with(
    before: Seq<Seq<(u32, StoredValueView)>>,
    after: Seq<Seq<(u32, StoredValueView)>>,
    outcome: EntryOutcome,
    fields: IndexFields,
    title: Seq<char>,
    plan: EntryPlan,
    body: Option<Seq<u8>>,
) -> bool {
    match (plan, body) {
        (EntryPlan::Skip, _) => outcome == EntryOutcome::Skipped && after == before,
        (EntryPlan::Fetch(cluster, blob), Some(bytes)) => match document_of(
            title,
            cluster,
            blob,
            bytes,
        ) {
            Ok(document) => (outcome == EntryOutcome::Indexed && after == before.push(
                field_values(fields, document),
            )) || (outcome == EntryOutcome::Failed && after == before),
            Err(_) => outcome == EntryOutcome::Failed && after == before,
        },
        _ => outcome == EntryOutcome::Failed && after == before,
    }
}

/// Deals with one entry of the archive during a build. `plan` is what
/// `classify` said of the entry, and `body` what the archive gave for an
/// entry that is to be fetched, if it gave anything.
pub fn process_entry(
    writer: &mut IndexWriter,
    fields: &IndexFields,
    title: &str,
    plan: EntryPlan,
    body: Option<Vec<u8>>,
) -> (outcome: EntryOutcome)
    ensures
        entry_dealt_with(
            staged_documents(*old(writer)),
            staged_documents(*final(writer)),
            outcome,
            *fields,
            title@,
            plan,
            crate::engine::body_view(body),
        ),
{
    match plan {
        EntryPlan::Skip => EntryOutcome::Skipped,
        EntryPlan::NoTarget => EntryOutcome::Failed,
        EntryPlan::Fetch(cluster, blob) => match body {
            Some(bytes) => {
                let indexed = index_document(writer, fields, title, cluster, blob, bytes);
                outcome_of(&indexed)
            },
            None => EntryOutcome::Failed,
        },
    }
}

/// How far a build has come.
#[derive(Debug, Clone, Copy, PartialEq, Eq, Structural)]
pub enum BuildPhase {
    /// Entries are taken in; none has failed.
    Running,
    /// An entry has failed, or the commit has: the build has ended without
    /// an index.
    Failed,
    /// The one commit has been made.
    Committed,
}

/// What a build does after an entry.
#[derive(Debug, Clone, Copy, PartialEq, Eq, Structural)]
pub enum BuildStep {
    /// Hand in the next entry, or finish after the last.
    Continue,
    /// Stop: the build has failed.
    Abort,
}

/// An entry as it is handed to a build: its title, what `classify` made of
/// it, and the body that the archive gave for it, if it was asked for one
/// and gave one.
pub struct EntryInput {
    pub title: Seq<char>,
    pub plan: EntryPlan,
    pub body: Option<Seq<u8>>,
}

/// The document that is written for an entry; none for an entry that is
/// skipped and for one that cannot be indexed.
pub open spec fn entry_document(entry: EntryInput) -> Option<DocumentView> {
    match (entry.plan, entry.body) {
        (EntryPlan::Fetch(cluster, blob), Some(bytes)) => match document_of(
            entry.title,
            cluster,
            blob,
            bytes,
        ) {
            Ok(document) => Some(document),
            Err(_) => None,
        },
        _ => None,
    }
}

/// What becomes of an entry in a build whose writer takes every document:
/// an entry that is not HTML is skipped, an entry with a document is
/// indexed, every other entry fails.
pub open spec fn entry_outcome(entry: EntryInput) -> EntryOutcome {
    if entry.plan == EntryPlan::Skip {
        EntryOutcome::Skipped
    } else if entry_document(entry) is Some {
        EntryOutcome::Indexed
    } else {
        EntryOutcome::Failed
    }
}

/// How many of the first `count` entries come to `outcome`.
pub open spec fn count_of(entries: Seq<EntryInput>, outcome: EntryOutcome, count: int) -> nat
    decreases count,
{
    if count <= 0 {
        0
    } else if entry_outcome(entries[count - 1]) == outcome {
        count_of(entries, outcome, count - 1) + 1
    } else {
        count_of(entries, outcome, count - 1)
    }
}

/// The documents that are written for the first `count` entries, in the
/// order of the entries: one for each entry that is indexed.
pub open spec fn documents_of(entries: Seq<EntryInput>, fields: IndexFields, count: int) -> Seq<
    Seq<(u32, StoredValueView)>,
>
    decreases count,
{
    if count <= 0 {
        Seq::empty()
    } else {
        match entry_document(entries[count - 1]) {
            Some(document) => documents_of(entries, fields, count - 1).push(
                field_values(fields, document),
            ),
            None => documents_of(entries, fields, count - 1),
        }
    }
}

/// The mathematical state of a build.
pub struct BuildView {
    pub writer: IndexWriter,
    pub fields: IndexFields,
    pub phase: BuildPhase,
    pub tally: BuildReport,
    /// What the writer had been handed before the build began.
    pub base: Seq<Seq<(u32, StoredValueView)>>,
    /// The entries that were handed in, in order.
    pub entries: Seq<EntryInput>,
}

impl BuildView {
    /// The tally counts the entries by what became of them, and none has failed.
    pub open spec fn tallied(self) -> bool {
        &&& self.tally.total == self.entries.len()
        &&& self.tally.indexed == count_of(
            self.entries,
            EntryOutcome::Indexed,
            self.entries.len() as int,
        )
        &&& self.tally.skipped == count_of(
            self.entries,
            EntryOutcome::Skipped,
            self.entries.len() as int,
        )
        &&& self.tally.failed == 0
        &&& count_of(self.entries, EntryOutcome::Failed, self.entries.len() as int) == 0
    }

    /// What the writer holds once every entry so far was taken.
    pub open spec fn written(self) -> Seq<Seq<(u32, StoredValueView)>> {
        self.base + documents_of(self.entries, self.fields, self.entries.len() as int)
    }

    /// While the build runs, the writer has been handed a document for each
    /// entry that is indexed; once it is committed, those are published.
    pub open spec fn wf(self) -> bool {
        &&& self.tally.wf()
        &&& self.phase == BuildPhase::Running ==> self.tallied() && staged_documents(self.writer)
            == self.written()
        &&& self.phase == BuildPhase::Committed ==> self.tallied() && published_documents(
            self.writer,
        ) == self.written()
    }
}

/// The build of an index: it takes the entries of the archive one by one
/// and commits once, at the end, if none has failed.
pub struct IndexBuild {
    writer: IndexWriter,
    fields: IndexFields,
    phase: BuildPhase,
    tally: BuildReport,
    base: Ghost<Seq<Seq<(u32, StoredValueView)>>>,
    entries: Ghost<Seq<EntryInput>>,
}

impl View for IndexBuild {
    type V = BuildView;

    closed spec fn view(&self) -> BuildView {
        BuildView {
            writer: self.writer,
            fields: self.fields,
            phase: self.phase,
            tally: self.tally,
            base: self.base@,
            entries: self.entries@,
        }
    }
}

impl IndexBuild {
    #[verifier::type_invariant]
    spec fn inv(&self) -> bool {
        self@.wf()
    }

    /// Begins a build on a writer.
    pub fn new(writer: IndexWriter, fields: IndexFields) -> (build: Self)
        ensures
            build@ == (BuildView {
                writer,
                fields,
                phase: BuildPhase::Running,
                tally: BuildReport { total: 0, indexed: 0, skipped: 0, failed: 0 },
                base: staged_documents(writer),
                entries: Seq::empty(),
            }),
            build@.wf(),
    {
        let ghost base = staged_documents(writer);
        assert(base + Seq::<Seq<(u32, StoredValueView)>>::empty() =~= base);
        IndexBuild {
            writer,
            fields,
            phase: BuildPhase::Running,
            tally: BuildReport::new(),
            base: Ghost(base),
            entries: Ghost(Seq::empty()),
        }
    }

    /// How far the build has come.
    pub fn phase(&self) -> (phase: BuildPhase)
        ensures
            phase == self@.phase,
            self@.wf(),
    {
        proof {
            use_type_invariant(self);
        }
        self.phase
    }

    /// The tally so far.
    pub fn tally(&self) -> (tally: BuildReport)
        ensures
            tally == self@.tally,
    {
        self.tally
    }

    /// Takes one entry of the archive in. `plan` is what `classify` said of
    /// the entry, `body` what the archive gave for an entry that is to be
    /// fetched, if it gave anything.
    ///
    /// An entry that is not HTML is skipped and the build goes on. An entry
    /// of HTML for which a document can be made is handed to the writer; the
    /// build goes on if the writer took it. Every other entry ends the
    /// build. A build that has ended takes nothing in.
    pub fn add_entry(self, title: &str, plan: EntryPlan, body: Option<Vec<u8>>) -> (next: (
        Self,
        BuildStep,
    ))
        requires
            self@.entries.len() < u64::MAX,
        ensures
            next.0@.fields == self@.fields,
            next.0@.base == self@.base,
            (next.1 == BuildStep::Continue) == (next.0@.phase == BuildPhase::Running),
            self@.phase != BuildPhase::Running ==> next.0@ == self@,
            self@.phase == BuildPhase::Running ==> {
                let entry = EntryInput { title: title@, plan, body: crate::engine::body_view(body) };
                &&& next.0@.entries == self@.entries.push(entry)
                &&& next.0@.phase == BuildPhase::Running || next.0@.phase == BuildPhase::Failed
                &&& entry_outcome(entry) == EntryOutcome::Skipped ==> next.1 == BuildStep::Continue
                &&& entry_outcome(entry) == EntryOutcome::Failed ==> next.1 == BuildStep::Abort
            },
            next.0@.wf(),
    {
        proof {
            use_type_invariant(&self);
        }
        if !matches!(self.phase, BuildPhase::Running) {
            return (self, BuildStep::Abort);
        }
        let IndexBuild { mut writer, fields, phase, mut tally, base, entries } = self;
        let ghost entry = EntryInput { title: title@, plan, body: crate::engine::body_view(body) };
        let ghost longer = entries@.push(entry);
        let outcome = process_entry(&mut writer, &fields, title, plan, body);
        tally.record(outcome);
        proof {
            assert(longer.len() == entries@.len() + 1);
            assert forall|o: EntryOutcome| #![auto]
                count_of(longer, o, longer.len() as int) == count_of(
                    entries@,
                    o,
                    entries@.len() as int,
                ) + (if entry_outcome(entry) == o {
                    1nat
                } else {
                    0nat
                }) by {
                lemma_count_of_prefix(longer, entries@, o, entries@.len() as int);
            }
            lemma_documents_of_prefix(longer, entries@, fields, entries@.len() as int);
            let before = documents_of(entries@, fields, entries@.len() as int);
            match entry_document(entry) {
                Some(document) => {
                    assert(base@ + before.push(field_values(fields, document)) =~= (base@
                        + before).push(field_values(fields, document)));
                },
                None => {},
            }
        }
        let failed = matches!(outcome, EntryOutcome::Failed);
        let build = IndexBuild {
            writer,
            fields,
            phase: if failed {
                BuildPhase::Failed
            } else {
                BuildPhase::Running
            },
            tally,
            base,
            entries: Ghost(longer),
        };
        let step = if failed {
            BuildStep::Abort
        } else {
            BuildStep::Continue
        };
        (build, step)
    }

    /// Ends the build. A build in which no entry has failed is committed,
    /// once; the tally is returned if the commit succeeds. A build that has
    /// failed, or that was ended before, is not committed.
    pub fn finish(self) -> (ended: (Self, Result<BuildReport, IndexError>))
        ensures
            ended.0@.fields == self@.fields,
            ended.0@.base == self@.base,
            ended.0@.entries == self@.entries,
            ended.0@.tally == self@.tally,
            self@.phase != BuildPhase::Running ==> ended.0@ == self@ && ended.1 == Err::<
                BuildReport,
                IndexError,
            >(IndexError::Build),
            self@.phase == BuildPhase::Running ==> match ended.1 {
                Ok(report) => {
                    &&& ended.0@.phase == BuildPhase::Committed
                    &&& report == self@.tally
                    &&& self@.tallied()
                    &&& published_documents(ended.0@.writer) == self@.written()
                },
                Err(e) => e == IndexError::Build && ended.0@.phase == BuildPhase::Failed,
            },
            ended.0@.wf(),
    {
        proof {
            use_type_invariant(&self);
        }
        if !matches!(self.phase, BuildPhase::Running) {
            return (self, Err(IndexError::Build));
        }
        let IndexBuild { mut writer, fields, phase, tally, base, entries } = self;
        let committed = commit(&mut writer);
        let build = IndexBuild {
            writer,
            fields,
            phase: if committed.is_ok() {
                BuildPhase::Committed
            } else {
                BuildPhase::Failed
            },
            tally,
            base,
            entries,
        };
        let ended = match committed {
            Ok(_) => Ok(tally),
            Err(e) => Err(e),
        };
        (build, ended)
    }
}

/// What to report of the build step once the build has ended: done if the
/// build was committed, failed otherwise.
pub fn build_event(ended: &Result<BuildReport, IndexError>) -> (event: IndexEvent)
    ensures
        event == (if ended is Ok {
            IndexEvent::Done
        } else {
            IndexEvent::Failed
        }),
{
    match ended {
        Ok(_) => IndexEvent::Done,
        Err(_) => IndexEvent::Failed,
    }
}

/// Counting through a longer list agrees with counting through the list
/// that it begins with.
proof fn lemma_count_of_prefix(
    longer: Seq<EntryInput>,
    entries: Seq<EntryInput>,
    outcome: EntryOutcome,
    count: int,
)
    requires
        0 <= count <= entries.len() <= longer.len(),
        forall|i: int| 0 <= i < entries.len() ==> longer[i] == entries[i],
    ensures
        count_of(longer, outcome, count) == count_of(entries, outcome, count),
    decreases count,
{
    if count > 0 {
        lemma_count_of_prefix(longer, entries, outcome, count - 1);
    }
}

proof fn lemma_documents_of_prefix(
    longer: Seq<EntryInput>,
    entries: Seq<EntryInput>,
    fields: IndexFields,
    count: int,
)
    requires
        0 <= count <= entries.len() <= longer.len(),
        forall|i: int| 0 <= i < entries.len() ==> longer[i] == entries[i],
    ensures
        documents_of(longer, fields, count) == documents_of(entries, fields, count),
    decreases count,
{
    if count > 0 {
        lemma_documents_of_prefix(longer, entries, fields, count - 1);
    }
}

/// A build that was committed holds one document for each entry that was
/// indexed and none for any other: as many documents as the tally counts as
/// indexed, and every entry is counted once, as skipped or as indexed.
pub proof fn law_one_document_per_indexed_entry(entries: Seq<EntryInput>, fields: IndexFields, count: int)
    requires
        0 <= count <= entries.len(),
    ensures
        documents_of(entries, fields, count).len() == count_of(
            entries,
            EntryOutcome::Indexed,
            count,
        ),
        count_of(entries, EntryOutcome::Indexed, count) + count_of(
            entries,
            EntryOutcome::Skipped,
            count,
        ) + count_of(entries, EntryOutcome::Failed, count) == count,
    decreases count,
{
    if count > 0 {
        law_one_document_per_indexed_entry(entries, fields, count - 1);
    }
}

/// The document of an indexed entry stores the entry's title and pointer,
/// and a copy of the title and the plain text of the body in lower case.
pub proof fn law_document_stores_the_entry(entry: EntryInput, fields: IndexFields)
    requires
        entry_document(entry) is Some,
    ensures
        entry.plan is Fetch,
        entry.body is Some,
        ({
            let written = field_values(fields, entry_document(entry)->Some_0);
            &&& written.len() == 5
            &&& written[0] == (fields.title, StoredValueView::Text(entry.title))
            &&& written[1] == (fields.title_lowercase, StoredValueView::Text(lowercase(entry.title)))
            &&& written[2] == (fields.cluster, stored_pointer(entry.plan->Fetch_0))
            &&& written[3] == (fields.blob, stored_pointer(entry.plan->Fetch_1))
        }),
{
}

/// Round trip: the hit that is read back from what was written for an entry
/// carries the entry's title and pointer, and the article made from the
/// bytes that the archive holds under that pointer has those very bytes,
/// decoded, as its body.
pub proof fn law_hit_leads_back_to_the_body(
    fields: IndexFields,
    title: Seq<char>,
    cluster: u32,
    blob: u32,
    body: Seq<u8>,
)
    requires
        document_of(title, cluster, blob, body) is Ok,
    ensures
        ({
            let document = document_of(title, cluster, blob, body)->Ok_0;
            let written = field_values(fields, document);
            &&& written[0] == (fields.title, StoredValueView::Text(title))
            &&& written[2] == (fields.cluster, stored_pointer(cluster))
            &&& written[3] == (fields.blob, stored_pointer(blob))
            &&& hit_of(Some(written[0].1), Some(written[2].1), Some(written[3].1)) == (HitView {
                title,
                cluster,
                blob,
            })
            &&& article_of(title, Some(body)) == Some(
                ArticleView { title, content_html: decode_utf8(body) },
            )
        }),
{
}

} // verus!
