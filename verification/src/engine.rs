//! The query engine: runs a planned query on a `tantivy` index and turns
//! what the index has stored of each hit into a pointer into the archive.
//!
//! The index never holds an article's body. Of each document it stores the
//! title and two numbers, cluster and blob, under which the archive holds
//! the body; a hit therefore has to be followed into the archive before it
//! can be shown.

use vstd::prelude::*;
use vstd::utf8::{decode_utf8, valid_utf8};
use tantivy::collector::TopDocs;
use tantivy::query::{BooleanQuery, FuzzyTermQuery, Query};
use tantivy::schema::{Field, Schema, Value};
use tantivy::{DocAddress, Searcher, TantivyError, Term};
use crate::query::{
    plan_of, plan_query, plan_view, tokens, QueryError, TermQuery, TermQueryView,
    MAX_EDIT_DISTANCE, TRANSPOSITION_IS_ONE_EDIT,
};
use crate::schema::{fields_match, has_field, resolve_fields, schema_fields, FieldKind, IndexFields};
use crate::session::{articles_view, Article, ArticleView};
use crate::text::text_from_utf8;

verus! {

#[verifier::external_type_specification]
#[verifier::external_body]
pub struct ExSearcher(Searcher);

#[verifier::external_type_specification]
#[verifier::external_body]
pub struct ExBooleanQuery(BooleanQuery);

#[verifier::external_type_specification]
#[verifier::external_body]
pub struct ExTantivyError(TantivyError);

/// The title given to a hit whose document stores none.
pub const UNTITLED: &'static str = "Untitled Document";

/// The place of a document in an index: segment and number within it.
pub type Address = (u32, u32);

/// A value that a document stores under a field.
#[derive(Debug, Clone)]
pub enum StoredValue {
    Text(String),
    Number(u64),
    /// A value of a type that this index never writes.
    Other,
}

/// What a [`StoredValue`] is to the contracts.
pub enum StoredValueView {
    Text(Seq<char>),
    Number(u64),
    Other,
}

impl View for StoredValue {
    type V = StoredValueView;

    open spec fn view(&self) -> StoredValueView {
        match self {
            StoredValue::Text(text) => StoredValueView::Text(text@),
            StoredValue::Number(n) => StoredValueView::Number(*n),
            StoredValue::Other => StoredValueView::Other,
        }
    }
}

/// What a value read from a document is to the contracts.
pub open spec fn value_view(value: Option<StoredValue>) -> Option<StoredValueView> {
    match value {
        Some(v) => Some(v@),
        None => None,
    }
}

/// The documents that a searcher sees, by address: those of its segments
/// that are not deleted.
pub uninterp spec fn documents(searcher: Searcher) -> Set<Address>;

/// What the index answers: the addresses of the documents that best satisfy
/// any clause of either list, best first, and no more than `limit` of them.
pub uninterp spec fn ranked(
    searcher: Searcher,
    in_titles: Seq<Clause>,
    in_contents: Seq<Clause>,
    limit: usize,
) -> Seq<Address>;

/// What the documents that a searcher sees store: for an address and a
/// field number, the first value stored under that field.
pub uninterp spec fn stored_values(searcher: Searcher) -> Map<(Address, u32), StoredValueView>;

/// The first value that the document at `address` stores under `field`.
pub open spec fn stored_value(searcher: Searcher, address: Address, field: u32) -> Option<
    StoredValueView,
> {
    if stored_values(searcher).contains_key((address, field)) {
        Some(stored_values(searcher)[(address, field)])
    } else {
        None
    }
}

/// The fields of the index that a searcher reads, in order: name and kind.
pub uninterp spec fn index_fields(searcher: Searcher) -> Seq<(Seq<char>, FieldKind)>;

/// One clause of a query: the terms of a field within an edit distance of
/// a token or, for a prefix clause, of a beginning of theirs.
pub struct Clause {
    pub field: u32,
    pub token: Seq<char>,
    pub distance: u8,
    pub transposition_is_one_edit: bool,
    pub prefix: bool,
}

/// The clauses of a query, in order. A document satisfies the query if it
/// satisfies any of them.
pub uninterp spec fn clauses(query: BooleanQuery) -> Seq<Clause>;

/// The clauses that a plan makes for one field: one per term query, in order.
pub open spec fn clauses_for(plan: Seq<TermQueryView>, field: u32) -> Seq<Clause> {
    Seq::new(
        plan.len(),
        |i: int|
            Clause {
                field,
                token: plan[i].token,
                distance: MAX_EDIT_DISTANCE,
                transposition_is_one_edit: TRANSPOSITION_IS_ONE_EDIT,
                prefix: plan[i].prefix,
            },
    )
}

/// Whether every clause searches a field that the index has.
pub open spec fn within_schema(clauses: Seq<Clause>, fields: Seq<(Seq<char>, FieldKind)>) -> bool {
    forall|i: int| 0 <= i < clauses.len() ==> (#[trigger] clauses[i]).field < fields.len()
}

/// A hit: the stored title and the pointer to the body in the archive.
#[derive(Debug, Clone)]
pub struct Hit {
    pub title: String,
    pub cluster: u32,
    pub blob: u32,
}

/// What a [`Hit`] is to the contracts.
pub struct HitView {
    pub title: Seq<char>,
    pub cluster: u32,
    pub blob: u32,
}

impl View for Hit {
    type V = HitView;

    open spec fn view(&self) -> HitView {
        HitView { title: self.title@, cluster: self.cluster, blob: self.blob }
    }
}

/// The title of a hit: the stored text, or the default where none is stored.
pub open spec fn title_of(stored: Option<StoredValueView>) -> Seq<char> {
    match stored {
        Some(StoredValueView::Text(text)) => text,
        _ => UNTITLED@,
    }
}

/// One half of a pointer: the stored number, or 0 where none is stored. A
/// number too large for a pointer of the archive counts as none.
pub open spec fn pointer_of(stored: Option<StoredValueView>) -> u32 {
    match stored {
        Some(StoredValueView::Number(n)) => if n <= u32::MAX {
            n as u32
        } else {
            0
        },
        _ => 0,
    }
}

/// The hit that three stored values make.
pub open spec fn hit_of(
    title: Option<StoredValueView>,
    cluster: Option<StoredValueView>,
    blob: Option<StoredValueView>,
) -> HitView {
    HitView { title: title_of(title), cluster: pointer_of(cluster), blob: pointer_of(blob) }
}

/// The hit for the document at `address`.
pub open spec fn hit_at(searcher: Searcher, fields: IndexFields, address: Address) -> HitView {
    hit_of(
        stored_value(searcher, address, fields.title),
        stored_value(searcher, address, fields.cluster),
        stored_value(searcher, address, fields.blob),
    )
}

/// Whether `hit` is what the index stores of one of the searcher's documents.
pub open spec fn is_hit(searcher: Searcher, fields: IndexFields, hit: HitView) -> bool {
    exists|address: Address| #[trigger]
        documents(searcher).contains(address) && hit == hit_at(searcher, fields, address)
}

/// The number under which half of a pointer is stored.
pub open spec fn stored_pointer(half: u32) -> StoredValueView {
    StoredValueView::Number(half as u64)
}

/// A query without clauses.
///
/// Trusted: calls `tantivy::query::BooleanQuery::union` on no queries.
#[verifier::external_body]
fn no_clauses() -> (query: BooleanQuery)
    ensures
        clauses(query) == Seq::<Clause>::empty(),
{
    BooleanQuery::union(Vec::new())
}

/// `query` with one more clause: the terms of `field` within `distance`
/// edits of `token`.
///
/// Trusted: copies the clauses of `query`, adds a
/// `tantivy::query::FuzzyTermQuery::new` on the term that
/// `tantivy::Term::from_field_text` makes, and joins them with
/// `tantivy::query::BooleanQuery::union`.
#[verifier::external_body]
fn or_term(query: &BooleanQuery, field: u32, token: &str, distance: u8, transposition: bool) -> (longer:
    BooleanQuery)
    ensures
        clauses(longer) == clauses(*query).push(
            Clause {
                field,
                token: token@,
                distance,
                transposition_is_one_edit: transposition,
                prefix: false,
            },
        ),
{
    let mut all: Vec<Box<dyn Query>> = query.clauses().iter().map(|(_, q)| q.box_clone()).collect();
    let term = Term::from_field_text(Field::from_field_id(field), token);
    all.push(Box::new(FuzzyTermQuery::new(term, distance, transposition)));
    BooleanQuery::union(all)
}

/// `query` with one more clause: the terms of `field` of which a beginning
/// lies within `distance` edits of `token`.
///
/// Trusted: as `or_term`, with `tantivy::query::FuzzyTermQuery::new_prefix`.
#[verifier::external_body]
fn or_prefix(query: &BooleanQuery, field: u32, token: &str, distance: u8, transposition: bool) -> (longer:
    BooleanQuery)
    ensures
        clauses(longer) == clauses(*query).push(
            Clause {
                field,
                token: token@,
                distance,
                transposition_is_one_edit: transposition,
                prefix: true,
            },
        ),
{
    let mut all: Vec<Box<dyn Query>> = query.clauses().iter().map(|(_, q)| q.box_clone()).collect();
    let term = Term::from_field_text(Field::from_field_id(field), token);
    all.push(Box::new(FuzzyTermQuery::new_prefix(term, distance, transposition)));
    BooleanQuery::union(all)
}

/// The schema of the index that a searcher reads.
///
/// Trusted: copies what `tantivy::Searcher::schema` refers to.
#[verifier::external_body]
fn schema_of(searcher: &Searcher) -> (schema: Schema)
    ensures
        schema_fields(schema) == index_fields(*searcher),
{
    searcher.schema().clone()
}

/// The number of documents that a searcher sees.
///
/// Trusted: calls `tantivy::Searcher::num_docs`, which adds up, over the
/// searcher's segments, the documents that are not deleted.
#[verifier::external_body]
fn count_documents(searcher: &Searcher) -> (count: u64)
    ensures
        count == documents(*searcher).len(),
{
    searcher.num_docs()
}

/// The addresses of the documents that best satisfy either query, best
/// first.
///
/// Trusted: joins the two queries with `tantivy::query::BooleanQuery::union`
/// and calls `tantivy::Searcher::search` with the collector
/// `tantivy::collector::TopDocs::with_limit`. The collector panics on a
/// limit of 0 and sets room aside for `limit` hits in every segment, so the
/// limit is held to the number of documents; the search panics on a clause
/// whose field the schema lacks. For one searcher, one pair of queries and
/// one limit the answer is always the same, so it has a name, `ranked`. The
/// collector takes each matching document of a segment once and keeps at
/// most `limit` of all, so no address comes twice.
#[verifier::external_body]
fn top_documents(searcher: &Searcher, title: BooleanQuery, content: BooleanQuery, limit: usize) -> (found:
    Result<Vec<Address>, TantivyError>)
    requires
        0 < limit <= documents(*searcher).len(),
        within_schema(clauses(title), index_fields(*searcher)),
        within_schema(clauses(content), index_fields(*searcher)),
    ensures
        found matches Ok(addresses) ==> {
            &&& addresses@ == ranked(*searcher, clauses(title), clauses(content), limit)
            &&& addresses.len() <= limit
            &&& addresses@.no_duplicates()
            &&& forall|i: int|
                0 <= i < addresses.len() ==> documents(*searcher).contains(#[trigger] addresses[i])
        },
{
    let query = BooleanQuery::union(vec![Box::new(title), Box::new(content)]);
    let top = searcher.search(&query, &TopDocs::with_limit(limit))?;
    Ok(top.into_iter().map(|(_score, address)| (address.segment_ord, address.doc_id)).collect())
}

/// The first value that a document stores under a field.
///
/// Trusted: fetches the document with `tantivy::Searcher::doc`, which
/// panics on a segment that the searcher does not have, and reads the field
/// with `tantivy::Document::get_first`. The contract names what is read,
/// `stored_values`; a failure to read the store says nothing.
#[verifier::external_body]
fn first_value(searcher: &Searcher, address: Address, field: u32) -> (read: Result<
    Option<StoredValue>,
    TantivyError,
>)
    requires
        documents(*searcher).contains(address),
    ensures
        read matches Ok(value) ==> value_view(value) == (if stored_values(*searcher).contains_key(
            (address, field),
        ) {
            Some(stored_values(*searcher)[(address, field)])
        } else {
            None
        }),
{
    let document = searcher.doc(DocAddress::new(address.0, address.1))?;
    Ok(document.get_first(Field::from_field_id(field)).map(|value| match value {
        Value::Str(text) => StoredValue::Text(text.clone()),
        Value::U64(n) => StoredValue::Number(*n),
        _ => StoredValue::Other,
    }))
}

/// The title of a hit.
pub fn hit_title(stored: Option<StoredValue>) -> (title: String)
    ensures
        title@ == title_of(value_view(stored)),
{
    match stored {
        Some(StoredValue::Text(text)) => text,
        _ => UNTITLED.to_owned(),
    }
}

/// One half of the pointer of a hit.
pub fn hit_pointer(stored: Option<StoredValue>) -> (half: u32)
    ensures
        half == pointer_of(value_view(stored)),
{
    match stored {
        Some(StoredValue::Number(n)) => {
            if n <= 0xffff_ffff {
                n as u32
            } else {
                0
            }
        },
        _ => 0,
    }
}

/// What a hit that may be missing is to the contracts.
pub open spec fn hit_view(hit: Option<Hit>) -> Option<HitView> {
    match hit {
        Some(h) => Some(h@),
        None => None,
    }
}

/// The hit that three reads of the store amount to: the hit of the three
/// values where all were read, and none where a read failed.
pub open spec fn hit_of_reads(
    title: Result<Option<StoredValue>, TantivyError>,
    cluster: Result<Option<StoredValue>, TantivyError>,
    blob: Result<Option<StoredValue>, TantivyError>,
) -> Option<HitView> {
    match (title, cluster, blob) {
        (Ok(t), Ok(c), Ok(b)) => Some(hit_of(value_view(t), value_view(c), value_view(b))),
        _ => None,
    }
}

/// Makes the hit of a document from the outcomes of reading its title,
/// cluster and blob. A document of which any of the three could not be read
/// gives no hit.
pub fn hit_from_reads(
    title: Result<Option<StoredValue>, TantivyError>,
    cluster: Result<Option<StoredValue>, TantivyError>,
    blob: Result<Option<StoredValue>, TantivyError>,
) -> (hit: Option<Hit>)
    ensures
        hit_view(hit) == hit_of_reads(title, cluster, blob),
{
    match (title, cluster, blob) {
        (Ok(t), Ok(c), Ok(b)) => Some(
            Hit { title: hit_title(t), cluster: hit_pointer(c), blob: hit_pointer(b) },
        ),
        _ => None,
    }
}

/// The outcome of reading the title, the cluster and the blob of one document.
pub type Reads = (
    Result<Option<StoredValue>, TantivyError>,
    Result<Option<StoredValue>, TantivyError>,
    Result<Option<StoredValue>, TantivyError>,
);

/// The views of a list of hits, in order.
pub open spec fn hits_view(hits: Seq<Hit>) -> Seq<HitView> {
    hits.map_values(|h: Hit| h@)
}

/// The hits that the first `count` of `reads` amount to, in order: the hit
/// of each document of which all three values were read.
pub open spec fn kept_hits(reads: Seq<Reads>, count: int) -> Seq<HitView>
    decreases count,
{
    if count <= 0 {
        Seq::empty()
    } else {
        match hit_of_reads(reads[count - 1].0, reads[count - 1].1, reads[count - 1].2) {
            Some(hit) => kept_hits(reads, count - 1).push(hit),
            None => kept_hits(reads, count - 1),
        }
    }
}

/// Makes the hits of a query from what was read of the documents that the
/// index answered, in the order of the answer. A document of which a value
/// could not be read is left out; it does not fail the query.
pub fn hits_of_reads(reads: Vec<Reads>) -> (hits: Vec<Hit>)
    ensures
        hits_view(hits@) == kept_hits(reads@, reads@.len() as int),
{
    let ghost all = reads@;
    let count = reads.len();
    let mut reads = reads;
    let mut hits: Vec<Hit> = Vec::new();
    let mut i: usize = 0;
    assert(hits_view(hits@) =~= kept_hits(all, 0));
    while i < count
        invariant
            i <= count,
            count == reads.len(),
            all.len() == count,
            forall|k: int| i <= k < count ==> #[trigger] reads[k] == all[k],
            hits_view(hits@) == kept_hits(all, i as int),
        decreases count - i,
    {
        let mut read: Reads = (Ok(None), Ok(None), Ok(None));
        core::mem::swap(&mut read, &mut reads[i]);
        let ghost before = hits_view(hits@);
        match hit_from_reads(read.0, read.1, read.2) {
            Some(hit) => {
                hits.push(hit);
                assert(hits_view(hits@) =~= before.push(hit@));
            },
            None => {},
        }
        i += 1;
    }
    hits
}

/// Builds the two queries of a plan: one on the lower-cased titles and one
/// on the contents, each with a clause per term query of the plan.
pub fn build_queries(fields: &IndexFields, plan: &Vec<TermQuery>) -> (queries: (
    BooleanQuery,
    BooleanQuery,
))
    ensures
        clauses(queries.0) == clauses_for(plan_view(plan@), fields.title_lowercase),
        clauses(queries.1) == clauses_for(plan_view(plan@), fields.content),
{
    let mut title = no_clauses();
    let mut content = no_clauses();
    let ghost planned = plan_view(plan@);
    let mut i: usize = 0;
    while i < plan.len()
        invariant
            i <= plan.len(),
            planned == plan_view(plan@),
            clauses(title) == clauses_for(planned, fields.title_lowercase).take(i as int),
            clauses(content) == clauses_for(planned, fields.content).take(i as int),
        decreases plan.len() - i,
    {
        let token = plan[i].token.as_str();
        assert(planned[i as int] == plan[i as int]@);
        if plan[i].prefix {
            title = or_prefix(
                &title,
                fields.title_lowercase,
                token,
                MAX_EDIT_DISTANCE,
                TRANSPOSITION_IS_ONE_EDIT,
            );
            content = or_prefix(
                &content,
                fields.content,
                token,
                MAX_EDIT_DISTANCE,
                TRANSPOSITION_IS_ONE_EDIT,
            );
        } else {
            title = or_term(
                &title,
                fields.title_lowercase,
                token,
                MAX_EDIT_DISTANCE,
                TRANSPOSITION_IS_ONE_EDIT,
            );
            content = or_term(
                &content,
                fields.content,
                token,
                MAX_EDIT_DISTANCE,
                TRANSPOSITION_IS_ONE_EDIT,
            );
        }
        i += 1;
        assert(clauses(title) =~= clauses_for(planned, fields.title_lowercase).take(i as int));
        assert(clauses(content) =~= clauses_for(planned, fields.content).take(i as int));
    }
    assert(clauses_for(planned, fields.title_lowercase).take(i as int) =~= clauses_for(
        planned,
        fields.title_lowercase,
    ));
    assert(clauses_for(planned, fields.content).take(i as int) =~= clauses_for(
        planned,
        fields.content,
    ));
    (title, content)
}

/// An index that was opened for searching: the searcher, and the fields of
/// the schema as the searcher's index numbers them.
pub struct Library {
    searcher: Searcher,
    fields: IndexFields,
}

/// What a [`Library`] is to the contracts.
pub struct LibraryView {
    pub searcher: Searcher,
    pub fields: IndexFields,
}

impl View for Library {
    type V = LibraryView;

    closed spec fn view(&self) -> LibraryView {
        LibraryView { searcher: self.searcher, fields: self.fields }
    }
}

/// Whether an index has every field of the layout.
pub open spec fn has_all_fields(fields: Seq<(Seq<char>, FieldKind)>) -> bool {
    has_field(fields, "title"@) && has_field(fields, "title_lowercase"@) && has_field(
        fields,
        "content"@,
    ) && has_field(fields, "cluster"@) && has_field(fields, "blob"@)
}

impl Library {
    #[verifier::type_invariant]
    spec fn inv(&self) -> bool {
        fields_match(index_fields(self.searcher), self.fields)
    }

    /// Takes a searcher into service. `None` where its index lacks a field
    /// of the layout.
    pub fn open(searcher: Searcher) -> (opened: Option<Library>)
        ensures
            opened is Some == has_all_fields(index_fields(searcher)),
            opened matches Some(library) ==> library@.searcher == searcher && fields_match(
                index_fields(searcher),
                library@.fields,
            ),
    {
        let schema = schema_of(&searcher);
        match resolve_fields(&schema) {
            Some(fields) => Some(Library { searcher, fields }),
            None => None,
        }
    }

    /// The fields of the index, by number.
    pub fn fields(&self) -> (fields: IndexFields)
        ensures
            fields == self@.fields,
            fields_match(index_fields(self@.searcher), fields),
    {
        proof {
            use_type_invariant(self);
        }
        self.fields
    }

    /// The searcher.
    pub fn searcher(&self) -> (searcher: &Searcher)
        ensures
            *searcher == self@.searcher,
    {
        &self.searcher
    }

    /// Searches the index for `title` and returns the hits of the documents
    /// that match best, best first, and no more than `limit` of them.
    ///
    /// Every token but the last is looked for within the edit distance in
    /// the lower-cased titles and in the contents; the last token is looked
    /// for as the beginning of a term. A document matches if any token
    /// matches in either field. The hits come in the order in which the
    /// index answers; a hit whose stored fields cannot be read is left out.
    pub fn search(&self, title: &str, limit: usize) -> (found: Result<Vec<Hit>, QueryError>)
        ensures
            tokens(title@).len() == 0 <==> found == Err::<Vec<Hit>, QueryError>(QueryError::Parse),
            tokens(title@).len() > 0 && asked(self@.searcher, limit) == 0 ==> found is Ok,
            found matches Err(e) ==> e == QueryError::Parse || e == QueryError::Io,
            found matches Ok(hits) ==> {
                &&& hits.len() <= limit
                &&& is_read_of(
                    self@.searcher,
                    self@.fields,
                    answer(self@.searcher, self@.fields, title@, limit),
                    hits_view(hits@),
                )
                &&& forall|i: int|
                    0 <= i < hits.len() ==> is_hit(
                        self@.searcher,
                        self@.fields,
                        (#[trigger] hits[i])@,
                    )
            },
    {
        proof {
            use_type_invariant(self);
        }
        let plan = match plan_query(title) {
            Ok(plan) => plan,
            Err(e) => {
                return Err(e);
            },
        };
        let held = count_documents(&self.searcher);
        let wanted = limit_to_ask(limit, held);
        if wanted == 0 {
            let none: Vec<Hit> = Vec::new();
            proof {
                lemma_nothing_read(self.searcher, self.fields);
                assert(hits_view(none@) =~= Seq::<HitView>::empty());
            }
            return Ok(none);
        }
        let (in_titles, in_contents) = build_queries(&self.fields, &plan);
        let addresses = match top_documents(&self.searcher, in_titles, in_contents, wanted) {
            Ok(addresses) => addresses,
            Err(_) => {
                return Err(QueryError::Io);
            },
        };
        let mut reads: Vec<Reads> = Vec::new();
        let ghost mut readable: Seq<bool> = Seq::empty();
        let mut k: usize = 0;
        while k < addresses.len()
            invariant
                k <= addresses.len(),
                reads.len() == k,
                readable.len() == k,
                forall|i: int|
                    0 <= i < addresses.len() ==> documents(self.searcher).contains(
                        #[trigger] addresses[i],
                    ),
                forall|i: int| 0 <= i < k ==> reads_match(
                    self.searcher,
                    self.fields,
                    addresses[i],
                    #[trigger] reads[i],
                    readable[i],
                ),
            decreases addresses.len() - k,
        {
            let address = addresses[k];
            let read_title = first_value(&self.searcher, address, self.fields.title);
            let read_cluster = first_value(&self.searcher, address, self.fields.cluster);
            let read_blob = first_value(&self.searcher, address, self.fields.blob);
            proof {
                readable = readable.push(read_title is Ok && read_cluster is Ok && read_blob is Ok);
            }
            reads.push((read_title, read_cluster, read_blob));
            k += 1;
        }
        let hits = hits_of_reads(reads);
        proof {
            lemma_hits_of_matching_reads(
                self.searcher,
                self.fields,
                addresses@,
                reads@,
                readable,
                addresses@.len() as int,
            );
            lemma_readable_hits(
                self.searcher,
                self.fields,
                addresses@,
                readable,
                addresses@.len() as int,
            );
            let read = readable_hits(
                self.searcher,
                self.fields,
                addresses@,
                readable,
                addresses@.len() as int,
            );
            assert(hits_view(hits@) == read);
            assert(is_read_of(self.searcher, self.fields, addresses@, hits_view(hits@)));
            assert(addresses@ == answer(self.searcher, self.fields, title@, limit));
            assert(hits_view(hits@).len() == hits.len());
            assert forall|i: int| 0 <= i < hits.len() implies is_hit(
                self.searcher,
                self.fields,
                (#[trigger] hits[i])@,
            ) by {
                assert(hits[i]@ == read[i]);
            }
        }
        Ok(hits)
    }
}

/// The limit that the index is asked with: the caller's limit, but no more
/// than the documents that the index holds, since it cannot answer more.
pub open spec fn limit_asked(limit: usize, held: nat) -> usize {
    if limit <= held {
        limit
    } else {
        held as usize
    }
}

/// The limit that a searcher is asked with for a caller's limit.
pub open spec fn asked(searcher: Searcher, limit: usize) -> usize {
    limit_asked(limit, documents(searcher).len())
}

/// The limit to ask an index of `held` documents with.
pub fn limit_to_ask(limit: usize, held: u64) -> (wanted: usize)
    ensures
        wanted == limit_asked(limit, held as nat),
{
    if held >= limit as u64 {
        limit
    } else {
        held as usize
    }
}

/// What the index answers to a search for `text` at a caller's limit: the
/// ranking for the clauses of the text's plan on the lower-cased titles and
/// on the contents; nothing where nothing is asked.
pub open spec fn answer(searcher: Searcher, fields: IndexFields, text: Seq<char>, limit: usize) -> Seq<
    Address,
> {
    if asked(searcher, limit) == 0 {
        Seq::empty()
    } else {
        ranked(
            searcher,
            clauses_for(plan_of(tokens(text)), fields.title_lowercase),
            clauses_for(plan_of(tokens(text)), fields.content),
            asked(searcher, limit),
        )
    }
}

/// The hits of the first `count` of `addresses`, in order, without those
/// that `readable` marks as not read.
pub open spec fn readable_hits(
    searcher: Searcher,
    fields: IndexFields,
    addresses: Seq<Address>,
    readable: Seq<bool>,
    count: int,
) -> Seq<HitView>
    decreases count,
{
    if count <= 0 {
        Seq::empty()
    } else if readable[count - 1] {
        readable_hits(searcher, fields, addresses, readable, count - 1).push(
            hit_at(searcher, fields, addresses[count - 1]),
        )
    } else {
        readable_hits(searcher, fields, addresses, readable, count - 1)
    }
}

/// Whether `hits` are the hits of `addresses`, in order and without those
/// of the documents whose stored fields could not be read.
pub open spec fn is_read_of(
    searcher: Searcher,
    fields: IndexFields,
    addresses: Seq<Address>,
    hits: Seq<HitView>,
) -> bool {
    exists|readable: Seq<bool>|
        readable.len() == addresses.len() && hits == #[trigger] readable_hits(
            searcher,
            fields,
            addresses,
            readable,
            addresses.len() as int,
        )
}

/// Whether `reads` is what reading the document at `address` gave, and
/// `readable` says whether all of it was read.
pub open spec fn reads_match(
    searcher: Searcher,
    fields: IndexFields,
    address: Address,
    reads: Reads,
    readable: bool,
) -> bool {
    &&& readable == (reads.0 is Ok && reads.1 is Ok && reads.2 is Ok)
    &&& reads.0 matches Ok(value) ==> value_view(value) == stored_value(
        searcher,
        address,
        fields.title,
    )
    &&& reads.1 matches Ok(value) ==> value_view(value) == stored_value(
        searcher,
        address,
        fields.cluster,
    )
    &&& reads.2 matches Ok(value) ==> value_view(value) == stored_value(
        searcher,
        address,
        fields.blob,
    )
}

proof fn lemma_nothing_read(searcher: Searcher, fields: IndexFields)
    ensures
        is_read_of(searcher, fields, Seq::empty(), Seq::empty()),
{
    let readable = Seq::<bool>::empty();
    let none = Seq::<Address>::empty();
    assert(readable.len() == none.len());
    assert(readable_hits(searcher, fields, none, readable, none.len() as int) =~= Seq::<
        HitView,
    >::empty());
}

proof fn lemma_hits_of_matching_reads(
    searcher: Searcher,
    fields: IndexFields,
    addresses: Seq<Address>,
    reads: Seq<Reads>,
    readable: Seq<bool>,
    count: int,
)
    requires
        0 <= count <= addresses.len(),
        reads.len() == addresses.len(),
        readable.len() == addresses.len(),
        forall|i: int|
            0 <= i < addresses.len() ==> reads_match(
                searcher,
                fields,
                addresses[i],
                #[trigger] reads[i],
                readable[i],
            ),
    ensures
        kept_hits(reads, count) == readable_hits(searcher, fields, addresses, readable, count),
    decreases count,
{
    if count > 0 {
        lemma_hits_of_matching_reads(searcher, fields, addresses, reads, readable, count - 1);
        assert(reads_match(
            searcher,
            fields,
            addresses[count - 1],
            reads[count - 1],
            readable[count - 1],
        ));
    }
}

/// The hits that were read are hits of the searcher's documents, and no
/// more than there are addresses.
proof fn lemma_readable_hits(
    searcher: Searcher,
    fields: IndexFields,
    addresses: Seq<Address>,
    readable: Seq<bool>,
    count: int,
)
    requires
        0 <= count <= addresses.len(),
        readable.len() == addresses.len(),
        forall|i: int| 0 <= i < addresses.len() ==> documents(searcher).contains(
            #[trigger] addresses[i],
        ),
    ensures
        readable_hits(searcher, fields, addresses, readable, count).len() <= count,
        forall|i: int|
            0 <= i < readable_hits(searcher, fields, addresses, readable, count).len() ==> is_hit(
                searcher,
                fields,
                #[trigger] readable_hits(searcher, fields, addresses, readable, count)[i],
            ),
    decreases count,
{
    if count > 0 {
        lemma_readable_hits(searcher, fields, addresses, readable, count - 1);
        assert(documents(searcher).contains(addresses[count - 1]));
    }
}

/// The clauses that the index is asked for a text: for each token, in
/// order, one on the lower-cased titles and one on the contents, and only
/// the clauses of the last token are prefix clauses.
pub proof fn law_only_the_last_token_is_sought_as_a_prefix(
    text: Seq<char>,
    fields: IndexFields,
    i: int,
)
    requires
        0 <= i < tokens(text).len(),
    ensures
        ({
            let in_titles = clauses_for(plan_of(tokens(text)), fields.title_lowercase);
            let in_contents = clauses_for(plan_of(tokens(text)), fields.content);
            &&& in_titles.len() == tokens(text).len()
            &&& in_contents.len() == tokens(text).len()
            &&& in_titles[i].field == fields.title_lowercase
            &&& in_contents[i].field == fields.content
            &&& in_titles[i].token == tokens(text)[i]
            &&& in_contents[i].token == tokens(text)[i]
            &&& in_titles[i].distance == 1 && in_contents[i].distance == 1
            &&& in_titles[i].transposition_is_one_edit && in_contents[i].transposition_is_one_edit
            &&& in_titles[i].prefix == (i == tokens(text).len() - 1)
            &&& in_contents[i].prefix == (i == tokens(text).len() - 1)
        }),
{
}

/// The article of a hit: its title, and the body as the archive holds it
/// under the hit's pointer. `None` where the body could not be fetched or
/// is not text.
pub open spec fn article_of(title: Seq<char>, body: Option<Seq<u8>>) -> Option<ArticleView> {
    match body {
        Some(bytes) => if valid_utf8(bytes) {
            Some(ArticleView { title, content_html: decode_utf8(bytes) })
        } else {
            None
        },
        None => None,
    }
}

/// Makes the article of a hit from the bytes that the archive gave for its pointer.
pub fn article_from(title: String, body: Option<Vec<u8>>) -> (article: Option<Article>)
    ensures
        article_view(article) == article_of(title@, body_view(body)),
{
    match body {
        Some(bytes) => match text_from_utf8(bytes) {
            Some(content_html) => Some(Article { title, content_html }),
            None => None,
        },
        None => None,
    }
}

/// What fetched bytes are to the contracts.
pub open spec fn body_view(body: Option<Vec<u8>>) -> Option<Seq<u8>> {
    match body {
        Some(bytes) => Some(bytes@),
        None => None,
    }
}

/// What an article that may be missing is to the contracts.
pub open spec fn article_view(article: Option<Article>) -> Option<ArticleView> {
    match article {
        Some(a) => Some(a@),
        None => None,
    }
}

/// What was fetched for a list of hits is to the contracts: each hit's title
/// with the bytes that the archive gave for it, if it gave any.
pub open spec fn fetched_view(fetched: Seq<(String, Option<Vec<u8>>)>) -> Seq<
    (Seq<char>, Option<Seq<u8>>),
> {
    fetched.map_values(|f: (String, Option<Vec<u8>>)| (f.0@, body_view(f.1)))
}

/// The articles of the first `count` hits, in order; a hit without an
/// article is left out.
pub open spec fn articles_of(fetched: Seq<(Seq<char>, Option<Seq<u8>>)>, count: int) -> Seq<
    ArticleView,
>
    decreases count,
{
    if count <= 0 {
        Seq::empty()
    } else {
        match article_of(fetched[count - 1].0, fetched[count - 1].1) {
            Some(article) => articles_of(fetched, count - 1).push(article),
            None => articles_of(fetched, count - 1),
        }
    }
}

/// Makes the result set of a query from its hits and what the archive gave
/// for each: the articles in the order of the hits. A hit whose body could
/// not be fetched or is not text is dropped; it does not fail the query.
pub fn collect_articles(fetched: Vec<(String, Option<Vec<u8>>)>) -> (articles: Vec<Article>)
    ensures
        articles_view(articles@) == articles_of(
            fetched_view(fetched@),
            fetched@.len() as int,
        ),
{
    let ghost all = fetched_view(fetched@);
    let count = fetched.len();
    let mut fetched = fetched;
    let mut articles: Vec<Article> = Vec::new();
    let mut i: usize = 0;
    assert(articles_view(articles@) =~= articles_of(all, 0));
    while i < count
        invariant
            i <= count,
            count == fetched.len(),
            all.len() == count,
            forall|k: int|
                i <= k < count ==> (#[trigger] fetched[k]).0@ == all[k].0 && body_view(fetched[k].1)
                    == all[k].1,
            articles_view(articles@) == articles_of(all, i as int),
        decreases count - i,
    {
        let mut taken: (String, Option<Vec<u8>>) = (String::new(), None);
        core::mem::swap(&mut taken, &mut fetched[i]);
        let ghost before = articles_view(articles@);
        match article_from(taken.0, taken.1) {
            Some(article) => {
                articles.push(article);
                assert(articles_view(articles@) =~= before.push(article@));
            },
            None => {},
        }
        i += 1;
    }
    articles
}

} // verus!
