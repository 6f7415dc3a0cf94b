//! The schema of the index: which fields a document has, and how each is kept.
//!
//! The title is stored as it is and not searched; a lower-cased copy of it
//! and the plain text of the body are searched and not stored; cluster and
//! blob, which point at the body in the archive, are stored numbers.

use vstd::prelude::*;
use tantivy::schema::{Schema, SchemaBuilder, STORED, TEXT};

verus! {

#[verifier::external_type_specification]
#[verifier::external_body]
pub struct ExSchemaBuilder(SchemaBuilder);

#[verifier::external_type_specification]
#[verifier::external_body]
pub struct ExSchema(Schema);

/// The fields of the index, each by its number in the schema.
#[derive(Debug, Clone, Copy, PartialEq, Eq, Structural)]
pub struct IndexFields {
    pub title: u32,
    pub title_lowercase: u32,
    pub content: u32,
    pub cluster: u32,
    pub blob: u32,
}

/// How the index keeps a field.
#[derive(Debug, Clone, Copy, PartialEq, Eq, Structural)]
pub enum FieldKind {
    /// Text that is stored and not searched.
    StoredText,
    /// Text that is split into terms and searched, and not stored.
    SearchedText,
    /// An unsigned number that is stored.
    StoredNumber,
}

/// The fields that were added to a builder, in order: name and kind.
pub uninterp spec fn builder_fields(builder: SchemaBuilder) -> Seq<(Seq<char>, FieldKind)>;

/// The fields of a schema, in order: name and kind. A field's number is its
/// place in this sequence.
pub uninterp spec fn schema_fields(schema: Schema) -> Seq<(Seq<char>, FieldKind)>;

/// Whether a field of this name is among `fields`.
pub open spec fn has_field(fields: Seq<(Seq<char>, FieldKind)>, name: Seq<char>) -> bool {
    exists|i: int| 0 <= i < fields.len() && (#[trigger] fields[i]).0 == name
}

/// Whether a field may be added under this name: the name is not empty,
/// does not begin with a hyphen, and is not taken; and the builder has room.
pub open spec fn can_add(fields: Seq<(Seq<char>, FieldKind)>, name: Seq<char>) -> bool {
    &&& name.len() > 0
    &&& name[0] != '-'
    &&& !has_field(fields, name)
    &&& fields.len() < u32::MAX
}

/// The fields of this library's index, in the order of their numbers.
pub open spec fn index_layout() -> Seq<(Seq<char>, FieldKind)> {
    seq![
        ("title"@, FieldKind::StoredText),
        ("title_lowercase"@, FieldKind::SearchedText),
        ("cluster"@, FieldKind::StoredNumber),
        ("blob"@, FieldKind::StoredNumber),
        ("content"@, FieldKind::SearchedText),
    ]
}

/// The numbers of the fields in a schema of that layout.
pub open spec fn layout_fields() -> IndexFields {
    IndexFields { title: 0, title_lowercase: 1, cluster: 2, blob: 3, content: 4 }
}

/// Whether `fields` names, for each field of the layout, a field of that
/// name in `schema`.
pub open spec fn fields_match(schema: Seq<(Seq<char>, FieldKind)>, fields: IndexFields) -> bool {
    &&& fields.title < schema.len() && schema[fields.title as int].0 == "title"@
    &&& fields.title_lowercase < schema.len() && schema[fields.title_lowercase as int].0
        == "title_lowercase"@
    &&& fields.cluster < schema.len() && schema[fields.cluster as int].0 == "cluster"@
    &&& fields.blob < schema.len() && schema[fields.blob as int].0 == "blob"@
    &&& fields.content < schema.len() && schema[fields.content as int].0 == "content"@
}

/// A builder without fields.
///
/// Trusted: calls `tantivy::schema::Schema::builder`, which gives the
/// default builder; it holds no field.
#[verifier::external_body]
fn new_builder() -> (builder: SchemaBuilder)
    ensures
        builder_fields(builder) == Seq::<(Seq<char>, FieldKind)>::empty(),
{
    Schema::builder()
}

/// Adds a text field that is stored and not searched; returns its number.
///
/// Trusted: calls `tantivy::schema::SchemaBuilder::add_text_field` with the
/// option `STORED`. The builder appends the field and numbers it by its
/// place; it panics on a name that is taken and on one that is empty or
/// begins with a hyphen.
#[verifier::external_body]
fn add_stored_text(builder: &mut SchemaBuilder, name: &str) -> (field: u32)
    requires
        can_add(builder_fields(*old(builder)), name@),
    ensures
        builder_fields(*final(builder)) == builder_fields(*old(builder)).push(
            (name@, FieldKind::StoredText),
        ),
        field == builder_fields(*old(builder)).len(),
{
    builder.add_text_field(name, STORED).field_id()
}

/// Adds a text field that is searched and not stored; returns its number.
///
/// Trusted: calls `tantivy::schema::SchemaBuilder::add_text_field` with the
/// option `TEXT`; see `add_stored_text`.
#[verifier::external_body]
fn add_searched_text(builder: &mut SchemaBuilder, name: &str) -> (field: u32)
    requires
        can_add(builder_fields(*old(builder)), name@),
    ensures
        builder_fields(*final(builder)) == builder_fields(*old(builder)).push(
            (name@, FieldKind::SearchedText),
        ),
        field == builder_fields(*old(builder)).len(),
{
    builder.add_text_field(name, TEXT).field_id()
}

/// Adds a number field that is stored; returns its number.
///
/// Trusted: calls `tantivy::schema::SchemaBuilder::add_u64_field` with the
/// option `STORED`; see `add_stored_text`.
#[verifier::external_body]
fn add_stored_number(builder: &mut SchemaBuilder, name: &str) -> (field: u32)
    requires
        can_add(builder_fields(*old(builder)), name@),
    ensures
        builder_fields(*final(builder)) == builder_fields(*old(builder)).push(
            (name@, FieldKind::StoredNumber),
        ),
        field == builder_fields(*old(builder)).len(),
{
    builder.add_u64_field(name, STORED).field_id()
}

/// The schema of the fields that were added.
///
/// Trusted: calls `tantivy::schema::SchemaBuilder::build`, which moves the
/// builder's fields into the schema.
#[verifier::external_body]
fn finish(builder: SchemaBuilder) -> (schema: Schema)
    ensures
        schema_fields(schema) == builder_fields(builder),
{
    builder.build()
}

/// The number of the field of this name.
///
/// Trusted: calls `tantivy::schema::Schema::get_field`, which looks the
/// name up and fails where the schema has no such field.
#[verifier::external_body]
fn field_number(schema: &Schema, name: &str) -> (field: Option<u32>)
    ensures
        field is Some == has_field(schema_fields(*schema), name@),
        field matches Some(number) ==> number < schema_fields(*schema).len() && schema_fields(
            *schema,
        )[number as int].0 == name@,
{
    schema.get_field(name).ok().map(|field| field.field_id())
}

/// Builds the schema of the index.
pub fn build_schema() -> (built: (Schema, IndexFields))
    ensures
        schema_fields(built.0) == index_layout(),
        built.1 == layout_fields(),
{
    proof {
        reveal_strlit("title");
        reveal_strlit("title_lowercase");
        reveal_strlit("cluster");
        reveal_strlit("blob");
        reveal_strlit("content");
    }
    assert("title"@.len() == 5 && "title_lowercase"@.len() == 15 && "cluster"@.len() == 7
        && "blob"@.len() == 4 && "content"@.len() == 7);
    assert("content"@[1] == 'o' && "cluster"@[1] == 'l');
    let mut builder = new_builder();
    let title = add_stored_text(&mut builder, "title");
    assert(builder_fields(builder) =~= seq![("title"@, FieldKind::StoredText)]);
    let title_lowercase = add_searched_text(&mut builder, "title_lowercase");
    assert(builder_fields(builder) =~= index_layout().take(2));
    let cluster = add_stored_number(&mut builder, "cluster");
    assert(builder_fields(builder) =~= index_layout().take(3));
    let blob = add_stored_number(&mut builder, "blob");
    assert(builder_fields(builder) =~= index_layout().take(4));
    let content = add_searched_text(&mut builder, "content");
    assert(builder_fields(builder) =~= index_layout());
    let schema = finish(builder);
    (schema, IndexFields { title, title_lowercase, content, cluster, blob })
}

/// Finds the fields of the index in the schema of an index that was opened;
/// `None` where one of them is missing.
pub fn resolve_fields(schema: &Schema) -> (found: Option<IndexFields>)
    ensures
        found is Some == (has_field(schema_fields(*schema), "title"@) && has_field(
            schema_fields(*schema),
            "title_lowercase"@,
        ) && has_field(schema_fields(*schema), "content"@) && has_field(
            schema_fields(*schema),
            "cluster"@,
        ) && has_field(schema_fields(*schema), "blob"@)),
        found matches Some(fields) ==> fields_match(schema_fields(*schema), fields),
{
    let title = match field_number(schema, "title") {
        Some(field) => field,
        None => {
            return None;
        },
    };
    let title_lowercase = match field_number(schema, "title_lowercase") {
        Some(field) => field,
        None => {
            return None;
        },
    };
    let content = match field_number(schema, "content") {
        Some(field) => field,
        None => {
            return None;
        },
    };
    let cluster = match field_number(schema, "cluster") {
        Some(field) => field,
        None => {
            return None;
        },
    };
    let blob = match field_number(schema, "blob") {
        Some(field) => field,
        None => {
            return None;
        },
    };
    Some(IndexFields { title, title_lowercase, content, cluster, blob })
}

/// A schema that `build_schema` made is one in which `resolve_fields` finds
/// every field, under the number that it was given.
pub proof fn law_built_schema_resolves()
    ensures
        fields_match(index_layout(), layout_fields()),
        has_field(index_layout(), "title"@),
        has_field(index_layout(), "title_lowercase"@),
        has_field(index_layout(), "content"@),
        has_field(index_layout(), "cluster"@),
        has_field(index_layout(), "blob"@),
{
    assert(index_layout()[0].0 == "title"@);
    assert(index_layout()[1].0 == "title_lowercase"@);
    assert(index_layout()[2].0 == "cluster"@);
    assert(index_layout()[3].0 == "blob"@);
    assert(index_layout()[4].0 == "content"@);
}

} // verus!
