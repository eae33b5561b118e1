//! The context that a `tera` template is rendered with. The rendering
//! itself is left to the caller: see `page`.

use tera::{Context, Value};
use vstd::prelude::*;

verus! {

/// The values that a template is rendered with, by name.
#[verifier::external_type_specification]
#[verifier::external_body]
pub struct ExContext(Context);

/// What the engine reports when it cannot render.
#[verifier::external_type_specification]
#[verifier::external_body]
pub struct ExError(tera::Error);

/// A value that a context holds under a name.
pub enum ContextValue {
    /// A string.
    Text(Seq<char>),
    /// An array of objects, each a map from field names to strings.
    Records(Seq<Map<Seq<char>, Seq<char>>>),
}

/// What `context` holds: for each name, the value last inserted under it.
pub uninterp spec fn context_entries(context: Context) -> Map<
    Seq<char>,
    ContextValue,
>;

/// The entries of a context that holds nothing.
pub open spec fn no_entries() -> Map<Seq<char>, ContextValue> {
    Map::empty()
}

/// `tera::Context::new` makes a context that holds nothing.
pub assume_specification[ Context::new ]() -> (context: Context)
    ensures
        context_entries(context) == no_entries(),
;

/// The fields of a record as plain text pairs.
pub open spec fn field_views(fields: Seq<(String, String)>) -> Seq<(Seq<char>, Seq<char>)> {
    Seq::new(fields.len(), |i: int| (fields[i].0@, fields[i].1@))
}

/// The object that a sequence of fields makes: each name with its value,
/// a later field replacing an earlier one of the same name.
pub open spec fn record_of(fields: Seq<(Seq<char>, Seq<char>)>) -> Map<
    Seq<char>,
    Seq<char>,
>
    decreases fields.len(),
{
    if fields.len() == 0 {
        Map::empty()
    } else {
        record_of(fields.drop_last()).insert(fields.last().0, fields.last().1)
    }
}

/// Whether no two of `fields` have the same name.
pub open spec fn has_distinct_names(fields: Seq<(Seq<char>, Seq<char>)>) -> bool {
    forall|i: int, j: int| 0 <= i < j < fields.len() ==> fields[i].0 != fields[j].0
}

/// Whether in each of `records` no two fields have the same name.
pub open spec fn have_distinct_names(records: Seq<Vec<(String, String)>>) -> bool {
    forall|i: int|
        0 <= i < records.len() ==> has_distinct_names(field_views(#[trigger] records[i]@))
}

/// The objects that a sequence of records makes, in order.
pub open spec fn records_of(records: Seq<Vec<(String, String)>>) -> Seq<
    Map<Seq<char>, Seq<char>>,
> {
    Seq::new(records.len(), |i: int| record_of(field_views(records[i]@)))
}

/// Calls `tera::Context::insert` with a string for the value: the context
/// then holds that string under `key`, in place of what it held there, and
/// everything else as before. The value is stored as a JSON string, which
/// cannot fail.
#[verifier::external_body]
fn insert_text(context: &mut Context, key: &str, value: &str)
    ensures
        context_entries(*final(context)) == context_entries(*old(context)).insert(
            key@,
            ContextValue::Text(value@),
        ),
{
    context.insert(key, value);
}

/// Calls `tera::Context::insert` with an array of JSON objects for the
/// value, one object for each record and in it one string for each field:
/// the context then holds that array under `key`, in place of what it held
/// there, and everything else as before. Each object is collected from its
/// record's fields; which of two fields of one name such an object would
/// keep is not relied on, since the names of a record must differ.
#[verifier::external_body]
fn insert_records(context: &mut Context, key: &str, records: &Vec<Vec<(String, String)>>)
    requires
        have_distinct_names(records@),
    ensures
        context_entries(*final(context)) == context_entries(*old(context)).insert(
            key@,
            ContextValue::Records(records_of(records@)),
        ),
{
    let rows: Vec<tera::Map<String, Value>> = records.iter().map(
        |fields| fields.iter().map(|(name, text)| (name.clone(), Value::String(text.clone()))).collect(),
    ).collect();
    context.insert(key, &rows);
}

/// Puts the string `value` into `context` under `key`.
pub fn set_text(context: &mut Context, key: &str, value: &str)
    ensures
        context_entries(*final(context)) == context_entries(*old(context)).insert(
            key@,
            ContextValue::Text(value@),
        ),
{
    insert_text(context, key, value);
}

/// Puts `records` into `context` under `key`, as an array of objects. No
/// record may hold two fields of one name.
pub fn set_records(context: &mut Context, key: &str, records: &Vec<Vec<(String, String)>>)
    requires
        have_distinct_names(records@),
    ensures
        context_entries(*final(context)) == context_entries(*old(context)).insert(
            key@,
            ContextValue::Records(records_of(records@)),
        ),
{
    insert_records(context, key, records);
}

/// Adds the field `name` with the text `value` to a record.
pub fn push_field(fields: &mut Vec<(String, String)>, name: &str, value: &str)
    ensures
        field_views(final(fields)@) == field_views(old(fields)@).push((name@, value@)),
        record_of(field_views(final(fields)@)) == record_of(field_views(old(fields)@)).insert(
            name@,
            value@,
        ),
{
    let ghost before = field_views(fields@);
    fields.push((name.to_owned(), value.to_owned()));
    proof {
        let after = field_views(fields@);
        assert(after =~= before.push((name@, value@)));
        assert(after.drop_last() =~= before);
    }
}

} // verus!
