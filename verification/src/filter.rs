//! Query filters and their encoding into the operator documents that the
//! database reads.

pub mod laws;

use std::borrow::Cow;
use vstd::prelude::*;
use bson::{Bson, Document};
use crate::bson_type::{encoded_type, BsonType};
use crate::doc;
use crate::error::EncodeError;
use crate::raw::clone_values;
use crate::regex_opts::{encoded_options, RegexOpts};
use crate::value::{encodes_as, lemma_array_view, lemma_doc_view, StructuredValue, ValueModel};

verus! {

/// A map from field names to filters, in the order in which the fields were
/// first inserted.
pub type FilterDoc = doc::Document<Filter>;

/// A condition on a field of a document.
#[derive(Debug, PartialEq)]
pub enum Filter {
    /// Matches if the field has the given value.
    Value(Bson),
    /// A sub-query: conditions on the named fields.
    Doc(FilterDoc),
    /// A sequence of sub-queries.
    Array(Vec<Filter>),
    /// Matches if the field is equal to the given value.
    Eq(Bson),
    /// Matches if the field is not equal to the given value.
    Ne(Bson),
    /// Matches if the field is greater than the given value.
    Gt(Bson),
    /// Matches if the field is less than the given value.
    Lt(Bson),
    /// Matches if the field is greater than or equal to the given value.
    Gte(Bson),
    /// Matches if the field is less than or equal to the given value.
    Lte(Bson),
    /// Matches if the value of the field is any of the given values.
    In(Vec<Bson>),
    /// Matches if the value of the field is none of the given values.
    Nin(Vec<Bson>),
    /// Matches if the field does not satisfy the given condition.
    Not(Box<Filter>),
    /// Matches if the field exists, or, given `false`, if it does not.
    Exists(bool),
    /// Matches if the type of the field is any of the given types.
    Type(BsonType),
    /// Matches if the value of the field satisfies the given JSON schema.
    JsonSchema(Document),
    /// Matches if the field is a string that the given regular expression
    /// matches under the given options.
    Regex(Cow<'static, str>, RegexOpts),
    /// Matches if the field is an array that holds all the given values.
    All(Vec<Bson>),
    /// Matches if the field is an array with an element that satisfies all
    /// the given conditions.
    ElemMatch(FilterDoc),
    /// Matches if the field is an array of the given length.
    Size(usize),
}

/// What a [`Filter`] holds, with strings as sequences of characters,
/// vectors and documents as sequences, and sets of flags as their bits.
pub ghost enum FilterModel {
    Value(Bson),
    Doc(Seq<(Seq<char>, FilterModel)>),
    Array(Seq<FilterModel>),
    Eq(Bson),
    Ne(Bson),
    Gt(Bson),
    Lt(Bson),
    Gte(Bson),
    Lte(Bson),
    In(Seq<Bson>),
    Nin(Seq<Bson>),
    Not(Box<FilterModel>),
    Exists(bool),
    Type(u16),
    JsonSchema(Document),
    Regex(Seq<char>, u8),
    All(Seq<Bson>),
    ElemMatch(Seq<(Seq<char>, FilterModel)>),
    Size(usize),
}

/// What `filter` holds.
pub open spec fn model_of(filter: Filter) -> FilterModel
    decreases filter, 0nat,
{
    match filter {
        Filter::Value(raw) => FilterModel::Value(raw),
        Filter::Doc(fields) => FilterModel::Doc(field_models_of(fields, fields@.len())),
        Filter::Array(items) => FilterModel::Array(models_of(items@, items@.len())),
        Filter::Eq(raw) => FilterModel::Eq(raw),
        Filter::Ne(raw) => FilterModel::Ne(raw),
        Filter::Gt(raw) => FilterModel::Gt(raw),
        Filter::Lt(raw) => FilterModel::Lt(raw),
        Filter::Gte(raw) => FilterModel::Gte(raw),
        Filter::Lte(raw) => FilterModel::Lte(raw),
        Filter::In(values) => FilterModel::In(values@),
        Filter::Nin(values) => FilterModel::Nin(values@),
        Filter::Not(inner) => FilterModel::Not(Box::new(model_of(*inner))),
        Filter::Exists(flag) => FilterModel::Exists(flag),
        Filter::Type(types) => FilterModel::Type(types@),
        Filter::JsonSchema(schema) => FilterModel::JsonSchema(schema),
        Filter::Regex(pattern, options) => FilterModel::Regex(pattern@, options@),
        Filter::All(values) => FilterModel::All(values@),
        Filter::ElemMatch(fields) => FilterModel::ElemMatch(
            field_models_of(fields, fields@.len()),
        ),
        Filter::Size(length) => FilterModel::Size(length),
    }
}

/// What the first `count` of `items` hold.
pub open spec fn models_of(items: Seq<Filter>, count: nat) -> Seq<FilterModel>
    decreases items, count,
{
    if count == 0 || count > items.len() {
        Seq::empty()
    } else {
        models_of(items, (count - 1) as nat).push(model_of(items[count - 1]))
    }
}

/// The names of the first `count` fields of `fields`, each with what its
/// filter holds.
pub open spec fn field_models_of(fields: FilterDoc, count: nat) -> Seq<(Seq<char>, FilterModel)>
    decreases fields, count,
{
    if count == 0 || count > fields@.len() {
        Seq::empty()
    } else {
        proof {
            fields.lemma_value_decreases(count - 1);
        }
        field_models_of(fields, (count - 1) as nat).push(
            (fields@[count - 1].0, model_of(fields@[count - 1].1)),
        )
    }
}

/// The names of the fields of `fields`, each with what its filter holds.
pub open spec fn doc_model(fields: FilterDoc) -> Seq<(Seq<char>, FilterModel)> {
    field_models_of(fields, fields@.len())
}

impl View for Filter {
    type V = FilterModel;

    open spec fn view(&self) -> FilterModel {
        model_of(*self)
    }
}

/// The models of a sequence of filters stand item by item.
pub proof fn lemma_models_of(items: Seq<Filter>, count: nat)
    requires
        count <= items.len(),
    ensures
        models_of(items, count).len() == count,
        forall|i: int| 0 <= i < count ==> (#[trigger] models_of(items, count)[i]) == items[i]@,
    decreases count,
{
    if count > 0 {
        lemma_models_of(items, (count - 1) as nat);
    }
}

/// The models of the fields of a document stand field by field.
pub proof fn lemma_field_models_of(fields: FilterDoc, count: nat)
    requires
        count <= fields@.len(),
    ensures
        field_models_of(fields, count).len() == count,
        forall|i: int|
            0 <= i < count ==> (#[trigger] field_models_of(fields, count)[i]) == (
                fields@[i].0,
                fields@[i].1@,
            ),
    decreases count,
{
    if count > 0 {
        lemma_field_models_of(fields, (count - 1) as nat);
    }
}

/// The document with the one entry `key`: `value`.
pub open spec fn operator(key: Seq<char>, value: ValueModel) -> ValueModel {
    ValueModel::Doc(seq![(key, value)])
}

/// The document with the one entry `key`: `value`, where there is a value.
pub open spec fn operator_on(key: Seq<char>, value: Result<ValueModel, EncodeError>) -> Result<
    ValueModel,
    EncodeError,
> {
    match value {
        Ok(value) => Ok(operator(key, value)),
        Err(error) => Err(error),
    }
}

/// The array of the given database values.
pub open spec fn raw_array(values: Seq<Bson>) -> ValueModel {
    ValueModel::Array(Seq::new(values.len(), |i: int| ValueModel::Raw(values[i])))
}

/// What a filter is encoded into. A filter that holds other filters fails
/// as the first of them that fails.
pub open spec fn encoded(filter: FilterModel) -> Result<ValueModel, EncodeError>
    decreases filter, 0nat,
{
    match filter {
        FilterModel::Value(raw) => Ok(ValueModel::Raw(raw)),
        FilterModel::Doc(fields) => encoded_fields(fields, fields.len()),
        FilterModel::Array(items) => match encoded_items(items, items.len()) {
            Ok(values) => Ok(ValueModel::Array(values)),
            Err(error) => Err(error),
        },
        FilterModel::Eq(raw) => Ok(operator("$eq"@, ValueModel::Raw(raw))),
        FilterModel::Ne(raw) => Ok(operator("$ne"@, ValueModel::Raw(raw))),
        FilterModel::Gt(raw) => Ok(operator("$gt"@, ValueModel::Raw(raw))),
        FilterModel::Lt(raw) => Ok(operator("$lt"@, ValueModel::Raw(raw))),
        FilterModel::Gte(raw) => Ok(operator("$gte"@, ValueModel::Raw(raw))),
        FilterModel::Lte(raw) => Ok(operator("$lte"@, ValueModel::Raw(raw))),
        FilterModel::In(values) => Ok(operator("$in"@, raw_array(values))),
        FilterModel::Nin(values) => Ok(operator("$nin"@, raw_array(values))),
        FilterModel::Not(inner) => operator_on("$not"@, encoded(*inner)),
        FilterModel::Exists(flag) => Ok(
            operator(
                "$exists"@,
                ValueModel::Int32(
                    if flag {
                        1
                    } else {
                        0
                    },
                ),
            ),
        ),
        FilterModel::Type(types) => operator_on("$type"@, encoded_type(types)),
        FilterModel::JsonSchema(schema) => Ok(
            operator("$jsonSchema"@, ValueModel::RawDocument(schema)),
        ),
        FilterModel::Regex(pattern, options) => if options == 0 {
            Ok(operator("$regex"@, ValueModel::Str(pattern)))
        } else {
            Ok(
                ValueModel::Doc(
                    seq![
                        ("$regex"@, ValueModel::Str(pattern)),
                        ("$options"@, ValueModel::Str(encoded_options(options))),
                    ],
                ),
            )
        },
        FilterModel::All(values) => Ok(operator("$all"@, raw_array(values))),
        FilterModel::ElemMatch(fields) => operator_on(
            "$elemMatch"@,
            encoded_fields(fields, fields.len()),
        ),
        FilterModel::Size(length) => if length > i64::MAX {
            Err(EncodeError::SizeOverflow(length))
        } else {
            Ok(operator("$size"@, ValueModel::Int64(length as i64)))
        },
    }
}

/// What the first `count` of `items` are encoded into.
pub open spec fn encoded_items(items: Seq<FilterModel>, count: nat) -> Result<
    Seq<ValueModel>,
    EncodeError,
>
    decreases items, count,
{
    if count == 0 || count > items.len() {
        Ok(Seq::empty())
    } else {
        match encoded_items(items, (count - 1) as nat) {
            Err(error) => Err(error),
            Ok(values) => match encoded(items[count - 1]) {
                Err(error) => Err(error),
                Ok(value) => Ok(values.push(value)),
            },
        }
    }
}

/// The document that the first `count` of `fields` are encoded into: each
/// name with the encoding of its filter, in the order of the fields.
pub open spec fn encoded_fields(fields: Seq<(Seq<char>, FilterModel)>, count: nat) -> Result<
    ValueModel,
    EncodeError,
>
    decreases fields, count,
{
    if count == 0 || count > fields.len() {
        Ok(ValueModel::Doc(Seq::empty()))
    } else {
        match encoded_fields(fields, (count - 1) as nat) {
            Err(error) => Err(error),
            Ok(before) => match encoded(fields[count - 1].1) {
                Err(error) => Err(error),
                Ok(value) => Ok(ValueModel::Doc(before->Doc_0.push((fields[count - 1].0, value)))),
            },
        }
    }
}

impl Filter {
    /// Encodes the filter into the document that the database reads. Two
    /// filters cannot be encoded: a `Size` whose length does not fit a
    /// 64-bit signed integer, and a `Type` with no type in it. A filter that
    /// holds other filters fails as the first of them that fails.
    pub fn serialize(&self) -> (result: Result<StructuredValue, EncodeError>)
        ensures
            encodes_as(result, encoded(self@)),
        decreases self,
    {
        match self {
            Filter::Value(raw) => Ok(StructuredValue::Raw(raw.clone())),
            Filter::Doc(fields) => fields.serialize(),
            Filter::Array(items) => serialize_items(items),
            Filter::Eq(raw) => Ok(Filter::serialize_map("$eq", StructuredValue::Raw(raw.clone()))),
            Filter::Ne(raw) => Ok(Filter::serialize_map("$ne", StructuredValue::Raw(raw.clone()))),
            Filter::Gt(raw) => Ok(Filter::serialize_map("$gt", StructuredValue::Raw(raw.clone()))),
            Filter::Lt(raw) => Ok(Filter::serialize_map("$lt", StructuredValue::Raw(raw.clone()))),
            Filter::Gte(raw) => Ok(
                Filter::serialize_map("$gte", StructuredValue::Raw(raw.clone())),
            ),
            Filter::Lte(raw) => Ok(
                Filter::serialize_map("$lte", StructuredValue::Raw(raw.clone())),
            ),
            Filter::In(values) => Ok(Filter::serialize_map("$in", serialize_values(values))),
            Filter::Nin(values) => Ok(Filter::serialize_map("$nin", serialize_values(values))),
            Filter::Not(inner) => match inner.serialize() {
                Ok(value) => Ok(Filter::serialize_map("$not", value)),
                Err(error) => Err(error),
            },
            Filter::Exists(flag) => {
                let number: i32 = if *flag {
                    1
                } else {
                    0
                };
                Ok(Filter::serialize_map("$exists", StructuredValue::Int32(number)))
            },
            Filter::Type(types) => match types.serialize() {
                Ok(value) => Ok(Filter::serialize_map("$type", value)),
                Err(error) => Err(error),
            },
            Filter::JsonSchema(schema) => Ok(
                Filter::serialize_map("$jsonSchema", StructuredValue::RawDocument(schema.clone())),
            ),
            Filter::Regex(pattern, options) => {
                if options.is_empty() {
                    Ok(Filter::serialize_map("$regex", StructuredValue::Str(owned(pattern))))
                } else {
                    let mut entries: Vec<(String, StructuredValue)> = Vec::new();
                    entries.push(("$regex".to_owned(), StructuredValue::Str(owned(pattern))));
                    entries.push(("$options".to_owned(), options.serialize()));
                    proof {
                        lemma_doc_view(entries);
                    }
                    let encoded = StructuredValue::Doc(entries);
                    assert(encoded@->Doc_0 =~= seq![
                        ("$regex"@, ValueModel::Str(pattern@)),
                        ("$options"@, ValueModel::Str(encoded_options(options@))),
                    ]);
                    Ok(encoded)
                }
            },
            Filter::All(values) => Ok(Filter::serialize_map("$all", serialize_values(values))),
            Filter::ElemMatch(fields) => match fields.serialize() {
                Ok(value) => Ok(Filter::serialize_map("$elemMatch", value)),
                Err(error) => Err(error),
            },
            Filter::Size(length) => {
                if *length as u64 > i64::MAX as u64 {
                    Err(EncodeError::SizeOverflow(*length))
                } else {
                    Ok(Filter::serialize_map("$size", StructuredValue::Int64(*length as i64)))
                }
            },
        }
    }

    /// The document with the one entry `key`: `value`.
    fn serialize_map(key: &str, value: StructuredValue) -> (encoded: StructuredValue)
        ensures
            encoded@ == operator(key@, value@),
    {
        let mut entries: Vec<(String, StructuredValue)> = Vec::new();
        entries.push((key.to_owned(), value));
        proof {
            lemma_doc_view(entries);
        }
        let encoded = StructuredValue::Doc(entries);
        assert(encoded@->Doc_0 =~= seq![(key@, value@)]);
        encoded
    }
}

impl doc::Document<Filter> {
    /// Encodes the document: each field name with the encoding of its
    /// filter, in the order of the fields. It fails as the first of its
    /// filters that fails.
    pub fn serialize(&self) -> (result: Result<StructuredValue, EncodeError>)
        ensures
            encodes_as(result, encoded(FilterModel::Doc(doc_model(*self)))),
        decreases self,
    {
        let ghost all = doc_model(*self);
        proof {
            lemma_field_models_of(*self, self@.len());
        }
        let mut out: Vec<(String, StructuredValue)> = Vec::new();
        let ghost mut done: Seq<(Seq<char>, ValueModel)> = Seq::empty();
        let count = self.len();
        let mut i: usize = 0;
        while i < count
            invariant
                i <= count,
                count == self@.len(),
                all == doc_model(*self),
                all.len() == self@.len(),
                forall|j: int|
                    0 <= j < self@.len() ==> (#[trigger] all[j]) == (self@[j].0, self@[j].1@),
                encoded_fields(all, i as nat) == Ok::<ValueModel, EncodeError>(
                    ValueModel::Doc(done),
                ),
                done.len() == out@.len(),
                forall|j: int|
                    0 <= j < out@.len() ==> ((#[trigger] out@[j]).0@, out@[j].1@) == done[j],
            decreases count - i,
        {
            let key = self.key_at(i).clone();
            let filter = self.value_at(i);
            proof {
                self.lemma_value_decreases(i as int);
            }
            match filter.serialize() {
                Ok(value) => {
                    proof {
                        done = done.push((key@, value@));
                    }
                    out.push((key, value));
                },
                Err(error) => {
                    proof {
                        assert(encoded_fields(all, (i + 1) as nat) == Err::<
                            ValueModel,
                            EncodeError,
                        >(error));
                        lemma_fields_failure_stays(all, (i + 1) as nat, all.len());
                    }
                    return Err(error);
                },
            }
            i += 1;
        }
        proof {
            lemma_doc_view(out);
        }
        let encoded = StructuredValue::Doc(out);
        assert(encoded@->Doc_0 =~= done);
        Ok(encoded)
    }
}

/// Encodes each of `items` and gives the array of the results, or the first
/// failure.
fn serialize_items(items: &Vec<Filter>) -> (result: Result<StructuredValue, EncodeError>)
    ensures
        encodes_as(result, encoded(FilterModel::Array(models_of(items@, items@.len())))),
    decreases items,
{
    let ghost all = models_of(items@, items@.len());
    proof {
        lemma_models_of(items@, items@.len());
    }
    let mut out: Vec<StructuredValue> = Vec::new();
    let ghost mut done: Seq<ValueModel> = Seq::empty();
    let mut i: usize = 0;
    while i < items.len()
        invariant
            i <= items@.len(),
            all == models_of(items@, items@.len()),
            all.len() == items@.len(),
            forall|j: int| 0 <= j < items@.len() ==> (#[trigger] all[j]) == items@[j]@,
            encoded_items(all, i as nat) == Ok::<Seq<ValueModel>, EncodeError>(done),
            done.len() == out@.len(),
            forall|j: int| 0 <= j < out@.len() ==> (#[trigger] out@[j])@ == done[j],
        decreases items@.len() - i,
    {
        match items[i].serialize() {
            Ok(value) => {
                proof {
                    done = done.push(value@);
                }
                out.push(value);
            },
            Err(error) => {
                proof {
                    assert(encoded_items(all, (i + 1) as nat) == Err::<
                        Seq<ValueModel>,
                        EncodeError,
                    >(error));
                    lemma_items_failure_stays(all, (i + 1) as nat, all.len());
                }
                return Err(error);
            },
        }
        i += 1;
    }
    proof {
        lemma_array_view(out);
    }
    let encoded = StructuredValue::Array(out);
    assert(encoded@->Array_0 =~= done);
    Ok(encoded)
}

/// The database values of `values` as an array.
fn serialize_values(values: &Vec<Bson>) -> (encoded: StructuredValue)
    ensures
        encoded@ == raw_array(values@),
{
    let mut items: Vec<StructuredValue> = Vec::new();
    let mut i: usize = 0;
    while i < values.len()
        invariant
            i <= values@.len(),
            items@.len() == i,
            forall|j: int| 0 <= j < i ==> (#[trigger] items@[j])@ == ValueModel::Raw(values@[j]),
        decreases values@.len() - i,
    {
        items.push(StructuredValue::Raw(values[i].clone()));
        i += 1;
    }
    proof {
        lemma_array_view(items);
    }
    let encoded = StructuredValue::Array(items);
    assert(encoded@->Array_0 =~= raw_array(values@)->Array_0);
    encoded
}

/// The characters of `text` as a string of their own.
fn owned(text: &Cow<'static, str>) -> (copy: String)
    ensures
        copy@ == text@,
{
    match text {
        Cow::Borrowed(text) => (*text).to_owned(),
        Cow::Owned(text) => text.clone(),
    }
}

/// A failure among the first `count` items is the failure of any more of
/// them.
proof fn lemma_items_failure_stays(items: Seq<FilterModel>, count: nat, more: nat)
    requires
        count <= more <= items.len(),
        encoded_items(items, count) is Err,
    ensures
        encoded_items(items, more) is Err,
        encoded_items(items, more)->Err_0 == encoded_items(items, count)->Err_0,
    decreases more - count,
{
    if count < more {
        lemma_items_failure_stays(items, count, (more - 1) as nat);
    }
}

/// A failure among the first `count` fields is the failure of any more of
/// them.
proof fn lemma_fields_failure_stays(fields: Seq<(Seq<char>, FilterModel)>, count: nat, more: nat)
    requires
        count <= more <= fields.len(),
        encoded_fields(fields, count) is Err,
    ensures
        encoded_fields(fields, more) == encoded_fields(fields, count),
    decreases more - count,
{
    if count < more {
        lemma_fields_failure_stays(fields, count, (more - 1) as nat);
    }
}

impl Clone for Filter {
    /// A copy that holds the same as the filter.
    fn clone(&self) -> (copy: Filter)
        ensures
            copy@ == self@,
        decreases self,
    {
        match self {
            Filter::Value(raw) => Filter::Value(raw.clone()),
            Filter::Doc(fields) => Filter::Doc(clone_fields(fields)),
            Filter::Array(items) => Filter::Array(clone_items(items)),
            Filter::Eq(raw) => Filter::Eq(raw.clone()),
            Filter::Ne(raw) => Filter::Ne(raw.clone()),
            Filter::Gt(raw) => Filter::Gt(raw.clone()),
            Filter::Lt(raw) => Filter::Lt(raw.clone()),
            Filter::Gte(raw) => Filter::Gte(raw.clone()),
            Filter::Lte(raw) => Filter::Lte(raw.clone()),
            Filter::In(values) => Filter::In(clone_values(values)),
            Filter::Nin(values) => Filter::Nin(clone_values(values)),
            Filter::Not(inner) => {
                let copy = (**inner).clone();
                Filter::Not(Box::new(copy))
            },
            Filter::Exists(flag) => Filter::Exists(*flag),
            Filter::Type(types) => Filter::Type(*types),
            Filter::JsonSchema(schema) => Filter::JsonSchema(schema.clone()),
            Filter::Regex(pattern, options) => {
                let copy = match pattern {
                    Cow::Borrowed(text) => Cow::Borrowed(*text),
                    Cow::Owned(text) => Cow::Owned(text.clone()),
                };
                Filter::Regex(copy, *options)
            },
            Filter::All(values) => Filter::All(clone_values(values)),
            Filter::ElemMatch(fields) => Filter::ElemMatch(clone_fields(fields)),
            Filter::Size(length) => Filter::Size(*length),
        }
    }
}

/// A copy of each of `items`, in order.
fn clone_items(items: &Vec<Filter>) -> (copy: Vec<Filter>)
    ensures
        models_of(copy@, copy@.len()) == models_of(items@, items@.len()),
    decreases items,
{
    let mut copy: Vec<Filter> = Vec::new();
    let mut i: usize = 0;
    while i < items.len()
        invariant
            i <= items@.len(),
            copy@.len() == i,
            forall|j: int| 0 <= j < i ==> (#[trigger] copy@[j])@ == items@[j]@,
        decreases items@.len() - i,
    {
        copy.push(items[i].clone());
        i += 1;
    }
    proof {
        lemma_models_of(items@, items@.len());
        lemma_models_of(copy@, copy@.len());
        assert(models_of(copy@, copy@.len()) =~= models_of(items@, items@.len()));
    }
    copy
}

/// A copy of each field of `fields`, in order.
fn clone_fields(fields: &FilterDoc) -> (copy: FilterDoc)
    ensures
        doc_model(copy) == doc_model(*fields),
    decreases fields,
{
    let mut copy = FilterDoc::new();
    let count = fields.len();
    let mut i: usize = 0;
    while i < count
        invariant
            i <= count,
            count == fields@.len(),
            doc::unique_keys(fields@),
            copy@.len() == i,
            forall|j: int|
                0 <= j < i ==> (#[trigger] copy@[j]).0 == fields@[j].0 && copy@[j].1@
                    == fields@[j].1@,
        decreases count - i,
    {
        let key = fields.key_at(i).clone();
        let filter = fields.value_at(i);
        proof {
            fields.lemma_value_decreases(i as int);
        }
        let value = filter.clone();
        proof {
            if doc::has_key(copy@, key@) {
                let j = choose|j: int| 0 <= j < copy@.len() && (#[trigger] copy@[j]).0 == key@;
                assert(fields@[j].0 == fields@[i as int].0);
            }
        }
        copy.insert(key, value);
        i += 1;
    }
    proof {
        lemma_field_models_of(*fields, fields@.len());
        lemma_field_models_of(copy, copy@.len());
        assert(doc_model(copy) =~= doc_model(*fields));
    }
    copy
}

impl From<Bson> for Filter {
    /// The filter that matches the given value.
    fn from(value: Bson) -> (filter: Filter) {
        Filter::Value(value)
    }
}

impl vstd::std_specs::convert::FromSpecImpl<Bson> for Filter {
    open spec fn obeys_from_spec() -> bool {
        true
    }

    open spec fn from_spec(value: Bson) -> Filter {
        Filter::Value(value)
    }
}

impl From<FilterDoc> for Filter {
    /// The sub-query with the given fields.
    fn from(fields: FilterDoc) -> (filter: Filter) {
        Filter::Doc(fields)
    }
}

impl vstd::std_specs::convert::FromSpecImpl<FilterDoc> for Filter {
    open spec fn obeys_from_spec() -> bool {
        true
    }

    open spec fn from_spec(fields: FilterDoc) -> Filter {
        Filter::Doc(fields)
    }
}

/// The `$eq` filter: the field is equal to `value`.
pub fn eq(value: Bson) -> (filter: Filter)
    ensures
        filter == Filter::Eq(value),
{
    Filter::Eq(value)
}

/// The `$ne` filter: the field is not equal to `value`.
pub fn ne(value: Bson) -> (filter: Filter)
    ensures
        filter == Filter::Ne(value),
{
    Filter::Ne(value)
}

/// The `$gt` filter: the field is greater than `value`.
pub fn gt(value: Bson) -> (filter: Filter)
    ensures
        filter == Filter::Gt(value),
{
    Filter::Gt(value)
}

/// The `$lt` filter: the field is less than `value`.
pub fn lt(value: Bson) -> (filter: Filter)
    ensures
        filter == Filter::Lt(value),
{
    Filter::Lt(value)
}

/// The `$gte` filter: the field is greater than or equal to `value`.
pub fn gte(value: Bson) -> (filter: Filter)
    ensures
        filter == Filter::Gte(value),
{
    Filter::Gte(value)
}

/// The `$lte` filter: the field is less than or equal to `value`.
pub fn lte(value: Bson) -> (filter: Filter)
    ensures
        filter == Filter::Lte(value),
{
    Filter::Lte(value)
}

/// The `$regex` filter with the given pattern and no option.
pub fn regex(pattern: Cow<'static, str>) -> (filter: Filter)
    ensures
        filter is Regex,
        filter->Regex_0 == pattern,
        filter->Regex_1@ == 0,
{
    regex_opts(pattern, RegexOpts::empty())
}

/// The `$regex` filter with the given pattern and options.
pub fn regex_opts(pattern: Cow<'static, str>, options: RegexOpts) -> (filter: Filter)
    ensures
        filter == Filter::Regex(pattern, options),
{
    Filter::Regex(pattern, options)
}

/// The negation of `filter`.
pub fn not(filter: Filter) -> (negated: Filter)
    ensures
        negated == Filter::Not(Box::new(filter)),
{
    Filter::Not(Box::new(filter))
}

/// The document with the one field `name`, which holds the array of
/// `filters`. The logical operators of the database, which stand at the top
/// of a query and not at a field, have this shape.
pub fn toplevel_logic(name: &'static str, filters: Vec<Filter>) -> (query: FilterDoc)
    ensures
        query@ == seq![(name@, Filter::Array(filters))],
{
    let mut query = FilterDoc::new();
    query.insert(name.to_owned(), Filter::Array(filters));
    assert(!doc::has_key(Seq::<(Seq<char>, Filter)>::empty(), name@));
    query
}

/// The `$and` query: all of `filters` hold.
pub fn and(filters: Vec<Filter>) -> (query: FilterDoc)
    ensures
        query@ == seq![("$and"@, Filter::Array(filters))],
{
    toplevel_logic("$and", filters)
}

/// The `$or` query: one of `filters` holds.
pub fn or(filters: Vec<Filter>) -> (query: FilterDoc)
    ensures
        query@ == seq![("$or"@, Filter::Array(filters))],
{
    toplevel_logic("$or", filters)
}

/// The `$nor` query: none of `filters` holds.
pub fn nor(filters: Vec<Filter>) -> (query: FilterDoc)
    ensures
        query@ == seq![("$nor"@, Filter::Array(filters))],
{
    toplevel_logic("$nor", filters)
}

} // verus!
