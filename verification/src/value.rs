//! The structured value that a filter is encoded into: a tree of documents,
//! arrays and scalars.

use vstd::prelude::*;
use bson::{Bson, Document};

verus! {

/// A tree of documents, arrays and scalars, ready to be handed to a
/// serializer.
#[derive(Debug, PartialEq)]
pub enum StructuredValue {
    /// A database value, carried as it is.
    Raw(Bson),
    /// A database document, carried as it is.
    RawDocument(Document),
    /// A 32-bit signed integer.
    Int32(i32),
    /// A 64-bit signed integer.
    Int64(i64),
    /// A string.
    Str(String),
    /// A sequence of values.
    Array(Vec<StructuredValue>),
    /// A document: keys with their values, in order.
    Doc(Vec<(String, StructuredValue)>),
}

/// What a [`StructuredValue`] holds, with strings as sequences of
/// characters and vectors as sequences.
pub ghost enum ValueModel {
    Raw(Bson),
    RawDocument(Document),
    Int32(i32),
    Int64(i64),
    Str(Seq<char>),
    Array(Seq<ValueModel>),
    Doc(Seq<(Seq<char>, ValueModel)>),
}

/// What `value` holds.
pub open spec fn model_of(value: StructuredValue) -> ValueModel
    decreases value, 0nat,
{
    match value {
        StructuredValue::Raw(raw) => ValueModel::Raw(raw),
        StructuredValue::RawDocument(document) => ValueModel::RawDocument(document),
        StructuredValue::Int32(n) => ValueModel::Int32(n),
        StructuredValue::Int64(n) => ValueModel::Int64(n),
        StructuredValue::Str(s) => ValueModel::Str(s@),
        StructuredValue::Array(items) => ValueModel::Array(models_of(items@, items@.len())),
        StructuredValue::Doc(entries) => ValueModel::Doc(
            entry_models_of(entries@, entries@.len()),
        ),
    }
}

/// What the first `count` of `items` hold.
pub open spec fn models_of(items: Seq<StructuredValue>, count: nat) -> Seq<ValueModel>
    decreases items, count,
{
    if count == 0 || count > items.len() {
        Seq::empty()
    } else {
        models_of(items, (count - 1) as nat).push(model_of(items[count - 1]))
    }
}

/// The keys of the first `count` of `entries`, each with what its value
/// holds.
pub open spec fn entry_models_of(entries: Seq<(String, StructuredValue)>, count: nat) -> Seq<
    (Seq<char>, ValueModel),
>
    decreases entries, count,
{
    if count == 0 || count > entries.len() {
        Seq::empty()
    } else {
        entry_models_of(entries, (count - 1) as nat).push(
            (entries[count - 1].0@, model_of(entries[count - 1].1)),
        )
    }
}

impl View for StructuredValue {
    type V = ValueModel;

    open spec fn view(&self) -> ValueModel {
        model_of(*self)
    }
}

/// The models of a sequence of values stand item by item.
pub proof fn lemma_models_of(items: Seq<StructuredValue>, count: nat)
    requires
        count <= items.len(),
    ensures
        models_of(items, count).len() == count,
        forall|i: int| 0 <= i < count ==> models_of(items, count)[i] == (#[trigger] items[i])@,
    decreases count,
{
    if count > 0 {
        lemma_models_of(items, (count - 1) as nat);
    }
}

/// The models of a sequence of entries stand entry by entry.
pub proof fn lemma_entry_models_of(entries: Seq<(String, StructuredValue)>, count: nat)
    requires
        count <= entries.len(),
    ensures
        entry_models_of(entries, count).len() == count,
        forall|i: int|
            0 <= i < count ==> entry_models_of(entries, count)[i] == (
                (#[trigger] entries[i]).0@,
                entries[i].1@,
            ),
    decreases count,
{
    if count > 0 {
        lemma_entry_models_of(entries, (count - 1) as nat);
    }
}

/// The view of an array is the sequence of the views of its items.
pub proof fn lemma_array_view(items: Vec<StructuredValue>)
    ensures
        StructuredValue::Array(items)@ is Array,
        StructuredValue::Array(items)@->Array_0.len() == items@.len(),
        forall|i: int|
            #![trigger items@[i]]
            #![trigger StructuredValue::Array(items)@->Array_0[i]]
            0 <= i < items@.len() ==> StructuredValue::Array(items)@->Array_0[i] == items@[i]@,
{
    lemma_models_of(items@, items@.len());
}

/// The view of a document is the sequence of its keys, each with the view of
/// its value.
pub proof fn lemma_doc_view(entries: Vec<(String, StructuredValue)>)
    ensures
        StructuredValue::Doc(entries)@ is Doc,
        StructuredValue::Doc(entries)@->Doc_0.len() == entries@.len(),
        forall|i: int|
            #![trigger entries@[i]]
            #![trigger StructuredValue::Doc(entries)@->Doc_0[i]]
            0 <= i < entries@.len() ==> StructuredValue::Doc(entries)@->Doc_0[i] == (
                entries@[i].0@,
                entries@[i].1@,
            ),
{
    lemma_entry_models_of(entries@, entries@.len());
}

/// A copy of each of `items`, in order.
fn clone_items(items: &Vec<StructuredValue>) -> (copy: Vec<StructuredValue>)
    ensures
        copy@.len() == items@.len(),
        forall|i: int| 0 <= i < items@.len() ==> (#[trigger] copy@[i])@ == items@[i]@,
    decreases items,
{
    let mut copy: Vec<StructuredValue> = Vec::new();
    let mut i: usize = 0;
    while i < items.len()
        invariant
            i <= items@.len(),
            copy@.len() == i,
            forall|j: int| 0 <= j < i ==> (#[trigger] copy@[j])@ == items@[j]@,
        decreases items@.len() - i,
    {
        copy.push(items[i].clone());
        i += 1;
    }
    copy
}

/// A copy of each of `entries`, in order.
fn clone_entries(entries: &Vec<(String, StructuredValue)>) -> (copy: Vec<(String, StructuredValue)>)
    ensures
        copy@.len() == entries@.len(),
        forall|i: int|
            0 <= i < entries@.len() ==> (#[trigger] copy@[i]).0@ == entries@[i].0@ && copy@[i].1@
                == entries@[i].1@,
    decreases entries,
{
    let mut copy: Vec<(String, StructuredValue)> = Vec::new();
    let mut i: usize = 0;
    while i < entries.len()
        invariant
            i <= entries@.len(),
            copy@.len() == i,
            forall|j: int|
                0 <= j < i ==> (#[trigger] copy@[j]).0@ == entries@[j].0@ && copy@[j].1@
                    == entries@[j].1@,
        decreases entries@.len() - i,
    {
        let key = entries[i].0.clone();
        let value = entries[i].1.clone();
        copy.push((key, value));
        i += 1;
    }
    copy
}

impl Clone for StructuredValue {
    /// A copy that holds the same as the value.
    fn clone(&self) -> (copy: StructuredValue)
        ensures
            copy@ == self@,
        decreases self,
    {
        match self {
            StructuredValue::Raw(raw) => StructuredValue::Raw(raw.clone()),
            StructuredValue::RawDocument(document) => StructuredValue::RawDocument(
                document.clone(),
            ),
            StructuredValue::Int32(n) => StructuredValue::Int32(*n),
            StructuredValue::Int64(n) => StructuredValue::Int64(*n),
            StructuredValue::Str(s) => StructuredValue::Str(s.clone()),
            StructuredValue::Array(items) => {
                let copy = clone_items(items);
                proof {
                    lemma_array_view(*items);
                    lemma_array_view(copy);
                }
                let copy = StructuredValue::Array(copy);
                assert(copy@->Array_0 =~= self@->Array_0);
                copy
            },
            StructuredValue::Doc(entries) => {
                let copy = clone_entries(entries);
                proof {
                    lemma_doc_view(*entries);
                    lemma_doc_view(copy);
                }
                let copy = StructuredValue::Doc(copy);
                assert(copy@->Doc_0 =~= self@->Doc_0);
                copy
            },
        }
    }
}

/// `result` is the outcome `expected`, with the encoded value taken by its
/// view.
pub open spec fn encodes_as<E>(
    result: Result<StructuredValue, E>,
    expected: Result<ValueModel, E>,
) -> bool {
    match result {
        Ok(value) => expected == Ok::<ValueModel, E>(value@),
        Err(error) => expected == Err::<ValueModel, E>(error),
    }
}

} // verus!
