//! What holds of the encoding of filters.

use vstd::prelude::*;
use crate::error::EncodeError;
use crate::filter::{encoded, encoded_fields, encoded_items, operator, FilterModel};
use crate::value::ValueModel;

verus! {

/// The name of the operator that a filter is encoded under. The filters
/// that are encoded as they stand, with no operator, have none.
pub open spec fn operator_name(filter: FilterModel) -> Option<Seq<char>> {
    match filter {
        FilterModel::Value(_) => None,
        FilterModel::Doc(_) => None,
        FilterModel::Array(_) => None,
        FilterModel::Eq(_) => Some("$eq"@),
        FilterModel::Ne(_) => Some("$ne"@),
        FilterModel::Gt(_) => Some("$gt"@),
        FilterModel::Lt(_) => Some("$lt"@),
        FilterModel::Gte(_) => Some("$gte"@),
        FilterModel::Lte(_) => Some("$lte"@),
        FilterModel::In(_) => Some("$in"@),
        FilterModel::Nin(_) => Some("$nin"@),
        FilterModel::Not(_) => Some("$not"@),
        FilterModel::Exists(_) => Some("$exists"@),
        FilterModel::Type(_) => Some("$type"@),
        FilterModel::JsonSchema(_) => Some("$jsonSchema"@),
        FilterModel::Regex(_, _) => Some("$regex"@),
        FilterModel::All(_) => Some("$all"@),
        FilterModel::ElemMatch(_) => Some("$elemMatch"@),
        FilterModel::Size(_) => Some("$size"@),
    }
}

/// A filter with an operator is encoded into a document whose first key is
/// the name of the operator. That key is the only one, but for a regular
/// expression with options, which has `$options` as its second and last.
pub proof fn lemma_operator_document(filter: FilterModel)
    requires
        operator_name(filter) is Some,
        encoded(filter) is Ok,
    ensures
        encoded(filter)->Ok_0 is Doc,
        encoded(filter)->Ok_0->Doc_0.len() == (if filter is Regex && filter->Regex_1 != 0 {
            2nat
        } else {
            1nat
        }),
        encoded(filter)->Ok_0->Doc_0[0].0 == operator_name(filter)->Some_0,
        filter is Regex && filter->Regex_1 != 0 ==> encoded(filter)->Ok_0->Doc_0[1].0
            == "$options"@,
{
}

/// Whether the field exists is written as the integer 1, and that it does
/// not as the integer 0.
pub proof fn lemma_exists_as_integer(flag: bool)
    ensures
        encoded(FilterModel::Exists(flag)) == Ok::<ValueModel, EncodeError>(
            operator(
                "$exists"@,
                ValueModel::Int32(
                    if flag {
                        1
                    } else {
                        0
                    },
                ),
            ),
        ),
{
}

/// A length is written as a 64-bit signed integer where it fits one, and
/// cannot be encoded where it does not.
pub proof fn lemma_size_fits_or_fails(length: usize)
    ensures
        length <= i64::MAX ==> encoded(FilterModel::Size(length)) == Ok::<ValueModel, EncodeError>(
            operator("$size"@, ValueModel::Int64(length as i64)),
        ),
        length > i64::MAX ==> encoded(FilterModel::Size(length)) == Err::<ValueModel, EncodeError>(
            EncodeError::SizeOverflow(length),
        ),
{
}

/// The encoding of a document of filters has the names of its fields in
/// their order, each with the encoding of its filter.
pub proof fn lemma_fields_keep_order(fields: Seq<(Seq<char>, FilterModel)>, count: nat)
    requires
        count <= fields.len(),
        encoded_fields(fields, count) is Ok,
    ensures
        encoded_fields(fields, count)->Ok_0 is Doc,
        encoded_fields(fields, count)->Ok_0->Doc_0.len() == count,
        forall|i: int|
            0 <= i < count ==> {
                let entry = #[trigger] encoded_fields(fields, count)->Ok_0->Doc_0[i];
                entry.0 == fields[i].0 && encoded(fields[i].1) == Ok::<ValueModel, EncodeError>(
                    entry.1,
                )
            },
    decreases count,
{
    if count > 0 {
        lemma_fields_keep_order(fields, (count - 1) as nat);
    }
}

/// The encoding of a sequence of filters has the encoding of each, in
/// their order.
pub proof fn lemma_items_keep_order(items: Seq<FilterModel>, count: nat)
    requires
        count <= items.len(),
        encoded_items(items, count) is Ok,
    ensures
        encoded_items(items, count)->Ok_0.len() == count,
        forall|i: int|
            0 <= i < count ==> encoded(items[i]) == Ok::<ValueModel, EncodeError>(
                #[trigger] encoded_items(items, count)->Ok_0[i],
            ),
    decreases count,
{
    if count > 0 {
        lemma_items_keep_order(items, (count - 1) as nat);
    }
}

} // verus!
