//! The database's own value types, as the `bson` crate defines them.
//!
//! A filter carries such values to the database untouched: nothing here
//! looks inside one.

use vstd::prelude::*;

verus! {

/// `bson::Bson`, a value of any type that the database stores.
#[verifier::external_type_specification]
#[verifier::external_body]
pub struct ExBson(bson::Bson);

/// `bson::ordered::OrderedDocument`, the database's document of named values.
#[verifier::external_type_specification]
#[verifier::external_body]
pub struct ExOrderedDocument(bson::ordered::OrderedDocument);

/// `Clone::clone` of `bson::Bson`, which the crate derives: the copy is the
/// same value.
pub assume_specification[ <bson::Bson as Clone>::clone ](value: &bson::Bson) -> (copy: bson::Bson)
    ensures
        copy == *value,
;

/// `Clone::clone` of `bson::ordered::OrderedDocument`, which the crate
/// derives: the copy is the same document.
pub assume_specification[ <bson::ordered::OrderedDocument as Clone>::clone ](
    document: &bson::ordered::OrderedDocument,
) -> (copy: bson::ordered::OrderedDocument)
    ensures
        copy == *document,
;

/// A copy of each of `values`, in order.
pub fn clone_values(values: &Vec<bson::Bson>) -> (copy: Vec<bson::Bson>)
    ensures
        copy@ == values@,
{
    let mut copy: Vec<bson::Bson> = Vec::new();
    let mut i: usize = 0;
    while i < values.len()
        invariant
            i <= values@.len(),
            copy@ == values@.take(i as int),
        decreases values@.len() - i,
    {
        copy.push(values[i].clone());
        assert(copy@ =~= values@.take(i + 1));
        i += 1;
    }
    assert(copy@ =~= values@);
    copy
}

} // verus!
