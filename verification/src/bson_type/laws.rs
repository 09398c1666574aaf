//! What holds of the encoding of sets of BSON types.

use vstd::prelude::*;
use crate::bson_type::{
    decoded_type, encoded_type, flag_for_name, flags_for_names, holds, lemma_table_len,
    names_as_values, selected_names, type_names, BsonType, TYPE_COUNT,
};
use crate::doc::{has_key, lemma_position, position};
use crate::error::{DecodeFailure, EncodeError};
use crate::value::ValueModel;

verus! {

/// The empty set has no encoding.
pub proof fn lemma_empty_set_fails()
    ensures
        encoded_type(0) == Err::<ValueModel, EncodeError>(EncodeError::NoTypes),
{
}

/// A string that is no alias of the table is not decoded, and the failure
/// names the string.
pub proof fn lemma_unknown_alias_fails(name: Seq<char>)
    requires
        !has_key(type_names(), name),
    ensures
        flag_for_name(name) == Err::<u16, DecodeFailure>(DecodeFailure::UnknownTypeAlias(name)),
        decoded_type(ValueModel::Str(name)) == Err::<u16, DecodeFailure>(
            DecodeFailure::UnknownTypeAlias(name),
        ),
{
}

/// The number of entries among the first `count` of the table whose flag
/// `bits` holds.
pub open spec fn held_count(bits: u16, count: nat) -> u8
    decreases count,
{
    if count == 0 {
        0
    } else {
        let before = held_count(bits, (count - 1) as nat);
        if holds(bits, type_names()[count - 1].1) {
            (before + 1) as u8
        } else {
            before
        }
    }
}

/// `bits` is a set of exactly one type.
pub open spec fn is_single_type(bits: u16) -> bool {
    bits != 0 && bits & ((bits - 1) as u16) == 0
}

/// As many aliases are selected as the set holds flags of the table.
proof fn lemma_selected_count(bits: u16, count: nat)
    requires
        count <= TYPE_COUNT,
    ensures
        selected_names(bits, count).len() == held_count(bits, count),
        held_count(bits, count) <= count,
    decreases count,
{
    if count > 0 {
        lemma_selected_count(bits, (count - 1) as nat);
    }
}

/// A set has one alias exactly when it holds one type, and no set but the
/// empty one is without an alias: a single type is written as a string, and
/// several types as an array.
pub proof fn lemma_one_type_one_alias(bits: u16)
    ensures
        selected_names(bits, TYPE_COUNT as nat).len() == 1 <==> is_single_type(bits),
        selected_names(bits, TYPE_COUNT as nat).len() == 0 <==> bits == 0,
{
    reveal(type_names);
    lemma_selected_count(bits, TYPE_COUNT as nat);
    let c0 = held_count(bits, 0);
    let c1 = held_count(bits, 1);
    let c2 = held_count(bits, 2);
    let c3 = held_count(bits, 3);
    let c4 = held_count(bits, 4);
    let c5 = held_count(bits, 5);
    let c6 = held_count(bits, 6);
    let c7 = held_count(bits, 7);
    let c8 = held_count(bits, 8);
    let c9 = held_count(bits, 9);
    let c10 = held_count(bits, 10);
    let c11 = held_count(bits, 11);
    let c12 = held_count(bits, 12);
    let c13 = held_count(bits, 13);
    let c14 = held_count(bits, 14);
    let c15 = held_count(bits, 15);
    let c16 = held_count(bits, 16);
    assert((c16 == 1 <==> (bits != 0 && bits & ((bits - 1) as u16) == 0)) && (c16 == 0 <==> bits
        == 0)) by (bit_vector)
        requires
            c1 == (if bits & 0x0001 == 0x0001 {
                (0u8 + 1) as u8
            } else {
                0u8
            }),
            c2 == (if bits & 0x0002 == 0x0002 {
                (c1 + 1) as u8
            } else {
                c1
            }),
            c3 == (if bits & 0x0004 == 0x0004 {
                (c2 + 1) as u8
            } else {
                c2
            }),
            c4 == (if bits & 0x0008 == 0x0008 {
                (c3 + 1) as u8
            } else {
                c3
            }),
            c5 == (if bits & 0x0010 == 0x0010 {
                (c4 + 1) as u8
            } else {
                c4
            }),
            c6 == (if bits & 0x0020 == 0x0020 {
                (c5 + 1) as u8
            } else {
                c5
            }),
            c7 == (if bits & 0x0040 == 0x0040 {
                (c6 + 1) as u8
            } else {
                c6
            }),
            c8 == (if bits & 0x0080 == 0x0080 {
                (c7 + 1) as u8
            } else {
                c7
            }),
            c9 == (if bits & 0x0100 == 0x0100 {
                (c8 + 1) as u8
            } else {
                c8
            }),
            c10 == (if bits & 0x0200 == 0x0200 {
                (c9 + 1) as u8
            } else {
                c9
            }),
            c11 == (if bits & 0x0400 == 0x0400 {
                (c10 + 1) as u8
            } else {
                c10
            }),
            c12 == (if bits & 0x0800 == 0x0800 {
                (c11 + 1) as u8
            } else {
                c11
            }),
            c13 == (if bits & 0x1000 == 0x1000 {
                (c12 + 1) as u8
            } else {
                c12
            }),
            c14 == (if bits & 0x2000 == 0x2000 {
                (c13 + 1) as u8
            } else {
                c13
            }),
            c15 == (if bits & 0x4000 == 0x4000 {
                (c14 + 1) as u8
            } else {
                c14
            }),
            c16 == (if bits & 0x8000 == 0x8000 {
                (c15 + 1) as u8
            } else {
                c15
            }),
    ;
}

/// The array type alone is written as the string `array`.
pub proof fn lemma_array_alone()
    ensures
        encoded_type(BsonType::ARRAY) == Ok::<ValueModel, EncodeError>(ValueModel::Str("array"@)),
{
    let bits = BsonType::ARRAY;
    reveal(type_names);
    reveal_with_fuel(selected_names, 17);
    assert((0x1000u16 & 0x0001 == 0x0001) == false && (0x1000u16 & 0x0002 == 0x0002) == false && (0x1000u16 & 0x0004 == 0x0004) == false && (0x1000u16 & 0x0008 == 0x0008) == false && (0x1000u16 & 0x0010 == 0x0010) == false && (0x1000u16 & 0x0020 == 0x0020) == false && (0x1000u16 & 0x0040 == 0x0040) == false && (0x1000u16 & 0x0080 == 0x0080) == false && (0x1000u16 & 0x0100 == 0x0100) == false && (0x1000u16 & 0x0200 == 0x0200) == false && (0x1000u16 & 0x0400 == 0x0400) == false && (0x1000u16 & 0x0800 == 0x0800) == false && (0x1000u16 & 0x1000 == 0x1000) == true && (0x1000u16 & 0x2000 == 0x2000) == false && (0x1000u16 & 0x4000 == 0x4000) == false && (0x1000u16 & 0x8000 == 0x8000) == false) by (bit_vector);
    assert(selected_names(bits, TYPE_COUNT as nat) =~= seq!["array"@]);
}

/// The four numeric types together are written as the array of their
/// aliases in table order, with the alias that the two integer widths share
/// standing twice.
pub proof fn lemma_number_types()
    ensures
        encoded_type(BsonType::NUMBER) == Ok::<ValueModel, EncodeError>(
            ValueModel::Array(
                seq![
                    ValueModel::Str("double"@),
                    ValueModel::Str("int"@),
                    ValueModel::Str("int"@),
                    ValueModel::Str("decimal"@),
                ],
            ),
        ),
{
    let bits = BsonType::NUMBER;
    reveal(type_names);
    reveal_with_fuel(selected_names, 17);
    assert((0x003cu16 & 0x0001 == 0x0001) == false && (0x003cu16 & 0x0002 == 0x0002) == false && (0x003cu16 & 0x0004 == 0x0004) == true && (0x003cu16 & 0x0008 == 0x0008) == true && (0x003cu16 & 0x0010 == 0x0010) == true && (0x003cu16 & 0x0020 == 0x0020) == true && (0x003cu16 & 0x0040 == 0x0040) == false && (0x003cu16 & 0x0080 == 0x0080) == false && (0x003cu16 & 0x0100 == 0x0100) == false && (0x003cu16 & 0x0200 == 0x0200) == false && (0x003cu16 & 0x0400 == 0x0400) == false && (0x003cu16 & 0x0800 == 0x0800) == false && (0x003cu16 & 0x1000 == 0x1000) == false && (0x003cu16 & 0x2000 == 0x2000) == false && (0x003cu16 & 0x4000 == 0x4000) == false && (0x003cu16 & 0x8000 == 0x8000) == false) by (bit_vector);
    let names = selected_names(bits, TYPE_COUNT as nat);
    assert(names =~= seq!["double"@, "int"@, "int"@, "decimal"@]);
    assert(names_as_values(names) =~= seq![
        ValueModel::Str("double"@),
        ValueModel::Str("int"@),
        ValueModel::Str("int"@),
        ValueModel::Str("decimal"@),
    ]);
}

/// The union of the flags that `bits` holds among the first `count` entries
/// of the table.
pub open spec fn held_flags(bits: u16, count: nat) -> u16
    decreases count,
{
    if count == 0 {
        0
    } else {
        let before = held_flags(bits, (count - 1) as nat);
        let flag = type_names()[count - 1].1;
        if holds(bits, flag) {
            before | flag
        } else {
            before
        }
    }
}

/// Every bit of a set is the flag of an entry of the table: the flags that
/// a set holds make up the set.
pub proof fn lemma_flags_cover(bits: u16)
    ensures
        held_flags(bits, TYPE_COUNT as nat) == bits,
{
    reveal(type_names);
    let b0 = held_flags(bits, 0);
    let b1 = held_flags(bits, 1);
    let b2 = held_flags(bits, 2);
    let b3 = held_flags(bits, 3);
    let b4 = held_flags(bits, 4);
    let b5 = held_flags(bits, 5);
    let b6 = held_flags(bits, 6);
    let b7 = held_flags(bits, 7);
    let b8 = held_flags(bits, 8);
    let b9 = held_flags(bits, 9);
    let b10 = held_flags(bits, 10);
    let b11 = held_flags(bits, 11);
    let b12 = held_flags(bits, 12);
    let b13 = held_flags(bits, 13);
    let b14 = held_flags(bits, 14);
    let b15 = held_flags(bits, 15);
    let b16 = held_flags(bits, 16);
    assert(b16 == bits) by (bit_vector)
        requires
            b1 == (if bits & 0x0001 == 0x0001 {
                0u16 | 0x0001
            } else {
                0u16
            }),
            b2 == (if bits & 0x0002 == 0x0002 {
                b1 | 0x0002
            } else {
                b1
            }),
            b3 == (if bits & 0x0004 == 0x0004 {
                b2 | 0x0004
            } else {
                b2
            }),
            b4 == (if bits & 0x0008 == 0x0008 {
                b3 | 0x0008
            } else {
                b3
            }),
            b5 == (if bits & 0x0010 == 0x0010 {
                b4 | 0x0010
            } else {
                b4
            }),
            b6 == (if bits & 0x0020 == 0x0020 {
                b5 | 0x0020
            } else {
                b5
            }),
            b7 == (if bits & 0x0040 == 0x0040 {
                b6 | 0x0040
            } else {
                b6
            }),
            b8 == (if bits & 0x0080 == 0x0080 {
                b7 | 0x0080
            } else {
                b7
            }),
            b9 == (if bits & 0x0100 == 0x0100 {
                b8 | 0x0100
            } else {
                b8
            }),
            b10 == (if bits & 0x0200 == 0x0200 {
                b9 | 0x0200
            } else {
                b9
            }),
            b11 == (if bits & 0x0400 == 0x0400 {
                b10 | 0x0400
            } else {
                b10
            }),
            b12 == (if bits & 0x0800 == 0x0800 {
                b11 | 0x0800
            } else {
                b11
            }),
            b13 == (if bits & 0x1000 == 0x1000 {
                b12 | 0x1000
            } else {
                b12
            }),
            b14 == (if bits & 0x2000 == 0x2000 {
                b13 | 0x2000
            } else {
                b13
            }),
            b15 == (if bits & 0x4000 == 0x4000 {
                b14 | 0x4000
            } else {
                b14
            }),
            b16 == (if bits & 0x8000 == 0x8000 {
                b15 | 0x8000
            } else {
                b15
            }),
    ;
}

/// No two entries of the table have the same alias, but for the two integer
/// widths, which share `int`.
pub proof fn lemma_aliases_differ()
    ensures
        forall|i: int, j: int|
            0 <= i < j < TYPE_COUNT && !(i == 3 && j == 4) ==> (#[trigger] type_names()[i]).0 != (
            #[trigger] type_names()[j]).0,
{
    reveal(type_names);
    reveal_strlit("null");
    reveal_strlit("bool");
    reveal_strlit("double");
    reveal_strlit("int");
    reveal_strlit("decimal");
    reveal_strlit("objectId");
    reveal_strlit("timestamp");
    reveal_strlit("date");
    reveal_strlit("string");
    reveal_strlit("regex");
    reveal_strlit("binData");
    reveal_strlit("array");
    reveal_strlit("object");
    reveal_strlit("javascript");
    reveal_strlit("javascriptWithScope");
    let table = type_names();
    assert forall|i: int, j: int| 0 <= i < j < TYPE_COUNT && !(i == 3 && j == 4) implies (
    #[trigger] table[i]).0 != (#[trigger] table[j]).0 by {
        let a = table[i].0;
        let b = table[j].0;
        if a == b {
            assert(a.len() == b.len());
            assert(a[0] == b[0]);
        }
    }
}

/// Each alias is read back as the flag of its entry, but for the entry of
/// the 64-bit integer type.
pub proof fn lemma_alias_read_back(index: int)
    requires
        0 <= index < TYPE_COUNT,
        index != 4,
    ensures
        flag_for_name(type_names()[index].0) == Ok::<u16, DecodeFailure>(type_names()[index].1),
{
    lemma_table_len();
    lemma_aliases_differ();
    let table = type_names();
    let name = table[index].0;
    assert(has_key(table, name));
    lemma_position(table, name);
    let p = position(table, name);
    assert(table[p].0 == name);
    if p < index {
        assert(table[p].0 != table[index].0);
    } else if p > index {
        assert(table[index].0 != name);
    }
}

/// Decoding the aliases of the types that `bits` holds among the first
/// `count` entries gives the union of those types.
proof fn lemma_selected_read_back(bits: u16, count: nat)
    requires
        count <= TYPE_COUNT,
        !holds(bits, BsonType::LONG),
    ensures
        flags_for_names(names_as_values(selected_names(bits, count))) == Ok::<u16, DecodeFailure>(
            held_flags(bits, count),
        ),
    decreases count,
{
    reveal(flags_for_names);
    if count == 0 {
        assert(names_as_values(selected_names(bits, 0)) =~= Seq::empty());
    } else {
        let before = (count - 1) as nat;
        lemma_selected_read_back(bits, before);
        let entry = type_names()[count - 1];
        if holds(bits, entry.1) {
            assert(count - 1 != 4) by {
                reveal(type_names);
            }
            lemma_alias_read_back(count - 1);
            let items = names_as_values(selected_names(bits, count));
            assert(items.drop_last() =~= names_as_values(selected_names(bits, before)));
            assert(items.last() == ValueModel::Str(entry.0));
        }
    }
}

/// Decoding what a set is encoded into gives the set back. This holds of
/// every set that is not empty and does not hold the 64-bit integer type:
/// that type is written as `int`, which is read back as the 32-bit one.
pub proof fn lemma_type_round_trip(bits: u16)
    requires
        bits != 0,
        !holds(bits, BsonType::LONG),
    ensures
        encoded_type(bits) is Ok,
        decoded_type(encoded_type(bits)->Ok_0) == Ok::<u16, DecodeFailure>(bits),
{
    let names = selected_names(bits, TYPE_COUNT as nat);
    lemma_selected_read_back(bits, TYPE_COUNT as nat);
    lemma_flags_cover(bits);
    if names.len() == 1 {
        reveal(flags_for_names);
        let items = names_as_values(names);
        assert(items.drop_last() =~= Seq::empty());
        assert(items.last() == ValueModel::Str(names[0]));
        assert(flags_for_names(Seq::empty()) == Ok::<u16, DecodeFailure>(0));
        let flag = flag_for_name(names[0])->Ok_0;
        assert(0u16 | flag == flag) by (bit_vector);
    }
}

} // verus!
