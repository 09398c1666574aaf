//! The set of BSON types that a `$type` filter accepts, and its encoding
//! as type aliases.

pub mod laws;

use vstd::prelude::*;
use crate::doc::{lemma_position, lookup, position};
use crate::error::{decodes_as, DecodeError, DecodeFailure, EncodeError};
use crate::value::{encodes_as, lemma_array_view, StructuredValue, ValueModel};

verus! {

/// A set of BSON types, one bit for each type. The view of a set is its
/// bits.
#[derive(Debug, Clone, Copy, PartialEq, Eq, Structural, PartialOrd, Ord, Hash)]
pub struct BsonType(u16);

impl View for BsonType {
    type V = u16;

    closed spec fn view(&self) -> u16 {
        self.0
    }
}

impl BsonType {
    /// The `null` value.
    pub const NULL: u16 = 0x0001;

    /// `true` or `false`.
    pub const BOOL: u16 = 0x0002;

    /// Double-precision floating-point number.
    pub const DOUBLE: u16 = 0x0004;

    /// 32-bit signed integer.
    pub const INT: u16 = 0x0008;

    /// 64-bit signed integer.
    pub const LONG: u16 = 0x0010;

    /// 128-bit decimal number.
    pub const DECIMAL: u16 = 0x0020;

    /// Any of the four numeric types: `double`, `int`, `long`, `decimal`.
    pub const NUMBER: u16 = 0x003c;

    /// `ObjectId`.
    pub const OBJECT_ID: u16 = 0x0040;

    /// Timestamp.
    pub const TIMESTAMP: u16 = 0x0080;

    /// Date and time.
    pub const DATE: u16 = 0x0100;

    /// String.
    pub const STRING: u16 = 0x0200;

    /// Regular expression and its matching options.
    pub const REGEX: u16 = 0x0400;

    /// Binary data.
    pub const BINARY: u16 = 0x0800;

    /// Array.
    pub const ARRAY: u16 = 0x1000;

    /// Document or object.
    pub const DOCUMENT: u16 = 0x2000;

    /// JavaScript code.
    pub const JAVASCRIPT: u16 = 0x4000;

    /// JavaScript code with scope.
    pub const JAVASCRIPT_WITH_SCOPE: u16 = 0x8000;

    /// The set with the given bits.
    pub closed spec fn with_bits(bits: u16) -> BsonType {
        BsonType(bits)
    }

    /// The set with no type in it.
    pub fn empty() -> (flags: BsonType)
        ensures
            flags@ == 0,
    {
        BsonType(0)
    }

    /// The set of all types.
    pub fn all() -> (flags: BsonType)
        ensures
            flags@ == 0xffff,
    {
        BsonType(0xffff)
    }

    /// The set of the `null` value.
    pub fn null() -> (flags: BsonType)
        ensures
            flags@ == BsonType::NULL,
    {
        BsonType(BsonType::NULL)
    }

    /// The set of `true` or `false`.
    pub fn bool() -> (flags: BsonType)
        ensures
            flags@ == BsonType::BOOL,
    {
        BsonType(BsonType::BOOL)
    }

    /// The set of the double-precision floating-point number.
    pub fn double() -> (flags: BsonType)
        ensures
            flags@ == BsonType::DOUBLE,
    {
        BsonType(BsonType::DOUBLE)
    }

    /// The set of the 32-bit signed integer.
    pub fn int32() -> (flags: BsonType)
        ensures
            flags@ == BsonType::INT,
    {
        BsonType(BsonType::INT)
    }

    /// The set of the 64-bit signed integer.
    pub fn int64() -> (flags: BsonType)
        ensures
            flags@ == BsonType::LONG,
    {
        BsonType(BsonType::LONG)
    }

    /// The set of the 128-bit decimal number.
    pub fn decimal() -> (flags: BsonType)
        ensures
            flags@ == BsonType::DECIMAL,
    {
        BsonType(BsonType::DECIMAL)
    }

    /// The set of the four numeric types.
    pub fn number() -> (flags: BsonType)
        ensures
            flags@ == BsonType::NUMBER,
    {
        BsonType(BsonType::NUMBER)
    }

    /// The set of the `ObjectId`.
    pub fn object_id() -> (flags: BsonType)
        ensures
            flags@ == BsonType::OBJECT_ID,
    {
        BsonType(BsonType::OBJECT_ID)
    }

    /// The set of the timestamp.
    pub fn timestamp() -> (flags: BsonType)
        ensures
            flags@ == BsonType::TIMESTAMP,
    {
        BsonType(BsonType::TIMESTAMP)
    }

    /// The set of the date and time.
    pub fn date() -> (flags: BsonType)
        ensures
            flags@ == BsonType::DATE,
    {
        BsonType(BsonType::DATE)
    }

    /// The set of the string.
    pub fn string() -> (flags: BsonType)
        ensures
            flags@ == BsonType::STRING,
    {
        BsonType(BsonType::STRING)
    }

    /// The set of the regular expression.
    pub fn regex() -> (flags: BsonType)
        ensures
            flags@ == BsonType::REGEX,
    {
        BsonType(BsonType::REGEX)
    }

    /// The set of binary data.
    pub fn binary() -> (flags: BsonType)
        ensures
            flags@ == BsonType::BINARY,
    {
        BsonType(BsonType::BINARY)
    }

    /// The set of the array.
    pub fn array() -> (flags: BsonType)
        ensures
            flags@ == BsonType::ARRAY,
    {
        BsonType(BsonType::ARRAY)
    }

    /// The set of the document.
    pub fn document() -> (flags: BsonType)
        ensures
            flags@ == BsonType::DOCUMENT,
    {
        BsonType(BsonType::DOCUMENT)
    }

    /// The set of JavaScript code.
    pub fn javascript() -> (flags: BsonType)
        ensures
            flags@ == BsonType::JAVASCRIPT,
    {
        BsonType(BsonType::JAVASCRIPT)
    }

    /// The set of JavaScript code with scope.
    pub fn javascript_with_scope() -> (flags: BsonType)
        ensures
            flags@ == BsonType::JAVASCRIPT_WITH_SCOPE,
    {
        BsonType(BsonType::JAVASCRIPT_WITH_SCOPE)
    }

    /// The set with the given bits.
    pub fn from_bits(bits: u16) -> (flags: BsonType)
        ensures
            flags@ == bits,
    {
        BsonType(bits)
    }

    /// The bits of the set.
    pub fn bits(&self) -> (bits: u16)
        ensures
            bits == self@,
    {
        self.0
    }

    /// Whether the set has no type in it.
    pub fn is_empty(&self) -> (b: bool)
        ensures
            b == (self@ == 0),
    {
        self.0 == 0
    }

    /// Whether the set has every type in it.
    pub fn is_all(&self) -> (b: bool)
        ensures
            b == (self@ == 0xffff),
    {
        self.0 == 0xffff
    }

    /// Whether every type of `other` is in the set.
    pub fn contains(&self, other: BsonType) -> (b: bool)
        ensures
            b == holds(self@, other@),
    {
        self.0 & other.0 == other.0
    }

    /// Whether the set and `other` have a type in common.
    pub fn intersects(&self, other: BsonType) -> (b: bool)
        ensures
            b == (self@ & other@ != 0),
    {
        self.0 & other.0 != 0
    }

    /// The types that are in the set or in `other`.
    pub fn union(self, other: BsonType) -> (flags: BsonType)
        ensures
            flags@ == self@ | other@,
    {
        BsonType(self.0 | other.0)
    }

    /// The types that are in the set and in `other`.
    pub fn intersection(self, other: BsonType) -> (flags: BsonType)
        ensures
            flags@ == self@ & other@,
    {
        BsonType(self.0 & other.0)
    }

    /// The types that are in the set and not in `other`.
    pub fn difference(self, other: BsonType) -> (flags: BsonType)
        ensures
            flags@ == self@ & !other@,
    {
        BsonType(self.0 & !other.0)
    }

    /// Puts the types of `other` into the set.
    pub fn insert(&mut self, other: BsonType)
        ensures
            final(self)@ == old(self)@ | other@,
    {
        self.0 = self.0 | other.0;
    }

    /// Takes the types of `other` out of the set.
    pub fn remove(&mut self, other: BsonType)
        ensures
            final(self)@ == old(self)@ & !other@,
    {
        self.0 = self.0 & !other.0;
    }
}

impl Default for BsonType {
    /// The set with no type in it.
    fn default() -> (flags: BsonType)
        ensures
            flags@ == 0,
    {
        BsonType(0)
    }
}

impl core::ops::BitOr for BsonType {
    type Output = BsonType;

    /// The types that are in the one set or in the other.
    fn bitor(self, other: BsonType) -> (flags: BsonType)
        ensures
            flags@ == self@ | other@,
    {
        BsonType(self.0 | other.0)
    }
}

impl vstd::std_specs::ops::BitOrSpecImpl for BsonType {
    open spec fn obeys_bitor_spec() -> bool {
        true
    }

    open spec fn bitor_req(self, other: BsonType) -> bool {
        true
    }

    open spec fn bitor_spec(self, other: BsonType) -> BsonType {
        BsonType::with_bits(self@ | other@)
    }
}

/// The number of entries in the table of type aliases.
pub const TYPE_COUNT: usize = 16;

/// The table of type aliases: each alias with the flag that it stands for,
/// in the order in which the types of a set are written out. `int` stands
/// for both integer widths, and is read back as the 32-bit one, which comes
/// first.
#[verifier::opaque]
pub open spec fn type_names() -> Seq<(Seq<char>, u16)> {
    seq![
        ("null"@, BsonType::NULL),
        ("bool"@, BsonType::BOOL),
        ("double"@, BsonType::DOUBLE),
        ("int"@, BsonType::INT),
        ("int"@, BsonType::LONG),
        ("decimal"@, BsonType::DECIMAL),
        ("objectId"@, BsonType::OBJECT_ID),
        ("timestamp"@, BsonType::TIMESTAMP),
        ("date"@, BsonType::DATE),
        ("string"@, BsonType::STRING),
        ("regex"@, BsonType::REGEX),
        ("binData"@, BsonType::BINARY),
        ("array"@, BsonType::ARRAY),
        ("object"@, BsonType::DOCUMENT),
        ("javascript"@, BsonType::JAVASCRIPT),
        ("javascriptWithScope"@, BsonType::JAVASCRIPT_WITH_SCOPE),
    ]
}

/// The entry at `index` of the table of type aliases.
fn alias_entry(index: usize) -> (entry: (&'static str, u16))
    requires
        index < TYPE_COUNT,
    ensures
        type_names().len() == TYPE_COUNT,
        type_names()[index as int] == (entry.0@, entry.1),
{
    reveal(type_names);
    match index {
        0 => ("null", BsonType::NULL),
        1 => ("bool", BsonType::BOOL),
        2 => ("double", BsonType::DOUBLE),
        3 => ("int", BsonType::INT),
        4 => ("int", BsonType::LONG),
        5 => ("decimal", BsonType::DECIMAL),
        6 => ("objectId", BsonType::OBJECT_ID),
        7 => ("timestamp", BsonType::TIMESTAMP),
        8 => ("date", BsonType::DATE),
        9 => ("string", BsonType::STRING),
        10 => ("regex", BsonType::REGEX),
        11 => ("binData", BsonType::BINARY),
        12 => ("array", BsonType::ARRAY),
        13 => ("object", BsonType::DOCUMENT),
        14 => ("javascript", BsonType::JAVASCRIPT),
        _ => ("javascriptWithScope", BsonType::JAVASCRIPT_WITH_SCOPE),
    }
}

/// `bits` holds every type of `flag`.
pub open spec fn holds(bits: u16, flag: u16) -> bool {
    bits & flag == flag
}

/// The aliases of the types in `bits` among the first `count` entries of the
/// table, in table order.
pub open spec fn selected_names(bits: u16, count: nat) -> Seq<Seq<char>>
    decreases count,
{
    if count == 0 {
        Seq::empty()
    } else {
        let before = selected_names(bits, (count - 1) as nat);
        let entry = type_names()[count - 1];
        if holds(bits, entry.1) {
            before.push(entry.0)
        } else {
            before
        }
    }
}

/// The aliases, each as a string value.
pub open spec fn names_as_values(names: Seq<Seq<char>>) -> Seq<ValueModel> {
    Seq::new(names.len(), |i: int| ValueModel::Str(names[i]))
}

/// What a set of types is encoded into: nothing for the empty set, the alias
/// for a single type, and the array of the aliases for several.
pub open spec fn encoded_type(bits: u16) -> Result<ValueModel, EncodeError> {
    let names = selected_names(bits, TYPE_COUNT as nat);
    if bits == 0 {
        Err(EncodeError::NoTypes)
    } else if names.len() == 1 {
        Ok(ValueModel::Str(names[0]))
    } else {
        Ok(ValueModel::Array(names_as_values(names)))
    }
}

/// The flag that an alias stands for.
pub open spec fn flag_for_name(name: Seq<char>) -> Result<u16, DecodeFailure> {
    match lookup(type_names(), name) {
        Some(flag) => Ok(flag),
        None => Err(DecodeFailure::UnknownTypeAlias(name)),
    }
}

/// The union of the flags that the aliases in `items` stand for. The first
/// item that is no string, or no alias, decides the failure.
#[verifier::opaque]
pub open spec fn flags_for_names(items: Seq<ValueModel>) -> Result<u16, DecodeFailure>
    decreases items.len(),
{
    if items.len() == 0 {
        Ok(0)
    } else {
        match flags_for_names(items.drop_last()) {
            Err(failure) => Err(failure),
            Ok(bits) => match items.last() {
                ValueModel::Str(name) => match flag_for_name(name) {
                    Ok(flag) => Ok(bits | flag),
                    Err(failure) => Err(failure),
                },
                _ => Err(DecodeFailure::NotTypeAliases),
            },
        }
    }
}

/// What a value is decoded into: an alias gives its type, an array of
/// aliases the set of their types.
pub open spec fn decoded_type(value: ValueModel) -> Result<u16, DecodeFailure> {
    match value {
        ValueModel::Str(name) => flag_for_name(name),
        ValueModel::Array(items) => flags_for_names(items),
        _ => Err(DecodeFailure::NotTypeAliases),
    }
}

impl BsonType {
    /// What a decoder of type sets expects to read.
    pub fn expecting() -> (text: &'static str)
        ensures
            text@ == "a BSON type alias string or an array of BSON type alias strings"@,
    {
        "a BSON type alias string or an array of BSON type alias strings"
    }

    /// The type that `name` is the alias of.
    pub fn bitflag_for_name(name: &str) -> (flags: Result<BsonType, DecodeError>)
        ensures
            decodes_as(flags, flag_for_name(name@)),
    {
        let wanted = name.to_owned();
        proof {
            lemma_table_len();
        }
        let mut i: usize = 0;
        while i < TYPE_COUNT
            invariant
                i <= TYPE_COUNT,
                type_names().len() == TYPE_COUNT,
                wanted@ == name@,
                forall|j: int| 0 <= j < i ==> (#[trigger] type_names()[j]).0 != name@,
            decreases TYPE_COUNT - i,
        {
            let (alias, flag) = alias_entry(i);
            if alias.to_owned() == wanted {
                proof {
                    assert(type_names()[i as int].0 == name@);
                    lemma_position(type_names(), name@);
                    let p = position(type_names(), name@);
                    if p < i {
                        assert(type_names()[p].0 != name@);
                    }
                }
                return Ok(BsonType(flag));
            }
            i += 1;
        }
        Err(DecodeError::UnknownTypeAlias(wanted))
    }

    /// Encodes the set: a single type as its alias, several types as the
    /// array of their aliases in table order. The empty set has no encoding.
    pub fn serialize(&self) -> (encoded: Result<StructuredValue, EncodeError>)
        ensures
            encodes_as(encoded, encoded_type(self@)),
    {
        if self.0 == 0 {
            return Err(EncodeError::NoTypes);
        }
        let mut names: Vec<StructuredValue> = Vec::new();
        let mut i: usize = 0;
        while i < TYPE_COUNT
            invariant
                i <= TYPE_COUNT,
                names@.len() == selected_names(self@, i as nat).len(),
                forall|j: int|
                    0 <= j < names@.len() ==> (#[trigger] names@[j])@ == ValueModel::Str(
                        selected_names(self@, i as nat)[j],
                    ),
            decreases TYPE_COUNT - i,
        {
            let (alias, flag) = alias_entry(i);
            if self.0 & flag == flag {
                names.push(StructuredValue::Str(alias.to_owned()));
            }
            i += 1;
        }
        if names.len() == 1 {
            let only = names.pop();
            Ok(only.unwrap())
        } else {
            proof {
                lemma_array_view(names);
            }
            let encoded = StructuredValue::Array(names);
            proof {
                let selected = selected_names(self@, TYPE_COUNT as nat);
                assert(encoded@->Array_0 =~= names_as_values(selected));
            }
            Ok(encoded)
        }
    }

    /// Decodes a set: an alias gives its type, an array of aliases the set
    /// of their types. The first item that is no alias decides the failure.
    pub fn deserialize(value: &StructuredValue) -> (flags: Result<BsonType, DecodeError>)
        ensures
            decodes_as(flags, decoded_type(value@)),
    {
        match value {
            StructuredValue::Str(name) => BsonType::bitflag_for_name(name.as_str()),
            StructuredValue::Array(items) => {
                let ghost all = value@->Array_0;
                proof {
                    lemma_array_view(*items);
                    lemma_no_names();
                    assert(all.take(0) =~= Seq::empty());
                }
                let mut bits: u16 = 0;
                let mut i: usize = 0;
                while i < items.len()
                    invariant
                        i <= items@.len(),
                        all.len() == items@.len(),
                        forall|j: int| 0 <= j < items@.len() ==> all[j] == (#[trigger] items@[j])@,
                        flags_for_names(all.take(i as int)) == Ok::<u16, DecodeFailure>(bits),
                        decoded_type(value@) == flags_for_names(all),
                    decreases items@.len() - i,
                {
                    proof {
                        lemma_next_name(all, i as int);
                    }
                    match &items[i] {
                        StructuredValue::Str(name) => {
                            match BsonType::bitflag_for_name(name.as_str()) {
                                Ok(flag) => {
                                    bits = bits | flag.0;
                                },
                                Err(error) => {
                                    proof {
                                        lemma_failure_stays(all, i + 1);
                                    }
                                    return Err(error);
                                },
                            }
                        },
                        _ => {
                            proof {
                                lemma_failure_stays(all, i + 1);
                            }
                            return Err(DecodeError::NotTypeAliases);
                        },
                    }
                    i += 1;
                }
                assert(all.take(items@.len() as int) =~= all);
                Ok(BsonType(bits))
            },
            _ => Err(DecodeError::NotTypeAliases),
        }
    }
}

/// The table has one entry for each flag.
pub proof fn lemma_table_len()
    ensures
        type_names().len() == TYPE_COUNT,
{
    reveal(type_names);
}

/// No alias gives the empty set.
proof fn lemma_no_names()
    ensures
        flags_for_names(Seq::empty()) == Ok::<u16, DecodeFailure>(0),
{
    reveal(flags_for_names);
}

/// Reading one more item: the union so far takes in the flag of the next
/// alias, and an item that is no alias fails.
proof fn lemma_next_name(items: Seq<ValueModel>, count: int)
    requires
        0 <= count < items.len(),
    ensures
        flags_for_names(items.take(count + 1)) == match flags_for_names(items.take(count)) {
            Err(failure) => Err(failure),
            Ok(bits) => match items[count] {
                ValueModel::Str(name) => match flag_for_name(name) {
                    Ok(flag) => Ok(bits | flag),
                    Err(failure) => Err(failure),
                },
                _ => Err(DecodeFailure::NotTypeAliases),
            },
        },
{
    reveal(flags_for_names);
    assert(items.take(count + 1).drop_last() =~= items.take(count));
    assert(items.take(count + 1).last() == items[count]);
}

/// A failure among the first `count` items is the failure of the whole.
proof fn lemma_failure_stays(items: Seq<ValueModel>, count: int)
    requires
        0 <= count <= items.len(),
        flags_for_names(items.take(count)) is Err,
    ensures
        flags_for_names(items) == flags_for_names(items.take(count)),
    decreases items.len() - count,
{
    if count < items.len() {
        lemma_next_name(items, count);
        lemma_failure_stays(items, count + 1);
    } else {
        assert(items.take(count) =~= items);
    }
}

} // verus!
