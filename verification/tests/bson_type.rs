use avocado::bson_type::BsonType;
use avocado::error::{DecodeError, EncodeError};
use avocado::value::StructuredValue;

const ALIASES: [(u16, &str); 16] = [
    (BsonType::NULL, "null"),
    (BsonType::BOOL, "bool"),
    (BsonType::DOUBLE, "double"),
    (BsonType::INT, "int"),
    (BsonType::LONG, "int"),
    (BsonType::DECIMAL, "decimal"),
    (BsonType::OBJECT_ID, "objectId"),
    (BsonType::TIMESTAMP, "timestamp"),
    (BsonType::DATE, "date"),
    (BsonType::STRING, "string"),
    (BsonType::REGEX, "regex"),
    (BsonType::BINARY, "binData"),
    (BsonType::ARRAY, "array"),
    (BsonType::DOCUMENT, "object"),
    (BsonType::JAVASCRIPT, "javascript"),
    (BsonType::JAVASCRIPT_WITH_SCOPE, "javascriptWithScope"),
];

fn text(s: &str) -> StructuredValue {
    StructuredValue::Str(s.to_string())
}

fn texts(names: &[&str]) -> StructuredValue {
    StructuredValue::Array(names.iter().map(|name| text(name)).collect())
}

#[test]
fn flags_have_the_bits_of_the_database_types() {
    assert_eq!(BsonType::NULL, 0b0000_0000_0000_0001);
    assert_eq!(BsonType::BOOL, 0b0000_0000_0000_0010);
    assert_eq!(BsonType::DOUBLE, 0b0000_0000_0000_0100);
    assert_eq!(BsonType::INT, 0b0000_0000_0000_1000);
    assert_eq!(BsonType::LONG, 0b0000_0000_0001_0000);
    assert_eq!(BsonType::DECIMAL, 0b0000_0000_0010_0000);
    assert_eq!(BsonType::NUMBER, 0b0000_0000_0011_1100);
    assert_eq!(BsonType::OBJECT_ID, 0b0000_0000_0100_0000);
    assert_eq!(BsonType::TIMESTAMP, 0b0000_0000_1000_0000);
    assert_eq!(BsonType::DATE, 0b0000_0001_0000_0000);
    assert_eq!(BsonType::STRING, 0b0000_0010_0000_0000);
    assert_eq!(BsonType::REGEX, 0b0000_0100_0000_0000);
    assert_eq!(BsonType::BINARY, 0b0000_1000_0000_0000);
    assert_eq!(BsonType::ARRAY, 0b0001_0000_0000_0000);
    assert_eq!(BsonType::DOCUMENT, 0b0010_0000_0000_0000);
    assert_eq!(BsonType::JAVASCRIPT, 0b0100_0000_0000_0000);
    assert_eq!(BsonType::JAVASCRIPT_WITH_SCOPE, 0b1000_0000_0000_0000);
}

#[test]
fn named_sets_hold_their_flag() {
    assert_eq!(BsonType::null().bits(), BsonType::NULL);
    assert_eq!(BsonType::bool().bits(), BsonType::BOOL);
    assert_eq!(BsonType::double().bits(), BsonType::DOUBLE);
    assert_eq!(BsonType::int32().bits(), BsonType::INT);
    assert_eq!(BsonType::int64().bits(), BsonType::LONG);
    assert_eq!(BsonType::decimal().bits(), BsonType::DECIMAL);
    assert_eq!(BsonType::number().bits(), BsonType::NUMBER);
    assert_eq!(BsonType::object_id().bits(), BsonType::OBJECT_ID);
    assert_eq!(BsonType::timestamp().bits(), BsonType::TIMESTAMP);
    assert_eq!(BsonType::date().bits(), BsonType::DATE);
    assert_eq!(BsonType::string().bits(), BsonType::STRING);
    assert_eq!(BsonType::regex().bits(), BsonType::REGEX);
    assert_eq!(BsonType::binary().bits(), BsonType::BINARY);
    assert_eq!(BsonType::array().bits(), BsonType::ARRAY);
    assert_eq!(BsonType::document().bits(), BsonType::DOCUMENT);
    assert_eq!(BsonType::javascript().bits(), BsonType::JAVASCRIPT);
    assert_eq!(
        BsonType::javascript_with_scope().bits(),
        BsonType::JAVASCRIPT_WITH_SCOPE
    );
    assert_eq!(BsonType::empty().bits(), 0);
    assert_eq!(BsonType::all().bits(), 0xffff);
    assert_eq!(BsonType::default(), BsonType::empty());
    assert_eq!(BsonType::from_bits(0x1234).bits(), 0x1234);
}

#[test]
fn number_is_the_union_of_the_numeric_types() {
    let numeric =
        BsonType::double() | BsonType::int32() | BsonType::int64() | BsonType::decimal();
    assert_eq!(numeric, BsonType::number());
    assert_eq!(
        BsonType::double()
            .union(BsonType::int32())
            .union(BsonType::int64())
            .union(BsonType::decimal()),
        BsonType::number()
    );
}

#[test]
fn set_operations_on_types() {
    let number = BsonType::number();
    let text_or_int = BsonType::string() | BsonType::int32();
    assert!(number.contains(BsonType::int32()));
    assert!(number.contains(BsonType::empty()));
    assert!(!number.contains(text_or_int));
    assert!(number.intersects(text_or_int));
    assert!(!number.intersects(BsonType::string()));
    assert_eq!(number.intersection(text_or_int), BsonType::int32());
    assert_eq!(text_or_int.difference(number), BsonType::string());
    assert!(BsonType::empty().is_empty());
    assert!(!number.is_empty());
    assert!(BsonType::all().is_all());
    assert!(!number.is_all());

    let mut set = BsonType::empty();
    set.insert(BsonType::array());
    set.insert(BsonType::document());
    assert_eq!(set.bits(), BsonType::ARRAY | BsonType::DOCUMENT);
    set.remove(BsonType::array());
    assert_eq!(set, BsonType::document());
    set.remove(BsonType::null());
    assert_eq!(set, BsonType::document());
}

#[test]
fn a_single_type_is_encoded_as_its_alias() {
    for (flag, alias) in ALIASES {
        assert_eq!(BsonType::from_bits(flag).serialize(), Ok(text(alias)));
    }
}

#[test]
fn array_type_is_encoded_as_the_string_array() {
    assert_eq!(BsonType::array().serialize(), Ok(text("array")));
}

#[test]
fn number_is_encoded_with_the_shared_alias_twice() {
    assert_eq!(
        BsonType::number().serialize(),
        Ok(texts(&["double", "int", "int", "decimal"]))
    );
}

#[test]
fn several_types_are_encoded_in_table_order() {
    let set = BsonType::javascript_with_scope() | BsonType::null() | BsonType::string();
    assert_eq!(
        set.serialize(),
        Ok(texts(&["null", "string", "javascriptWithScope"]))
    );
    let names: Vec<&str> = ALIASES.iter().map(|entry| entry.1).collect();
    assert_eq!(BsonType::all().serialize(), Ok(texts(&names)));
}

#[test]
fn the_empty_set_of_types_is_not_encoded() {
    assert_eq!(BsonType::empty().serialize(), Err(EncodeError::NoTypes));
}

#[test]
fn each_alias_is_decoded_as_its_first_flag() {
    for (flag, alias) in ALIASES {
        let expected = if flag == BsonType::LONG {
            BsonType::INT
        } else {
            flag
        };
        assert_eq!(
            BsonType::bitflag_for_name(alias),
            Ok(BsonType::from_bits(expected))
        );
        assert_eq!(
            BsonType::deserialize(&text(alias)),
            Ok(BsonType::from_bits(expected))
        );
    }
}

#[test]
fn an_unknown_alias_is_named_by_the_failure() {
    for alias in ["long", "number", "", "Null", "int ", "objectid", "javascriptWithScope2"] {
        assert_eq!(
            BsonType::bitflag_for_name(alias),
            Err(DecodeError::UnknownTypeAlias(alias.to_string()))
        );
        assert_eq!(
            BsonType::deserialize(&text(alias)),
            Err(DecodeError::UnknownTypeAlias(alias.to_string()))
        );
    }
}

#[test]
fn an_array_of_aliases_is_decoded_as_the_union() {
    assert_eq!(
        BsonType::deserialize(&texts(&["double", "int", "int", "decimal"])),
        Ok(BsonType::double() | BsonType::int32() | BsonType::decimal())
    );
    assert_eq!(
        BsonType::deserialize(&texts(&["string", "null", "string"])),
        Ok(BsonType::string() | BsonType::null())
    );
    assert_eq!(BsonType::deserialize(&texts(&[])), Ok(BsonType::empty()));
}

#[test]
fn the_first_bad_item_of_an_array_decides_the_failure() {
    assert_eq!(
        BsonType::deserialize(&texts(&["string", "bogus", "worse"])),
        Err(DecodeError::UnknownTypeAlias("bogus".to_string()))
    );
    let mixed = StructuredValue::Array(vec![
        text("string"),
        StructuredValue::Int32(5),
        text("bogus"),
    ]);
    assert_eq!(BsonType::deserialize(&mixed), Err(DecodeError::NotTypeAliases));
    let mixed = StructuredValue::Array(vec![text("bogus"), StructuredValue::Int32(5)]);
    assert_eq!(
        BsonType::deserialize(&mixed),
        Err(DecodeError::UnknownTypeAlias("bogus".to_string()))
    );
}

#[test]
fn a_value_that_is_no_string_or_array_is_not_a_set_of_types() {
    assert_eq!(
        BsonType::deserialize(&StructuredValue::Int32(8)),
        Err(DecodeError::NotTypeAliases)
    );
    assert_eq!(
        BsonType::deserialize(&StructuredValue::Int64(8)),
        Err(DecodeError::NotTypeAliases)
    );
    assert_eq!(
        BsonType::deserialize(&StructuredValue::Doc(vec![])),
        Err(DecodeError::NotTypeAliases)
    );
}

#[test]
fn every_set_without_the_long_type_survives_the_round_trip() {
    for bits in 1..=u16::MAX {
        if bits & BsonType::LONG != 0 {
            continue;
        }
        let set = BsonType::from_bits(bits);
        let encoded = set.serialize().unwrap();
        assert_eq!(BsonType::deserialize(&encoded), Ok(set), "bits {:#06x}", bits);
    }
}

#[test]
fn the_long_type_is_read_back_as_the_int_type() {
    let encoded = BsonType::int64().serialize().unwrap();
    assert_eq!(encoded, text("int"));
    assert_eq!(BsonType::deserialize(&encoded), Ok(BsonType::int32()));

    let both = BsonType::int32() | BsonType::int64();
    let encoded = both.serialize().unwrap();
    assert_eq!(encoded, texts(&["int", "int"]));
    assert_eq!(BsonType::deserialize(&encoded), Ok(BsonType::int32()));
}

#[test]
fn the_number_of_aliases_is_the_number_of_types_in_the_set() {
    for bits in 1..=u16::MAX {
        let encoded = BsonType::from_bits(bits).serialize().unwrap();
        match encoded {
            StructuredValue::Str(_) => assert_eq!(bits.count_ones(), 1),
            StructuredValue::Array(items) => {
                assert!(bits.count_ones() > 1);
                assert_eq!(items.len(), bits.count_ones() as usize);
            }
            other => panic!("unexpected encoding {:?}", other),
        }
    }
}

#[test]
fn what_a_decoder_of_types_expects() {
    assert_eq!(
        BsonType::expecting(),
        "a BSON type alias string or an array of BSON type alias strings"
    );
}
