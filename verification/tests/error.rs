use avocado::error::{DecodeError, EncodeError};

#[test]
fn an_empty_set_of_types_says_so() {
    assert_eq!(
        EncodeError::NoTypes.message(),
        "at least one type must be specified"
    );
}

#[test]
fn an_overflowing_size_names_the_size() {
    assert_eq!(
        EncodeError::SizeOverflow(9223372036854775808u64 as usize).message(),
        format!("{{ $size: {} }} overflows i64", 9223372036854775808u64 as usize)
    );
    assert_eq!(
        EncodeError::SizeOverflow(usize::MAX).message(),
        format!("{{ $size: {} }} overflows i64", usize::MAX)
    );
}

#[test]
fn sizes_are_written_in_decimal() {
    assert_eq!(
        EncodeError::SizeOverflow(0).message(),
        "{ $size: 0 } overflows i64"
    );
    assert_eq!(
        EncodeError::SizeOverflow(7).message(),
        "{ $size: 7 } overflows i64"
    );
    assert_eq!(
        EncodeError::SizeOverflow(10).message(),
        "{ $size: 10 } overflows i64"
    );
    assert_eq!(
        EncodeError::SizeOverflow(1234567890).message(),
        "{ $size: 1234567890 } overflows i64"
    );
    assert_eq!(
        EncodeError::SizeOverflow(100200).message(),
        "{ $size: 100200 } overflows i64"
    );
}

#[test]
fn an_unknown_alias_is_quoted() {
    assert_eq!(
        DecodeError::UnknownTypeAlias("float".to_string()).message(),
        "unknown BSON type alias: 'float'"
    );
    assert_eq!(
        DecodeError::UnknownTypeAlias(String::new()).message(),
        "unknown BSON type alias: ''"
    );
}

#[test]
fn an_unexpected_option_is_quoted() {
    assert_eq!(
        DecodeError::UnexpectedRegexOption('g').message(),
        "unexpected regex option: 'g'"
    );
    assert_eq!(
        DecodeError::UnexpectedRegexOption('\u{e9}').message(),
        "unexpected regex option: '\u{e9}'"
    );
}

#[test]
fn a_value_of_the_wrong_kind_says_what_was_expected() {
    assert_eq!(
        DecodeError::NotTypeAliases.message(),
        "invalid type, expected a BSON type alias string or an array of BSON type alias strings"
    );
    assert_eq!(
        DecodeError::NotOptionLetters.message(),
        "invalid type, expected a string containing one of [imxs]"
    );
}
