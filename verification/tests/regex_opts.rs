use avocado::error::DecodeError;
use avocado::regex_opts::RegexOpts;
use avocado::value::StructuredValue;

fn text(s: &str) -> StructuredValue {
    StructuredValue::Str(s.to_string())
}

#[test]
fn options_have_one_bit_each() {
    assert_eq!(RegexOpts::IGNORE_CASE, 0b0001);
    assert_eq!(RegexOpts::LINE_ANCHOR, 0b0010);
    assert_eq!(RegexOpts::EXTENDED, 0b0100);
    assert_eq!(RegexOpts::DOT_NEWLINE, 0b1000);
    assert_eq!(RegexOpts::ALL, 0b1111);
    assert_eq!(RegexOpts::ignore_case().bits(), RegexOpts::IGNORE_CASE);
    assert_eq!(RegexOpts::line_anchor().bits(), RegexOpts::LINE_ANCHOR);
    assert_eq!(RegexOpts::extended().bits(), RegexOpts::EXTENDED);
    assert_eq!(RegexOpts::dot_newline().bits(), RegexOpts::DOT_NEWLINE);
    assert_eq!(RegexOpts::all().bits(), RegexOpts::ALL);
    assert_eq!(RegexOpts::empty().bits(), 0);
    assert_eq!(RegexOpts::default(), RegexOpts::empty());
}

#[test]
fn only_the_four_options_make_a_set() {
    for bits in 0..=u8::MAX {
        match RegexOpts::from_bits(bits) {
            Some(options) => {
                assert!(bits <= 0x0f);
                assert_eq!(options.bits(), bits);
            }
            None => assert!(bits > 0x0f),
        }
        assert_eq!(RegexOpts::from_bits_truncate(bits).bits(), bits & 0x0f);
    }
}

#[test]
fn set_operations_on_options() {
    let im = RegexOpts::ignore_case() | RegexOpts::line_anchor();
    let mx = RegexOpts::line_anchor().union(RegexOpts::extended());
    assert_eq!(im.bits(), 0b0011);
    assert!(im.contains(RegexOpts::ignore_case()));
    assert!(!im.contains(mx));
    assert!(im.intersects(mx));
    assert!(!im.intersects(RegexOpts::dot_newline()));
    assert_eq!(im.intersection(mx), RegexOpts::line_anchor());
    assert_eq!(im.difference(mx), RegexOpts::ignore_case());
    assert!(RegexOpts::empty().is_empty());
    assert!(!im.is_empty());

    let mut set = RegexOpts::empty();
    set.insert(RegexOpts::dot_newline());
    set.insert(RegexOpts::ignore_case());
    assert_eq!(set.bits(), 0b1001);
    set.remove(RegexOpts::ignore_case());
    assert_eq!(set, RegexOpts::dot_newline());
}

#[test]
fn options_are_encoded_as_letters_in_table_order() {
    let expected = [
        "", "i", "m", "im", "x", "ix", "mx", "imx", "s", "is", "ms", "ims", "xs", "ixs", "mxs",
        "imxs",
    ];
    for bits in 0..16u8 {
        let options = RegexOpts::from_bits(bits).unwrap();
        assert_eq!(options.serialize(), text(expected[bits as usize]));
    }
}

#[test]
fn the_order_of_insertion_does_not_change_the_letters() {
    let mut forward = RegexOpts::empty();
    forward.insert(RegexOpts::ignore_case());
    forward.insert(RegexOpts::dot_newline());
    let mut backward = RegexOpts::empty();
    backward.insert(RegexOpts::dot_newline());
    backward.insert(RegexOpts::ignore_case());
    assert_eq!(forward.serialize(), text("is"));
    assert_eq!(backward.serialize(), text("is"));
}

#[test]
fn every_set_of_options_survives_the_round_trip() {
    for bits in 0..16u8 {
        let options = RegexOpts::from_bits(bits).unwrap();
        let encoded = options.serialize();
        assert_eq!(RegexOpts::deserialize(&encoded), Ok(options));
        match encoded {
            StructuredValue::Str(letters) => {
                for (flag, letter) in [(1u8, 'i'), (2, 'm'), (4, 'x'), (8, 's')] {
                    let times = letters.chars().filter(|c| *c == letter).count();
                    assert_eq!(times, if bits & flag != 0 { 1 } else { 0 });
                }
                assert_eq!(letters.len(), bits.count_ones() as usize);
            }
            other => panic!("unexpected encoding {:?}", other),
        }
    }
}

#[test]
fn letters_are_decoded_in_any_order_and_number() {
    assert_eq!(RegexOpts::from_letters(""), Ok(RegexOpts::empty()));
    assert_eq!(RegexOpts::from_letters("i"), Ok(RegexOpts::ignore_case()));
    assert_eq!(RegexOpts::from_letters("m"), Ok(RegexOpts::line_anchor()));
    assert_eq!(RegexOpts::from_letters("x"), Ok(RegexOpts::extended()));
    assert_eq!(RegexOpts::from_letters("s"), Ok(RegexOpts::dot_newline()));
    assert_eq!(RegexOpts::from_letters("sxmi"), Ok(RegexOpts::all()));
    assert_eq!(
        RegexOpts::from_letters("iii"),
        Ok(RegexOpts::ignore_case())
    );
    assert_eq!(
        RegexOpts::from_letters("xsxsx"),
        Ok(RegexOpts::extended() | RegexOpts::dot_newline())
    );
}

#[test]
fn each_letter_stands_for_its_option() {
    assert_eq!(RegexOpts::flag_for_letter('i'), Ok(RegexOpts::ignore_case()));
    assert_eq!(RegexOpts::flag_for_letter('m'), Ok(RegexOpts::line_anchor()));
    assert_eq!(RegexOpts::flag_for_letter('x'), Ok(RegexOpts::extended()));
    assert_eq!(RegexOpts::flag_for_letter('s'), Ok(RegexOpts::dot_newline()));
    assert_eq!(
        RegexOpts::flag_for_letter('I'),
        Err(DecodeError::UnexpectedRegexOption('I'))
    );
}

#[test]
fn a_character_that_is_no_option_is_named_by_the_failure() {
    assert_eq!(
        RegexOpts::from_letters("g"),
        Err(DecodeError::UnexpectedRegexOption('g'))
    );
    assert_eq!(
        RegexOpts::from_letters("imu"),
        Err(DecodeError::UnexpectedRegexOption('u'))
    );
    assert_eq!(
        RegexOpts::from_letters("i m"),
        Err(DecodeError::UnexpectedRegexOption(' '))
    );
    assert_eq!(
        RegexOpts::from_letters("IM"),
        Err(DecodeError::UnexpectedRegexOption('I'))
    );
}

#[test]
fn the_first_bad_character_decides_the_failure() {
    assert_eq!(
        RegexOpts::from_letters("ixqsz"),
        Err(DecodeError::UnexpectedRegexOption('q'))
    );
    assert_eq!(
        RegexOpts::from_letters("zq"),
        Err(DecodeError::UnexpectedRegexOption('z'))
    );
}

#[test]
fn a_character_beyond_ascii_is_named_whole() {
    assert_eq!(
        RegexOpts::from_letters("i\u{e9}"),
        Err(DecodeError::UnexpectedRegexOption('\u{e9}'))
    );
}

#[test]
fn options_are_decoded_from_a_string_value_only() {
    assert_eq!(
        RegexOpts::deserialize(&text("ms")),
        Ok(RegexOpts::line_anchor() | RegexOpts::dot_newline())
    );
    assert_eq!(
        RegexOpts::deserialize(&text("msq")),
        Err(DecodeError::UnexpectedRegexOption('q'))
    );
    assert_eq!(
        RegexOpts::deserialize(&StructuredValue::Int32(1)),
        Err(DecodeError::NotOptionLetters)
    );
    assert_eq!(
        RegexOpts::deserialize(&StructuredValue::Array(vec![text("i")])),
        Err(DecodeError::NotOptionLetters)
    );
}

#[test]
fn what_a_decoder_of_options_expects() {
    assert_eq!(RegexOpts::expecting(), "a string containing one of [imxs]");
}
