//! What holds of the encoding of sets of regular expression options.

use vstd::prelude::*;
use crate::error::DecodeFailure;
use crate::regex_opts::{
    decoded_options, encoded_options, flag_for_letter, flag_for_letter_from, holds,
    is_option_set, lemma_failure_stays, lemma_next_letter, lemma_no_letters, option_letters,
    selected_letters, RegexOpts, OPTION_COUNT,
};

verus! {

/// The one letter `letter` where `bits` holds `flag`, and no letter where it
/// does not.
pub open spec fn letter_if(bits: u8, flag: u8, letter: char) -> Seq<char> {
    if holds(bits, flag) {
        seq![letter]
    } else {
        Seq::empty()
    }
}

/// The encoding holds the letter of each option of the set once, in the
/// order `i`, `m`, `x`, `s`, and nothing else.
pub proof fn lemma_options_in_order(bits: u8)
    ensures
        encoded_options(bits) == letter_if(bits, RegexOpts::IGNORE_CASE, 'i') + letter_if(
            bits,
            RegexOpts::LINE_ANCHOR,
            'm',
        ) + letter_if(bits, RegexOpts::EXTENDED, 'x') + letter_if(
            bits,
            RegexOpts::DOT_NEWLINE,
            's',
        ),
{
    reveal_with_fuel(selected_letters, 5);
    let i = letter_if(bits, RegexOpts::IGNORE_CASE, 'i');
    let m = letter_if(bits, RegexOpts::LINE_ANCHOR, 'm');
    let x = letter_if(bits, RegexOpts::EXTENDED, 'x');
    let s = letter_if(bits, RegexOpts::DOT_NEWLINE, 's');
    assert(selected_letters(bits, 1) =~= i);
    assert(selected_letters(bits, 2) =~= i + m);
    assert(selected_letters(bits, 3) =~= i + m + x);
    assert(selected_letters(bits, 4) =~= i + m + x + s);
}

/// The flags that `bits` holds among the first `count` entries of the table.
pub open spec fn held_flags(bits: u8, count: nat) -> u8
    decreases count,
{
    if count == 0 {
        0
    } else {
        let before = held_flags(bits, (count - 1) as nat);
        let flag = option_letters()[count - 1].1;
        if holds(bits, flag) {
            before | flag
        } else {
            before
        }
    }
}

/// Each letter of the table is read back as the flag of its entry.
pub proof fn lemma_letter_read_back(index: int)
    requires
        0 <= index < OPTION_COUNT,
    ensures
        flag_for_letter(option_letters()[index].0) == Ok::<u8, DecodeFailure>(
            option_letters()[index].1,
        ),
{
    reveal_with_fuel(flag_for_letter_from, 5);
}

/// Decoding the letters of the options that `bits` holds among the first
/// `count` entries gives the union of those options.
proof fn lemma_selected_read_back(bits: u8, count: nat)
    requires
        count <= OPTION_COUNT,
    ensures
        decoded_options(selected_letters(bits, count)) == Ok::<u8, DecodeFailure>(
            held_flags(bits, count),
        ),
    decreases count,
{
    reveal(decoded_options);
    if count > 0 {
        let before = (count - 1) as nat;
        lemma_selected_read_back(bits, before);
        let entry = option_letters()[count - 1];
        if holds(bits, entry.1) {
            lemma_letter_read_back(count - 1);
            let letters = selected_letters(bits, count);
            assert(letters.drop_last() =~= selected_letters(bits, before));
            assert(letters.last() == entry.0);
        }
    }
}

/// Decoding what a set of options is encoded into gives the set back.
pub proof fn lemma_options_round_trip(bits: u8)
    requires
        is_option_set(bits),
    ensures
        decoded_options(encoded_options(bits)) == Ok::<u8, DecodeFailure>(bits),
{
    lemma_selected_read_back(bits, OPTION_COUNT as nat);
    let b0 = held_flags(bits, 0);
    let b1 = held_flags(bits, 1);
    let b2 = held_flags(bits, 2);
    let b3 = held_flags(bits, 3);
    let b4 = held_flags(bits, 4);
    assert(b4 == bits) by (bit_vector)
        requires
            bits & 0x0f == bits,
            b1 == (if bits & 0x01 == 0x01 {
                0u8 | 0x01
            } else {
                0u8
            }),
            b2 == (if bits & 0x02 == 0x02 {
                b1 | 0x02
            } else {
                b1
            }),
            b3 == (if bits & 0x04 == 0x04 {
                b2 | 0x04
            } else {
                b2
            }),
            b4 == (if bits & 0x08 == 0x08 {
                b3 | 0x08
            } else {
                b3
            }),
    ;
}

/// `letter` is one of the four option letters.
pub open spec fn is_option_letter(letter: char) -> bool {
    letter == 'i' || letter == 'm' || letter == 'x' || letter == 's'
}

/// The option letters are the characters that stand for a flag; any other
/// character is named by the failure.
pub proof fn lemma_letters_of_table(letter: char)
    ensures
        is_option_letter(letter) <==> flag_for_letter(letter) is Ok,
        !is_option_letter(letter) ==> flag_for_letter(letter) == Err::<u8, DecodeFailure>(
            DecodeFailure::UnexpectedRegexOption(letter),
        ),
{
    reveal_with_fuel(flag_for_letter_from, 5);
}

/// Option letters alone are decoded.
proof fn lemma_option_letters_decode(letters: Seq<char>, count: int)
    requires
        0 <= count <= letters.len(),
        forall|j: int| 0 <= j < count ==> is_option_letter(#[trigger] letters[j]),
    ensures
        decoded_options(letters.take(count)) is Ok,
    decreases count,
{
    if count == 0 {
        lemma_no_letters();
        assert(letters.take(0) =~= Seq::empty());
    } else {
        lemma_option_letters_decode(letters, count - 1);
        lemma_next_letter(letters, count - 1);
        lemma_letters_of_table(letters[count - 1]);
    }
}

/// A string with a character that is no option letter is not decoded, and
/// the failure names the first such character.
pub proof fn lemma_bad_letter_fails(letters: Seq<char>, index: int)
    requires
        0 <= index < letters.len(),
        !is_option_letter(letters[index]),
        forall|j: int| 0 <= j < index ==> is_option_letter(#[trigger] letters[j]),
    ensures
        decoded_options(letters) == Err::<u8, DecodeFailure>(
            DecodeFailure::UnexpectedRegexOption(letters[index]),
        ),
{
    lemma_option_letters_decode(letters, index);
    lemma_next_letter(letters, index);
    lemma_letters_of_table(letters[index]);
    lemma_failure_stays(letters, index + 1);
}

} // verus!
