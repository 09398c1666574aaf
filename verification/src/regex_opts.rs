//! The options of a `$regex` filter, and their encoding as letters.

pub mod laws;

use vstd::prelude::*;
use vstd::string::StringExecFns;
use crate::error::{decodes_as, DecodeError, DecodeFailure};
use crate::value::{StructuredValue, ValueModel};

verus! {

/// A set of regular expression options, one bit for each option. The view
/// of a set is its bits, of which only the four lowest are ever set.
#[derive(Debug, Clone, Copy, PartialEq, Eq, Structural, PartialOrd, Ord, Hash)]
pub struct RegexOpts(u8);

impl View for RegexOpts {
    type V = u8;

    closed spec fn view(&self) -> u8 {
        self.0
    }
}

impl RegexOpts {
    /// Case insensitive matching.
    pub const IGNORE_CASE: u8 = 0x01;

    /// `^` and `$` match at the beginning and the end of each line.
    pub const LINE_ANCHOR: u8 = 0x02;

    /// Extended syntax: whitespace and `#` comments are allowed in the
    /// pattern.
    pub const EXTENDED: u8 = 0x04;

    /// The `.` character matches newlines too.
    pub const DOT_NEWLINE: u8 = 0x08;

    /// All four options.
    pub const ALL: u8 = 0x0f;

    /// The set with the given bits.
    pub closed spec fn with_bits(bits: u8) -> RegexOpts {
        RegexOpts(bits)
    }

    #[verifier::type_invariant]
    spec fn only_options(&self) -> bool {
        is_option_set(self.0)
    }

    /// The set with no option in it.
    pub fn empty() -> (options: RegexOpts)
        ensures
            options@ == 0,
    {
        assert(0u8 & 0x0f == 0u8) by (bit_vector);
        RegexOpts(0)
    }

    /// The set of all four options.
    pub fn all() -> (options: RegexOpts)
        ensures
            options@ == RegexOpts::ALL,
    {
        assert(0x0fu8 & 0x0f == 0x0fu8) by (bit_vector);
        RegexOpts(RegexOpts::ALL)
    }

    /// The set of case insensitive matching.
    pub fn ignore_case() -> (options: RegexOpts)
        ensures
            options@ == RegexOpts::IGNORE_CASE,
    {
        assert(0x01u8 & 0x0f == 0x01u8) by (bit_vector);
        RegexOpts(RegexOpts::IGNORE_CASE)
    }

    /// The set of anchors that match at each line.
    pub fn line_anchor() -> (options: RegexOpts)
        ensures
            options@ == RegexOpts::LINE_ANCHOR,
    {
        assert(0x02u8 & 0x0f == 0x02u8) by (bit_vector);
        RegexOpts(RegexOpts::LINE_ANCHOR)
    }

    /// The set of the extended syntax.
    pub fn extended() -> (options: RegexOpts)
        ensures
            options@ == RegexOpts::EXTENDED,
    {
        assert(0x04u8 & 0x0f == 0x04u8) by (bit_vector);
        RegexOpts(RegexOpts::EXTENDED)
    }

    /// The set of the dot that matches newlines.
    pub fn dot_newline() -> (options: RegexOpts)
        ensures
            options@ == RegexOpts::DOT_NEWLINE,
    {
        assert(0x08u8 & 0x0f == 0x08u8) by (bit_vector);
        RegexOpts(RegexOpts::DOT_NEWLINE)
    }

    /// The set with the given bits, if they are a set of options.
    pub fn from_bits(bits: u8) -> (options: Option<RegexOpts>)
        ensures
            match options {
                Some(options) => is_option_set(bits) && options@ == bits,
                None => !is_option_set(bits),
            },
    {
        if bits & RegexOpts::ALL == bits {
            Some(RegexOpts(bits))
        } else {
            None
        }
    }

    /// The set with those of the given bits that stand for an option.
    pub fn from_bits_truncate(bits: u8) -> (options: RegexOpts)
        ensures
            options@ == bits & RegexOpts::ALL,
    {
        assert((bits & 0x0f) & 0x0f == bits & 0x0f) by (bit_vector);
        RegexOpts(bits & RegexOpts::ALL)
    }

    /// The bits of the set. They are a set of options.
    pub fn bits(&self) -> (bits: u8)
        ensures
            bits == self@,
            is_option_set(self@),
    {
        proof {
            use_type_invariant(self);
        }
        self.0
    }

    /// Whether the set has no option in it.
    pub fn is_empty(&self) -> (b: bool)
        ensures
            b == (self@ == 0),
    {
        self.0 == 0
    }

    /// Whether every option of `other` is in the set.
    pub fn contains(&self, other: RegexOpts) -> (b: bool)
        ensures
            b == holds(self@, other@),
    {
        self.0 & other.0 == other.0
    }

    /// Whether the set and `other` have an option in common.
    pub fn intersects(&self, other: RegexOpts) -> (b: bool)
        ensures
            b == (self@ & other@ != 0),
    {
        self.0 & other.0 != 0
    }

    /// The options that are in the set or in `other`.
    pub fn union(self, other: RegexOpts) -> (options: RegexOpts)
        ensures
            options@ == self@ | other@,
    {
        proof {
            use_type_invariant(self);
            use_type_invariant(other);
            lemma_union_is_option_set(self.0, other.0);
        }
        RegexOpts(self.0 | other.0)
    }

    /// The options that are in the set and in `other`.
    pub fn intersection(self, other: RegexOpts) -> (options: RegexOpts)
        ensures
            options@ == self@ & other@,
    {
        proof {
            use_type_invariant(self);
            lemma_part_is_option_set(self.0, other.0);
        }
        RegexOpts(self.0 & other.0)
    }

    /// The options that are in the set and not in `other`.
    pub fn difference(self, other: RegexOpts) -> (options: RegexOpts)
        ensures
            options@ == self@ & !other@,
    {
        proof {
            use_type_invariant(self);
            lemma_part_is_option_set(self.0, !other.0);
        }
        RegexOpts(self.0 & !other.0)
    }

    /// Puts the options of `other` into the set.
    pub fn insert(&mut self, other: RegexOpts)
        ensures
            final(self)@ == old(self)@ | other@,
    {
        *self = self.union(other);
    }

    /// Takes the options of `other` out of the set.
    pub fn remove(&mut self, other: RegexOpts)
        ensures
            final(self)@ == old(self)@ & !other@,
    {
        *self = self.difference(other);
    }
}

impl Default for RegexOpts {
    /// The set with no option in it.
    fn default() -> (options: RegexOpts)
        ensures
            options@ == 0,
    {
        RegexOpts::empty()
    }
}

impl core::ops::BitOr for RegexOpts {
    type Output = RegexOpts;

    /// The options that are in the one set or in the other.
    fn bitor(self, other: RegexOpts) -> (options: RegexOpts)
        ensures
            options@ == self@ | other@,
    {
        self.union(other)
    }
}

impl vstd::std_specs::ops::BitOrSpecImpl for RegexOpts {
    open spec fn obeys_bitor_spec() -> bool {
        true
    }

    open spec fn bitor_req(self, other: RegexOpts) -> bool {
        true
    }

    open spec fn bitor_spec(self, other: RegexOpts) -> RegexOpts {
        RegexOpts::with_bits(self@ | other@)
    }
}

/// The number of entries in the table of option letters.
pub const OPTION_COUNT: usize = 4;

/// The table of option letters: each letter with the flag that it stands
/// for, in the order in which the options of a set are written out.
pub open spec fn option_letters() -> Seq<(char, u8)> {
    seq![
        ('i', RegexOpts::IGNORE_CASE),
        ('m', RegexOpts::LINE_ANCHOR),
        ('x', RegexOpts::EXTENDED),
        ('s', RegexOpts::DOT_NEWLINE),
    ]
}

/// The entry at `index` of the table of option letters, the letter both as
/// a character and as a string.
fn option_entry(index: usize) -> (entry: (char, &'static str, u8))
    requires
        index < OPTION_COUNT,
    ensures
        option_letters()[index as int] == (entry.0, entry.2),
        entry.1@ == seq![entry.0],
{
    proof {
        reveal_strlit("i");
        reveal_strlit("m");
        reveal_strlit("x");
        reveal_strlit("s");
    }
    let entry = match index {
        0 => ('i', "i", RegexOpts::IGNORE_CASE),
        1 => ('m', "m", RegexOpts::LINE_ANCHOR),
        2 => ('x', "x", RegexOpts::EXTENDED),
        _ => ('s', "s", RegexOpts::DOT_NEWLINE),
    };
    assert(entry.1@ =~= seq![entry.0]);
    entry
}

/// `bits` is a set of options: it has no bit but those of the four options.
pub open spec fn is_option_set(bits: u8) -> bool {
    bits & RegexOpts::ALL == bits
}

/// `bits` holds every option of `flag`.
pub open spec fn holds(bits: u8, flag: u8) -> bool {
    bits & flag == flag
}

/// The letters of the options in `bits` among the first `count` entries of
/// the table, in table order.
pub open spec fn selected_letters(bits: u8, count: nat) -> Seq<char>
    decreases count,
{
    if count == 0 {
        Seq::empty()
    } else {
        let before = selected_letters(bits, (count - 1) as nat);
        let entry = option_letters()[count - 1];
        if holds(bits, entry.1) {
            before.push(entry.0)
        } else {
            before
        }
    }
}

/// What a set of options is encoded into: the letters of its options, in
/// table order.
pub open spec fn encoded_options(bits: u8) -> Seq<char> {
    selected_letters(bits, OPTION_COUNT as nat)
}

/// The flag that `letter` stands for, looked for from the entry at `start`
/// on.
pub open spec fn flag_for_letter_from(letter: char, start: nat) -> Result<u8, DecodeFailure>
    decreases OPTION_COUNT - start,
{
    if start >= OPTION_COUNT {
        Err(DecodeFailure::UnexpectedRegexOption(letter))
    } else if option_letters()[start as int].0 == letter {
        Ok(option_letters()[start as int].1)
    } else {
        flag_for_letter_from(letter, start + 1)
    }
}

/// The flag that `letter` stands for.
pub open spec fn flag_for_letter(letter: char) -> Result<u8, DecodeFailure> {
    flag_for_letter_from(letter, 0)
}

/// The union of the flags that `letters` stand for. The first character
/// that is no option letter decides the failure; a letter may come twice.
#[verifier::opaque]
pub open spec fn decoded_options(letters: Seq<char>) -> Result<u8, DecodeFailure>
    decreases letters.len(),
{
    if letters.len() == 0 {
        Ok(0)
    } else {
        match decoded_options(letters.drop_last()) {
            Err(failure) => Err(failure),
            Ok(bits) => match flag_for_letter(letters.last()) {
                Ok(flag) => Ok(bits | flag),
                Err(failure) => Err(failure),
            },
        }
    }
}

impl RegexOpts {
    /// What a decoder of option sets expects to read.
    pub fn expecting() -> (text: &'static str)
        ensures
            text@ == "a string containing one of [imxs]"@,
    {
        "a string containing one of [imxs]"
    }

    /// The flag that `letter` stands for.
    pub fn flag_for_letter(letter: char) -> (options: Result<RegexOpts, DecodeError>)
        ensures
            decodes_as(options, flag_for_letter(letter)),
    {
        let mut i: usize = 0;
        while i < OPTION_COUNT
            invariant
                i <= OPTION_COUNT,
                flag_for_letter(letter) == flag_for_letter_from(letter, i as nat),
            decreases OPTION_COUNT - i,
        {
            let (candidate, _, flag) = option_entry(i);
            if candidate == letter {
                assert(flag & 0x0f == flag) by (bit_vector)
                    requires
                        flag == 1 || flag == 2 || flag == 4 || flag == 8,
                ;
                return Ok(RegexOpts(flag));
            }
            i += 1;
        }
        Err(DecodeError::UnexpectedRegexOption(letter))
    }

    /// Encodes the set as the string of the letters of its options, in
    /// table order.
    pub fn serialize(&self) -> (encoded: StructuredValue)
        ensures
            encoded@ == ValueModel::Str(encoded_options(self@)),
    {
        let mut letters = String::new();
        let mut i: usize = 0;
        while i < OPTION_COUNT
            invariant
                i <= OPTION_COUNT,
                letters@ == selected_letters(self@, i as nat),
            decreases OPTION_COUNT - i,
        {
            let (_, letter, flag) = option_entry(i);
            if self.0 & flag == flag {
                letters.append(letter);
            }
            i += 1;
        }
        StructuredValue::Str(letters)
    }

    /// Decodes a set from the letters of its options. The first character
    /// that is no option letter decides the failure.
    pub fn from_letters(letters: &str) -> (options: Result<RegexOpts, DecodeError>)
        ensures
            decodes_as(options, decoded_options(letters@)),
    {
        let mut bits: u8 = 0;
        proof {
            lemma_no_letters();
            assert(letters@.take(0) =~= Seq::empty());
            assert(0u8 & 0x0f == 0u8) by (bit_vector);
        }
        for letter in it: letters.chars()
            invariant
                it.seq() == letters@,
                decoded_options(letters@.take(it.index() as int)) == Ok::<u8, DecodeFailure>(bits),
                is_option_set(bits),
        {
            proof {
                lemma_next_letter(letters@, it.index() as int);
            }
            match RegexOpts::flag_for_letter(letter) {
                Ok(flag) => {
                    proof {
                        use_type_invariant(flag);
                        lemma_union_is_option_set(bits, flag.0);
                    }
                    bits = bits | flag.0;
                },
                Err(error) => {
                    proof {
                        lemma_failure_stays(letters@, it.index() + 1);
                    }
                    return Err(error);
                },
            }
        }
        assert(letters@.take(letters@.len() as int) =~= letters@);
        Ok(RegexOpts(bits))
    }

    /// Decodes a set from a string value.
    pub fn deserialize(value: &StructuredValue) -> (options: Result<RegexOpts, DecodeError>)
        ensures
            decodes_as(
                options,
                match value@ {
                    ValueModel::Str(letters) => decoded_options(letters),
                    _ => Err(DecodeFailure::NotOptionLetters),
                },
            ),
    {
        match value {
            StructuredValue::Str(letters) => RegexOpts::from_letters(letters.as_str()),
            _ => Err(DecodeError::NotOptionLetters),
        }
    }
}

/// No letter gives the empty set.
proof fn lemma_no_letters()
    ensures
        decoded_options(Seq::empty()) == Ok::<u8, DecodeFailure>(0),
{
    reveal(decoded_options);
}

/// Reading one more letter: the union so far takes in the flag of the next
/// letter, and a character that is no option letter fails.
proof fn lemma_next_letter(letters: Seq<char>, count: int)
    requires
        0 <= count < letters.len(),
    ensures
        decoded_options(letters.take(count + 1)) == match decoded_options(letters.take(count)) {
            Err(failure) => Err(failure),
            Ok(bits) => match flag_for_letter(letters[count]) {
                Ok(flag) => Ok(bits | flag),
                Err(failure) => Err(failure),
            },
        },
{
    reveal(decoded_options);
    assert(letters.take(count + 1).drop_last() =~= letters.take(count));
    assert(letters.take(count + 1).last() == letters[count]);
}

/// A failure among the first `count` letters is the failure of the whole.
proof fn lemma_failure_stays(letters: Seq<char>, count: int)
    requires
        0 <= count <= letters.len(),
        decoded_options(letters.take(count)) is Err,
    ensures
        decoded_options(letters) == decoded_options(letters.take(count)),
    decreases letters.len() - count,
{
    if count < letters.len() {
        lemma_next_letter(letters, count);
        lemma_failure_stays(letters, count + 1);
    } else {
        assert(letters.take(count) =~= letters);
    }
}

/// The union of two sets of options is a set of options.
proof fn lemma_union_is_option_set(a: u8, b: u8)
    by (bit_vector)
    requires
        a & 0x0f == a,
        b & 0x0f == b,
    ensures
        (a | b) & 0x0f == a | b,
{
}

/// A part of a set of options is a set of options.
proof fn lemma_part_is_option_set(a: u8, b: u8)
    by (bit_vector)
    requires
        a & 0x0f == a,
    ensures
        (a & b) & 0x0f == a & b,
{
}

} // verus!
