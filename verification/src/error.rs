//! The ways in which encoding and decoding fail, and what each failure says.

use vstd::prelude::*;
use vstd::string::StringExecFns;

verus! {

/// Why a filter could not be encoded.
#[derive(Debug, Clone, Copy, PartialEq, Eq)]
pub enum EncodeError {
    /// The length given to `$size` does not fit a 64-bit signed integer.
    SizeOverflow(usize),
    /// The set of types given to `$type` is empty.
    NoTypes,
}

/// Why a value could not be decoded.
#[derive(Debug, Clone, PartialEq, Eq)]
pub enum DecodeError {
    /// The string is no alias of a BSON type.
    UnknownTypeAlias(String),
    /// The character is no regular expression option.
    UnexpectedRegexOption(char),
    /// The value is neither a string nor an array of strings, where a set
    /// of BSON types is read.
    NotTypeAliases,
    /// The value is no string, where a set of regular expression options is
    /// read.
    NotOptionLetters,
}

/// What a [`DecodeError`] holds, with the string as a sequence of characters.
pub ghost enum DecodeFailure {
    UnknownTypeAlias(Seq<char>),
    UnexpectedRegexOption(char),
    NotTypeAliases,
    NotOptionLetters,
}

impl View for DecodeError {
    type V = DecodeFailure;

    open spec fn view(&self) -> DecodeFailure {
        match self {
            DecodeError::UnknownTypeAlias(alias) => DecodeFailure::UnknownTypeAlias(alias@),
            DecodeError::UnexpectedRegexOption(option) => DecodeFailure::UnexpectedRegexOption(
                *option,
            ),
            DecodeError::NotTypeAliases => DecodeFailure::NotTypeAliases,
            DecodeError::NotOptionLetters => DecodeFailure::NotOptionLetters,
        }
    }
}

/// `result` is the outcome `expected`, with the decoded value and the error
/// each taken by its view.
pub open spec fn decodes_as<T: View, E: View>(result: Result<T, E>, expected: Result<T::V, E::V>) -> bool {
    match result {
        Ok(value) => expected == Ok::<T::V, E::V>(value@),
        Err(error) => expected == Err::<T::V, E::V>(error@),
    }
}

/// The character of the decimal digit `digit`.
pub open spec fn digit_char(digit: nat) -> char {
    (0x30 + digit) as char
}

/// The decimal digits of `n`, the most significant first.
pub open spec fn decimal(n: nat) -> Seq<char>
    decreases n,
{
    if n < 10 {
        seq![digit_char(n)]
    } else {
        decimal(n / 10).push(digit_char(n % 10))
    }
}

/// What an [`EncodeError`] says.
pub open spec fn encode_message(error: EncodeError) -> Seq<char> {
    match error {
        EncodeError::SizeOverflow(length) => "{ $size: "@ + decimal(length as nat)
            + " } overflows i64"@,
        EncodeError::NoTypes => "at least one type must be specified"@,
    }
}

/// What a decoding failure says. It names the alias or the character that
/// was not understood.
pub open spec fn decode_message(failure: DecodeFailure) -> Seq<char> {
    match failure {
        DecodeFailure::UnknownTypeAlias(alias) => "unknown BSON type alias: '"@ + alias + "'"@,
        DecodeFailure::UnexpectedRegexOption(option) => "unexpected regex option: '"@.push(option)
            + "'"@,
        DecodeFailure::NotTypeAliases =>
            "invalid type, expected a BSON type alias string or an array of BSON type alias strings"@,
        DecodeFailure::NotOptionLetters =>
            "invalid type, expected a string containing one of [imxs]"@,
    }
}

/// `String::push` of std: the character is appended to the end of the
/// string.
#[verifier::external_body]
fn push_char(text: &mut String, letter: char)
    ensures
        final(text)@ == old(text)@.push(letter),
{
    text.push(letter);
}

/// Appends the decimal digits of `n` to `text`.
fn push_decimal(text: &mut String, n: usize)
    ensures
        final(text)@ == old(text)@ + decimal(n as nat),
    decreases n,
{
    if n >= 10 {
        push_decimal(text, n / 10);
    }
    let digit: u8 = (n % 10) as u8;
    push_char(text, (0x30u8 + digit) as char);
    assert(text@ =~= old(text)@ + decimal(n as nat));
}

impl EncodeError {
    /// What the error says.
    pub fn message(&self) -> (text: String)
        ensures
            text@ == encode_message(*self),
    {
        match self {
            EncodeError::SizeOverflow(length) => {
                let mut text = String::from_str("{ $size: ");
                push_decimal(&mut text, *length);
                text.append(" } overflows i64");
                text
            },
            EncodeError::NoTypes => String::from_str("at least one type must be specified"),
        }
    }
}

impl DecodeError {
    /// What the error says.
    pub fn message(&self) -> (text: String)
        ensures
            text@ == decode_message(self@),
    {
        match self {
            DecodeError::UnknownTypeAlias(alias) => {
                let mut text = String::from_str("unknown BSON type alias: '");
                text.append(alias.as_str());
                text.append("'");
                text
            },
            DecodeError::UnexpectedRegexOption(option) => {
                let mut text = String::from_str("unexpected regex option: '");
                push_char(&mut text, *option);
                text.append("'");
                text
            },
            DecodeError::NotTypeAliases => String::from_str(
                "invalid type, expected a BSON type alias string or an array of BSON type alias strings",
            ),
            DecodeError::NotOptionLetters => String::from_str(
                "invalid type, expected a string containing one of [imxs]",
            ),
        }
    }
}

} // verus!
