//! The failures of measurement arithmetic and of the textual codec.

use std::num::ParseIntError;
use vstd::prelude::*;
use vstd::std_specs::convert::FromSpecImpl;
use vstd::string::*;

verus! {

/// The result of a fallible measurement operation.
pub type MeasureResult<T> = Result<T, MeasureErr>;

/// Why a measurement operation failed.
#[derive(Clone, Debug, PartialEq, Eq, PartialOrd, Ord)]
pub enum MeasureErr {
    /// A sum, or a span made from a count of units, is out of the
    /// representable range.
    Overflow,
    /// A difference is out of the representable range.
    Underflow,
    /// A count in a textual duration could not be read as a number.
    ParseIntError(IntErrorKind),
}

/// Why a run of characters could not be read as a number.
#[derive(Debug, Clone, PartialEq, Eq, PartialOrd, Ord)]
pub enum IntErrorKind {
    /// There was nothing to read.
    Empty,
    /// A character was not a digit.
    InvalidDigit,
    /// The number is too large for the integer type.
    Overflow,
    /// The number is too small for the integer type.
    Underflow,
    /// A reason that is none of the above, with its message kept as it came.
    Unknown { msg: String },
}

/// Why a textual duration could not be decoded.
#[derive(Clone, Debug, PartialEq, Eq)]
pub enum DecodeErr {
    /// The text does not begin with `P`.
    MissingDesignator,
    /// No `T` follows the date components.
    MissingTimeSeparator,
    /// The text ends after a count, where a unit letter is due.
    MissingUnit,
    /// The character after a count is none of `W`, `D`, `H`, `M`, `S`.
    UnknownUnit { unit: char },
    /// A count could not be read, or a component or the running total left
    /// the representable range.
    Measure(MeasureErr),
}

/// The standard library's error for a failed integer parse, opaque to the
/// verifier.
#[verifier::external_type_specification]
#[verifier::external_body]
pub struct ExParseIntError(ParseIntError);

/// The `Display` text of a `ParseIntError`.
pub uninterp spec fn message_text(err: ParseIntError) -> Seq<char>;

/// The message of a parse on empty input.
pub open spec fn empty_message() -> Seq<char> {
    "cannot parse integer from empty string"@
}

/// The message of a parse that met a character which is no digit.
pub open spec fn invalid_digit_message() -> Seq<char> {
    "invalid digit found in string"@
}

/// The message of a parse whose number is above the integer type's range.
pub open spec fn too_large_message() -> Seq<char> {
    "number too large to fit in target type"@
}

/// The message of a parse whose number is below the integer type's range.
pub open spec fn too_small_message() -> Seq<char> {
    "number too small to fit in target type"@
}

impl IntErrorKind {
    /// Whether this kind is the classification of the diagnostic `msg`: one
    /// of the four known kinds where `msg` is that kind's message, letter for
    /// letter, and otherwise `Unknown` holding `msg` itself.
    pub open spec fn classifies(self, msg: Seq<char>) -> bool {
        if msg == empty_message() {
            self == IntErrorKind::Empty
        } else if msg == invalid_digit_message() {
            self == IntErrorKind::InvalidDigit
        } else if msg == too_large_message() {
            self == IntErrorKind::Overflow
        } else if msg == too_small_message() {
            self == IntErrorKind::Underflow
        } else {
            self matches IntErrorKind::Unknown { msg: kept } && kept@ == msg
        }
    }

    /// Classifies the diagnostic message of a failed integer parse. A message
    /// that is none of the four known ones is kept verbatim in `Unknown`.
    pub fn from_message(msg: &str) -> (kind: IntErrorKind)
        ensures
            kind.classifies(msg@),
    {
        if same_text(msg, "cannot parse integer from empty string") {
            IntErrorKind::Empty
        } else if same_text(msg, "invalid digit found in string") {
            IntErrorKind::InvalidDigit
        } else if same_text(msg, "number too large to fit in target type") {
            IntErrorKind::Overflow
        } else if same_text(msg, "number too small to fit in target type") {
            IntErrorKind::Underflow
        } else {
            IntErrorKind::Unknown { msg: msg.to_owned() }
        }
    }
}

impl MeasureErr {
    /// Whether this error is what a failed integer parse with the diagnostic
    /// `msg` converts to: `ParseIntError` around the classification of `msg`.
    pub open spec fn reports(self, msg: Seq<char>) -> bool {
        self matches MeasureErr::ParseIntError(kind) && kind.classifies(msg)
    }
}

/// Whether two string slices hold the same characters.
fn same_text(a: &str, b: &str) -> (same: bool)
    ensures
        same == (a@ == b@),
{
    a.to_owned() == b.to_owned()
}

/// The `Display` text of a `ParseIntError`, which the standard library
/// words: the contract only gives the text its name.
#[verifier::external_body]
fn message_of(err: &ParseIntError) -> (text: String)
    ensures
        text@ == message_text(*err),
{
    format!("{}", err)
}

impl From<ParseIntError> for MeasureErr {
    /// Wraps the classification of the error's message; see
    /// [`IntErrorKind::classifies`] for how a message is classified. For each
    /// of the four known messages this fixes the result entirely, and for
    /// any other it fixes the text that `Unknown` keeps.
    fn from(err: ParseIntError) -> (e: MeasureErr)
        ensures
            e.reports(message_text(err)),
    {
        let msg = message_of(&err);
        MeasureErr::ParseIntError(IntErrorKind::from_message(msg.as_str()))
    }
}

impl FromSpecImpl<ParseIntError> for MeasureErr {
    /// An `Unknown` kind holds a string, which its text does not determine
    /// for the verifier, so the result is stated as a relation in the
    /// contract of `from` and not as an equation with `from_spec`.
    open spec fn obeys_from_spec() -> bool {
        false
    }

    /// An error that wraps the classification of the message of `err`.
    open spec fn from_spec(err: ParseIntError) -> MeasureErr {
        choose|e: MeasureErr| #[trigger] e.reports(message_text(err))
    }
}

} // verus!
