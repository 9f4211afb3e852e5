//! What can go wrong while a book is processed.

use vstd::prelude::*;
use vstd::string::StringExecFns;

verus! {

/// What is wrong with a book's options: an entry under a key that is no
/// option, or the option whose value has the wrong type.
#[derive(Debug, Clone, Copy, PartialEq, Eq, Structural)]
pub enum ConfigKey {
    /// An entry under a key that is none of the three options.
    Unrecognized,
    /// `head-separator`, a string.
    HeadSeparator,
    /// `separator`, a string.
    Separator,
    /// `warn-unusual-dice`, a boolean.
    WarnUnusualDice,
}

/// Why a run was given up. Every error ends the whole run.
#[derive(Debug, Clone, Copy, PartialEq, Eq, Structural)]
pub enum RunError {
    /// An entry of the options is not recognized, or the value of an option
    /// has the wrong type.
    ConfigValidation(ConfigKey),
    /// The tokens after the start of a table are not those of a table.
    MalformedTableStream,
    /// A table was handed another number of labels than it has data rows.
    GeneratorLengthMismatch,
    /// The renderer found no markdown for the tokens.
    Unrenderable,
}

impl RunError {
    /// The sentence that describes the error.
    pub open spec fn spec_message(self) -> Seq<char> {
        match self {
            RunError::ConfigValidation(key) => match key {
                ConfigKey::Unrecognized => "an option is not recognized"@,
                ConfigKey::HeadSeparator => "head-separator must be a string"@,
                ConfigKey::Separator => "separator must be a string"@,
                ConfigKey::WarnUnusualDice => "warn-unusual-dice must be a bool"@,
            },
            RunError::MalformedTableStream => "the tokens of a table are out of order"@,
            RunError::GeneratorLengthMismatch => "a table needs one label for each of its rows"@,
            RunError::Unrenderable => "the tokens cannot be written as markdown"@,
        }
    }

    /// The sentence that describes the error, for a log or a report.
    pub fn message(&self) -> (text: String)
        ensures
            text@ == self.spec_message(),
    {
        match self {
            RunError::ConfigValidation(key) => match key {
                ConfigKey::Unrecognized => String::from_str("an option is not recognized"),
                ConfigKey::HeadSeparator => String::from_str("head-separator must be a string"),
                ConfigKey::Separator => String::from_str("separator must be a string"),
                ConfigKey::WarnUnusualDice => String::from_str("warn-unusual-dice must be a bool"),
            },
            RunError::MalformedTableStream => String::from_str(
                "the tokens of a table are out of order",
            ),
            RunError::GeneratorLengthMismatch => String::from_str(
                "a table needs one label for each of its rows",
            ),
            RunError::Unrenderable => String::from_str("the tokens cannot be written as markdown"),
        }
    }
}

} // verus!
