//! The command word, and what can go wrong in a run.

use vstd::prelude::*;
use crate::camel::lowercase;
use crate::chars::lower;
use crate::text::chars_of;

verus! {

/// The transform that a run applies.
#[derive(Debug, Clone, Copy, PartialEq, Eq, Structural)]
pub enum Command {
    /// From snake_case to camelCase.
    USCC,
    /// The text as it is.
    CCUS,
}

/// Why a run ended without a result.
#[derive(Debug, PartialEq, Eq)]
pub enum Error {
    /// No command word was given.
    NotEnoughArguments,
    /// The command word is not one of the two known ones.
    UnknownCommand,
    /// The input file could not be read; `cause` says why.
    InputReadFailure { cause: String },
    /// The output file at `path` could not be written; `cause` says why.
    OutputWriteFailure { path: String, cause: String },
}

/// The command that `token` names, whatever the case of its ASCII letters.
pub open spec fn resolve(token: Seq<char>) -> Option<Command> {
    if lowercase(token) == "uscc"@ {
        Some(Command::USCC)
    } else if lowercase(token) == "ccus"@ {
        Some(Command::CCUS)
    } else {
        None
    }
}

/// What is said when the input file could not be read.
pub open spec fn read_failure_text(cause: Seq<char>) -> Seq<char> {
    "Unable to read file : "@ + cause
}

/// What is said when the output file could not be written.
pub open spec fn write_failure_text(path: Seq<char>, cause: Seq<char>) -> Seq<char> {
    "Error while writing output file: "@ + path + ", err: "@ + cause
}

/// Compares `token`, in lower case, with `word`.
pub fn is_word(token: &[char], word: &str) -> (same: bool)
    ensures
        same == (lowercase(token@) == word@),
{
    let letters = chars_of(word);
    if token.len() != letters.len() {
        return false;
    }
    let mut i: usize = 0;
    while i < token.len()
        invariant
            i <= token.len(),
            token.len() == letters.len(),
            letters@ == word@,
            forall|j: int| 0 <= j < i ==> lowercase(token@)[j] == letters@[j],
        decreases token.len() - i,
    {
        if lower(token[i]) != letters[i] {
            assert(lowercase(token@)[i as int] != word@[i as int]);
            return false;
        }
        i += 1;
    }
    assert(lowercase(token@) =~= word@);
    true
}

impl Command {
    /// Reads a command word. The case of its letters does not count.
    pub fn new(s: &str) -> (r: Result<Command, Error>)
        ensures
            match r {
                Ok(command) => resolve(s@) == Some(command),
                Err(e) => resolve(s@) is None && e == Error::UnknownCommand,
            },
    {
        let token = chars_of(s);
        if is_word(token.as_slice(), "uscc") {
            Ok(Command::USCC)
        } else if is_word(token.as_slice(), "ccus") {
            Ok(Command::CCUS)
        } else {
            Err(Error::UnknownCommand)
        }
    }
}

impl Error {
    /// The words for this error.
    pub open spec fn text(self) -> Seq<char> {
        match self {
            Error::NotEnoughArguments => "Not enough arguments"@,
            Error::UnknownCommand => "Unknown command"@,
            Error::InputReadFailure { cause } => read_failure_text(cause@),
            Error::OutputWriteFailure { path, cause } => write_failure_text(path@, cause@),
        }
    }

    /// Says in words what went wrong.
    pub fn message(&self) -> (out: String)
        ensures
            out@ == self.text(),
    {
        match self {
            Error::NotEnoughArguments => "Not enough arguments".to_owned(),
            Error::UnknownCommand => "Unknown command".to_owned(),
            Error::InputReadFailure { cause } => {
                let mut out = "Unable to read file : ".to_owned();
                out.append(cause.as_str());
                out
            },
            Error::OutputWriteFailure { path, cause } => {
                let mut out = "Error while writing output file: ".to_owned();
                out.append(path.as_str());
                out.append(", err: ");
                out.append(cause.as_str());
                out
            },
        }
    }
}

} // verus!
