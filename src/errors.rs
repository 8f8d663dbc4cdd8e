//! Failure kinds of each stage: locating the file, parsing, resolving,
//! selecting a case, building the command, running it and checking it.

use vstd::prelude::*;

verus! {

/// A text held in a file could not be read; the message describes the cause.
#[derive(Debug)]
pub enum StringReferenceError {
    FileRead(String),
}

/// The challenge document could not be turned into a resolved tree.
#[derive(Debug)]
pub enum ChallengeParseError {
    /// The document is malformed; the parser's message.
    Yaml(String),
    /// The part of this name has no command of its own nor from an ancestor.
    NoCommandFound(String),
}

/// A command could not be turned into a program and its arguments.
#[derive(Debug)]
pub enum CommandParseError {
    /// The shell string has unbalanced quoting; the string as written.
    MalformedString(String),
    /// The command has no tokens.
    EmptyCommand,
}

/// Running a case failed, or its output was not the expected one.
#[derive(Debug)]
pub enum ChallengeExecutionError {
    BadStringReference(StringReferenceError),
    BadCommand(CommandParseError),
    ClosedStdin,
    ClosedStdout,
    CouldNotWriteStdin(String),
    CouldNotReadStdout(String),
    SpawnFailed(String),
    ExecutionFailed(String),
    UnexpectedOutput { expected: String, actual: String },
}

/// A path of names did not lead to a case.
#[derive(Debug)]
pub enum ChallengeCaseError {
    /// The path ended before a case was reached.
    NotEnoughCases,
    /// No child or case of `config_name` is named `case`.
    CaseNotFound { case: String, config_name: String },
}

/// The challenge file could not be found or opened.
#[derive(Debug)]
pub enum ChallengeFileError {
    FileDoesNotExist(String),
    CouldNotFindParent(String),
    FileNotFoundInDirectory(String),
    CouldNotOpenFile(String),
    CouldNotReadDirectory(String),
}

/// Any failure of a whole run.
#[derive(Debug)]
pub enum ProgramError {
    InputFileError(ChallengeFileError),
    ParseError(ChallengeParseError),
    InputCaseError(ChallengeCaseError),
    ExecutionError(ChallengeExecutionError),
}

} // verus!
