use vstd::prelude::*;
use vstd::string::StringExecFns;

use crate::matches::ArgMatches;
use crate::matches::MatchesModel;

verus! {

/// Why a parse failed. The first error met at any nesting level aborts the
/// whole parse; no partial result is returned.
#[derive(Debug)]
pub enum ParseError {
    /// A `--name` token whose name no argument of the current level declares.
    UnknownOption(String),
    /// A short-option character no argument of the current level declares.
    UnknownShortOption(char),
    /// A value-taking option (by name) with no following token left.
    MissingOptionValue(String),
    /// A bare token with no subcommand match and no positional slot left.
    UnknownArgument(String),
    /// An argument declared `required` that no token matched.
    MissingRequiredArgument(String),
}

/// Model of a [`ParseError`], over character sequences.
pub enum ErrorModel {
    UnknownOption(Seq<char>),
    UnknownShortOption(char),
    MissingOptionValue(Seq<char>),
    UnknownArgument(Seq<char>),
    MissingRequiredArgument(Seq<char>),
}

impl View for ParseError {
    type V = ErrorModel;

    open spec fn view(&self) -> ErrorModel {
        match self {
            ParseError::UnknownOption(n) => ErrorModel::UnknownOption(n@),
            ParseError::UnknownShortOption(c) => ErrorModel::UnknownShortOption(*c),
            ParseError::MissingOptionValue(n) => ErrorModel::MissingOptionValue(n@),
            ParseError::UnknownArgument(t) => ErrorModel::UnknownArgument(t@),
            ParseError::MissingRequiredArgument(n) => ErrorModel::MissingRequiredArgument(n@),
        }
    }
}

/// How a successful parse ended: with a queryable result, or with one of the
/// two reserved terminal requests, which the embedding caller interprets
/// (printing, choosing an exit code) instead of the library ending the
/// process itself.
pub enum ParseOutcome {
    /// All tokens consumed; the structured result.
    Matches(ArgMatches),
    /// `--help` or `-h` was met: the rendered help text for the level that
    /// saw it. No further tokens were inspected.
    Help(String),
    /// `--version` or `-V` was met: the declared version string, if any.
    /// Terminal regardless of whether a version was declared.
    Version(Option<String>),
}

/// Model of a parse's result: what [`crate::Command::parse_args`] must
/// produce, as prescribed by the spec-level parser.
pub enum OutcomeModel {
    Matches(MatchesModel),
    Help(Seq<char>),
    Version(Option<Seq<char>>),
    Fail(ErrorModel),
}

/// The diagnostic text of an error, by variant.
pub open spec fn spec_error_message(e: ErrorModel) -> Seq<char> {
    match e {
        ErrorModel::UnknownOption(n) => "Unknown option: "@ + n,
        ErrorModel::UnknownShortOption(c) => "Unknown option: -"@ + seq![c],
        ErrorModel::MissingOptionValue(n) => "Option "@ + n + " requires a value"@,
        ErrorModel::UnknownArgument(t) => "Unknown argument: "@ + t,
        ErrorModel::MissingRequiredArgument(n) => "Missing required argument: "@ + n,
    }
}

/// Relies on `String::push`: appends exactly the one given character.
#[verifier::external_body]
fn push_char(s: &mut String, c: char)
    ensures
        final(s)@ == old(s)@.push(c),
{
    s.push(c);
}

impl ParseError {
    /// The error's user-visible message, the sole diagnostic of a failed
    /// parse.
    pub fn message(&self) -> (r: String)
        ensures
            r@ == spec_error_message(self@),
    {
        match self {
            ParseError::UnknownOption(n) => {
                let mut s = String::from_str("Unknown option: ");
                s.append(n.as_str());
                s
            },
            ParseError::UnknownShortOption(c) => {
                let mut s = String::from_str("Unknown option: -");
                push_char(&mut s, *c);
                proof {
                    assert(s@ =~= "Unknown option: -"@ + seq![*c]);
                }
                s
            },
            ParseError::MissingOptionValue(n) => {
                let mut s = String::from_str("Option ");
                s.append(n.as_str());
                s.append(" requires a value");
                s
            },
            ParseError::UnknownArgument(t) => {
                let mut s = String::from_str("Unknown argument: ");
                s.append(t.as_str());
                s
            },
            ParseError::MissingRequiredArgument(n) => {
                let mut s = String::from_str("Missing required argument: ");
                s.append(n.as_str());
                s
            },
        }
    }
}

} // verus!
