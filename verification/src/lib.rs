//! A small command-line argument parsing library.
//!
//! A host program declares a tree of commands ([`Command`]) and arguments
//! ([`Arg`]), hands a token sequence to [`Command::parse_args`], and receives
//! either a structured, queryable result ([`ArgMatches`]), a terminal help or
//! version request, or a [`ParseError`].
//!
//! The whole parsing algorithm is stated by the spec function
//! [`spec_parse`], and `parse_args` is proved to return exactly what that
//! model prescribes.

mod arg;
mod command;
mod help;
mod laws;
mod matches;
mod outcome;
mod parse;

pub use arg::Arg;
pub use command::Command;
pub use help::spec_arg_line;
pub use help::spec_args_block;
pub use help::spec_help;
pub use help::spec_sub_line;
pub use help::spec_subs_block;
pub use laws::lemma_help_is_terminal;
pub use laws::lemma_long_valued_option;
pub use laws::lemma_no_missing_required;
pub use laws::lemma_short_flag_cluster;
pub use laws::lemma_subcommand_delegation;
pub use laws::lemma_unknown_long_option;
pub use matches::ArgMatches;
pub use matches::MatchesModel;
pub use outcome::spec_error_message;
pub use outcome::ErrorModel;
pub use outcome::OutcomeModel;
pub use outcome::ParseError;
pub use outcome::ParseOutcome;
pub use parse::is_long_token;
pub use parse::outcome_matches;
pub use parse::spec_find_by_name;
pub use parse::spec_find_by_short;
pub use parse::spec_find_sub;
pub use parse::spec_finish;
pub use parse::spec_first_missing_required;
pub use parse::spec_parse;
pub use parse::spec_parse_from;
pub use parse::spec_parse_shorts;
pub use parse::spec_positionals;
