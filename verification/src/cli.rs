//! Command-line values, argument parsing and the planning of writes.

pub mod app;
pub mod env;
pub mod group;
pub mod parse;
pub mod parser;
pub mod path;
pub mod profile;
pub mod resource;
pub mod switch;

use vstd::prelude::*;

use crate::cli::profile::ProfileError;

verus! {

/// The program's name, also the prefix of its environment variables.
pub const NAME: &'static str = "knobs";

/// Errors of command-line parsing.
#[derive(Debug)]
pub enum Error {
    /// The command line was refused: clap's message, and whether it is the
    /// help text that was asked for rather than an error.
    Clap { message: String, help: bool },
    /// A flag's value could not be parsed: `--{flag}: {message}`.
    ParseFlag { flag: String, message: String },
    /// A value could not be parsed.
    ParseValue(String),
    /// The profile could not be had.
    Profile(ProfileError),
}

impl Error {
    /// Whether this is `ParseValue` with the message `msg`.
    pub open spec fn is_parse_value(self, msg: Seq<char>) -> bool {
        self matches Error::ParseValue(m) && m@ == msg
    }

    /// Whether this is `ParseFlag` for `flag` with the message `msg`.
    pub open spec fn is_parse_flag(self, flag: Seq<char>, msg: Seq<char>) -> bool {
        self matches Error::ParseFlag { flag: f, message: m } && f@ == flag && m@ == msg
    }

    /// An error for a value that could not be parsed.
    pub fn parse_value(message: &str) -> (r: Self)
        ensures
            r.is_parse_value(message@),
    {
        Error::ParseValue(String::from_str(message))
    }
}

} // verus!
