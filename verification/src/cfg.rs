//! Facilities for reading and querying configuration.
//!
//! This code tries to do as much up-front validation of the
//! configuration as it can. That way:
//!
//! 1. We can notify the calling code (which can notify the end-user)
//!    of potential issues as early as possible.
//! 2. We can provide an API to subcommands that isn't full of
//!    `Option` and `Result` and mandatory unwrapping.
use vstd::prelude::*;
use vstd::string::*;
use crate::app::{option_as_str, option_str_view, option_to_owned, option_view};

verus! {

// ----- Error ----------------------------------------------------------------
/// Mathematical value of an `Error`.
pub ghost struct ErrorView {
    pub config_path: Seq<char>,
    pub repo_path: Option<Seq<char>>,
    pub message: Seq<char>,
    pub cause: Option<Seq<char>>,
}

/// Represents an error encountered when reading configuration.
pub struct Error {
    /// Configuration path associated with the error.
    config_path: String,
    /// Path of the repository, if relevant for this error.
    repo_path: Option<String>,
    /// Message describing the error.
    message: String,
    /// Optional message indicating the underlying cause of the error.
    cause: Option<String>,
}

impl View for Error {
    type V = ErrorView;

    closed spec fn view(&self) -> ErrorView {
        ErrorView {
            config_path: self.config_path@,
            repo_path: option_view(self.repo_path),
            message: self.message@,
            cause: option_view(self.cause),
        }
    }
}

impl Error {
    /// Creates and returns a new `Error` instance.
    pub fn new(config_path: &str, repo_path: Option<&str>, message: &str, cause: Option<&str>) -> (r:
        Self)
        ensures
            r@ == (ErrorView {
                config_path: config_path@,
                repo_path: option_str_view(repo_path),
                message: message@,
                cause: option_str_view(cause),
            }),
    {
        Self {
            config_path: config_path.to_owned(),
            repo_path: option_to_owned(repo_path),
            message: message.to_owned(),
            cause: option_to_owned(cause),
        }
    }

    /// Returns the underlying cause of the error.
    pub fn cause(&self) -> (r: Option<&str>)
        ensures
            option_str_view(r) == self@.cause,
    {
        option_as_str(&self.cause)
    }

    /// Returns the configuration path associated with the error.
    pub fn config_path(&self) -> (r: &str)
        ensures
            r@ == self@.config_path,
    {
        self.config_path.as_str()
    }

    /// Returns the message describing the error.
    pub fn message(&self) -> (r: &str)
        ensures
            r@ == self@.message,
    {
        self.message.as_str()
    }

    /// Returns the path of the associated repository, if relevant for
    /// this error.
    pub fn repo_path(&self) -> (r: Option<&str>)
        ensures
            option_str_view(r) == self@.repo_path,
    {
        option_as_str(&self.repo_path)
    }
}

/// The values of a list of errors.
pub open spec fn error_views(errors: Seq<Error>) -> Seq<ErrorView> {
    errors.map_values(|e: Error| e@)
}

// ----- Config ---------------------------------------------------------------
/// The four sample errors that reading any `path` reports: two from before
/// parsing, two from inside the configuration, one of each with a cause.
pub open spec fn sample_errors(path: Seq<char>) -> Seq<ErrorView> {
    seq![
        ErrorView {
            config_path: path,
            repo_path: None,
            message: "something went wrong before parsing"@,
            cause: None,
        },
        ErrorView {
            config_path: path,
            repo_path: None,
            message: "another pre-parsing warning"@,
            cause: Some("this is the reason for that one"@),
        },
        ErrorView {
            config_path: path,
            repo_path: Some("~/mgit"@),
            message: "and here we have a problem inside the config"@,
            cause: None,
        },
        ErrorView {
            config_path: path,
            repo_path: Some("~/mgit"@),
            message: "this is a fully specified error, with all the things"@,
            cause: Some("underlying cause for the failure inside the config"@),
        },
    ]
}

/// Configuration as specified by the end user.
pub struct Config;

impl Config {
    /// Creates and returns a new, empty `Config` instance.
    pub fn new() -> Self {
        Config
    }

    /// Reads configuration at `path`, returning a list of errors
    /// encountered.
    ///
    /// This configuration holds nothing and reads nothing: it reports the
    /// same four sample errors for every path, each with the path in it.
    pub fn read(&mut self, path: &str) -> (rv: Vec<Error>)
        ensures
            error_views(rv@) == sample_errors(path@),
    {
        let mut rv: Vec<Error> = Vec::new();
        rv.push(Error::new(path, None, "something went wrong before parsing", None));
        rv.push(
            Error::new(
                path,
                None,
                "another pre-parsing warning",
                Some("this is the reason for that one"),
            ),
        );
        rv.push(
            Error::new(path, Some("~/mgit"), "and here we have a problem inside the config", None),
        );
        rv.push(
            Error::new(
                path,
                Some("~/mgit"),
                "this is a fully specified error, with all the things",
                Some("underlying cause for the failure inside the config"),
            ),
        );
        assert(error_views(rv@) =~= sample_errors(path@));
        rv
    }
}

} // verus!
