//! The error type of the library.

use vstd::prelude::*;
use vstd::std_specs::convert::FromSpecImpl;
use vstd::string::StringExecFns;

verus! {

/// `std::io::Error`, carried through unopened: nothing is known of what a
/// value holds.
#[verifier::external_type_specification]
#[verifier::external_body]
pub struct ExIoError(std::io::Error);

/// `nix::errno::Errno`, which `ptyprocess` hands on as its error, carried
/// through unopened: nothing is known of what a value holds.
#[verifier::external_type_specification]
#[verifier::external_body]
pub struct ExErrno(ptyprocess::errno::Errno);

/// Everything that can go wrong while driving a child process.
#[derive(Debug)]
pub enum Error {
    /// A read, a write or a change of the descriptor's mode failed.
    IO(std::io::Error),
    /// The pseudo-terminal could not be set up or queried.
    Nix(ptyprocess::errno::Errno),
    /// The command string could not be split into a program and its arguments.
    CommandParsing,
    /// The regular expression is ill-formed.
    RegexParsing,
    /// `expect` ran longer than the configured timeout without a match.
    ExpectTimeout,
    /// The child closed its output before the needle matched.
    Eof,
    /// Anything else, with its message.
    Other(String),
}

/// Makes an error of `std::io` that comes from no operating system, with
/// `std::io::Error::other` and `message` as its payload.
///
/// Trusted: nothing.
#[verifier::external_body]
pub(crate) fn other_io_error(message: &str) -> (error: std::io::Error) {
    std::io::Error::other(message.to_owned())
}

/// The text that `std::io::Error` prints for itself, through `Display`.
///
/// Trusted: nothing. The text depends on the platform.
#[verifier::external_body]
fn io_error_text(error: &std::io::Error) -> (text: String) {
    format!("{}", error)
}

/// The text that `nix::errno::Errno` prints for itself, through `Display`.
///
/// Trusted: nothing.
#[verifier::external_body]
fn errno_text(error: &ptyprocess::errno::Errno) -> (text: String) {
    format!("{}", error)
}

impl Error {
    /// The message of the error, where `detail` is what the error inside
    /// prints for itself.
    pub open spec fn text(&self, detail: Seq<char>) -> Seq<char> {
        match self {
            Error::IO(_) => "IO error "@ + detail,
            Error::Nix(_) => "Nix error "@ + detail,
            Error::CommandParsing => "Can't parse a command string, please check it out"@,
            Error::RegexParsing => "Can't parse a regex expression"@,
            Error::ExpectTimeout => "Reached a timeout for expect type of command"@,
            Error::Eof => "EOF was reached; the read may successed later"@,
            Error::Other(message) => "Error "@ + message@,
        }
    }

    /// The message of the error, given what the error inside prints for
    /// itself.
    pub fn describe(&self, detail: &str) -> (message: String)
        ensures
            message@ == self.text(detail@),
    {
        match self {
            Error::IO(_) => String::from_str("IO error ").concat(detail),
            Error::Nix(_) => String::from_str("Nix error ").concat(detail),
            Error::CommandParsing => String::from_str(
                "Can't parse a command string, please check it out",
            ),
            Error::RegexParsing => String::from_str("Can't parse a regex expression"),
            Error::ExpectTimeout => String::from_str("Reached a timeout for expect type of command"),
            Error::Eof => String::from_str("EOF was reached; the read may successed later"),
            Error::Other(message) => String::from_str("Error ").concat(message.as_str()),
        }
    }

    /// The message of the error.
    pub fn to_string(&self) -> (message: String)
        ensures
            exists|detail: Seq<char>| message@ == self.text(detail),
            !(self is IO) && !(self is Nix) ==> message@ == self.text(Seq::<char>::empty()),
    {
        match self {
            Error::IO(error) => {
                let detail = io_error_text(error);
                let message = self.describe(detail.as_str());
                assert(message@ == self.text(detail@));
                message
            },
            Error::Nix(error) => {
                let detail = errno_text(error);
                let message = self.describe(detail.as_str());
                assert(message@ == self.text(detail@));
                message
            },
            _ => {
                let message = self.describe("");
                assert(message@ == self.text(""@));
                message
            },
        }
    }
}

impl From<std::io::Error> for Error {
    fn from(err: std::io::Error) -> (e: Error) {
        Error::IO(err)
    }
}

impl FromSpecImpl<std::io::Error> for Error {
    open spec fn obeys_from_spec() -> bool {
        true
    }

    open spec fn from_spec(err: std::io::Error) -> Error {
        Error::IO(err)
    }
}

impl From<ptyprocess::errno::Errno> for Error {
    fn from(err: ptyprocess::errno::Errno) -> (e: Error) {
        Error::Nix(err)
    }
}

impl FromSpecImpl<ptyprocess::errno::Errno> for Error {
    open spec fn obeys_from_spec() -> bool {
        true
    }

    open spec fn from_spec(err: ptyprocess::errno::Errno) -> Error {
        Error::Nix(err)
    }
}

impl From<String> for Error {
    fn from(message: String) -> (e: Error) {
        Error::Other(message)
    }
}

impl FromSpecImpl<String> for Error {
    open spec fn obeys_from_spec() -> bool {
        true
    }

    open spec fn from_spec(message: String) -> Error {
        Error::Other(message)
    }
}

} // verus!
