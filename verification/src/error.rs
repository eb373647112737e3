//! The errors of the client and the exit status that each one ends the program with.
use vstd::prelude::*;

verus! {

/// What went wrong. Errors that come from the network, URL, input or prompt
/// layers carry the text of the underlying error.
#[derive(Debug, Clone)]
pub enum Error {
    Authentication(String),
    Rejected(String),
    Protocol(String),
    Network(String),
    Url(String),
    Input(String),
    Prompt(String),
}

/// The exit status that an error of each kind ends the program with.
pub open spec fn exit_code_of(e: Error) -> u8 {
    match e {
        Error::Authentication(_) => 2,
        Error::Rejected(_) => 3,
        Error::Protocol(_) => 4,
        Error::Network(_) | Error::Url(_) => 5,
        Error::Input(_) | Error::Prompt(_) => 1,
    }
}

/// The human-readable description of an error: a fixed prefix per kind,
/// followed by the carried text.
pub open spec fn message_of(e: Error) -> Seq<char> {
    match e {
        Error::Authentication(s) => "authentication failed: "@ + s@,
        Error::Rejected(s) => "attendance code was rejected: "@ + s@,
        Error::Protocol(s) => "respon protocol changed or returned an unsupported page: "@ + s@,
        Error::Network(s) => "network request failed: "@ + s@,
        Error::Url(s) => "invalid URL: "@ + s@,
        Error::Input(s) => "could not read input: "@ + s@,
        Error::Prompt(s) => "interactive prompt failed: "@ + s@,
    }
}

/// `prefix` followed by `rest`.
pub fn concat(prefix: &str, rest: &str) -> (r: String)
    ensures
        r@ == prefix@ + rest@,
{
    let mut out = String::from_str(prefix);
    out.append(rest);
    out
}

impl Error {
    /// The process exit status for this error; an error never exits with success.
    pub fn exit_code(&self) -> (r: u8)
        ensures
            r == exit_code_of(*self),
            r != 0,
    {
        match self {
            Error::Authentication(_) => 2,
            Error::Rejected(_) => 3,
            Error::Protocol(_) => 4,
            Error::Network(_) | Error::Url(_) => 5,
            Error::Input(_) | Error::Prompt(_) => 1,
        }
    }

    /// The description of this error, as the program prints it.
    pub fn message(&self) -> (r: String)
        ensures
            r@ == message_of(*self),
    {
        match self {
            Error::Authentication(s) => concat("authentication failed: ", s.as_str()),
            Error::Rejected(s) => concat("attendance code was rejected: ", s.as_str()),
            Error::Protocol(s) => concat(
                "respon protocol changed or returned an unsupported page: ",
                s.as_str(),
            ),
            Error::Network(s) => concat("network request failed: ", s.as_str()),
            Error::Url(s) => concat("invalid URL: ", s.as_str()),
            Error::Input(s) => concat("could not read input: ", s.as_str()),
            Error::Prompt(s) => concat("interactive prompt failed: ", s.as_str()),
        }
    }
}

/// Exit statuses lie between 1 and 5, and errors of different groups (input or
/// prompt; authentication; rejection; protocol; network or URL) end with
/// different statuses, while errors of one group share theirs.
pub proof fn lemma_exit_codes_separate_groups(a: Error, b: Error)
    ensures
        1 <= exit_code_of(a) <= 5,
        (a is Network || a is Url) && (b is Network || b is Url) ==> exit_code_of(a) == exit_code_of(b),
        (a is Input || a is Prompt) && (b is Input || b is Prompt) ==> exit_code_of(a) == exit_code_of(b),
        a is Authentication && !(b is Authentication) ==> exit_code_of(a) != exit_code_of(b),
        a is Rejected && !(b is Rejected) ==> exit_code_of(a) != exit_code_of(b),
        a is Protocol && !(b is Protocol) ==> exit_code_of(a) != exit_code_of(b),
        (a is Network || a is Url) && !(b is Network || b is Url) ==> exit_code_of(a) != exit_code_of(b),
{
}

} // verus!
