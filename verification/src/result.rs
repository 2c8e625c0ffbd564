//! The errors of the daemon.

use vstd::prelude::*;
use vstd::string::StringExecFns;

verus! {

/// What can go wrong while a request is served or the daemon runs.
#[derive(Debug)]
pub enum Error {
    /// The request matches no command, or asks for a session that cannot
    /// be; holds the request, or what is wrong with it.
    InvalidCommand(String),
    /// The request is not valid UTF-8.
    CommandDecodeError,
    /// Reading from or writing to a socket failed; holds the cause.
    IoError(String),
    /// A call of the session repository failed; holds the cause.
    DatabaseError(String),
    /// There is no session where the command needs one; holds what was asked.
    MissingSession(String),
    /// A system call failed at startup or in the event loop; holds the cause.
    SystemError(String),
}

impl Error {
    /// The text of the error, as it is logged.
    pub open spec fn message(self) -> Seq<char> {
        match self {
            Error::InvalidCommand(request) => "Invalid command string: "@ + request@,
            Error::CommandDecodeError => "Could not parse command from UTF-8"@,
            Error::IoError(cause) => "IO error: "@ + cause@,
            Error::DatabaseError(cause) => "Database error: "@ + cause@,
            Error::MissingSession(what) => what@,
            Error::SystemError(cause) => "System error: "@ + cause@,
        }
    }

    /// The text of the error, as it is logged.
    pub fn to_string(&self) -> (text: String)
        ensures
            text@ == self.message(),
    {
        match self {
            Error::InvalidCommand(request) => String::from_str("Invalid command string: ").concat(
                request.as_str(),
            ),
            Error::CommandDecodeError => String::from_str("Could not parse command from UTF-8"),
            Error::IoError(cause) => String::from_str("IO error: ").concat(cause.as_str()),
            Error::DatabaseError(cause) => String::from_str("Database error: ").concat(
                cause.as_str(),
            ),
            Error::MissingSession(what) => what.clone(),
            Error::SystemError(cause) => String::from_str("System error: ").concat(cause.as_str()),
        }
    }
}

} // verus!
