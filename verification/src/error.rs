//! Why the server gives up on a connection.
use vstd::prelude::*;
use vstd::string::*;

verus! {

/// Why the server gives up on a connection.
#[derive(Clone, Copy, PartialEq, Eq, Structural, Debug)]
pub enum TunnelError {
    /// The path of a download names no session.
    EmptySessionId,
    /// The SSH server did not answer in time.
    ConnectTimeout,
    /// The SSH server could not be reached.
    ConnectFailed,
}

/// The text of an error, where no error of the system brings its own.
pub open spec fn error_text(e: TunnelError) -> Seq<char> {
    match e {
        TunnelError::EmptySessionId => "Session ID vazio"@,
        TunnelError::ConnectTimeout => "SSH Connect Timeout"@,
        TunnelError::ConnectFailed => "SSH connect failed"@,
    }
}

impl TunnelError {
    /// The text of the error, where no error of the system brings its own.
    pub fn message(&self) -> (r: String)
        ensures
            r@ == error_text(*self),
    {
        match self {
            TunnelError::EmptySessionId => String::from_str("Session ID vazio"),
            TunnelError::ConnectTimeout => String::from_str("SSH Connect Timeout"),
            TunnelError::ConnectFailed => String::from_str("SSH connect failed"),
        }
    }
}

} // verus!
