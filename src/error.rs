use vstd::prelude::*;

verus! {

/// Every way the client can fail.
#[derive(Debug, Clone, PartialEq, Eq)]
pub enum CliError {
    /// The command line was malformed.
    Usage { message: String },
    /// The URL argument is not a well-formed absolute URI.
    InvalidUrl { url: String },
    /// A body token is not of the form `key=value` with a non-empty key.
    InvalidBodyPair { token: String },
    /// The request could not be carried out by the transport.
    Transport { cause: String },
    /// The response body could not be read.
    BodyRead { cause: String },
    /// The highlighting engine lacks a grammar or theme that the renderer asked for.
    HighlightEngine { message: String },
}

impl CliError {
    /// The process exit code for this error: each kind of failure has its own.
    pub fn exit_code(&self) -> (r: i32)
        ensures
            r == match self {
                CliError::Usage { .. } => 2i32,
                CliError::InvalidUrl { .. } => 3i32,
                CliError::InvalidBodyPair { .. } => 4i32,
                CliError::Transport { .. } => 5i32,
                CliError::BodyRead { .. } => 6i32,
                CliError::HighlightEngine { .. } => 7i32,
            },
            r != 0,
    {
        match self {
            CliError::Usage { .. } => 2,
            CliError::InvalidUrl { .. } => 3,
            CliError::InvalidBodyPair { .. } => 4,
            CliError::Transport { .. } => 5,
            CliError::BodyRead { .. } => 6,
            CliError::HighlightEngine { .. } => 7,
        }
    }
}

} // verus!
