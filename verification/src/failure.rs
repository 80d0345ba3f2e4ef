//! The failures that end an invocation.

use vstd::prelude::*;

verus! {

/// Why a request could not be prepared or sent. None of these is retried.
#[derive(Debug, Clone, Copy, PartialEq, Eq, Structural)]
pub enum Failure {
    /// A request item holds no separator, or nothing in front of it.
    Parse,
    /// A body was piped in and data items were given as well.
    Conflict,
    /// A data item of a kind that the chosen body encoding cannot hold.
    Type,
    /// The address is no absolute URL, or it names no host.
    Url,
    /// Standard input or an attached file could not be read.
    Io,
    /// The value of a typed field is no JSON literal.
    Json,
    /// The HTTP layer could not build or send the request.
    Transport,
}

impl Failure {
    /// The one line shown to the user for this failure.
    pub open spec fn message_text(self) -> Seq<char> {
        match self {
            Failure::Parse => "malformed request item"@,
            Failure::Conflict => "body from stdin and explicit data items cannot be mixed"@,
            Failure::Type => "request item cannot be used with this kind of body"@,
            Failure::Url => "invalid URL"@,
            Failure::Io => "could not read input"@,
            Failure::Json => "malformed JSON literal"@,
            Failure::Transport => "the request could not be built or sent"@,
        }
    }

    /// The line shown to the user.
    pub fn message(&self) -> (text: &'static str)
        ensures
            text@ == self.message_text(),
    {
        match self {
            Failure::Parse => "malformed request item",
            Failure::Conflict => "body from stdin and explicit data items cannot be mixed",
            Failure::Type => "request item cannot be used with this kind of body",
            Failure::Url => "invalid URL",
            Failure::Io => "could not read input",
            Failure::Json => "malformed JSON literal",
            Failure::Transport => "the request could not be built or sent",
        }
    }
}

} // verus!
