//! Why a game ends early.
use vstd::prelude::*;
use vstd::string::*;

verus! {

/// The kinds of failure that end a session.
#[derive(Copy, Clone, Debug, PartialEq, Eq, Structural)]
pub enum Failure {
    /// A game that a spectator message was meant for is gone.
    NotFound,
    /// The agent's pipes are not there, or its output ended before a reply.
    BrokenPipe,
    /// The agent did not reply in time.
    Timeout,
    /// The agent's square is not a legal move.
    InvalidInput,
    /// The agent's reply is not an integer, or the game has no side to move.
    InvalidData,
    /// A human player's turn came; humans cannot play yet.
    AddrNotAvailable,
    /// The client closed the connection.
    ConnectionClosed,
    /// The client's stream ended without a close.
    AlreadyClosed,
    /// The client's transport failed.
    Transport,
    /// Some other input or output error.
    Io,
}

pub open spec fn failure_text(f: Failure) -> Seq<char> {
    match f {
        Failure::NotFound => "game not found"@,
        Failure::BrokenPipe => "agent stream ended before a reply"@,
        Failure::Timeout => "agent did not reply in time"@,
        Failure::InvalidInput => "agent played an illegal move"@,
        Failure::InvalidData => "unreadable reply or no side to move"@,
        Failure::AddrNotAvailable => "playing as a human is not implemented"@,
        Failure::ConnectionClosed => "connection closed"@,
        Failure::AlreadyClosed => "connection already closed"@,
        Failure::Transport => "transport error"@,
        Failure::Io => "input or output error"@,
    }
}

impl Failure {
    /// A short description for the client.
    pub fn describe(&self) -> (r: String)
        ensures
            r@ == failure_text(*self),
    {
        let text = match self {
            Failure::NotFound => "game not found",
            Failure::BrokenPipe => "agent stream ended before a reply",
            Failure::Timeout => "agent did not reply in time",
            Failure::InvalidInput => "agent played an illegal move",
            Failure::InvalidData => "unreadable reply or no side to move",
            Failure::AddrNotAvailable => "playing as a human is not implemented",
            Failure::ConnectionClosed => "connection closed",
            Failure::AlreadyClosed => "connection already closed",
            Failure::Transport => "transport error",
            Failure::Io => "input or output error",
        };
        String::from_str(text)
    }
}

} // verus!
