//! The line protocol spoken with an agent process: what is written to its
//! input for each move, and how its reply is read.
use vstd::prelude::*;
use vstd::string::*;

use crate::failure::Failure;
use crate::othello::codec::board_text;
use crate::othello::{char_of, piece_of, BoardStruct, Player};
use crate::protocol::same_text;

verus! {

/// The agent name that stands for a human player.
pub const HUMAN_PLAYER: &'static str = "Human";

/// Extra time, beyond the move's time limit, allowed for the exchange.
pub const COMMUNICATION_MS: u64 = 1000;

#[verifier::external_type_specification]
#[verifier::external_body]
pub struct ExJsonError(serde_json::Error);

/// The integer that serde_json reads from a text, if it reads one.
pub uninterp spec fn json_usize(s: Seq<char>) -> Option<usize>;

/// Relies on `serde_json::from_str::<usize>`: whether the text holds one
/// JSON integer that fits `usize`, and which, depends on the text alone.
#[verifier::external_body]
fn parse_json_usize(s: &str) -> (r: Result<usize, serde_json::Error>)
    ensures
        r is Ok <==> json_usize(s@) is Some,
        r is Ok ==> r->Ok_0 == json_usize(s@)->Some_0,
{
    serde_json::from_str::<usize>(s)
}

pub open spec fn digit_char(d: int) -> char {
    seq!['0', '1', '2', '3', '4', '5', '6', '7', '8', '9'][d]
}

/// The decimal digits of `n`.
pub open spec fn decimal(n: nat) -> Seq<char>
    decreases n,
{
    if n < 10 {
        seq![digit_char(n as int)]
    } else {
        decimal(n / 10).push(digit_char((n % 10) as int))
    }
}

/// The fraction digits of `f` thousandths, without trailing zeros but with
/// at least one digit.
pub open spec fn fraction(f: nat) -> Seq<char> {
    if f % 100 == 0 {
        seq![digit_char((f / 100) as int)]
    } else if f % 10 == 0 {
        seq![digit_char((f / 100) as int), digit_char(((f / 10) % 10) as int)]
    } else {
        seq![
            digit_char((f / 100) as int),
            digit_char(((f / 10) % 10) as int),
            digit_char((f % 10) as int),
        ]
    }
}

/// A time in milliseconds written as a JSON number of seconds (`5.0`,
/// `1.25`).
pub open spec fn seconds_text(ms: nat) -> Seq<char> {
    decimal(ms / 1000) + seq!['.'] + fraction(ms % 1000)
}

/// The character that names a player to an agent.
pub open spec fn player_char(p: Player) -> char {
    char_of(piece_of(p))
}

/// The four lines sent to an agent for one move: its name, the time limit
/// in seconds, the side to play and the board.
pub open spec fn request_text(name: Seq<char>, ms: nat, p: Player, board: Seq<crate::othello::Piece>) -> Seq<char> {
    name + seq!['\n'] + seconds_text(ms) + seq!['\n'] + seq![player_char(p), '\n'] + board_text(board)
        + seq!['\n']
}

fn push_digit(out: &mut String, d: u64)
    requires
        d < 10,
    ensures
        final(out)@ == old(out)@.push(digit_char(d as int)),
{
    proof {
        reveal_strlit("0");
        reveal_strlit("1");
        reveal_strlit("2");
        reveal_strlit("3");
        reveal_strlit("4");
        reveal_strlit("5");
        reveal_strlit("6");
        reveal_strlit("7");
        reveal_strlit("8");
        reveal_strlit("9");
    }
    match d {
        0 => out.append("0"),
        1 => out.append("1"),
        2 => out.append("2"),
        3 => out.append("3"),
        4 => out.append("4"),
        5 => out.append("5"),
        6 => out.append("6"),
        7 => out.append("7"),
        8 => out.append("8"),
        _ => out.append("9"),
    }
    assert(final(out)@ =~= old(out)@.push(digit_char(d as int)));
}

fn push_decimal(out: &mut String, n: u64)
    ensures
        final(out)@ == old(out)@ + decimal(n as nat),
    decreases n,
{
    if n >= 10 {
        push_decimal(out, n / 10);
    }
    push_digit(out, n % 10);
    assert(final(out)@ =~= old(out)@ + decimal(n as nat));
}

fn push_seconds(out: &mut String, ms: u64)
    ensures
        final(out)@ == old(out)@ + seconds_text(ms as nat),
{
    push_decimal(out, ms / 1000);
    proof {
        reveal_strlit(".");
    }
    out.append(".");
    let f = ms % 1000;
    push_digit(out, f / 100);
    if f % 100 != 0 {
        push_digit(out, (f / 10) % 10);
        if f % 10 != 0 {
            push_digit(out, f % 10);
        }
    }
    assert(final(out)@ =~= old(out)@ + seconds_text(ms as nat));
}

/// The text written to an agent to ask for its move.
pub fn serialize_request(board: &BoardStruct, player: &Player, timelimit_ms: u64, ai_name: &String) -> (r:
    String)
    ensures
        r@ == request_text(ai_name@, timelimit_ms as nat, *player, board@),
{
    proof {
        reveal_strlit("\n");
        reveal_strlit("@");
        reveal_strlit("o");
        reveal_strlit("?");
    }
    let mut out = String::new();
    out.append(ai_name.as_str());
    out.append("\n");
    push_seconds(&mut out, timelimit_ms);
    out.append("\n");
    match player {
        Player::Black => out.append("@"),
        Player::White => out.append("o"),
        Player::Unknown => out.append("?"),
    }
    out.append("\n");
    let text = board.serialize();
    out.append(text.as_str());
    out.append("\n");
    assert(out@ =~= request_text(ai_name@, timelimit_ms as nat, *player, board@));
    out
}

/// How long to wait for a reply: the time limit and the allowance for the
/// exchange, capped at the largest `u64`.
pub fn reply_budget_ms(timelimit_ms: u64) -> (r: u64)
    ensures
        r == if timelimit_ms + COMMUNICATION_MS <= u64::MAX {
            timelimit_ms + COMMUNICATION_MS
        } else {
            u64::MAX as int
        },
{
    timelimit_ms.saturating_add(COMMUNICATION_MS)
}

/// What came of waiting for an agent's reply.
#[derive(Clone, Debug)]
pub enum ReplyEvent {
    /// A line arrived.
    Line(String),
    /// The agent's output ended.
    Closed,
    /// The time ran out.
    TimedOut,
    /// Reading failed.
    ReadFailed,
}

/// What a reply event means for the move.
pub open spec fn reply_result(e: ReplyEvent) -> Result<usize, Failure> {
    match e {
        ReplyEvent::Line(s) => match json_usize(s@) {
            Some(n) => Ok(n),
            None => Err(Failure::InvalidData),
        },
        ReplyEvent::Closed => Err(Failure::BrokenPipe),
        ReplyEvent::TimedOut => Err(Failure::Timeout),
        ReplyEvent::ReadFailed => Err(Failure::Io),
    }
}

/// The square that an agent's reply names: a line holding one JSON integer.
pub fn read_reply(event: ReplyEvent) -> (r: Result<usize, Failure>)
    ensures
        r == reply_result(event),
{
    match event {
        ReplyEvent::Line(line) => match parse_json_usize(line.as_str()) {
            Ok(square) => Ok(square),
            Err(_) => Err(Failure::InvalidData),
        },
        ReplyEvent::Closed => Err(Failure::BrokenPipe),
        ReplyEvent::TimedOut => Err(Failure::Timeout),
        ReplyEvent::ReadFailed => Err(Failure::Io),
    }
}

/// Whether an agent name selects the human player.
pub fn is_human_name(name: &str) -> (r: bool)
    ensures
        r == (name@ == "Human"@),
{
    same_text(name, HUMAN_PLAYER)
}

} // verus!
