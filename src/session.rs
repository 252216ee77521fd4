//! The decisions of one game session. The caller performs the outside work
//! (asking an agent for its move, reading the client's transport, sending
//! messages) and hands each outcome to the session, which says what follows.
use vstd::prelude::*;

use crate::failure::{failure_text, Failure};
use crate::othello::moves::{legal, make_move, moved, next_of, next_player, winner, winner_of};
use crate::othello::{initial_cells, BoardStruct, Piece, Player};
use crate::protocol::{Id, PlayRequest, Room, ServerMessage};
use crate::registry::new_id;
use crate::runner::is_human_name;

verus! {

/// `b` follows `a` in a game: the side to move in `a` plays a legal square,
/// and the side to move in `b` is the one that turn order gives.
pub open spec fn legal_step(a: (Seq<Piece>, Player), b: (Seq<Piece>, Player)) -> bool {
    exists|sq: int|
        #![trigger legal(a.0, sq, a.1)]
        legal(a.0, sq, a.1) && b.0 == moved(a.0, sq, a.1) && next_of(b.0, a.1) == Some(b.1)
}

/// `h` is the course of an Othello game from the starting position, Black
/// to move.
pub open spec fn legal_game(h: Seq<(Seq<Piece>, Player)>) -> bool {
    &&& h.len() >= 1
    &&& h[0] == (initial_cells(), Player::Black)
    &&& forall|i: int| 0 <= i < h.len() - 1 ==> #[trigger] legal_step(h[i], h[i + 1])
}

/// Who must be asked for the next move, or why nobody can be.
pub open spec fn turn_of(to_move: Player, black_human: bool, white_human: bool) -> Result<
    Player,
    Failure,
> {
    match to_move {
        Player::Unknown => Err(Failure::InvalidData),
        Player::Black => if black_human {
            Err(Failure::AddrNotAvailable)
        } else {
            Ok(Player::Black)
        },
        Player::White => if white_human {
            Err(Failure::AddrNotAvailable)
        } else {
            Ok(Player::White)
        },
    }
}

/// What the client's transport delivered while a move was awaited.
#[derive(Copy, Clone, Debug, PartialEq, Eq, Structural)]
pub enum TransportEvent {
    /// A close frame.
    Close,
    /// The end of the stream, without a close frame.
    Ended,
    /// A transport error.
    Error,
    /// Any other message.
    Other,
}

/// What to do about a transport event.
#[derive(Copy, Clone, Debug, PartialEq, Eq, Structural)]
pub enum TransportDecision {
    /// Keep waiting for the move in flight.
    Ignore,
    /// Stop the game with this failure.
    Abort(Failure),
}

pub open spec fn transport_decision_of(e: TransportEvent) -> TransportDecision {
    match e {
        TransportEvent::Close => TransportDecision::Abort(Failure::ConnectionClosed),
        TransportEvent::Ended => TransportDecision::Abort(Failure::AlreadyClosed),
        TransportEvent::Error => TransportDecision::Abort(Failure::Transport),
        TransportEvent::Other => TransportDecision::Ignore,
    }
}

/// A close or the end of the stream stops the game, as does a transport
/// error; any other message is ignored and the move in flight goes on.
pub fn transport_decision(event: TransportEvent) -> (r: TransportDecision)
    ensures
        r == transport_decision_of(event),
{
    match event {
        TransportEvent::Close => TransportDecision::Abort(Failure::ConnectionClosed),
        TransportEvent::Ended => TransportDecision::Abort(Failure::AlreadyClosed),
        TransportEvent::Error => TransportDecision::Abort(Failure::Transport),
        TransportEvent::Other => TransportDecision::Ignore,
    }
}

/// What follows a move outcome.
#[derive(Clone, Debug)]
pub enum Step {
    /// The move was played; send this board update and ask for the next.
    Continue(ServerMessage),
    /// The move was played and nobody can move any more; send this end.
    Finished(ServerMessage),
    /// The game stops on this failure; send this error.
    Failed(Failure, ServerMessage),
}

/// `m` is a board update with the given contents.
pub open spec fn is_update(m: ServerMessage, board: Seq<Piece>, p: Player, black: String, white: String) -> bool {
    match m {
        ServerMessage::BoardUpdate { board: b, tomove, black: bn, white: wn } => b@ == board && tomove
            == p && bn == black && wn == white,
        _ => false,
    }
}

/// `m` is the end of a game on `board`, no forfeit.
pub open spec fn is_end(m: ServerMessage, board: Seq<Piece>) -> bool {
    match m {
        ServerMessage::GameEnd { board: b, winner, forfeit } => b@ == board && winner == winner_of(
            board,
        ) && !forfeit,
        _ => false,
    }
}

/// `m` reports failure `f`.
pub open spec fn is_error(m: ServerMessage, f: Failure) -> bool {
    match m {
        ServerMessage::GameError { error } => error@ == failure_text(f),
        _ => false,
    }
}

/// One game between two agents, from its first board update to its end.
pub struct Session {
    id: Id,
    black_name: String,
    white_name: String,
    black_human: bool,
    white_human: bool,
    timelimit_ms: u64,
    board: BoardStruct,
    to_move: Player,
    over: bool,
    updates: Ghost<Seq<(Seq<Piece>, Player)>>,
}

impl Session {
    pub closed spec fn spec_id(&self) -> Id {
        self.id
    }

    pub closed spec fn spec_black(&self) -> String {
        self.black_name
    }

    pub closed spec fn spec_white(&self) -> String {
        self.white_name
    }

    pub closed spec fn spec_black_human(&self) -> bool {
        self.black_human
    }

    pub closed spec fn spec_white_human(&self) -> bool {
        self.white_human
    }

    pub closed spec fn spec_timelimit_ms(&self) -> u64 {
        self.timelimit_ms
    }

    pub closed spec fn spec_board(&self) -> Seq<Piece> {
        self.board@
    }

    pub closed spec fn spec_to_move(&self) -> Player {
        self.to_move
    }

    pub closed spec fn spec_over(&self) -> bool {
        self.over
    }

    /// The boards and movers of every board update sent so far, the opening
    /// one first.
    pub closed spec fn spec_updates(&self) -> Seq<(Seq<Piece>, Player)> {
        self.updates@
    }

    /// The board updates form a legal game from the starting position; while
    /// the game goes on, the last of them is the current position, and a
    /// real side is to move.
    pub open spec fn wf(&self) -> bool {
        &&& legal_game(self.spec_updates())
        &&& !self.spec_over() ==> {
            &&& self.spec_updates().last() == (self.spec_board(), self.spec_to_move())
            &&& self.spec_to_move() != Player::Unknown
        }
    }

    /// A fresh game for `prq` under a new random identifier: the starting
    /// position, Black to move.
    pub fn new(prq: &PlayRequest) -> (r: Session)
        ensures
            r.wf(),
            !r.spec_over(),
            r.spec_board() == initial_cells(),
            r.spec_to_move() == Player::Black,
            r.spec_updates() == seq![(initial_cells(), Player::Black)],
            r.spec_black() == prq.black,
            r.spec_white() == prq.white,
            r.spec_black_human() == (prq.black@ == "Human"@),
            r.spec_white_human() == (prq.white@ == "Human"@),
            r.spec_timelimit_ms() == prq.t_ms,
    {
        let id = new_id();
        let board = BoardStruct::new();
        let ghost start = seq![(initial_cells(), Player::Black)];
        Session {
            id,
            black_name: prq.black.clone(),
            white_name: prq.white.clone(),
            black_human: is_human_name(prq.black.as_str()),
            white_human: is_human_name(prq.white.as_str()),
            timelimit_ms: prq.t_ms,
            board,
            to_move: Player::Black,
            over: false,
            updates: Ghost(start),
        }
    }

    pub fn id(&self) -> (r: Id)
        ensures
            r == self.spec_id(),
    {
        self.id
    }

    pub fn board(&self) -> (r: BoardStruct)
        ensures
            r@ == self.spec_board(),
    {
        self.board
    }

    pub fn to_move(&self) -> (r: Player)
        ensures
            r == self.spec_to_move(),
    {
        self.to_move
    }

    pub fn timelimit_ms(&self) -> (r: u64)
        ensures
            r == self.spec_timelimit_ms(),
    {
        self.timelimit_ms
    }

    pub fn is_over(&self) -> (r: bool)
        ensures
            r == self.spec_over(),
    {
        self.over
    }

    /// The room under which the game is listed, with no spectators yet.
    pub fn room(&self) -> (r: Room)
        ensures
            r.id == self.spec_id(),
            r.black_name == self.spec_black(),
            r.white_name == self.spec_white(),
            r.timelimit_ms == self.spec_timelimit_ms(),
            r.watching@ == Seq::<Id>::empty(),
    {
        Room {
            id: self.id,
            black_name: self.black_name.clone(),
            white_name: self.white_name.clone(),
            timelimit_ms: self.timelimit_ms,
            watching: Vec::new(),
        }
    }

    /// The board update of the current position.
    pub fn current_update(&self) -> (r: ServerMessage)
        ensures
            is_update(r, self.spec_board(), self.spec_to_move(), self.spec_black(), self.spec_white()),
    {
        ServerMessage::BoardUpdate {
            board: self.board,
            tomove: self.to_move,
            black: self.black_name.clone(),
            white: self.white_name.clone(),
        }
    }

    /// Who must be asked for the next move: an error when nobody is to move
    /// or the side to move is a human.
    pub fn turn(&self) -> (r: Result<Player, Failure>)
        ensures
            r == turn_of(self.spec_to_move(), self.spec_black_human(), self.spec_white_human()),
    {
        match self.to_move {
            Player::Unknown => Err(Failure::InvalidData),
            Player::Black => if self.black_human {
                Err(Failure::AddrNotAvailable)
            } else {
                Ok(Player::Black)
            },
            Player::White => if self.white_human {
                Err(Failure::AddrNotAvailable)
            } else {
                Ok(Player::White)
            },
        }
    }

    /// Ends the game on `failure` and gives the error to report.
    pub fn abort(&mut self, failure: Failure) -> (r: ServerMessage)
        requires
            old(self).wf(),
        ensures
            final(self).wf(),
            final(self).spec_over(),
            final(self).spec_board() == old(self).spec_board(),
            final(self).spec_updates() == old(self).spec_updates(),
            is_error(r, failure),
    {
        self.over = true;
        ServerMessage::GameError { error: failure.describe() }
    }

    /// Takes the outcome of asking the side to move for its square. A
    /// failure, or a square that is not legal, ends the game with an error.
    /// Otherwise the move is played; then either the next side is to move and
    /// a board update is sent, or nobody can move and the game ends.
    pub fn on_reply(&mut self, reply: Result<usize, Failure>) -> (r: Step)
        requires
            old(self).wf(),
            !old(self).spec_over(),
        ensures
            final(self).wf(),
            final(self).spec_id() == old(self).spec_id(),
            final(self).spec_black() == old(self).spec_black(),
            final(self).spec_white() == old(self).spec_white(),
            final(self).spec_timelimit_ms() == old(self).spec_timelimit_ms(),
            final(self).spec_black_human() == old(self).spec_black_human(),
            final(self).spec_white_human() == old(self).spec_white_human(),
            ({
                let b = old(self).spec_board();
                let p = old(self).spec_to_move();
                match reply {
                    Err(f) => {
                        &&& r matches Step::Failed(g, m) && g == f && is_error(m, f)
                        &&& final(self).spec_over()
                        &&& final(self).spec_board() == b
                        &&& final(self).spec_updates() == old(self).spec_updates()
                    },
                    Ok(sq) => if !legal(b, sq as int, p) {
                        &&& r matches Step::Failed(g, m) && g == Failure::InvalidInput && is_error(
                            m,
                            Failure::InvalidInput,
                        )
                        &&& final(self).spec_over()
                        &&& final(self).spec_board() == b
                        &&& final(self).spec_updates() == old(self).spec_updates()
                    } else {
                        let nb = moved(b, sq as int, p);
                        &&& final(self).spec_board() == nb
                        &&& match next_of(nb, p) {
                            None => {
                                &&& r matches Step::Finished(m) && is_end(m, nb)
                                &&& final(self).spec_over()
                                &&& final(self).spec_updates() == old(self).spec_updates()
                            },
                            Some(q) => {
                                &&& r matches Step::Continue(m) && is_update(
                                    m,
                                    nb,
                                    q,
                                    old(self).spec_black(),
                                    old(self).spec_white(),
                                )
                                &&& !final(self).spec_over()
                                &&& final(self).spec_to_move() == q
                                &&& final(self).spec_updates() == old(self).spec_updates().push(
                                    (nb, q),
                                )
                            },
                        }
                    },
                }
            }),
    {
        match reply {
            Err(f) => {
                self.over = true;
                Step::Failed(f, ServerMessage::GameError { error: f.describe() })
            },
            Ok(square) => {
                let p = self.to_move;
                let mut b = self.board;
                let ghost ob = b@;
                match make_move(&square, &p, &mut b) {
                    Err(_) => {
                        self.over = true;
                        let f = Failure::InvalidInput;
                        Step::Failed(f, ServerMessage::GameError { error: f.describe() })
                    },
                    Ok(()) => {
                        self.board = b;
                        match next_player(&b, &p) {
                            None => {
                                self.over = true;
                                Step::Finished(
                                    ServerMessage::GameEnd { board: b, winner: winner(&b), forfeit: false },
                                )
                            },
                            Some(q) => {
                                let ghost h = self.updates@;
                                proof {
                                    assert(h.last() == (ob, p));
                                    let a = h.last();
                                    assert(legal(a.0, square as int, a.1));
                                    assert(b@ == moved(a.0, square as int, a.1));
                                    assert(next_of(b@, a.1) == Some(q));
                                    assert(legal_step(h.last(), (b@, q)));
                                    self.updates = Ghost(h.push((b@, q)));
                                    assert forall|i: int|
                                        0 <= i < self.updates@.len() - 1 implies #[trigger] legal_step(
                                        self.updates@[i],
                                        self.updates@[i + 1],
                                    ) by {
                                        if i < h.len() - 1 {
                                            assert(self.updates@[i] == h[i]);
                                            assert(self.updates@[i + 1] == h[i + 1]);
                                        } else {
                                            assert(self.updates@[i] == h.last());
                                        }
                                    }
                                }
                                self.to_move = q;
                                Step::Continue(
                                    ServerMessage::BoardUpdate {
                                        board: b,
                                        tomove: q,
                                        black: self.black_name.clone(),
                                        white: self.white_name.clone(),
                                    },
                                )
                            },
                        }
                    },
                }
            },
        }
    }
}

} // verus!
