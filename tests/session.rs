use othello_server::failure::Failure;
use othello_server::othello::moves::{is_legal, make_move, next_player, winner};
use othello_server::othello::{initial_board, Piece, Player};
use othello_server::protocol::{PlayRequest, ServerMessage};
use othello_server::session::{transport_decision, Session, Step, TransportDecision, TransportEvent};

fn request(black: &str, white: &str) -> PlayRequest {
    PlayRequest { black: black.to_string(), white: white.to_string(), t_ms: 2000 }
}

#[test]
fn session_starts_at_initial_position() {
    let s = Session::new(&request("a", "b"));
    assert!(!s.is_over());
    assert_eq!(s.to_move(), Player::Black);
    assert_eq!(s.board().cells(), initial_board().cells());
    assert_eq!(s.timelimit_ms(), 2000);
    assert_eq!(s.turn(), Ok(Player::Black));
    match s.current_update() {
        ServerMessage::BoardUpdate { board, tomove, black, white } => {
            assert_eq!(board.cells(), initial_board().cells());
            assert_eq!(tomove, Player::Black);
            assert_eq!(black, "a");
            assert_eq!(white, "b");
        }
        other => panic!("unexpected {:?}", other),
    }
    let room = s.room();
    assert_eq!(room.id, s.id());
    assert_eq!(room.black_name, "a");
    assert!(room.watching.is_empty());
}

#[test]
fn session_plays_a_move() {
    let mut s = Session::new(&request("a", "b"));
    match s.on_reply(Ok(34)) {
        Step::Continue(ServerMessage::BoardUpdate { board, tomove, .. }) => {
            assert_eq!(board.get(34), Piece::BLACK);
            assert_eq!(board.get(44), Piece::BLACK);
            assert_eq!(tomove, Player::White);
        }
        other => panic!("unexpected {:?}", other),
    }
    assert_eq!(s.to_move(), Player::White);
    assert_eq!(s.turn(), Ok(Player::White));
    assert!(!s.is_over());
}

#[test]
fn session_updates_follow_legal_game() {
    // Every update's board is the previous one with a legal move of the side
    // that was to move, and the next mover is the one turn order gives.
    let mut s = Session::new(&request("a", "b"));
    let mut board = initial_board();
    let mut mover = Player::Black;
    for _ in 0..60 {
        let moves = othello_server::othello::moves::legal_moves(&mover, &board);
        let sq = moves[moves.len() / 2];
        assert!(is_legal(&sq, &mover, &board));
        assert!(make_move(&sq, &mover, &mut board).is_ok());
        match s.on_reply(Ok(sq)) {
            Step::Continue(ServerMessage::BoardUpdate { board: b, tomove, .. }) => {
                assert_eq!(b.cells(), board.cells());
                assert_eq!(Some(tomove), next_player(&board, &mover));
                mover = tomove;
            }
            Step::Finished(ServerMessage::GameEnd { board: b, winner: w, forfeit }) => {
                assert_eq!(b.cells(), board.cells());
                assert_eq!(next_player(&board, &mover), None);
                assert_eq!(w, winner(&board));
                assert!(!forfeit);
                assert!(s.is_over());
                return;
            }
            other => panic!("unexpected {:?}", other),
        }
    }
    panic!("the game did not end within 60 moves");
}

#[test]
fn session_illegal_square_fails() {
    let mut s = Session::new(&request("a", "b"));
    match s.on_reply(Ok(11)) {
        Step::Failed(f, ServerMessage::GameError { error }) => {
            assert_eq!(f, Failure::InvalidInput);
            assert_eq!(error, Failure::InvalidInput.describe());
        }
        other => panic!("unexpected {:?}", other),
    }
    assert!(s.is_over());
    assert_eq!(s.board().cells(), initial_board().cells());
}

#[test]
fn session_agent_failure_fails() {
    let mut s = Session::new(&request("a", "b"));
    match s.on_reply(Err(Failure::Timeout)) {
        Step::Failed(f, ServerMessage::GameError { error }) => {
            assert_eq!(f, Failure::Timeout);
            assert_eq!(error, "agent did not reply in time");
        }
        other => panic!("unexpected {:?}", other),
    }
    assert!(s.is_over());
}

#[test]
fn session_human_turn_is_refused() {
    let s = Session::new(&request("Human", "b"));
    assert_eq!(s.turn(), Err(Failure::AddrNotAvailable));
    let mut t = Session::new(&request("a", "Human"));
    assert_eq!(t.turn(), Ok(Player::Black));
    assert!(matches!(t.on_reply(Ok(34)), Step::Continue(_)));
    assert_eq!(t.turn(), Err(Failure::AddrNotAvailable));
    match t.abort(Failure::AddrNotAvailable) {
        ServerMessage::GameError { error } => {
            assert_eq!(error, "playing as a human is not implemented")
        }
        other => panic!("unexpected {:?}", other),
    }
    assert!(t.is_over());
}

#[test]
fn transport_events() {
    assert_eq!(
        transport_decision(TransportEvent::Close),
        TransportDecision::Abort(Failure::ConnectionClosed)
    );
    assert_eq!(
        transport_decision(TransportEvent::Ended),
        TransportDecision::Abort(Failure::AlreadyClosed)
    );
    assert_eq!(
        transport_decision(TransportEvent::Error),
        TransportDecision::Abort(Failure::Transport)
    );
    assert_eq!(transport_decision(TransportEvent::Other), TransportDecision::Ignore);
}

#[test]
fn sessions_get_distinct_ids() {
    let a = Session::new(&request("a", "b"));
    let b = Session::new(&request("a", "b"));
    assert_ne!(a.id(), b.id());
}

#[test]
fn failure_descriptions_are_distinct() {
    let all = [
        Failure::NotFound,
        Failure::BrokenPipe,
        Failure::Timeout,
        Failure::InvalidInput,
        Failure::InvalidData,
        Failure::AddrNotAvailable,
        Failure::ConnectionClosed,
        Failure::AlreadyClosed,
        Failure::Transport,
        Failure::Io,
    ];
    let texts: Vec<String> = all.iter().map(|f| f.describe()).collect();
    for (i, a) in texts.iter().enumerate() {
        assert!(!a.is_empty());
        for b in &texts[i + 1..] {
            assert_ne!(a, b);
        }
    }
    assert_eq!(Failure::NotFound.describe(), "game not found");
}
