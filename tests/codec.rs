use othello_server::othello::codec::BoardFormatError;
use othello_server::othello::moves::make_move;
use othello_server::othello::{initial_board, BoardStruct, Player};

const INITIAL_TEXT: &str = "???????????........??........??........??...o@...??...@o...??........??........??........???????????";

#[test]
fn initial_board_text() {
    assert_eq!(initial_board().serialize(), INITIAL_TEXT);
    assert_eq!(initial_board().serialize().chars().count(), 100);
}

#[test]
fn board_round_trip() {
    let mut b = initial_board();
    assert!(make_move(&34, &Player::Black, &mut b).is_ok());
    assert!(make_move(&33, &Player::White, &mut b).is_ok());
    let text = b.serialize();
    let back = BoardStruct::deserialize(&text).unwrap();
    assert_eq!(back.cells(), b.cells());
    assert_eq!(back.serialize(), text);
}

#[test]
fn deserialize_wrong_length() {
    assert_eq!(BoardStruct::deserialize("").unwrap_err(), BoardFormatError::WrongLength);
    assert_eq!(
        BoardStruct::deserialize(&INITIAL_TEXT[..99]).unwrap_err(),
        BoardFormatError::WrongLength
    );
    let long = format!("{}?", INITIAL_TEXT);
    assert_eq!(BoardStruct::deserialize(&long).unwrap_err(), BoardFormatError::WrongLength);
}

#[test]
fn deserialize_unknown_character() {
    let bad = INITIAL_TEXT.replacen('.', "x", 1);
    assert_eq!(BoardStruct::deserialize(&bad).unwrap_err(), BoardFormatError::UnknownCharacter);
    let accented = INITIAL_TEXT.replacen('.', "é", 1);
    assert_eq!(
        BoardStruct::deserialize(&accented).unwrap_err(),
        BoardFormatError::UnknownCharacter
    );
}

#[test]
fn deserialize_bad_layout() {
    let piece_on_frame = format!("@{}", &INITIAL_TEXT[1..]);
    assert_eq!(BoardStruct::deserialize(&piece_on_frame).unwrap_err(), BoardFormatError::BadLayout);
    let frame_inside = INITIAL_TEXT.replacen('.', "?", 1);
    assert_eq!(BoardStruct::deserialize(&frame_inside).unwrap_err(), BoardFormatError::BadLayout);
}
