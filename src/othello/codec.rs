//! The wire form of a board: one character per cell, 100 in all.
use vstd::prelude::*;
use vstd::string::*;

use crate::othello::{board_wf, char_of, piece_from_char, BoardStruct, Piece};

verus! {

/// Why a text is not a board.
#[derive(Copy, Clone, Debug, PartialEq, Eq, Structural)]
pub enum BoardFormatError {
    /// The text does not have 100 characters.
    WrongLength,
    /// A character is none of `@`, `o`, `.`, `?`.
    UnknownCharacter,
    /// The frame is not all `?`, or a playing cell is `?`.
    BadLayout,
}

pub open spec fn is_piece_char(c: char) -> bool {
    c == '@' || c == 'o' || c == '.' || c == '?'
}

/// The text of a board: each cell's character, in index order.
pub open spec fn board_text(s: Seq<Piece>) -> Seq<char> {
    s.map_values(|c: Piece| char_of(c))
}

/// What reading `t` as a board gives.
pub open spec fn board_from_text(t: Seq<char>) -> Result<Seq<Piece>, BoardFormatError> {
    if t.len() != 100 {
        Err(BoardFormatError::WrongLength)
    } else if exists|i: int| 0 <= i < t.len() && !is_piece_char(#[trigger] t[i]) {
        Err(BoardFormatError::UnknownCharacter)
    } else if !board_wf(t.map_values(|c: char| piece_from_char(c))) {
        Err(BoardFormatError::BadLayout)
    } else {
        Ok(t.map_values(|c: char| piece_from_char(c)))
    }
}

impl BoardStruct {
    /// The board's text: `@` black, `o` white, `.` empty, `?` frame.
    pub fn serialize(&self) -> (r: String)
        ensures
            r@ == board_text(self@),
    {
        let mut out = String::new();
        let mut i: usize = 0;
        proof {
            use_type_invariant(self);
        }
        while i < 100
            invariant
                0 <= i <= 100,
                self@.len() == 100,
                out@ == board_text(self@.subrange(0, i as int)),
            decreases 100 - i,
        {
            let c = self.get(i);
            proof {
                reveal_strlit("@");
                reveal_strlit("o");
                reveal_strlit(".");
                reveal_strlit("?");
            }
            match c {
                Piece::BLACK => out.append("@"),
                Piece::WHITE => out.append("o"),
                Piece::EMPTY => out.append("."),
                Piece::OUTER => out.append("?"),
            }
            proof {
                assert(board_text(self@.subrange(0, i + 1)) =~= board_text(
                    self@.subrange(0, i as int),
                ).push(char_of(c)));
            }
            i = i + 1;
        }
        proof {
            assert(self@.subrange(0, 100) =~= self@);
        }
        out
    }

    /// Reads a board from its text; the text must have exactly 100
    /// characters, all from `@o.?`, laid out with the frame in place.
    pub fn deserialize(value: &str) -> (r: Result<BoardStruct, BoardFormatError>)
        ensures
            match board_from_text(value@) {
                Ok(cells) => r is Ok && r->Ok_0@ == cells,
                Err(e) => r == Err::<BoardStruct, BoardFormatError>(e),
            },
            r is Ok ==> board_wf(r->Ok_0@),
    {
        if value.unicode_len() != 100 {
            return Err(BoardFormatError::WrongLength);
        }
        let mut board = [Piece::OUTER; 100];
        let mut i: usize = 0;
        while i < 100
            invariant
                0 <= i <= 100,
                value@.len() == 100,
                forall|j: int| 0 <= j < i ==> is_piece_char(#[trigger] value@[j]),
                forall|j: int| 0 <= j < i ==> #[trigger] board@[j] == piece_from_char(value@[j]),
            decreases 100 - i,
        {
            let c = value.get_char(i);
            if !(c == '@' || c == 'o' || c == '.' || c == '?') {
                return Err(BoardFormatError::UnknownCharacter);
            }
            board[i] = Piece::from(c);
            i = i + 1;
        }
        let ghost cells = value@.map_values(|c: char| piece_from_char(c));
        assert(board@ =~= cells);
        let mut k: usize = 0;
        while k < 100
            invariant
                0 <= k <= 100,
                board@ == cells,
                cells.len() == 100,
                value@.len() == 100,
                cells == value@.map_values(|c: char| piece_from_char(c)),
                forall|j: int| 0 <= j < 100 ==> is_piece_char(#[trigger] value@[j]),
                forall|j: int|
                    0 <= j < k ==> (#[trigger] cells[j] == Piece::OUTER <==> crate::othello::is_border(j)),
            decreases 100 - k,
        {
            let frame = k < 10 || k >= 90 || k % 10 == 0 || k % 10 == 9;
            if (board[k] == Piece::OUTER) != frame {
                proof {
                    assert(frame == crate::othello::is_border(k as int));
                    assert(cells[k as int] == board@[k as int]);
                    assert(!board_wf(cells));
                }
                return Err(BoardFormatError::BadLayout);
            }
            k = k + 1;
        }
        Ok(BoardStruct::from_cells(board))
    }
}

/// Reading back the text of any board gives that board.
pub proof fn lemma_board_round_trip(s: Seq<Piece>)
    requires
        board_wf(s),
    ensures
        board_from_text(board_text(s)) == Ok::<Seq<Piece>, BoardFormatError>(s),
{
    let t = board_text(s);
    assert forall|i: int| 0 <= i < t.len() implies is_piece_char(#[trigger] t[i]) by {}
    let back = t.map_values(|c: char| piece_from_char(c));
    assert(back =~= s);
}

} // verus!
