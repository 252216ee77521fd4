//! Pieces, players, directions and the padded 10x10 board.
use vstd::prelude::*;

pub mod codec;
pub mod moves;

verus! {

/// What a cell of the padded board holds.
#[allow(non_camel_case_types)]
#[derive(Copy, Clone, Debug, PartialEq, Eq, Structural, Hash)]
pub enum Piece {
    BLACK,
    WHITE,
    EMPTY,
    OUTER,
}

/// A side of the game; `Unknown` stands for "nobody" (a draw, no mover).
#[derive(Copy, Clone, Debug, PartialEq, Eq, Structural, Hash)]
pub enum Player {
    Black,
    White,
    Unknown,
}

impl Player {
    /// The other side; `Unknown` is its own opponent.
    pub open spec fn opp(self) -> Player {
        match self {
            Player::Black => Player::White,
            Player::White => Player::Black,
            Player::Unknown => Player::Unknown,
        }
    }

    pub fn opponent(&self) -> (r: Player)
        ensures
            r == self.opp(),
    {
        match self {
            Player::Black => Player::White,
            Player::White => Player::Black,
            Player::Unknown => Player::Unknown,
        }
    }
}

/// The piece that a player puts on the board (`OUTER` for `Unknown`).
pub open spec fn piece_of(p: Player) -> Piece {
    match p {
        Player::Black => Piece::BLACK,
        Player::White => Piece::WHITE,
        Player::Unknown => Piece::OUTER,
    }
}

/// The player that owns a piece (`Unknown` for `EMPTY` and `OUTER`).
pub open spec fn owner_of(c: Piece) -> Player {
    match c {
        Piece::BLACK => Player::Black,
        Piece::WHITE => Player::White,
        _ => Player::Unknown,
    }
}

/// The character that stands for a piece on the wire.
pub open spec fn char_of(c: Piece) -> char {
    match c {
        Piece::BLACK => '@',
        Piece::WHITE => 'o',
        Piece::EMPTY => '.',
        Piece::OUTER => '?',
    }
}

/// The piece read from a character; anything unknown reads as `OUTER`.
pub open spec fn piece_from_char(ch: char) -> Piece {
    if ch == '@' {
        Piece::BLACK
    } else if ch == 'o' {
        Piece::WHITE
    } else if ch == '.' {
        Piece::EMPTY
    } else {
        Piece::OUTER
    }
}

impl From<Piece> for Player {
    fn from(pc: Piece) -> (r: Player)
        ensures
            r == owner_of(pc),
    {
        match pc {
            Piece::BLACK => Player::Black,
            Piece::WHITE => Player::White,
            Piece::EMPTY => Player::Unknown,
            Piece::OUTER => Player::Unknown,
        }
    }
}

impl vstd::std_specs::convert::FromSpecImpl<Piece> for Player {
    open spec fn obeys_from_spec() -> bool {
        true
    }

    open spec fn from_spec(pc: Piece) -> Player {
        owner_of(pc)
    }
}

impl From<Piece> for char {
    fn from(pc: Piece) -> (r: char)
        ensures
            r == char_of(pc),
    {
        match pc {
            Piece::BLACK => '@',
            Piece::WHITE => 'o',
            Piece::EMPTY => '.',
            Piece::OUTER => '?',
        }
    }
}

impl vstd::std_specs::convert::FromSpecImpl<Piece> for char {
    open spec fn obeys_from_spec() -> bool {
        true
    }

    open spec fn from_spec(pc: Piece) -> char {
        char_of(pc)
    }
}

impl From<char> for Piece {
    fn from(c: char) -> (r: Piece)
        ensures
            r == piece_from_char(c),
    {
        match c {
            '@' => Piece::BLACK,
            'o' => Piece::WHITE,
            '.' => Piece::EMPTY,
            _ => Piece::OUTER,
        }
    }
}

impl vstd::std_specs::convert::FromSpecImpl<char> for Piece {
    open spec fn obeys_from_spec() -> bool {
        true
    }

    open spec fn from_spec(c: char) -> Piece {
        piece_from_char(c)
    }
}

impl From<Player> for Piece {
    fn from(pl: Player) -> (r: Piece)
        ensures
            r == piece_of(pl),
    {
        match pl {
            Player::Black => Piece::BLACK,
            Player::White => Piece::WHITE,
            Player::Unknown => Piece::OUTER,
        }
    }
}

impl vstd::std_specs::convert::FromSpecImpl<Player> for Piece {
    open spec fn obeys_from_spec() -> bool {
        true
    }

    open spec fn from_spec(pl: Player) -> Piece {
        piece_of(pl)
    }
}

pub const UP: i32 = -10;

pub const DOWN: i32 = 10;

pub const LEFT: i32 = -1;

pub const RIGHT: i32 = 1;

pub const UP_RIGHT: i32 = UP + RIGHT;

pub const UP_LEFT: i32 = UP + LEFT;

pub const DOWN_RIGHT: i32 = DOWN + RIGHT;

pub const DOWN_LEFT: i32 = DOWN + LEFT;

/// One of the eight compass directions over the padded grid.
#[derive(Copy, Clone, Debug, PartialEq, Eq, Structural)]
pub enum Direction {
    Up,
    Down,
    Left,
    Right,
    UpRight,
    UpLeft,
    DownRight,
    DownLeft,
}

impl Direction {
    /// The step, in cells of the padded grid, that the direction takes.
    pub open spec fn offset(self) -> int {
        match self {
            Direction::Up => -10,
            Direction::Down => 10,
            Direction::Left => -1,
            Direction::Right => 1,
            Direction::UpRight => -9,
            Direction::UpLeft => -11,
            Direction::DownRight => 11,
            Direction::DownLeft => 9,
        }
    }

    pub fn value(&self) -> (r: i32)
        ensures
            r == self.offset(),
    {
        match self {
            Direction::Up => UP,
            Direction::Down => DOWN,
            Direction::Left => LEFT,
            Direction::Right => RIGHT,
            Direction::UpRight => UP_RIGHT,
            Direction::UpLeft => UP_LEFT,
            Direction::DownRight => DOWN_RIGHT,
            Direction::DownLeft => DOWN_LEFT,
        }
    }

    /// All eight directions, in the order in which moves are examined.
    pub fn iter() -> (r: Vec<Direction>)
        ensures
            r@ == all_directions(),
    {
        vec![
            Direction::Up,
            Direction::UpLeft,
            Direction::Left,
            Direction::DownLeft,
            Direction::Down,
            Direction::DownRight,
            Direction::Right,
            Direction::UpRight,
        ]
    }
}

pub open spec fn all_directions() -> Seq<Direction> {
    seq![
        Direction::Up,
        Direction::UpLeft,
        Direction::Left,
        Direction::DownLeft,
        Direction::Down,
        Direction::DownRight,
        Direction::Right,
        Direction::UpRight,
    ]
}

/// The step of the `t`-th direction of `all_directions`.
pub open spec fn dir_offset(t: int) -> int {
    all_directions()[t].offset()
}

/// Cells of the one-cell frame around the 8x8 playing area.
pub open spec fn is_border(i: int) -> bool {
    i < 10 || i >= 90 || i % 10 == 0 || i % 10 == 9
}

/// The 64 playable cells `10 * r + c` with `r` and `c` in `1..=8`.
pub open spec fn is_interior(i: int) -> bool {
    0 <= i < 100 && !is_border(i)
}

/// A well-formed board: 100 cells, `OUTER` exactly on the frame.
pub open spec fn board_wf(s: Seq<Piece>) -> bool {
    &&& s.len() == 100
    &&& forall|i: int| 0 <= i < 100 ==> (#[trigger] s[i] == Piece::OUTER <==> is_border(i))
}

/// The starting position.
pub open spec fn initial_cells() -> Seq<Piece> {
    Seq::new(
        100,
        |i: int|
            if is_border(i) {
                Piece::OUTER
            } else if i == 44 || i == 55 {
                Piece::WHITE
            } else if i == 45 || i == 54 {
                Piece::BLACK
            } else {
                Piece::EMPTY
            },
    )
}

/// An Othello position on the padded 10x10 grid. Every value keeps its frame:
/// the border cells hold `OUTER` and no playing cell does (`board_wf`), which
/// is what lets walks along a direction stop without range checks.
#[derive(Copy, Clone, Debug)]
pub struct BoardStruct {
    board: [Piece; 100],
}

impl View for BoardStruct {
    type V = Seq<Piece>;

    closed spec fn view(&self) -> Seq<Piece> {
        self.board@
    }
}

impl BoardStruct {
    #[verifier::type_invariant]
    closed spec fn inv(self) -> bool {
        board_wf(self.board@)
    }

    /// The starting position.
    pub fn new() -> (r: BoardStruct)
        ensures
            r@ == initial_cells(),
            board_wf(r@),
    {
        initial_board()
    }

    /// A board with the given cells.
    pub fn from_cells(cells: [Piece; 100]) -> (r: BoardStruct)
        requires
            board_wf(cells@),
        ensures
            r@ == cells@,
    {
        BoardStruct { board: cells }
    }

    /// A copy of the cells.
    pub fn cells(&self) -> (r: [Piece; 100])
        ensures
            r@ == self@,
            board_wf(r@),
    {
        proof {
            use_type_invariant(self);
        }
        self.board
    }

    /// The piece at cell `i`.
    pub fn get(&self, i: usize) -> (r: Piece)
        requires
            i < 100,
        ensures
            r == self@[i as int],
            board_wf(self@),
    {
        proof {
            use_type_invariant(self);
        }
        self.board[i]
    }
}

pub fn initial_board() -> (r: BoardStruct)
    ensures
        r@ == initial_cells(),
        board_wf(r@),
{
    let mut board = [Piece::OUTER; 100];
    let mut x: usize = 1;
    while x < 9
        invariant
            1 <= x <= 9,
            forall|i: int|
                0 <= i < 100 ==> #[trigger] board@[i] == (if !is_border(i) && i % 10 < x {
                    Piece::EMPTY
                } else {
                    Piece::OUTER
                }),
        decreases 9 - x,
    {
        let mut y: usize = 1;
        while y < 9
            invariant
                1 <= x < 9,
                1 <= y <= 9,
                forall|i: int|
                    0 <= i < 100 ==> #[trigger] board@[i] == (if !is_border(i) && (i % 10 < x
                        || (i % 10 == x && i / 10 < y)) {
                        Piece::EMPTY
                    } else {
                        Piece::OUTER
                    }),
            decreases 9 - y,
        {
            board[x + y * 10] = Piece::EMPTY;
            y = y + 1;
        }
        x = x + 1;
    }
    board[44] = Piece::WHITE;
    board[45] = Piece::BLACK;
    board[54] = Piece::BLACK;
    board[55] = Piece::WHITE;
    assert(board@ =~= initial_cells());
    BoardStruct { board }
}

} // verus!
