//! Legality, flipping, turn order and scoring.
use vstd::prelude::*;

use crate::othello::{
    all_directions, board_wf, dir_offset, is_border, is_interior, piece_of, BoardStruct, Direction,
    Piece, Player,
};

verus! {

/// The cell `k` steps away from `sq` along the step `d`.
pub open spec fn ray(sq: int, d: int, k: int) -> int {
    sq + k * d
}

/// Going from `sq` along `d`, the cells 1 to `k - 1` hold the opponent's
/// pieces and cell `k` holds one of `p`'s own (with at least one opponent
/// piece between).
pub open spec fn bracket_at(s: Seq<Piece>, sq: int, p: Player, d: int, k: int) -> bool {
    &&& p != Player::Unknown
    &&& 2 <= k
    &&& 0 <= ray(sq, d, k) < s.len()
    &&& s[ray(sq, d, k)] == piece_of(p)
    &&& forall|j: int|
        1 <= j < k ==> 0 <= #[trigger] ray(sq, d, j) < s.len() && s[ray(sq, d, j)] == piece_of(
            p.opp(),
        )
}

pub open spec fn has_bracket(s: Seq<Piece>, sq: int, p: Player, d: int) -> bool {
    exists|k: int| bracket_at(s, sq, p, d, k)
}

/// `sq` is empty and brackets opponent pieces in at least one direction.
pub open spec fn legal(s: Seq<Piece>, sq: int, p: Player) -> bool {
    &&& 0 <= sq < s.len()
    &&& s[sq] == Piece::EMPTY
    &&& exists|t: int| 0 <= t < 8 && #[trigger] has_bracket(s, sq, p, dir_offset(t))
}

/// Cell `i` lies strictly between `sq` and its bracket along `d`.
pub open spec fn inside(s: Seq<Piece>, sq: int, p: Player, d: int, i: int) -> bool {
    exists|k: int, j: int|
        #![trigger bracket_at(s, sq, p, d, k), ray(sq, d, j)]
        bracket_at(s, sq, p, d, k) && 1 <= j < k && i == ray(sq, d, j)
}

/// Cell `i` is turned over when `p` plays at `sq`.
pub open spec fn flipped(s: Seq<Piece>, sq: int, p: Player, i: int) -> bool {
    exists|t: int| 0 <= t < 8 && #[trigger] inside(s, sq, p, dir_offset(t), i)
}

/// The position after `p` plays at `sq`: the square and every flipped cell
/// hold `p`'s piece, all else is as before.
pub open spec fn moved(s: Seq<Piece>, sq: int, p: Player) -> Seq<Piece> {
    Seq::new(
        s.len(),
        |i: int|
            if i == sq || flipped(s, sq, p, i) {
                piece_of(p)
            } else {
                s[i]
            },
    )
}

/// `p` has at least one legal square.
pub open spec fn has_move(s: Seq<Piece>, p: Player) -> bool {
    exists|sq: int| #[trigger] legal(s, sq, p)
}

/// Who moves after `prev` has moved: the opponent if it can, else `prev`
/// again if it can, else nobody.
pub open spec fn next_of(s: Seq<Piece>, prev: Player) -> Option<Player> {
    if has_move(s, prev.opp()) {
        Some(prev.opp())
    } else if has_move(s, prev) {
        Some(prev)
    } else {
        None
    }
}

pub open spec fn cell_value(c: Piece, mine: Piece, theirs: Piece) -> int {
    if c == mine {
        1
    } else if c == theirs {
        -1
    } else {
        0
    }
}

/// Cells holding `mine` count one up, cells holding `theirs` one down.
pub open spec fn tally(s: Seq<Piece>, mine: Piece, theirs: Piece) -> int
    decreases s.len(),
{
    if s.len() == 0 {
        0
    } else {
        tally(s.drop_last(), mine, theirs) + cell_value(s.last(), mine, theirs)
    }
}

/// The number of cells holding `c`.
pub open spec fn count(s: Seq<Piece>, c: Piece) -> int
    decreases s.len(),
{
    if s.len() == 0 {
        0
    } else {
        count(s.drop_last(), c) + (if s.last() == c {
            1int
        } else {
            0int
        })
    }
}

/// `p`'s pieces less the opponent's.
pub open spec fn score_of(s: Seq<Piece>, p: Player) -> int {
    tally(s, piece_of(p), piece_of(p.opp()))
}

pub open spec fn winner_of(s: Seq<Piece>) -> Player {
    if score_of(s, Player::Black) > 0 {
        Player::Black
    } else if score_of(s, Player::Black) < 0 {
        Player::White
    } else {
        Player::Unknown
    }
}

/// A move that was refused, with what it was asked on.
#[derive(Debug)]
pub struct IllegalMoveError {
    player: Player,
    square: usize,
    board: BoardStruct,
}

impl IllegalMoveError {
    pub closed spec fn spec_player(&self) -> Player {
        self.player
    }

    pub closed spec fn spec_square(&self) -> usize {
        self.square
    }

    pub closed spec fn spec_board(&self) -> Seq<Piece> {
        self.board@
    }

    pub fn player(&self) -> (r: Player)
        ensures
            r == self.spec_player(),
    {
        self.player
    }

    pub fn square(&self) -> (r: usize)
        ensures
            r == self.spec_square(),
    {
        self.square
    }
}

proof fn lemma_step_in_range(i: int, d: Direction)
    requires
        is_interior(i),
    ensures
        0 <= i + d.offset() < 100,
{
}

proof fn lemma_ray_step(sq: int, d: int, k: int)
    ensures
        ray(sq, d, k + 1) == ray(sq, d, k) + d,
{
    assert(sq + (k + 1) * d == sq + k * d + d) by (nonlinear_arith);
}

proof fn lemma_ray_one(sq: int, d: int)
    ensures
        ray(sq, d, 1) == sq + d,
{
}

proof fn lemma_bracket_unique(s: Seq<Piece>, sq: int, p: Player, d: int, k1: int, k2: int)
    requires
        bracket_at(s, sq, p, d, k1),
        bracket_at(s, sq, p, d, k2),
    ensures
        k1 == k2,
{
    if k1 < k2 {
        assert(0 <= ray(sq, d, k1) < s.len());
    } else if k2 < k1 {
        assert(0 <= ray(sq, d, k2) < s.len());
    }
}

/// `u + i`, for an offset that keeps the result in range.
fn add(u: usize, i: i32) -> (r: usize)
    requires
        0 <= u + i <= usize::MAX,
    ensures
        r == u + i,
{
    if i < 0 {
        let m: usize = (-(i as i64)) as usize;
        u - m
    } else {
        u + i as usize
    }
}

/// The cell that closes a bracket of `player` from `square` along
/// `direction`, if there is one.
fn find_bracket(square: &usize, player: &Player, board: &BoardStruct, direction: &Direction) -> (r:
    Option<usize>)
    requires
        is_interior(*square as int),
    ensures
        match r {
            Some(e) => exists|k: int|
                bracket_at(board@, *square as int, *player, direction.offset(), k) && e == ray(
                    *square as int,
                    direction.offset(),
                    k,
                ),
            None => !has_bracket(board@, *square as int, *player, direction.offset()),
        },
{
    let ghost s = board@;
    let ghost sq = *square as int;
    let ghost p = *player;
    let ghost d = direction.offset();
    let dir = direction.value();
    proof {
        lemma_step_in_range(sq, *direction);
        lemma_ray_one(sq, d);
    }
    let mut bracket: usize = self::add(*square, dir);
    let mine = Piece::from(*player);
    if board.get(bracket) == mine {
        proof {
            assert forall|k: int| !bracket_at(s, sq, p, d, k) by {
                if bracket_at(s, sq, p, d, k) {
                    assert(0 <= ray(sq, d, 1) < s.len());
                }
            }
        }
        return None;
    }
    let opp = Piece::from(player.opponent());
    let ghost mut k: int = 1;
    while board.get(bracket) == opp
        invariant
            board_wf(s),
            s == board@,
            is_interior(sq),
            d == direction.offset(),
            dir == d,
            mine == piece_of(p),
            opp == piece_of(p.opp()),
            p == *player,
            1 <= k,
            p == Player::Unknown ==> k == 1,
            bracket == ray(sq, d, k),
            0 <= bracket < 100,
            k == 1 ==> s[bracket as int] != mine,
            forall|j: int| 1 <= j < k ==> 0 <= #[trigger] ray(sq, d, j) < 100 && s[ray(sq, d, j)] == opp,
        decreases (if d > 0 {
            100 - bracket
        } else {
            bracket as int
        }),
    {
        proof {
            assert(s[bracket as int] == opp);
            assert(!is_border(bracket as int));
            lemma_step_in_range(bracket as int, *direction);
            lemma_ray_step(sq, d, k);
        }
        bracket = self::add(bracket, dir);
        proof {
            k = k + 1;
        }
    }
    if board.get(bracket) == mine {
        proof {
            assert(bracket_at(s, sq, p, d, k));
        }
        Some(bracket)
    } else {
        proof {
            assert forall|k2: int| !bracket_at(s, sq, p, d, k2) by {
                if bracket_at(s, sq, p, d, k2) {
                    if k2 > k {
                        assert(0 <= ray(sq, d, k) < s.len());
                    } else if k2 < k {
                        assert(0 <= ray(sq, d, k2) < s.len());
                    }
                }
            }
        }
        None
    }
}

/// Whether `player` may play at `square`.
pub fn is_legal(square: &usize, player: &Player, board: &BoardStruct) -> (r: bool)
    ensures
        r == legal(board@, *square as int, *player),
{
    if *square >= 100 {
        return false;
    }
    if board.get(*square) != Piece::EMPTY {
        return false;
    }
    let dirs = Direction::iter();
    let mut t: usize = 0;
    while t < 8
        invariant
            0 <= t <= 8,
            dirs@ == all_directions(),
            *square < 100,
            board_wf(board@),
            board@[*square as int] == Piece::EMPTY,
            forall|u: int| 0 <= u < t ==> !#[trigger] has_bracket(board@, *square as int, *player, dir_offset(u)),
        decreases 8 - t,
    {
        if find_bracket(square, player, board, &dirs[t]).is_some() {
            proof {
                assert(dirs@[t as int].offset() == dir_offset(t as int));
                assert(has_bracket(board@, *square as int, *player, dir_offset(t as int)));
            }
            return true;
        }
        t = t + 1;
    }
    false
}

/// Turns over the cells that `player` brackets along `direction` from
/// `square` in `board`, writing them into `cells`.
fn make_flips(
    square: &usize,
    player: &Player,
    board: &BoardStruct,
    cells: &mut [Piece; 100],
    direction: &Direction,
)
    requires
        is_interior(*square as int),
    ensures
        forall|i: int|
            0 <= i < 100 ==> #[trigger] final(cells)@[i] == (if inside(
                board@,
                *square as int,
                *player,
                direction.offset(),
                i,
            ) {
                piece_of(*player)
            } else {
                old(cells)@[i]
            }),
{
    let ghost s = board@;
    let ghost sq = *square as int;
    let ghost p = *player;
    let ghost d = direction.offset();
    let bracket = find_bracket(square, player, board, direction);
    let dir = direction.value();
    match bracket {
        None => {
            assert forall|i: int| 0 <= i < 100 implies !inside(s, sq, p, d, i) by {
                if inside(s, sq, p, d, i) {
                    let (k, j) = choose|k: int, j: int|
                        bracket_at(s, sq, p, d, k) && 1 <= j < k && i == ray(sq, d, j);
                    assert(has_bracket(s, sq, p, d));
                }
            }
        },
        Some(endpoint) => {
            let ghost kb = choose|k: int| bracket_at(s, sq, p, d, k) && endpoint == ray(sq, d, k);
            let ghost start = *cells;
            let mine = Piece::from(*player);
            proof {
                lemma_ray_one(sq, d);
                assert(0 <= ray(sq, d, 1) < s.len());
            }
            let mut flipping = self::add(*square, dir);
            let ghost mut j: int = 1;
            while flipping != endpoint
                invariant
                    bracket_at(s, sq, p, d, kb),
                    s.len() == 100,
                    endpoint == ray(sq, d, kb),
                    1 <= j <= kb,
                    flipping == ray(sq, d, j),
                    0 <= flipping < 100,
                    dir == d,
                    mine == piece_of(p),
                    forall|i: int|
                        0 <= i < 100 ==> #[trigger] cells@[i] == (if exists|j2: int|
                            1 <= j2 < j && i == #[trigger] ray(sq, d, j2) {
                            mine
                        } else {
                            start@[i]
                        }),
                decreases kb - j,
            {
                proof {
                    if j == kb {
                        assert(false);
                    }
                    lemma_ray_step(sq, d, j);
                    assert(0 <= ray(sq, d, j + 1) < s.len());
                }
                cells[flipping] = mine;
                proof {
                    assert forall|i: int| 0 <= i < 100 implies #[trigger] cells@[i] == (if exists|
                        j2: int,
                    | 1 <= j2 < j + 1 && i == #[trigger] ray(sq, d, j2) {
                        mine
                    } else {
                        start@[i]
                    }) by {
                        if i == ray(sq, d, j) {
                            assert(1 <= j < j + 1 && i == ray(sq, d, j));
                        } else {
                            if exists|j2: int| 1 <= j2 < j + 1 && i == #[trigger] ray(sq, d, j2) {
                                let j2 = choose|j2: int| 1 <= j2 < j + 1 && i == #[trigger] ray(sq, d, j2);
                                assert(1 <= j2 < j && i == ray(sq, d, j2));
                            }
                        }
                    }
                }
                flipping = self::add(flipping, dir);
                proof {
                    j = j + 1;
                }
            }
            proof {
                assert(j == kb) by {
                    if j != kb {
                        assert(ray(sq, d, j) == ray(sq, d, kb));
                        assert(sq + j * d == sq + kb * d);
                        assert(d != 0);
                        assert(j * d == kb * d);
                        assert(j == kb) by (nonlinear_arith)
                            requires
                                j * d == kb * d,
                                d != 0,
                        ;
                    }
                }
                assert forall|i: int| 0 <= i < 100 implies #[trigger] cells@[i] == (if inside(
                    s,
                    sq,
                    p,
                    d,
                    i,
                ) {
                    piece_of(p)
                } else {
                    start@[i]
                }) by {
                    if inside(s, sq, p, d, i) {
                        let (k, j2) = choose|k: int, j2: int|
                            bracket_at(s, sq, p, d, k) && 1 <= j2 < k && i == ray(sq, d, j2);
                        lemma_bracket_unique(s, sq, p, d, k, kb);
                    } else {
                        if exists|j2: int| 1 <= j2 < j && i == #[trigger] ray(sq, d, j2) {
                            let j2 = choose|j2: int| 1 <= j2 < j && i == #[trigger] ray(sq, d, j2);
                            assert(bracket_at(s, sq, p, d, kb) && 1 <= j2 < kb && i == ray(
                                sq,
                                d,
                                j2,
                            ));
                        }
                    }
                }
            }
        },
    }
}

/// Plays `player` at `square`: sets the square and turns over every
/// bracketed opponent piece. An illegal move leaves the board as it was.
pub fn make_move(square: &usize, player: &Player, board: &mut BoardStruct) -> (r: Result<
    (),
    IllegalMoveError,
>)
    ensures
        match r {
            Ok(()) => legal(old(board)@, *square as int, *player) && final(board)@ == moved(
                old(board)@,
                *square as int,
                *player,
            ),
            Err(e) => !legal(old(board)@, *square as int, *player) && *final(board) == *old(board)
                && e.spec_player() == *player && e.spec_square() == *square && e.spec_board()
                == old(board)@,
        },
        r is Err <==> final(board)@ == old(board)@,
        r is Ok ==> final(board)@[*square as int] == piece_of(*player),
        r is Ok ==> forall|t: int, k: int, j: int|
            0 <= t < 8 && #[trigger] bracket_at(old(board)@, *square as int, *player, dir_offset(t), k)
                && 1 <= j < k ==> final(board)@[#[trigger] ray(*square as int, dir_offset(t), j)]
                == piece_of(*player),
        board_wf(final(board)@),
{
    if !is_legal(square, player, board) {
        proof {
            use_type_invariant(&*board);
        }
        return Err(IllegalMoveError { square: *square, player: *player, board: *board });
    }
    let ghost s = board@;
    let ghost sq = *square as int;
    let ghost p = *player;
    let mine = Piece::from(*player);
    let mut cells = board.cells();
    proof {
        assert(is_interior(sq));
        let t = choose|t: int| 0 <= t < 8 && #[trigger] has_bracket(s, sq, p, dir_offset(t));
        assert(p != Player::Unknown);
    }
    cells[*square] = mine;
    let dirs = Direction::iter();
    let mut t: usize = 0;
    while t < 8
        invariant
            0 <= t <= 8,
            dirs@ == all_directions(),
            is_interior(sq),
            s == board@,
            sq == *square as int,
            p == *player,
            p != Player::Unknown,
            mine == piece_of(p),
            board_wf(s),
            forall|i: int|
                0 <= i < 100 ==> #[trigger] cells@[i] == (if i == sq || exists|u: int|
                    0 <= u < t && #[trigger] inside(s, sq, p, dir_offset(u), i) {
                    mine
                } else {
                    s[i]
                }),
        decreases 8 - t,
    {
        make_flips(square, player, board, &mut cells, &dirs[t]);
        proof {
            assert forall|i: int| 0 <= i < 100 implies #[trigger] cells@[i] == (if i == sq || exists|
                u: int,
            | 0 <= u < t + 1 && #[trigger] inside(s, sq, p, dir_offset(u), i) {
                mine
            } else {
                s[i]
            }) by {
                assert(dirs@[t as int].offset() == dir_offset(t as int));
                if exists|u: int| 0 <= u < t + 1 && #[trigger] inside(s, sq, p, dir_offset(u), i) {
                    let u = choose|u: int| 0 <= u < t + 1 && #[trigger] inside(s, sq, p, dir_offset(u), i);
                    if u < t {
                        assert(0 <= u < t && inside(s, sq, p, dir_offset(u), i));
                    }
                }
            }
        }
        t = t + 1;
    }
    proof {
        assert forall|i: int| 0 <= i < 100 implies #[trigger] cells@[i] == moved(s, sq, p)[i] by {
            if flipped(s, sq, p, i) {
                let u = choose|u: int| 0 <= u < 8 && #[trigger] inside(s, sq, p, dir_offset(u), i);
                assert(0 <= u < 8 && inside(s, sq, p, dir_offset(u), i));
            }
            if exists|u: int| 0 <= u < 8 && #[trigger] inside(s, sq, p, dir_offset(u), i) {
                let u = choose|u: int| 0 <= u < 8 && #[trigger] inside(s, sq, p, dir_offset(u), i);
                let (k, j) = choose|k: int, j: int|
                    bracket_at(s, sq, p, dir_offset(u), k) && 1 <= j < k && i == ray(
                        sq,
                        dir_offset(u),
                        j,
                    );
                assert(0 <= ray(sq, dir_offset(u), j) < s.len());
                assert(flipped(s, sq, p, i));
            }
        }
        assert(cells@ =~= moved(s, sq, p));
        assert forall|i: int| 0 <= i < 100 implies (#[trigger] cells@[i] == Piece::OUTER <==> is_border(
            i,
        )) by {
            if i != sq && flipped(s, sq, p, i) {
                let u = choose|u: int| 0 <= u < 8 && #[trigger] inside(s, sq, p, dir_offset(u), i);
                let (k, j) = choose|k: int, j: int|
                    bracket_at(s, sq, p, dir_offset(u), k) && 1 <= j < k && i == ray(
                        sq,
                        dir_offset(u),
                        j,
                    );
                assert(0 <= ray(sq, dir_offset(u), j) < s.len());
                assert(s[i] != Piece::OUTER);
            }
        }
        assert(cells@[sq] != s[sq]);
        assert forall|t: int, k: int, j: int|
            0 <= t < 8 && #[trigger] bracket_at(s, sq, p, dir_offset(t), k) && 1 <= j < k
                implies cells@[#[trigger] ray(sq, dir_offset(t), j)] == piece_of(p) by {
            let i = ray(sq, dir_offset(t), j);
            assert(0 <= i < s.len());
            assert(inside(s, sq, p, dir_offset(t), i));
            assert(flipped(s, sq, p, i));
        }
    }
    *board = BoardStruct::from_cells(cells);
    Ok(())
}

/// Every legal square of `player`, in increasing order.
pub fn legal_moves(player: &Player, board: &BoardStruct) -> (r: Vec<usize>)
    ensures
        forall|x: usize| r@.contains(x) <==> legal(board@, x as int, *player),
        forall|i: int, j: int| 0 <= i < j < r@.len() ==> r@[i] < r@[j],
{
    proof {
        use_type_invariant(board);
    }
    let mut r: Vec<usize> = Vec::new();
    let mut sq: usize = 0;
    while sq < 100
        invariant
            0 <= sq <= 100,
            board@.len() == 100,
            forall|x: usize| r@.contains(x) <==> (x < sq && legal(board@, x as int, *player)),
            forall|i: int, j: int| 0 <= i < j < r@.len() ==> r@[i] < r@[j],
            forall|i: int| 0 <= i < r@.len() ==> r@[i] < sq,
        decreases 100 - sq,
    {
        if is_legal(&sq, player, board) {
            let ghost before = r@;
            r.push(sq);
            proof {
                assert forall|x: usize| r@.contains(x) <==> (x < sq + 1 && legal(
                    board@,
                    x as int,
                    *player,
                )) by {
                    if r@.contains(x) && x != sq {
                        let i = choose|i: int| 0 <= i < r@.len() && r@[i] == x;
                        assert(i < before.len());
                        assert(before[i] == x);
                        assert(before.contains(x));
                    }
                    if x == sq {
                        assert(r@[before.len() as int] == x);
                    }
                    if x < sq && legal(board@, x as int, *player) {
                        assert(before.contains(x));
                        let i = choose|i: int| 0 <= i < before.len() && before[i] == x;
                        assert(r@[i] == x);
                    }
                }
            }
        }
        sq = sq + 1;
    }
    proof {
        assert forall|x: usize| r@.contains(x) <==> legal(board@, x as int, *player) by {
            if legal(board@, x as int, *player) {
                assert(x < 100);
            }
        }
    }
    r
}

/// Whether `player` has any legal square.
pub fn any_legal_moves(player: &Player, board: &BoardStruct) -> (r: bool)
    ensures
        r == has_move(board@, *player),
{
    proof {
        use_type_invariant(board);
    }
    let mut sq: usize = 0;
    while sq < 100
        invariant
            0 <= sq <= 100,
            board@.len() == 100,
            forall|x: int| 0 <= x < sq ==> !#[trigger] legal(board@, x, *player),
        decreases 100 - sq,
    {
        if is_legal(&sq, player, board) {
            return true;
        }
        sq = sq + 1;
    }
    false
}

/// Who is to move after `prev_player` has moved, or `None` when neither
/// side can move.
pub fn next_player(board: &BoardStruct, prev_player: &Player) -> (r: Option<Player>)
    ensures
        r == next_of(board@, *prev_player),
{
    let opp = prev_player.opponent();
    if any_legal_moves(&opp, board) {
        Some(opp)
    } else if any_legal_moves(prev_player, board) {
        Some(*prev_player)
    } else {
        None
    }
}

/// `player`'s pieces less the opponent's.
pub fn score(player: &Player, board: &BoardStruct) -> (r: i32)
    ensures
        r == score_of(board@, *player),
{
    let ghost s = board@;
    let ghost mp = piece_of(*player);
    let ghost tp = piece_of(player.opp());
    let mine = Piece::from(*player);
    let theirs = Piece::from(player.opponent());
    proof {
        use_type_invariant(board);
    }
    let mut acc: i32 = 0;
    let mut i: usize = 0;
    while i < 100
        invariant
            0 <= i <= 100,
            s == board@,
            s.len() == 100,
            mine == mp,
            theirs == tp,
            acc == tally(s.subrange(0, i as int), mp, tp),
            -(i as int) <= acc <= i,
        decreases 100 - i,
    {
        let c = board.get(i);
        proof {
            assert(s.subrange(0, i + 1).drop_last() =~= s.subrange(0, i as int));
        }
        if c == mine {
            acc = acc + 1;
        } else if c == theirs {
            acc = acc - 1;
        }
        i = i + 1;
    }
    proof {
        assert(s.subrange(0, 100) =~= s);
    }
    acc
}

/// The side with more pieces, or `Unknown` on a draw.
pub fn winner(board: &BoardStruct) -> (r: Player)
    ensures
        r == winner_of(board@),
{
    let diff_black = score(&Player::Black, board);
    if diff_black > 0 {
        Player::Black
    } else if diff_black < 0 {
        Player::White
    } else {
        Player::Unknown
    }
}

/// Whether neither `player` nor its opponent can move.
pub fn is_game_over(player: &Player, board: &BoardStruct) -> (r: bool)
    ensures
        r == (!has_move(board@, *player) && !has_move(board@, player.opp())),
{
    !any_legal_moves(player, board) && !any_legal_moves(&player.opponent(), board)
}

proof fn lemma_tally_counts(s: Seq<Piece>, a: Piece, b: Piece)
    requires
        a != b,
    ensures
        tally(s, a, b) == count(s, a) - count(s, b),
    decreases s.len(),
{
    if s.len() > 0 {
        lemma_tally_counts(s.drop_last(), a, b);
    }
}

/// Black's score is the negation of White's, and it is zero exactly when
/// both sides have as many pieces.
pub proof fn lemma_scores_balance(s: Seq<Piece>)
    ensures
        score_of(s, Player::Black) + score_of(s, Player::White) == 0,
        score_of(s, Player::Black) == count(s, Piece::BLACK) - count(s, Piece::WHITE),
        score_of(s, Player::Black) == 0 <==> count(s, Piece::BLACK) == count(s, Piece::WHITE),
{
    lemma_tally_counts(s, Piece::BLACK, Piece::WHITE);
    lemma_tally_counts(s, Piece::WHITE, Piece::BLACK);
}

/// When no side is to move after `prev` has moved, no square is legal for
/// anybody.
pub proof fn lemma_no_next_player_no_moves(s: Seq<Piece>, prev: Player)
    requires
        prev != Player::Unknown,
        next_of(s, prev) is None,
    ensures
        forall|sq: int, p: Player| !#[trigger] legal(s, sq, p),
{
    assert forall|sq: int, p: Player| !#[trigger] legal(s, sq, p) by {
        if legal(s, sq, p) {
            assert(has_move(s, p));
            let t = choose|t: int| 0 <= t < 8 && #[trigger] has_bracket(s, sq, p, dir_offset(t));
            let k = choose|k: int| bracket_at(s, sq, p, dir_offset(t), k);
        }
    }
}

} // verus!
