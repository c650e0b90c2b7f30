//! Moves and the generators that enumerate them: rays cast from a square
//! along fixed direction vectors, clipped at the edge of the board.

use vstd::prelude::*;
use crate::chess_board::{ChessBoard, SquareIndex, on_board, square_at, file_of, rank_of};

verus! {

/// A move from one square to another.
#[derive(Clone, Copy, Debug, PartialEq, Eq)]
pub struct ChessMove {
    pub source: SquareIndex,
    pub destination: SquareIndex,
}

/// The number of steps after which a ray stops, for a generator made with
/// `max_moves`. Zero stands for 256 steps, more than any ray can take
/// across the board: a generator made with zero slides as far as the board
/// goes.
pub open spec fn step_limit(max_moves: u8) -> nat {
    if max_moves == 0 {
        256
    } else {
        max_moves as nat
    }
}

/// The moves of one ray: from the square on (`file`, `rank`), which need not
/// be on the board, the direction (`df`, `dr`) is added again and again.
/// Each square reached is a destination, until a step would leave the board
/// or `limit` steps have been taken.
pub open spec fn ray_moves(
    source: SquareIndex,
    file: int,
    rank: int,
    df: int,
    dr: int,
    limit: nat,
) -> Seq<ChessMove>
    decreases limit,
{
    if limit == 0 || !on_board(file + df, rank + dr) {
        Seq::empty()
    } else {
        seq![ChessMove { source, destination: square_at(file + df, rank + dr) as u8 }]
            + ray_moves(source, file + df, rank + dr, df, dr, (limit - 1) as nat)
    }
}

/// The ray cast from `source` itself in one direction.
pub open spec fn ray_from(source: SquareIndex, direction: (i8, i8), limit: nat) -> Seq<ChessMove> {
    ray_moves(
        source,
        file_of(source as int),
        rank_of(source as int),
        direction.0 as int,
        direction.1 as int,
        limit,
    )
}

/// The rays cast from `source` in each of `directions`, one after another
/// in the order of the directions.
pub open spec fn moves_along(source: SquareIndex, limit: nat, directions: Seq<(i8, i8)>) -> Seq<
    ChessMove,
>
    decreases directions.len(),
{
    if directions.len() == 0 {
        Seq::empty()
    } else {
        moves_along(source, limit, directions.drop_last()) + ray_from(
            source,
            directions.last(),
            limit,
        )
    }
}

/// The four directions along files and ranks.
pub open spec fn straight_directions() -> Seq<(i8, i8)> {
    seq![(1i8, 0i8), (0i8, 1i8), (-1i8, 0i8), (0i8, -1i8)]
}

/// The four diagonal directions.
pub open spec fn diagonal_directions() -> Seq<(i8, i8)> {
    seq![(1i8, 1i8), (1i8, -1i8), (-1i8, 1i8), (-1i8, -1i8)]
}

/// The eight leaps of a knight.
pub open spec fn jump_directions() -> Seq<(i8, i8)> {
    seq![
        (1i8, 2i8),
        (-1i8, -2i8),
        (2i8, 1i8),
        (-2i8, -1i8),
        (1i8, -2i8),
        (-1i8, 2i8),
        (2i8, -1i8),
        (-2i8, 1i8),
    ]
}

/// A move is well formed for a source when it starts there and ends on the
/// board.
pub open spec fn move_from(m: ChessMove, source: SquareIndex) -> bool {
    m.source == source && m.destination < 64
}

/// A ray never leaves the board: each of its moves starts at the source and
/// ends on a square of the board. It is no longer than its limit.
pub proof fn lemma_ray_stays_on_board(
    source: SquareIndex,
    file: int,
    rank: int,
    df: int,
    dr: int,
    limit: nat,
)
    ensures
        ray_moves(source, file, rank, df, dr, limit).len() <= limit,
        forall|k: int|
            0 <= k < ray_moves(source, file, rank, df, dr, limit).len() ==> move_from(
                #[trigger] ray_moves(source, file, rank, df, dr, limit)[k],
                source,
            ),
    decreases limit,
{
    if limit == 0 || !on_board(file + df, rank + dr) {
    } else {
        lemma_ray_stays_on_board(source, file + df, rank + dr, df, dr, (limit - 1) as nat);
    }
}

/// The moves along any list of directions start at the source and end on
/// the board.
pub proof fn lemma_moves_stay_on_board(source: SquareIndex, limit: nat, directions: Seq<(i8, i8)>)
    ensures
        forall|k: int|
            0 <= k < moves_along(source, limit, directions).len() ==> move_from(
                #[trigger] moves_along(source, limit, directions)[k],
                source,
            ),
    decreases directions.len(),
{
    if directions.len() > 0 {
        let earlier = moves_along(source, limit, directions.drop_last());
        let ray = ray_from(source, directions.last(), limit);
        lemma_moves_stay_on_board(source, limit, directions.drop_last());
        lemma_ray_stays_on_board(
            source,
            file_of(source as int),
            rank_of(source as int),
            directions.last().0 as int,
            directions.last().1 as int,
            limit,
        );
        assert forall|k: int| 0 <= k < (earlier + ray).len() implies move_from(
            #[trigger] (earlier + ray)[k],
            source,
        ) by {
            if k < earlier.len() {
                assert((earlier + ray)[k] == earlier[k]);
            } else {
                assert((earlier + ray)[k] == ray[k - earlier.len()]);
            }
        }
    }
}

/// Casts a ray of at most `max_moves` steps from `source` in each of
/// `directions` and collects the moves in order. A `max_moves` of zero sets
/// no limit short of 256 steps.
pub fn generate_moves(source: SquareIndex, max_moves: u8, directions: &[(i8, i8)]) -> (moves: Vec<
    ChessMove,
>)
    ensures
        moves@ == moves_along(source, step_limit(max_moves), directions@),
        forall|k: int| 0 <= k < moves@.len() ==> move_from(#[trigger] moves@[k], source),
{
    let mut moves: Vec<ChessMove> = Vec::new();
    let (file_ix, rank_ix) = ChessBoard::square_to_file_and_rank(source);
    let limit: u16 = if max_moves == 0 {
        256
    } else {
        max_moves as u16
    };
    let mut d: usize = 0;
    while d < directions.len()
        invariant
            d <= directions.len(),
            limit == step_limit(max_moves),
            file_ix == file_of(source as int),
            rank_ix == rank_of(source as int),
            moves@ == moves_along(source, limit as nat, directions@.take(d as int)),
        decreases directions.len() - d,
    {
        let (df, dr) = directions[d];
        let mut file: i16 = file_ix as i16 + df as i16;
        let mut rank: i16 = rank_ix as i16 + dr as i16;
        let mut count: u16 = 0;
        let ghost before = moves@;
        let ghost mut cast: Seq<ChessMove> = Seq::empty();
        while count < limit && 0 <= file && file < 8 && 0 <= rank && rank < 8
            invariant
                count <= limit,
                -128 <= file - df <= 127,
                -128 <= rank - dr <= 127,
                moves@ == before + cast,
                ray_from(source, (df, dr), limit as nat) == cast + ray_moves(
                    source,
                    file - df,
                    rank - dr,
                    df as int,
                    dr as int,
                    (limit - count) as nat,
                ),
            decreases limit - count,
        {
            match ChessBoard::square_from_file_and_rank(file as u8, rank as u8) {
                Some(destination) => {
                    moves.push(ChessMove { source, destination });
                    proof {
                        let step = ChessMove { source, destination };
                        let rest = ray_moves(
                            source,
                            file as int,
                            rank as int,
                            df as int,
                            dr as int,
                            (limit - count - 1) as nat,
                        );
                        assert(cast + (seq![step] + rest) =~= cast.push(step) + rest);
                        assert(before + cast.push(step) =~= (before + cast).push(step));
                        cast = cast.push(step);
                    }
                },
                None => {},
            }
            count += 1;
            file += df as i16;
            rank += dr as i16;
        }
        proof {
            assert(ray_moves(
                source,
                file - df,
                rank - dr,
                df as int,
                dr as int,
                (limit - count) as nat,
            ) =~= Seq::empty());
            assert(cast + Seq::<ChessMove>::empty() =~= cast);
            assert(directions@.take(d + 1).drop_last() =~= directions@.take(d as int));
            assert(directions@.take(d + 1).last() == (df, dr));
        }
        d += 1;
    }
    proof {
        assert(directions@.take(d as int) =~= directions@);
        lemma_moves_stay_on_board(source, step_limit(max_moves), directions@);
    }
    moves
}

/// A rule that enumerates the moves of a piece standing on a square.
pub trait MoveGenerator {
    /// The moves that the rule yields from `source`, in order.
    spec fn moves_from(&self, source: SquareIndex) -> Seq<ChessMove>;

    /// Enumerates the moves from `source`. The rules here are geometric:
    /// none of them consults what stands on the board.
    fn generate_moves(&self, chess_board: &ChessBoard, source: SquareIndex) -> (moves: Vec<
        ChessMove,
    >)
        ensures
            moves@ == self.moves_from(source),
    ;
}

/// Slides along files and ranks.
#[derive(Clone, Copy, Debug)]
pub struct StraightSlidingMoves {
    pub max_moves: u8,
}

impl StraightSlidingMoves {
    /// A generator whose rays stop after `max_moves` steps; see
    /// [`step_limit`] for zero.
    pub fn new(max_moves: u8) -> (generator: Self)
        ensures
            generator.max_moves == max_moves,
    {
        Self { max_moves }
    }
}

impl MoveGenerator for StraightSlidingMoves {
    open spec fn moves_from(&self, source: SquareIndex) -> Seq<ChessMove> {
        moves_along(source, step_limit(self.max_moves), straight_directions())
    }

    fn generate_moves(&self, _chess_board: &ChessBoard, source: SquareIndex) -> (moves: Vec<
        ChessMove,
    >) {
        let directions: [(i8, i8); 4] = [(1, 0), (0, 1), (-1, 0), (0, -1)];
        assert(directions@ =~= straight_directions());
        generate_moves(source, self.max_moves, directions.as_slice())
    }
}

/// Slides along the diagonals.
#[derive(Clone, Copy, Debug)]
pub struct DiagonalSlidingMoves {
    pub max_moves: u8,
}

impl DiagonalSlidingMoves {
    /// A generator whose rays stop after `max_moves` steps; see
    /// [`step_limit`] for zero.
    pub fn new(max_moves: u8) -> (generator: Self)
        ensures
            generator.max_moves == max_moves,
    {
        Self { max_moves }
    }
}

impl MoveGenerator for DiagonalSlidingMoves {
    open spec fn moves_from(&self, source: SquareIndex) -> Seq<ChessMove> {
        moves_along(source, step_limit(self.max_moves), diagonal_directions())
    }

    fn generate_moves(&self, _chess_board: &ChessBoard, source: SquareIndex) -> (moves: Vec<
        ChessMove,
    >) {
        let directions: [(i8, i8); 4] = [(1, 1), (1, -1), (-1, 1), (-1, -1)];
        assert(directions@ =~= diagonal_directions());
        generate_moves(source, self.max_moves, directions.as_slice())
    }
}

/// Leaps as a knight does.
#[derive(Clone, Copy, Debug)]
pub struct JumpingMoves {
    pub max_moves: u8,
}

impl JumpingMoves {
    /// A generator whose rays stop after `max_moves` steps; see
    /// [`step_limit`] for zero.
    pub fn new(max_moves: u8) -> (generator: Self)
        ensures
            generator.max_moves == max_moves,
    {
        Self { max_moves }
    }
}

impl MoveGenerator for JumpingMoves {
    open spec fn moves_from(&self, source: SquareIndex) -> Seq<ChessMove> {
        moves_along(source, step_limit(self.max_moves), jump_directions())
    }

    fn generate_moves(&self, _chess_board: &ChessBoard, source: SquareIndex) -> (moves: Vec<
        ChessMove,
    >) {
        let directions: [(i8, i8); 8] = [
            (1, 2),
            (-1, -2),
            (2, 1),
            (-2, -1),
            (1, -2),
            (-1, 2),
            (2, -1),
            (-2, 1),
        ];
        assert(directions@ =~= jump_directions());
        generate_moves(source, self.max_moves, directions.as_slice())
    }
}

/// One of the rules that a piece can have.
#[derive(Clone, Copy, Debug)]
pub enum PieceMoves {
    Straight(StraightSlidingMoves),
    Diagonal(DiagonalSlidingMoves),
    Jumping(JumpingMoves),
}

impl MoveGenerator for PieceMoves {
    open spec fn moves_from(&self, source: SquareIndex) -> Seq<ChessMove> {
        match *self {
            PieceMoves::Straight(generator) => generator.moves_from(source),
            PieceMoves::Diagonal(generator) => generator.moves_from(source),
            PieceMoves::Jumping(generator) => generator.moves_from(source),
        }
    }

    fn generate_moves(&self, chess_board: &ChessBoard, source: SquareIndex) -> (moves: Vec<
        ChessMove,
    >) {
        match self {
            PieceMoves::Straight(generator) => generator.generate_moves(chess_board, source),
            PieceMoves::Diagonal(generator) => generator.generate_moves(chess_board, source),
            PieceMoves::Jumping(generator) => generator.generate_moves(chess_board, source),
        }
    }
}

} // verus!
