//! Where rays lead. The move number `k` of a ray ends `k + 1` steps from
//! the source, and a ray ends only at its limit or at the edge of the
//! board. The rays of a piece lead apart, so that no piece is offered the
//! same square twice.

use vstd::prelude::*;
use crate::chess_board::{SquareIndex, file_of, on_board, rank_of, square_at};
use crate::chess_move::{
    ChessMove, DiagonalSlidingMoves, MoveGenerator, StraightSlidingMoves, diagonal_directions,
    jump_directions, moves_along, ray_from, ray_moves, straight_directions,
};
use crate::piece::piece_moves;

verus! {

/// How far `steps` steps in a direction lead, in files and in ranks.
pub open spec fn offset(direction: (i8, i8), steps: int) -> (int, int) {
    (steps * direction.0, steps * direction.1)
}

/// Whether `steps` steps from `source` in a direction end on the board.
pub open spec fn lands_on_board(source: SquareIndex, direction: (i8, i8), steps: int) -> bool {
    on_board(
        file_of(source as int) + offset(direction, steps).0,
        rank_of(source as int) + offset(direction, steps).1,
    )
}

/// Whether a move is the one that takes `steps` steps from `source` in a
/// direction, and ends on the board.
pub open spec fn is_step(m: ChessMove, source: SquareIndex, direction: (i8, i8), steps: int) -> bool {
    let file = file_of(source as int) + offset(direction, steps).0;
    let rank = rank_of(source as int) + offset(direction, steps).1;
    m.source == source && lands_on_board(source, direction, steps) && m.destination == square_at(
        file,
        rank,
    )
}

/// Whether a move takes some number of steps, from 1 to `limit`, from
/// `source` in one of `directions`.
pub open spec fn is_step_along(
    m: ChessMove,
    source: SquareIndex,
    limit: nat,
    directions: Seq<(i8, i8)>,
) -> bool {
    exists|i: int, j: int|
        0 <= i < directions.len() && 1 <= j <= limit && #[trigger] is_step(
            m,
            source,
            directions[i],
            j,
        )
}

/// Whether the rays in `directions` lead apart within `limit` steps: no two
/// different rays, and no two different numbers of steps on one ray, lead
/// equally far.
pub open spec fn lead_apart(directions: Seq<(i8, i8)>, limit: nat) -> bool {
    forall|i1: int, i2: int, j1: int, j2: int|
        0 <= i1 < directions.len() && 0 <= i2 < directions.len() && 1 <= j1 <= limit && 1 <= j2
            <= limit && #[trigger] offset(directions[i1], j1) == #[trigger] offset(
            directions[i2],
            j2,
        ) ==> i1 == i2 && j1 == j2
}

/// Whether no two moves of a list end on the same square.
pub open spec fn distinct_destinations(moves: Seq<ChessMove>) -> bool {
    forall|k1: int, k2: int|
        0 <= k1 < moves.len() && 0 <= k2 < moves.len() && k1 != k2 ==> (#[trigger] moves[k1]).destination
            != (#[trigger] moves[k2]).destination
}

/// The move number `k` of a ray is the one that takes `k + 1` steps, and a
/// ray that is shorter than its limit ends because one more step would
/// leave the board.
pub proof fn lemma_ray_steps(source: SquareIndex, direction: (i8, i8), limit: nat)
    ensures
        ray_from(source, direction, limit).len() <= limit,
        forall|k: int|
            0 <= k < ray_from(source, direction, limit).len() ==> is_step(
                #[trigger] ray_from(source, direction, limit)[k],
                source,
                direction,
                k + 1,
            ),
        ray_from(source, direction, limit).len() < limit ==> !lands_on_board(
            source,
            direction,
            ray_from(source, direction, limit).len() as int + 1,
        ),
{
    lemma_ray_steps_from(source, direction, 0, limit);
    let file = file_of(source as int);
    let rank = rank_of(source as int);
    let ray = ray_from(source, direction, limit);
    assert(offset(direction, 0) == (0int, 0int));
    assert forall|k: int| 0 <= k < ray.len() implies is_step(
        #[trigger] ray[k],
        source,
        direction,
        k + 1,
    ) by {
        assert(is_step(ray[k], source, direction, 0 + k + 1));
    }
}

/// The same of the rest of a ray, after `taken` steps.
proof fn lemma_ray_steps_from(source: SquareIndex, direction: (i8, i8), taken: int, limit: nat)
    ensures
        ray_moves(
            source,
            file_of(source as int) + offset(direction, taken).0,
            rank_of(source as int) + offset(direction, taken).1,
            direction.0 as int,
            direction.1 as int,
            limit,
        ).len() <= limit,
        forall|k: int|
            0 <= k < ray_moves(
                source,
                file_of(source as int) + offset(direction, taken).0,
                rank_of(source as int) + offset(direction, taken).1,
                direction.0 as int,
                direction.1 as int,
                limit,
            ).len() ==> is_step(
                #[trigger] ray_moves(
                    source,
                    file_of(source as int) + offset(direction, taken).0,
                    rank_of(source as int) + offset(direction, taken).1,
                    direction.0 as int,
                    direction.1 as int,
                    limit,
                )[k],
                source,
                direction,
                taken + k + 1,
            ),
        ray_moves(
            source,
            file_of(source as int) + offset(direction, taken).0,
            rank_of(source as int) + offset(direction, taken).1,
            direction.0 as int,
            direction.1 as int,
            limit,
        ).len() < limit ==> !lands_on_board(
            source,
            direction,
            taken + ray_moves(
                source,
                file_of(source as int) + offset(direction, taken).0,
                rank_of(source as int) + offset(direction, taken).1,
                direction.0 as int,
                direction.1 as int,
                limit,
            ).len() + 1,
        ),
    decreases limit,
{
    let df = direction.0 as int;
    let dr = direction.1 as int;
    let file = file_of(source as int) + offset(direction, taken).0;
    let rank = rank_of(source as int) + offset(direction, taken).1;
    let ray = ray_moves(source, file, rank, df, dr, limit);
    assert(offset(direction, taken + 1) == (offset(direction, taken).0 + df, offset(
        direction,
        taken,
    ).1 + dr)) by (nonlinear_arith)
        requires
            df == direction.0,
            dr == direction.1,
    ;
    if limit == 0 || !on_board(file + df, rank + dr) {
    } else {
        lemma_ray_steps_from(source, direction, taken + 1, (limit - 1) as nat);
        let rest = ray_moves(source, file + df, rank + dr, df, dr, (limit - 1) as nat);
        assert forall|k: int| 0 <= k < ray.len() implies is_step(
            #[trigger] ray[k],
            source,
            direction,
            taken + k + 1,
        ) by {
            if k > 0 {
                assert(ray[k] == rest[k - 1]);
                assert(is_step(rest[k - 1], source, direction, taken + 1 + (k - 1) + 1));
            }
        }
    }
}

/// Each move along a list of directions takes some number of steps, from 1
/// to the limit, in one of the directions.
pub proof fn lemma_moves_are_steps(source: SquareIndex, limit: nat, directions: Seq<(i8, i8)>)
    ensures
        forall|k: int|
            0 <= k < moves_along(source, limit, directions).len() ==> is_step_along(
                #[trigger] moves_along(source, limit, directions)[k],
                source,
                limit,
                directions,
            ),
    decreases directions.len(),
{
    if directions.len() > 0 {
        let before = directions.drop_last();
        let earlier = moves_along(source, limit, before);
        let ray = ray_from(source, directions.last(), limit);
        let moves = moves_along(source, limit, directions);
        lemma_moves_are_steps(source, limit, before);
        lemma_ray_steps(source, directions.last(), limit);
        assert forall|k: int| 0 <= k < moves.len() implies is_step_along(
            #[trigger] moves[k],
            source,
            limit,
            directions,
        ) by {
            if k < earlier.len() {
                assert(moves[k] == earlier[k]);
                assert(is_step_along(earlier[k], source, limit, before));
                let (i, j) = choose|i: int, j: int|
                    0 <= i < before.len() && 1 <= j <= limit && #[trigger] is_step(
                        earlier[k],
                        source,
                        before[i],
                        j,
                    );
                assert(before[i] == directions[i]);
                assert(is_step(moves[k], source, directions[i], j));
            } else {
                let step = k - earlier.len();
                assert(moves[k] == ray[step]);
                assert(is_step(moves[k], source, directions[directions.len() - 1], step + 1));
            }
        }
    }
}

/// Rays that lead apart never meet: the moves along them end on different
/// squares.
pub proof fn lemma_rays_apart_never_meet(
    source: SquareIndex,
    limit: nat,
    directions: Seq<(i8, i8)>,
)
    requires
        lead_apart(directions, limit),
    ensures
        distinct_destinations(moves_along(source, limit, directions)),
    decreases directions.len(),
{
    if directions.len() > 0 {
        let last = directions.len() - 1;
        let earlier = moves_along(source, limit, directions.drop_last());
        let ray = ray_from(source, directions.last(), limit);
        let moves = moves_along(source, limit, directions);
        assert(lead_apart(directions.drop_last(), limit)) by {
            assert forall|i1: int, i2: int, j1: int, j2: int|
                0 <= i1 < directions.drop_last().len() && 0 <= i2 < directions.drop_last().len()
                    && 1 <= j1 <= limit && 1 <= j2 <= limit && #[trigger] offset(
                    directions.drop_last()[i1],
                    j1,
                ) == #[trigger] offset(directions.drop_last()[i2], j2) implies i1 == i2 && j1
                == j2 by {
                assert(offset(directions[i1], j1) == offset(directions[i2], j2));
            }
        }
        lemma_rays_apart_never_meet(source, limit, directions.drop_last());
        lemma_moves_are_steps(source, limit, directions.drop_last());
        lemma_ray_steps(source, directions.last(), limit);
        assert forall|k1: int, k2: int|
            0 <= k1 < moves.len() && 0 <= k2 < moves.len() && k1 != k2 implies (
        #[trigger] moves[k1]).destination != (#[trigger] moves[k2]).destination by {
            if k1 < earlier.len() && k2 < earlier.len() {
                assert(moves[k1] == earlier[k1] && moves[k2] == earlier[k2]);
            } else if k1 >= earlier.len() && k2 >= earlier.len() {
                let s1 = k1 - earlier.len();
                let s2 = k2 - earlier.len();
                assert(moves[k1] == ray[s1] && moves[k2] == ray[s2]);
                assert(is_step(ray[s1], source, directions[last], s1 + 1));
                assert(is_step(ray[s2], source, directions[last], s2 + 1));
                if ray[s1].destination == ray[s2].destination {
                    assert(offset(directions[last], s1 + 1) == offset(directions[last], s2 + 1));
                }
            } else {
                let (early, late) = if k1 < k2 {
                    (k1, k2)
                } else {
                    (k2, k1)
                };
                let s = late - earlier.len();
                assert(moves[early] == earlier[early] && moves[late] == ray[s]);
                assert(is_step(ray[s], source, directions[last], s + 1));
                assert(is_step_along(earlier[early], source, limit, directions.drop_last()));
                let (i, j) = choose|i: int, j: int|
                    0 <= i < directions.drop_last().len() && 1 <= j <= limit && #[trigger] is_step(
                        earlier[early],
                        source,
                        directions.drop_last()[i],
                        j,
                    );
                assert(directions.drop_last()[i] == directions[i]);
                if earlier[early].destination == ray[s].destination {
                    assert(offset(directions[i], j) == offset(directions[last], s + 1));
                }
            }
        }
    }
}

/// Different directions that each move at most one file and one rank a
/// step lead apart, however many steps are taken.
pub proof fn lemma_unit_directions_lead_apart(directions: Seq<(i8, i8)>, limit: nat)
    requires
        forall|i: int|
            0 <= i < directions.len() ==> -1 <= (#[trigger] directions[i]).0 <= 1 && -1
                <= directions[i].1 <= 1 && directions[i] != (0i8, 0i8),
        forall|i1: int, i2: int|
            0 <= i1 < directions.len() && 0 <= i2 < directions.len() && i1 != i2
                ==> #[trigger] directions[i1] != #[trigger] directions[i2],
    ensures
        lead_apart(directions, limit),
{
    assert forall|i1: int, i2: int, j1: int, j2: int|
        0 <= i1 < directions.len() && 0 <= i2 < directions.len() && 1 <= j1 <= limit && 1 <= j2
            <= limit && #[trigger] offset(directions[i1], j1) == #[trigger] offset(
            directions[i2],
            j2,
        ) implies i1 == i2 && j1 == j2 by {
        let d1 = directions[i1];
        let d2 = directions[i2];
        lemma_unit_step(d1.0 as int, j1);
        lemma_unit_step(d1.1 as int, j1);
        lemma_unit_step(d2.0 as int, j2);
        lemma_unit_step(d2.1 as int, j2);
        assert(d1 == d2);
    }
}

/// What a number of steps of length one, or of no length, adds up to.
proof fn lemma_unit_step(delta: int, steps: int)
    requires
        -1 <= delta <= 1,
    ensures
        delta == 1 ==> steps * delta == steps,
        delta == 0 ==> steps * delta == 0,
        delta == -1 ==> steps * delta == -steps,
{
    assert(steps * 1 == steps);
    assert(steps * 0 == 0);
    assert(steps * (-1) == -steps);
}

/// Different directions lead apart at their first step.
pub proof fn lemma_single_steps_lead_apart(directions: Seq<(i8, i8)>)
    requires
        forall|i1: int, i2: int|
            0 <= i1 < directions.len() && 0 <= i2 < directions.len() && i1 != i2
                ==> #[trigger] directions[i1] != #[trigger] directions[i2],
    ensures
        lead_apart(directions, 1),
{
    assert forall|i1: int, i2: int, j1: int, j2: int|
        0 <= i1 < directions.len() && 0 <= i2 < directions.len() && 1 <= j1 <= 1 && 1 <= j2 <= 1
            && #[trigger] offset(directions[i1], j1) == #[trigger] offset(
            directions[i2],
            j2,
        ) implies i1 == i2 && j1 == j2 by {
        assert(1 * directions[i1].0 == directions[i1].0);
        assert(1 * directions[i1].1 == directions[i1].1);
        assert(1 * directions[i2].0 == directions[i2].0);
        assert(1 * directions[i2].1 == directions[i2].1);
    }
}

/// The moves along two lists of directions, one list after the other, are
/// the moves along the first list followed by those along the second.
pub proof fn lemma_moves_along_both(
    source: SquareIndex,
    limit: nat,
    first: Seq<(i8, i8)>,
    second: Seq<(i8, i8)>,
)
    ensures
        moves_along(source, limit, first + second) == moves_along(source, limit, first)
            + moves_along(source, limit, second),
    decreases second.len(),
{
    if second.len() == 0 {
        assert(first + second =~= first);
        assert(moves_along(source, limit, first) + moves_along(source, limit, second)
            =~= moves_along(source, limit, first));
    } else {
        lemma_moves_along_both(source, limit, first, second.drop_last());
        assert((first + second).drop_last() =~= first + second.drop_last());
        assert((first + second).last() == second.last());
        assert(moves_along(source, limit, first + second) =~= moves_along(source, limit, first)
            + moves_along(source, limit, second));
    }
}

/// The moves of a queen are those of the straight slider followed by those
/// of the diagonal slider, with nothing added and nothing left out, and no
/// square is among them twice.
pub proof fn lemma_queen_moves(symbol: char, source: SquareIndex)
    requires
        symbol == 'Q' || symbol == 'q',
    ensures
        piece_moves(symbol, source) == (StraightSlidingMoves { max_moves: 7 }).moves_from(source)
            + (DiagonalSlidingMoves { max_moves: 7 }).moves_from(source),
        distinct_destinations(piece_moves(symbol, source)),
{
    lemma_piece_moves_are_distinct(symbol, source);
}

/// No piece is offered the same square twice, wherever it stands.
pub proof fn lemma_piece_moves_are_distinct(symbol: char, source: SquareIndex)
    ensures
        distinct_destinations(piece_moves(symbol, source)),
{
    let all = straight_directions() + diagonal_directions();
    if symbol == 'R' || symbol == 'r' {
        lemma_unit_directions_lead_apart(straight_directions(), 7);
        lemma_rays_apart_never_meet(source, 7, straight_directions());
    } else if symbol == 'N' || symbol == 'n' {
        lemma_single_steps_lead_apart(jump_directions());
        lemma_rays_apart_never_meet(source, 1, jump_directions());
    } else if symbol == 'B' || symbol == 'b' {
        lemma_unit_directions_lead_apart(diagonal_directions(), 7);
        lemma_rays_apart_never_meet(source, 7, diagonal_directions());
    } else if symbol == 'Q' || symbol == 'q' {
        lemma_unit_directions_lead_apart(all, 7);
        lemma_rays_apart_never_meet(source, 7, all);
        lemma_moves_along_both(source, 7, straight_directions(), diagonal_directions());
    } else if symbol == 'K' || symbol == 'k' {
        lemma_unit_directions_lead_apart(all, 1);
        lemma_rays_apart_never_meet(source, 1, all);
        lemma_moves_along_both(source, 1, straight_directions(), diagonal_directions());
    }
}

} // verus!
