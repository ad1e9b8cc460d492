//! The neighbor test: whether an occupancy set holds any of the up-to-8
//! grid neighbors of a square.

use vstd::prelude::*;

use crate::engine::BitBoard;
use crate::square::{Direction, Square};

verus! {

/// The eight one-step directions, in the order the neighbor test walks
/// them.
pub open spec fn neighbor_directions() -> Seq<Direction> {
    seq![
        Direction::UpLeft,
        Direction::Up,
        Direction::UpRight,
        Direction::Left,
        Direction::Right,
        Direction::DownLeft,
        Direction::Down,
        Direction::DownRight,
    ]
}

/// Whether the neighbor of `square` along `dir` exists and is in `board`.
pub open spec fn neighbor_one(board: BitBoard, square: Square, dir: Direction) -> bool {
    match square.spec_add_dir(dir) {
        Some(n) => board.spec_is_set(n.idx()),
        None => false,
    }
}

/// Whether any of the first `n` neighbor directions hits `board`.
pub open spec fn neighbor_upto(board: BitBoard, square: Square, n: int) -> bool
    decreases n,
{
    if n <= 0 {
        false
    } else {
        neighbor_upto(board, square, n - 1) || neighbor_one(
            board,
            square,
            neighbor_directions()[n - 1],
        )
    }
}

/// Whether `board` holds any of the up-to-8 grid neighbors of `square`.
pub open spec fn spec_has_neighbor(square: Square, board: BitBoard) -> bool {
    neighbor_upto(board, square, 8)
}

/// Tests whether `board` occupies any of the grid neighbors of `square`.
#[verifier::loop_isolation(false)]
pub fn has_neighbor(square: Square, board: BitBoard) -> (r: bool)
    ensures
        r == spec_has_neighbor(square, board),
{
    let mut dirs: Vec<Direction> = Vec::new();
    dirs.push(Direction::UpLeft);
    dirs.push(Direction::Up);
    dirs.push(Direction::UpRight);
    dirs.push(Direction::Left);
    dirs.push(Direction::Right);
    dirs.push(Direction::DownLeft);
    dirs.push(Direction::Down);
    dirs.push(Direction::DownRight);
    proof {
        assert(dirs@ =~= neighbor_directions());
    }
    let mut found = false;
    let mut i: usize = 0;
    while i < dirs.len()
        invariant
            i <= 8,
            found == neighbor_upto(board, square, i as int),
        decreases 8 - i,
    {
        if let Some(n) = square.add_dir(dirs[i]) {
            if board.is_set(n) {
                found = true;
            }
        }
        i += 1;
    }
    found
}

} // verus!
