//! The 64 board squares and the step directions over them.
//!
//! A square is one of 64 named cells, rank-major from the top-left corner
//! of the board: `A8` is index 0, `H8` index 7, `A1` index 56, `H1` 63.
//! The spec-level model of a square is its index, an `int` in `0..64`.

use vstd::prelude::*;

verus! {

/// One cell of the board, rank-major from the top-left (`A8` = 0, `H1` = 63).
#[derive(Debug, Clone, Copy, PartialEq, Eq, Hash, Structural)]
pub enum Square {
    A8,
    B8,
    C8,
    D8,
    E8,
    F8,
    G8,
    H8,
    A7,
    B7,
    C7,
    D7,
    E7,
    F7,
    G7,
    H7,
    A6,
    B6,
    C6,
    D6,
    E6,
    F6,
    G6,
    H6,
    A5,
    B5,
    C5,
    D5,
    E5,
    F5,
    G5,
    H5,
    A4,
    B4,
    C4,
    D4,
    E4,
    F4,
    G4,
    H4,
    A3,
    B3,
    C3,
    D3,
    E3,
    F3,
    G3,
    H3,
    A2,
    B2,
    C2,
    D2,
    E2,
    F2,
    G2,
    H2,
    A1,
    B1,
    C1,
    D1,
    E1,
    F1,
    G1,
    H1,
}

impl Square {
    /// The mathematical model of a square: its index in `0..64`.
    pub open spec fn idx(self) -> int {
        match self {
            Square::A8 => 0,
            Square::B8 => 1,
            Square::C8 => 2,
            Square::D8 => 3,
            Square::E8 => 4,
            Square::F8 => 5,
            Square::G8 => 6,
            Square::H8 => 7,
            Square::A7 => 8,
            Square::B7 => 9,
            Square::C7 => 10,
            Square::D7 => 11,
            Square::E7 => 12,
            Square::F7 => 13,
            Square::G7 => 14,
            Square::H7 => 15,
            Square::A6 => 16,
            Square::B6 => 17,
            Square::C6 => 18,
            Square::D6 => 19,
            Square::E6 => 20,
            Square::F6 => 21,
            Square::G6 => 22,
            Square::H6 => 23,
            Square::A5 => 24,
            Square::B5 => 25,
            Square::C5 => 26,
            Square::D5 => 27,
            Square::E5 => 28,
            Square::F5 => 29,
            Square::G5 => 30,
            Square::H5 => 31,
            Square::A4 => 32,
            Square::B4 => 33,
            Square::C4 => 34,
            Square::D4 => 35,
            Square::E4 => 36,
            Square::F4 => 37,
            Square::G4 => 38,
            Square::H4 => 39,
            Square::A3 => 40,
            Square::B3 => 41,
            Square::C3 => 42,
            Square::D3 => 43,
            Square::E3 => 44,
            Square::F3 => 45,
            Square::G3 => 46,
            Square::H3 => 47,
            Square::A2 => 48,
            Square::B2 => 49,
            Square::C2 => 50,
            Square::D2 => 51,
            Square::E2 => 52,
            Square::F2 => 53,
            Square::G2 => 54,
            Square::H2 => 55,
            Square::A1 => 56,
            Square::B1 => 57,
            Square::C1 => 58,
            Square::D1 => 59,
            Square::E1 => 60,
            Square::F1 => 61,
            Square::G1 => 62,
            Square::H1 => 63,
        }
    }

    /// Index as an executable value.
    pub fn as_index(&self) -> (r: u8)
        ensures
            r == self.idx(),
    {
        match self {
            Square::A8 => 0,
            Square::B8 => 1,
            Square::C8 => 2,
            Square::D8 => 3,
            Square::E8 => 4,
            Square::F8 => 5,
            Square::G8 => 6,
            Square::H8 => 7,
            Square::A7 => 8,
            Square::B7 => 9,
            Square::C7 => 10,
            Square::D7 => 11,
            Square::E7 => 12,
            Square::F7 => 13,
            Square::G7 => 14,
            Square::H7 => 15,
            Square::A6 => 16,
            Square::B6 => 17,
            Square::C6 => 18,
            Square::D6 => 19,
            Square::E6 => 20,
            Square::F6 => 21,
            Square::G6 => 22,
            Square::H6 => 23,
            Square::A5 => 24,
            Square::B5 => 25,
            Square::C5 => 26,
            Square::D5 => 27,
            Square::E5 => 28,
            Square::F5 => 29,
            Square::G5 => 30,
            Square::H5 => 31,
            Square::A4 => 32,
            Square::B4 => 33,
            Square::C4 => 34,
            Square::D4 => 35,
            Square::E4 => 36,
            Square::F4 => 37,
            Square::G4 => 38,
            Square::H4 => 39,
            Square::A3 => 40,
            Square::B3 => 41,
            Square::C3 => 42,
            Square::D3 => 43,
            Square::E3 => 44,
            Square::F3 => 45,
            Square::G3 => 46,
            Square::H3 => 47,
            Square::A2 => 48,
            Square::B2 => 49,
            Square::C2 => 50,
            Square::D2 => 51,
            Square::E2 => 52,
            Square::F2 => 53,
            Square::G2 => 54,
            Square::H2 => 55,
            Square::A1 => 56,
            Square::B1 => 57,
            Square::C1 => 58,
            Square::D1 => 59,
            Square::E1 => 60,
            Square::F1 => 61,
            Square::G1 => 62,
            Square::H1 => 63,
        }
    }
}

/// The square whose index is `i`; meaningful for `0 <= i < 64`.
pub open spec fn square_of(i: int) -> Square {
    if i == 0 {
        Square::A8
    } else if i == 1 {
        Square::B8
    } else if i == 2 {
        Square::C8
    } else if i == 3 {
        Square::D8
    } else if i == 4 {
        Square::E8
    } else if i == 5 {
        Square::F8
    } else if i == 6 {
        Square::G8
    } else if i == 7 {
        Square::H8
    } else if i == 8 {
        Square::A7
    } else if i == 9 {
        Square::B7
    } else if i == 10 {
        Square::C7
    } else if i == 11 {
        Square::D7
    } else if i == 12 {
        Square::E7
    } else if i == 13 {
        Square::F7
    } else if i == 14 {
        Square::G7
    } else if i == 15 {
        Square::H7
    } else if i == 16 {
        Square::A6
    } else if i == 17 {
        Square::B6
    } else if i == 18 {
        Square::C6
    } else if i == 19 {
        Square::D6
    } else if i == 20 {
        Square::E6
    } else if i == 21 {
        Square::F6
    } else if i == 22 {
        Square::G6
    } else if i == 23 {
        Square::H6
    } else if i == 24 {
        Square::A5
    } else if i == 25 {
        Square::B5
    } else if i == 26 {
        Square::C5
    } else if i == 27 {
        Square::D5
    } else if i == 28 {
        Square::E5
    } else if i == 29 {
        Square::F5
    } else if i == 30 {
        Square::G5
    } else if i == 31 {
        Square::H5
    } else if i == 32 {
        Square::A4
    } else if i == 33 {
        Square::B4
    } else if i == 34 {
        Square::C4
    } else if i == 35 {
        Square::D4
    } else if i == 36 {
        Square::E4
    } else if i == 37 {
        Square::F4
    } else if i == 38 {
        Square::G4
    } else if i == 39 {
        Square::H4
    } else if i == 40 {
        Square::A3
    } else if i == 41 {
        Square::B3
    } else if i == 42 {
        Square::C3
    } else if i == 43 {
        Square::D3
    } else if i == 44 {
        Square::E3
    } else if i == 45 {
        Square::F3
    } else if i == 46 {
        Square::G3
    } else if i == 47 {
        Square::H3
    } else if i == 48 {
        Square::A2
    } else if i == 49 {
        Square::B2
    } else if i == 50 {
        Square::C2
    } else if i == 51 {
        Square::D2
    } else if i == 52 {
        Square::E2
    } else if i == 53 {
        Square::F2
    } else if i == 54 {
        Square::G2
    } else if i == 55 {
        Square::H2
    } else if i == 56 {
        Square::A1
    } else if i == 57 {
        Square::B1
    } else if i == 58 {
        Square::C1
    } else if i == 59 {
        Square::D1
    } else if i == 60 {
        Square::E1
    } else if i == 61 {
        Square::F1
    } else if i == 62 {
        Square::G1
    } else {
        Square::H1
    }
}

/// For an in-range index, `square_of` and `idx` invert each other.
pub proof fn lemma_square_of_idx(i: int)
    requires
        0 <= i < 64,
    ensures
        square_of(i).idx() == i,
{
}

/// Every square is the square of its own index.
pub proof fn lemma_idx_square_of(s: Square)
    ensures
        square_of(s.idx()) == s,
{
}

/// A square's index always lies in `0..64`.
pub broadcast proof fn lemma_idx_range(s: Square)
    ensures
        0 <= #[trigger] s.idx() < 64,
{
}

impl Square {
    /// Builds the square with the given index.
    pub fn from_u8(num: u8) -> (r: Square)
        requires
            num < 64,
        ensures
            r == square_of(num as int),
            r.idx() == num,
    {
        match num {
            0 => Square::A8,
            1 => Square::B8,
            2 => Square::C8,
            3 => Square::D8,
            4 => Square::E8,
            5 => Square::F8,
            6 => Square::G8,
            7 => Square::H8,
            8 => Square::A7,
            9 => Square::B7,
            10 => Square::C7,
            11 => Square::D7,
            12 => Square::E7,
            13 => Square::F7,
            14 => Square::G7,
            15 => Square::H7,
            16 => Square::A6,
            17 => Square::B6,
            18 => Square::C6,
            19 => Square::D6,
            20 => Square::E6,
            21 => Square::F6,
            22 => Square::G6,
            23 => Square::H6,
            24 => Square::A5,
            25 => Square::B5,
            26 => Square::C5,
            27 => Square::D5,
            28 => Square::E5,
            29 => Square::F5,
            30 => Square::G5,
            31 => Square::H5,
            32 => Square::A4,
            33 => Square::B4,
            34 => Square::C4,
            35 => Square::D4,
            36 => Square::E4,
            37 => Square::F4,
            38 => Square::G4,
            39 => Square::H4,
            40 => Square::A3,
            41 => Square::B3,
            42 => Square::C3,
            43 => Square::D3,
            44 => Square::E3,
            45 => Square::F3,
            46 => Square::G3,
            47 => Square::H3,
            48 => Square::A2,
            49 => Square::B2,
            50 => Square::C2,
            51 => Square::D2,
            52 => Square::E2,
            53 => Square::F2,
            54 => Square::G2,
            55 => Square::H2,
            56 => Square::A1,
            57 => Square::B1,
            58 => Square::C1,
            59 => Square::D1,
            60 => Square::E1,
            61 => Square::F1,
            62 => Square::G1,
            63 => Square::H1,
            _ => Square::A8,
        }
    }

    /// File of the square, 0 (the a-file) to 7 (the h-file).
    pub fn x(&self) -> (r: u8)
        ensures
            r == self.idx() % 8,
    {
        self.as_index() % 8
    }

    /// Rank row of the square, 0 (the eighth rank) to 7 (the first rank).
    pub fn y(&self) -> (r: u8)
        ensures
            r == self.idx() / 8,
    {
        self.as_index() / 8
    }

    /// Builds the square in file `x` of rank row `y`.
    pub fn from_xy(x: u8, y: u8) -> (r: Square)
        requires
            x < 8,
            y < 8,
        ensures
            r == square_of(y * 8 + x),
            r.idx() == y * 8 + x,
    {
        Square::from_u8(y * 8 + x)
    }

    /// Where one step in direction `dir` leads, as a spec value:
    /// `None` when the step would leave the board.
    pub open spec fn spec_add_dir(self, dir: Direction) -> Option<Square> {
        let nx = self.idx() % 8 + dir.dx();
        let ny = self.idx() / 8 + dir.dy();
        if 0 <= nx < 8 && 0 <= ny < 8 {
            Some(square_of(ny * 8 + nx))
        } else {
            None
        }
    }

    /// Steps once in direction `dir`; `None` when the step leaves the board.
    pub fn add_dir(&self, dir: Direction) -> (r: Option<Square>)
        ensures
            r == self.spec_add_dir(dir),
    {
        let (dx, dy) = dir.xy_change();
        let nx: i16 = self.x() as i16 + dx as i16;
        let ny: i16 = self.y() as i16 + dy as i16;
        if nx < 0 || nx >= 8 || ny < 0 || ny >= 8 {
            return None;
        }
        Some(Square::from_xy(nx as u8, ny as u8))
    }

    /// Steps in place; reports whether the step stayed on the board.
    pub fn apply_dir(&mut self, dir: Direction) -> (r: bool)
        ensures
            r == old(self).spec_add_dir(dir) is Some,
            *final(self) == (match old(self).spec_add_dir(dir) {
                Some(n) => n,
                None => *old(self),
            }),
    {
        if let Some(next) = self.add_dir(dir) {
            *self = next;
            true
        } else {
            false
        }
    }
}

/// A step over the grid: the eight king steps and the eight knight jumps.
#[derive(Debug, Clone, Copy, PartialEq, Eq, Structural)]
pub enum Direction {
    Up,
    UpRight,
    Right,
    DownRight,
    Down,
    DownLeft,
    Left,
    UpLeft,
    KnUpRight,
    KnRightUp,
    KnRightDown,
    KnDownRight,
    KnDownLeft,
    KnLeftDown,
    KnLeftUp,
    KnUpLeft,
}

impl Direction {
    /// File change of one step in this direction.
    pub open spec fn dx(self) -> int {
        match self {
            Direction::Up => 0,
            Direction::UpRight => 1,
            Direction::Right => 1,
            Direction::DownRight => 1,
            Direction::Down => 0,
            Direction::DownLeft => -1,
            Direction::Left => -1,
            Direction::UpLeft => -1,
            Direction::KnUpRight => 1,
            Direction::KnRightUp => 2,
            Direction::KnRightDown => 2,
            Direction::KnDownRight => 1,
            Direction::KnDownLeft => -1,
            Direction::KnLeftDown => -2,
            Direction::KnLeftUp => -2,
            Direction::KnUpLeft => -1,
        }
    }

    /// Rank-row change of one step in this direction; positive is downwards
    /// on the board (towards the first rank).
    pub open spec fn dy(self) -> int {
        match self {
            Direction::Up => -1,
            Direction::UpRight => -1,
            Direction::Right => 0,
            Direction::DownRight => 1,
            Direction::Down => 1,
            Direction::DownLeft => 1,
            Direction::Left => 0,
            Direction::UpLeft => -1,
            Direction::KnUpRight => -2,
            Direction::KnRightUp => -1,
            Direction::KnRightDown => 1,
            Direction::KnDownRight => 2,
            Direction::KnDownLeft => 2,
            Direction::KnLeftDown => 1,
            Direction::KnLeftUp => -1,
            Direction::KnUpLeft => -2,
        }
    }

    /// The (file, rank-row) change of one step in this direction.
    pub fn xy_change(&self) -> (r: (i8, i8))
        ensures
            r.0 == self.dx(),
            r.1 == self.dy(),
    {
        match self {
            Direction::Up => (0, -1),
            Direction::UpRight => (1, -1),
            Direction::Right => (1, 0),
            Direction::DownRight => (1, 1),
            Direction::Down => (0, 1),
            Direction::DownLeft => (-1, 1),
            Direction::Left => (-1, 0),
            Direction::UpLeft => (-1, -1),
            Direction::KnUpRight => (1, -2),
            Direction::KnRightUp => (2, -1),
            Direction::KnRightDown => (2, 1),
            Direction::KnDownRight => (1, 2),
            Direction::KnDownLeft => (-1, 2),
            Direction::KnLeftDown => (-2, 1),
            Direction::KnLeftUp => (-2, -1),
            Direction::KnUpLeft => (-1, -2),
        }
    }
}

} // verus!
