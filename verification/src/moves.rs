use crate::error::MoveError;
use vstd::prelude::*;
use vstd::string::StrSliceExecFns;
use vstd::string::StringExecFns;

verus! {

/// A validated index into the 64-cell board, in row-major order:
/// `index = y * 8 + x` with `0 <= x, y < 8`.
#[derive(Debug, Copy, Clone, PartialEq, Eq, Hash, Structural)]
pub struct Position(pub usize);

/// A letter `a`..`h` of the regular notation, upper or lower case.
pub open spec fn is_file_letter(c: char) -> bool {
    (('a' as u32) <= (c as u32) && (c as u32) <= ('h' as u32)) || (('A' as u32) <= (c as u32)
        && (c as u32) <= ('H' as u32))
}

/// A lower-case letter `a`..`h`: the only case the parser accepts for the
/// column of the cell it returns.
pub open spec fn is_lower_file_letter(c: char) -> bool {
    ('a' as u32) <= (c as u32) && (c as u32) <= ('h' as u32)
}

/// A digit `1`..`8`.
pub open spec fn is_rank_digit(c: char) -> bool {
    ('1' as u32) <= (c as u32) && (c as u32) <= ('8' as u32)
}

/// Whether the text holds, anywhere, a file letter followed by a rank
/// digit — what the parser's pattern looks for.
pub open spec fn has_coord_token(s: Seq<char>) -> bool {
    exists|i: int| 0 <= i && i + 1 < s.len() && is_file_letter(s[i]) && is_rank_digit(s[i + 1])
}

/// Relies on regex::Regex::is_match: true if and only if the pattern
/// `[A-Ha-h][1-8]` — a file letter followed by a rank digit — matches
/// anywhere in the text. The pattern is fixed and valid, so building the
/// regex cannot fail.
#[verifier::external_body]
fn coord_token_match(s: &str) -> (r: bool)
    ensures
        r == has_coord_token(s@),
{
    match regex::Regex::new(r"(?m)[A-Ha-h][1-8]") {
        Ok(pattern) => pattern.is_match(s),
        Err(_) => false,
    }
}

/// The column letter of the cell with `x` as its column index.
pub open spec fn file_char(x: int) -> char {
    if x == 0 {
        'a'
    } else if x == 1 {
        'b'
    } else if x == 2 {
        'c'
    } else if x == 3 {
        'd'
    } else if x == 4 {
        'e'
    } else if x == 5 {
        'f'
    } else if x == 6 {
        'g'
    } else {
        'h'
    }
}

/// The row digit of the cell with `y` as its row index.
pub open spec fn rank_char(y: int) -> char {
    if y == 0 {
        '1'
    } else if y == 1 {
        '2'
    } else if y == 2 {
        '3'
    } else if y == 3 {
        '4'
    } else if y == 4 {
        '5'
    } else if y == 5 {
        '6'
    } else if y == 6 {
        '7'
    } else {
        '8'
    }
}

impl Position {
    /// A position names a cell of the 8x8 board.
    pub open spec fn wf(self) -> bool {
        self.0 < 64
    }

    /// The column of the cell, `0..8`.
    pub open spec fn spec_x(self) -> int {
        self.0 as int % 8
    }

    /// The row of the cell, `0..8`.
    pub open spec fn spec_y(self) -> int {
        self.0 as int / 8
    }

    /// The two-character regular notation of the cell: column letter
    /// `a`..`h`, then row number `1`..`8`.
    pub open spec fn spec_notation(self) -> Seq<char> {
        seq![file_char(self.spec_x()), rank_char(self.spec_y())]
    }

    pub fn from_idx(idx: usize) -> (r: Self)
        requires
            idx < 64,
        ensures
            r.0 == idx,
    {
        Self(idx)
    }

    pub fn from_idx_checked(idx: usize) -> (r: Result<Self, MoveError>)
        ensures
            match r {
                Ok(p) => idx < 64 && p.0 == idx,
                Err(e) => idx >= 64 && e == MoveError::PositionOutOfRange,
            },
    {
        if idx < 64 {
            Ok(Self(idx))
        } else {
            Err(MoveError::PositionOutOfRange)
        }
    }

    pub fn from_coords(x: usize, y: usize) -> (r: Self)
        requires
            x < 8,
            y < 8,
        ensures
            r.0 == y * 8 + x,
            r.wf(),
            r.spec_x() == x,
            r.spec_y() == y,
    {
        proof {
            vstd::arithmetic::div_mod::lemma_fundamental_div_mod_converse(
                (y * 8 + x) as int,
                8,
                y as int,
                x as int,
            );
        }
        Self(y * 8 + x)
    }

    pub fn from_coords_checked(x: isize, y: isize) -> (r: Result<Self, MoveError>)
        ensures
            match r {
                Ok(p) => 0 <= x < 8 && 0 <= y < 8 && p.0 == y * 8 + x,
                Err(e) => !(0 <= x < 8 && 0 <= y < 8) && e == MoveError::PositionOutOfRange,
            },
    {
        if 0 <= x && x < 8 && 0 <= y && y < 8 {
            Ok(Self::from_coords(x as usize, y as usize))
        } else {
            Err(MoveError::PositionOutOfRange)
        }
    }

    /// Parses a cell from text such as `e3`. The text is accepted when its
    /// first two characters are a lower-case file letter and a rank digit;
    /// the pattern test alone admits upper-case letters anywhere in the
    /// text, but the cell is always read from the first two characters.
    pub fn from_str(s: &str) -> (r: Result<Self, MoveError>)
        ensures
            match r {
                Ok(p) => s@.len() >= 2 && is_lower_file_letter(s@[0]) && is_rank_digit(s@[1])
                    && p.0 as int == (s@[1] as int - 49) * 8 + (s@[0] as int - 97) && p.wf(),
                Err(e) => e == MoveError::PositionOutOfRange && !(s@.len() >= 2
                    && is_lower_file_letter(s@[0]) && is_rank_digit(s@[1])),
            },
    {
        if !coord_token_match(s) {
            proof {
                if s@.len() >= 2 && is_lower_file_letter(s@[0]) && is_rank_digit(s@[1]) {
                    assert(is_file_letter(s@[0]) && is_rank_digit(s@[0int + 1]));
                    assert(has_coord_token(s@));
                }
            }
            return Err(MoveError::PositionOutOfRange);
        }
        proof {
            let i = choose|i: int|
                0 <= i && i + 1 < s@.len() && is_file_letter(s@[i]) && is_rank_digit(s@[i + 1]);
            assert(s@.len() >= 2);
        }
        let c0 = s.get_char(0);
        let c1 = s.get_char(1);
        let c0v = c0 as u32;
        let c1v = c1 as u32;
        if 97 <= c0v && c0v <= 104 && 49 <= c1v && c1v <= 56 {
            let x = (c0v - 97) as usize;
            let y = (c1v - 49) as usize;
            Ok(Self::from_coords(x, y))
        } else {
            Err(MoveError::PositionOutOfRange)
        }
    }

    pub fn idx(&self) -> (r: usize)
        ensures
            r == self.0,
    {
        self.0
    }

    pub fn coords(&self) -> (r: (usize, usize))
        ensures
            r.0 == self.spec_x(),
            r.1 == self.spec_y(),
            self.wf() ==> r.0 < 8 && r.1 < 8,
    {
        (self.0 % 8, self.0 / 8)
    }

    /// The cell's regular notation, `a1` through `h8`.
    pub fn notation(&self) -> (r: String)
        requires
            self.wf(),
        ensures
            r@ == self.spec_notation(),
    {
        let (x, y) = self.coords();
        let files = "abcdefgh";
        let ranks = "12345678";
        proof {
            reveal_strlit("abcdefgh");
            reveal_strlit("12345678");
            assert(files@[x as int] == file_char(x as int));
            assert(ranks@[y as int] == rank_char(y as int));
        }
        let file = files.substring_char(x, x + 1);
        let rank = ranks.substring_char(y, y + 1);
        let mut out = String::from_str(file);
        out.append(rank);
        proof {
            assert(out@ =~= self.spec_notation());
        }
        out
    }
}

/// The round trip of the coordinate mapping: a position built from
/// in-range coordinates reads those same coordinates back.
pub proof fn lemma_from_coords_to_coords(x: int, y: int)
    requires
        0 <= x < 8,
        0 <= y < 8,
    ensures
        (y * 8 + x) % 8 == x,
        (y * 8 + x) / 8 == y,
{
    vstd::arithmetic::div_mod::lemma_fundamental_div_mod_converse(y * 8 + x, 8, y, x);
}

/// An ordered pair of cells: where a piece stands and where it is asked
/// to go. Whether the pair makes sense on a given board is decided at
/// validation time, not at construction.
#[derive(Debug, Copy, Clone, PartialEq, Eq, Hash, Structural)]
pub struct Move {
    pub from: Position,
    pub to: Position,
}

impl Move {
    pub open spec fn wf(self) -> bool {
        self.from.wf() && self.to.wf()
    }

    /// The change of column and of row from origin to destination.
    pub open spec fn spec_dx(self) -> int {
        self.to.spec_x() - self.from.spec_x()
    }

    pub open spec fn spec_dy(self) -> int {
        self.to.spec_y() - self.from.spec_y()
    }

    pub fn new(from: usize, to: usize) -> (r: Self)
        requires
            from < 64,
            to < 64,
        ensures
            r.from.0 == from,
            r.to.0 == to,
            r.wf(),
    {
        Self { from: Position(from), to: Position(to) }
    }

    pub fn from_positions(from: Position, to: Position) -> (r: Self)
        ensures
            r.from == from,
            r.to == to,
    {
        Self { from, to }
    }

    pub fn delta(&self) -> (r: (isize, isize))
        requires
            self.wf(),
        ensures
            r.0 as int == self.spec_dx(),
            r.1 as int == self.spec_dy(),
    {
        let (fx, fy) = self.from.coords();
        let (tx, ty) = self.to.coords();
        (tx as isize - fx as isize, ty as isize - fy as isize)
    }

    pub fn from(&self) -> (r: Position)
        ensures
            r == self.from,
    {
        self.from
    }

    pub fn to(&self) -> (r: Position)
        ensures
            r == self.to,
    {
        self.to
    }
}

} // verus!
