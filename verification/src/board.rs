//! The playing surface: an eight by eight grid of cells, the two colours, and
//! the single rule a move is held to (the source cell must hold a piece of the
//! mover's colour).

use crate::command::Move;
use crate::text::{chars_of, stands_at};
use vstd::prelude::*;
use vstd::string::*;

verus! {

/// Edge of one cell on screen, in pixels.
pub const CELL_SIZE: u8 = 30;

/// Number of cells along each edge of the board.
pub const BOARD_SIZE: u8 = 8;

/// Edge of the whole board on screen, in pixels.
pub const SCREEN_SIZE: u32 = 240;

#[derive(Clone, Copy, Debug, PartialEq, Eq, Structural)]
pub enum Colour {
    White,
    Black,
}

impl Colour {
    /// The opposite colour.
    pub open spec fn flipped(self) -> Colour {
        match self {
            Colour::White => Colour::Black,
            Colour::Black => Colour::White,
        }
    }

    /// The name a colour goes by on the wire.
    pub open spec fn label(self) -> Seq<char> {
        match self {
            Colour::White => "White"@,
            Colour::Black => "Black"@,
        }
    }

    /// The colour a name stands for, if any.
    pub open spec fn named(s: Seq<char>) -> Option<Colour> {
        if s == "White"@ {
            Some(Colour::White)
        } else if s == "Black"@ {
            Some(Colour::Black)
        } else {
            None
        }
    }

    /// The name this colour goes by on the wire.
    pub fn name(&self) -> (r: &'static str)
        ensures
            r@ == self.label(),
    {
        match *self {
            Colour::White => "White",
            Colour::Black => "Black",
        }
    }

    pub fn other(&self) -> (r: Colour)
        ensures
            r == self.flipped(),
    {
        match *self {
            Colour::White => Colour::Black,
            Colour::Black => Colour::White,
        }
    }
}

impl core::str::FromStr for Colour {
    type Err = ();

    /// The colour that goes by the name `s`.
    fn from_str(s: &str) -> (r: Result<Colour, ()>)
        ensures
            r is Ok <==> Colour::named(s@) is Some,
            r is Ok ==> Some(r.unwrap()) == Colour::named(s@),
    {
        let chars = chars_of(s);
        proof {
            reveal_strlit("White");
            reveal_strlit("Black");
        }
        if chars.len() == 5 && stands_at(&chars, 0, "White") {
            assert(chars@.subrange(0, 5) =~= chars@);
            Ok(Colour::White)
        } else if chars.len() == 5 && stands_at(&chars, 0, "Black") {
            Ok(Colour::Black)
        } else {
            assert(chars@.len() == 5 ==> chars@.subrange(0, 5) =~= chars@);
            Err(())
        }
    }
}

/// Flipping a colour twice gives it back, and never leaves it as it was.
pub proof fn lemma_flip_involution(c: Colour)
    ensures
        c.flipped().flipped() == c,
        c.flipped() != c,
{
}

#[derive(Clone, Copy, Debug, PartialEq, Eq, Structural)]
pub struct Cell {
    pub has_piece: bool,
    pub colour: Colour,
}

impl Cell {
    pub open spec fn empty() -> Cell {
        Cell { has_piece: false, colour: Colour::White }
    }

    pub open spec fn piece(colour: Colour) -> Cell {
        Cell { has_piece: true, colour }
    }

    pub fn white() -> (r: Cell)
        ensures
            r == Cell::piece(Colour::White),
    {
        Cell { has_piece: true, colour: Colour::White }
    }

    pub fn black() -> (r: Cell)
        ensures
            r == Cell::piece(Colour::Black),
    {
        Cell { has_piece: true, colour: Colour::Black }
    }
}

impl Default for Cell {
    fn default() -> (r: Cell)
        ensures
            r == Cell::empty(),
    {
        Cell { has_piece: false, colour: Colour::White }
    }
}

/// A board as mathematics sees it: eight columns of eight cells.
pub type Grid = Seq<Seq<Cell>>;

/// Every row and column of `g` has the board's length.
pub open spec fn is_grid(g: Grid) -> bool {
    &&& g.len() == 8
    &&& forall|x: int| 0 <= x < 8 ==> (#[trigger] g[x]).len() == 8
}

/// `g` with the cell at (`x`, `y`) replaced by `c`.
pub open spec fn grid_with(g: Grid, x: int, y: int, c: Cell) -> Grid {
    g.update(x, g[x].update(y, c))
}

/// What the opening position holds at (`x`, `y`): white pieces along the two
/// border lines `x == 0` and `x == 7`, black pieces along `y == 0` and
/// `y == 7`, the four corners and the interior empty.
pub open spec fn opening_cell(x: int, y: int) -> Cell {
    if (x == 0 || x == 7) && 1 <= y <= 6 {
        Cell::piece(Colour::White)
    } else if (y == 0 || y == 7) && 1 <= x <= 6 {
        Cell::piece(Colour::Black)
    } else {
        Cell::empty()
    }
}

/// The opening position.
pub open spec fn opening_grid() -> Grid {
    Seq::new(8, |x: int| Seq::new(8, |y: int| opening_cell(x, y)))
}

/// Whether `mov` may be played on `g` by `colour`, and if not, why.
pub open spec fn move_verdict(g: Grid, mov: Move, colour: Colour) -> Result<(), MoveErr> {
    let source = g[mov.sx as int][mov.sy as int];
    if !source.has_piece {
        Err(MoveErr::NoPiece)
    } else if source.colour != colour {
        Err(MoveErr::WrongPiece)
    } else {
        Ok(())
    }
}

/// `g` after the piece at the source of `mov` has been carried to its
/// destination. The source is emptied last, so a move onto its own source
/// leaves that cell empty.
pub open spec fn grid_after_move(g: Grid, mov: Move) -> Grid {
    let lifted = g[mov.sx as int][mov.sy as int];
    let placed = grid_with(g, mov.dx as int, mov.dy as int, lifted);
    grid_with(placed, mov.sx as int, mov.sy as int, Cell::empty())
}

/// `g` after `colour` has tried `mov`: changed if the move is allowed,
/// untouched otherwise.
pub open spec fn grid_after_attempt(g: Grid, mov: Move, colour: Colour) -> Grid {
    if move_verdict(g, mov, colour) is Ok {
        grid_after_move(g, mov)
    } else {
        g
    }
}

pub struct Board {
    pub cells: [[Cell; 8]; 8],
}

#[derive(Clone, Copy, Debug, PartialEq, Eq, Structural)]
pub enum MoveErr {
    NoPiece,
    WrongPiece,
}

impl View for Board {
    type V = Grid;

    open spec fn view(&self) -> Grid {
        Seq::new(8, |x: int| Seq::new(8, |y: int| self.cells@[x]@[y]))
    }
}

impl Board {
    /// The cell at (`x`, `y`).
    pub open spec fn at(&self, x: int, y: int) -> Cell {
        self.cells@[x]@[y]
    }

    /// Overwrites the cell at (`x`, `y`) and no other.
    fn place(&mut self, x: usize, y: usize, c: Cell)
        requires
            x < 8,
            y < 8,
        ensures
            forall|i: int, j: int|
                0 <= i < 8 && 0 <= j < 8 ==> #[trigger] final(self).at(i, j) == if i == x
                    && j == y {
                    c
                } else {
                    old(self).at(i, j)
                },
    {
        self.cells[x][y] = c;
    }

    pub fn new() -> (board: Board)
        ensures
            board@ == opening_grid(),
    {
        let mut board = Board { cells: [[Cell::default(); 8]; 8] };
        let mut i: usize = 1;
        while i < 7
            invariant
                1 <= i <= 7,
                forall|x: int, y: int|
                    0 <= x < 8 && 0 <= y < 8 ==> #[trigger] board.at(x, y) == if (x == 0 || x == 7)
                        && 1 <= y < i {
                        Cell::piece(Colour::White)
                    } else if (y == 0 || y == 7) && 1 <= x < i {
                        Cell::piece(Colour::Black)
                    } else {
                        Cell::empty()
                    },
            decreases 7 - i,
        {
            board.place(7, i, Cell::white());
            board.place(0, i, Cell::white());
            board.place(i, 7, Cell::black());
            board.place(i, 0, Cell::black());
            i += 1;
        }
        proof {
            assert forall|x: int| 0 <= x < 8 implies #[trigger] board@[x] == opening_grid()[x] by {
                assert forall|y: int| 0 <= y < 8 implies board@[x][y] == opening_grid()[x][y] by {
                    assert(board@[x][y] == board.at(x, y));
                }
                assert(board@[x] =~= opening_grid()[x]);
            }
            assert(board@ =~= opening_grid());
        }
        board
    }

    pub fn move_piece(&mut self, mov: &Move, player_colour: &Colour) -> (r: Result<(), MoveErr>)
        requires
            mov.in_bounds(),
        ensures
            r == move_verdict(old(self)@, *mov, *player_colour),
            final(self)@ == grid_after_attempt(old(self)@, *mov, *player_colour),
    {
        let sx = mov.sx as usize;
        let sy = mov.sy as usize;
        let dx = mov.dx as usize;
        let dy = mov.dy as usize;
        let source = self.cells[sx][sy];
        if !source.has_piece {
            Err(MoveErr::NoPiece)
        } else if source.colour != *player_colour {
            Err(MoveErr::WrongPiece)
        } else {
            self.cells[dx][dy] = source;
            self.cells[sx][sy] = Cell::default();
            proof {
                let want = grid_after_move(old(self)@, *mov);
                assert forall|x: int| 0 <= x < 8 implies #[trigger] self@[x] == want[x] by {
                    assert(self@[x] =~= want[x]);
                }
                assert(self@ =~= want);
            }
            Ok(())
        }
    }

    pub fn colour_at(&self, x: usize, y: usize) -> (r: Colour)
        requires
            x < 8,
            y < 8,
        ensures
            r == self@[x as int][y as int].colour,
    {
        self.cells[x][y].colour
    }

    /// The whole cell at (`x`, `y`): whether a piece stands there, and whose.
    pub fn cell_at(&self, x: usize, y: usize) -> (r: Cell)
        requires
            x < 8,
            y < 8,
        ensures
            r == self@[x as int][y as int],
    {
        self.cells[x][y]
    }
}

/// Every board is eight cells by eight.
pub proof fn lemma_board_is_grid(b: Board)
    ensures
        is_grid(b@),
{
}

/// A move from an empty cell is refused for want of a piece, one from a cell
/// of the other colour as the wrong piece, and either way the board is left
/// as it was.
pub proof fn lemma_refused_move(g: Grid, mov: Move, colour: Colour)
    requires
        is_grid(g),
        mov.in_bounds(),
    ensures
        ({
            let source = g[mov.sx as int][mov.sy as int];
            let verdict = move_verdict(g, mov, colour);
            &&& !source.has_piece ==> verdict == Err::<(), MoveErr>(MoveErr::NoPiece)
            &&& source.has_piece && source.colour != colour ==> verdict == Err::<(), MoveErr>(
                MoveErr::WrongPiece,
            )
            &&& verdict is Err ==> grid_after_attempt(g, mov, colour) == g
        }),
{
}

/// After an allowed move between two different cells the destination holds a
/// piece of the mover's colour, the source is empty, and no other cell has
/// changed.
pub proof fn lemma_allowed_move(g: Grid, mov: Move, colour: Colour)
    requires
        is_grid(g),
        mov.in_bounds(),
        move_verdict(g, mov, colour) is Ok,
        mov.sx != mov.dx || mov.sy != mov.dy,
    ensures
        grid_after_attempt(g, mov, colour)[mov.dx as int][mov.dy as int] == Cell::piece(colour),
        !grid_after_attempt(g, mov, colour)[mov.sx as int][mov.sy as int].has_piece,
        is_grid(grid_after_attempt(g, mov, colour)),
        forall|x: int, y: int|
            0 <= x < 8 && 0 <= y < 8 && !(x == mov.sx && y == mov.sy) && !(x == mov.dx && y
                == mov.dy) ==> #[trigger] grid_after_attempt(g, mov, colour)[x][y] == g[x][y],
{
}

} // verus!
