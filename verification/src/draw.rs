//! What a board looks like: a square for every cell and a disc for every
//! piece, as a list of shapes for whoever owns a screen to paint.

use crate::board::{Board, Colour, Grid, CELL_SIZE};
use vstd::prelude::*;

verus! {

/// One shape to paint. Places and sizes are in pixels; a place is that of
/// the shape's upper left corner.
#[derive(Clone, Copy, Debug, PartialEq, Eq, Structural)]
pub enum Shape {
    /// The outline of a cell.
    Square { x: u32, y: u32, side: u32 },
    /// A piece.
    Disc { x: u32, y: u32, radius: u32, colour: Colour },
}

/// The shapes painted so far, the first painted first.
pub struct Canvas {
    pub shapes: Vec<Shape>,
}

pub trait Drawable {
    fn draw(&self, window: &mut Canvas) -> Result<(), String>;
}

/// The shapes of the cell at (`x`, `y`): its outline, and over it the piece
/// that stands there, if one does.
pub open spec fn cell_shapes(g: Grid, x: int, y: int) -> Seq<Shape> {
    let left = (x * 30) as u32;
    let top = (y * 30) as u32;
    let outline = Shape::Square { x: left, y: top, side: 30 };
    if g[x][y].has_piece {
        seq![outline, Shape::Disc { x: left, y: top, radius: 15, colour: g[x][y].colour }]
    } else {
        seq![outline]
    }
}

/// The shapes of the first `n` cells, counted down the first column, then
/// down the second, and so on.
pub open spec fn shapes_of_cells(g: Grid, n: nat) -> Seq<Shape>
    decreases n,
{
    if n == 0 {
        Seq::empty()
    } else {
        shapes_of_cells(g, (n - 1) as nat) + cell_shapes(g, (n - 1) / 8, (n - 1) % 8)
    }
}

/// The shapes of the whole board.
pub open spec fn board_shapes(g: Grid) -> Seq<Shape> {
    shapes_of_cells(g, 64)
}

impl Canvas {
    pub fn new() -> (canvas: Canvas)
        ensures
            canvas.shapes@ == Seq::<Shape>::empty(),
    {
        Canvas { shapes: Vec::new() }
    }
}

impl Drawable for Board {
    /// Paints the board over what `window` holds.
    fn draw(&self, window: &mut Canvas) -> (r: Result<(), String>)
        ensures
            r is Ok,
            final(window).shapes@ == old(window).shapes@ + board_shapes(self@),
    {
        let side: u32 = CELL_SIZE as u32;
        let radius: u32 = (CELL_SIZE / 2) as u32;
        let mut ri: usize = 0;
        while ri < 8
            invariant
                ri <= 8,
                side == 30,
                radius == 15,
                window.shapes@ == old(window).shapes@ + shapes_of_cells(self@, (ri * 8) as nat),
            decreases 8 - ri,
        {
            let mut ci: usize = 0;
            while ci < 8
                invariant
                    ri < 8,
                    ci <= 8,
                    side == 30,
                    radius == 15,
                    window.shapes@ == old(window).shapes@ + shapes_of_cells(
                        self@,
                        (ri * 8 + ci) as nat,
                    ),
                decreases 8 - ci,
            {
                let ghost n = (ri * 8 + ci + 1) as nat;
                let ghost painted = window.shapes@;
                let x: u32 = (ri as u32) * side;
                let y: u32 = (ci as u32) * side;
                window.shapes.push(Shape::Square { x, y, side });
                let cell = self.cell_at(ri, ci);
                if cell.has_piece {
                    window.shapes.push(Shape::Disc { x, y, radius, colour: cell.colour });
                }
                proof {
                    assert((n - 1) / 8 == ri && (n - 1) % 8 == ci);
                    assert(window.shapes@ =~= painted + cell_shapes(self@, ri as int, ci as int));
                    assert(window.shapes@ =~= old(window).shapes@ + shapes_of_cells(self@, n));
                }
                ci += 1;
            }
            ri += 1;
        }
        Ok(())
    }
}

/// Every cell is outlined whether a piece stands on it or not, so a board
/// is painted in no fewer than sixty-four shapes and no more than twice that.
pub proof fn lemma_shape_count(g: Grid, n: nat)
    ensures
        n <= shapes_of_cells(g, n).len() <= 2 * n,
    decreases n,
{
    if n > 0 {
        lemma_shape_count(g, (n - 1) as nat);
    }
}

} // verus!
