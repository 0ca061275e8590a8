//! The grid world: a fixed square array of cell codes.
//!
//! Cell value 0 is passable; any other value is a wall variant.  The outer
//! ring of a well-formed map is entirely wall, so grid traversals started
//! inside the ring can never leave the grid.
use vstd::prelude::*;

verus! {

/// A square grid of cell codes, row-major.
pub struct Grid {
    /// Number of cells along each edge.
    pub side: usize,
    /// `side * side` cell codes, row `y` at `y * side .. (y + 1) * side`.
    pub cells: Vec<u8>,
}

impl Grid {
    /// Whether the coordinates name a cell of the outer ring.
    pub open spec fn on_ring(&self, x: int, y: int) -> bool {
        x == 0 || y == 0 || x == self.side - 1 || y == self.side - 1
    }

    /// A valid map: a closed arena of at least 3x3 cells whose outer ring
    /// is entirely wall.
    pub open spec fn well_formed(&self) -> bool {
        &&& 3 <= self.side <= 0x1000
        &&& self.cells@.len() == self.side * self.side
        &&& forall|x: int, y: int|
            0 <= x < self.side && 0 <= y < self.side && self.on_ring(x, y)
                ==> self.spec_cell(x, y) != 0
    }

    /// The code of the cell at column `x`, row `y`.
    pub open spec fn spec_cell(&self, x: int, y: int) -> u8 {
        self.cells@[y * self.side + x]
    }

    /// Reads the cell at column `x`, row `y`.
    pub fn cell(&self, x: usize, y: usize) -> (r: u8)
        requires
            self.well_formed(),
            x < self.side,
            y < self.side,
        ensures
            r == self.spec_cell(x as int, y as int),
    {
        proof {
            lemma_row_major_index(x as int, y as int, self.side as int);
        }
        self.cells[y * self.side + x]
    }

    /// Whether the cell at column `x`, row `y` is a wall.
    pub fn is_wall(&self, x: usize, y: usize) -> (r: bool)
        requires
            self.well_formed(),
            x < self.side,
            y < self.side,
        ensures
            r == (self.spec_cell(x as int, y as int) != 0),
    {
        self.cell(x, y) != 0
    }
}

/// A row-major index stays within a `side * side` array.
proof fn lemma_row_major_index(x: int, y: int, side: int)
    requires
        0 <= x < side,
        0 <= y < side,
        side <= 0x1000,
    ensures
        0 <= y * side + x < side * side,
        y * side + x < 0x100_0000,
{
    assert(0 <= y * side + x < side * side && side * side <= 0x100_0000) by (nonlinear_arith)
        requires
            0 <= x < side,
            0 <= y < side,
            side <= 0x1000,
    ;
}

/// The cell codes of the reference arena: an 8x8 grid with a closed ring
/// of walls of variant 1 and one interior wall of variant 2.
pub open spec fn arena_cells() -> Seq<u8> {
    seq![
        1u8, 1, 1, 1, 1, 1, 1, 1,
        1, 0, 0, 0, 0, 0, 0, 1,
        1, 0, 0, 0, 0, 2, 0, 1,
        1, 0, 0, 0, 0, 0, 0, 1,
        1, 0, 0, 0, 0, 0, 0, 1,
        1, 0, 0, 0, 0, 0, 0, 1,
        1, 0, 0, 0, 0, 0, 0, 1,
        1, 1, 1, 1, 1, 1, 1, 1,
    ]
}

/// Builds the reference arena.
pub fn reference_arena() -> (m: Grid)
    ensures
        m.well_formed(),
        m.side == 8,
        m.cells@ == arena_cells(),
{
    let cells: Vec<u8> = vec![
        1u8, 1, 1, 1, 1, 1, 1, 1,
        1, 0, 0, 0, 0, 0, 0, 1,
        1, 0, 0, 0, 0, 2, 0, 1,
        1, 0, 0, 0, 0, 0, 0, 1,
        1, 0, 0, 0, 0, 0, 0, 1,
        1, 0, 0, 0, 0, 0, 0, 1,
        1, 0, 0, 0, 0, 0, 0, 1,
        1, 1, 1, 1, 1, 1, 1, 1,
    ];
    let m = Grid { side: 8, cells };
    proof {
        assert(m.cells@ =~= arena_cells());
        assert forall|x: int, y: int|
            0 <= x < m.side && 0 <= y < m.side && m.on_ring(x, y) implies m.spec_cell(x, y)
            != 0 by {
            assert(m.spec_cell(x, y) == arena_cells()[y * 8 + x]);
        };
    }
    m
}

} // verus!
