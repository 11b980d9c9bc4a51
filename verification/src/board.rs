use vstd::prelude::*;

use crate::player::PlayerId;
use crate::util::Vector2i;

verus! {

/// The state of one edge slot: claimed by a player (by the system player for
/// the outer wall) or still free.
#[derive(Clone, Copy, PartialEq, Eq, Structural, Debug)]
pub enum EdgeValue {
    Claimed(PlayerId),
    Unset,
}

/// A reference to one edge slot of the lattice, not the value stored there.
#[derive(Clone, Copy, PartialEq, Eq, Structural, Debug)]
pub enum Edge {
    /// A horizontal edge. A board has `width` of these per row and
    /// `height + 1` rows of them.
    Horizontal { x: u16, y: u16 },
    /// A vertical edge. A board has `width + 1` of these per row and
    /// `height` rows of them.
    Vertical { x: u16, y: u16 },
}

/// The state of one cell: claimed by a player or still open.
#[derive(Clone, Copy, PartialEq, Eq, Structural, Debug)]
pub enum Cell {
    Claimed(PlayerId),
    Unclaimed,
}

/// Largest admissible board dimension. Edge coordinates are 16-bit, so wider
/// boards would hold slots that no [`Edge`] could name, and keeping both
/// dimensions under this bound keeps every array length inside `usize`.
pub const MAX_DIMENSION: usize = 0xFFFF;

/// The mathematical model of a [`Board`]: its dimensions and its three flat
/// arrays as sequences.
pub struct BoardView {
    pub width: int,
    pub height: int,
    pub horizontal_edges: Seq<EdgeValue>,
    pub vertical_edges: Seq<EdgeValue>,
    pub cells: Seq<Cell>,
}

impl BoardView {
    /// Well-formedness: positive dimensions small enough for `usize`
    /// arithmetic, and each array length matching its sizing formula.
    pub open spec fn wf(self) -> bool {
        &&& 1 <= self.width <= MAX_DIMENSION
        &&& 1 <= self.height <= MAX_DIMENSION
        &&& self.horizontal_edges.len() == self.width * (self.height + 1)
        &&& self.vertical_edges.len() == (self.width + 1) * self.height
        &&& self.cells.len() == self.width * self.height
    }

    /// A horizontal edge coordinate names a real slot: one of `width` columns,
    /// one of `height + 1` rows.
    pub open spec fn h_ok(self, x: int, y: int) -> bool {
        0 <= x < self.width && 0 <= y <= self.height
    }

    /// A vertical edge coordinate names a real slot: one of `width + 1`
    /// columns, one of `height` rows.
    pub open spec fn v_ok(self, x: int, y: int) -> bool {
        0 <= x <= self.width && 0 <= y < self.height
    }

    /// A cell coordinate names a real cell.
    pub open spec fn cell_ok(self, x: int, y: int) -> bool {
        0 <= x < self.width && 0 <= y < self.height
    }

    /// Row-major address of a horizontal edge.
    pub open spec fn h_index(self, x: int, y: int) -> int {
        x + y * self.width
    }

    /// Row-major address of a vertical edge. The stride differs from the
    /// horizontal one: a row holds `width + 1` vertical edges.
    pub open spec fn v_index(self, x: int, y: int) -> int {
        x + y * (self.width + 1)
    }

    /// Row-major address of a cell.
    pub open spec fn cell_index(self, x: int, y: int) -> int {
        x + y * self.width
    }

    /// The value stored at a horizontal edge coordinate.
    pub open spec fn h_at(self, x: int, y: int) -> EdgeValue {
        self.horizontal_edges[self.h_index(x, y)]
    }

    /// The value stored at a vertical edge coordinate.
    pub open spec fn v_at(self, x: int, y: int) -> EdgeValue {
        self.vertical_edges[self.v_index(x, y)]
    }

    /// The value stored at a cell coordinate.
    pub open spec fn cell_at(self, x: int, y: int) -> Cell {
        self.cells[self.cell_index(x, y)]
    }

    /// The validity rule for an edge reference.
    pub open spec fn edge_ok(self, e: Edge) -> bool {
        match e {
            Edge::Horizontal { x, y } => self.h_ok(x as int, y as int),
            Edge::Vertical { x, y } => self.v_ok(x as int, y as int),
        }
    }

    /// The value stored at a (valid) edge reference.
    pub open spec fn edge_at(self, e: Edge) -> EdgeValue {
        match e {
            Edge::Horizontal { x, y } => self.h_at(x as int, y as int),
            Edge::Vertical { x, y } => self.v_at(x as int, y as int),
        }
    }

    /// The validity rule for a cell position.
    pub open spec fn pos_ok(self, pos: Vector2i) -> bool {
        self.cell_ok(pos.x as int, pos.y as int)
    }

    /// The value stored at a (valid) cell position.
    pub open spec fn pos_at(self, pos: Vector2i) -> Cell {
        self.cell_at(pos.x as int, pos.y as int)
    }

    /// An edge on the outer perimeter of the board: the top or bottom row of
    /// horizontal edges, or the leftmost or rightmost column of vertical ones.
    pub open spec fn on_boundary(self, e: Edge) -> bool {
        match e {
            Edge::Horizontal { x, y } => y == 0 || y == self.height,
            Edge::Vertical { x, y } => x == 0 || x == self.width,
        }
    }

    /// A freshly constructed board: every perimeter edge claimed by the
    /// system player, every interior edge unset, every cell unclaimed.
    pub open spec fn fresh(self) -> bool {
        &&& forall|x: int, y: int|
            self.h_ok(x, y) ==> #[trigger] self.h_at(x, y) == (if y == 0 || y == self.height {
                EdgeValue::Claimed(PlayerId::System)
            } else {
                EdgeValue::Unset
            })
        &&& forall|x: int, y: int|
            self.v_ok(x, y) ==> #[trigger] self.v_at(x, y) == (if x == 0 || x == self.width {
                EdgeValue::Claimed(PlayerId::System)
            } else {
                EdgeValue::Unset
            })
        &&& forall|x: int, y: int|
            self.cell_ok(x, y) ==> #[trigger] self.cell_at(x, y) == Cell::Unclaimed
    }

    /// The board after a successful write of `v` at edge `e`: that one slot
    /// updated, everything else as before.
    pub open spec fn with_edge(self, e: Edge, v: EdgeValue) -> BoardView {
        match e {
            Edge::Horizontal { x, y } => BoardView {
                horizontal_edges: self.horizontal_edges.update(self.h_index(x as int, y as int), v),
                ..self
            },
            Edge::Vertical { x, y } => BoardView {
                vertical_edges: self.vertical_edges.update(self.v_index(x as int, y as int), v),
                ..self
            },
        }
    }

    /// The board after a successful write of `v` at cell position `pos`.
    pub open spec fn with_cell(self, pos: Vector2i, v: Cell) -> BoardView {
        BoardView {
            cells: self.cells.update(self.cell_index(pos.x as int, pos.y as int), v),
            ..self
        }
    }
}

/// A coordinate inside a grid of `rows` rows with `stride` slots per row has
/// its row-major address inside an array of `stride * rows` entries.
proof fn lemma_rowmajor_in_range(stride: int, rows: int, x: int, y: int) by (nonlinear_arith)
    requires
        1 <= stride,
        0 <= x < stride,
        0 <= y < rows,
    ensures
        0 <= x + y * stride < stride * rows,
{
}

/// Row-major addressing is injective: two in-range coordinates with the same
/// address are the same coordinate.
proof fn lemma_rowmajor_injective(stride: int, x1: int, y1: int, x2: int, y2: int) by (nonlinear_arith)
    requires
        1 <= stride,
        0 <= x1 < stride,
        0 <= x2 < stride,
        0 <= y1,
        0 <= y2,
        x1 + y1 * stride == x2 + y2 * stride,
    ensures
        x1 == x2,
        y1 == y2,
{
}

/// The slot of the vertical edge `(x, y)` in a raw edge array of a board
/// `w` cells wide. A helper for loop invariants over an array that is still
/// being initialized, before it is wrapped in a [`Board`].
spec fn vslot(s: Seq<EdgeValue>, w: int, x: int, y: int) -> EdgeValue {
    s[x + y * (w + 1)]
}

/// A vector of `n` copies of `value`.
fn filled<T: Copy>(n: usize, value: T) -> (r: Vec<T>)
    ensures
        r@.len() == n,
        forall|i: int| 0 <= i < n ==> r@[i] == value,
{
    let mut r: Vec<T> = Vec::new();
    let mut i: usize = 0;
    while i < n
        invariant
            i <= n,
            r@.len() == i,
            forall|j: int| 0 <= j < i ==> r@[j] == value,
        decreases n - i,
    {
        r.push(value);
        i = i + 1;
    }
    r
}

/// The array sizes of a board with admissible dimensions: ordered as the
/// construction needs them, and small enough for `usize` arithmetic.
proof fn lemma_dimension_products(w: int, h: int) by (nonlinear_arith)
    requires
        1 <= w <= 0xFFFF,
        1 <= h <= 0xFFFF,
    ensures
        w <= w * h,
        w * h < w * (h + 1),
        w * (h + 1) <= 0xFFFF_0000,
        (w + 1) * h <= 0xFFFF_0000,
{
}

/// A rectangular lattice of claimable edges and cells with fixed dimensions.
/// The three arrays are flat, addressed by row-major linear formulas, and are
/// only ever touched through the bounds-checked accessors below.
pub struct Board {
    horizontal_edges: Vec<EdgeValue>,
    vertical_edges: Vec<EdgeValue>,
    cells: Vec<Cell>,
    width: usize,
    height: usize,
}

impl View for Board {
    type V = BoardView;

    closed spec fn view(&self) -> BoardView {
        BoardView {
            width: self.width as int,
            height: self.height as int,
            horizontal_edges: self.horizontal_edges@,
            vertical_edges: self.vertical_edges@,
            cells: self.cells@,
        }
    }
}

impl Board {
    /// Constructs a board with a given size: all three arrays allocated and
    /// filled with their empty sentinel, then the boundary edges — the top and
    /// bottom rows of horizontal edges and the leftmost and rightmost columns
    /// of vertical edges — marked as claimed by the system player, so that the
    /// playing field starts as a fully enclosed rectangle.
    #[verifier::loop_isolation(false)]
    pub fn with_size(width: usize, height: usize) -> (board: Board)
        requires
            1 <= width <= MAX_DIMENSION,
            1 <= height <= MAX_DIMENSION,
        ensures
            board@.wf(),
            board@.width == width,
            board@.height == height,
            board@.horizontal_edges.len() == width * (height + 1),
            board@.vertical_edges.len() == (width + 1) * height,
            board@.cells.len() == width * height,
            board@.fresh(),
    {
        proof {
            lemma_dimension_products(width as int, height as int);
        }
        let n_cells: usize = width * height;
        let n_horizontal: usize = width * (height + 1);
        let n_vertical: usize = (width + 1) * height;

        let cells = filled(n_cells, Cell::Unclaimed);
        let mut horizontal_edges = filled(n_horizontal, EdgeValue::Unset);
        let mut vertical_edges = filled(n_vertical, EdgeValue::Unset);

        // Top boundary row of horizontal edges (y == 0).
        let mut i: usize = 0;
        while i < width
            invariant
                i <= width,
                horizontal_edges@.len() == n_horizontal,
                forall|k: int| 0 <= k < i ==> horizontal_edges@[k] == (EdgeValue::Claimed(
                    PlayerId::System,
                )),
                forall|k: int| i <= k < n_horizontal ==> horizontal_edges@[k] == EdgeValue::Unset,
            decreases width - i,
        {
            horizontal_edges.set(i, EdgeValue::Claimed(PlayerId::System));
            i = i + 1;
        }

        // Bottom boundary row of horizontal edges (y == height), the index
        // range `width * height .. width * (height + 1)`.
        let mut j: usize = n_cells;
        while j < n_horizontal
            invariant
                n_cells <= j <= n_horizontal,
                horizontal_edges@.len() == n_horizontal,
                forall|k: int| 0 <= k < width ==> horizontal_edges@[k] == (EdgeValue::Claimed(
                    PlayerId::System,
                )),
                forall|k: int| width <= k < n_cells ==> horizontal_edges@[k] == EdgeValue::Unset,
                forall|k: int| n_cells <= k < j ==> horizontal_edges@[k] == (EdgeValue::Claimed(
                    PlayerId::System,
                )),
                forall|k: int| j <= k < n_horizontal ==> horizontal_edges@[k] == EdgeValue::Unset,
            decreases n_horizontal - j,
        {
            horizontal_edges.set(j, EdgeValue::Claimed(PlayerId::System));
            j = j + 1;
        }

        // Left and right boundary columns of vertical edges (x == 0 and
        // x == width), one row at a time with stride `width + 1`.
        proof {
            assert forall|x: int, y: int| 0 <= x <= width && 0 <= y < height implies #[trigger] vslot(
                vertical_edges@,
                width as int,
                x,
                y,
            ) == EdgeValue::Unset by {
                lemma_rowmajor_in_range(width as int + 1, height as int, x, y);
            }
        }
        let stride: usize = width + 1;
        let mut row: usize = 0;
        while row < height
            invariant
                row <= height,
                vertical_edges@.len() == n_vertical,
                forall|x: int, y: int|
                    0 <= x <= width && 0 <= y < height ==> #[trigger] vslot(
                        vertical_edges@,
                        width as int,
                        x,
                        y,
                    ) == (if y < row && (x == 0 || x == width) {
                        EdgeValue::Claimed(PlayerId::System)
                    } else {
                        EdgeValue::Unset
                    }),
            decreases height - row,
        {
            proof {
                lemma_rowmajor_in_range(width as int + 1, height as int, 0, row as int);
                lemma_rowmajor_in_range(width as int + 1, height as int, width as int, row as int);
            }
            let base: usize = row * stride;
            let ghost prev: Seq<EdgeValue> = vertical_edges@;
            vertical_edges.set(base, EdgeValue::Claimed(PlayerId::System));
            vertical_edges.set(base + width, EdgeValue::Claimed(PlayerId::System));
            proof {
                assert forall|x: int, y: int| 0 <= x <= width && 0 <= y < height implies #[trigger] vslot(
                    vertical_edges@,
                    width as int,
                    x,
                    y,
                ) == (if y < row + 1 && (x == 0 || x == width) {
                    EdgeValue::Claimed(PlayerId::System)
                } else {
                    EdgeValue::Unset
                }) by {
                    let idx: int = x + y * (width as int + 1);
                    lemma_rowmajor_in_range(width as int + 1, height as int, x, y);
                    assert(vslot(prev, width as int, x, y) == prev[idx]);
                    if idx == base {
                        lemma_rowmajor_injective(width as int + 1, x, y, 0, row as int);
                    } else if idx == base + width {
                        lemma_rowmajor_injective(width as int + 1, x, y, width as int, row as int);
                    }
                }
            }
            row = row + 1;
        }

        let board = Board { width, height, cells, horizontal_edges, vertical_edges };
        proof {
            assert forall|x: int, y: int| board@.h_ok(x, y) implies #[trigger] board@.h_at(x, y)
                == (if y == 0 || y == board@.height {
                EdgeValue::Claimed(PlayerId::System)
            } else {
                EdgeValue::Unset
            }) by {
                lemma_rowmajor_in_range(width as int, height as int + 1, x, y);
                if y == 0 {
                    assert(x + y * (width as int) < width) by (nonlinear_arith)
                        requires
                            y == 0,
                            x < width,
                    ;
                } else if y == height {
                    assert(x + y * (width as int) >= width * height) by (nonlinear_arith)
                        requires
                            0 <= x,
                            y == height as int,
                    ;
                } else {
                    assert(width <= x + y * (width as int)) by (nonlinear_arith)
                        requires
                            0 <= x,
                            1 <= y,
                            1 <= width,
                    ;
                    assert(x + y * (width as int) < width * height) by (nonlinear_arith)
                        requires
                            0 <= x < width,
                            0 <= y < height,
                    ;
                }
            }
            assert forall|x: int, y: int| board@.v_ok(x, y) implies #[trigger] board@.v_at(x, y)
                == (if x == 0 || x == board@.width {
                EdgeValue::Claimed(PlayerId::System)
            } else {
                EdgeValue::Unset
            }) by {
                assert(vslot(board@.vertical_edges, width as int, x, y) == board@.v_at(x, y));
            }
            assert forall|x: int, y: int| board@.cell_ok(x, y) implies #[trigger] board@.cell_at(
                x,
                y,
            ) == Cell::Unclaimed by {
                lemma_rowmajor_in_range(width as int, height as int, x, y);
            }
            assert(board@.fresh());
        }
        board
    }

    /// The board's width in cells.
    pub fn width(&self) -> (w: usize)
        ensures
            w == self@.width,
    {
        self.width
    }

    /// The board's height in cells.
    pub fn height(&self) -> (h: usize)
        ensures
            h == self@.height,
    {
        self.height
    }

    /// The number of horizontal edge slots; `width * (height + 1)` on a
    /// well-formed board.
    pub fn horizontal_edge_count(&self) -> (n: usize)
        ensures
            n == self@.horizontal_edges.len(),
    {
        self.horizontal_edges.len()
    }

    /// The number of vertical edge slots; `(width + 1) * height` on a
    /// well-formed board.
    pub fn vertical_edge_count(&self) -> (n: usize)
        ensures
            n == self@.vertical_edges.len(),
    {
        self.vertical_edges.len()
    }

    /// The number of cells; `width * height` on a well-formed board.
    pub fn cell_count(&self) -> (n: usize)
        ensures
            n == self@.cells.len(),
    {
        self.cells.len()
    }

    /// Gets the value of a given edge of the board, if it exists. Never
    /// panics: an invalid coordinate is answered with `None`.
    pub fn get_edge(&self, edge: Edge) -> (value: Option<EdgeValue>)
        requires
            self@.wf(),
        ensures
            value == (if self@.edge_ok(edge) {
                Some(self@.edge_at(edge))
            } else {
                None::<EdgeValue>
            }),
    {
        if !self.is_edge_valid(edge) {
            return None;
        }
        match edge {
            Edge::Horizontal { x, y } => {
                proof {
                    lemma_dimension_products(self@.width, self@.height);
                    lemma_rowmajor_in_range(self@.width, self@.height + 1, x as int, y as int);
                }
                Some(self.horizontal_edges[(x as usize) + (y as usize) * self.width])
            },
            Edge::Vertical { x, y } => {
                proof {
                    lemma_dimension_products(self@.width, self@.height);
                    lemma_rowmajor_in_range(self@.width + 1, self@.height, x as int, y as int);
                }
                Some(self.vertical_edges[(x as usize) + (y as usize) * (self.width + 1)])
            },
        }
    }

    /// Sets the value of a given edge of the board. Returns whether the edge
    /// was valid; on `false` nothing was written.
    pub fn set_edge(&mut self, edge: Edge, value: EdgeValue) -> (ok: bool)
        requires
            old(self)@.wf(),
        ensures
            final(self)@.wf(),
            ok == old(self)@.edge_ok(edge),
            ok ==> final(self)@ == old(self)@.with_edge(edge, value),
            !ok ==> final(self)@ == old(self)@,
    {
        if !self.is_edge_valid(edge) {
            return false;
        }
        match edge {
            Edge::Horizontal { x, y } => {
                proof {
                    lemma_dimension_products(self@.width, self@.height);
                    lemma_rowmajor_in_range(self@.width, self@.height + 1, x as int, y as int);
                }
                let i: usize = (x as usize) + (y as usize) * self.width;
                self.horizontal_edges.set(i, value);
            },
            Edge::Vertical { x, y } => {
                proof {
                    lemma_dimension_products(self@.width, self@.height);
                    lemma_rowmajor_in_range(self@.width + 1, self@.height, x as int, y as int);
                }
                let i: usize = (x as usize) + (y as usize) * (self.width + 1);
                self.vertical_edges.set(i, value);
            },
        }
        true
    }

    /// Gets the value of a given cell of the board, if it exists. Never
    /// panics: an invalid position is answered with `None`.
    pub fn get_cell(&self, pos: Vector2i) -> (value: Option<Cell>)
        requires
            self@.wf(),
        ensures
            value == (if self@.pos_ok(pos) {
                Some(self@.pos_at(pos))
            } else {
                None::<Cell>
            }),
    {
        if !self.is_cell_valid(pos) {
            return None;
        }
        proof {
            assert(pos.x as usize == pos.x as int && pos.y as usize == pos.y as int);
            lemma_dimension_products(self@.width, self@.height);
            lemma_rowmajor_in_range(self@.width, self@.height, pos.x as int, pos.y as int);
        }
        Some(self.cells[(pos.x as usize) + (pos.y as usize) * self.width])
    }

    /// Sets the value of a given cell of the board. Returns whether the
    /// position was valid; on `false` nothing was written.
    pub fn set_cell(&mut self, pos: Vector2i, value: Cell) -> (ok: bool)
        requires
            old(self)@.wf(),
        ensures
            final(self)@.wf(),
            ok == old(self)@.pos_ok(pos),
            ok ==> final(self)@ == old(self)@.with_cell(pos, value),
            !ok ==> final(self)@ == old(self)@,
    {
        if !self.is_cell_valid(pos) {
            return false;
        }
        proof {
            assert(pos.x as usize == pos.x as int && pos.y as usize == pos.y as int);
            lemma_dimension_products(self@.width, self@.height);
            lemma_rowmajor_in_range(self@.width, self@.height, pos.x as int, pos.y as int);
        }
        let i: usize = (pos.x as usize) + (pos.y as usize) * self.width;
        self.cells.set(i, value);
        true
    }

    /// Checks if a given edge is valid in this board, i.e. exists within it.
    pub fn is_edge_valid(&self, edge: Edge) -> (valid: bool)
        ensures
            valid == self@.edge_ok(edge),
    {
        match edge {
            Edge::Horizontal { x, y } => (x as usize) < self.width && (y as usize) <= self.height,
            Edge::Vertical { x, y } => (x as usize) <= self.width && (y as usize) < self.height,
        }
    }

    /// Checks if a given cell position is valid in this board, i.e. exists
    /// within it.
    pub fn is_cell_valid(&self, pos: Vector2i) -> (valid: bool)
        ensures
            valid == self@.pos_ok(pos),
    {
        pos.x >= 0 && pos.y >= 0 && (pos.x as usize) < self.width && (pos.y as usize) < self.height
    }
}

/// Law: on a freshly constructed board, every perimeter edge — each
/// `Horizontal { x, 0 }` and `Horizontal { x, height }` with `x < width`, and
/// each `Vertical { 0, y }` and `Vertical { width, y }` with `y < height` —
/// is a valid edge and reads as claimed by the system player, so `get_edge`
/// answers `Some(Claimed(System))` for all of them.
pub proof fn lemma_fresh_boundary(b: BoardView, x: u16, y: u16)
    requires
        b.wf(),
        b.fresh(),
    ensures
        x < b.width ==> b.edge_ok((Edge::Horizontal { x, y: 0 })) && b.edge_at(
            (Edge::Horizontal { x, y: 0 }),
        ) == EdgeValue::Claimed(PlayerId::System),
        x < b.width ==> b.edge_ok((Edge::Horizontal { x, y: b.height as u16 })) && b.edge_at(
            (Edge::Horizontal { x, y: b.height as u16 }),
        ) == EdgeValue::Claimed(PlayerId::System),
        y < b.height ==> b.edge_ok((Edge::Vertical { x: 0, y })) && b.edge_at(
            (Edge::Vertical { x: 0, y }),
        ) == EdgeValue::Claimed(PlayerId::System),
        y < b.height ==> b.edge_ok((Edge::Vertical { x: b.width as u16, y })) && b.edge_at(
            (Edge::Vertical { x: b.width as u16, y }),
        ) == EdgeValue::Claimed(PlayerId::System),
{
    if x < b.width {
        assert(b.h_at(x as int, 0) == EdgeValue::Claimed(PlayerId::System));
        assert(b.h_at(x as int, b.height) == EdgeValue::Claimed(PlayerId::System));
    }
    if y < b.height {
        assert(b.v_at(0, y as int) == EdgeValue::Claimed(PlayerId::System));
        assert(b.v_at(b.width, y as int) == EdgeValue::Claimed(PlayerId::System));
    }
}

/// Law: on a freshly constructed board, every valid edge off the perimeter is
/// unset and every valid cell is unclaimed, so `get_edge` answers
/// `Some(Unset)` and `get_cell` answers `Some(Unclaimed)` there.
pub proof fn lemma_fresh_interior(b: BoardView, e: Edge, pos: Vector2i)
    requires
        b.wf(),
        b.fresh(),
    ensures
        b.edge_ok(e) && !b.on_boundary(e) ==> b.edge_at(e) == EdgeValue::Unset,
        b.pos_ok(pos) ==> b.pos_at(pos) == Cell::Unclaimed,
{
    if b.edge_ok(e) && !b.on_boundary(e) {
        match e {
            Edge::Horizontal { x, y } => {
                assert(b.h_at(x as int, y as int) == EdgeValue::Unset);
            },
            Edge::Vertical { x, y } => {
                assert(b.v_at(x as int, y as int) == EdgeValue::Unset);
            },
        }
    }
    if b.pos_ok(pos) {
        assert(b.cell_at(pos.x as int, pos.y as int) == Cell::Unclaimed);
    }
}

/// Law: writing a valid edge succeeds and reading it back gives exactly the
/// value written, while every other edge, every cell and the dimensions keep
/// their values. Together with the contracts of `set_edge` and `get_edge`
/// this says: after `set_edge(e, v)` returned `true`, `get_edge(e)` answers
/// `Some(v)` and `get_edge(other)` is as before the write.
pub proof fn lemma_edge_round_trip(b: BoardView, e: Edge, v: EdgeValue, other: Edge)
    requires
        b.wf(),
        b.edge_ok(e),
    ensures
        b.with_edge(e, v).wf(),
        b.with_edge(e, v).width == b.width,
        b.with_edge(e, v).height == b.height,
        b.with_edge(e, v).edge_ok(e),
        b.with_edge(e, v).edge_at(e) == v,
        b.edge_ok(other) && other != e ==> b.with_edge(e, v).edge_at(other) == b.edge_at(other),
        b.with_edge(e, v).cells == b.cells,
{
    match e {
        Edge::Horizontal { x, y } => {
            lemma_rowmajor_in_range(b.width, b.height + 1, x as int, y as int);
        },
        Edge::Vertical { x, y } => {
            lemma_rowmajor_in_range(b.width + 1, b.height, x as int, y as int);
        },
    }
    if b.edge_ok(other) && other != e {
        match other {
            Edge::Horizontal { x, y } => {
                lemma_rowmajor_in_range(b.width, b.height + 1, x as int, y as int);
            },
            Edge::Vertical { x, y } => {
                lemma_rowmajor_in_range(b.width + 1, b.height, x as int, y as int);
            },
        }
        match (e, other) {
            (Edge::Horizontal { x: x1, y: y1 }, Edge::Horizontal { x: x2, y: y2 }) => {
                if b.h_index(x1 as int, y1 as int) == b.h_index(x2 as int, y2 as int) {
                    lemma_rowmajor_injective(b.width, x1 as int, y1 as int, x2 as int, y2 as int);
                    assert(other == e);
                }
            },
            (Edge::Vertical { x: x1, y: y1 }, Edge::Vertical { x: x2, y: y2 }) => {
                if b.v_index(x1 as int, y1 as int) == b.v_index(x2 as int, y2 as int) {
                    lemma_rowmajor_injective(
                        b.width + 1,
                        x1 as int,
                        y1 as int,
                        x2 as int,
                        y2 as int,
                    );
                    assert(other == e);
                }
            },
            _ => {},
        }
    }
}

/// Law: writing a valid cell succeeds and reading it back gives exactly the
/// value written, while every other cell, every edge and the dimensions keep
/// their values. Together with the contracts of `set_cell` and `get_cell`
/// this says: after `set_cell(pos, v)` returned `true`, `get_cell(pos)`
/// answers `Some(v)` and `get_cell(other)` is as before the write.
pub proof fn lemma_cell_round_trip(b: BoardView, pos: Vector2i, v: Cell, other: Vector2i)
    requires
        b.wf(),
        b.pos_ok(pos),
    ensures
        b.with_cell(pos, v).wf(),
        b.with_cell(pos, v).width == b.width,
        b.with_cell(pos, v).height == b.height,
        b.with_cell(pos, v).pos_ok(pos),
        b.with_cell(pos, v).pos_at(pos) == v,
        b.pos_ok(other) && other != pos ==> b.with_cell(pos, v).pos_at(other) == b.pos_at(other),
        b.with_cell(pos, v).horizontal_edges == b.horizontal_edges,
        b.with_cell(pos, v).vertical_edges == b.vertical_edges,
{
    lemma_rowmajor_in_range(b.width, b.height, pos.x as int, pos.y as int);
    if b.pos_ok(other) && other != pos {
        lemma_rowmajor_in_range(b.width, b.height, other.x as int, other.y as int);
        if b.cell_index(pos.x as int, pos.y as int) == b.cell_index(other.x as int, other.y as int) {
            lemma_rowmajor_injective(
                b.width,
                pos.x as int,
                pos.y as int,
                other.x as int,
                other.y as int,
            );
            assert(other == pos);
        }
    }
}

} // verus!
