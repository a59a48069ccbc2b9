//! The board: a rectangle of cells addressed by signed coordinates whose
//! origin lies at the centre of the rectangle.

use crate::coord::Coord;
use vstd::prelude::*;

verus! {

/// What one cell of the board holds.
#[derive(Debug, PartialEq, Eq, Copy, Clone, Structural)]
pub enum ItemType {
    Nothing,
    SnakeHead,
    SnakeBit,
    SnakeTail,
    Food,
}

impl ItemType {
    /// Whether the cell holds a segment of the snake.
    pub open spec fn is_snake(self) -> bool {
        self == ItemType::SnakeHead || self == ItemType::SnakeBit || self == ItemType::SnakeTail
    }
}

/// The cells of a board, row by row from the top, each row from the left.
pub type GridType = Vec<Vec<ItemType>>;

/// The least and the greatest coordinate along an axis of `size` cells. The
/// range is centred on 0; with an even size the extra cell lies on the
/// negative side.
pub open spec fn coordinate_range(size: int) -> (int, int) {
    if size % 2 == 0 {
        (-(size / 2), size / 2 - 1)
    } else {
        (-((size - 1) / 2), (size - 1) / 2)
    }
}

/// Whether the point `(x, y)` lies on a board that is `width` cells wide and
/// `height` cells high.
pub open spec fn on_board_at(width: int, height: int, x: int, y: int) -> bool {
    &&& coordinate_range(width).0 <= x <= coordinate_range(width).1
    &&& coordinate_range(height).0 <= y <= coordinate_range(height).1
}

/// Whether `c` lies on a board that is `width` cells wide and `height` high.
pub open spec fn on_board(width: int, height: int, c: Coord) -> bool {
    on_board_at(width, height, c.x as int, c.y as int)
}

/// A range of `size` cells holds exactly `size` coordinates, and it holds 0
/// unless it is empty.
pub proof fn lemma_coordinate_range_spans(size: int)
    requires
        0 <= size,
    ensures
        coordinate_range(size).1 - coordinate_range(size).0 + 1 == size,
        size >= 1 ==> coordinate_range(size).0 <= 0 <= coordinate_range(size).1,
        -size <= 2 * coordinate_range(size).0,
        2 * coordinate_range(size).1 <= size,
{
}

/// The least and the greatest coordinate along an axis of `size` cells.
pub fn make_coordinate_range(size: u32) -> (r: (i32, i32))
    ensures
        (r.0 as int, r.1 as int) == coordinate_range(size as int),
{
    match size % 2 {
        0 => {
            let half = (size / 2) as i32;
            (-half, half - 1)
        },
        _ => {
            let half = ((size - 1) / 2) as i32;
            (-half, half)
        },
    }
}

/// A grid of `height` rows of `width` cells, all of them empty.
pub fn init_grid(width: u32, height: u32) -> (grid: GridType)
    ensures
        grid@.len() == height,
        forall|r: int| 0 <= r < height ==> (#[trigger] grid@[r])@.len() == width,
        forall|r: int, k: int|
            0 <= r < height && 0 <= k < width ==> #[trigger] grid@[r]@[k] == ItemType::Nothing,
{
    let mut row_vec: Vec<Vec<ItemType>> = Vec::with_capacity(height as usize);
    let mut r: u32 = 0;
    while r < height
        invariant
            r <= height,
            row_vec@.len() == r,
            forall|i: int| 0 <= i < r ==> (#[trigger] row_vec@[i])@.len() == width,
            forall|i: int, k: int|
                0 <= i < r && 0 <= k < width ==> #[trigger] row_vec@[i]@[k] == ItemType::Nothing,
        decreases height - r,
    {
        let mut row: Vec<ItemType> = Vec::with_capacity(width as usize);
        let mut k: u32 = 0;
        while k < width
            invariant
                k <= width,
                row@.len() == k,
                forall|j: int| 0 <= j < k ==> row@[j] == ItemType::Nothing,
            decreases width - k,
        {
            row.push(ItemType::Nothing);
            k = k + 1;
        }
        row_vec.push(row);
        r = r + 1;
    }
    row_vec
}

/// A board together with its two coordinate systems: the signed game
/// coordinates that the rules use, and the row and column numbers of the
/// cell storage.
pub struct Grid {
    width: u32,
    height: u32,
    xrange: (i32, i32),
    yrange: (i32, i32),
    cells: GridType,
}

impl View for Grid {
    type V = Map<Coord, ItemType>;

    /// The content of every cell of the board, by game coordinate.
    closed spec fn view(&self) -> Map<Coord, ItemType> {
        Map::new(
            |c: Coord| on_board(self.width as int, self.height as int, c),
            |c: Coord| self.cells@[c.y - self.yrange.0]@[c.x - self.xrange.0],
        )
    }
}

impl Grid {
    /// Number of columns.
    pub closed spec fn spec_width(&self) -> int {
        self.width as int
    }

    /// Number of rows.
    pub closed spec fn spec_height(&self) -> int {
        self.height as int
    }

    /// The stored ranges and the cell storage agree with the dimensions.
    pub closed spec fn wf(&self) -> bool {
        &&& (self.xrange.0 as int, self.xrange.1 as int) == coordinate_range(self.width as int)
        &&& (self.yrange.0 as int, self.yrange.1 as int) == coordinate_range(self.height as int)
        &&& self.cells@.len() == self.height
        &&& forall|r: int| 0 <= r < self.height ==> (#[trigger] self.cells@[r])@.len() == self.width
    }

    /// Whether `c` is a cell of this board.
    pub open spec fn covers(&self, c: Coord) -> bool {
        on_board(self.spec_width(), self.spec_height(), c)
    }

    /// The view is defined on the cells of the board and on nothing else.
    pub proof fn lemma_view_domain(&self)
        ensures
            forall|c: Coord| #[trigger] self@.dom().contains(c) <==> self.covers(c),
    {
    }

    /// An empty board of the given size.
    pub fn new(width: u32, height: u32) -> (g: Grid)
        ensures
            g.wf(),
            g.spec_width() == width,
            g.spec_height() == height,
            forall|c: Coord| #[trigger] g@.dom().contains(c) <==> g.covers(c),
            forall|c: Coord| g.covers(c) ==> #[trigger] g@[c] == ItemType::Nothing,
    {
        Grid {
            width: width,
            height: height,
            xrange: make_coordinate_range(width),
            yrange: make_coordinate_range(height),
            cells: init_grid(width, height),
        }
    }

    /// Number of columns.
    pub fn get_width(&self) -> (w: u32)
        ensures
            w == self.spec_width(),
    {
        self.width
    }

    /// Number of rows.
    pub fn get_height(&self) -> (h: u32)
        ensures
            h == self.spec_height(),
    {
        self.height
    }

    /// The least and the greatest `x` of the board.
    pub fn get_xrange(&self) -> (r: (i32, i32))
        requires
            self.wf(),
        ensures
            (r.0 as int, r.1 as int) == coordinate_range(self.spec_width()),
    {
        self.xrange
    }

    /// The least and the greatest `y` of the board.
    pub fn get_yrange(&self) -> (r: (i32, i32))
        requires
            self.wf(),
        ensures
            (r.0 as int, r.1 as int) == coordinate_range(self.spec_height()),
    {
        self.yrange
    }

    /// Whether `c` is a cell of this board.
    pub fn in_range(&self, c: &Coord) -> (r: bool)
        requires
            self.wf(),
        ensures
            r == self.covers(*c),
    {
        self.xrange.0 <= c.x && c.x <= self.xrange.1 && self.yrange.0 <= c.y && c.y
            <= self.yrange.1
    }

    /// Column and row of the cell `c` in the storage: `c` minus the least
    /// coordinate of each axis.
    pub fn to_grid_index(&self, c: &Coord) -> (r: (usize, usize))
        requires
            self.wf(),
            self.covers(*c),
        ensures
            r.0 == c.x - coordinate_range(self.spec_width()).0,
            r.1 == c.y - coordinate_range(self.spec_height()).0,
            r.0 < self.spec_width(),
            r.1 < self.spec_height(),
    {
        let col = (c.x as i64 - self.xrange.0 as i64) as usize;
        let row = (c.y as i64 - self.yrange.0 as i64) as usize;
        (col, row)
    }

    /// The content of cell `c`.
    pub fn get(&self, c: &Coord) -> (r: ItemType)
        requires
            self.wf(),
            self.covers(*c),
        ensures
            r == self@[*c],
    {
        let (col, row) = self.to_grid_index(c);
        self.cells[row][col]
    }

    /// Writes `item` into cell `c` and leaves every other cell as it was.
    pub fn set(&mut self, c: &Coord, item: ItemType)
        requires
            old(self).wf(),
            old(self).covers(*c),
        ensures
            final(self).wf(),
            final(self).spec_width() == old(self).spec_width(),
            final(self).spec_height() == old(self).spec_height(),
            final(self)@ == old(self)@.insert(*c, item),
    {
        let (col, row) = self.to_grid_index(c);
        self.cells[row][col] = item;
        assert(final(self)@ =~= old(self)@.insert(*c, item));
    }

    /// The cell storage, row by row: the cell `c` is found in row
    /// `c.y - ymin` at column `c.x - xmin`.
    pub fn rows(&self) -> (r: &GridType)
        requires
            self.wf(),
        ensures
            r@.len() == self.spec_height(),
            forall|i: int|
                0 <= i < self.spec_height() ==> (#[trigger] r@[i])@.len() == self.spec_width(),
            forall|c: Coord|
                self.covers(c) ==> r@[c.y - coordinate_range(self.spec_height()).0]@[c.x
                    - coordinate_range(self.spec_width()).0] == #[trigger] self@[c],
    {
        &self.cells
    }
}

} // verus!
