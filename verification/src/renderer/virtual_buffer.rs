//! The dense grid of cells that one frame is rasterized into.

use super::primitives::empty_cell;
use super::primitives::lemma_walk_lists_cells;
use super::primitives::lists_cells;
use super::primitives::merge_cell;
use super::primitives::Cell;
use super::primitives::Drawing;
use super::primitives::Primitive;
use super::style::CursorStyle;
use vstd::prelude::*;
use vstd::std_specs::iter::IteratorSpec;

verus! {

/// What a buffer holds: `height` rows of `width` cells each, and the cursor
/// of the frame as column, row and look.
pub struct Frame {
    pub width: u16,
    pub height: u16,
    pub rows: Seq<Seq<Cell>>,
    pub cursor: Option<(u16, u16, CursorStyle)>,
}

impl Frame {
    /// The grid has `height` rows and every row has `width` cells.
    pub open spec fn well_formed(self) -> bool {
        &&& self.rows.len() == self.height
        &&& forall|y: int| 0 <= y < self.rows.len() ==> (#[trigger] self.rows[y]).len() == self.width
    }
}

/// The frame of the given size in which nothing is drawn.
pub open spec fn blank_frame(width: u16, height: u16) -> Frame {
    Frame {
        width,
        height,
        rows: Seq::new(height as nat, |y: int| Seq::new(width as nat, |x: int| empty_cell())),
        cursor: None,
    }
}

/// The cell at column `x` of row `y` after `cells` was drawn over `frame`.
pub open spec fn rasterized_cell(frame: Frame, cells: Map<(u16, u16), Cell>, x: int, y: int) -> Cell {
    if cells.contains_key((x as u16, y as u16)) {
        merge_cell(frame.rows[y][x], cells[(x as u16, y as u16)])
    } else {
        frame.rows[y][x]
    }
}

/// The rows of `frame` after `cells` was drawn over them. Cells at
/// coordinates outside the grid are dropped.
pub open spec fn rasterized_rows(frame: Frame, cells: Map<(u16, u16), Cell>) -> Seq<Seq<Cell>> {
    Seq::new(
        frame.rows.len(),
        |y: int| Seq::new(frame.rows[y].len(), |x: int| rasterized_cell(frame, cells, x, y)),
    )
}

/// `frame` after `drawing` was drawn over it: every cell of the drawing that
/// lies inside the grid is merged into its slot, and the cursor of the frame
/// becomes the drawing's, also where the drawing has none.
pub open spec fn rasterize(frame: Frame, drawing: Drawing) -> Frame {
    Frame {
        width: frame.width,
        height: frame.height,
        rows: rasterized_rows(frame, drawing.cells),
        cursor: match drawing.cursor {
            Some(cursor) => Some((cursor.x, cursor.y, cursor.style)),
            None => None,
        },
    }
}

/// The rows that a vector of rows stands for.
pub open spec fn rows_of(rows: Seq<Vec<Cell>>) -> Seq<Seq<Cell>> {
    rows.map_values(|row: Vec<Cell>| row@)
}

/// A `width` by `height` grid of cells with the cursor of the frame.
#[derive(Debug)]
pub struct VirtualBuffer {
    width: u16,
    height: u16,
    rows: Vec<Vec<Cell>>,
    cursor_position: Option<(u16, u16, CursorStyle)>,
}

impl View for VirtualBuffer {
    type V = Frame;

    closed spec fn view(&self) -> Frame {
        Frame {
            width: self.width,
            height: self.height,
            rows: rows_of(self.rows@),
            cursor: self.cursor_position,
        }
    }
}

impl Clone for VirtualBuffer {
    fn clone(&self) -> (copy: VirtualBuffer)
        ensures
            copy@ == self@,
    {
        proof {
            use_type_invariant(self);
        }
        let mut rows: Vec<Vec<Cell>> = Vec::with_capacity(self.rows.len());
        let n = self.rows.len();
        let mut y: usize = 0;
        while y < n
            invariant
                n == self.rows@.len(),
                y <= n,
                rows@.len() == y,
                forall|j: int| 0 <= j < y ==> (#[trigger] rows@[j])@ == self.rows@[j]@,
            decreases n - y,
        {
            let row = copy_cells(&self.rows[y]);
            rows.push(row);
            y += 1;
        }
        proof {
            assert(rows_of(rows@) =~~= rows_of(self.rows@));
        }
        VirtualBuffer {
            rows,
            width: self.width,
            height: self.height,
            cursor_position: self.cursor_position,
        }
    }
}

impl PartialEq for VirtualBuffer {
    /// Two buffers are equal when they have the same size, the same cells and
    /// the same cursor.
    fn eq(&self, other: &VirtualBuffer) -> (equal: bool) {
        proof {
            use_type_invariant(self);
            use_type_invariant(other);
        }
        if self.width != other.width || self.height != other.height {
            return false;
        }
        let cursors_agree = match (self.cursor_position, other.cursor_position) {
            (Some(a), Some(b)) => a.0 == b.0 && a.1 == b.1 && a.2 == b.2,
            (None, None) => true,
            _ => false,
        };
        if !cursors_agree {
            return false;
        }
        let n = self.rows.len();
        let mut y: usize = 0;
        while y < n
            invariant
                n == self.rows@.len(),
                n == other.rows@.len(),
                y <= n,
                self.width == other.width,
                self.height == other.height,
                self.cursor_position == other.cursor_position,
                forall|j: int| 0 <= j < y ==> (#[trigger] self.rows@[j])@ == other.rows@[j]@,
            decreases n - y,
        {
            if !equal_cells(&self.rows[y], &other.rows[y]) {
                proof {
                    assert(rows_of(self.rows@)[y as int] != rows_of(other.rows@)[y as int]);
                }
                return false;
            }
            y += 1;
        }
        proof {
            assert(rows_of(self.rows@) =~~= rows_of(other.rows@));
        }
        true
    }
}

impl vstd::std_specs::cmp::PartialEqSpecImpl for VirtualBuffer {
    open spec fn obeys_eq_spec() -> bool {
        true
    }

    open spec fn eq_spec(&self, other: &VirtualBuffer) -> bool {
        self@ == other@
    }
}

impl Eq for VirtualBuffer {

}

/// A copy of a row.
fn copy_cells(cells: &Vec<Cell>) -> (copy: Vec<Cell>)
    ensures
        copy@ == cells@,
{
    let mut copy: Vec<Cell> = Vec::with_capacity(cells.len());
    let n = cells.len();
    let mut x: usize = 0;
    while x < n
        invariant
            n == cells@.len(),
            x <= n,
            copy@ == cells@.take(x as int),
        decreases n - x,
    {
        copy.push(cells[x]);
        proof {
            assert(copy@ =~= cells@.take(x + 1));
        }
        x += 1;
    }
    proof {
        assert(cells@.take(n as int) =~= cells@);
    }
    copy
}

/// Whether two rows hold the same cells.
pub(crate) fn equal_cells(a: &Vec<Cell>, b: &Vec<Cell>) -> (same: bool)
    ensures
        same == (a@ == b@),
{
    if a.len() != b.len() {
        return false;
    }
    let n = a.len();
    let mut i: usize = 0;
    while i < n
        invariant
            n == a@.len(),
            n == b@.len(),
            i <= n,
            forall|j: int| 0 <= j < i ==> a@[j] == b@[j],
        decreases n - i,
    {
        if a[i] != b[i] {
            return false;
        }
        i += 1;
    }
    proof {
        assert(a@ =~= b@);
    }
    true
}

impl VirtualBuffer {
    #[verifier::type_invariant]
    spec fn shaped(self) -> bool {
        &&& self.rows@.len() == self.height
        &&& forall|y: int| 0 <= y < self.rows@.len() ==> (#[trigger] self.rows@[y])@.len() == self.width
    }

    /// A buffer of the given size in which every cell is transparent and no
    /// cursor is placed.
    pub fn from_size(width: u16, height: u16) -> (buffer: VirtualBuffer)
        ensures
            buffer@ == blank_frame(width, height),
            buffer@.well_formed(),
    {
        let mut rows: Vec<Vec<Cell>> = Vec::with_capacity(height as usize);
        let mut y: u16 = 0;
        while y < height
            invariant
                y <= height,
                rows@.len() == y,
                forall|j: int|
                    0 <= j < y ==> (#[trigger] rows@[j])@ == Seq::new(
                        width as nat,
                        |x: int| empty_cell(),
                    ),
            decreases height - y,
        {
            let mut row: Vec<Cell> = Vec::with_capacity(width as usize);
            let mut x: u16 = 0;
            while x < width
                invariant
                    x <= width,
                    row@.len() == x,
                    forall|i: int| 0 <= i < x ==> row@[i] == empty_cell(),
                decreases width - x,
            {
                row.push(Cell::default());
                x += 1;
            }
            proof {
                assert(row@ =~= Seq::new(width as nat, |x: int| empty_cell()));
            }
            rows.push(row);
            y += 1;
        }
        proof {
            assert(rows_of(rows@) =~~= blank_frame(width, height).rows);
        }
        VirtualBuffer { rows, width, height, cursor_position: None }
    }

    /// Draws `primitive` over the buffer.
    pub fn merge_primitive(&mut self, primitive: &Primitive)
        ensures
            final(self)@ == rasterize(old(self)@, primitive@),
            final(self)@.well_formed(),
    {
        proof {
            use_type_invariant(&*self);
        }
        let ghost before = self@;
        let ghost mut done: Set<(u16, u16)> = Set::empty();
        let cells = primitive.cells();
        let entries = cells.iter();
        proof {
            lemma_walk_lists_cells(cells, entries.remaining());
            assert(rows_of(self.rows@) =~~= rasterized_rows(before, cells@.restrict(done)));
        }
        for entry in it: entries
            invariant
                self.width == before.width,
                self.height == before.height,
                before.well_formed(),
                before.rows == rows_of(old(self).rows@),
                self.rows@.len() == self.height,
                forall|y: int|
                    0 <= y < self.rows@.len() ==> (#[trigger] self.rows@[y])@.len() == self.width,
                rows_of(self.rows@) == rasterized_rows(before, cells@.restrict(done)),
                lists_cells(it.seq(), cells@),
                forall|j: int| 0 <= j < it.index() ==> done.contains(*it.seq()[j].0),
                forall|j: int| it.index() <= j < it.seq().len() ==> !done.contains(*it.seq()[j].0),
                forall|k: (u16, u16)| done.contains(k) ==> cells@.contains_key(k),
        {
            let (key, cell) = entry;
            let x = key.0;
            let y = key.1;
            let ghost rows_before = rows_of(self.rows@);
            if x < self.width && y < self.height {
                merge_into(&mut self.rows, x as usize, y as usize, *cell);
            }
            proof {
                let drawn = cells@.restrict(done);
                let grown = cells@.restrict(done.insert(*key));
                let rows_after = rows_of(self.rows@);
                assert(!drawn.contains_key(*key));
                assert(grown.contains_key(*key) && grown[*key] == *cell);
                assert forall|r: int, c: int|
                    0 <= r < before.height && 0 <= c < before.width implies rows_after[r][c]
                    == rasterized_cell(before, grown, c, r) by {
                    assert(rows_before[r][c] == rasterized_cell(before, drawn, c, r));
                    if c == x && r == y {
                        assert((c as u16, r as u16) == *key);
                    } else {
                        assert((c as u16, r as u16) != *key);
                        assert(grown.contains_key((c as u16, r as u16)) == drawn.contains_key(
                            (c as u16, r as u16),
                        ));
                        assert(rows_after[r][c] == rows_before[r][c]);
                    }
                }
                assert(rows_after =~~= rasterized_rows(before, grown));
                done = done.insert(*key);
            }
        }
        proof {
            assert(cells@.restrict(done) =~= cells@);
        }
        self.cursor_position = match primitive.cursor_position() {
            Some(cursor) => Some((cursor.x, cursor.y, cursor.style)),
            None => None,
        };
    }

    /// The number of columns.
    pub fn width(&self) -> (width: u16)
        ensures
            width == self@.width,
    {
        self.width
    }

    /// The number of rows.
    pub fn height(&self) -> (height: u16)
        ensures
            height == self@.height,
    {
        self.height
    }

    /// The rows from top to bottom, each from left to right.
    pub fn rows(&self) -> (rows: &Vec<Vec<Cell>>)
        ensures
            rows_of(rows@) == self@.rows,
            self@.well_formed(),
    {
        proof {
            use_type_invariant(self);
        }
        &self.rows
    }

    /// The cursor of the frame as column, row and look.
    pub fn cursor_position(&self) -> (cursor: Option<(u16, u16, CursorStyle)>)
        ensures
            cursor == self@.cursor,
    {
        self.cursor_position
    }
}

/// Merges `cell` into the slot at column `x` of row `y`.
fn merge_into(rows: &mut Vec<Vec<Cell>>, x: usize, y: usize, cell: Cell)
    requires
        y < old(rows)@.len(),
        x < old(rows)@[y as int]@.len(),
    ensures
        final(rows)@.len() == old(rows)@.len(),
        forall|j: int|
            0 <= j < old(rows)@.len() && j != y ==> (#[trigger] final(rows)@[j]) == old(rows)@[j],
        final(rows)@[y as int]@ == old(rows)@[y as int]@.update(
            x as int,
            merge_cell(old(rows)@[y as int]@[x as int], cell),
        ),
    no_unwind
{
    let merged = merge_cells(rows[y][x], cell);
    rows[y][x] = merged;
}

/// `overlay` laid over `base`.
fn merge_cells(base: Cell, overlay: Cell) -> (merged: Cell)
    ensures
        merged == merge_cell(base, overlay),
    no_unwind
{
    let mut merged = base;
    if let Some(_) = overlay.content {
        merged.content = overlay.content;
    }
    if let Some(_) = overlay.style.fg_color {
        merged.style.fg_color = overlay.style.fg_color;
    }
    if let Some(_) = overlay.style.bg_color {
        merged.style.bg_color = overlay.style.bg_color;
    }
    if overlay.style.is_bold {
        merged.style.is_bold = true;
    }
    merged
}

/// Cells of a drawing that lie outside the grid change nothing: a drawing
/// whose every coordinate is at or past the width or the height leaves all
/// rows as they were.
pub proof fn lemma_rasterize_clips(frame: Frame, drawing: Drawing)
    requires
        frame.well_formed(),
        forall|k: (u16, u16)|
            drawing.cells.contains_key(k) ==> k.0 >= frame.width || k.1 >= frame.height,
    ensures
        rasterize(frame, drawing).rows == frame.rows,
        rasterize(frame, drawing).well_formed(),
{
    assert(rasterized_rows(frame, drawing.cells) =~~= frame.rows);
}

/// A cell of the grid that the drawing does not draw at stays as it was, and
/// one that it draws at becomes the drawn cell laid over the old one.
pub proof fn lemma_rasterize_cell(frame: Frame, drawing: Drawing, x: u16, y: u16)
    requires
        frame.well_formed(),
        x < frame.width,
        y < frame.height,
    ensures
        rasterize(frame, drawing).rows[y as int][x as int] == if drawing.cells.contains_key((x, y)) {
            merge_cell(frame.rows[y as int][x as int], drawing.cells[(x, y)])
        } else {
            frame.rows[y as int][x as int]
        },
{
}

/// Rasterizing keeps the size and the shape of the grid.
pub proof fn lemma_rasterize_keeps_shape(frame: Frame, drawing: Drawing)
    requires
        frame.well_formed(),
    ensures
        rasterize(frame, drawing).well_formed(),
        rasterize(frame, drawing).width == frame.width,
        rasterize(frame, drawing).height == frame.height,
{
}

/// Only the part of a drawing that lies inside the grid matters.
pub proof fn lemma_rasterize_sees_only_the_grid(frame: Frame, drawing: Drawing)
    requires
        frame.well_formed(),
    ensures
        rasterize(frame, drawing).rows == rasterize(
            frame,
            Drawing {
                cells: drawing.cells.restrict(
                    Set::new(|k: (u16, u16)| k.0 < frame.width && k.1 < frame.height),
                ),
                cursor: drawing.cursor,
            },
        ).rows,
{
    let inside = drawing.cells.restrict(
        Set::new(|k: (u16, u16)| k.0 < frame.width && k.1 < frame.height),
    );
    assert(rasterized_rows(frame, drawing.cells) =~~= rasterized_rows(frame, inside));
}

} // verus!
