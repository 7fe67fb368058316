//! Cells and the sparse, position-addressed drawings built from them.

use super::style::empty_style;
use super::style::merge_style;
use super::style::CursorStyle;
use super::style::Style;
use std::collections::BTreeMap;
use vstd::prelude::*;
use vstd::std_specs::iter::IteratorSpec;

verus! {

/// Where the terminal cursor goes in a frame, and how it looks.
#[derive(Debug, Clone, Copy, PartialEq, Eq, Structural)]
pub struct CursorPosition {
    pub x: u16,
    pub y: u16,
    pub style: CursorStyle,
}

impl CursorPosition {
    /// A cursor at column `x` of row `y`.
    pub fn new(x: u16, y: u16, style: CursorStyle) -> (cursor: CursorPosition)
        ensures
            cursor == (CursorPosition { x, y, style }),
    {
        CursorPosition { x, y, style }
    }
}

/// One character position: an optional glyph and its style. No glyph means
/// "no opinion", which is not the same as a space.
#[derive(Debug, Clone, Copy, PartialEq, Eq, Structural)]
pub struct Cell {
    pub content: Option<char>,
    pub style: Style,
}

/// The fully transparent cell.
pub open spec fn empty_cell() -> Cell {
    Cell { content: None, style: empty_style() }
}

/// `overlay` laid over `base`: the glyph is replaced only where the overlay
/// has one, and the styles merge.
pub open spec fn merge_cell(base: Cell, overlay: Cell) -> Cell {
    Cell {
        content: if overlay.content is Some {
            overlay.content
        } else {
            base.content
        },
        style: merge_style(base.style, overlay.style),
    }
}

impl Default for Cell {
    fn default() -> (cell: Cell)
        ensures
            cell == empty_cell(),
    {
        Cell { content: None, style: Style::new() }
    }
}

impl Cell {
    /// A cell that shows `c` and sets no style.
    pub fn from_char(c: char) -> (cell: Cell)
        ensures
            cell == (Cell { content: Some(c), style: empty_style() }),
    {
        Cell { content: Some(c), style: Style::new() }
    }

    /// Lays `other` over this cell: its glyph replaces this one where it has
    /// one, and its style is merged over this one.
    pub fn merge(&mut self, other: Cell)
        ensures
            *final(self) == merge_cell(*old(self), other),
    {
        if other.content.is_some() {
            self.content = other.content;
        }
        self.style = self.style.merge(other.style);
    }

    /// The same glyph in the given style.
    pub fn style(self, style: Style) -> (cell: Cell)
        ensures
            cell == (Cell { style, ..self }),
    {
        let mut cell = self;
        cell.style = style;
        cell
    }

    /// Whether the cell has neither glyph nor style.
    pub fn is_empty(&self) -> (empty: bool)
        ensures
            empty == (*self == empty_cell()),
    {
        self.content.is_none() && self.style.is_empty()
    }
}

/// The transparent cell is neutral on both sides of a merge.
pub proof fn lemma_merge_cell_identity(cell: Cell)
    ensures
        merge_cell(empty_cell(), cell) == cell,
        merge_cell(cell, empty_cell()) == cell,
{
}

/// Cell merging is associative.
pub proof fn lemma_merge_cell_associative(a: Cell, b: Cell, c: Cell)
    ensures
        merge_cell(merge_cell(a, b), c) == merge_cell(a, merge_cell(b, c)),
{
}

/// A cell together with the coordinate it is drawn at.
#[derive(Debug, Clone, Copy, PartialEq, Eq, Structural)]
pub struct PrimitiveCell {
    pub x: u16,
    pub y: u16,
    pub cell: Cell,
}

impl PrimitiveCell {
    /// `cell` at column `x` of row `y`.
    pub fn new(x: u16, y: u16, cell: Cell) -> (placed: PrimitiveCell)
        ensures
            placed == (PrimitiveCell { x, y, cell }),
    {
        PrimitiveCell { x, y, cell }
    }

    /// An unstyled glyph at column `x` of row `y`.
    pub fn from_char(x: u16, y: u16, content: char) -> (placed: PrimitiveCell)
        ensures
            placed == (PrimitiveCell {
                x,
                y,
                cell: Cell { content: Some(content), style: empty_style() },
            }),
    {
        PrimitiveCell { x, y, cell: Cell::from_char(content) }
    }
}

/// A rectangle of cells: its top left cell and its extent.
#[derive(Debug, Clone, Copy, PartialEq, Eq, Structural)]
pub struct CellBounds {
    pub x: u16,
    pub y: u16,
    pub width: u16,
    pub height: u16,
}

/// What a drawing is: a partial map from coordinates `(x, y)` to cells, and
/// at most one cursor placement.
pub struct Drawing {
    pub cells: Map<(u16, u16), Cell>,
    pub cursor: Option<CursorPosition>,
}

/// A sparse drawing: cells keyed by `(x, y)` and kept in key order, plus an
/// optional cursor placement.
#[derive(Debug)]
pub struct Primitive {
    pub(crate) cells: BTreeMap<(u16, u16), Cell>,
    pub(crate) cursor_position: Option<CursorPosition>,
}

impl View for Primitive {
    type V = Drawing;

    closed spec fn view(&self) -> Drawing {
        Drawing { cells: self.cells@, cursor: self.cursor_position }
    }
}

/// The drawing that draws nothing.
pub open spec fn empty_drawing() -> Drawing {
    Drawing { cells: Map::empty(), cursor: None }
}

/// `over` laid over `base`, coordinate by coordinate: where both draw, the
/// cells merge; elsewhere the one that draws is kept.
pub open spec fn overlay_cells(base: Map<(u16, u16), Cell>, over: Map<(u16, u16), Cell>) -> Map<
    (u16, u16),
    Cell,
> {
    Map::new(
        |k: (u16, u16)| base.contains_key(k) || over.contains_key(k),
        |k: (u16, u16)|
            if over.contains_key(k) {
                if base.contains_key(k) {
                    merge_cell(base[k], over[k])
                } else {
                    over[k]
                }
            } else {
                base[k]
            },
    )
}

/// `over` laid over `base`: the cells overlay, and the later cursor wins
/// where there is one.
pub open spec fn overlay_drawing(base: Drawing, over: Drawing) -> Drawing {
    Drawing {
        cells: overlay_cells(base.cells, over.cells),
        cursor: if over.cursor is Some {
            over.cursor
        } else {
            base.cursor
        },
    }
}

/// The drawings of a list laid over one another from left to right, starting
/// from nothing.
pub open spec fn merge_drawings(drawings: Seq<Drawing>) -> Drawing
    decreases drawings.len(),
{
    if drawings.len() == 0 {
        empty_drawing()
    } else {
        overlay_drawing(merge_drawings(drawings.drop_last()), drawings.last())
    }
}

/// The drawings that a list of primitives stands for.
pub open spec fn drawings_of(primitives: Seq<Primitive>) -> Seq<Drawing> {
    primitives.map_values(|p: Primitive| p@)
}

/// The cells of a filled rectangle: `fill` at every coordinate of the
/// rectangle that exists, and nothing at all when `fill` is transparent.
pub open spec fn rectangle_cells(
    start_x: u16,
    start_y: u16,
    width: u16,
    height: u16,
    fill: Cell,
) -> Map<(u16, u16), Cell> {
    if fill == empty_cell() {
        Map::empty()
    } else {
        Map::new(
            |k: (u16, u16)|
                start_x <= k.0 < start_x + width && start_y <= k.1 < start_y + height,
            |k: (u16, u16)| fill,
        )
    }
}

/// The cells of a list of placed cells: a later cell replaces an earlier one
/// at the same coordinate.
pub open spec fn placed_cells(placed: Seq<PrimitiveCell>) -> Map<(u16, u16), Cell>
    decreases placed.len(),
{
    if placed.len() == 0 {
        Map::empty()
    } else {
        placed_cells(placed.drop_last()).insert((placed.last().x, placed.last().y), placed.last().cell)
    }
}

/// The rows `offset .. offset + height` of `cells`, moved up by `offset`.
pub open spec fn cut_cells(cells: Map<(u16, u16), Cell>, offset: u16, height: u16) -> Map<
    (u16, u16),
    Cell,
> {
    Map::new(
        |k: (u16, u16)|
            k.1 < height && k.1 + offset <= u16::MAX && cells.contains_key(
                (k.0, (k.1 + offset) as u16),
            ),
        |k: (u16, u16)| cells[(k.0, (k.1 + offset) as u16)],
    )
}

/// Whether `entries` lists each key of `cells` exactly once, with its cell.
pub(crate) open spec fn lists_cells(
    entries: Seq<(&(u16, u16), &Cell)>,
    cells: Map<(u16, u16), Cell>,
) -> bool {
    &&& forall|a: int, b: int| 0 <= a < b < entries.len() ==> *entries[a].0 != *entries[b].0
    &&& forall|j: int|
        0 <= j < entries.len() ==> cells.contains_key(*entries[j].0) && cells[*entries[j].0]
            == *entries[j].1
    &&& forall|k: (u16, u16)|
        cells.contains_key(k) ==> exists|j: int| 0 <= j < entries.len() && *entries[j].0 == k
}

/// What a walk over a cell map yields lists the map.
pub(crate) proof fn lemma_walk_lists_cells(
    cells: &BTreeMap<(u16, u16), Cell>,
    entries: Seq<(&(u16, u16), &Cell)>,
)
    requires
        entries == cells.iter().remaining(),
        entries.no_duplicates(),
    ensures
        lists_cells(entries, cells@),
{
    broadcast use vstd::std_specs::btree::group_btree_axioms;
    assert forall|a: int, b: int| 0 <= a < b < entries.len() implies *entries[a].0
        != *entries[b].0 by {
        if *entries[a].0 == *entries[b].0 {
            assert(cells@[*entries[a].0] == *entries[a].1);
            assert(cells@[*entries[b].0] == *entries[b].1);
            assert(entries[a] == entries[b]);
        }
    }
    assert forall|k: (u16, u16)| cells@.contains_key(k) implies exists|j: int|
        0 <= j < entries.len() && *entries[j].0 == k by {
        assert(entries.contains((&k, &cells@[k])));
        let j = choose|j: int| 0 <= j < entries.len() && entries[j] == (&k, &cells@[k]);
        assert(*entries[j].0 == k);
    }
}

fn overlay_into(main: &mut BTreeMap<(u16, u16), Cell>, other: &BTreeMap<(u16, u16), Cell>)
    ensures
        final(main)@ == overlay_cells(old(main)@, other@),
{
    broadcast use vstd::std_specs::btree::group_btree_axioms;
    let ghost base = main@;
    let ghost mut done: Set<(u16, u16)> = Set::empty();
    let entries = other.iter();
    proof {
        lemma_walk_lists_cells(other, entries.remaining());
        assert(main@ =~= overlay_cells(base, other@.restrict(done)));
    }
    for entry in it: entries
        invariant
            main@ == overlay_cells(base, other@.restrict(done)),
            lists_cells(it.seq(), other@),
            forall|j: int| 0 <= j < it.index() ==> done.contains(*it.seq()[j].0),
            forall|j: int| it.index() <= j < it.seq().len() ==> !done.contains(*it.seq()[j].0),
            forall|k: (u16, u16)| done.contains(k) ==> other@.contains_key(k),
    {
        let (key, cell) = entry;
        let merged = match main.get(key) {
            Some(below) => {
                let mut c = *below;
                c.merge(*cell);
                c
            },
            None => *cell,
        };
        main.insert(*key, merged);
        proof {
            assert(main@ =~= overlay_cells(base, other@.restrict(done.insert(*key))));
            done = done.insert(*key);
        }
    }
    proof {
        assert(other@.restrict(done) =~= other@);
    }
}

impl Default for Primitive {
    fn default() -> (p: Primitive)
        ensures
            p@ == empty_drawing(),
    {
        Primitive { cells: BTreeMap::new(), cursor_position: None }
    }
}

impl Clone for Primitive {
    fn clone(&self) -> (p: Primitive)
        ensures
            p@ == self@,
    {
        Primitive { cells: self.cells.clone(), cursor_position: self.cursor_position }
    }
}

impl PartialEq for Primitive {
    /// Two primitives are equal when they draw the same cells at the same
    /// coordinates and place the cursor alike.
    fn eq(&self, other: &Primitive) -> (equal: bool) {
        broadcast use vstd::std_specs::btree::group_btree_axioms;
        if self.cursor_position != other.cursor_position {
            return false;
        }
        if self.cells.len() != other.cells.len() {
            return false;
        }
        let entries = self.cells.iter();
        proof {
            lemma_walk_lists_cells(&self.cells, entries.remaining());
        }
        for entry in it: entries
            invariant
                self.cells@.len() == other.cells@.len(),
                self.cursor_position == other.cursor_position,
                lists_cells(it.seq(), self.cells@),
                forall|j: int|
                    0 <= j < it.index() ==> other.cells@.contains_key(*it.seq()[j].0)
                        && other.cells@[*it.seq()[j].0] == *it.seq()[j].1,
        {
            let (key, cell) = entry;
            match other.cells.get(key) {
                Some(theirs) => {
                    if *theirs != *cell {
                        return false;
                    }
                },
                None => {
                    return false;
                },
            }
        }
        proof {
            assert(self.cells@.dom().subset_of(other.cells@.dom()));
            vstd::set_lib::lemma_subset_equality(self.cells@.dom(), other.cells@.dom());
            assert(self.cells@ =~= other.cells@);
        }
        true
    }
}

impl Eq for Primitive {

}

impl vstd::std_specs::cmp::PartialEqSpecImpl for Primitive {
    open spec fn obeys_eq_spec() -> bool {
        true
    }

    open spec fn eq_spec(&self, other: &Primitive) -> bool {
        self@ == other@
    }
}

impl Primitive {
    /// Lays the primitives of a list over one another, from left to right.
    /// The empty list gives the empty primitive.
    pub fn merge(primitives: Vec<Primitive>) -> (merged: Primitive)
        ensures
            merged@ == merge_drawings(drawings_of(primitives@)),
    {
        let ghost all = drawings_of(primitives@);
        let mut rest = primitives;
        if rest.len() == 0 {
            return Primitive::default();
        }
        let mut main = rest.remove(0);
        proof {
            assert(all.take(1).drop_last() =~= Seq::<Drawing>::empty());
            assert(merge_drawings(all.take(1).drop_last()) == empty_drawing());
            assert(overlay_cells(Map::empty(), main@.cells) =~= main@.cells);
            assert(all.take(1).last() == main@);
        }
        let n = rest.len();
        let mut i: usize = 0;
        while i < n
            invariant
                n == rest.len(),
                i <= n,
                all.len() == n + 1,
                forall|j: int| 0 <= j < n ==> rest@[j]@ == #[trigger] all[j + 1],
                main@ == merge_drawings(all.take(i + 1)),
            decreases n - i,
        {
            let other = &rest[i];
            overlay_into(&mut main.cells, &other.cells);
            if other.cursor_position.is_some() {
                main.cursor_position = other.cursor_position;
            }
            proof {
                assert(all.take(i + 2).drop_last() =~= all.take(i + 1));
                assert(all.take(i + 2).last() == all[i + 1]);
            }
            i += 1;
        }
        proof {
            assert(all.take(n + 1) =~= all);
        }
        main
    }

    /// A primitive that draws one cell.
    pub fn from_cell(x: u16, y: u16, cell: Cell) -> (p: Primitive)
        ensures
            p@.cells == Map::<(u16, u16), Cell>::empty().insert((x, y), cell),
            p@.cursor is None,
    {
        broadcast use vstd::std_specs::btree::group_btree_axioms;
        let mut cells: BTreeMap<(u16, u16), Cell> = BTreeMap::new();
        cells.insert((x, y), cell);
        Primitive { cells, cursor_position: None }
    }

    /// A primitive that draws one unstyled glyph.
    pub fn from_char(x: u16, y: u16, content: char) -> (p: Primitive)
        ensures
            p@.cells == Map::<(u16, u16), Cell>::empty().insert(
                (x, y),
                Cell { content: Some(content), style: empty_style() },
            ),
            p@.cursor is None,
    {
        Primitive::from_cell(x, y, Cell::from_char(content))
    }

    /// A rectangle filled with copies of `cell`. Coordinates past the last
    /// column or row that a `u16` can name do not exist and are left out; a
    /// transparent fill draws nothing.
    pub fn rectangle(start_x: u16, start_y: u16, width: u16, height: u16, cell: Cell) -> (p:
        Primitive)
        ensures
            p@.cells == rectangle_cells(start_x, start_y, width, height, cell),
            p@.cursor is None,
    {
        broadcast use vstd::std_specs::btree::group_btree_axioms;
        let mut cells: BTreeMap<(u16, u16), Cell> = BTreeMap::new();
        if cell.is_empty() {
            return Primitive { cells, cursor_position: None };
        }
        let end_x: u32 = if start_x as u32 + width as u32 > 0x1_0000 {
            0x1_0000
        } else {
            start_x as u32 + width as u32
        };
        let end_y: u32 = if start_y as u32 + height as u32 > 0x1_0000 {
            0x1_0000
        } else {
            start_y as u32 + height as u32
        };
        let mut x: u32 = start_x as u32;
        while x < end_x
            invariant
                start_x <= x <= end_x <= 0x1_0000,
                start_y <= end_y <= 0x1_0000,
                cells@ =~= Map::new(
                    |k: (u16, u16)| start_x <= k.0 < x && start_y <= k.1 < end_y,
                    |k: (u16, u16)| cell,
                ),
            decreases end_x - x,
        {
            let mut y: u32 = start_y as u32;
            while y < end_y
                invariant
                    start_x <= x < end_x <= 0x1_0000,
                    start_y <= y <= end_y <= 0x1_0000,
                    cells@ =~= Map::new(
                        |k: (u16, u16)|
                            (start_x <= k.0 < x && start_y <= k.1 < end_y) || (k.0 == x && start_y
                                <= k.1 < y),
                        |k: (u16, u16)| cell,
                    ),
                decreases end_y - y,
            {
                cells.insert((x as u16, y as u16), cell);
                y += 1;
            }
            x += 1;
        }
        proof {
            assert(cells@ =~= rectangle_cells(start_x, start_y, width, height, cell));
        }
        Primitive { cells, cursor_position: None }
    }

    /// A primitive made of placed cells. Where two cells share a coordinate
    /// the later one replaces the earlier.
    pub fn from_cells(primitive_cells: Vec<PrimitiveCell>) -> (p: Primitive)
        ensures
            p@.cells == placed_cells(primitive_cells@),
            p@.cursor is None,
    {
        broadcast use vstd::std_specs::btree::group_btree_axioms;
        let mut cells: BTreeMap<(u16, u16), Cell> = BTreeMap::new();
        let n = primitive_cells.len();
        let mut i: usize = 0;
        while i < n
            invariant
                n == primitive_cells.len(),
                i <= n,
                cells@ == placed_cells(primitive_cells@.take(i as int)),
            decreases n - i,
        {
            let placed = primitive_cells[i];
            cells.insert((placed.x, placed.y), placed.cell);
            proof {
                assert(primitive_cells@.take(i + 1).drop_last() =~= primitive_cells@.take(i as int));
            }
            i += 1;
        }
        proof {
            assert(primitive_cells@.take(n as int) =~= primitive_cells@);
        }
        Primitive { cells, cursor_position: None }
    }

    /// Keeps the rows `offset .. offset + height` and moves them up by
    /// `offset`. The cursor placement is kept as it is.
    pub fn cut_to_offset(self, offset: u16, height: u16) -> (p: Primitive)
        ensures
            p@.cells == cut_cells(self@.cells, offset, height),
            p@.cursor == self@.cursor,
    {
        broadcast use vstd::std_specs::btree::group_btree_axioms;
        let mut new_cells: BTreeMap<(u16, u16), Cell> = BTreeMap::new();
        let cut_end: u32 = offset as u32 + height as u32;
        let ghost mut done: Set<(u16, u16)> = Set::empty();
        let entries = self.cells.iter();
        proof {
            lemma_walk_lists_cells(&self.cells, entries.remaining());
            assert(new_cells@ =~= cut_cells(self.cells@.restrict(done), offset, height));
        }
        for entry in it: entries
            invariant
                cut_end == offset + height,
                new_cells@ == cut_cells(self.cells@.restrict(done), offset, height),
                lists_cells(it.seq(), self.cells@),
                forall|j: int| 0 <= j < it.index() ==> done.contains(*it.seq()[j].0),
                forall|k: (u16, u16)| done.contains(k) ==> self.cells@.contains_key(k),
        {
            let (key, cell) = entry;
            let x = key.0;
            let y = key.1;
            if y >= offset && (y as u32) < cut_end {
                new_cells.insert((x, y - offset), *cell);
            }
            proof {
                assert(new_cells@ =~= cut_cells(
                    self.cells@.restrict(done.insert(*key)),
                    offset,
                    height,
                ));
                done = done.insert(*key);
            }
        }
        proof {
            assert(self.cells@.restrict(done) =~= self.cells@);
        }
        Primitive { cells: new_cells, cursor_position: self.cursor_position }
    }

    /// The same cells with the cursor placed at `cursor`.
    pub fn with_cursor(self, cursor: CursorPosition) -> (p: Primitive)
        ensures
            p@.cells == self@.cells,
            p@.cursor == Some(cursor),
    {
        Primitive { cells: self.cells, cursor_position: Some(cursor) }
    }

    /// The cell drawn at `(x, y)`, if any.
    pub fn get(&self, x: u16, y: u16) -> (cell: Option<Cell>)
        ensures
            cell == if self@.cells.contains_key((x, y)) {
                Some(self@.cells[(x, y)])
            } else {
                None
            },
    {
        broadcast use vstd::std_specs::btree::group_btree_axioms;
        match self.cells.get(&(x, y)) {
            Some(cell) => Some(*cell),
            None => None,
        }
    }

    /// The number of coordinates drawn at.
    pub fn len(&self) -> (n: usize)
        ensures
            n == self@.cells.len(),
    {
        broadcast use vstd::std_specs::btree::group_btree_axioms;
        self.cells.len()
    }

    /// Whether nothing is drawn at any coordinate.
    pub fn is_empty(&self) -> (empty: bool)
        ensures
            empty == (self@.cells.len() == 0),
    {
        self.len() == 0
    }

    /// The cells in key order.
    pub(crate) fn cells(&self) -> (cells: &BTreeMap<(u16, u16), Cell>)
        ensures
            cells@ == self@.cells,
    {
        &self.cells
    }

    /// The cursor placement, if the primitive carries one.
    pub fn cursor_position(&self) -> (cursor: Option<CursorPosition>)
        ensures
            cursor == self@.cursor,
    {
        self.cursor_position
    }
}

/// Merging no primitives gives the empty drawing.
pub proof fn lemma_merge_of_nothing()
    ensures
        merge_drawings(Seq::<Drawing>::empty()) == empty_drawing(),
{
}

/// The empty drawing is neutral on both sides of an overlay.
pub proof fn lemma_overlay_identity(drawing: Drawing)
    ensures
        overlay_drawing(empty_drawing(), drawing) == drawing,
        overlay_drawing(drawing, empty_drawing()) == drawing,
{
    assert(overlay_cells(Map::empty(), drawing.cells) =~= drawing.cells);
    assert(overlay_cells(drawing.cells, Map::empty()) =~= drawing.cells);
}

/// Merging a list of one primitive gives that primitive.
pub proof fn lemma_merge_of_one(drawing: Drawing)
    ensures
        merge_drawings(seq![drawing]) == drawing,
{
    let one = seq![drawing];
    assert(one.drop_last() =~= Seq::<Drawing>::empty());
    assert(merge_drawings(one.drop_last()) == empty_drawing());
    assert(one.last() == drawing);
    lemma_overlay_identity(drawing);
}

/// Merging two primitives is laying the second over the first.
pub proof fn lemma_merge_of_two(first: Drawing, second: Drawing)
    ensures
        merge_drawings(seq![first, second]) == overlay_drawing(first, second),
{
    let two = seq![first, second];
    assert(two.drop_last() =~= seq![first]);
    assert(two.last() == second);
    lemma_merge_of_one(first);
}

/// At a coordinate that two merged primitives both draw, the result is the
/// second cell laid over the first: the second's glyph and style fields win
/// where they are set.
pub proof fn lemma_merge_overrides(first: Drawing, second: Drawing, at: (u16, u16))
    requires
        first.cells.contains_key(at),
        second.cells.contains_key(at),
    ensures
        merge_drawings(seq![first, second]).cells.contains_key(at),
        merge_drawings(seq![first, second]).cells[at] == merge_cell(
            first.cells[at],
            second.cells[at],
        ),
{
    lemma_merge_of_two(first, second);
}

/// At a coordinate that only one of two merged primitives draws, the result
/// is that primitive's cell.
pub proof fn lemma_merge_keeps_lone_cell(first: Drawing, second: Drawing, at: (u16, u16))
    requires
        first.cells.contains_key(at) != second.cells.contains_key(at),
    ensures
        merge_drawings(seq![first, second]).cells.contains_key(at),
        merge_drawings(seq![first, second]).cells[at] == if first.cells.contains_key(at) {
            first.cells[at]
        } else {
            second.cells[at]
        },
{
    lemma_merge_of_two(first, second);
}

/// Overlaying is associative, so a merge may be split at any point of the
/// list.
pub proof fn lemma_overlay_associative(a: Drawing, b: Drawing, c: Drawing)
    ensures
        overlay_drawing(overlay_drawing(a, b), c) == overlay_drawing(a, overlay_drawing(b, c)),
{
    assert(overlay_cells(overlay_cells(a.cells, b.cells), c.cells) =~= overlay_cells(
        a.cells,
        overlay_cells(b.cells, c.cells),
    ));
}

/// Merging a concatenation is overlaying the merge of the second part over
/// the merge of the first.
pub proof fn lemma_merge_of_concat(front: Seq<Drawing>, back: Seq<Drawing>)
    ensures
        merge_drawings(front + back) == overlay_drawing(
            merge_drawings(front),
            merge_drawings(back),
        ),
    decreases back.len(),
{
    if back.len() == 0 {
        assert(front + back =~= front);
        lemma_overlay_identity(merge_drawings(front));
    } else {
        assert((front + back).drop_last() =~= front + back.drop_last());
        assert((front + back).last() == back.last());
        lemma_merge_of_concat(front, back.drop_last());
        lemma_overlay_associative(
            merge_drawings(front),
            merge_drawings(back.drop_last()),
            back.last(),
        );
    }
}

/// The cursor of the last drawing of a list that places one, if any does.
pub open spec fn last_cursor(drawings: Seq<Drawing>) -> Option<CursorPosition>
    decreases drawings.len(),
{
    if drawings.len() == 0 {
        None
    } else if drawings.last().cursor is Some {
        drawings.last().cursor
    } else {
        last_cursor(drawings.drop_last())
    }
}

/// A merge has at most one cursor, and the last writer wins: it is the cursor
/// of the last primitive of the list that places one.
pub proof fn lemma_merge_takes_last_cursor(drawings: Seq<Drawing>)
    ensures
        merge_drawings(drawings).cursor == last_cursor(drawings),
    decreases drawings.len(),
{
    if drawings.len() > 0 {
        lemma_merge_takes_last_cursor(drawings.drop_last());
    }
}

/// A rectangle without width or without height draws nothing.
pub proof fn lemma_degenerate_rectangle_is_empty(
    start_x: u16,
    start_y: u16,
    width: u16,
    height: u16,
    fill: Cell,
)
    requires
        width == 0 || height == 0,
    ensures
        rectangle_cells(start_x, start_y, width, height, fill) == Map::<(u16, u16), Cell>::empty(),
{
    assert(rectangle_cells(start_x, start_y, width, height, fill) =~= Map::<
        (u16, u16),
        Cell,
    >::empty());
}

} // verus!
