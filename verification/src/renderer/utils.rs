//! Packing sibling boxes onto whole cells, and cropping text to a box.

use super::primitives::Cell;
use super::primitives::PrimitiveCell;
use super::style::Style;
use vstd::prelude::*;
use vstd::std_specs::iter::IteratorSpec;

verus! {

/// The axis along which the siblings of a list are packed.
#[derive(Debug, Clone, Copy, PartialEq, Eq, Structural)]
pub enum RoundDirection {
    /// The siblings of a row, packed from left to right.
    Horizontal,
    /// The siblings of a column, packed from top to bottom.
    Vertical,
}

/// A sibling box as the layout planned it, relative to its parent, with each
/// coordinate and extent rounded to whole cells on its own.
#[derive(Debug, Clone, Copy, PartialEq, Eq, Structural)]
pub struct PlannedBox {
    pub x: i16,
    pub y: i16,
    pub width: i16,
    pub height: i16,
    /// Whether the plan left more than six tenths of a cell between the end
    /// of the sibling before, along the packing axis, and the start of this
    /// one.
    pub padded: bool,
}

/// A sibling box on whole cells.
#[derive(Debug, Clone, Copy, PartialEq, Eq, Structural)]
pub struct RoundedBox {
    pub x: i32,
    pub y: i32,
    pub width: i32,
    pub height: i32,
}

/// The most siblings one list can pack: with more, positions may leave the
/// range of the result's integers.
pub const MAX_SIBLINGS: usize = 0xffff;

/// What a rounded box is: its position and extent in cells.
pub struct Placed {
    pub x: int,
    pub y: int,
    pub width: int,
    pub height: int,
}

impl View for RoundedBox {
    type V = Placed;

    open spec fn view(&self) -> Placed {
        Placed {
            x: self.x as int,
            y: self.y as int,
            width: self.width as int,
            height: self.height as int,
        }
    }
}

impl Placed {
    /// Where the box starts along the packing axis.
    pub open spec fn start(self, direction: RoundDirection) -> int {
        match direction {
            RoundDirection::Horizontal => self.x,
            RoundDirection::Vertical => self.y,
        }
    }

    /// How far the box reaches along the packing axis.
    pub open spec fn length(self, direction: RoundDirection) -> int {
        match direction {
            RoundDirection::Horizontal => self.width,
            RoundDirection::Vertical => self.height,
        }
    }

    /// The first cell past the box along the packing axis.
    pub open spec fn end(self, direction: RoundDirection) -> int {
        self.start(direction) + self.length(direction)
    }
}

impl PlannedBox {
    /// The rounded planned position along the packing axis.
    pub open spec fn position(self, direction: RoundDirection) -> int {
        match direction {
            RoundDirection::Horizontal => self.x as int,
            RoundDirection::Vertical => self.y as int,
        }
    }

    /// The rounded planned length along the packing axis.
    pub open spec fn length(self, direction: RoundDirection) -> int {
        match direction {
            RoundDirection::Horizontal => self.width as int,
            RoundDirection::Vertical => self.height as int,
        }
    }
}

/// What the pass carries from one sibling to the next.
pub struct Packing {
    /// Whether a sibling was placed yet.
    pub started: bool,
    /// The first cell past the sibling placed last; zero before the first.
    pub end: int,
    /// The lengths handed out so far, summed.
    pub filled: int,
}

/// The state of the pass before the first sibling.
pub open spec fn initial_packing() -> Packing {
    Packing { started: false, end: 0, filled: 0 }
}

/// Where a sibling starts: at its own rounded position, but never before the
/// end of the sibling placed before it; and one cell further where the plan
/// had padding that would otherwise be lost, that is, where the sibling would
/// start exactly at the end of the one before.
pub open spec fn placed_start(before: Packing, position: int, padded: bool) -> int {
    let candidate = if before.started && before.end > position {
        before.end
    } else {
        position
    };
    if padded && candidate == before.end {
        candidate + 1
    } else {
        candidate
    }
}

/// How long a sibling gets: its own rounded length, cut down so that the
/// lengths handed out so far never sum to more than `total`.
pub open spec fn placed_length(before: Packing, length: int, total: int) -> int {
    if before.filled + length > total {
        total - before.filled
    } else {
        length
    }
}

/// The state of the pass after one more sibling.
pub open spec fn packing_step(
    before: Packing,
    planned: PlannedBox,
    direction: RoundDirection,
    total: int,
) -> Packing {
    let start = placed_start(before, planned.position(direction), planned.padded);
    let length = placed_length(before, planned.length(direction), total);
    Packing { started: true, end: start + length, filled: before.filled + length }
}

/// The state of the pass after all of `planned`.
pub open spec fn packing_after(planned: Seq<PlannedBox>, direction: RoundDirection, total: int) -> Packing
    decreases planned.len(),
{
    if planned.len() == 0 {
        initial_packing()
    } else {
        packing_step(
            packing_after(planned.drop_last(), direction, total),
            planned.last(),
            direction,
            total,
        )
    }
}

/// The box a sibling gets when the pass arrives at it in state `before`:
/// packed along the axis, and as planned across it.
pub open spec fn place(before: Packing, planned: PlannedBox, direction: RoundDirection, total: int) -> Placed {
    let start = placed_start(before, planned.position(direction), planned.padded);
    let length = placed_length(before, planned.length(direction), total);
    match direction {
        RoundDirection::Horizontal => Placed {
            x: start,
            y: planned.y as int,
            width: length,
            height: planned.height as int,
        },
        RoundDirection::Vertical => Placed {
            x: planned.x as int,
            y: start,
            width: planned.width as int,
            height: length,
        },
    }
}

/// The boxes of a whole list, in the order of the list: each sibling is
/// placed in the state that the siblings before it left.
pub open spec fn rounded_list(planned: Seq<PlannedBox>, direction: RoundDirection, total: int) -> Seq<
    Placed,
> {
    Seq::new(
        planned.len(),
        |i: int| place(packing_after(planned.take(i), direction, total), planned[i], direction, total),
    )
}

/// The boxes that a vector of rounded boxes stands for.
pub open spec fn placed_of(boxes: Seq<RoundedBox>) -> Seq<Placed> {
    boxes.map_values(|b: RoundedBox| b@)
}

/// The bounds that the state of the pass keeps after `n` siblings.
pub open spec fn packing_in_range(packing: Packing, n: int, total: int) -> bool {
    &&& -0x1_0000 <= packing.end <= 0x7fff + 0x8000 * n
    &&& -0x8000 * n <= packing.filled
    &&& packing.filled <= if total > 0 { total } else { 0 }
}

/// Packs the siblings of one list onto whole cells, in one pass and in their
/// order. `planned_total` is the rounded sum of the planned lengths along the
/// packing axis.
pub fn round_layout_list(
    planned_layouts: &Vec<PlannedBox>,
    planned_total: i16,
    direction: RoundDirection,
) -> (results: Vec<RoundedBox>)
    requires
        planned_layouts@.len() <= MAX_SIBLINGS,
    ensures
        placed_of(results@) == rounded_list(planned_layouts@, direction, planned_total as int),
{
    let n = planned_layouts.len();
    let total: i32 = planned_total as i32;
    let mut results: Vec<RoundedBox> = Vec::with_capacity(n);
    let mut started = false;
    let mut last_result_end: i32 = 0;
    let mut current_sum_length: i32 = 0;
    let mut i: usize = 0;
    proof {
        assert(planned_layouts@.take(0) =~= Seq::<PlannedBox>::empty());
    }
    while i < n
        invariant
            n == planned_layouts@.len(),
            n <= MAX_SIBLINGS,
            i <= n,
            total == planned_total,
            results@.len() == i,
            packing_after(planned_layouts@.take(i as int), direction, total as int) == (Packing {
                started,
                end: last_result_end as int,
                filled: current_sum_length as int,
            }),
            packing_in_range(
                packing_after(planned_layouts@.take(i as int), direction, total as int),
                i as int,
                total as int,
            ),
            forall|k: int|
                0 <= k < i ==> (#[trigger] results@[k])@ == place(
                    packing_after(planned_layouts@.take(k), direction, total as int),
                    planned_layouts@[k],
                    direction,
                    total as int,
                ),
        decreases n - i,
    {
        let planned = planned_layouts[i];
        let planned_position: i32 = match direction {
            RoundDirection::Horizontal => planned.x as i32,
            RoundDirection::Vertical => planned.y as i32,
        };
        let planned_length: i32 = match direction {
            RoundDirection::Horizontal => planned.width as i32,
            RoundDirection::Vertical => planned.height as i32,
        };
        let mut result_position: i32 = if started && last_result_end > planned_position {
            last_result_end
        } else {
            planned_position
        };
        if planned.padded && result_position == last_result_end {
            result_position += 1;
        }
        let mut result_length: i32 = planned_length;
        if current_sum_length + result_length > total {
            result_length = total - current_sum_length;
        }
        proof {
            assert(planned_layouts@.take(i + 1).drop_last() =~= planned_layouts@.take(i as int));
            assert(planned_layouts@.take(i + 1).last() == planned);
        }
        current_sum_length += result_length;
        last_result_end = result_position + result_length;
        started = true;
        results.push(
            match direction {
                RoundDirection::Horizontal => RoundedBox {
                    x: result_position,
                    y: planned.y as i32,
                    width: result_length,
                    height: planned.height as i32,
                },
                RoundDirection::Vertical => RoundedBox {
                    x: planned.x as i32,
                    y: result_position,
                    width: planned.width as i32,
                    height: result_length,
                },
            },
        );
        i += 1;
    }
    proof {
        assert(placed_of(results@) =~= rounded_list(
            planned_layouts@,
            direction,
            planned_total as int,
        ));
    }
    results
}

/// Whether every planned length along the packing axis is at least zero.
pub open spec fn lengths_are_natural(planned: Seq<PlannedBox>, direction: RoundDirection) -> bool {
    forall|i: int| 0 <= i < planned.len() ==> (#[trigger] planned[i]).length(direction) >= 0
}

/// The rounded planned lengths along the packing axis, summed.
pub open spec fn planned_length_sum(planned: Seq<PlannedBox>, direction: RoundDirection) -> int
    decreases planned.len(),
{
    if planned.len() == 0 {
        0
    } else {
        planned_length_sum(planned.drop_last(), direction) + planned.last().length(direction)
    }
}

/// The lengths of a list of boxes along the packing axis, summed.
pub open spec fn placed_length_sum(boxes: Seq<Placed>, direction: RoundDirection) -> int
    decreases boxes.len(),
{
    if boxes.len() == 0 {
        0
    } else {
        placed_length_sum(boxes.drop_last(), direction) + boxes.last().length(direction)
    }
}

/// The boxes of a shorter list are the first boxes of the longer one: a
/// sibling's box depends only on the siblings before it.
pub proof fn lemma_rounded_list_prefix(
    planned: Seq<PlannedBox>,
    direction: RoundDirection,
    total: int,
    n: int,
)
    requires
        0 <= n <= planned.len(),
    ensures
        rounded_list(planned.take(n), direction, total) == rounded_list(
            planned,
            direction,
            total,
        ).take(n),
{
    let short = rounded_list(planned.take(n), direction, total);
    let long = rounded_list(planned, direction, total).take(n);
    assert forall|i: int| 0 <= i < n implies short[i] == long[i] by {
        assert(planned.take(n).take(i) =~= planned.take(i));
    }
    assert(short =~= long);
}

/// With natural planned lengths and a natural total, the lengths handed out
/// stay between zero and the total, and they sum to the lesser of the total
/// and the sum of the planned lengths.
pub proof fn lemma_packing_filled(planned: Seq<PlannedBox>, direction: RoundDirection, total: int)
    requires
        total >= 0,
        lengths_are_natural(planned, direction),
    ensures
        packing_after(planned, direction, total).filled == if planned_length_sum(planned, direction)
            < total {
            planned_length_sum(planned, direction)
        } else {
            total
        },
        planned_length_sum(planned, direction) >= 0,
        packing_after(planned, direction, total).started == (planned.len() > 0),
    decreases planned.len(),
{
    if planned.len() > 0 {
        let shorter = planned.drop_last();
        assert forall|i: int| 0 <= i < shorter.len() implies (#[trigger] shorter[i]).length(
            direction,
        ) >= 0 by {
            assert(shorter[i] == planned[i]);
        }
        lemma_packing_filled(shorter, direction, total);
    }
}

/// The state of the pass after a sibling ends where that sibling's box ends,
/// and its filled length is the sum of the lengths of the boxes so far.
pub proof fn lemma_packing_follows_boxes(
    planned: Seq<PlannedBox>,
    direction: RoundDirection,
    total: int,
)
    ensures
        planned.len() > 0 ==> packing_after(planned, direction, total).end == rounded_list(
            planned,
            direction,
            total,
        ).last().end(direction),
        packing_after(planned, direction, total).filled == placed_length_sum(
            rounded_list(planned, direction, total),
            direction,
        ),
    decreases planned.len(),
{
    let boxes = rounded_list(planned, direction, total);
    if planned.len() > 0 {
        let shorter = planned.drop_last();
        lemma_packing_follows_boxes(shorter, direction, total);
        assert(shorter =~= planned.take(planned.len() - 1));
        lemma_rounded_list_prefix(planned, direction, total, planned.len() - 1);
        assert(boxes.drop_last() =~= boxes.take(planned.len() - 1));
    }
}

/// Rounding non-overlap: with natural planned lengths, every box has a
/// natural length, and each box starts at or after the end of every box
/// before it, so the boxes keep the order of the list and never overlap along
/// the packing axis.
pub proof fn lemma_rounded_boxes_do_not_overlap(
    planned: Seq<PlannedBox>,
    direction: RoundDirection,
    total: int,
)
    requires
        total >= 0,
        lengths_are_natural(planned, direction),
    ensures
        forall|i: int|
            0 <= i < planned.len() ==> (#[trigger] rounded_list(planned, direction, total)[i]).length(
                direction,
            ) >= 0,
        forall|i: int, j: int|
            0 <= i < j < planned.len() ==> (#[trigger] rounded_list(planned, direction, total)[i]).end(
                direction,
            ) <= (#[trigger] rounded_list(planned, direction, total)[j]).start(direction),
{
    let boxes = rounded_list(planned, direction, total);
    assert forall|i: int| 0 <= i < planned.len() implies (#[trigger] boxes[i]).length(direction)
        >= 0 by {
        lemma_box_is_natural(planned, direction, total, i);
    }
    assert forall|i: int, j: int| 0 <= i < j < planned.len() implies (#[trigger] boxes[i]).end(
        direction,
    ) <= (#[trigger] boxes[j]).start(direction) by {
        lemma_boxes_in_order(planned, direction, total, i, j);
    }
}

proof fn lemma_prefix_is_natural(planned: Seq<PlannedBox>, direction: RoundDirection, n: int)
    requires
        lengths_are_natural(planned, direction),
        0 <= n <= planned.len(),
    ensures
        lengths_are_natural(planned.take(n), direction),
{
    assert forall|i: int| 0 <= i < n implies (#[trigger] planned.take(n)[i]).length(direction)
        >= 0 by {
        assert(planned.take(n)[i] == planned[i]);
    }
}

proof fn lemma_box_is_natural(
    planned: Seq<PlannedBox>,
    direction: RoundDirection,
    total: int,
    i: int,
)
    requires
        total >= 0,
        lengths_are_natural(planned, direction),
        0 <= i < planned.len(),
    ensures
        rounded_list(planned, direction, total)[i].length(direction) >= 0,
        i > 0 ==> rounded_list(planned, direction, total)[i - 1].end(direction) <= rounded_list(
            planned,
            direction,
            total,
        )[i].start(direction),
{
    lemma_prefix_is_natural(planned, direction, i);
    lemma_packing_filled(planned.take(i), direction, total);
    lemma_packing_follows_boxes(planned.take(i), direction, total);
    lemma_rounded_list_prefix(planned, direction, total, i);
}

proof fn lemma_boxes_in_order(
    planned: Seq<PlannedBox>,
    direction: RoundDirection,
    total: int,
    i: int,
    j: int,
)
    requires
        total >= 0,
        lengths_are_natural(planned, direction),
        0 <= i < j < planned.len(),
    ensures
        rounded_list(planned, direction, total)[i].end(direction) <= rounded_list(
            planned,
            direction,
            total,
        )[j].start(direction),
    decreases j - i,
{
    lemma_box_is_natural(planned, direction, total, j);
    if i + 1 < j {
        lemma_boxes_in_order(planned, direction, total, i, j - 1);
        lemma_box_is_natural(planned, direction, total, j - 1);
    }
}

/// Rounding footprint: with natural planned lengths the lengths of the boxes
/// sum to the lesser of the rounded planned total and the sum of the rounded
/// planned lengths. So the footprint never exceeds the total, and it is the
/// total exactly when the rounded lengths reach it.
pub proof fn lemma_rounded_footprint(planned: Seq<PlannedBox>, direction: RoundDirection, total: int)
    requires
        total >= 0,
        lengths_are_natural(planned, direction),
    ensures
        placed_length_sum(rounded_list(planned, direction, total), direction) == if planned_length_sum(
            planned,
            direction,
        ) < total {
            planned_length_sum(planned, direction)
        } else {
            total
        },
        placed_length_sum(rounded_list(planned, direction, total), direction) <= total,
        planned_length_sum(planned, direction) >= total ==> placed_length_sum(
            rounded_list(planned, direction, total),
            direction,
        ) == total,
{
    lemma_packing_filled(planned, direction, total);
    lemma_packing_follows_boxes(planned, direction, total);
}

/// Padding is kept: a padded sibling never starts at the cell where the
/// sibling before it ends; there is at least one cell between them.
pub proof fn lemma_padding_is_kept(
    planned: Seq<PlannedBox>,
    direction: RoundDirection,
    total: int,
    i: int,
)
    requires
        0 < i < planned.len(),
        planned[i].padded,
    ensures
        rounded_list(planned, direction, total)[i].start(direction) > rounded_list(
            planned,
            direction,
            total,
        )[i - 1].end(direction),
{
    lemma_packing_follows_boxes(planned.take(i), direction, total);
    lemma_rounded_list_prefix(planned, direction, total, i);
    assert(packing_after(planned.take(i), direction, total).started);
}

/// No gap is made up: a sibling that is not padded starts at its own rounded
/// position, or at the end of the sibling before it where that lies further.
pub proof fn lemma_no_gap_without_padding(
    planned: Seq<PlannedBox>,
    direction: RoundDirection,
    total: int,
    i: int,
)
    requires
        0 < i < planned.len(),
        !planned[i].padded,
    ensures
        rounded_list(planned, direction, total)[i].start(direction) == if rounded_list(
            planned,
            direction,
            total,
        )[i - 1].end(direction) > planned[i].position(direction) {
            rounded_list(planned, direction, total)[i - 1].end(direction)
        } else {
            planned[i].position(direction)
        },
{
    lemma_packing_follows_boxes(planned.take(i), direction, total);
    lemma_rounded_list_prefix(planned, direction, total, i);
    assert(packing_after(planned.take(i), direction, total).started);
}

/// Whether a character takes a cell. Control characters below code 30 do
/// not.
pub open spec fn printable(c: char) -> bool {
    c as u32 >= 30
}

/// Whether a character takes a cell.
pub fn is_printable(c: char) -> (yes: bool)
    ensures
        yes == printable(c),
{
    c as u32 >= 30
}

/// How a text is laid out in a box.
pub struct CropRules {
    /// The columns of the box.
    pub width: u16,
    /// The rows of the box.
    pub height: u16,
    /// The cell of the first glyph.
    pub start_x: u16,
    pub start_y: u16,
    /// Whether a full row continues on the next one.
    pub auto_wrap: bool,
    /// Whether a next row may be started at all.
    pub allow_wrap: bool,
    /// Whether cells are collected, or the text is only measured.
    pub return_primitives: bool,
    /// The style of every collected cell.
    pub style: Style,
}

/// Where the layout of a text stands after some of its characters.
pub struct Cropping {
    /// Whether the layout ran out of rows and ignores what follows.
    pub stopped: bool,
    /// The glyphs on the current row.
    pub row_width: int,
    /// The glyphs on the fullest row so far.
    pub filled_width: int,
    /// The rows started so far.
    pub filled_height: int,
    /// The cells collected so far.
    pub cells: Seq<PrimitiveCell>,
}

/// The layout before the first character: one row is started, and it is empty.
pub open spec fn initial_cropping() -> Cropping {
    Cropping { stopped: false, row_width: 0, filled_width: 0, filled_height: 1, cells: Seq::empty() }
}

/// The rules that the arguments of [`crop_text_to_bounds`] stand for. Without
/// a size the box is as wide and as high as a `u16` can say.
pub open spec fn crop_rules(
    size: Option<(u16, u16)>,
    start_x: u16,
    start_y: u16,
    auto_wrap: bool,
    return_primitives: bool,
    style: Style,
    allow_wrap: bool,
) -> CropRules {
    CropRules {
        width: match size {
            Some(size) => size.0,
            None => u16::MAX,
        },
        height: match size {
            Some(size) => size.1,
            None => u16::MAX,
        },
        start_x,
        start_y,
        auto_wrap,
        allow_wrap,
        return_primitives,
        style,
    }
}

/// Whether the character asks for a new row: it is a line feed, or the row is
/// full and full rows wrap.
pub open spec fn wants_new_row(rules: CropRules, at: Cropping, c: char) -> bool {
    c == '\n' || (at.row_width >= rules.width && rules.auto_wrap)
}

/// Whether a new row can be started: wrapping is allowed and the box has a
/// row left.
pub open spec fn has_row_left(rules: CropRules, at: Cropping) -> bool {
    rules.allow_wrap && at.filled_height < rules.height
}

/// The layout after one more character.
///
/// A character that asks for a new row where none can be started ends the
/// layout. Otherwise the new row is started where asked for; then a line
/// feed, a character on a full row and a character that is not printable are
/// dropped, and any other character takes the next cell of the row. Its cell
/// is collected when cells are asked for and its coordinate exists.
pub open spec fn crop_step(rules: CropRules, at: Cropping, c: char) -> Cropping {
    if at.stopped {
        at
    } else if wants_new_row(rules, at, c) && !has_row_left(rules, at) {
        Cropping { stopped: true, ..at }
    } else {
        let row = if wants_new_row(rules, at, c) {
            Cropping { row_width: 0, filled_height: at.filled_height + 1, ..at }
        } else {
            at
        };
        if row.row_width >= rules.width || c == '\n' || !printable(c) {
            row
        } else {
            let x = rules.start_x + row.row_width;
            let y = rules.start_y + row.filled_height - 1;
            Cropping {
                row_width: row.row_width + 1,
                filled_width: if row.row_width + 1 > row.filled_width {
                    row.row_width + 1
                } else {
                    row.filled_width
                },
                cells: if rules.return_primitives && x <= u16::MAX && y <= u16::MAX {
                    row.cells.push(
                        PrimitiveCell {
                            x: x as u16,
                            y: y as u16,
                            cell: Cell { content: Some(c), style: rules.style },
                        },
                    )
                } else {
                    row.cells
                },
                ..row
            }
        }
    }
}

/// The layout after all of `text`.
pub open spec fn crop_fold(rules: CropRules, text: Seq<char>) -> Cropping
    decreases text.len(),
{
    if text.len() == 0 {
        initial_cropping()
    } else {
        crop_step(rules, crop_fold(rules, text.drop_last()), text.last())
    }
}

/// The rows that a finished layout filled: a last row without a glyph does
/// not count.
pub open spec fn cropped_height(at: Cropping) -> int {
    if at.row_width == 0 {
        at.filled_height - 1
    } else {
        at.filled_height
    }
}

/// The bounds that a layout keeps.
pub open spec fn cropping_in_range(rules: CropRules, at: Cropping) -> bool {
    &&& 0 <= at.row_width <= at.filled_width <= rules.width
    &&& 1 <= at.filled_height
    &&& at.filled_height <= if rules.height > 1 { rules.height as int } else { 1 }
}

/// The layout of any text stays inside the box.
pub proof fn lemma_crop_stays_in_box(rules: CropRules, text: Seq<char>)
    ensures
        cropping_in_range(rules, crop_fold(rules, text)),
    decreases text.len(),
{
    if text.len() > 0 {
        lemma_crop_stays_in_box(rules, text.drop_last());
    }
}

/// Lays `content` out in a box and returns the cells of its glyphs, the
/// width of the fullest row and the number of rows filled.
///
/// `size` is the box as `(columns, rows)`; without it the box is unbounded.
/// The first glyph goes to `(start_x, start_y)`.
pub fn crop_text_to_bounds(
    content: &str,
    size: Option<(u16, u16)>,
    start_x: u16,
    start_y: u16,
    auto_wrap: bool,
    return_primitives: bool,
    style: Style,
    allow_wrap: bool,
) -> (cropped: (Vec<PrimitiveCell>, u16, u16))
    ensures
        cropped.0@ == crop_fold(
            crop_rules(size, start_x, start_y, auto_wrap, return_primitives, style, allow_wrap),
            content@,
        ).cells,
        cropped.1 == crop_fold(
            crop_rules(size, start_x, start_y, auto_wrap, return_primitives, style, allow_wrap),
            content@,
        ).filled_width,
        cropped.2 == cropped_height(
            crop_fold(
                crop_rules(size, start_x, start_y, auto_wrap, return_primitives, style, allow_wrap),
                content@,
            ),
        ),
{
    broadcast use vstd::string::group_string_axioms;
    let ghost rules = crop_rules(
        size,
        start_x,
        start_y,
        auto_wrap,
        return_primitives,
        style,
        allow_wrap,
    );
    let mut primitive_cells: Vec<PrimitiveCell> = Vec::new();
    let bounds_width: u16 = match size {
        Some(size) => size.0,
        None => u16::MAX,
    };
    let bounds_height: u16 = match size {
        Some(size) => size.1,
        None => u16::MAX,
    };
    let mut stopped = false;
    let mut filled_width: u16 = 0;
    let mut filled_height: u16 = 1;
    let mut row_width: u16 = 0;
    proof {
        assert(content@.take(0) =~= Seq::<char>::empty());
    }
    for c in it: content.chars()
        invariant
            it.seq() == content@,
            rules == crop_rules(
                size,
                start_x,
                start_y,
                auto_wrap,
                return_primitives,
                style,
                allow_wrap,
            ),
            bounds_width == rules.width,
            bounds_height == rules.height,
            cropping_in_range(rules, crop_fold(rules, content@.take(it.index() as int))),
            crop_fold(rules, content@.take(it.index() as int)) == (Cropping {
                stopped,
                row_width: row_width as int,
                filled_width: filled_width as int,
                filled_height: filled_height as int,
                cells: primitive_cells@,
            }),
    {
        proof {
            let i = it.index() as int;
            assert(content@.take(i + 1).drop_last() =~= content@.take(i));
            assert(content@.take(i + 1).last() == c);
            lemma_crop_stays_in_box(rules, content@.take(i + 1));
        }
        if !stopped {
            let new_row = c == '\n' || (row_width >= bounds_width && auto_wrap);
            if new_row && !(allow_wrap && filled_height < bounds_height) {
                stopped = true;
            } else {
                if new_row {
                    row_width = 0;
                    filled_height += 1;
                }
                if !(row_width >= bounds_width || c == '\n' || !is_printable(c)) {
                    let x: u32 = start_x as u32 + row_width as u32;
                    let y: u32 = start_y as u32 + filled_height as u32 - 1;
                    if return_primitives && x <= 0xffff && y <= 0xffff {
                        primitive_cells.push(
                            PrimitiveCell {
                                x: x as u16,
                                y: y as u16,
                                cell: Cell { content: Some(c), style },
                            },
                        );
                    }
                    row_width += 1;
                    if row_width > filled_width {
                        filled_width = row_width;
                    }
                }
            }
        }
    }
    proof {
        assert(content@.take(content@.len() as int) =~= content@);
    }
    if row_width == 0 {
        filled_height -= 1;
    }
    (primitive_cells, filled_width, filled_height)
}

} // verus!
