//! The painter: from a frame and the frame before it to the terminal
//! operations that bring the screen up to date.

use super::colors::TermColor;
use super::primitives::empty_cell;
use super::primitives::Cell;
use super::primitives::Drawing;
use super::primitives::Primitive;
use super::style::CursorShape;
use super::style::CursorStyle;
use super::style::Style;
use super::virtual_buffer::rasterize;
use super::virtual_buffer::blank_frame;
use super::virtual_buffer::equal_cells;
use super::virtual_buffer::rows_of;
use super::virtual_buffer::Frame;
use super::virtual_buffer::VirtualBuffer;
use vstd::prelude::*;

verus! {

/// `String::push` of the standard library: appends one character to the end
/// of the string.
pub assume_specification[ String::push ](s: &mut String, c: char)
    ensures
        final(s)@ == old(s)@.push(c),
;

/// What a cell shows: its glyph, or a space where it has none.
pub open spec fn glyph_of(cell: Cell) -> char {
    match cell.content {
        Some(c) => c,
        None => ' ',
    }
}

/// A run: a style and the glyphs of the adjacent cells that share it.
pub struct Run {
    pub style: Style,
    pub text: Seq<char>,
}

/// The runs of a row, from left to right: each cell joins the run before it
/// when their styles are identical and starts a new run otherwise.
pub open spec fn style_runs(cells: Seq<Cell>) -> Seq<Run>
    decreases cells.len(),
{
    if cells.len() == 0 {
        Seq::empty()
    } else {
        let before = style_runs(cells.drop_last());
        let cell = cells.last();
        if before.len() > 0 && before.last().style == cell.style {
            before.drop_last().push(
                Run { style: cell.style, text: before.last().text.push(glyph_of(cell)) },
            )
        } else {
            before.push(Run { style: cell.style, text: seq![glyph_of(cell)] })
        }
    }
}

/// The runs that a vector of styled strings stands for.
pub open spec fn runs_of(runs: Seq<(Style, String)>) -> Seq<Run> {
    runs.map_values(|run: (Style, String)| Run { style: run.0, text: run.1@ })
}

/// Splits a row into its runs.
pub fn split_by_style(cells: &[Cell]) -> (runs: Vec<(Style, String)>)
    ensures
        runs_of(runs@) == style_runs(cells@),
{
    let mut last_style = Style::new();
    let mut results: Vec<(Style, String)> = Vec::new();
    let mut last_string = String::new();
    let n = cells.len();
    let mut i: usize = 0;
    proof {
        assert(cells@.take(0) =~= Seq::<Cell>::empty());
        assert(runs_of(results@) =~= Seq::<Run>::empty());
    }
    while i < n
        invariant
            n == cells@.len(),
            i <= n,
            i == 0 ==> last_string@.len() == 0 && results@.len() == 0,
            i > 0 ==> last_string@.len() > 0,
            i > 0 ==> style_runs(cells@.take(i as int)) == runs_of(results@).push(
                Run { style: last_style, text: last_string@ },
            ),
        decreases n - i,
    {
        let cell = cells[i];
        proof {
            assert(cells@.take(i + 1).drop_last() =~= cells@.take(i as int));
            assert(cells@.take(i + 1).last() == cell);
        }
        if i > 0 && last_style != cell.style {
            let ghost closed = runs_of(results@).push(
                Run { style: last_style, text: last_string@ },
            );
            results.push((last_style, last_string));
            last_string = String::new();
            proof {
                assert(runs_of(results@) =~= closed);
            }
        }
        let ghost open_text = last_string@;
        last_string.push(
            match cell.content {
                Some(c) => c,
                None => ' ',
            },
        );
        last_style = cell.style;
        proof {
            let before = style_runs(cells@.take(i as int));
            let now = runs_of(results@).push(Run { style: last_style, text: last_string@ });
            if open_text.len() == 0 {
                assert(last_string@ =~= seq![glyph_of(cell)]);
            } else {
                assert(before.drop_last() =~= runs_of(results@));
            }
            assert(style_runs(cells@.take(i + 1)) == now);
        }
        i += 1;
    }
    if i > 0 {
        let ghost closed = runs_of(results@).push(Run { style: last_style, text: last_string@ });
        results.push((last_style, last_string));
        proof {
            assert(runs_of(results@) =~= closed);
        }
    }
    proof {
        assert(cells@.take(n as int) =~= cells@);
    }
    results
}

/// Every row has at least one run unless it has no cell.
pub proof fn lemma_runs_of_a_row(cells: Seq<Cell>)
    ensures
        style_runs(cells).len() > 0 <==> cells.len() > 0,
        style_runs(cells).len() <= cells.len(),
        cells.len() > 0 ==> style_runs(cells).last().style == cells.last().style,
        forall|r: int| 0 <= r < style_runs(cells).len() ==> (#[trigger] style_runs(cells)[r]).text.len() > 0,
    decreases cells.len(),
{
    if cells.len() > 0 {
        lemma_runs_of_a_row(cells.drop_last());
    }
}

/// Whether a row of the current frame has to be painted again: always when
/// the two frames differ in size, else when the row differs from the same row
/// of the frame before.
pub open spec fn row_is_dirty(current: Frame, previous: Frame, y: int) -> bool {
    current.width != previous.width || current.height != previous.height || current.rows[y]
        != previous.rows[y]
}

/// The dirty rows among the first `n`, in increasing order.
pub open spec fn dirty_rows_below(current: Frame, previous: Frame, n: int) -> Seq<int>
    decreases n,
{
    if n <= 0 {
        Seq::empty()
    } else {
        let below = dirty_rows_below(current, previous, n - 1);
        if row_is_dirty(current, previous, n - 1) {
            below.push(n - 1)
        } else {
            below
        }
    }
}

/// The rows of the current frame that differ from the frame before, in
/// increasing order.
pub open spec fn dirty_rows(current: Frame, previous: Frame) -> Seq<int> {
    dirty_rows_below(current, previous, current.height as int)
}

/// What is on the screen before a frame is painted: the frame before, or,
/// where none came before, a blank screen of the size of the current frame.
pub open spec fn screen_before(current: Frame, previous: Option<Frame>) -> Frame {
    match previous {
        Some(previous) => previous,
        None => blank_frame(current.width, current.height),
    }
}

/// The rows to paint: the rows that differ from what is on the screen.
pub open spec fn rows_to_paint(current: Frame, previous: Option<Frame>) -> Seq<int> {
    dirty_rows(current, screen_before(current, previous))
}

/// The row indices that a list of picked rows names.
pub open spec fn indices_of(picked: Seq<(usize, &Vec<Cell>)>) -> Seq<int> {
    picked.map_values(|row: (usize, &Vec<Cell>)| row.0 as int)
}

/// Whether every picked row comes with the cells of the row it names.
pub open spec fn picked_from(picked: Seq<(usize, &Vec<Cell>)>, frame: Frame) -> bool {
    forall|k: int|
        0 <= k < picked.len() ==> 0 <= (#[trigger] picked[k]).0 < frame.rows.len()
            && picked[k].1@ == frame.rows[picked[k].0 as int]
}

/// One operation on the terminal that carries no text.
#[derive(Debug, Clone, Copy, PartialEq, Eq, Structural)]
pub enum ControlOp {
    /// Back to the terminal's default colors.
    ResetColor,
    /// Move the cursor to the given column and row, counted from zero.
    MoveTo(u16, u16),
    SetForegroundColor(TermColor),
    SetBackgroundColor(TermColor),
    SetBold,
    /// Back to the terminal's default attributes.
    ResetAttributes,
    ShowCursor,
    HideCursor,
    SetCursorShape(CursorShape),
    EnableBlinking,
    DisableBlinking,
    /// Hand everything written so far to the terminal.
    Flush,
}

/// One operation on the terminal.
#[derive(Debug, PartialEq, Eq)]
pub enum PaintOp {
    Control(ControlOp),
    /// Write the text at the cursor.
    Print(String),
}

/// What a paint operation is, with its text as a sequence of characters.
pub enum Painted {
    Control(ControlOp),
    Print(Seq<char>),
}

impl View for PaintOp {
    type V = Painted;

    open spec fn view(&self) -> Painted {
        match self {
            PaintOp::Control(op) => Painted::Control(*op),
            PaintOp::Print(text) => Painted::Print(text@),
        }
    }
}

/// The operations that a vector of paint operations stands for.
pub open spec fn painted_of(ops: Seq<PaintOp>) -> Seq<Painted> {
    ops.map_values(|op: PaintOp| op@)
}

/// The operations that set what a style sets: foreground, background, bold,
/// in this order, one for each field that differs from the default.
pub open spec fn style_on_ops(style: Style) -> Seq<Painted> {
    (match style.fg_color {
        Some(color) => seq![Painted::Control(ControlOp::SetForegroundColor(color))],
        None => Seq::empty(),
    }) + (match style.bg_color {
        Some(color) => seq![Painted::Control(ControlOp::SetBackgroundColor(color))],
        None => Seq::empty(),
    }) + (if style.is_bold {
        seq![Painted::Control(ControlOp::SetBold)]
    } else {
        Seq::empty()
    })
}

/// The operations that take back what a style set: one color reset when a
/// color was set, then one attribute reset when bold was set.
pub open spec fn style_off_ops(style: Style) -> Seq<Painted> {
    (if style.fg_color is Some || style.bg_color is Some {
        seq![Painted::Control(ControlOp::ResetColor)]
    } else {
        Seq::empty()
    }) + (if style.is_bold {
        seq![Painted::Control(ControlOp::ResetAttributes)]
    } else {
        Seq::empty()
    })
}

/// The operations of one run: set its style, print its text in one write,
/// take the style back.
pub open spec fn run_ops(run: Run) -> Seq<Painted> {
    style_on_ops(run.style) + seq![Painted::Print(run.text)] + style_off_ops(run.style)
}

/// The operations of a list of runs, one run after the other.
pub open spec fn runs_ops(runs: Seq<Run>) -> Seq<Painted>
    decreases runs.len(),
{
    if runs.len() == 0 {
        Seq::empty()
    } else {
        runs_ops(runs.drop_last()) + run_ops(runs.last())
    }
}

/// The operations of one row: move to its first column, then paint its runs.
pub open spec fn row_ops(y: int, cells: Seq<Cell>) -> Seq<Painted> {
    seq![Painted::Control(ControlOp::MoveTo(0, y as u16))] + runs_ops(style_runs(cells))
}

/// The operations of the listed rows of a frame, in the order of the list.
pub open spec fn rows_ops(frame: Frame, rows: Seq<int>) -> Seq<Painted>
    decreases rows.len(),
{
    if rows.len() == 0 {
        Seq::empty()
    } else {
        rows_ops(frame, rows.drop_last()) + row_ops(rows.last(), frame.rows[rows.last()])
    }
}

/// The operations that put the terminal cursor where the frame wants it: show
/// it, move it, shape it and set its blinking; or, where the frame has no
/// cursor, park it at the origin and hide it.
pub open spec fn cursor_ops(cursor: Option<(u16, u16, CursorStyle)>) -> Seq<Painted> {
    match cursor {
        Some((x, y, style)) => seq![
            Painted::Control(ControlOp::ShowCursor),
            Painted::Control(ControlOp::MoveTo(x, y)),
            Painted::Control(ControlOp::SetCursorShape(style.shape)),
            Painted::Control(
                if style.blinking {
                    ControlOp::EnableBlinking
                } else {
                    ControlOp::DisableBlinking
                },
            ),
        ],
        None => seq![
            Painted::Control(ControlOp::MoveTo(0, 0)),
            Painted::Control(ControlOp::HideCursor),
        ],
    }
}

/// Whether painting the frame writes any text: some row is painted and rows
/// have cells.
pub open spec fn paints_text(current: Frame, previous: Option<Frame>) -> bool {
    rows_to_paint(current, previous).len() > 0 && current.width > 0
}

/// Whether the cursor has to be set again: no frame came before, the cursor
/// differs from the one of the frame before, or text was written.
pub open spec fn cursor_is_due(current: Frame, previous: Option<Frame>) -> bool {
    ||| previous is None
    ||| previous->0.cursor != current.cursor
    ||| paints_text(current, previous)
}

/// All the operations of one frame: a color reset, the rows to paint, the
/// cursor where it is due, and one flush at the end.
pub open spec fn frame_ops(current: Frame, previous: Option<Frame>) -> Seq<Painted> {
    seq![Painted::Control(ControlOp::ResetColor)] + rows_ops(
        current,
        rows_to_paint(current, previous),
    ) + (if cursor_is_due(current, previous) {
        cursor_ops(current.cursor)
    } else {
        Seq::empty()
    }) + seq![Painted::Control(ControlOp::Flush)]
}

/// The frame that a previous buffer stands for, if there is one.
pub open spec fn frame_before(last: Option<&VirtualBuffer>) -> Option<Frame> {
    match last {
        Some(buffer) => Some(buffer@),
        None => None,
    }
}

/// Whether every cell of a row is transparent.
fn blank_cells(cells: &Vec<Cell>) -> (blank: bool)
    ensures
        blank == (forall|x: int| 0 <= x < cells@.len() ==> cells@[x] == empty_cell()),
{
    let n = cells.len();
    let mut x: usize = 0;
    while x < n
        invariant
            n == cells@.len(),
            x <= n,
            forall|j: int| 0 <= j < x ==> cells@[j] == empty_cell(),
        decreases n - x,
    {
        if !cells[x].is_empty() {
            return false;
        }
        x += 1;
    }
    true
}

/// Appends the operations of one run.
fn push_run(ops: &mut Vec<PaintOp>, style: Style, text: String)
    ensures
        painted_of(final(ops)@) == painted_of(old(ops)@) + run_ops(Run { style, text: text@ }),
{
    let ghost before = painted_of(ops@);
    let ghost run = Run { style, text: text@ };
    let mut color_changed = false;
    if let Some(color) = style.fg_color {
        ops.push(PaintOp::Control(ControlOp::SetForegroundColor(color)));
        color_changed = true;
    }
    if let Some(color) = style.bg_color {
        ops.push(PaintOp::Control(ControlOp::SetBackgroundColor(color)));
        color_changed = true;
    }
    if style.is_bold {
        ops.push(PaintOp::Control(ControlOp::SetBold));
    }
    proof {
        assert(painted_of(ops@) =~= before + style_on_ops(style));
    }
    ops.push(PaintOp::Print(text));
    if color_changed {
        ops.push(PaintOp::Control(ControlOp::ResetColor));
    }
    if style.is_bold {
        ops.push(PaintOp::Control(ControlOp::ResetAttributes));
    }
    proof {
        assert(painted_of(ops@) =~= before + run_ops(run));
    }
}

/// Appends the operations of one row.
fn push_row(ops: &mut Vec<PaintOp>, y: u16, cells: &Vec<Cell>)
    ensures
        painted_of(final(ops)@) == painted_of(old(ops)@) + row_ops(y as int, cells@),
{
    let ghost before = painted_of(ops@);
    ops.push(PaintOp::Control(ControlOp::MoveTo(0, y)));
    let runs = split_by_style(cells.as_slice());
    let ghost all = style_runs(cells@);
    let n = runs.len();
    let mut j: usize = 0;
    proof {
        assert(all.take(0) =~= Seq::<Run>::empty());
        assert(painted_of(ops@) =~= before + seq![Painted::Control(ControlOp::MoveTo(0, y))]
            + runs_ops(all.take(0)));
    }
    while j < n
        invariant
            n == runs@.len(),
            j <= n,
            all == runs_of(runs@),
            painted_of(ops@) == before + seq![Painted::Control(ControlOp::MoveTo(0, y))]
                + runs_ops(all.take(j as int)),
        decreases n - j,
    {
        let style = runs[j].0;
        let text = runs[j].1.clone();
        proof {
            assert(all.take(j + 1).drop_last() =~= all.take(j as int));
            assert(all.take(j + 1).last() == Run { style, text: text@ });
        }
        push_run(ops, style, text);
        proof {
            assert(painted_of(ops@) =~= before + seq![Painted::Control(ControlOp::MoveTo(0, y))]
                + runs_ops(all.take(j + 1)));
        }
        j += 1;
    }
    proof {
        assert(all.take(n as int) =~= all);
    }
}

/// Appends the operations that set the cursor of a frame.
fn push_cursor(ops: &mut Vec<PaintOp>, cursor: Option<(u16, u16, CursorStyle)>)
    ensures
        painted_of(final(ops)@) == painted_of(old(ops)@) + cursor_ops(cursor),
{
    let ghost before = painted_of(ops@);
    match cursor {
        Some((x, y, style)) => {
            ops.push(PaintOp::Control(ControlOp::ShowCursor));
            ops.push(PaintOp::Control(ControlOp::MoveTo(x, y)));
            ops.push(PaintOp::Control(ControlOp::SetCursorShape(style.shape)));
            if style.blinking {
                ops.push(PaintOp::Control(ControlOp::EnableBlinking));
            } else {
                ops.push(PaintOp::Control(ControlOp::DisableBlinking));
            }
        },
        None => {
            ops.push(PaintOp::Control(ControlOp::MoveTo(0, 0)));
            ops.push(PaintOp::Control(ControlOp::HideCursor));
        },
    }
    proof {
        assert(painted_of(ops@) =~= before + cursor_ops(cursor));
    }
}

/// One step of bringing the terminal into the state the painter needs, or
/// back.
#[derive(Debug, Clone, Copy, PartialEq, Eq, Structural)]
pub enum ScreenOp {
    EnableRawMode,
    DisableRawMode,
    EnterAlternateScreen,
    LeaveAlternateScreen,
    EnableMouseCapture,
    ResetColor,
    ShowCursor,
    /// Hand everything written so far to the terminal.
    Flush,
}

/// What is done to the terminal before the first frame.
pub open spec fn setup_ops() -> Seq<ScreenOp> {
    seq![
        ScreenOp::EnableRawMode,
        ScreenOp::EnterAlternateScreen,
        ScreenOp::EnableMouseCapture,
        ScreenOp::Flush,
    ]
}

/// What is done to the terminal after the last frame.
pub open spec fn teardown_ops() -> Seq<ScreenOp> {
    seq![
        ScreenOp::LeaveAlternateScreen,
        ScreenOp::Flush,
        ScreenOp::DisableRawMode,
        ScreenOp::ResetColor,
        ScreenOp::ShowCursor,
        ScreenOp::Flush,
    ]
}

/// What a render result holds: the drawing, the terminal size it was drawn
/// for as `(width, height)`, and the frame that is on the screen.
pub struct Rendered {
    pub drawing: Drawing,
    pub size: (u16, u16),
    pub frame: Frame,
}

/// What one call of [`TuiRenderer::render`] leaves behind for the next: the
/// primitive that was drawn, the terminal size it was drawn for, and the
/// buffer that is on the screen.
#[derive(Debug)]
pub struct RenderResult {
    primitive: Primitive,
    size: (u16, u16),
    vbuffer: VirtualBuffer,
}

impl View for RenderResult {
    type V = Rendered;

    closed spec fn view(&self) -> Rendered {
        Rendered { drawing: self.primitive@, size: self.size, frame: self.vbuffer@ }
    }
}

impl RenderResult {
    #[verifier::type_invariant]
    spec fn rasterized(self) -> bool {
        self.vbuffer@ == rasterize(blank_frame(self.size.0, self.size.1), self.primitive@)
    }

    /// The primitive that was drawn.
    pub fn primitive(&self) -> (primitive: &Primitive)
        ensures
            primitive@ == self@.drawing,
    {
        &self.primitive
    }

    /// The terminal size, as `(width, height)`, that the frame was drawn for.
    pub fn size(&self) -> (size: (u16, u16))
        ensures
            size == self@.size,
    {
        self.size
    }

    /// The buffer that is on the screen.
    pub fn vbuffer(&self) -> (buffer: &VirtualBuffer)
        ensures
            buffer@ == self@.frame,
            self@.frame == rasterize(blank_frame(self@.size.0, self@.size.1), self@.drawing),
    {
        proof {
            use_type_invariant(self);
        }
        &self.vbuffer
    }
}

/// What the render result before stands for, if there is one.
pub open spec fn rendered_before(last: Option<RenderResult>) -> Option<Rendered> {
    match last {
        Some(result) => Some(result@),
        None => None,
    }
}

/// Whether a render call repeats the one before: same drawing, same size.
pub open spec fn repeats(drawing: Drawing, size: (u16, u16), last: Option<Rendered>) -> bool {
    last is Some && last->0.drawing == drawing && last->0.size == size
}

/// The painter. It holds no state: what is on the screen travels in the
/// [`RenderResult`] or the [`VirtualBuffer`] of the frame before.
#[derive(Debug)]
pub struct TuiRenderer {}

impl Default for TuiRenderer {
    fn default() -> TuiRenderer {
        TuiRenderer {  }
    }
}

impl TuiRenderer {
    /// The steps that prepare the terminal for the first frame: raw mode,
    /// then the alternate screen with mouse reports, written at once.
    pub fn begin_screen(&self) -> (ops: Vec<ScreenOp>)
        ensures
            ops@ == setup_ops(),
    {
        let mut ops: Vec<ScreenOp> = Vec::new();
        ops.push(ScreenOp::EnableRawMode);
        ops.push(ScreenOp::EnterAlternateScreen);
        ops.push(ScreenOp::EnableMouseCapture);
        ops.push(ScreenOp::Flush);
        proof {
            assert(ops@ =~= setup_ops());
        }
        ops
    }

    /// The steps that give the terminal back: leave the alternate screen,
    /// leave raw mode, then reset the colors and show the cursor.
    pub fn end_screen(&self) -> (ops: Vec<ScreenOp>)
        ensures
            ops@ == teardown_ops(),
    {
        let mut ops: Vec<ScreenOp> = Vec::new();
        ops.push(ScreenOp::LeaveAlternateScreen);
        ops.push(ScreenOp::Flush);
        ops.push(ScreenOp::DisableRawMode);
        ops.push(ScreenOp::ResetColor);
        ops.push(ScreenOp::ShowCursor);
        ops.push(ScreenOp::Flush);
        proof {
            assert(ops@ =~= teardown_ops());
        }
        ops
    }

    /// Rasterizes a primitive into a fresh buffer of the given size.
    pub fn make_vbuffer(&self, primitive: &Primitive, width: u16, height: u16) -> (buffer:
        VirtualBuffer)
        ensures
            buffer@ == rasterize(blank_frame(width, height), primitive@),
            buffer@.well_formed(),
    {
        let mut vbuffer = VirtualBuffer::from_size(width, height);
        vbuffer.merge_primitive(primitive);
        vbuffer
    }

    /// Picks the rows of `vbuffer` that have to be painted again after
    /// `last_vbuffer`, each with its index, in increasing order. When the two
    /// buffers differ in size every row is picked.
    pub fn get_diff_rows<'a>(&self, vbuffer: &'a VirtualBuffer, last_vbuffer: &VirtualBuffer) -> (picked:
        Vec<(usize, &'a Vec<Cell>)>)
        ensures
            indices_of(picked@) == dirty_rows(vbuffer@, last_vbuffer@),
            picked_from(picked@, vbuffer@),
            vbuffer@.well_formed(),
    {
        let rows = vbuffer.rows();
        let old_rows = last_vbuffer.rows();
        let resized = vbuffer.width() != last_vbuffer.width() || vbuffer.height()
            != last_vbuffer.height();
        let mut picked: Vec<(usize, &'a Vec<Cell>)> = Vec::new();
        let n = rows.len();
        let mut i: usize = 0;
        proof {
            assert(indices_of(picked@) =~= dirty_rows_below(vbuffer@, last_vbuffer@, 0));
        }
        while i < n
            invariant
                n == rows@.len(),
                n == vbuffer@.height,
                i <= n,
                rows_of(rows@) == vbuffer@.rows,
                rows_of(old_rows@) == last_vbuffer@.rows,
                vbuffer@.well_formed(),
                last_vbuffer@.well_formed(),
                resized == (vbuffer@.width != last_vbuffer@.width || vbuffer@.height
                    != last_vbuffer@.height),
                indices_of(picked@) == dirty_rows_below(vbuffer@, last_vbuffer@, i as int),
                picked_from(picked@, vbuffer@),
            decreases n - i,
        {
            let dirty = resized || !equal_cells(&rows[i], &old_rows[i]);
            if dirty {
                let ghost before = indices_of(picked@);
                picked.push((i, &rows[i]));
                proof {
                    assert(indices_of(picked@) =~= before.push(i as int));
                }
            }
            i += 1;
        }
        picked
    }

    /// Picks the rows of `vbuffer` that are not blank, each with its index, in
    /// increasing order.
    fn get_drawn_rows<'a>(&self, vbuffer: &'a VirtualBuffer) -> (picked: Vec<(usize, &'a Vec<Cell>)>)
        ensures
            indices_of(picked@) == dirty_rows(
                vbuffer@,
                blank_frame(vbuffer@.width, vbuffer@.height),
            ),
            picked_from(picked@, vbuffer@),
            vbuffer@.well_formed(),
    {
        let rows = vbuffer.rows();
        let ghost blank = blank_frame(vbuffer@.width, vbuffer@.height);
        let mut picked: Vec<(usize, &'a Vec<Cell>)> = Vec::new();
        let n = rows.len();
        let mut i: usize = 0;
        proof {
            assert(indices_of(picked@) =~= dirty_rows_below(vbuffer@, blank, 0));
        }
        while i < n
            invariant
                n == rows@.len(),
                n == vbuffer@.height,
                i <= n,
                rows_of(rows@) == vbuffer@.rows,
                vbuffer@.well_formed(),
                blank == blank_frame(vbuffer@.width, vbuffer@.height),
                indices_of(picked@) == dirty_rows_below(vbuffer@, blank, i as int),
                picked_from(picked@, vbuffer@),
            decreases n - i,
        {
            let is_blank = blank_cells(&rows[i]);
            proof {
                assert(vbuffer@.rows[i as int].len() == vbuffer@.width);
                assert(blank.rows[i as int] =~= Seq::new(
                    vbuffer@.width as nat,
                    |x: int| empty_cell(),
                ));
                assert(is_blank == (vbuffer@.rows[i as int] == blank.rows[i as int])) by {
                    if is_blank {
                        assert(vbuffer@.rows[i as int] =~= blank.rows[i as int]);
                    } else {
                        let x = choose|x: int|
                            0 <= x < rows@[i as int]@.len() && rows@[i as int]@[x] != empty_cell();
                        assert(blank.rows[i as int][x] == empty_cell());
                    }
                }
            }
            if !is_blank {
                let ghost before = indices_of(picked@);
                picked.push((i, &rows[i]));
                proof {
                    assert(indices_of(picked@) =~= before.push(i as int));
                }
            }
            i += 1;
        }
        picked
    }

    /// Computes the operations that bring the terminal from the frame before
    /// to `vbuffer`, and hands the buffer back to be kept as the frame before
    /// of the next call. Without a frame before, the screen is taken to be
    /// blank, as it is when the alternate screen was just entered.
    pub fn render_vbuffer(&self, vbuffer: VirtualBuffer, last_vbuffer: Option<&VirtualBuffer>) -> (painted:
        (VirtualBuffer, Vec<PaintOp>))
        ensures
            painted.0@ == vbuffer@,
            painted_of(painted.1@) == frame_ops(vbuffer@, frame_before(last_vbuffer)),
    {
        let mut ops: Vec<PaintOp> = Vec::new();
        ops.push(PaintOp::Control(ControlOp::ResetColor));
        let ghost frame = vbuffer@;
        let ghost previous = frame_before(last_vbuffer);
        let ghost first = seq![Painted::Control(ControlOp::ResetColor)];
        let mut rendered_anything = false;
        {
            let picked = match last_vbuffer {
                Some(last) => self.get_diff_rows(&vbuffer, last),
                None => self.get_drawn_rows(&vbuffer),
            };
            let ghost rows = rows_to_paint(frame, previous);
            let width = vbuffer.width();
            let n = picked.len();
            let mut k: usize = 0;
            proof {
                assert(rows.take(0) =~= Seq::<int>::empty());
                assert(painted_of(ops@) =~= first + rows_ops(frame, rows.take(0)));
            }
            while k < n
                invariant
                    n == picked@.len(),
                    k <= n,
                    rows == indices_of(picked@),
                    picked_from(picked@, frame),
                    frame.rows.len() == frame.height,
                    width == frame.width,
                    frame.well_formed(),
                    rendered_anything == (k > 0 && width > 0),
                    painted_of(ops@) == first + rows_ops(frame, rows.take(k as int)),
                decreases n - k,
            {
                let y = picked[k].0;
                let cells = picked[k].1;
                proof {
                    assert(rows.take(k + 1).drop_last() =~= rows.take(k as int));
                    assert(rows.take(k + 1).last() == y);
                }
                push_row(&mut ops, y as u16, cells);
                if width > 0 {
                    rendered_anything = true;
                }
                proof {
                    assert(painted_of(ops@) =~= first + rows_ops(frame, rows.take(k + 1)));
                }
                k += 1;
            }
            proof {
                assert(rows.take(n as int) =~= rows);
            }
        }
        let is_same_cursor_position = match last_vbuffer {
            Some(last) => same_cursor(last.cursor_position(), vbuffer.cursor_position()),
            None => false,
        };
        if !is_same_cursor_position || rendered_anything {
            push_cursor(&mut ops, vbuffer.cursor_position());
        }
        let ghost with_cursor = painted_of(ops@);
        ops.push(PaintOp::Control(ControlOp::Flush));
        proof {
            assert(painted_of(ops@) =~= with_cursor + seq![Painted::Control(ControlOp::Flush)]);
        }
        (vbuffer, ops)
    }

    /// Renders `primitive` for a terminal of the given size, `(width,
    /// height)`. When the call repeats the one before (same primitive, same
    /// size) nothing is painted and the buffer is kept. Otherwise the
    /// primitive is rasterized into a fresh buffer, which is painted against
    /// the buffer of the call before, if there was one.
    pub fn render(&self, primitive: Primitive, size: (u16, u16), last_render: Option<RenderResult>) -> (rendered:
        (RenderResult, Vec<PaintOp>))
        ensures
            rendered.0@.drawing == primitive@,
            rendered.0@.size == size,
            rendered.0@.frame == rasterize(blank_frame(size.0, size.1), primitive@),
            repeats(primitive@, size, rendered_before(last_render)) ==> rendered.1@.len() == 0,
            !repeats(primitive@, size, rendered_before(last_render)) ==> painted_of(rendered.1@)
                == frame_ops(
                rendered.0@.frame,
                match last_render {
                    Some(last) => Some(last@.frame),
                    None => None,
                },
            ),
    {
        match last_render {
            Some(last) => {
                proof {
                    use_type_invariant(&last);
                }
                if last.primitive == primitive && last.size.0 == size.0 && last.size.1 == size.1 {
                    (RenderResult { vbuffer: last.vbuffer, primitive, size }, Vec::new())
                } else {
                    let vbuffer = self.make_vbuffer(&primitive, size.0, size.1);
                    let (vbuffer, ops) = self.render_vbuffer(vbuffer, Some(&last.vbuffer));
                    (RenderResult { vbuffer, primitive, size }, ops)
                }
            },
            None => {
                let vbuffer = self.make_vbuffer(&primitive, size.0, size.1);
                let (vbuffer, ops) = self.render_vbuffer(vbuffer, None);
                (RenderResult { vbuffer, primitive, size }, ops)
            },
        }
    }
}

/// Whether two frames place the cursor alike.
fn same_cursor(a: Option<(u16, u16, CursorStyle)>, b: Option<(u16, u16, CursorStyle)>) -> (same:
    bool)
    ensures
        same == (a == b),
{
    match (a, b) {
        (Some(a), Some(b)) => a.0 == b.0 && a.1 == b.1 && a.2 == b.2,
        (None, None) => true,
        _ => false,
    }
}

/// What is known of the dirty rows among the first `n`: they lie below `n`,
/// they increase, and a row is among them exactly when it is dirty.
pub proof fn lemma_dirty_rows_below(current: Frame, previous: Frame, n: int)
    ensures
        forall|k: int|
            0 <= k < dirty_rows_below(current, previous, n).len() ==> 0 <= (
            #[trigger] dirty_rows_below(current, previous, n)[k]) < n,
        forall|j: int, k: int|
            0 <= j < k < dirty_rows_below(current, previous, n).len() ==> dirty_rows_below(
                current,
                previous,
                n,
            )[j] < dirty_rows_below(current, previous, n)[k],
        forall|y: int|
            0 <= y < n ==> (dirty_rows_below(current, previous, n).contains(y) <==> row_is_dirty(
                current,
                previous,
                y,
            )),
    decreases n,
{
    if n > 0 {
        lemma_dirty_rows_below(current, previous, n - 1);
        let below = dirty_rows_below(current, previous, n - 1);
        let all = dirty_rows_below(current, previous, n);
        assert forall|y: int| 0 <= y < n implies (all.contains(y) <==> row_is_dirty(
            current,
            previous,
            y,
        )) by {
            if row_is_dirty(current, previous, n - 1) {
                assert(all == below.push(n - 1));
                assert(all[below.len() as int] == n - 1);
                if y < n - 1 {
                    if below.contains(y) {
                        let k = choose|k: int| 0 <= k < below.len() && below[k] == y;
                        assert(all[k] == y);
                    }
                    if all.contains(y) {
                        let k = choose|k: int| 0 <= k < all.len() && all[k] == y;
                        assert(k < below.len());
                        assert(below[k] == y);
                    }
                }
            } else {
                if all.contains(n - 1) {
                    let k = choose|k: int| 0 <= k < all.len() && all[k] == n - 1;
                    assert(below[k] < n - 1);
                }
            }
        }
    }
}

/// The dirty rows of a frame are row indices of the frame, in increasing
/// order, and they are exactly the rows that are dirty.
pub proof fn lemma_dirty_rows(current: Frame, previous: Frame)
    ensures
        forall|k: int|
            0 <= k < dirty_rows(current, previous).len() ==> 0 <= (#[trigger] dirty_rows(
                current,
                previous,
            )[k]) < current.height,
        forall|j: int, k: int|
            0 <= j < k < dirty_rows(current, previous).len() ==> dirty_rows(current, previous)[j]
                < dirty_rows(current, previous)[k],
        forall|y: int|
            0 <= y < current.height ==> (dirty_rows(current, previous).contains(y)
                <==> row_is_dirty(current, previous, y)),
{
    lemma_dirty_rows_below(current, previous, current.height as int);
}

/// A change of size forces a full repaint: against a frame of another width
/// or height every row is dirty.
pub proof fn lemma_resized_frame_is_all_dirty(current: Frame, previous: Frame)
    requires
        current.width != previous.width || current.height != previous.height,
    ensures
        dirty_rows(current, previous) == Seq::new(current.height as nat, |y: int| y),
{
    lemma_all_dirty_below(current, previous, current.height as int);
}

proof fn lemma_all_dirty_below(current: Frame, previous: Frame, n: int)
    requires
        current.width != previous.width || current.height != previous.height,
        0 <= n,
    ensures
        dirty_rows_below(current, previous, n) == Seq::new(n as nat, |y: int| y),
    decreases n,
{
    if n > 0 {
        lemma_all_dirty_below(current, previous, n - 1);
        assert(Seq::new((n - 1) as nat, |y: int| y).push(n - 1) =~= Seq::new(n as nat, |y: int| y));
    } else {
        assert(dirty_rows_below(current, previous, n) =~= Seq::new(n as nat, |y: int| y));
    }
}

/// A frame has no dirty row against itself.
pub proof fn lemma_same_frame_is_clean(frame: Frame)
    ensures
        dirty_rows(frame, frame) == Seq::<int>::empty(),
{
    lemma_clean_below(frame, frame.height as int);
}

proof fn lemma_clean_below(frame: Frame, n: int)
    ensures
        dirty_rows_below(frame, frame, n) == Seq::<int>::empty(),
    decreases n,
{
    if n > 0 {
        lemma_clean_below(frame, n - 1);
    }
}

/// Painting a frame over itself writes no text and leaves the cursor alone:
/// all that is left is the color reset at the start and the flush at the end.
pub proof fn lemma_same_frame_paints_nothing(frame: Frame)
    ensures
        frame_ops(frame, Some(frame)) == seq![
            Painted::Control(ControlOp::ResetColor),
            Painted::Control(ControlOp::Flush),
        ],
{
    lemma_same_frame_is_clean(frame);
    assert(frame_ops(frame, Some(frame)) =~= seq![
        Painted::Control(ControlOp::ResetColor),
        Painted::Control(ControlOp::Flush),
    ]);
}

/// Rasterizing the same drawing twice for the same size gives the same frame,
/// so the second frame has no dirty row.
pub proof fn lemma_same_drawing_twice_is_clean(drawing: Drawing, width: u16, height: u16)
    ensures
        dirty_rows(
            rasterize(blank_frame(width, height), drawing),
            rasterize(blank_frame(width, height), drawing),
        ) == Seq::<int>::empty(),
{
    lemma_same_frame_is_clean(rasterize(blank_frame(width, height), drawing));
}

/// Two frames of the same size that differ in exactly one cell have exactly
/// one dirty row: the row of that cell.
pub proof fn lemma_one_changed_cell_dirties_one_row(
    current: Frame,
    previous: Frame,
    x: int,
    y: int,
)
    requires
        current.well_formed(),
        previous.well_formed(),
        current.width == previous.width,
        current.height == previous.height,
        0 <= x < current.width,
        0 <= y < current.height,
        current.rows[y][x] != previous.rows[y][x],
        forall|r: int, c: int|
            0 <= r < current.height && 0 <= c < current.width && !(r == y && c == x)
                ==> current.rows[r][c] == previous.rows[r][c],
    ensures
        dirty_rows(current, previous) == seq![y],
{
    lemma_one_dirty_below(current, previous, x, y, current.height as int);
}

proof fn lemma_one_dirty_below(current: Frame, previous: Frame, x: int, y: int, n: int)
    requires
        current.well_formed(),
        previous.well_formed(),
        current.width == previous.width,
        current.height == previous.height,
        0 <= x < current.width,
        0 <= y < current.height,
        current.rows[y][x] != previous.rows[y][x],
        forall|r: int, c: int|
            0 <= r < current.height && 0 <= c < current.width && !(r == y && c == x)
                ==> current.rows[r][c] == previous.rows[r][c],
        n <= current.height,
    ensures
        dirty_rows_below(current, previous, n) == if n <= y {
            Seq::<int>::empty()
        } else {
            seq![y]
        },
    decreases n,
{
    if n > 0 {
        lemma_one_dirty_below(current, previous, x, y, n - 1);
        if n - 1 != y {
            assert(current.rows[n - 1] =~= previous.rows[n - 1]);
        } else {
            assert(Seq::<int>::empty().push(y) =~= seq![y]);
        }
    }
}

/// The text of a list of runs, one after the other.
pub open spec fn runs_text(runs: Seq<Run>) -> Seq<char>
    decreases runs.len(),
{
    if runs.len() == 0 {
        Seq::empty()
    } else {
        runs_text(runs.drop_last()) + runs.last().text
    }
}

/// The runs of a row spell the row: their texts, one after the other, are the
/// glyphs of the cells from left to right.
pub proof fn lemma_runs_spell_the_row(cells: Seq<Cell>)
    ensures
        runs_text(style_runs(cells)) == cells.map_values(|cell: Cell| glyph_of(cell)),
    decreases cells.len(),
{
    let glyphs = cells.map_values(|cell: Cell| glyph_of(cell));
    if cells.len() == 0 {
        assert(runs_text(style_runs(cells)) =~= glyphs);
    } else {
        lemma_runs_spell_the_row(cells.drop_last());
        let before = style_runs(cells.drop_last());
        let shorter = cells.drop_last().map_values(|cell: Cell| glyph_of(cell));
        let cell = cells.last();
        let runs = style_runs(cells);
        assert(glyphs =~= shorter.push(glyph_of(cell)));
        if before.len() > 0 && before.last().style == cell.style {
            assert(runs.drop_last() =~= before.drop_last());
            assert(runs_text(runs) =~= runs_text(before.drop_last()) + before.last().text.push(
                glyph_of(cell),
            ));
            assert(runs_text(before) == runs_text(before.drop_last()) + before.last().text);
            assert(runs_text(runs) =~= runs_text(before).push(glyph_of(cell)));
        } else {
            assert(runs.drop_last() =~= before);
            assert(runs_text(runs) =~= runs_text(before) + seq![glyph_of(cell)]);
        }
    }
}

/// Runs are maximal: two runs next to each other never share a style.
pub proof fn lemma_runs_are_maximal(cells: Seq<Cell>)
    ensures
        forall|r: int|
            0 <= r < style_runs(cells).len() - 1 ==> (#[trigger] style_runs(cells)[r]).style
                != style_runs(cells)[r + 1].style,
    decreases cells.len(),
{
    if cells.len() > 0 {
        lemma_runs_are_maximal(cells.drop_last());
        lemma_runs_of_a_row(cells.drop_last());
    }
}

/// A row whose cells all share one style is a single run that holds the
/// glyphs of the whole row.
pub proof fn lemma_uniform_row_is_one_run(cells: Seq<Cell>)
    requires
        cells.len() > 0,
        forall|i: int| 0 <= i < cells.len() ==> (#[trigger] cells[i]).style == cells[0].style,
    ensures
        style_runs(cells) == seq![
            Run { style: cells[0].style, text: cells.map_values(|cell: Cell| glyph_of(cell)) },
        ],
    decreases cells.len(),
{
    let glyphs = cells.map_values(|cell: Cell| glyph_of(cell));
    if cells.len() == 1 {
        assert(cells.drop_last() =~= Seq::<Cell>::empty());
        assert(style_runs(cells.drop_last()) =~= Seq::<Run>::empty());
        assert(glyphs =~= seq![glyph_of(cells.last())]);
        assert(style_runs(cells) =~= seq![Run { style: cells[0].style, text: glyphs }]);
    } else {
        let shorter = cells.drop_last();
        assert(shorter[0] == cells[0]);
        assert forall|i: int| 0 <= i < shorter.len() implies (#[trigger] shorter[i]).style
            == shorter[0].style by {
            assert(shorter[i] == cells[i]);
        }
        lemma_uniform_row_is_one_run(shorter);
        let before = style_runs(shorter);
        assert(before.last().style == cells.last().style);
        assert(glyphs =~= shorter.map_values(|cell: Cell| glyph_of(cell)).push(
            glyph_of(cells.last()),
        ));
        assert(style_runs(cells) =~= seq![Run { style: cells[0].style, text: glyphs }]);
    }
}

/// A single run is painted with its style set once and taken back once,
/// around one write of its whole text.
pub proof fn lemma_one_run_is_one_write(run: Run)
    ensures
        runs_ops(seq![run]) == style_on_ops(run.style) + seq![Painted::Print(run.text)]
            + style_off_ops(run.style),
{
    let one = seq![run];
    assert(one.drop_last() =~= Seq::<Run>::empty());
    assert(runs_ops(one.drop_last()) =~= Seq::<Painted>::empty());
    assert(runs_ops(one) =~= run_ops(run));
}

} // verus!
