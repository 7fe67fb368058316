//! Text attributes of a cell and the look of the terminal cursor.

use super::colors::TermColor;
use vstd::prelude::*;

verus! {

/// Foreground, background and weight of a cell. An unset field means "no
/// opinion": merging keeps what lies below.
#[derive(Debug, Clone, Copy, PartialEq, Eq, Structural)]
pub struct Style {
    pub fg_color: Option<TermColor>,
    pub bg_color: Option<TermColor>,
    pub is_bold: bool,
}

/// The style that sets nothing.
pub open spec fn empty_style() -> Style {
    Style { fg_color: None, bg_color: None, is_bold: false }
}

/// `overlay` laid over `base`: each field of the overlay wins where the
/// overlay sets it, and bold never turns off.
pub open spec fn merge_style(base: Style, overlay: Style) -> Style {
    Style {
        fg_color: if overlay.fg_color is Some {
            overlay.fg_color
        } else {
            base.fg_color
        },
        bg_color: if overlay.bg_color is Some {
            overlay.bg_color
        } else {
            base.bg_color
        },
        is_bold: base.is_bold || overlay.is_bold,
    }
}

impl Default for Style {
    fn default() -> (style: Style)
        ensures
            style == empty_style(),
    {
        Style { fg_color: None, bg_color: None, is_bold: false }
    }
}

impl Style {
    /// The style that sets nothing.
    pub fn new() -> (style: Style)
        ensures
            style == empty_style(),
    {
        Style { fg_color: None, bg_color: None, is_bold: false }
    }

    /// Whether the style sets nothing.
    pub fn is_empty(&self) -> (empty: bool)
        ensures
            empty == (*self == empty_style()),
    {
        self.fg_color.is_none() && self.bg_color.is_none() && !self.is_bold
    }

    /// Merges `other` over this style when there is one.
    pub fn try_merge(self, other: Option<Style>) -> (merged: Style)
        ensures
            merged == match other {
                Some(overlay) => merge_style(self, overlay),
                None => self,
            },
    {
        match other {
            Some(style) => self.merge(style),
            None => self,
        }
    }

    /// Lays `other` over this style: each field of `other` wins where it is
    /// set, and bold stays on once it is on.
    pub fn merge(self, other: Style) -> (merged: Style)
        ensures
            merged == merge_style(self, other),
    {
        let mut merged = self;
        if other.fg_color.is_some() {
            merged.fg_color = other.fg_color;
        }
        if other.bg_color.is_some() {
            merged.bg_color = other.bg_color;
        }
        if other.is_bold {
            merged.is_bold = true;
        }
        merged
    }

    /// The same style in bold.
    pub fn bold(self) -> (style: Style)
        ensures
            style == (Style { is_bold: true, ..self }),
    {
        let mut style = self;
        style.is_bold = true;
        style
    }

    /// The same style with the given background.
    pub fn bg(self, color: TermColor) -> (style: Style)
        ensures
            style == (Style { bg_color: Some(color), ..self }),
    {
        let mut style = self;
        style.bg_color = Some(color);
        style
    }

    /// The same style with the given foreground.
    pub fn fg(self, color: TermColor) -> (style: Style)
        ensures
            style == (Style { fg_color: Some(color), ..self }),
    {
        let mut style = self;
        style.fg_color = Some(color);
        style
    }
}

/// The empty style is neutral on both sides of a merge.
pub proof fn lemma_merge_style_identity(style: Style)
    ensures
        merge_style(empty_style(), style) == style,
        merge_style(style, empty_style()) == style,
{
}

/// Merging is associative: laying `c` over (`b` over `a`) is laying (`c` over
/// `b`) over `a`.
pub proof fn lemma_merge_style_associative(a: Style, b: Style, c: Style)
    ensures
        merge_style(merge_style(a, b), c) == merge_style(a, merge_style(b, c)),
{
}

/// Merging a style over itself changes nothing.
pub proof fn lemma_merge_style_idempotent(style: Style)
    ensures
        merge_style(style, style) == style,
{
}

/// Bold only ever turns on: a merge result is bold as soon as its base is.
pub proof fn lemma_merge_keeps_bold(base: Style, overlay: Style)
    ensures
        base.is_bold ==> merge_style(base, overlay).is_bold,
{
}

/// The shape of the terminal cursor.
#[derive(Debug, Clone, Copy, PartialEq, Eq, Structural)]
pub enum CursorShape {
    UnderScore,
    Line,
    Block,
}

impl Default for CursorShape {
    fn default() -> (shape: CursorShape)
        ensures
            shape == CursorShape::Line,
    {
        CursorShape::Line
    }
}

/// The look of the terminal cursor: its shape, and whether it blinks.
#[derive(Debug, Clone, Copy, PartialEq, Eq, Structural)]
pub struct CursorStyle {
    pub shape: CursorShape,
    pub blinking: bool,
}

/// The cursor a text input shows when nothing else is asked for: a blinking
/// line.
pub open spec fn default_cursor_style() -> CursorStyle {
    CursorStyle { shape: CursorShape::Line, blinking: true }
}

impl Default for CursorStyle {
    fn default() -> (style: CursorStyle)
        ensures
            style == default_cursor_style(),
    {
        CursorStyle { shape: CursorShape::Line, blinking: true }
    }
}

impl CursorStyle {
    /// The same shape, blinking or not.
    pub fn blinking(self, enabled: bool) -> (style: CursorStyle)
        ensures
            style == (CursorStyle { blinking: enabled, ..self }),
    {
        let mut style = self;
        style.blinking = enabled;
        style
    }
}

} // verus!
