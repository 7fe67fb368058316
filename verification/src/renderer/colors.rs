//! Colors a terminal can show, and the alpha tags that carry a named color
//! through a generic RGBA value.

use vstd::prelude::*;

verus! {

/// One of the fifteen named terminal colors.
#[derive(Debug, Copy, Clone, PartialEq, Eq, Structural)]
pub enum AnsiColor {
    Black,
    Red,
    DarkRed,
    Green,
    DarkGreen,
    Yellow,
    DarkYellow,
    Blue,
    DarkBlue,
    Magenta,
    DarkMagenta,
    Cyan,
    DarkCyan,
    Grey,
    White,
}

/// A color of the terminal: an explicit RGB triple or a named color.
#[derive(Debug, Copy, Clone, PartialEq, Eq, Structural)]
pub enum TermColor {
    Rgb(u8, u8, u8),
    Ansi(AnsiColor),
}

/// The lowest alpha value that stands for a named color.
pub const FIRST_ALPHA_TAG: u16 = 110;

/// The highest alpha value that stands for a named color.
pub const LAST_ALPHA_TAG: u16 = 124;

/// The place of a named color in the enumeration, counted from zero.
pub open spec fn ansi_index(color: AnsiColor) -> int {
    match color {
        AnsiColor::Black => 0,
        AnsiColor::Red => 1,
        AnsiColor::DarkRed => 2,
        AnsiColor::Green => 3,
        AnsiColor::DarkGreen => 4,
        AnsiColor::Yellow => 5,
        AnsiColor::DarkYellow => 6,
        AnsiColor::Blue => 7,
        AnsiColor::DarkBlue => 8,
        AnsiColor::Magenta => 9,
        AnsiColor::DarkMagenta => 10,
        AnsiColor::Cyan => 11,
        AnsiColor::DarkCyan => 12,
        AnsiColor::Grey => 13,
        AnsiColor::White => 14,
    }
}

/// The named color that an alpha value stands for, if it stands for one.
pub open spec fn color_of_alpha_tag(alpha: u16) -> Option<AnsiColor> {
    if alpha == 110 {
        Some(AnsiColor::Black)
    } else if alpha == 111 {
        Some(AnsiColor::Red)
    } else if alpha == 112 {
        Some(AnsiColor::DarkRed)
    } else if alpha == 113 {
        Some(AnsiColor::Green)
    } else if alpha == 114 {
        Some(AnsiColor::DarkGreen)
    } else if alpha == 115 {
        Some(AnsiColor::Yellow)
    } else if alpha == 116 {
        Some(AnsiColor::DarkYellow)
    } else if alpha == 117 {
        Some(AnsiColor::Blue)
    } else if alpha == 118 {
        Some(AnsiColor::DarkBlue)
    } else if alpha == 119 {
        Some(AnsiColor::Magenta)
    } else if alpha == 120 {
        Some(AnsiColor::DarkMagenta)
    } else if alpha == 121 {
        Some(AnsiColor::Cyan)
    } else if alpha == 122 {
        Some(AnsiColor::DarkCyan)
    } else if alpha == 123 {
        Some(AnsiColor::Grey)
    } else if alpha == 124 {
        Some(AnsiColor::White)
    } else {
        None
    }
}

/// The terminal color that a generic color with the given 8-bit channels and
/// rounded alpha stands for: the named color of the alpha tag, else the RGB
/// triple.
pub open spec fn color_of_rgba(red: u8, green: u8, blue: u8, alpha: u16) -> TermColor {
    match color_of_alpha_tag(alpha) {
        Some(named) => TermColor::Ansi(named),
        None => TermColor::Rgb(red, green, blue),
    }
}

impl AnsiColor {
    /// The alpha value under which this color travels inside a generic RGBA
    /// color whose other channels are zero.
    pub fn alpha_tag(self) -> (alpha: u16)
        ensures
            alpha == FIRST_ALPHA_TAG + ansi_index(self),
            FIRST_ALPHA_TAG <= alpha <= LAST_ALPHA_TAG,
            color_of_alpha_tag(alpha) == Some(self),
    {
        match self {
            AnsiColor::Black => 110,
            AnsiColor::Red => 111,
            AnsiColor::DarkRed => 112,
            AnsiColor::Green => 113,
            AnsiColor::DarkGreen => 114,
            AnsiColor::Yellow => 115,
            AnsiColor::DarkYellow => 116,
            AnsiColor::Blue => 117,
            AnsiColor::DarkBlue => 118,
            AnsiColor::Magenta => 119,
            AnsiColor::DarkMagenta => 120,
            AnsiColor::Cyan => 121,
            AnsiColor::DarkCyan => 122,
            AnsiColor::Grey => 123,
            AnsiColor::White => 124,
        }
    }

    /// Reads a named color back from an alpha value. Values outside the tag
    /// range stand for no named color.
    pub fn from_alpha_tag(alpha: u16) -> (color: Option<AnsiColor>)
        ensures
            color == color_of_alpha_tag(alpha),
            color is Some <==> FIRST_ALPHA_TAG <= alpha <= LAST_ALPHA_TAG,
    {
        match alpha {
            110 => Some(AnsiColor::Black),
            111 => Some(AnsiColor::Red),
            112 => Some(AnsiColor::DarkRed),
            113 => Some(AnsiColor::Green),
            114 => Some(AnsiColor::DarkGreen),
            115 => Some(AnsiColor::Yellow),
            116 => Some(AnsiColor::DarkYellow),
            117 => Some(AnsiColor::Blue),
            118 => Some(AnsiColor::DarkBlue),
            119 => Some(AnsiColor::Magenta),
            120 => Some(AnsiColor::DarkMagenta),
            121 => Some(AnsiColor::Cyan),
            122 => Some(AnsiColor::DarkCyan),
            123 => Some(AnsiColor::Grey),
            124 => Some(AnsiColor::White),
            _ => None,
        }
    }
}

impl TermColor {
    /// Converts a generic color, given by its 8-bit channels and its rounded
    /// alpha, into a terminal color. An alpha inside the tag range selects the
    /// named color and the channels are ignored; any other alpha is dropped and
    /// the channels are kept.
    pub fn from_rgba(red: u8, green: u8, blue: u8, alpha: u16) -> (color: TermColor)
        ensures
            color == color_of_rgba(red, green, blue, alpha),
    {
        match AnsiColor::from_alpha_tag(alpha) {
            Some(named) => TermColor::Ansi(named),
            None => TermColor::Rgb(red, green, blue),
        }
    }
}

/// A named color survives the trip through its alpha tag, whatever the other
/// channels hold.
pub proof fn lemma_alpha_tag_round_trip(color: AnsiColor, red: u8, green: u8, blue: u8)
    ensures
        color_of_rgba(red, green, blue, (FIRST_ALPHA_TAG + ansi_index(color)) as u16)
            == TermColor::Ansi(color),
{
}

} // verus!
