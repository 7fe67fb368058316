use iced_tui::AnsiColor;
use iced_tui::ButtonStyle;
use iced_tui::CursorShape;
use iced_tui::CursorStyle;
use iced_tui::ProgressBarStyle;
use iced_tui::Style;
use iced_tui::TermColor;
use iced_tui::TextInputStyle;

const ALL: [AnsiColor; 15] = [
    AnsiColor::Black,
    AnsiColor::Red,
    AnsiColor::DarkRed,
    AnsiColor::Green,
    AnsiColor::DarkGreen,
    AnsiColor::Yellow,
    AnsiColor::DarkYellow,
    AnsiColor::Blue,
    AnsiColor::DarkBlue,
    AnsiColor::Magenta,
    AnsiColor::DarkMagenta,
    AnsiColor::Cyan,
    AnsiColor::DarkCyan,
    AnsiColor::Grey,
    AnsiColor::White,
];

#[test]
fn named_colors_travel_under_the_tags_110_to_124() {
    for (index, color) in ALL.iter().enumerate() {
        assert_eq!(color.alpha_tag(), 110 + index as u16);
        assert_eq!(AnsiColor::from_alpha_tag(110 + index as u16), Some(*color));
    }
    assert_eq!(AnsiColor::Black.alpha_tag(), 110);
    assert_eq!(AnsiColor::White.alpha_tag(), 124);
}

#[test]
fn alpha_values_outside_the_tags_name_no_color() {
    assert_eq!(AnsiColor::from_alpha_tag(0), None);
    assert_eq!(AnsiColor::from_alpha_tag(1), None);
    assert_eq!(AnsiColor::from_alpha_tag(109), None);
    assert_eq!(AnsiColor::from_alpha_tag(125), None);
    assert_eq!(AnsiColor::from_alpha_tag(255), None);
    assert_eq!(AnsiColor::from_alpha_tag(u16::MAX), None);
}

#[test]
fn a_generic_color_is_named_by_its_tag_or_kept_as_rgb() {
    assert_eq!(TermColor::from_rgba(0, 0, 255, 1), TermColor::Rgb(0, 0, 255));
    assert_eq!(TermColor::from_rgba(10, 20, 30, 0), TermColor::Rgb(10, 20, 30));
    assert_eq!(TermColor::from_rgba(0, 0, 0, 111), TermColor::Ansi(AnsiColor::Red));
    assert_eq!(TermColor::from_rgba(9, 9, 9, 124), TermColor::Ansi(AnsiColor::White));
    assert_eq!(TermColor::from_rgba(9, 9, 9, 125), TermColor::Rgb(9, 9, 9));
}

#[test]
fn a_new_style_is_empty() {
    assert!(Style::new().is_empty());
    assert_eq!(Style::new(), Style::default());
    assert_eq!(Style::new().fg_color, None);
    assert_eq!(Style::new().bg_color, None);
    assert!(!Style::new().is_bold);
    assert!(!Style::new().bold().is_empty());
    assert!(!Style::new().fg(TermColor::Rgb(0, 0, 0)).is_empty());
    assert!(!Style::new().bg(TermColor::Rgb(0, 0, 0)).is_empty());
}

#[test]
fn style_builders_set_one_field() {
    let style = Style::new().fg(TermColor::Rgb(1, 2, 3));
    assert_eq!(style.fg_color, Some(TermColor::Rgb(1, 2, 3)));
    assert_eq!(style.bg_color, None);
    let style = style.bg(TermColor::Ansi(AnsiColor::Cyan));
    assert_eq!(style.fg_color, Some(TermColor::Rgb(1, 2, 3)));
    assert_eq!(style.bg_color, Some(TermColor::Ansi(AnsiColor::Cyan)));
    assert!(!style.is_bold);
    assert!(style.bold().is_bold);
}

#[test]
fn style_merge_lets_the_overlay_win_where_it_is_set() {
    let base = Style::new().fg(TermColor::Ansi(AnsiColor::Red)).bg(TermColor::Ansi(AnsiColor::Blue));
    let overlay = Style::new().fg(TermColor::Ansi(AnsiColor::Green));
    let merged = base.merge(overlay);
    assert_eq!(merged.fg_color, Some(TermColor::Ansi(AnsiColor::Green)));
    assert_eq!(merged.bg_color, Some(TermColor::Ansi(AnsiColor::Blue)));
    assert!(!merged.is_bold);
}

#[test]
fn style_merge_never_turns_bold_off() {
    let bold = Style::new().bold();
    assert!(bold.merge(Style::new()).is_bold);
    assert!(Style::new().merge(bold).is_bold);
    assert!(bold.merge(bold).is_bold);
    assert!(!Style::new().merge(Style::new()).is_bold);
}

#[test]
fn the_empty_style_is_neutral() {
    let style = Style::new().fg(TermColor::Rgb(1, 2, 3)).bold();
    assert_eq!(style.merge(Style::new()), style);
    assert_eq!(Style::new().merge(style), style);
}

#[test]
fn try_merge_without_an_overlay_keeps_the_style() {
    let style = Style::new().fg(TermColor::Rgb(1, 2, 3));
    assert_eq!(style.try_merge(None), style);
    assert_eq!(style.try_merge(Some(Style::new().bold())), style.bold());
}

#[test]
fn the_default_cursor_is_a_blinking_line() {
    assert_eq!(CursorShape::default(), CursorShape::Line);
    let style = CursorStyle::default();
    assert_eq!(style.shape, CursorShape::Line);
    assert!(style.blinking);
    assert!(!style.blinking(false).blinking);
    assert_eq!(style.blinking(false).shape, CursorShape::Line);
    assert!(style.blinking(false).blinking(true).blinking);
}

#[test]
fn button_style_builders_set_one_state() {
    let red = Style::new().fg(TermColor::Ansi(AnsiColor::Red));
    let style = ButtonStyle::new();
    assert_eq!(style, ButtonStyle::default());
    assert!(style.normal.is_empty() && style.hover.is_empty());
    assert!(style.pressed.is_empty() && style.disabled.is_empty());
    assert_eq!(style.normal(red), ButtonStyle { normal: red, ..style });
    assert_eq!(style.hover(red), ButtonStyle { hover: red, ..style });
    assert_eq!(style.pressed(red), ButtonStyle { pressed: red, ..style });
    assert_eq!(style.disabled(red), ButtonStyle { disabled: red, ..style });
}

#[test]
fn button_look_prefers_disabled_then_pressed_then_hovered() {
    let normal = Style::new().fg(TermColor::Ansi(AnsiColor::White));
    let hover = Style::new().bg(TermColor::Ansi(AnsiColor::Blue));
    let pressed = Style::new().bg(TermColor::Ansi(AnsiColor::Red));
    let disabled = Style::new().fg(TermColor::Ansi(AnsiColor::Grey));
    let style = ButtonStyle::new().normal(normal).hover(hover).pressed(pressed).disabled(disabled);
    assert_eq!(style.look(false, false, false), normal);
    assert_eq!(style.look(false, false, true), normal.merge(hover));
    assert_eq!(style.look(false, true, true), normal.merge(pressed));
    assert_eq!(style.look(true, true, true), normal.merge(disabled));
    assert_eq!(style.look(true, false, false).fg_color, Some(TermColor::Ansi(AnsiColor::Grey)));
}

#[test]
fn text_input_style_builders_set_one_part() {
    let red = Style::new().fg(TermColor::Ansi(AnsiColor::Red));
    let block = CursorStyle { shape: CursorShape::Block, blinking: false };
    let style = TextInputStyle::new();
    assert_eq!(style, TextInputStyle::default());
    assert_eq!(style.cursor, CursorStyle::default());
    assert_eq!(style.normal(red), TextInputStyle { normal: red, ..style });
    assert_eq!(style.focused(red), TextInputStyle { focused: red, ..style });
    assert_eq!(style.placeholder(red), TextInputStyle { placeholder: red, ..style });
    assert_eq!(style.hover(red), TextInputStyle { hover: red, ..style });
    assert_eq!(style.cursor(block), TextInputStyle { cursor: block, ..style });
}

#[test]
fn progress_bar_colors_go_to_the_backgrounds() {
    let style = ProgressBarStyle::new();
    assert_eq!(style, ProgressBarStyle::default());
    let green = TermColor::Ansi(AnsiColor::Green);
    let grey = TermColor::Ansi(AnsiColor::Grey);
    let style = style.fg(green).bg(grey);
    assert_eq!(style.loaded_style, Style::new().bg(green));
    assert_eq!(style.unloaded_style, Style::new().bg(grey));
}
