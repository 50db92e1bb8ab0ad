use hayabusa::block::read_block;
use hayabusa::config::{Border, BorderChars, Padding};
use hayabusa::frame::{
    add_border, add_left_padding, add_lower_padding, add_padding, add_right_padding,
    add_upper_padding, border_lines, reset_formatting_on_cr,
};
use hayabusa::text::{to_chars, to_text};
use hayabusa::width::width;

fn padded(text: &str, top: u8, bottom: u8, left: u8, right: u8) -> String {
    let mut text = text.to_string();
    add_padding(&mut text, &Padding { top, bottom, left, right });
    text
}

fn plain_border(enabled: bool, color: &str) -> Border {
    Border {
        enabled,
        ansi_color: color.to_string(),
        border_chars: BorderChars {
            top_left: '+',
            top_right: '+',
            bottom_left: '+',
            bottom_right: '+',
            horizontal: '-',
            vertical: '|',
        },
    }
}

fn rounded(color: &str) -> Border {
    Border {
        enabled: true,
        ansi_color: color.to_string(),
        border_chars: BorderChars {
            top_left: '╭',
            top_right: '╮',
            bottom_left: '╰',
            bottom_right: '╯',
            horizontal: '─',
            vertical: '│',
        },
    }
}

#[test]
fn padding_two_above_one_below_three_left_none_right() {
    let out = padded("abcd\nef  \ngh  ", 2, 1, 3, 0);
    let lines: Vec<&str> = out.lines().collect();
    assert_eq!(lines.len(), 6);
    assert_eq!(lines, vec!["       ", "       ", "   abcd", "   ef  ", "   gh  ", "       "]);
    for line in &lines[2..5] {
        assert_eq!(width(line), 4 + 3);
    }
}

#[test]
fn each_side_is_padded_on_its_own() {
    let mut text = "ab\nc".to_string();
    add_upper_padding(&mut text, 2);
    assert_eq!(text, "  \n  \nab\nc");
    let mut text = "ab\nc".to_string();
    add_lower_padding(&mut text, 1);
    assert_eq!(text, "ab\nc\n  ");
    let mut text = "ab\nc".to_string();
    add_left_padding(&mut text, 3);
    assert_eq!(text, "   ab\n   c");
    let mut text = "ab\nc".to_string();
    add_right_padding(&mut text, 2);
    assert_eq!(text, "ab  \nc  ");
}

#[test]
fn no_padding_leaves_the_text_untouched() {
    for text in ["ab\nc", "ab\nc\n", "a\r\nb", "", "\n\n"] {
        assert_eq!(padded(text, 0, 0, 0, 0), text);
    }
}

#[test]
fn blank_lines_are_as_wide_as_what_is_shown() {
    assert_eq!(padded("\x1b[38;5;1mab\x1b[0m", 1, 1, 0, 0), "  \n\x1b[38;5;1mab\x1b[0m\n  ");
    assert_eq!(padded("世界", 1, 0, 1, 1), "      \n 世界 ");
}

#[test]
fn padding_an_empty_text_gives_empty_lines() {
    assert_eq!(padded("", 2, 0, 0, 0), "\n");
    assert_eq!(padded("", 3, 0, 2, 0), "  \n  ");
    assert_eq!(padded("", 1, 0, 0, 0), "");
    assert_eq!(padded("", 0, 0, 2, 3), "");
}

#[test]
fn a_border_frames_the_text() {
    assert_eq!(
        add_border("ab\nc", &plain_border(true, "")),
        "+--+\x1b[0m\n|\x1b[0mab|\x1b[0m\n|\x1b[0mc |\x1b[0m\n+--+\x1b[0m"
    );
}

#[test]
fn a_border_is_drawn_in_its_colour() {
    let c = "\x1b[38;5;11m";
    let r = "\x1b[0m";
    assert_eq!(
        add_border("hi", &rounded("{{color11}}")),
        format!("{c}╭──╮{r}\n{c}│{r}hi{c}│{r}\n{c}╰──╯{r}")
    );
}

#[test]
fn a_border_makes_a_rectangle() {
    let text = "\x1b[38;5;4mCPU\x1b[0m: X\nRAM\n世界!";
    let out = add_border(text, &rounded("{{color11}}"));
    let lines: Vec<&str> = out.lines().collect();
    assert_eq!(lines.len(), 3 + 2);
    for line in &lines {
        assert_eq!(width(line), 6 + 2);
    }
    assert_eq!(hayabusa::escapes::remove_ansi_escape_codes(lines[0]), "╭──────╮");
    assert_eq!(hayabusa::escapes::remove_ansi_escape_codes(lines[4]), "╰──────╯");
    assert_eq!(hayabusa::escapes::remove_ansi_escape_codes(lines[2]), "│RAM   │");
}

#[test]
fn a_border_around_nothing_is_two_edges() {
    assert_eq!(add_border("", &plain_border(true, "")), "++\x1b[0m\n++\x1b[0m");
}

#[test]
fn a_border_that_is_switched_off_changes_nothing() {
    for text in ["ab\nc", "ab\n", "", "a\r\nb"] {
        assert_eq!(add_border(text, &plain_border(false, "{{color1}}")), text);
    }
}

#[test]
fn border_lines_take_a_resolved_colour() {
    let out = border_lines(
        &read_block("a"),
        &to_chars("\x1b[1m"),
        &plain_border(true, "").border_chars,
    );
    let lines: Vec<String> = out.iter().map(|line| to_text(line)).collect();
    assert_eq!(
        lines,
        vec![
            "\x1b[1m+-+\x1b[0m",
            "\x1b[1m|\x1b[0ma\x1b[1m|\x1b[0m",
            "\x1b[1m+-+\x1b[0m"
        ]
    );
}

#[test]
fn a_reset_follows_every_carriage_return() {
    assert_eq!(reset_formatting_on_cr("a\rb"), "a\r\x1b[0mb");
    assert_eq!(reset_formatting_on_cr("\r\r"), "\r\x1b[0m\r\x1b[0m");
    assert_eq!(reset_formatting_on_cr("a\r\nb"), "a\r\x1b[0m\nb");
}

#[test]
fn text_without_carriage_returns_stays() {
    assert_eq!(reset_formatting_on_cr("a\nb"), "a\nb");
    assert_eq!(reset_formatting_on_cr(""), "");
}
