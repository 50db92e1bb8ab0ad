use hayabusa::tags::parse_internal_ansi_codes;
use hayabusa::width::{count_columns, line_width, width};
use hayabusa::text::to_chars;
use hayabusa::escapes::remove_ansi_escape_codes;

#[test]
fn the_empty_line_has_no_width() {
    assert_eq!(width(""), 0);
}

#[test]
fn plain_ascii_is_as_wide_as_it_is_long() {
    assert_eq!(width("CPU: X"), 6);
    assert_eq!(width("RAM: Y"), 6);
    assert_eq!(width(" "), 1);
    assert_eq!(width("~!@#$%^&*()_+|"), 14);
    let all: String = (0x20u8..0x7f).map(|b| b as char).collect();
    assert_eq!(width(&all), 95);
}

#[test]
fn wide_characters_take_two_columns() {
    assert_eq!(width("世界"), 4);
    assert_eq!(width("a世b"), 4);
    assert_eq!(width("Ｈｅｌｌｏ"), 10);
}

#[test]
fn combining_characters_take_no_column() {
    assert_eq!(width("e\u{301}"), 1);
    assert_eq!(width("\u{200b}"), 0);
}

#[test]
fn control_characters_take_no_column() {
    assert_eq!(width("\t"), 0);
    assert_eq!(width("a\rb"), 2);
    assert_eq!(width("\x1b"), 0);
    assert_eq!(width("\u{85}"), 0);
}

#[test]
fn border_glyphs_take_one_column() {
    for glyph in ["╭", "╮", "╰", "╯", "─", "│"] {
        assert_eq!(width(glyph), 1);
    }
}

#[test]
fn escape_sequences_take_no_column() {
    assert_eq!(width("\x1b[38;5;11mhi\x1b[0m"), 2);
    assert_eq!(width("\x1b_Gf=100;AAAA\x1b\\  "), 2);
}

#[test]
fn markup_takes_no_column() {
    assert_eq!(width("{{color1}}hi{{reset}}"), 2);
    assert_eq!(width("{{x}}"), 0);
}

#[test]
fn what_is_not_closed_takes_its_columns() {
    assert_eq!(width("{{color1"), 8);
    assert_eq!(width("\x1b[38"), 3);
}

#[test]
fn resolving_does_not_change_the_width() {
    for text in ["{{color4}}blue{{reset}}", "a{{reset}}b", "{{color300}}x"] {
        let mut resolved = text.to_string();
        parse_internal_ansi_codes(&mut resolved);
        assert_eq!(width(&resolved), width(text));
    }
}

#[test]
fn width_is_the_columns_of_what_is_left() {
    for text in ["\x1b[1m世界\x1b[0m!", "{{a}}b", "plain"] {
        let left = remove_ansi_escape_codes(text);
        assert_eq!(width(text), count_columns(&to_chars(&left)));
        assert_eq!(width(text), line_width(&to_chars(text)));
    }
}

#[test]
fn columns_count_every_character() {
    assert_eq!(count_columns(&to_chars("{{x}}")), 5);
    assert_eq!(count_columns(&to_chars("\x1b[0m")), 3);
}
