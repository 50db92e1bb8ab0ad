use hayabusa::block::{
    lines_width, normalize, normalize_lines, raise_lines, read_block, terminate_lines,
    terminate_styling, transpose_string, write_block,
};
use hayabusa::width::width;

fn normalized(text: &str) -> String {
    let mut text = text.to_string();
    normalize(&mut text);
    text
}

fn terminated(text: &str) -> String {
    let mut text = text.to_string();
    terminate_styling(&mut text);
    text
}

#[test]
fn normalizing_pads_to_the_widest_line() {
    assert_eq!(normalized("CPU: X\nRAM"), "CPU: X\nRAM   ");
    assert_eq!(normalized("a\nbbb\ncc"), "a  \nbbb\ncc ");
    assert_eq!(normalized("same\nsize"), "same\nsize");
}

#[test]
fn normalizing_measures_what_is_shown() {
    assert_eq!(normalized("\x1b[38;5;1mab\x1b[0m\nabcd"), "\x1b[38;5;1mab\x1b[0m  \nabcd");
    assert_eq!(normalized("世界\nabc"), "世界\nabc ");
    assert_eq!(normalized("{{color1}}a\nbb"), "{{color1}}a \nbb");
}

#[test]
fn normalizing_keeps_empty_lines_as_lines() {
    assert_eq!(normalized("ab\n\ncd"), "ab\n  \ncd");
    assert_eq!(normalized(""), "");
    assert_eq!(normalized("\n"), "");
}

#[test]
fn normalizing_twice_is_normalizing_once() {
    for text in ["CPU: X\nRAM", "\x1b[1ma\x1b[0m\nbcd\n\n世", "", "x", "{{a\nb}}\nccc\x1b["] {
        let once = normalized(text);
        assert_eq!(normalized(&once), once);
        let lines: Vec<&str> = once.lines().collect();
        for line in &lines {
            assert_eq!(width(line), width(lines[0]));
        }
    }
}

#[test]
fn normalizing_lines_keeps_their_number() {
    let block = read_block("a\nbcd\n");
    let even = normalize_lines(&block);
    assert_eq!(even.len(), 2);
    assert_eq!(write_block(&even), "a  \nbcd");
    assert_eq!(lines_width(&block), 3);
    assert_eq!(lines_width(&even), 3);
    assert_eq!(lines_width(&Vec::new()), 0);
}

#[test]
fn every_line_gets_a_reset_tag() {
    assert_eq!(terminated("a\nb"), "a{{reset}}\nb{{reset}}");
    assert_eq!(terminated("a\n\nb\n"), "a{{reset}}\n{{reset}}\nb{{reset}}");
    assert_eq!(terminated(""), "");
    assert_eq!(write_block(&terminate_lines(&read_block("x"))), "x{{reset}}");
}

#[test]
fn transposing_puts_each_character_on_a_line() {
    assert_eq!(transpose_string("abc".to_string()), "a\nb\nc");
    assert_eq!(transpose_string("   ".to_string()), " \n \n ");
    assert_eq!(transpose_string("x".to_string()), "x");
    assert_eq!(transpose_string(String::new()), "");
}

#[test]
fn raising_adds_blank_lines_below() {
    let block = read_block("ab\nc");
    assert_eq!(write_block(&raise_lines(&block, 4)), "ab\nc\n  \n  ");
    assert_eq!(write_block(&raise_lines(&block, 2)), "ab\nc");
    assert_eq!(write_block(&raise_lines(&block, 1)), "ab\nc");
    assert_eq!(raise_lines(&Vec::new(), 3), vec![Vec::<char>::new(); 3]);
}
