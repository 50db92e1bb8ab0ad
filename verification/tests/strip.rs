use hayabusa::escapes::{remove_ansi_escape_codes, strip_escapes, strip_line, strip_markup};
use hayabusa::text::{to_chars, to_text};
use regex::Regex;

fn without_escapes(text: &str) -> String {
    to_text(&strip_escapes(&to_chars(text)))
}

fn without_markup(text: &str) -> String {
    to_text(&strip_markup(&to_chars(text)))
}

#[test]
fn plain_text_is_left_as_it_is() {
    assert_eq!(remove_ansi_escape_codes("CPU: X"), "CPU: X");
    assert_eq!(remove_ansi_escape_codes(""), "");
    assert_eq!(remove_ansi_escape_codes("a { b } c"), "a { b } c");
}

#[test]
fn colour_sequences_are_removed() {
    assert_eq!(remove_ansi_escape_codes("\x1b[38;5;11mhi\x1b[0m"), "hi");
    assert_eq!(remove_ansi_escape_codes("a\x1b[1;31mb\x1b[mc"), "abc");
    assert_eq!(remove_ansi_escape_codes("\x1b[2 q."), ".");
    assert_eq!(remove_ansi_escape_codes("\x1b[?25l."), ".");
}

#[test]
fn a_sequence_needs_its_final_character() {
    assert_eq!(remove_ansi_escape_codes("\x1b[38;5;11"), "\x1b[38;5;11");
    assert_eq!(remove_ansi_escape_codes("\x1b["), "\x1b[");
    assert_eq!(remove_ansi_escape_codes("\x1b"), "\x1b");
    assert_eq!(remove_ansi_escape_codes("\x1b[3\n"), "\x1b[3\n");
    assert_eq!(remove_ansi_escape_codes("\x1bX"), "\x1bX");
}

#[test]
fn parameters_come_before_intermediates() {
    assert_eq!(without_escapes("\x1b[1 2m"), "\x1b[1 2m");
    assert_eq!(without_escapes("\x1b[12 -/m."), ".");
}

#[test]
fn graphics_commands_are_removed() {
    assert_eq!(remove_ansi_escape_codes("\x1b_Gf=100,m=0;QUJD\x1b\\rest"), "rest");
    assert_eq!(remove_ansi_escape_codes("\x1b_Ga;b;c\\."), ".");
    assert_eq!(remove_ansi_escape_codes("\x1b_G;\\."), ".");
}

#[test]
fn a_command_needs_a_semicolon_and_a_backslash() {
    assert_eq!(remove_ansi_escape_codes("\x1b_Gabc\\."), "\x1b_Gabc\\.");
    assert_eq!(remove_ansi_escape_codes("\x1b_Ga;bc"), "\x1b_Ga;bc");
    assert_eq!(remove_ansi_escape_codes("\x1b_Gab\\c;d\\"), "\x1b_Gab\\c;d\\");
}

#[test]
fn markup_is_removed() {
    assert_eq!(remove_ansi_escape_codes("{{color1}}hi{{reset}}"), "hi");
    assert_eq!(remove_ansi_escape_codes("a{{anything at all}}b"), "ab");
    assert_eq!(remove_ansi_escape_codes("{{}}"), "");
    assert_eq!(remove_ansi_escape_codes("{{a}}}}"), "}}");
    assert_eq!(remove_ansi_escape_codes("{{{a}}"), "");
}

#[test]
fn markup_needs_its_closing_braces_on_the_line() {
    assert_eq!(remove_ansi_escape_codes("{{color1"), "{{color1");
    assert_eq!(remove_ansi_escape_codes("{{a}"), "{{a}");
    assert_eq!(remove_ansi_escape_codes("{{a\n}}"), "{{a\n}}");
    assert_eq!(remove_ansi_escape_codes("{{a\n{{b}}"), "{{a\n");
}

#[test]
fn markup_is_taken_as_short_as_possible() {
    assert_eq!(without_markup("{{a}}b}}"), "b}}");
    assert_eq!(without_markup("{{a{{b}}c}}"), "c}}");
}

#[test]
fn escapes_go_before_markup() {
    assert_eq!(remove_ansi_escape_codes("{\x1b[0m{reset}}"), "");
    assert_eq!(remove_ansi_escape_codes("{{re\x1b[0mset}}x"), "x");
}

#[test]
fn stripping_can_leave_a_sequence_behind() {
    let once = remove_ansi_escape_codes("\x1b\x1b[0m[0mx");
    assert_eq!(once, "\x1b[0mx");
    assert_eq!(remove_ansi_escape_codes(&once), "x");
}

#[test]
fn stripping_twice_is_stripping_once_on_ordinary_text() {
    let samples = [
        "",
        "plain",
        "\x1b[38;5;4mblue\x1b[0m",
        "{{color4}}blue{{reset}}",
        "a\x1b_Gm=0;AAAA\x1b\\b",
        "{{unclosed",
        "\x1b[unfinished",
        "mixed {{x}} and \x1b[1mbold\x1b[0m",
    ];
    for text in samples {
        let once = remove_ansi_escape_codes(text);
        assert_eq!(remove_ansi_escape_codes(&once), once, "for {:?}", text);
    }
}

#[test]
fn strip_line_works_on_characters() {
    assert_eq!(to_text(&strip_line(&to_chars("\x1b[1m世{{x}}界\x1b[0m"))), "世界");
}

fn escape_samples() -> Vec<&'static str> {
    vec![
        "",
        "plain text",
        "\x1b",
        "\x1b[",
        "\x1b[m",
        "\x1b[0m",
        "\x1b[38;5;196mred\x1b[0m",
        "\x1b[1;2;3;4;5m",
        "\x1b[?25h\x1b[?25l",
        "\x1b[12 q",
        "\x1b[ - /@",
        "\x1b[1 2m",
        "\x1b[/0m",
        "\x1b[0",
        "\x1b[0\n",
        "\x1b[0\x1b[0m",
        "\x1b\x1b[0m[0m",
        "\x1b[[[m",
        "\x1b[{x",
        "\x1b_",
        "\x1b_G",
        "\x1b_G;",
        "\x1b_G;\\",
        "\x1b_Gf=100,a=T;QUJDRA==\x1b\\",
        "\x1b_Gabc\\def",
        "\x1b_Ga;b;c;d\\e",
        "\x1b_G\\;\\",
        "\x1b_Ga\nb;c\nd\\e",
        "\x1b_Ga;b",
        "x\x1b_Gm=1;AAAA\x1b\\\x1b_Gm=0;BBBB\x1b\\y",
        "\x1b_\x1b[0m;\\",
        "\x1b[\x1b_a;\\",
        "tab\there\x1b[0m\r\n",
        "世界\x1b[1m世界\x1b[0m",
        "\x1b[38;5;1m\x1b[38;5;2m\x1b[0m\x1b[0m",
        "\\\x1b[0m\\",
        ";\x1b_;\\;",
    ]
}

#[test]
fn escapes_agree_with_the_pattern() {
    let pattern = Regex::new(r"\x1B(?:\[[0-?]*[- /]*[@-~]|_[^\\]*;[^\\]*\\)").unwrap();
    for text in escape_samples() {
        let expected = pattern.replace_all(text, "").to_string();
        assert_eq!(without_escapes(text), expected, "for {:?}", text);
    }
}

#[test]
fn markup_agrees_with_the_pattern() {
    let pattern = Regex::new(r"(\{\{.*?}})").unwrap();
    let samples = [
        "",
        "plain",
        "{",
        "{{",
        "{{}",
        "{{}}",
        "{{}}}",
        "{{{}}}",
        "{{a}}",
        "{{a}}{{b}}",
        "{{a}}x{{b}}",
        "{{a{{b}}c}}",
        "{{{a}}{b}}",
        "{{a\n}}",
        "{{a\n{{b}}\n}}",
        "{{a\r}}",
        "}}{{",
        "{ {a}}",
        "{{a} }",
        "{{color1}}text{{reset}}",
        "{{世界}}世界",
        "x{{y",
        "{{{{}}}}",
        "{{}}}}{{",
    ];
    for text in samples {
        let expected = pattern.replace_all(text, "").to_string();
        assert_eq!(without_markup(text), expected, "for {:?}", text);
    }
}

/// Every text of at most `length` characters over the alphabet.
fn all_texts(alphabet: &[char], length: usize) -> Vec<String> {
    let mut texts = vec![String::new()];
    let mut last = vec![String::new()];
    for _ in 0..length {
        let mut next = Vec::new();
        for text in &last {
            for c in alphabet {
                let mut longer = text.clone();
                longer.push(*c);
                next.push(longer);
            }
        }
        texts.extend(next.iter().cloned());
        last = next;
    }
    texts
}

#[test]
fn escapes_agree_with_the_pattern_on_every_short_text() {
    let pattern = Regex::new(r"\x1B(?:\[[0-?]*[- /]*[@-~]|_[^\\]*;[^\\]*\\)").unwrap();
    let alphabet = ['\x1b', '[', '_', ';', '\\', '0', ' ', 'm', '\n'];
    for text in all_texts(&alphabet, 5) {
        let expected = pattern.replace_all(&text, "").to_string();
        assert_eq!(without_escapes(&text), expected, "for {:?}", text);
    }
}

#[test]
fn markup_agrees_with_the_pattern_on_every_short_text() {
    let pattern = Regex::new(r"(\{\{.*?}})").unwrap();
    let alphabet = ['{', '}', 'a', '\n'];
    for text in all_texts(&alphabet, 8) {
        let expected = pattern.replace_all(&text, "").to_string();
        assert_eq!(without_markup(&text), expected, "for {:?}", text);
    }
}

#[test]
fn what_is_left_holds_no_markup() {
    let pattern = Regex::new(r"(\{\{.*?}})").unwrap();
    let alphabet = ['{', '}', 'a', '\x1b', '[', 'm'];
    for text in all_texts(&alphabet, 6) {
        let left = remove_ansi_escape_codes(&text);
        assert!(!pattern.is_match(&left), "for {:?}", text);
    }
}
