use hayabusa::cursor::{parse_ascii_art, put_ascii_left, remove_ansi, replace_all};
use hayabusa::text::{to_chars, to_text};

fn replaced(text: &str, pattern: &str, with: &str) -> String {
    to_text(&replace_all(&to_chars(text), &to_chars(pattern), &to_chars(with)))
}

#[test]
fn every_match_is_replaced() {
    assert_eq!(replaced("a-b-c", "-", "+"), "a+b+c");
    assert_eq!(replaced("aaaa", "aa", "b"), "bb");
    assert_eq!(replaced("aaa", "aa", "b"), "ba");
    assert_eq!(replaced("abc", "abc", ""), "");
    assert_eq!(replaced("abc", "x", "y"), "abc");
    assert_eq!(replaced("ab", "abc", "y"), "ab");
    assert_eq!(replaced("", "a", "b"), "");
    assert_eq!(replaced("x\ny\n", "\n", "\n  "), "x\n  y\n  ");
}

#[test]
fn an_empty_pattern_is_found_nowhere() {
    assert_eq!(replaced("abc", "", "-"), "abc");
}

#[test]
fn replacing_agrees_with_the_standard_library() {
    let cases = [
        ("{{color1}}a{{color1}}", "{{color1}}", "\x1b[38;5;1m"),
        ("abababab", "aba", "X"),
        ("世界世界", "界", "world"),
        ("a\r\nb\r", "\r", "\x1b[0m\r"),
        ("}}}}}", "}}", "{"),
    ];
    for (text, pattern, with) in cases {
        assert_eq!(replaced(text, pattern, with), text.replace(pattern, with));
    }
}

#[test]
fn the_basic_colours_resolve() {
    assert_eq!(parse_ascii_art("{{color0}}".to_string()), "\x1b[38;5;0m");
    assert_eq!(parse_ascii_art("{{color1}}a{{color10}}b".to_string()), "\x1b[38;5;1ma\x1b[38;5;10mb");
    assert_eq!(parse_ascii_art("{{color15}}x{{reset}}".to_string()), "\x1b[38;5;15mx\x1b[0m");
    for n in 0..16 {
        assert_eq!(parse_ascii_art(format!("{{{{color{n}}}}}")), format!("\x1b[38;5;{n}m"));
    }
}

#[test]
fn other_colours_do_not_resolve() {
    for tag in ["{{color16}}", "{{color255}}", "{{color01}}", "{{color+1}}", "{{color}}", "{{colour1}}"] {
        assert_eq!(parse_ascii_art(tag.to_string()), tag);
    }
}

#[test]
fn basic_resolving_is_the_chain_of_replacements() {
    let art = "{{color4}}/\\{{reset}}\n{{color12}}\\/{{color99}}{{reset}}{{color1}}{{color1}}";
    let mut expected = art.to_string();
    for n in 0..16 {
        expected = expected.replace(&format!("{{{{color{n}}}}}"), &format!("\x1b[38;5;{n}m"));
    }
    expected = expected.replace("{{reset}}", "\x1b[0m");
    assert_eq!(parse_ascii_art(art.to_string()), expected);
}

#[test]
fn tags_are_removed_for_measuring() {
    assert_eq!(remove_ansi("{{color4}}AA{{reset}}\nBB".to_string()), "AA\nBB");
    assert_eq!(remove_ansi("{{anything}}".to_string()), "");
    assert_eq!(remove_ansi("\x1b[0mx".to_string()), "\x1b[0mx");
}

#[test]
fn the_text_goes_beside_the_art() {
    assert_eq!(
        put_ascii_left("{{color1}}AA\nBB".to_string(), "x\ny".to_string()),
        "\x1b[38;5;1mAA\nBB\x1b[1Ax\n\x1b[2Cy\x1b[2B\x1b[0D"
    );
}

#[test]
fn a_longer_text_moves_the_cursor_further_down() {
    assert_eq!(
        put_ascii_left("世界!".to_string(), "a\nb\nc".to_string()),
        "世界!\x1b[0Aa\n\x1b[5Cb\n\x1b[5Cc\x1b[3B\x1b[0D"
    );
    assert_eq!(
        put_ascii_left("A\nB\nC\nDDDD".to_string(), "x".to_string()),
        "A\nB\nC\nDDDD\x1b[3Ax\x1b[4B\x1b[0D"
    );
}
