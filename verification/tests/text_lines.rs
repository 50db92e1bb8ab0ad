use hayabusa::text::{feed_lines, join_lines, push_all, push_repeated, split_lines, to_chars, to_text};

fn lines_of(text: &str) -> Vec<String> {
    split_lines(&to_chars(text)).iter().map(|line| to_text(line)).collect()
}

fn block_of(lines: &[&str]) -> Vec<Vec<char>> {
    lines.iter().map(|line| to_chars(line)).collect()
}

#[test]
fn chars_and_text_round_trip() {
    let text = "héllo, 世界!\x1b[0m";
    let chars = to_chars(text);
    assert_eq!(chars.len(), 14);
    assert_eq!(chars[1], 'é');
    assert_eq!(to_text(&chars), text);
    assert_eq!(to_chars(""), Vec::<char>::new());
}

#[test]
fn lines_split_at_line_feeds() {
    assert_eq!(lines_of("a\nb\nc"), vec!["a", "b", "c"]);
    assert_eq!(lines_of("one line"), vec!["one line"]);
}

#[test]
fn the_empty_text_has_no_lines() {
    assert_eq!(lines_of(""), Vec::<String>::new());
}

#[test]
fn a_final_line_feed_adds_no_line() {
    assert_eq!(lines_of("a\n"), vec!["a"]);
    assert_eq!(lines_of("a\n\n"), vec!["a", ""]);
    assert_eq!(lines_of("\n"), vec![""]);
}

#[test]
fn a_carriage_return_before_a_line_feed_is_dropped() {
    assert_eq!(lines_of("a\r\nb"), vec!["a", "b"]);
    assert_eq!(lines_of("a\r\r\nb"), vec!["a\r", "b"]);
    assert_eq!(lines_of("\r\n"), vec![""]);
}

#[test]
fn a_bare_carriage_return_stays() {
    assert_eq!(lines_of("a\rb"), vec!["a\rb"]);
    assert_eq!(lines_of("a\r"), vec!["a\r"]);
    assert_eq!(lines_of("x\na\r"), vec!["x", "a\r"]);
}

#[test]
fn lines_agree_with_the_standard_library() {
    let samples = [
        "",
        "\n",
        "\r",
        "\r\n",
        "a",
        "a\n",
        "a\r",
        "a\r\n",
        "a\nb",
        "a\r\nb\r\n",
        "a\n\nb",
        "\n\na",
        "a\rb\nc\r",
        "\r\r\n\n\r",
        "CPU: X\nRAM: Y",
        "x\n\n\n",
    ];
    for text in samples {
        let expected: Vec<String> = text.lines().map(|line| line.to_string()).collect();
        assert_eq!(lines_of(text), expected, "lines of {:?}", text);
    }
}

#[test]
fn joining_puts_a_line_feed_between_lines() {
    assert_eq!(to_text(&join_lines(&block_of(&["a", "b", "c"]))), "a\nb\nc");
    assert_eq!(to_text(&join_lines(&block_of(&["a"]))), "a");
    assert_eq!(to_text(&join_lines(&block_of(&[]))), "");
    assert_eq!(to_text(&join_lines(&block_of(&["", ""]))), "\n");
}

#[test]
fn feeding_puts_a_line_feed_behind_every_line() {
    assert_eq!(to_text(&feed_lines(&block_of(&["a", "b"]))), "a\nb\n");
    assert_eq!(to_text(&feed_lines(&block_of(&[]))), "");
    assert_eq!(to_text(&feed_lines(&block_of(&[""]))), "\n");
}

#[test]
fn pushing_appends() {
    let mut out = to_chars("ab");
    push_repeated(&mut out, '-', 3);
    push_all(&mut out, &to_chars("cd"));
    push_repeated(&mut out, 'x', 0);
    assert_eq!(to_text(&out), "ab---cd");
}
