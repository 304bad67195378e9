use hraw::display::Indent;

fn reference(s: &str, level: usize) -> String {
    s.lines().map(|line| format!("{}{}", " ".repeat(level), line)).collect::<Vec<_>>().join("\n")
}

#[test]
fn indent_matches_lines_and_join() {
    let cases = [
        "",
        "a",
        "a\nb",
        "a\n",
        "\n",
        "\n\n",
        "a\r\nb\r\n",
        "a\rb\r",
        "x\r",
        "ä\n  β\r\n\tγ",
        "width : 1024\nheight : 768\n",
    ];
    for s in cases {
        for level in [0, 1, 2, 5] {
            assert_eq!(s.to_string().indent(level), reference(s, level), "{s:?} {level}");
        }
    }
}

#[test]
fn indent_two_spaces() {
    assert_eq!("a: 1\nb: 2\n".to_string().indent(2), "  a: 1\n  b: 2");
}

#[test]
fn law_indent_zero_gives_text_back() {
    for s in ["a", "a\nb", "\n\nq", "ß"] {
        assert_eq!(s.to_string().indent(0), s);
    }
}
