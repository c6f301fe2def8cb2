use token_context::token::{Color, Token, TokenKind};

fn tok(src: &str, offset: usize, length: usize, line: usize, column: usize) -> Token<'_> {
    Token { offset, length, line, column, src, kind: TokenKind { tag: 0 } }
}

fn marks() -> Color {
    Color::new(String::from("<"), String::from(">"))
}

#[test]
fn tab_then_token() {
    let src = "let\tx = 1";
    let t = tok(src, 4, 1, 0, 4);
    let out = t.write_context(&marks());
    // 'l', 'e', 't' measure one column each and the tab four, so the
    // underline sits eight columns past the gutter separator.
    let expected = format!("  |\n1 | let    x = 1\n  |{}<^>", " ".repeat(8));
    assert_eq!(out, expected);
}

#[test]
fn ascii_columns_match_bytes() {
    let src = "hello";
    let t = tok(src, 1, 2, 0, 1);
    let out = t.write_context(&marks());
    assert_eq!(out, "  |\n1 | hello\n  |  <^^>");
}

#[test]
fn zero_length_token_underlines_one_column() {
    let src = "ab";
    let t = tok(src, 1, 0, 0, 1);
    let out = t.write_context(&marks());
    assert_eq!(out, "  |\n1 | ab\n  |  <^>");
}

#[test]
fn zero_length_token_on_tab_underlines_four_columns() {
    let src = "\tq";
    let t = tok(src, 0, 0, 0, 0);
    let out = t.write_context(&marks());
    assert_eq!(out, "  |\n1 |     q\n  | <^^^^>");
}

#[test]
fn wide_character_shifts_underline() {
    let src = "\u{4e16}x";
    let t = tok(src, 3, 1, 0, 3);
    let out = t.write_context(&marks());
    assert_eq!(out, format!("  |\n1 | \u{4e16}x\n  |{}<^>", " ".repeat(3)));
}

#[test]
fn second_line_is_located() {
    let src = "ab\ncd";
    let t = tok(src, 3, 2, 1, 0);
    let out = t.write_context(&marks());
    assert_eq!(out, "  |\n2 | cd\n  | <^^>");
}

#[test]
fn carriage_return_is_stripped() {
    let src = "ab\r\ncd";
    let t = tok(src, 0, 2, 0, 0);
    let out = t.write_context(&marks());
    assert_eq!(out, "  |\n1 | ab\n  | <^^>");
}

#[test]
fn two_digit_line_number_widens_gutter() {
    let src = "a\nb\nc\nd\ne\nf\ng\nh\ni\nj";
    let t = tok(src, 18, 1, 9, 0);
    let out = t.write_context(&marks());
    assert_eq!(out, "   |\n10 | j\n   | <^>");
}

#[test]
fn end_of_input_is_silent() {
    let src = "a\n";
    let t = tok(src, 2, 0, 5, 0);
    let out = t.write_context(&marks());
    assert_eq!(out, "");
}

#[test]
fn invalid_line_gets_internal_error_note() {
    let src = "a";
    let t = tok(src, 0, 1, 3, 0);
    let out = t.write_context(&marks());
    assert_eq!(out, "internal error: Error has invalid line number: 4");
}

#[test]
fn empty_source_at_offset_zero_is_silent() {
    let src = "";
    let t = tok(src, 0, 0, 0, 0);
    let out = t.write_context(&marks());
    assert_eq!(out, "");
}

#[test]
fn tab_before_column_widens_indent_by_three() {
    let plain = tok("ax=1", 2, 1, 0, 2);
    let tabbed = tok("a\t=1", 2, 1, 0, 2);
    let color = marks();
    let out_plain = plain.write_context(&color);
    let out_tabbed = tabbed.write_context(&color);
    let indent = |s: &str| s.rfind("|").map(|p| s[p + 1..].find("<").unwrap()).unwrap();
    // the tab measures four columns where the replaced 'x' measured one
    assert_eq!(indent(&out_tabbed), indent(&out_plain) + 3);
}

#[test]
fn underline_count_round_trips_token_length() {
    let color = marks();
    for (src, offset, length, column) in
        [("abcdef", 1usize, 3usize, 1usize), ("abcdef", 2, 0, 2), ("ab", 0, 2, 0)]
    {
        let t = tok(src, offset, length, 0, column);
        let out = t.write_context(&color);
        let open = out.find('<').unwrap();
        let close = out.find('>').unwrap();
        let carets = out[open + 1..close].chars().filter(|c| *c == '^').count();
        assert_eq!(carets, length.max(1));
    }
}

#[test]
fn empty_line_renders_empty_underline() {
    let src = "\n\n";
    let t = tok(src, 1, 0, 1, 0);
    let out = t.write_context(&marks());
    assert_eq!(out, "  |\n2 | \n  | <>");
}

#[test]
fn color_escapes_wrap_underline() {
    let src = "x";
    let t = tok(src, 0, 1, 0, 0);
    let color = Color::new(String::from("\u{1b}[31m"), String::from("\u{1b}[0m"));
    let out = t.write_context(&color);
    assert_eq!(out, "  |\n1 | x\n  | \u{1b}[31m^\u{1b}[0m");
    assert_eq!(color.prefix(), "\u{1b}[31m");
    assert_eq!(color.suffix(), "\u{1b}[0m");
}
