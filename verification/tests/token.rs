use token_context::token::{CompilationErrorKind, Token, TokenKind};

fn tok(src: &str, offset: usize, length: usize, line: usize, column: usize) -> Token<'_> {
    Token { offset, length, line, column, src, kind: TokenKind { tag: 1 } }
}

#[test]
fn lexeme_is_the_spanned_substring() {
    let src = "let\tx = 1";
    let t = tok(src, 4, 1, 0, 4);
    assert_eq!(t.lexeme(), "x");
}

#[test]
fn lexeme_spans_multibyte_characters() {
    let src = "a\u{4e16}b";
    let t = tok(src, 1, 3, 0, 1);
    assert_eq!(t.lexeme(), "\u{4e16}");
}

#[test]
fn lexeme_of_zero_length_token_is_empty() {
    let src = "abc";
    let t = tok(src, 3, 0, 0, 3);
    assert_eq!(t.lexeme(), "");
}

#[test]
fn error_carries_token_and_kind() {
    let src = "abc";
    let t = tok(src, 0, 3, 0, 0);
    let e = t.error(CompilationErrorKind { tag: 7 });
    assert_eq!(e.kind.tag, 7);
    assert_eq!(e.token, t);
    assert_eq!(e.token.lexeme(), "abc");
}
