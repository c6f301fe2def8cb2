//! A lexical token carrying its position in borrowed source text, and the
//! renderer that excerpts the offending line with a colored underline.

use crate::lines::line_range;
use crate::render::{internal_error_note, push_decimal, render_excerpt, render_spec};
use crate::text::{
    byte_index, byte_len, char_pos, is_boundary, lemma_byte_index_monotone, lemma_byte_len_encode,
    lemma_byte_len_subrange, char_pos_exec,
};
use vstd::prelude::*;
use vstd::string::{StrSliceExecFns, StringExecFns};

verus! {

/// An opaque classification tag for a token, assigned by the lexer.
#[derive(Clone, Copy, PartialEq, Eq, Structural, Debug)]
pub struct TokenKind {
    pub tag: u32,
}

/// An opaque classification tag for a diagnostic.
#[derive(Clone, Copy, PartialEq, Eq, Structural, Debug)]
pub struct CompilationErrorKind {
    pub tag: u32,
}

/// A diagnostic: an error classification attached to the token whose
/// position it concerns.
#[derive(Clone, Copy, Debug)]
pub struct CompilationError<'a> {
    pub token: Token<'a>,
    pub kind: CompilationErrorKind,
}

/// A terminal color capability: the opaque escape sequences written
/// before and after the underline (empty when color is disabled).
pub struct Color {
    pub prefix: String,
    pub suffix: String,
}

impl Color {
    /// Builds a capability from the two escape sequences.
    pub fn new(prefix: String, suffix: String) -> (c: Color)
        ensures
            c.prefix@ == prefix@,
            c.suffix@ == suffix@,
    {
        Color { prefix, suffix }
    }

    /// The escape sequence that opens the colored span.
    pub fn prefix(&self) -> (r: &str)
        ensures
            r@ == self.prefix@,
    {
        self.prefix.as_str()
    }

    /// The escape sequence that closes the colored span.
    pub fn suffix(&self) -> (r: &str)
        ensures
            r@ == self.suffix@,
    {
        self.suffix.as_str()
    }
}

/// A lexical token: a byte span of borrowed source text together with the
/// 0-based line it stands on and the byte column at which it starts
/// within that line. It never outlives the source it borrows.
#[derive(Clone, Copy, PartialEq, Debug)]
pub struct Token<'a> {
    pub offset: usize,
    pub length: usize,
    pub line: usize,
    pub column: usize,
    pub src: &'a str,
    pub kind: TokenKind,
}

impl<'a> Token<'a> {
    /// The token's span lies inside the source and begins and ends on
    /// character boundaries, as any token a correct lexer produces does.
    pub open spec fn wf(self) -> bool {
        &&& is_boundary(self.src@, self.offset as nat)
        &&& is_boundary(self.src@, (self.offset + self.length) as nat)
        &&& byte_len(self.src@) <= usize::MAX
    }

    /// The token's lexeme: the characters of the source between the
    /// token's byte offset and the end of its span.
    pub open spec fn lexeme_spec(self) -> Seq<char> {
        self.src@.subrange(
            char_pos(self.src@, self.offset as nat),
            char_pos(self.src@, (self.offset + self.length) as nat),
        )
    }

    /// Returns the exact source substring this token spans. A pure view:
    /// no allocation, no copy.
    pub fn lexeme(&self) -> (r: &'a str)
        requires
            self.wf(),
        ensures
            r@ == self.lexeme_spec(),
    {
        proof {
            let jb = choose|j: int|
                0 <= j <= self.src@.len() && byte_index(self.src@, j) == self.offset
                    + self.length;
            lemma_byte_index_monotone(self.src@, jb, self.src@.len() as int);
        }
        let a = char_pos_exec(self.src, self.offset);
        let b = char_pos_exec(self.src, self.offset + self.length);
        proof {
            if b < a {
                lemma_byte_index_monotone(self.src@, b as int, a as int);
            }
        }
        self.src.substring_char(a, b)
    }

    /// Attaches an error classification to this token, producing a
    /// diagnostic that carries the position information.
    pub fn error(&self, kind: CompilationErrorKind) -> (e: CompilationError<'a>)
        ensures
            e.token == *self,
            e.kind == kind,
    {
        CompilationError { token: *self, kind }
    }

    /// Renders the three-line excerpt that `render_spec` describes: a
    /// blank gutter line, the 1-based line number with the source line
    /// tabs-expanded, and the colored underline below the token's span.
    /// A token pointing at the end of the input renders nothing; one
    /// naming a line the source does not have renders a visible
    /// internal-error note.
    pub fn write_context(&self, color: &Color) -> (out: String)
        requires
            self.line < usize::MAX,
            4 * byte_len(self.src@) <= usize::MAX,
        ensures
            out@ == render_spec(
                self.src@,
                self.offset as nat,
                self.length as nat,
                self.line as nat,
                self.column as nat,
                color.prefix@,
                color.suffix@,
            ),
    {
        let width: usize = if self.length == 0 {
            1
        } else {
            self.length
        };
        let line_number: usize = self.line + 1;
        proof {
            assert(self.src@.skip(0) =~= self.src@);
        }
        match line_range(self.src, 0, self.line) {
            Some((a, b)) => {
                proof {
                    lemma_byte_len_subrange(self.src@, a as int, b as int);
                }
                let out = render_excerpt(
                    self.src,
                    a,
                    b,
                    line_number,
                    self.column,
                    width,
                    color.prefix.as_str(),
                    color.suffix.as_str(),
                );
                out
            },
            None => {
                let mut out = String::new();
                proof {
                    lemma_byte_len_encode(self.src@);
                }
                if self.offset != self.src.len() {
                    out.append("internal error: Error has invalid line number: ");
                    push_decimal(&mut out, line_number);
                    proof {
                        assert(out@ =~= internal_error_note(line_number as nat));
                    }
                } else {
                    proof {
                        assert(out@ =~= Seq::<char>::empty());
                    }
                }
                out
            },
        }
    }
}

} // verus!
