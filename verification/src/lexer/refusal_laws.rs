//! Which malformed tokens are refused as what.

use crate::diagnostic::DiagnosticCode;
use crate::lexer::grammar::{char_literal, string_body, token_at};
use crate::lexer::number_laws::open_block_comment_is_refused;
use crate::source::at;
use vstd::prelude::*;

verus! {

/// The token at `p` is refused with a code.
pub open spec fn refused_as(text: Seq<char>, p: int, code: DiagnosticCode) -> bool {
    token_at(text, p).outcome matches Err(e) && e.code == code
}

proof fn body_stays_open(text: Seq<char>, p: int)
    requires
        0 <= p <= text.len(),
        forall|i: int| p <= i < text.len() ==> #[trigger] text[i] != '"' && text[i] != '\\',
    ensures
        string_body(text, p, false) is Open,
    decreases text.len() - p,
{
    if p < text.len() {
        assert(text[p] != '"' && text[p] != '\\');
        body_stays_open(text, p + 1);
    }
}

/// A string that is not closed is refused as such.
pub proof fn open_string_is_refused(text: Seq<char>, p: int)
    requires
        0 <= p < text.len(),
        text[p] == '"',
        forall|i: int| p < i < text.len() ==> #[trigger] text[i] != '"' && text[i] != '\\',
    ensures
        refused_as(text, p, DiagnosticCode::LexUnterminatedString),
{
    reveal(token_at);
    body_stays_open(text, p + 1);
    if p + 1 < text.len() {
        assert(text[p + 1] != '"');
    }
}

/// A comment that is not closed is refused as such.
pub proof fn open_comment_is_refused(text: Seq<char>, p: int)
    requires
        0 <= p,
        p + 1 < text.len(),
        text[p] == '/',
        text[p + 1] == '*',
        forall|i: int|
            p + 2 <= i < text.len() - 1 ==> !(#[trigger] text[i] == '*' && text[i + 1] == '/'),
    ensures
        refused_as(text, p, DiagnosticCode::LexUnterminatedComment),
{
    open_block_comment_is_refused(text, p);
    reveal(token_at);
}

/// A backslash in front of a character that has no escape is refused, in strings
/// and in character literals.
pub proof fn unknown_escape_is_refused(text: Seq<char>, p: int)
    requires
        0 <= p,
        p + 2 < text.len(),
        text[p] == '"' || text[p] == '\'',
        text[p + 1] == '\\',
        text[p + 2] == 'q' || text[p + 2] == 'x' || text[p + 2] == 'u' || text[p + 2] == 'a',
    ensures
        refused_as(text, p, DiagnosticCode::LexUnknownEscape),
{
    reveal(token_at);
    reveal_with_fuel(string_body, 2);
    reveal_with_fuel(char_literal, 2);
}

/// A character literal holds one character: one with none or with two is
/// refused.
pub proof fn character_literals_hold_one_character(text: Seq<char>, p: int)
    requires
        0 <= p,
        p + 2 < text.len(),
        text[p] == '\'',
        text[p + 1] != '\\',
        text[p + 2] != '\\',
    ensures
        text[p + 1] == '\'' ==> refused_as(text, p, DiagnosticCode::LexInvalidCharacterLiteral),
        text[p + 1] != '\'' && text[p + 2] != '\'' ==> refused_as(
            text,
            p,
            DiagnosticCode::LexInvalidCharacterLiteral,
        ),
{
    reveal(token_at);
    reveal_with_fuel(char_literal, 3);
}

/// Characters that start no token are refused, and so is a bar on its own.
pub proof fn stray_characters_are_refused(text: Seq<char>, p: int)
    requires
        0 <= p < text.len(),
    ensures
        text[p] == '@' || text[p] == '#' || text[p] == '$' || text[p] == ';' || text[p] == '?'
            || text[p] == '^' || text[p] == '~' || text[p] == '`' || text[p] == '\\'
            ==> refused_as(text, p, DiagnosticCode::LexUnexpectedCharacter),
        text[p] == '|' && at(text, p + 1) != Some('|') ==> refused_as(
            text,
            p,
            DiagnosticCode::LexUnexpectedCharacter,
        ),
{
    reveal(token_at);
}

} // verus!
