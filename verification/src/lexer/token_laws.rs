//! What words, operators and escapes read as.

use crate::lexer::grammar::{
    char_literal, escape_value, escaped_body, identifier_end, is_identifier_char_spec, mark,
    string_body, string_rest, token_at, until, Body,
};
use crate::lexer::token::{Lexeme, TokenType};
use crate::source::{at, line_at};
use crate::text::{is_digit_spec, is_letter_spec};
use vstd::prelude::*;

verus! {

/// A word stands at `p` on its own: no character that could belong to it
/// follows.
pub open spec fn stands_at(text: Seq<char>, p: int, w: Seq<char>) -> bool {
    &&& 0 <= p
    &&& p + w.len() <= text.len()
    &&& text.subrange(p, p + w.len()) == w
    &&& at(text, p + w.len()) matches Some(c) ==> !is_letter_spec(c) && !is_digit_spec(c) && c
        != '_'
}

/// A token of type `kind` with `n` characters is read at `p`.
pub open spec fn reads_as(text: Seq<char>, p: int, kind: TokenType, n: int) -> bool {
    &&& token_at(text, p).outcome matches Ok(t) && t.kind == Lexeme::Plain(kind)
    &&& token_at(text, p).end == p + n
}

/// A word that is read as a token of its own type.
pub open spec fn keyword(text: Seq<char>, p: int, w: Seq<char>, kind: TokenType) -> bool {
    stands_at(text, p, w) ==> reads_as(text, p, kind, w.len() as int)
}

proof fn word_ends(text: Seq<char>, p: int, e: int)
    requires
        0 <= p <= e <= text.len(),
        forall|i: int| p <= i < e ==> is_identifier_char_spec(#[trigger] text[i]),
        e < text.len() ==> !is_identifier_char_spec(text[e]),
    ensures
        identifier_end(text, p) == e,
    decreases e - p,
{
    let keep = |c: char| is_identifier_char_spec(c);
    if p < e {
        assert(is_identifier_char_spec(text[p]));
        word_ends(text, p + 1, e);
    }
}

/// A word of letters, digits and underscores that starts with a letter is read
/// as a whole.
proof fn word_is_read_whole(text: Seq<char>, p: int, w: Seq<char>)
    requires
        stands_at(text, p, w),
        w.len() > 0,
        is_letter_spec(w[0]),
        forall|i: int| 0 <= i < w.len() ==> is_identifier_char_spec(#[trigger] w[i]),
    ensures
        token_at(text, p).end == p + w.len(),
        token_at(text, p).outcome matches Ok(t) && t.kind == crate::lexer::grammar::word(w),
{
    reveal(token_at);
    let e = p + w.len();
    assert(text.subrange(p, e)[0] == text[p]);
    assert forall|i: int| p + 1 <= i < e implies is_identifier_char_spec(#[trigger] text[i]) by {
        assert(w[i - p] == text.subrange(p, e)[i - p]);
    }
    word_ends(text, p + 1, e);
}

/// Every keyword reads as its own token, wherever it stands on its own.
pub proof fn keywords_read_as_themselves(text: Seq<char>, p: int)
    ensures
        keyword(text, p, "auto"@, TokenType::Auto),
        keyword(text, p, "func"@, TokenType::Func),
        keyword(text, p, "return"@, TokenType::Return),
        keyword(text, p, "returns"@, TokenType::Returns),
        keyword(text, p, "if"@, TokenType::If),
        keyword(text, p, "else"@, TokenType::Else),
        keyword(text, p, "for"@, TokenType::For),
        keyword(text, p, "while"@, TokenType::While),
        keyword(text, p, "match"@, TokenType::Match),
        keyword(text, p, "const"@, TokenType::Const),
        keyword(text, p, "class"@, TokenType::Class),
        keyword(text, p, "interface"@, TokenType::Interface),
        keyword(text, p, "enum"@, TokenType::Enum),
        keyword(text, p, "import"@, TokenType::Import),
        keyword(text, p, "is"@, TokenType::Is),
        keyword(text, p, "as"@, TokenType::As),
        keyword(text, p, "in"@, TokenType::In),
        keyword(text, p, "break"@, TokenType::Break),
        keyword(text, p, "continue"@, TokenType::Continue),
        keyword(text, p, "none"@, TokenType::NoneKeyword),
        keyword(text, p, "true"@, TokenType::Bool(true)),
        keyword(text, p, "false"@, TokenType::Bool(false)),
        keyword(text, p, "common"@, TokenType::Common),
        keyword(text, p, "where"@, TokenType::Where),
{
    reveal_strlit("auto");
    reveal_strlit("func");
    reveal_strlit("return");
    reveal_strlit("returns");
    reveal_strlit("if");
    reveal_strlit("else");
    reveal_strlit("for");
    reveal_strlit("while");
    reveal_strlit("match");
    reveal_strlit("const");
    reveal_strlit("class");
    reveal_strlit("interface");
    reveal_strlit("enum");
    reveal_strlit("import");
    reveal_strlit("is");
    reveal_strlit("as");
    reveal_strlit("in");
    reveal_strlit("break");
    reveal_strlit("continue");
    reveal_strlit("none");
    reveal_strlit("true");
    reveal_strlit("false");
    reveal_strlit("common");
    reveal_strlit("where");
    assert("auto"@[0] != "func"@[0]);
    assert("auto"@[0] != "else"@[0]);
    assert("auto"@[0] != "enum"@[0]);
    assert("auto"@[0] != "none"@[0]);
    assert("auto"@[0] != "true"@[0]);
    assert("func"@[0] != "else"@[0]);
    assert("func"@[0] != "enum"@[0]);
    assert("func"@[0] != "none"@[0]);
    assert("func"@[0] != "true"@[0]);
    assert("return"@[0] != "import"@[0]);
    assert("return"@[0] != "common"@[0]);
    assert("if"@[1] != "is"@[1]);
    assert("if"@[0] != "as"@[0]);
    assert("if"@[1] != "in"@[1]);
    assert("else"@[1] != "enum"@[1]);
    assert("else"@[0] != "none"@[0]);
    assert("else"@[0] != "true"@[0]);
    assert("while"@[0] != "match"@[0]);
    assert("while"@[0] != "const"@[0]);
    assert("while"@[0] != "class"@[0]);
    assert("while"@[0] != "break"@[0]);
    assert("while"@[0] != "false"@[0]);
    assert("while"@[2] != "where"@[2]);
    assert("match"@[0] != "const"@[0]);
    assert("match"@[0] != "class"@[0]);
    assert("match"@[0] != "break"@[0]);
    assert("match"@[0] != "false"@[0]);
    assert("match"@[0] != "where"@[0]);
    assert("const"@[1] != "class"@[1]);
    assert("const"@[0] != "break"@[0]);
    assert("const"@[0] != "false"@[0]);
    assert("const"@[0] != "where"@[0]);
    assert("class"@[0] != "break"@[0]);
    assert("class"@[0] != "false"@[0]);
    assert("class"@[0] != "where"@[0]);
    assert("enum"@[0] != "none"@[0]);
    assert("enum"@[0] != "true"@[0]);
    assert("import"@[0] != "common"@[0]);
    assert("is"@[0] != "as"@[0]);
    assert("is"@[1] != "in"@[1]);
    assert("as"@[0] != "in"@[0]);
    assert("break"@[0] != "false"@[0]);
    assert("break"@[0] != "where"@[0]);
    assert("none"@[0] != "true"@[0]);
    assert("false"@[0] != "where"@[0]);
    if stands_at(text, p, "auto"@) {
        word_is_read_whole(text, p, "auto"@);
    }
    if stands_at(text, p, "func"@) {
        word_is_read_whole(text, p, "func"@);
    }
    if stands_at(text, p, "return"@) {
        word_is_read_whole(text, p, "return"@);
    }
    if stands_at(text, p, "returns"@) {
        word_is_read_whole(text, p, "returns"@);
    }
    if stands_at(text, p, "if"@) {
        word_is_read_whole(text, p, "if"@);
    }
    if stands_at(text, p, "else"@) {
        word_is_read_whole(text, p, "else"@);
    }
    if stands_at(text, p, "for"@) {
        word_is_read_whole(text, p, "for"@);
    }
    if stands_at(text, p, "while"@) {
        word_is_read_whole(text, p, "while"@);
    }
    if stands_at(text, p, "match"@) {
        word_is_read_whole(text, p, "match"@);
    }
    if stands_at(text, p, "const"@) {
        word_is_read_whole(text, p, "const"@);
    }
    if stands_at(text, p, "class"@) {
        word_is_read_whole(text, p, "class"@);
    }
    if stands_at(text, p, "interface"@) {
        word_is_read_whole(text, p, "interface"@);
    }
    if stands_at(text, p, "enum"@) {
        word_is_read_whole(text, p, "enum"@);
    }
    if stands_at(text, p, "import"@) {
        word_is_read_whole(text, p, "import"@);
    }
    if stands_at(text, p, "is"@) {
        word_is_read_whole(text, p, "is"@);
    }
    if stands_at(text, p, "as"@) {
        word_is_read_whole(text, p, "as"@);
    }
    if stands_at(text, p, "in"@) {
        word_is_read_whole(text, p, "in"@);
    }
    if stands_at(text, p, "break"@) {
        word_is_read_whole(text, p, "break"@);
    }
    if stands_at(text, p, "continue"@) {
        word_is_read_whole(text, p, "continue"@);
    }
    if stands_at(text, p, "none"@) {
        word_is_read_whole(text, p, "none"@);
    }
    if stands_at(text, p, "true"@) {
        word_is_read_whole(text, p, "true"@);
    }
    if stands_at(text, p, "false"@) {
        word_is_read_whole(text, p, "false"@);
    }
    if stands_at(text, p, "common"@) {
        word_is_read_whole(text, p, "common"@);
    }
    if stands_at(text, p, "where"@) {
        word_is_read_whole(text, p, "where"@);
    }
}

/// The keywords.
pub open spec fn is_keyword(w: Seq<char>) -> bool {
    ||| w == "auto"@
    ||| w == "func"@
    ||| w == "return"@
    ||| w == "returns"@
    ||| w == "if"@
    ||| w == "else"@
    ||| w == "for"@
    ||| w == "while"@
    ||| w == "match"@
    ||| w == "const"@
    ||| w == "class"@
    ||| w == "interface"@
    ||| w == "enum"@
    ||| w == "import"@
    ||| w == "is"@
    ||| w == "as"@
    ||| w == "in"@
    ||| w == "break"@
    ||| w == "continue"@
    ||| w == "none"@
    ||| w == "true"@
    ||| w == "false"@
    ||| w == "common"@
    ||| w == "where"@
}

/// A word that is no keyword is a name, and keeps its spelling.
pub proof fn other_words_are_names(text: Seq<char>, p: int, w: Seq<char>)
    requires
        stands_at(text, p, w),
        w.len() > 0,
        is_letter_spec(w[0]),
        forall|i: int|
            0 <= i < w.len() ==> is_letter_spec(#[trigger] w[i]) || is_digit_spec(w[i]) || w[i]
                == '_',
        !is_keyword(w),
    ensures
        token_at(text, p).outcome matches Ok(t) && t.kind == Lexeme::Id(w),
        token_at(text, p).end == p + w.len(),
{
    assert forall|i: int| 0 <= i < w.len() implies is_identifier_char_spec(#[trigger] w[i]) by {
    }
    word_is_read_whole(text, p, w);
}

/// The tokens of one character, wherever it stands.
pub proof fn delimiters_read_as_themselves(text: Seq<char>, p: int)
    requires
        0 <= p < text.len(),
    ensures
        text[p] == '(' ==> reads_as(text, p, TokenType::OpenParen, 1),
        text[p] == ')' ==> reads_as(text, p, TokenType::CloseParen, 1),
        text[p] == '{' ==> reads_as(text, p, TokenType::OpenBrace, 1),
        text[p] == '}' ==> reads_as(text, p, TokenType::CloseBrace, 1),
        text[p] == '[' ==> reads_as(text, p, TokenType::OpenBracket, 1),
        text[p] == ']' ==> reads_as(text, p, TokenType::CloseBracket, 1),
        text[p] == ',' ==> reads_as(text, p, TokenType::Comma, 1),
        text[p] == ':' ==> reads_as(text, p, TokenType::Colon, 1),
        text[p] == '\n' ==> reads_as(text, p, TokenType::NewLine, 1),
{
    reveal(token_at);
}

/// The tokens of two characters, wherever they stand: the longer token wins
/// over the one that its first character would be.
pub proof fn pairs_read_as_one(text: Seq<char>, p: int)
    requires
        0 <= p,
        p + 1 < text.len(),
    ensures
        text[p] == '*' && text[p + 1] == '*' ==> reads_as(text, p, TokenType::StarStar, 2),
        text[p] == '*' && text[p + 1] == '=' ==> reads_as(text, p, TokenType::StarEq, 2),
        text[p] == '=' && text[p + 1] == '=' ==> reads_as(text, p, TokenType::EqEq, 2),
        text[p] == '!' && text[p + 1] == '=' ==> reads_as(text, p, TokenType::NotEq, 2),
        text[p] == '+' && text[p + 1] == '+' ==> reads_as(text, p, TokenType::Incr, 2),
        text[p] == '+' && text[p + 1] == '=' ==> reads_as(text, p, TokenType::PlusEq, 2),
        text[p] == '-' && text[p + 1] == '-' ==> reads_as(text, p, TokenType::Decr, 2),
        text[p] == '-' && text[p + 1] == '=' ==> reads_as(text, p, TokenType::MinusEq, 2),
        text[p] == '<' && text[p + 1] == '=' ==> reads_as(text, p, TokenType::Le, 2),
        text[p] == '>' && text[p + 1] == '=' ==> reads_as(text, p, TokenType::Ge, 2),
        text[p] == '|' && text[p + 1] == '|' ==> reads_as(text, p, TokenType::Or, 2),
        text[p] == '&' && text[p + 1] == '&' ==> reads_as(text, p, TokenType::And, 2),
        text[p] == '/' && text[p + 1] == '=' ==> reads_as(text, p, TokenType::SlashEq, 2),
        text[p] == '%' && text[p + 1] == '=' ==> reads_as(text, p, TokenType::PercentEq, 2),
        text[p] == '.' && text[p + 1] == '.' ==> reads_as(text, p, TokenType::DotDot, 2),
{
    reveal(token_at);
}

/// The operators of one character, where none follows that would make a longer
/// token with it.
pub proof fn single_operators_read_as_themselves(text: Seq<char>, p: int, next: Option<char>)
    requires
        0 <= p < text.len(),
        next == at(text, p + 1),
    ensures
        text[p] == '*' && next != Some('*') && next != Some('=') ==> reads_as(
            text,
            p,
            TokenType::Star,
            1,
        ),
        text[p] == '=' && next != Some('=') ==> reads_as(text, p, TokenType::Eq, 1),
        text[p] == '!' && next != Some('=') ==> reads_as(text, p, TokenType::Bang, 1),
        text[p] == '+' && next != Some('+') && next != Some('=') ==> reads_as(
            text,
            p,
            TokenType::Plus,
            1,
        ),
        text[p] == '-' && next != Some('-') && next != Some('=') && !(next matches Some(c)
            && is_digit_spec(c)) ==> reads_as(text, p, TokenType::Minus, 1),
        text[p] == '<' && next != Some('=') ==> reads_as(text, p, TokenType::Lt, 1),
        text[p] == '>' && next != Some('=') ==> reads_as(text, p, TokenType::Gt, 1),
        text[p] == '&' && next != Some('&') ==> reads_as(text, p, TokenType::Ref, 1),
        text[p] == '/' && next != Some('/') && next != Some('*') && next != Some('=')
            ==> reads_as(text, p, TokenType::Slash, 1),
        text[p] == '%' && next != Some('=') ==> reads_as(text, p, TokenType::Percent, 1),
        text[p] == '.' && next != Some('.') && !(next matches Some(c) && is_digit_spec(c))
            ==> reads_as(text, p, TokenType::Dot, 1),
        text[p] == '_' && !(next matches Some(c) && (is_letter_spec(c) || is_digit_spec(c) || c
            == '_')) ==> reads_as(text, p, TokenType::Underscore, 1),
        text[p] == '|' && next != Some('|') ==> token_at(text, p).outcome is Err,
{
    reveal(token_at);
}

/// How a character is written in a string literal.
pub open spec fn written_char(c: char) -> Seq<char> {
    if c == '\n' {
        seq!['\\', 'n']
    } else if c == '\t' {
        seq!['\\', 't']
    } else if c == '\r' {
        seq!['\\', 'r']
    } else if c == '\0' {
        seq!['\\', '0']
    } else if c == '\\' {
        seq!['\\', '\\']
    } else if c == '\'' {
        seq!['\\', '\'']
    } else if c == '"' {
        seq!['\\', '"']
    } else {
        seq![c]
    }
}

/// How a text is written in a string literal.
pub open spec fn written(s: Seq<char>) -> Seq<char>
    decreases s.len(),
{
    if s.len() == 0 {
        seq![]
    } else {
        written_char(s[0]) + written(s.drop_first())
    }
}

/// Whether a text stands at an offset.
pub open spec fn spelled(text: Seq<char>, p: int, s: Seq<char>) -> bool {
    0 <= p && p + s.len() <= text.len() && text.subrange(p, p + s.len()) == s
}

proof fn body_reads_written(text: Seq<char>, p: int, s: Seq<char>)
    requires
        spelled(text, p, written(s).push('"')),
    ensures
        string_body(text, p, false) == (Body::Closed { value: s, end: p + written(s).len() + 1 }),
    decreases s.len(),
{
    reveal_with_fuel(string_body, 2);
    reveal_with_fuel(escaped_body, 2);
    let all = written(s).push('"');
    let sub = text.subrange(p, p + all.len());
    assert(sub == all);
    assert(sub[0] == text[p]);
    if s.len() == 0 {
        assert(all[0] == '"');
        assert(s =~= seq![]);
    } else {
        let front = written_char(s[0]);
        let rest = s.drop_first();
        let q = p + front.len();
        let back = written(rest).push('"');
        assert(written(s) == front + written(rest));
        assert(all.subrange(front.len() as int, all.len() as int) =~= back);
        assert(text.subrange(q, q + back.len()) =~= sub.subrange(
            front.len() as int,
            all.len() as int,
        ));
        body_reads_written(text, q, rest);
        assert(front[0] == all[0]);
        if front.len() == 2 {
            assert(sub[1] == text[p + 1]);
            assert(front[1] == all[1]);
            assert(escape_value(text[p + 1]) == Some(s[0]));
        }
        assert(seq![s[0]] + rest =~= s);
    }
}

proof fn quote_starts_string(text: Seq<char>, p: int)
    requires
        0 <= p,
        p + 1 < text.len(),
        text[p] == '"',
        text[p + 1] != '"',
    ensures
        token_at(text, p) == string_rest(
            text,
            p + 1,
            until(text, mark(text, p), p + 1),
        ),
{
    reveal(token_at);
}

/// A text that is written between quotes, with an escape for each character
/// that needs one, reads back as the text.
pub proof fn written_string_reads_back(text: Seq<char>, p: int, s: Seq<char>)
    requires
        s.len() > 0,
        spelled(text, p, seq!['"'] + written(s).push('"')),
    ensures
        token_at(text, p).outcome matches Ok(t) && t.kind == Lexeme::Str(s),
        token_at(text, p).end == p + written(s).len() + 2,
{
    let w = written(s).push('"');
    let all = seq!['"'] + w;
    let sub = text.subrange(p, p + all.len());
    assert(sub == all);
    assert(sub[0] == text[p]);
    assert(sub[1] == text[p + 1]);
    assert(all.subrange(1, all.len() as int) =~= w);
    assert(text.subrange(p + 1, p + 1 + w.len()) =~= sub.subrange(1, all.len() as int));
    body_reads_written(text, p + 1, s);
    assert(written(s) == written_char(s[0]) + written(s.drop_first()));
    assert(all[1] == written_char(s[0])[0]);
    quote_starts_string(text, p);
}

/// A character that is written between single quotes, with an escape where it
/// needs one, reads back as the character.
pub proof fn written_character_reads_back(text: Seq<char>, p: int, c: char)
    requires
        spelled(text, p, seq!['\''] + written_char(c).push('\'')),
    ensures
        reads_as(text, p, TokenType::Char(c), (written_char(c).len() + 2) as int),
{
    reveal(token_at);
    reveal_with_fuel(char_literal, 3);
    let w = written_char(c).push('\'');
    let all = seq!['\''] + w;
    let sub = text.subrange(p, p + all.len());
    assert forall|i: int| 0 <= i < w.len() implies w[i] == #[trigger] text[p + 1 + i] by {
        assert(sub[i + 1] == all[i + 1]);
    }
    assert(sub[0] == '\'');
    assert(w[0] == text[p + 1 + 0]);
    assert(w[1] == text[p + 1 + 1]);
    if written_char(c).len() == 2 {
        assert(w[2] == text[p + 1 + 2]);
        assert(escape_value(text[p + 2]) == Some(c));
    }
}

/// How often a character occurs in a text.
pub open spec fn occurrences(s: Seq<char>, c: char) -> nat
    decreases s.len(),
{
    if s.len() == 0 {
        0
    } else {
        occurrences(s.drop_last(), c) + if s.last() == c {
            1nat
        } else {
            0
        }
    }
}

/// A token's row is one more than the number of newlines in front of it.
pub proof fn rows_count_newlines(text: Seq<char>, p: int)
    requires
        0 <= p <= text.len(),
    ensures
        line_at(text, p) == 1 + occurrences(text.take(p), '\n'),
        mark(text, p).row_start == line_at(text, p) as usize,
    decreases p,
{
    if p > 0 {
        rows_count_newlines(text, p - 1);
        assert(text.take(p).drop_last() =~= text.take(p - 1));
    }
}

} // verus!
