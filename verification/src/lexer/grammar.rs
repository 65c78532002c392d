//! What the tokens of the language are: for each text and offset, the token
//! or the error that is read there, and the offset behind it.

use crate::diagnostic::DiagnosticCode;
use crate::lexer::error::LexerErrorModel;
use crate::lexer::span::Span;
use crate::lexer::token::{Lexeme, TokenModel, TokenType};
use crate::source::{at, col_at, comment_end, line_at, scan, scan_is_first};
use crate::text::{byte_len, digits_value, is_blank, is_digit, is_letter};
use vstd::prelude::*;

verus! {

/// What is read at an offset: the offset behind it, and the token or error.
pub struct Lexed {
    pub end: int,
    pub outcome: Result<TokenModel, LexerErrorModel>,
}

/// The open-ended span at offset `p`.
pub open spec fn mark(text: Seq<char>, p: int) -> Span {
    Span {
        row_start: line_at(text, p) as usize,
        row_end: None,
        col_start: col_at(text, p) as usize,
        col_end: None,
    }
}

/// The span that starts as `span` does and ends at offset `p`.
pub open spec fn until(text: Seq<char>, span: Span, p: int) -> Span {
    Span {
        row_start: span.row_start,
        row_end: Some(line_at(text, p) as usize),
        col_start: span.col_start,
        col_end: Some(col_at(text, p) as usize),
    }
}

pub open spec fn lexed(kind: Lexeme, span: Span, end: int) -> Lexed {
    Lexed { end, outcome: Ok(TokenModel { kind, span }) }
}

pub open spec fn plain(kind: TokenType, span: Span, end: int) -> Lexed {
    lexed(Lexeme::Plain(kind), span, end)
}

pub open spec fn refused(
    code: DiagnosticCode,
    message: Seq<char>,
    help: Option<Seq<char>>,
    span: Span,
    end: int,
) -> Lexed {
    Lexed { end, outcome: Err(LexerErrorModel { code, message, help, span }) }
}

/// A character that may stand in an identifier behind its first character.
pub open spec fn is_identifier_char_spec(c: char) -> bool {
    is_letter(c) || is_digit(c) || c == '_'
}

/// A character that belongs to a malformed number.
pub open spec fn is_number_rest(c: char) -> bool {
    is_identifier_char_spec(c) || c == '.'
}

pub open spec fn is_digit_or_separator(c: char) -> bool {
    is_digit(c) || c == '_'
}

pub open spec fn identifier_end(text: Seq<char>, p: int) -> int {
    scan(text, p, |c: char| is_identifier_char_spec(c))
}

pub open spec fn number_rest_end(text: Seq<char>, p: int) -> int {
    scan(text, p, |c: char| is_number_rest(c))
}

pub open spec fn digits_end(text: Seq<char>, p: int) -> int {
    scan(text, p, |c: char| is_digit_or_separator(c))
}

/// The digits among some characters.
pub open spec fn digits_among(s: Seq<char>) -> Seq<char> {
    s.filter(|c: char| is_digit(c))
}

/// The digits from `p` up to the end of the run of digits and separators.
pub open spec fn digit_run(text: Seq<char>, p: int) -> Seq<char> {
    digits_among(text.subrange(p, digits_end(text, p)))
}

/// The part of a text between its blank margins.
pub open spec fn trimmed(s: Seq<char>) -> Seq<char>
    decreases s.len(),
{
    if s.len() == 0 {
        s
    } else if is_blank(s[0]) {
        trimmed(s.drop_first())
    } else if is_blank(s.last()) {
        trimmed(s.drop_last())
    } else {
        s
    }
}

/// The keyword that a word is, or else the identifier.
pub open spec fn word(w: Seq<char>) -> Lexeme {
    if w == "auto"@ {
        Lexeme::Plain(TokenType::Auto)
    } else if w == "func"@ {
        Lexeme::Plain(TokenType::Func)
    } else if w == "return"@ {
        Lexeme::Plain(TokenType::Return)
    } else if w == "returns"@ {
        Lexeme::Plain(TokenType::Returns)
    } else if w == "if"@ {
        Lexeme::Plain(TokenType::If)
    } else if w == "else"@ {
        Lexeme::Plain(TokenType::Else)
    } else if w == "for"@ {
        Lexeme::Plain(TokenType::For)
    } else if w == "while"@ {
        Lexeme::Plain(TokenType::While)
    } else if w == "match"@ {
        Lexeme::Plain(TokenType::Match)
    } else if w == "const"@ {
        Lexeme::Plain(TokenType::Const)
    } else if w == "class"@ {
        Lexeme::Plain(TokenType::Class)
    } else if w == "interface"@ {
        Lexeme::Plain(TokenType::Interface)
    } else if w == "enum"@ {
        Lexeme::Plain(TokenType::Enum)
    } else if w == "import"@ {
        Lexeme::Plain(TokenType::Import)
    } else if w == "is"@ {
        Lexeme::Plain(TokenType::Is)
    } else if w == "as"@ {
        Lexeme::Plain(TokenType::As)
    } else if w == "in"@ {
        Lexeme::Plain(TokenType::In)
    } else if w == "break"@ {
        Lexeme::Plain(TokenType::Break)
    } else if w == "continue"@ {
        Lexeme::Plain(TokenType::Continue)
    } else if w == "none"@ {
        Lexeme::Plain(TokenType::NoneKeyword)
    } else if w == "true"@ {
        Lexeme::Plain(TokenType::Bool(true))
    } else if w == "false"@ {
        Lexeme::Plain(TokenType::Bool(false))
    } else if w == "common"@ {
        Lexeme::Plain(TokenType::Common)
    } else if w == "where"@ {
        Lexeme::Plain(TokenType::Where)
    } else {
        Lexeme::Id(w)
    }
}

/// An identifier or keyword that starts at `start`.
pub open spec fn identifier(text: Seq<char>, start: int, span: Span) -> Lexed {
    let end = identifier_end(text, start + 1);
    lexed(word(text.subrange(start, end)), until(text, span, end), end)
}

/// `kind` where `second` stands at `p`, and `otherwise` where it does not.
pub open spec fn with_second(
    text: Seq<char>,
    p: int,
    span: Span,
    second: char,
    kind: TokenType,
    otherwise: Lexed,
) -> Lexed {
    if at(text, p) == Some(second) {
        plain(kind, until(text, span, p + 1), p + 1)
    } else {
        otherwise
    }
}

pub open spec fn star(text: Seq<char>, p: int, span: Span) -> Lexed {
    with_second(
        text,
        p,
        span,
        '*',
        TokenType::StarStar,
        with_second(text, p, span, '=', TokenType::StarEq, plain(TokenType::Star, span, p)),
    )
}

pub open spec fn equals(text: Seq<char>, p: int, span: Span) -> Lexed {
    with_second(text, p, span, '=', TokenType::EqEq, plain(TokenType::Eq, span, p))
}

pub open spec fn bang(text: Seq<char>, p: int, span: Span) -> Lexed {
    with_second(text, p, span, '=', TokenType::NotEq, plain(TokenType::Bang, span, p))
}

pub open spec fn plus(text: Seq<char>, p: int, span: Span) -> Lexed {
    with_second(
        text,
        p,
        span,
        '+',
        TokenType::Incr,
        with_second(text, p, span, '=', TokenType::PlusEq, plain(TokenType::Plus, span, p)),
    )
}

/// A minus sign directly in front of a digit belongs to the number.
pub open spec fn minus(text: Seq<char>, p: int, span: Span) -> Lexed {
    with_second(
        text,
        p,
        span,
        '-',
        TokenType::Decr,
        with_second(
            text,
            p,
            span,
            '=',
            TokenType::MinusEq,
            if at(text, p) is Some && is_digit(at(text, p)->0) {
                number(text, '-', p, span)
            } else {
                plain(TokenType::Minus, span, p)
            },
        ),
    )
}

pub open spec fn less(text: Seq<char>, p: int, span: Span) -> Lexed {
    with_second(text, p, span, '=', TokenType::Le, plain(TokenType::Lt, span, p))
}

pub open spec fn greater(text: Seq<char>, p: int, span: Span) -> Lexed {
    with_second(text, p, span, '=', TokenType::Ge, plain(TokenType::Gt, span, p))
}

pub open spec fn bar(text: Seq<char>, p: int, span: Span) -> Lexed {
    with_second(
        text,
        p,
        span,
        '|',
        TokenType::Or,
        refused(
            DiagnosticCode::LexUnexpectedCharacter,
            "Unexpected character '|'"@,
            Some("Single '|' is not a valid operator. Use '||' for logical OR"@),
            span,
            p,
        ),
    )
}

pub open spec fn ampersand(text: Seq<char>, p: int, span: Span) -> Lexed {
    with_second(
        text,
        p,
        span,
        '&',
        TokenType::And,
        plain(TokenType::Ref, until(text, span, p), p),
    )
}

/// A slash whose first character ends at `p`: a comment or an operator.
pub open spec fn slash(text: Seq<char>, p: int, span: Span) -> Lexed {
    if at(text, p) == Some('/') {
        let end = scan(text, p + 1, |c: char| c != '\n');
        lexed(Lexeme::LineComment(trimmed(text.subrange(p + 1, end))), span, end)
    } else if at(text, p) == Some('*') {
        match comment_end(text, p + 1) {
            Some(e) => lexed(
                Lexeme::MultilineComment(trimmed(text.subrange(p + 1, e))),
                span,
                e + 2,
            ),
            None => refused(
                DiagnosticCode::LexUnterminatedComment,
                "Unterminated block comment"@,
                Some("Add a closing '*/' to end the block comment"@),
                span,
                text.len() as int,
            ),
        }
    } else if at(text, p) == Some('=') {
        plain(TokenType::SlashEq, span, p + 1)
    } else {
        plain(TokenType::Slash, span, p)
    }
}

/// The character that an escape stands for.
pub open spec fn escape_value(c: char) -> Option<char> {
    match c {
        'n' => Some('\n'),
        't' => Some('\t'),
        'r' => Some('\r'),
        '0' => Some('\0'),
        '\\' => Some('\\'),
        '\'' => Some('\''),
        '"' => Some('"'),
        _ => None,
    }
}

/// What a string literal holds behind its opening quotes.
pub enum Body {
    Closed { value: Seq<char>, end: int },
    BadEscape { escape: char, end: int },
    Open { value: Seq<char> },
}

impl Body {
    /// The body with more characters in front.
    pub open spec fn behind(self, front: Seq<char>) -> Body {
        match self {
            Body::Closed { value, end } => Body::Closed { value: front + value, end },
            Body::BadEscape { escape, end } => Body::BadEscape { escape, end },
            Body::Open { value } => Body::Open { value: front + value },
        }
    }
}

pub open spec fn closes_string(text: Seq<char>, p: int, triple: bool) -> bool {
    at(text, p) == Some('"') && (triple ==> at(text, p + 1) == Some('"') && at(text, p + 2) == Some(
        '"',
    ))
}

/// The body of a string literal from offset `p` on.
pub open spec fn string_body(text: Seq<char>, p: int, triple: bool) -> Body
    decreases text.len() - p,
{
    if p < 0 || p >= text.len() {
        Body::Open { value: seq![] }
    } else if text[p] == '\\' {
        escaped_body(text, p + 1, triple)
    } else if closes_string(text, p, triple) {
        Body::Closed { value: seq![], end: if triple { p + 3 } else { p + 1 } }
    } else {
        string_body(text, p + 1, triple).behind(seq![text[p]])
    }
}

/// The body of a string literal from the character behind a backslash on.
pub open spec fn escaped_body(text: Seq<char>, p: int, triple: bool) -> Body
    decreases text.len() - p,
{
    if p < 0 || p >= text.len() {
        Body::Open { value: seq![] }
    } else {
        match escape_value(text[p]) {
            Some(v) => string_body(text, p + 1, triple).behind(seq![v]),
            None => Body::BadEscape { escape: text[p], end: p + 1 },
        }
    }
}

/// The span of an escape that ends at offset `p`.
pub open spec fn escape_mark(text: Seq<char>, p: int) -> Span {
    Span {
        row_start: line_at(text, p) as usize,
        row_end: None,
        col_start: (col_at(text, p) - 1) as usize,
        col_end: None,
    }
}

/// The first line of a text.
pub open spec fn first_line(s: Seq<char>) -> Seq<char> {
    s.take(scan(s, 0, |c: char| c != '\n'))
}

/// A string literal whose first quote ends at `p`.
pub open spec fn string_literal(text: Seq<char>, p: int, span: Span) -> Lexed {
    let two = at(text, p) == Some('"') && at(text, p + 1) == Some('"');
    let body_start = if two { p + 2 } else { p };
    string_rest(text, body_start, span)
}

/// A string literal from offset `p` on, where two more quotes make it triple.
pub open spec fn string_rest(text: Seq<char>, p: int, span: Span) -> Lexed {
    let triple = at(text, p) == Some('"') && at(text, p + 1) == Some('"');
    match string_body(text, if triple { p + 2 } else { p }, triple) {
        Body::Closed { value, end } => lexed(Lexeme::Str(value), until(text, span, end), end),
        Body::BadEscape { escape, end } => refused(
            DiagnosticCode::LexUnknownEscape,
            "Unknown escape sequence: \\"@ + seq![escape],
            Some("Valid escape sequences: \\n, \\t, \\r, \\0, \\\\, \\', \\\""@),
            escape_mark(text, end),
            end,
        ),
        Body::Open { value } => unterminated(text, value, span),
    }
}

/// The error of a string that runs to the end of the text.
pub open spec fn unterminated(text: Seq<char>, value: Seq<char>, span: Span) -> Lexed {
    refused(
        DiagnosticCode::LexUnterminatedString,
        "Unterminated string"@,
        Some("Make sure to close the string with a matching quote"@),
        Span {
            row_start: span.row_start,
            row_end: Some(line_at(text, text.len() as int) as usize),
            col_start: span.col_start,
            col_end: Some((span.col_start + byte_len(first_line(value))) as usize),
        },
        text.len() as int,
    )
}

pub open spec fn char_length_error(text: Seq<char>, p: int, span: Span, end: int) -> Lexed {
    refused(
        DiagnosticCode::LexInvalidCharacterLiteral,
        "Char literal must be exactly one character"@,
        Some("Example: 'a', '\\n', '\\''"@),
        Span {
            row_start: span.row_start,
            row_end: None,
            col_start: col_at(text, p) as usize,
            col_end: None,
        },
        end,
    )
}

/// A character literal whose opening quote ends at `start`, read up to `p`
/// with `held` as its character so far.
pub open spec fn char_literal(
    text: Seq<char>,
    start: int,
    p: int,
    held: Option<char>,
    span: Span,
) -> Lexed
    decreases text.len() - p,
{
    if p < 0 || p >= text.len() || (text[p] == '\\' && p + 1 >= text.len()) {
        refused(
            DiagnosticCode::LexInvalidCharacterLiteral,
            "Unterminated character literal"@,
            Some("Make sure to close the character with a matching quote"@),
            span,
            text.len() as int,
        )
    } else if text[p] == '\'' {
        match held {
            Some(c) => plain(TokenType::Char(c), until(text, span, p + 1), p + 1),
            None => char_length_error(text, start, span, p + 1),
        }
    } else {
        let next = if text[p] == '\\' { p + 2 } else { p + 1 };
        let value = if text[p] == '\\' { escape_value(text[p + 1]) } else { Some(text[p]) };
        match value {
            None => refused(
                DiagnosticCode::LexUnknownEscape,
                "Unknown escape sequence: \\"@ + seq![text[p + 1]],
                Some("Valid escape sequences: \\n, \\t, \\r, \\0, \\\\, \\'"@),
                escape_mark(text, next),
                next,
            ),
            Some(c) => if held is Some {
                char_length_error(text, start, span, next)
            } else {
                char_literal(text, start, next, Some(c), span)
            },
        }
    }
}

/// The integer that a sign and digits denote, where it fits 64 bits.
pub open spec fn int_value(num: Seq<char>) -> Option<i64> {
    let v: int = if num.len() > 0 && num[0] == '-' {
        -(digits_value(num.skip(1)) as int)
    } else {
        digits_value(num) as int
    };
    if i64::MIN <= v <= i64::MAX {
        Some(v as i64)
    } else {
        None
    }
}

pub open spec fn number_error(
    message: Seq<char>,
    help: Option<Seq<char>>,
    span: Span,
    end: int,
) -> Lexed {
    refused(DiagnosticCode::LexInvalidNumber, message, help, span, end)
}

/// Letters or an underscore directly behind a number.
pub open spec fn word_follows(text: Seq<char>, p: int) -> bool {
    at(text, p) is Some && (is_letter(at(text, p)->0) || at(text, p) == Some('_'))
}

/// A second decimal point with a digit behind it.
pub open spec fn fraction_follows(text: Seq<char>, p: int) -> bool {
    at(text, p) == Some('.') && at(text, p + 1) is Some && is_digit(at(text, p + 1)->0)
}

/// A malformed number: what belongs to it is read and reported.
pub open spec fn malformed(
    text: Seq<char>,
    prefix: Seq<char>,
    num: Seq<char>,
    p: int,
    span: Span,
    help: Seq<char>,
) -> Lexed {
    let end = number_rest_end(text, p);
    number_error(prefix + (num + text.subrange(p, end)), Some(help), until(text, span, end), end)
}

/// A float whose notation `num` ends at `p`.
pub open spec fn float_token(text: Seq<char>, num: Seq<char>, p: int, span: Span) -> Lexed {
    if fraction_follows(text, p) {
        malformed(
            text,
            "Invalid float literal: "@,
            num,
            p,
            span,
            "A number can only have one decimal point. Use separate expressions for chained field access."@,
        )
    } else if word_follows(text, p) {
        malformed(
            text,
            "Invalid float literal: "@,
            num,
            p,
            span,
            "Float literals cannot contain letters. Use a space or separate expression."@,
        )
    } else {
        lexed(Lexeme::Float(num), span, p)
    }
}

/// An integer whose notation `num` ends at `p`.
pub open spec fn int_token(text: Seq<char>, num: Seq<char>, p: int, span: Span) -> Lexed {
    if word_follows(text, p) {
        malformed(
            text,
            "Invalid integer literal: "@,
            num,
            p,
            span,
            "Integer literals cannot contain letters. Variable names must not start with a digit."@,
        )
    } else {
        match int_value(num) {
            Some(v) => plain(TokenType::Int(v), span, p),
            None => number_error(
                "Invalid integer literal: "@ + num,
                Some(
                    "The integer value is out of range. Valid integers are between -9223372036854775808 and 9223372036854775807."@,
                ),
                span,
                p,
            ),
        }
    }
}

/// The rest of a number behind its integer part and fraction.
pub open spec fn exponent(
    text: Seq<char>,
    num: Seq<char>,
    is_float: bool,
    p: int,
    span: Span,
) -> Lexed {
    if at(text, p) == Some('e') || at(text, p) == Some('E') {
        let signed = at(text, p + 1) == Some('+') || at(text, p + 1) == Some('-');
        let q = if signed { p + 2 } else { p + 1 };
        let end = digits_end(text, q);
        if digit_run(text, q).len() == 0 {
            number_error(
                "Missing exponent in scientific notation"@,
                Some("The 'e' notation requires digits after it, e.g. 1e10, 2.5e-3"@),
                mark(text, end),
                end,
            )
        } else {
            float_token(
                text,
                num + text.subrange(p, q) + digit_run(text, q),
                end,
                until(text, span, end),
            )
        }
    } else if is_float {
        float_token(text, num, p, until(text, span, p))
    } else {
        int_token(text, num, p, until(text, span, p))
    }
}

/// A number with the first character `first`, which ends at `p`.
pub open spec fn number(text: Seq<char>, first: char, p: int, span: Span) -> Lexed {
    let end = digits_end(text, p);
    if first == '.' {
        if digit_run(text, p).len() == 0 {
            number_error(
                "Expected digit after decimal point"@,
                Some("A decimal point must be followed by at least one digit, e.g. 1.0"@),
                mark(text, end),
                end,
            )
        } else {
            exponent(text, seq!['0', '.'] + digit_run(text, p), true, end, span)
        }
    } else {
        let whole = seq![first] + digit_run(text, p);
        if at(text, end) != Some('.') || word_follows(text, end + 1) {
            exponent(text, whole, false, end, span)
        } else if fraction_follows(text, end) {
            exponent(
                text,
                whole.push('.') + digit_run(text, end + 1),
                true,
                digits_end(text, end + 1),
                span,
            )
        } else if at(text, end + 1) == Some('.') {
            refused(
                DiagnosticCode::LexRangeLiteral,
                "Mux does not have range literal syntax"@,
                Some(
                    "Use range(a, b) to iterate over a numeric range, e.g. for int i in range(0, 10)"@,
                ),
                mark(text, end),
                end,
            )
        } else {
            number_error("Expected digit after decimal point"@, None, mark(text, end), end)
        }
    }
}

/// A token that starts with a character with a role of its own, which ends
/// at `p`.
pub open spec fn multichar(text: Seq<char>, first: char, p: int, start: Span) -> Lexed {
    let span = until(text, start, p);
    if first == '*' {
        star(text, p, span)
    } else if first == '=' {
        equals(text, p, span)
    } else if first == '!' {
        bang(text, p, span)
    } else if first == '+' {
        plus(text, p, span)
    } else if first == '-' {
        minus(text, p, span)
    } else if first == '<' {
        less(text, p, span)
    } else if first == '>' {
        greater(text, p, span)
    } else if first == '|' {
        bar(text, p, span)
    } else if first == '&' {
        ampersand(text, p, span)
    } else if is_digit(first) {
        number(text, first, p, span)
    } else if first == '\'' {
        char_literal(text, p, p, None, span)
    } else if first == '"' {
        string_literal(text, p, span)
    } else if is_letter(first) {
        identifier(text, p - 1, span)
    } else {
        refused(
            DiagnosticCode::LexUnexpectedCharacter,
            "Unexpected character: '"@ + seq![first] + "'"@,
            Some(
                "This character is not recognized as valid Mux syntax. Check for accidental special characters or encoding issues."@,
            ),
            span,
            p,
        )
    }
}

/// The token or error that is read at offset `p`, which no blank precedes.
#[verifier::opaque]
pub open spec fn token_at(text: Seq<char>, p: int) -> Lexed {
    let span = mark(text, p);
    if p >= text.len() {
        plain(TokenType::Eof, span, p)
    } else {
        let c = text[p];
        if c == '\n' {
            plain(TokenType::NewLine, span, p + 1)
        } else if c == '/' {
            slash(text, p + 1, span)
        } else if c == '(' {
            plain(TokenType::OpenParen, span, p + 1)
        } else if c == ')' {
            plain(TokenType::CloseParen, span, p + 1)
        } else if c == '{' {
            plain(TokenType::OpenBrace, span, p + 1)
        } else if c == '}' {
            plain(TokenType::CloseBrace, span, p + 1)
        } else if c == '[' {
            plain(TokenType::OpenBracket, span, p + 1)
        } else if c == ']' {
            plain(TokenType::CloseBracket, span, p + 1)
        } else if c == ',' {
            plain(TokenType::Comma, span, p + 1)
        } else if c == ':' {
            plain(TokenType::Colon, span, p + 1)
        } else if c == '%' {
            if at(text, p + 1) == Some('=') {
                plain(TokenType::PercentEq, span, p + 2)
            } else {
                plain(TokenType::Percent, span, p + 1)
            }
        } else if c == '_' {
            if at(text, p + 1) is Some && is_identifier_char_spec(at(text, p + 1)->0) {
                identifier(text, p, span)
            } else {
                plain(TokenType::Underscore, span, p + 1)
            }
        } else if c == '.' {
            if at(text, p + 1) is Some && is_digit(at(text, p + 1)->0) {
                number(text, '.', p + 1, span)
            } else if at(text, p + 1) == Some('.') {
                plain(TokenType::DotDot, span, p + 2)
            } else {
                plain(TokenType::Dot, span, p + 1)
            }
        } else {
            multichar(text, c, p + 1, span)
        }
    }
}

/// How many brackets are open, and for each open brace how many were open
/// around it.
pub struct Nesting {
    pub brackets: int,
    pub braces: Seq<int>,
}

impl Nesting {
    /// The nesting behind a token.
    pub open spec fn after(self, kind: Lexeme) -> Nesting {
        match kind {
            Lexeme::Plain(TokenType::OpenParen) | Lexeme::Plain(TokenType::OpenBracket) => Nesting {
                brackets: self.brackets + 1,
                braces: self.braces,
            },
            Lexeme::Plain(TokenType::CloseParen)
            | Lexeme::Plain(TokenType::CloseBracket) => Nesting {
                brackets: if self.brackets > 0 {
                    self.brackets - 1
                } else {
                    0
                },
                braces: self.braces,
            },
            Lexeme::Plain(TokenType::OpenBrace) => Nesting {
                brackets: 0,
                braces: self.braces.push(self.brackets),
            },
            Lexeme::Plain(TokenType::CloseBrace) => if self.braces.len() > 0 {
                Nesting { brackets: self.braces.last(), braces: self.braces.drop_last() }
            } else {
                Nesting { brackets: 0, braces: self.braces }
            },
            _ => self,
        }
    }
}

/// A character that separates tokens. Inside brackets a newline does so too.
pub open spec fn separates(c: char, in_brackets: bool) -> bool {
    c == ' ' || c == '\t' || c == '\r' || (in_brackets && c == '\n')
}

/// The offset at which the next token starts.
pub open spec fn token_start(text: Seq<char>, p: int, in_brackets: bool) -> int {
    scan(text, p, |c: char| separates(c, in_brackets))
}

/// The next token from offset `p` on.
pub open spec fn next(text: Seq<char>, p: int, nesting: Nesting) -> Lexed {
    token_at(text, token_start(text, p, nesting.brackets > 0))
}

/// The nesting behind what was read; an error leaves it as it is.
pub open spec fn nesting_after(nesting: Nesting, read: Lexed) -> Nesting {
    match read.outcome {
        Ok(token) => nesting.after(token.kind),
        Err(_) => nesting,
    }
}

pub open spec fn is_eof(token: TokenModel) -> bool {
    token.kind == Lexeme::Plain(TokenType::Eof)
}

/// All tokens from offset `p` on, or the first error.
pub open spec fn all_tokens(text: Seq<char>, p: int, nesting: Nesting) -> Result<
    Seq<TokenModel>,
    LexerErrorModel,
>
    decreases text.len() - p,
    when 0 <= p <= text.len()
    via all_tokens_terminates
{
    let read = next(text, p, nesting);
    match read.outcome {
        Err(e) => Err(e),
        Ok(token) => if is_eof(token) {
            Ok(seq![])
        } else {
            match all_tokens(text, read.end, nesting_after(nesting, read)) {
                Err(e) => Err(e),
                Ok(rest) => Ok(seq![token] + rest),
            }
        },
    }
}

#[via_fn]
proof fn all_tokens_terminates(text: Seq<char>, p: int, nesting: Nesting) {
    next_advances(text, p, nesting);
}

pub proof fn string_body_ends_inside(text: Seq<char>, p: int, triple: bool)
    requires
        0 <= p <= text.len(),
    ensures
        match string_body(text, p, triple) {
            Body::Closed { end, .. } => p < end <= text.len(),
            Body::BadEscape { end, .. } => p < end <= text.len(),
            Body::Open { .. } => true,
        },
        match escaped_body(text, p, triple) {
            Body::Closed { end, .. } => p < end <= text.len(),
            Body::BadEscape { end, .. } => p < end <= text.len(),
            Body::Open { .. } => true,
        },
    decreases text.len() - p,
{
    if p < text.len() {
        string_body_ends_inside(text, p + 1, triple);
    }
}

pub proof fn char_literal_ends_inside(
    text: Seq<char>,
    start: int,
    p: int,
    held: Option<char>,
    span: Span,
)
    requires
        0 <= p <= text.len(),
    ensures
        p <= char_literal(text, start, p, held, span).end <= text.len(),
        char_literal(text, start, p, held, span).outcome matches Ok(t) ==> t.kind matches Lexeme::Plain(
            TokenType::Char(_),
        ),
    decreases text.len() - p,
{
    if p < text.len() && !(text[p] == '\\' && p + 1 >= text.len()) && text[p] != '\'' {
        let next = if text[p] == '\\' { p + 2 } else { p + 1 };
        let value = if text[p] == '\\' { escape_value(text[p + 1]) } else { Some(text[p]) };
        char_literal_ends_inside(text, start, next, value, span);
    }
}

pub proof fn comment_end_inside(text: Seq<char>, p: int)
    requires
        0 <= p,
    ensures
        comment_end(text, p) matches Some(e) ==> p <= e && e + 2 <= text.len(),
    decreases text.len() - p,
{
    if p + 1 < text.len() {
        comment_end_inside(text, p + 1);
    }
}

pub proof fn number_ends_inside(text: Seq<char>, first: char, p: int, span: Span)
    requires
        0 <= p <= text.len(),
    ensures
        p <= number(text, first, p, span).end <= text.len(),
{
    let d = |c: char| is_digit_or_separator(c);
    scan_is_first(text, p, d);
    let end = digits_end(text, p);
    exponent_ends_inside(text, p, end);
    if fraction_follows(text, end) {
        scan_is_first(text, end + 1, d);
        exponent_ends_inside(text, p, digits_end(text, end + 1));
    }
}

proof fn exponent_ends_inside(text: Seq<char>, from: int, p: int)
    requires
        0 <= from <= p <= text.len(),
    ensures
        forall|num: Seq<char>, is_float: bool, span: Span|
            from <= (#[trigger] exponent(text, num, is_float, p, span)).end <= text.len(),
{
    let d = |c: char| is_digit_or_separator(c);
    let r = |c: char| is_number_rest(c);
    scan_is_first(text, p, r);
    if at(text, p) == Some('e') || at(text, p) == Some('E') {
        let signed = at(text, p + 1) == Some('+') || at(text, p + 1) == Some('-');
        let q = if signed { p + 2 } else { p + 1 };
        scan_is_first(text, q, d);
        scan_is_first(text, digits_end(text, q), r);
    }
}

/// What is read ends inside the text; and it ends behind its start, unless
/// the end of the text is reached.
pub proof fn token_at_advances(text: Seq<char>, p: int)
    requires
        0 <= p <= text.len(),
    ensures
        p <= token_at(text, p).end <= text.len(),
        p < text.len() ==> p < token_at(text, p).end,
        token_at(text, p).outcome matches Ok(t) ==> (is_eof(t) <==> p == text.len()),
{
    reveal(token_at);
    if p < text.len() {
        let c = text[p];
        let q = p + 1;
        let id = |c: char| is_identifier_char_spec(c);
        scan_is_first(text, q, id);
        if c == '/' {
            if at(text, q) == Some('/') {
                scan_is_first(text, q + 1, |c: char| c != '\n');
            }
            comment_end_inside(text, q + 1);
        }
        let span = until(text, mark(text, p), q);
        char_literal_ends_inside(text, q, q, None, span);
        number_ends_inside(text, c, q, span);
        number_ends_inside(text, c, q, mark(text, p));
        let two = at(text, q) == Some('"') && at(text, q + 1) == Some('"');
        let s = if two { q + 2 } else { q };
        let triple = at(text, s) == Some('"') && at(text, s + 1) == Some('"');
        string_body_ends_inside(text, if triple { s + 2 } else { s }, triple);
    }
}

/// Only the six bracket and brace tokens change the nesting.
pub proof fn token_at_keeps_nesting(text: Seq<char>, p: int, nesting: Nesting)
    requires
        0 <= p < text.len(),
        text[p] != '(' && text[p] != ')' && text[p] != '[' && text[p] != ']' && text[p] != '{'
            && text[p] != '}',
    ensures
        nesting_after(nesting, token_at(text, p)) == nesting,
{
    reveal(token_at);
    char_literal_ends_inside(text, p + 1, p + 1, None, until(text, mark(text, p), p + 1));
}

/// Reading on never moves backwards, and it moves on until the end of the
/// text is reached, which is where the end-of-file token comes and nowhere
/// else.
pub proof fn next_advances(text: Seq<char>, p: int, nesting: Nesting)
    requires
        0 <= p <= text.len(),
    ensures
        p <= next(text, p, nesting).end <= text.len(),
        next(text, p, nesting).outcome matches Ok(t) ==> (is_eof(t) <==> next(
            text,
            p,
            nesting,
        ).end == token_start(text, p, nesting.brackets > 0)),
        next(text, p, nesting).outcome matches Ok(t) ==> (is_eof(t) || p < next(
            text,
            p,
            nesting,
        ).end),
{
    let b = nesting.brackets > 0;
    scan_is_first(text, p, |c: char| separates(c, b));
    token_at_advances(text, token_start(text, p, b));
}

/// Inside brackets a newline separates tokens; it is never one.
pub proof fn no_newline_token_inside_brackets(text: Seq<char>, p: int, nesting: Nesting)
    requires
        0 <= p <= text.len(),
        nesting.brackets > 0,
    ensures
        next(text, p, nesting).outcome matches Ok(t) ==> t.kind != Lexeme::Plain(
            TokenType::NewLine,
        ),
{
    reveal(token_at);
    scan_is_first(text, p, |c: char| separates(c, true));
    let start = token_start(text, p, true);
    if start < text.len() {
        char_literal_ends_inside(
            text,
            start + 1,
            start + 1,
            None,
            until(text, mark(text, start), start + 1),
        );
    }
}

/// A block that a brace opens does not change the nesting around it.
pub proof fn braces_restore_nesting(nesting: Nesting)
    ensures
        nesting.after(Lexeme::Plain(TokenType::OpenBrace)).brackets == 0,
        nesting.after(Lexeme::Plain(TokenType::OpenBrace)).after(
            Lexeme::Plain(TokenType::CloseBrace),
        ) == nesting,
{
    assert(nesting.braces.push(nesting.brackets).drop_last() =~= nesting.braces);
}

/// A token that carries an identifier carries the characters that stand in
/// the text, and these are no keyword.
pub proof fn identifier_is_the_source_text(text: Seq<char>, p: int)
    requires
        0 <= p <= text.len(),
    ensures
        token_at(text, p).outcome matches Ok(t) ==> (t.kind matches Lexeme::Id(w) ==> w
            == text.subrange(p, token_at(text, p).end) && word(w) == Lexeme::Id(w)),
{
    reveal(token_at);
    if p < text.len() {
        char_literal_ends_inside(text, p + 1, p + 1, None, until(text, mark(text, p), p + 1));
    }
}

} // verus!
