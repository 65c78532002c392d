//! The lexer, which reads tokens off a source.

use crate::diagnostic::DiagnosticCode;
use crate::lexer::error::{LexerError, LexerErrorModel};
use crate::lexer::grammar::{
    all_tokens, ampersand, bang, bar, equals, escape_value, greater, identifier, identifier_end,
    int_value, is_identifier_char_spec, less, lexed, mark, minus, multichar, nesting_after, next,
    next_advances, plus, separates, slash, star, token_at, token_at_advances,
    token_at_keeps_nesting, token_start, trimmed, until, word, word_follows, Lexed, Nesting,
};
use crate::lexer::span::Span;
use crate::lexer::token::{Token, TokenModel, TokenType};
use crate::source::{at, scan, scan_is_first, Source};
use crate::text::{
    all_digits, chars_of, digits_value, is_blank, is_digit, is_letter, same, string_of,
};
use vstd::prelude::*;

verus! {

/// The outcome of a read as a mathematical value.
pub open spec fn outcome(r: Result<Token, LexerError>) -> Result<TokenModel, LexerErrorModel> {
    match r {
        Ok(t) => Ok(t@),
        Err(e) => Err(e@),
    }
}

/// Reading took `before` to `after` and gave `r`, which is what `l` says.
pub open spec fn reads(
    before: Source,
    after: Source,
    r: Result<Token, LexerError>,
    l: Lexed,
) -> bool {
    &&& after.moved(before, l.end)
    &&& outcome(r) == l.outcome
}

/// A character that may appear in an identifier after its first character.
///
/// The full identifier grammar is `[a-zA-Z][a-zA-Z0-9_]* | _[a-zA-Z0-9_]+`:
/// a leading `_` needs at least one of these after it, otherwise the `_` is
/// the wildcard token.
fn is_identifier_char(ch: char) -> (r: bool)
    ensures
        r == is_identifier_char_spec(ch),
{
    is_letter(ch) || is_digit(ch) || ch == '_'
}

/// The text between the blank margins of `s`.
pub fn trim(s: &str) -> (r: String)
    ensures
        r@ == trimmed(s@),
{
    let chars = chars_of(s);
    let mut from: usize = 0;
    let mut to: usize = chars.len();
    proof {
        assert(chars@.subrange(0, chars@.len() as int) =~= s@);
    }
    while from < to && is_blank(chars[from])
        invariant
            from <= to == chars@.len(),
            trimmed(s@) == trimmed(chars@.subrange(from as int, to as int)),
        decreases to - from,
    {
        assert(chars@.subrange(from as int, to as int).drop_first() =~= chars@.subrange(
            from + 1,
            to as int,
        ));
        from += 1;
    }
    while from < to && is_blank(chars[to - 1])
        invariant
            from <= to <= chars@.len(),
            from < to ==> !is_blank(chars@[from as int]),
            trimmed(s@) == trimmed(chars@.subrange(from as int, to as int)),
        decreases to - from,
    {
        assert(chars@.subrange(from as int, to as int).drop_last() =~= chars@.subrange(
            from as int,
            to - 1,
        ));
        to -= 1;
    }
    string_of(&chars, from, to)
}

/// The 64-bit integer that `num`, an optional minus sign and digits, denotes.
pub fn parse_int(num: &str) -> (r: Option<i64>)
    requires
        num@.len() > 0,
        all_digits(if num@[0] == '-' { num@.skip(1) } else { num@ }),
    ensures
        r == int_value(num@),
{
    let chars = chars_of(num);
    let negative = chars[0] == '-';
    let start: usize = if negative { 1 } else { 0 };
    let ghost digits = num@.skip(start as int);
    proof {
        assert(num@.skip(0) =~= num@);
        assert(digits.take(0) =~= seq![]);
    }
    let limit: u64 = 9223372036854775808;
    let mut value: u64 = 0;
    let mut i: usize = start;
    while i < chars.len()
        invariant
            start <= i <= chars@.len(),
            chars@ == num@,
            digits == num@.skip(start as int),
            all_digits(digits),
            limit == 9223372036854775808,
            negative == (num@[0] == '-'),
            start == (if negative { 1int } else { 0int }),
            value == digits_value(digits.take(i - start)),
            value <= limit,
        decreases chars@.len() - i,
    {
        let c = chars[i];
        proof {
            assert(digits[i - start] == c);
            assert(digits.take(i - start + 1).drop_last() =~= digits.take(i - start));
        }
        let d: u64 = (c as u8 - 48) as u64;
        assert(digits_value(digits.take(i - start + 1)) == value * 10 + d);
        if value > 922337203685477580 || value * 10 + d > limit {
            proof {
                assert(digits.take(digits.len() as int) =~= digits);
                value_grows(digits, i - start + 1, digits.len() as int);
                assert(negative ==> num@.skip(1) == digits);
                assert(!negative ==> num@ =~= digits);
            }
            return None;
        }
        value = value * 10 + d;
        i += 1;
    }
    proof {
        assert(digits.take(digits.len() as int) =~= digits);
        assert(negative ==> num@.skip(1) == digits);
        assert(!negative ==> num@ =~= digits);
    }
    if negative {
        if value == limit {
            Some(i64::MIN)
        } else {
            Some(-(value as i64))
        }
    } else if value < limit {
        Some(value as i64)
    } else {
        None
    }
}

proof fn value_grows(digits: Seq<char>, a: int, b: int)
    requires
        0 <= a <= b <= digits.len(),
        all_digits(digits),
    ensures
        digits_value(digits.take(a)) <= digits_value(digits.take(b)),
    decreases b - a,
{
    if a < b {
        value_grows(digits, a, b - 1);
        assert(digits.take(b).drop_last() =~= digits.take(b - 1));
        assert(is_digit(digits[b - 1]));
    }
}

/// The lexer for the Mux language.
pub struct Lexer<'a> {
    pub source: &'a mut Source,
    /// How many `(` or `[` are currently open.
    ///
    /// A newline inside one continues the expression instead of ending the
    /// statement, so a long call or list literal can be wrapped across lines.
    ///
    /// `{` is deliberately not counted: braces open both blocks and map or set
    /// literals, and the lexer cannot tell which.
    pub bracket_depth: usize,
    /// `bracket_depth` as it was when each currently-open `{` was reached.
    ///
    /// A brace resets the depth, because a block can appear inside an open
    /// bracket (a lambda as a call argument), and its statements are separated
    /// by newlines all the same.
    pub brace_depths: Vec<usize>,
}

impl<'a> Lexer<'a> {
    /// The nesting at the current offset.
    pub open spec fn nesting(self) -> Nesting {
        Nesting {
            brackets: self.bracket_depth as int,
            braces: self.brace_depths@.map_values(|d: usize| d as int),
        }
    }

    pub open spec fn wf(self) -> bool {
        &&& self.source.wf()
        &&& self.bracket_depth <= self.source.pos
        &&& forall|i: int|
            0 <= i < self.brace_depths@.len() ==> (#[trigger] self.brace_depths@[i])
                <= self.source.pos
    }

    pub fn new(source: &'a mut Source) -> (r: Self)
        requires
            old(source).wf(),
        ensures
            r.wf(),
            *r.source == *old(source),
            *final(r.source) == *final(source),
            r.nesting() == (Nesting { brackets: 0, braces: seq![] }),
    {
        let r = Lexer { source, bracket_depth: 0, brace_depths: Vec::new() };
        assert(r.nesting().braces =~= seq![]);
        r
    }

    /// Reads all tokens up to the end of the text, or up to the first error.
    pub fn lex_all(&mut self) -> (r: Result<Vec<Token>, LexerError>)
        requires
            old(self).wf(),
        ensures
            final(self).wf(),
            final(self).source.text() == old(self).source.text(),
            *final(final(self).source) == *final(old(self).source),
            match r {
                Ok(tokens) => all_tokens(
                    old(self).source.text(),
                    old(self).source.pos as int,
                    old(self).nesting(),
                ) == Ok::<Seq<TokenModel>, LexerErrorModel>(
                    tokens@.map_values(|t: Token| t@),
                ) && final(self).source.pos == old(self).source.text().len(),
                Err(e) => all_tokens(
                    old(self).source.text(),
                    old(self).source.pos as int,
                    old(self).nesting(),
                ) == Err::<Seq<TokenModel>, LexerErrorModel>(e@),
            },
    {
        let mut tokens: Vec<Token> = Vec::new();
        let ghost text = self.source.text();
        let ghost all = all_tokens(text, self.source.pos as int, self.nesting());
        let mut done = false;
        assert(tokens@.map_values(|t: Token| t@) =~= seq![]);
        proof {
            match all {
                Ok(rest) => assert(seq![] + rest =~= rest),
                Err(_) => {},
            }
        }
        while !done
            invariant
                self.wf(),
                self.source.text() == text,
                text == old(self).source.text(),
                all == all_tokens(text, old(self).source.pos as int, old(self).nesting()),
                *final(self.source) == *final(old(self).source),
                done ==> self.source.pos == text.len(),
                done ==> all == Ok::<Seq<TokenModel>, LexerErrorModel>(
                    tokens@.map_values(|t: Token| t@),
                ),
                !done ==> match all_tokens(text, self.source.pos as int, self.nesting()) {
                    Ok(rest) => all == Ok::<Seq<TokenModel>, LexerErrorModel>(
                        tokens@.map_values(|t: Token| t@) + rest,
                    ),
                    Err(e) => all == Err::<Seq<TokenModel>, LexerErrorModel>(e),
                },
            decreases text.len() - self.source.pos + (if done { 0int } else { 1int }),
        {
            let ghost p = self.source.pos as int;
            let ghost nesting = self.nesting();
            let ghost before = tokens@.map_values(|t: Token| t@);
            proof {
                next_advances(text, p, nesting);
                let b = nesting.brackets > 0;
                scan_is_first(text, p, |c: char| separates(c, b));
            }
            match self.next_token() {
                Err(e) => {
                    return Err(e);
                },
                Ok(tok) => {
                    if matches!(tok.token_type, TokenType::Eof) {
                        done = true;
                        proof {
                            assert(before + seq![] =~= before);
                            token_at_advances(
                                text,
                                token_start(text, p, nesting.brackets > 0),
                            );
                        }
                    } else {
                        let ghost model = tok@;
                        tokens.push(tok);
                        proof {
                            assert(tokens@.map_values(|t: Token| t@) =~= before.push(model));
                            match all_tokens(text, self.source.pos as int, self.nesting()) {
                                Ok(rest) => {
                                    assert(before + (seq![model] + rest) =~= before.push(model)
                                        + rest);
                                },
                                Err(_) => {},
                            }
                        }
                    }
                },
            }
        }
        Ok(tokens)
    }

    /// Reads the next token.
    pub fn next_token(&mut self) -> (r: Result<Token, LexerError>)
        requires
            old(self).wf(),
        ensures
            final(self).wf(),
            *final(final(self).source) == *final(old(self).source),
            reads(
                *old(self).source,
                *final(self).source,
                r,
                next(old(self).source.text(), old(self).source.pos as int, old(self).nesting()),
            ),
            final(self).nesting() == nesting_after(
                old(self).nesting(),
                next(old(self).source.text(), old(self).source.pos as int, old(self).nesting()),
            ),
    {
        let in_brackets = self.bracket_depth > 0;
        Self::skip_space(self.source, in_brackets);
        let ghost text = self.source.text();
        let ghost p = self.source.pos as int;
        proof {
            reveal(token_at);
            scan_is_first(text, old(self).source.pos as int, |c: char| separates(c, in_brackets));
            token_at_advances(text, p);
            if p < text.len() && text[p] != '(' && text[p] != ')' && text[p] != '[' && text[p]
                != ']' && text[p] != '{' && text[p] != '}' {
                token_at_keeps_nesting(text, p, self.nesting());
            }
        }
        let start_span = Span::new(self.source.line, self.source.col);
        let c = match self.source.next_char() {
            None => {
                return Ok(Token::new(TokenType::Eof, start_span));
            },
            Some(c) => c,
        };
        if c == '\n' {
            return Ok(Token::new(TokenType::NewLine, start_span));
        }
        if c == '/' {
            return Self::read_slash(self.source, start_span);
        }
        if c == '(' {
            self.bracket_depth += 1;
            Ok(Token::new(TokenType::OpenParen, start_span))
        } else if c == ')' {
            // An unbalanced ')' is the parser's error to report.
            self.bracket_depth = self.bracket_depth.saturating_sub(1);
            Ok(Token::new(TokenType::CloseParen, start_span))
        } else if c == '{' {
            // A fresh continuation context: statements inside a block are
            // newline-separated even when the block sits inside a bracket.
            self.brace_depths.push(self.bracket_depth);
            self.bracket_depth = 0;
            assert(self.nesting().braces =~= old(self).nesting().braces.push(
                old(self).bracket_depth as int,
            ));
            Ok(Token::new(TokenType::OpenBrace, start_span))
        } else if c == '}' {
            // Back to whatever was open around the brace.
            self.bracket_depth = match self.brace_depths.pop() {
                Some(depth) => depth,
                None => 0,
            };
            proof {
                if old(self).brace_depths@.len() > 0 {
                    assert(self.nesting().braces =~= old(self).nesting().braces.drop_last());
                } else {
                    assert(self.nesting().braces =~= old(self).nesting().braces);
                }
            }
            Ok(Token::new(TokenType::CloseBrace, start_span))
        } else if c == '[' {
            self.bracket_depth += 1;
            Ok(Token::new(TokenType::OpenBracket, start_span))
        } else if c == ']' {
            self.bracket_depth = self.bracket_depth.saturating_sub(1);
            Ok(Token::new(TokenType::CloseBracket, start_span))
        } else if c == ',' {
            Ok(Token::new(TokenType::Comma, start_span))
        } else if c == ':' {
            Ok(Token::new(TokenType::Colon, start_span))
        } else if c == '%' {
            if self.source.peek() == Some('=') {
                self.source.next_char();
                Ok(Token::new(TokenType::PercentEq, start_span))
            } else {
                Ok(Token::new(TokenType::Percent, start_span))
            }
        } else if c == '_' {
            // A bare '_' is the match wildcard and the unused-parameter
            // marker. Followed by an identifier character it starts an
            // ordinary identifier.
            let starts_word = match self.source.peek() {
                Some(ch) => is_identifier_char(ch),
                None => false,
            };
            if starts_word {
                Ok(Self::read_identifier_or_keyword(self.source, c, start_span))
            } else {
                Ok(Token::new(TokenType::Underscore, start_span))
            }
        } else if c == '.' {
            if Self::digit_follows(self.source, 0) {
                Self::read_number(self.source, '.', start_span)
            } else if self.source.peek() == Some('.') {
                self.source.next_char();
                Ok(Token::new(TokenType::DotDot, start_span))
            } else {
                Ok(Token::new(TokenType::Dot, start_span))
            }
        } else {
            Self::get_multichar_token(self.source, c, start_span)
        }
    }

    /// Skips spaces and tabs, and newlines inside brackets.
    fn skip_space(source: &mut Source, in_brackets: bool)
        requires
            old(source).wf(),
        ensures
            final(source).moved(
                *old(source),
                token_start(old(source).text(), old(source).pos as int, in_brackets),
            ),
    {
        let ghost skip = |c: char| separates(c, in_brackets);
        let mut going = true;
        while going
            invariant
                source.moved(*old(source), source.pos as int),
                skip == (|c: char| separates(c, in_brackets)),
                scan(old(source).text(), old(source).pos as int, skip) == scan(
                    source.text(),
                    source.pos as int,
                    skip,
                ),
                !going ==> scan(source.text(), source.pos as int, skip) == source.pos,
            decreases source.text().len() - source.pos + (if going { 1int } else { 0int }),
        {
            match source.peek() {
                Some(ch) => {
                    if ch == ' ' || ch == '\t' || ch == '\r' || (in_brackets && ch == '\n') {
                        source.next_char();
                    } else {
                        going = false;
                    }
                },
                None => {
                    going = false;
                },
            }
        }
    }

    /// Reads a comment or an operator behind its first slash.
    fn read_slash(source: &mut Source, start_span: Span) -> (r: Result<Token, LexerError>)
        requires
            old(source).wf(),
        ensures
            reads(
                *old(source),
                *final(source),
                r,
                slash(old(source).text(), old(source).pos as int, start_span),
            ),
    {
        match source.peek() {
            Some('/') => {
                source.next_char();
                let comment = source.consume_until('\n');
                Ok(Token::new(TokenType::LineComment(trim(comment.as_str())), start_span))
            },
            Some('*') => {
                source.next_char();
                Self::read_multiline_comment(source, start_span)
            },
            Some('=') => {
                source.next_char();
                Ok(Token::new(TokenType::SlashEq, start_span))
            },
            _ => Ok(Token::new(TokenType::Slash, start_span)),
        }
    }

    /// Reads a block comment behind its opening `/*`.
    fn read_multiline_comment(source: &mut Source, start_span: Span) -> (r: Result<
        Token,
        LexerError,
    >)
        requires
            old(source).wf(),
            old(source).pos > 0,
            old(source).text()[old(source).pos - 1] == '*',
        ensures
            reads(
                *old(source),
                *final(source),
                r,
                slash(old(source).text(), old(source).pos - 1, start_span),
            ),
    {
        let (comment, found) = source.consume_multiline_comment();
        if found {
            Ok(Token::new(TokenType::MultilineComment(trim(comment.as_str())), start_span))
        } else {
            Err(
                LexerError::with_help(
                    DiagnosticCode::LexUnterminatedComment,
                    "Unterminated block comment",
                    start_span,
                    "Add a closing '*/' to end the block comment",
                ),
            )
        }
    }

    /// Reads the identifier characters that follow.
    fn consume_identifier_tail(source: &mut Source, ident: &mut String)
        requires
            old(source).wf(),
        ensures
            final(source).moved(
                *old(source),
                identifier_end(old(source).text(), old(source).pos as int),
            ),
            final(ident)@ == old(ident)@ + old(source).text().subrange(
                old(source).pos as int,
                final(source).pos as int,
            ),
    {
        let ghost skip = |c: char| is_identifier_char_spec(c);
        let ghost start = source.pos as int;
        let mut going = true;
        assert(ident@ =~= old(ident)@ + source.text().subrange(start, start));
        while going
            invariant
                source.moved(*old(source), source.pos as int),
                start == old(source).pos,
                start <= source.pos,
                skip == (|c: char| is_identifier_char_spec(c)),
                scan(old(source).text(), start, skip) == scan(
                    source.text(),
                    source.pos as int,
                    skip,
                ),
                !going ==> scan(source.text(), source.pos as int, skip) == source.pos,
                ident@ == old(ident)@ + source.text().subrange(start, source.pos as int),
            decreases source.text().len() - source.pos + (if going { 1int } else { 0int }),
        {
            match source.peek() {
                Some(ch) => {
                    if is_identifier_char(ch) {
                        ident.push(ch);
                        source.next_char();
                        assert(ident@ =~= old(ident)@ + source.text().subrange(
                            start,
                            source.pos as int,
                        ));
                    } else {
                        going = false;
                    }
                },
                None => {
                    going = false;
                },
            }
        }
    }

    /// The keyword that a word is, or else the identifier.
    fn keyword_or_identifier_token_type(ident: String) -> (r: TokenType)
        ensures
            r@ == word(ident@),
    {
        let w = ident.as_str();
        if same(w, "auto") {
            TokenType::Auto
        } else if same(w, "func") {
            TokenType::Func
        } else if same(w, "return") {
            TokenType::Return
        } else if same(w, "returns") {
            TokenType::Returns
        } else if same(w, "if") {
            TokenType::If
        } else if same(w, "else") {
            TokenType::Else
        } else if same(w, "for") {
            TokenType::For
        } else if same(w, "while") {
            TokenType::While
        } else if same(w, "match") {
            TokenType::Match
        } else if same(w, "const") {
            TokenType::Const
        } else if same(w, "class") {
            TokenType::Class
        } else if same(w, "interface") {
            TokenType::Interface
        } else if same(w, "enum") {
            TokenType::Enum
        } else if same(w, "import") {
            TokenType::Import
        } else if same(w, "is") {
            TokenType::Is
        } else if same(w, "as") {
            TokenType::As
        } else if same(w, "in") {
            TokenType::In
        } else if same(w, "break") {
            TokenType::Break
        } else if same(w, "continue") {
            TokenType::Continue
        } else if same(w, "none") {
            TokenType::NoneKeyword
        } else if same(w, "true") {
            TokenType::Bool(true)
        } else if same(w, "false") {
            TokenType::Bool(false)
        } else if same(w, "common") {
            TokenType::Common
        } else if same(w, "where") {
            TokenType::Where
        } else {
            TokenType::Id(ident)
        }
    }

    /// Reads a word behind its first character.
    fn read_identifier_or_keyword(source: &mut Source, first_char: char, start_span: Span) -> (r:
        Token)
        requires
            old(source).wf(),
            old(source).pos > 0,
            old(source).text()[old(source).pos - 1] == first_char,
        ensures
            reads(
                *old(source),
                *final(source),
                Ok(r),
                identifier(old(source).text(), old(source).pos - 1, start_span),
            ),
    {
        let mut span = start_span;
        let mut ident = String::new();
        ident.push(first_char);
        Self::consume_identifier_tail(source, &mut ident);
        span.complete(source.line, source.col);
        proof {
            let p = old(source).pos as int;
            scan_is_first(source.text(), p, |c: char| is_identifier_char_spec(c));
            assert(ident@ =~= source.text().subrange(p - 1, source.pos as int));
        }
        Token::new(Self::keyword_or_identifier_token_type(ident), span)
    }

    /// The character that an escape stands for.
    pub(crate) fn decode_escape(c: char) -> (r: Option<char>)
        ensures
            r == escape_value(c),
    {
        match c {
            'n' => Some('\n'),
            't' => Some('\t'),
            'r' => Some('\r'),
            '0' => Some('\0'),
            '\\' => Some('\\'),
            '\'' => Some('\''),
            '"' => Some('"'),
            _ => None,
        }
    }

    /// Reads a token whose first character has been read and has a role of
    /// its own.
    fn get_multichar_token(source: &mut Source, first_char: char, start_span: Span) -> (r: Result<
        Token,
        LexerError,
    >)
        requires
            old(source).wf(),
            old(source).pos > 0,
            old(source).text()[old(source).pos - 1] == first_char,
            start_span == mark(old(source).text(), old(source).pos - 1),
            start_span.col_start <= 1 + 3 * old(source).pos,
        ensures
            reads(
                *old(source),
                *final(source),
                r,
                multichar(old(source).text(), first_char, old(source).pos as int, start_span),
            ),
    {
        let mut span = start_span;
        span.complete(source.line, source.col);
        let ghost p = source.pos as int;
        if first_char == '*' {
            Self::handle_star_operator(source, span)
        } else if first_char == '=' {
            Self::handle_eq_operator(source, span)
        } else if first_char == '!' {
            Self::handle_bang_operator(source, span)
        } else if first_char == '+' {
            Self::handle_plus_operator(source, span)
        } else if first_char == '-' {
            Self::handle_minus_operator(source, span)
        } else if first_char == '<' {
            Self::handle_lt_operator(source, span)
        } else if first_char == '>' {
            Self::handle_gt_operator(source, span)
        } else if first_char == '|' {
            Self::handle_or_operator(source, span)
        } else if first_char == '&' {
            Self::handle_and_operator(source, span)
        } else if is_digit(first_char) {
            Self::read_number(source, first_char, span)
        } else if first_char == '\'' {
            Self::read_char(source, span)
        } else if first_char == '"' {
            Self::handle_string_start(source, span)
        } else if is_letter(first_char) {
            Ok(Self::read_identifier_or_keyword(source, first_char, span))
        } else {
            let mut message = "Unexpected character: '".to_owned();
            message.push(first_char);
            message.push('\'');
            proof {
                reveal_strlit("'");
                assert(message@ =~= "Unexpected character: '"@ + seq![first_char] + "'"@);
            }
            Err(
                LexerError::with_help(
                    DiagnosticCode::LexUnexpectedCharacter,
                    message.as_str(),
                    span,
                    "This character is not recognized as valid Mux syntax. Check for accidental special characters or encoding issues.",
                ),
            )
        }
    }

    /// Whether a digit stands `n` places behind the next character.
    pub(crate) fn digit_follows(source: &Source, n: usize) -> (r: bool)
        requires
            source.wf(),
        ensures
            r == (at(source.text(), source.pos + n) is Some && is_digit(
                at(source.text(), source.pos + n)->0,
            )),
    {
        match source.peek_nth(n) {
            Some(c) => is_digit(c),
            None => false,
        }
    }

    /// Whether a letter or underscore stands `n` places behind the next character.
    pub(crate) fn letter_follows(source: &Source, n: usize) -> (r: bool)
        requires
            source.wf(),
        ensures
            r == word_follows(source.text(), source.pos + n),
    {
        match source.peek_nth(n) {
            Some(c) => is_letter(c) || c == '_',
            None => false,
        }
    }

    /// Reads `second` where it stands next.
    fn accept(source: &mut Source, second: char) -> (r: bool)
        requires
            old(source).wf(),
        ensures
            r == (at(old(source).text(), old(source).pos as int) == Some(second)),
            final(source).moved(*old(source), old(source).pos + (if r { 1int } else { 0int })),
    {
        if source.peek() == Some(second) {
            source.next_char();
            true
        } else {
            false
        }
    }

    /// A token of the given type that ends at the current position.
    fn ending_here(source: &Source, kind: TokenType, start_span: Span) -> (r: Result<
        Token,
        LexerError,
    >)
        requires
            source.wf(),
        ensures
            outcome(r) == lexed(
                kind@,
                until(source.text(), start_span, source.pos as int),
                source.pos as int,
            ).outcome,
    {
        let mut span = start_span;
        span.complete(source.line, source.col);
        Ok(Token::new(kind, span))
    }

    fn handle_star_operator(source: &mut Source, start_span: Span) -> (r: Result<Token, LexerError>)
        requires
            old(source).wf(),
        ensures
            reads(
                *old(source),
                *final(source),
                r,
                star(old(source).text(), old(source).pos as int, start_span),
            ),
    {
        if Self::accept(source, '*') {
            Self::ending_here(source, TokenType::StarStar, start_span)
        } else if Self::accept(source, '=') {
            Self::ending_here(source, TokenType::StarEq, start_span)
        } else {
            Ok(Token::new(TokenType::Star, start_span))
        }
    }

    fn handle_eq_operator(source: &mut Source, start_span: Span) -> (r: Result<Token, LexerError>)
        requires
            old(source).wf(),
        ensures
            reads(
                *old(source),
                *final(source),
                r,
                equals(old(source).text(), old(source).pos as int, start_span),
            ),
    {
        if Self::accept(source, '=') {
            Self::ending_here(source, TokenType::EqEq, start_span)
        } else {
            Ok(Token::new(TokenType::Eq, start_span))
        }
    }

    fn handle_bang_operator(source: &mut Source, start_span: Span) -> (r: Result<Token, LexerError>)
        requires
            old(source).wf(),
        ensures
            reads(
                *old(source),
                *final(source),
                r,
                bang(old(source).text(), old(source).pos as int, start_span),
            ),
    {
        if Self::accept(source, '=') {
            Self::ending_here(source, TokenType::NotEq, start_span)
        } else {
            Ok(Token::new(TokenType::Bang, start_span))
        }
    }

    fn handle_plus_operator(source: &mut Source, start_span: Span) -> (r: Result<Token, LexerError>)
        requires
            old(source).wf(),
        ensures
            reads(
                *old(source),
                *final(source),
                r,
                plus(old(source).text(), old(source).pos as int, start_span),
            ),
    {
        if Self::accept(source, '+') {
            Self::ending_here(source, TokenType::Incr, start_span)
        } else if Self::accept(source, '=') {
            Self::ending_here(source, TokenType::PlusEq, start_span)
        } else {
            Ok(Token::new(TokenType::Plus, start_span))
        }
    }

    fn handle_minus_operator(source: &mut Source, start_span: Span) -> (r: Result<
        Token,
        LexerError,
    >)
        requires
            old(source).wf(),
        ensures
            reads(
                *old(source),
                *final(source),
                r,
                minus(old(source).text(), old(source).pos as int, start_span),
            ),
    {
        if Self::accept(source, '-') {
            return Self::ending_here(source, TokenType::Decr, start_span);
        }
        if Self::accept(source, '=') {
            return Self::ending_here(source, TokenType::MinusEq, start_span);
        }
        if Self::digit_follows(source, 0) {
            Self::read_number(source, '-', start_span)
        } else {
            Ok(Token::new(TokenType::Minus, start_span))
        }
    }

    fn handle_lt_operator(source: &mut Source, start_span: Span) -> (r: Result<Token, LexerError>)
        requires
            old(source).wf(),
        ensures
            reads(
                *old(source),
                *final(source),
                r,
                less(old(source).text(), old(source).pos as int, start_span),
            ),
    {
        if Self::accept(source, '=') {
            Self::ending_here(source, TokenType::Le, start_span)
        } else {
            Ok(Token::new(TokenType::Lt, start_span))
        }
    }

    fn handle_gt_operator(source: &mut Source, start_span: Span) -> (r: Result<Token, LexerError>)
        requires
            old(source).wf(),
        ensures
            reads(
                *old(source),
                *final(source),
                r,
                greater(old(source).text(), old(source).pos as int, start_span),
            ),
    {
        if Self::accept(source, '=') {
            Self::ending_here(source, TokenType::Ge, start_span)
        } else {
            Ok(Token::new(TokenType::Gt, start_span))
        }
    }

    fn handle_or_operator(source: &mut Source, start_span: Span) -> (r: Result<Token, LexerError>)
        requires
            old(source).wf(),
        ensures
            reads(
                *old(source),
                *final(source),
                r,
                bar(old(source).text(), old(source).pos as int, start_span),
            ),
    {
        if Self::accept(source, '|') {
            Self::ending_here(source, TokenType::Or, start_span)
        } else {
            Err(
                LexerError::with_help(
                    DiagnosticCode::LexUnexpectedCharacter,
                    "Unexpected character '|'",
                    start_span,
                    "Single '|' is not a valid operator. Use '||' for logical OR",
                ),
            )
        }
    }

    fn handle_and_operator(source: &mut Source, start_span: Span) -> (r: Result<Token, LexerError>)
        requires
            old(source).wf(),
        ensures
            reads(
                *old(source),
                *final(source),
                r,
                ampersand(old(source).text(), old(source).pos as int, start_span),
            ),
    {
        if Self::accept(source, '&') {
            Self::ending_here(source, TokenType::And, start_span)
        } else {
            Self::ending_here(source, TokenType::Ref, start_span)
        }
    }
}

} // verus!
