//! Reading number, string and character literals.

use crate::diagnostic::DiagnosticCode;
use crate::lexer::error::LexerError;
use crate::lexer::grammar::{
    char_literal, digit_run, digits_among, digits_end, escape_mark, escape_value, escaped_body,
    exponent, float_token, fraction_follows, int_token, is_digit_or_separator, is_number_rest,
    malformed, mark, number, number_rest_end, string_body, string_literal, string_rest,
    unterminated, until, word_follows, Body,
};
use crate::lexer::scanner::{outcome, parse_int, reads, Lexer};
use crate::lexer::span::Span;
use crate::lexer::token::{FloatLiteral, Token, TokenType};
use crate::source::{at, col_at, scan, Source};
use crate::text::{all_digits, byte_len, cat, chars_of, is_digit, is_letter, utf8_len};
use vstd::prelude::*;

verus! {

proof fn digits_among_push(s: Seq<char>, c: char)
    ensures
        digits_among(s.push(c)) == (if is_digit(c) {
            digits_among(s).push(c)
        } else {
            digits_among(s)
        }),
{
    reveal(Seq::filter);
    assert(s.push(c).drop_last() =~= s);
}

proof fn digits_among_are_digits(s: Seq<char>)
    ensures
        all_digits(digits_among(s)),
{
    let d = |c: char| is_digit(c);
    assert forall|i: int| 0 <= i < digits_among(s).len() implies is_digit(
        #[trigger] digits_among(s)[i],
    ) by {
        s.lemma_filter_pred(d, i);
    }
}

impl<'a> Lexer<'a> {
    /// Reads on through what belongs to a malformed number.
    fn consume_remaining_invalid(source: &mut Source, buf: &mut String, span: &mut Span)
        requires
            old(source).wf(),
        ensures
            final(source).moved(
                *old(source),
                number_rest_end(old(source).text(), old(source).pos as int),
            ),
            final(buf)@ == old(buf)@ + old(source).text().subrange(
                old(source).pos as int,
                final(source).pos as int,
            ),
            *final(span) == until(old(source).text(), *old(span), final(source).pos as int),
    {
        let ghost skip = |c: char| is_number_rest(c);
        let ghost start = source.pos as int;
        let mut going = true;
        assert(buf@ =~= old(buf)@ + source.text().subrange(start, start));
        while going
            invariant
                source.moved(*old(source), source.pos as int),
                start == old(source).pos,
                start <= source.pos,
                skip == (|c: char| is_number_rest(c)),
                scan(old(source).text(), start, skip) == scan(
                    source.text(),
                    source.pos as int,
                    skip,
                ),
                !going ==> scan(source.text(), source.pos as int, skip) == source.pos,
                buf@ == old(buf)@ + source.text().subrange(start, source.pos as int),
            decreases source.text().len() - source.pos + (if going { 1int } else { 0int }),
        {
            match source.peek() {
                Some(c) => {
                    if is_letter(c) || is_digit(c) || c == '_' || c == '.' {
                        buf.push(c);
                        source.next_char();
                        assert(buf@ =~= old(buf)@ + source.text().subrange(
                            start,
                            source.pos as int,
                        ));
                    } else {
                        going = false;
                    }
                },
                None => {
                    going = false;
                },
            }
        }
        span.complete(source.line, source.col);
    }

    /// Reads digits and their separators, and keeps the digits.
    fn consume_digits_and_underscores(source: &mut Source, out: &mut String) -> (r: bool)
        requires
            old(source).wf(),
        ensures
            final(source).moved(
                *old(source),
                digits_end(old(source).text(), old(source).pos as int),
            ),
            final(out)@ == old(out)@ + digit_run(old(source).text(), old(source).pos as int),
            r == (digit_run(old(source).text(), old(source).pos as int).len() > 0),
    {
        let ghost skip = |c: char| is_digit_or_separator(c);
        let ghost start = source.pos as int;
        let ghost text = source.text();
        let mut has_digit = false;
        let mut going = true;
        proof {
            assert(text.subrange(start, start) =~= seq![]);
            reveal(Seq::filter);
            assert(digits_among(seq![]) =~= seq![]);
            assert(out@ =~= old(out)@ + digits_among(text.subrange(start, start)));
        }
        while going
            invariant
                source.moved(*old(source), source.pos as int),
                start == old(source).pos,
                text == source.text(),
                start <= source.pos,
                skip == (|c: char| is_digit_or_separator(c)),
                scan(text, start, skip) == scan(text, source.pos as int, skip),
                !going ==> scan(text, source.pos as int, skip) == source.pos,
                out@ == old(out)@ + digits_among(text.subrange(start, source.pos as int)),
                has_digit == (digits_among(text.subrange(start, source.pos as int)).len() > 0),
            decreases text.len() - source.pos + (if going { 1int } else { 0int }),
        {
            let ghost p = source.pos as int;
            match source.peek() {
                Some(c) => {
                    proof {
                        digits_among_push(text.subrange(start, p), c);
                        assert(text.subrange(start, p + 1) =~= text.subrange(start, p).push(c));
                    }
                    if is_digit(c) {
                        out.push(c);
                        source.next_char();
                        has_digit = true;
                        assert(out@ =~= old(out)@ + digits_among(text.subrange(start, p + 1)));
                    } else if c == '_' {
                        source.next_char();
                    } else {
                        going = false;
                    }
                },
                None => {
                    going = false;
                },
            }
        }
        has_digit
    }

    /// Reads a fraction behind the integer part `num`, where there is one.
    fn consume_fraction_if_present(source: &mut Source, num: &mut String, is_float: &mut bool) -> (r:
        Result<(), LexerError>)
        requires
            old(source).wf(),
            !*old(is_float),
        ensures
            ({
                let text = old(source).text();
                let p = old(source).pos as int;
                if at(text, p) != Some('.') || word_follows(text, p + 1) {
                    &&& r is Ok
                    &&& final(source).moved(*old(source), p)
                    &&& final(num)@ == old(num)@
                    &&& !*final(is_float)
                } else if fraction_follows(text, p) {
                    &&& r is Ok
                    &&& final(source).moved(*old(source), digits_end(text, p + 1))
                    &&& final(num)@ == old(num)@.push('.') + digit_run(text, p + 1)
                    &&& *final(is_float)
                } else {
                    &&& r is Err
                    &&& final(source).moved(*old(source), p)
                    &&& r->Err_0@.span == mark(text, p)
                    &&& r->Err_0@.code == (if at(text, p + 1) == Some('.') {
                        DiagnosticCode::LexRangeLiteral
                    } else {
                        DiagnosticCode::LexInvalidNumber
                    })
                    &&& r->Err_0@.message == (if at(text, p + 1) == Some('.') {
                        "Mux does not have range literal syntax"@
                    } else {
                        "Expected digit after decimal point"@
                    })
                    &&& r->Err_0@.help == (if at(text, p + 1) == Some('.') {
                        Some(
                            "Use range(a, b) to iterate over a numeric range, e.g. for int i in range(0, 10)"@,
                        )
                    } else {
                        None
                    })
                }
            }),
    {
        if source.peek() != Some('.') {
            return Ok(());
        }
        let here = Span::new(source.line, source.col);
        if Self::letter_follows(source, 1) {
            return Ok(());
        }
        if source.peek_nth(1) == Some('.') {
            return Err(
                LexerError::with_help(
                    DiagnosticCode::LexRangeLiteral,
                    "Mux does not have range literal syntax",
                    here,
                    "Use range(a, b) to iterate over a numeric range, e.g. for int i in range(0, 10)",
                ),
            );
        }
        if !Self::digit_follows(source, 1) {
            return Err(
                LexerError::new(
                    DiagnosticCode::LexInvalidNumber,
                    "Expected digit after decimal point",
                    here,
                ),
            );
        }
        *is_float = true;
        num.push('.');
        source.next_char();
        Self::consume_digits_and_underscores(source, num);
        Ok(())
    }

    /// Reads an exponent, where there is one, and makes the token.
    fn finish_number(source: &mut Source, num: String, is_float: bool, start_span: Span) -> (r:
        Result<Token, LexerError>)
        requires
            old(source).wf(),
            num@.len() > 0,
            !is_float ==> all_digits(if num@[0] == '-' { num@.skip(1) } else { num@ }),
        ensures
            reads(
                *old(source),
                *final(source),
                r,
                exponent(
                    old(source).text(),
                    num@,
                    is_float,
                    old(source).pos as int,
                    start_span,
                ),
            ),
    {
        let mut num = num;
        let mut is_float = is_float;
        match Self::consume_exponent_if_present(source, &mut num, &mut is_float) {
            Err(e) => {
                return Err(e);
            },
            Ok(()) => {},
        }
        let mut span = start_span;
        span.complete(source.line, source.col);
        if is_float {
            Self::parse_float_token(source, num, span)
        } else {
            Self::parse_int_token(source, num, span)
        }
    }

    /// Reads an exponent, where there is one.
    fn consume_exponent_if_present(source: &mut Source, num: &mut String, is_float: &mut bool) -> (r:
        Result<(), LexerError>)
        requires
            old(source).wf(),
        ensures
            ({
                let text = old(source).text();
                let p = old(source).pos as int;
                if at(text, p) == Some('e') || at(text, p) == Some('E') {
                    let signed = at(text, p + 1) == Some('+') || at(text, p + 1) == Some('-');
                    let q = if signed { p + 2 } else { p + 1 };
                    let end = digits_end(text, q);
                    &&& final(source).moved(*old(source), end)
                    &&& match r {
                        Ok(_) => {
                            &&& digit_run(text, q).len() > 0
                            &&& *final(is_float)
                            &&& final(num)@ == old(num)@ + text.subrange(p, q) + digit_run(text, q)
                        },
                        Err(e) => {
                            &&& digit_run(text, q).len() == 0
                            &&& e@.code == DiagnosticCode::LexInvalidNumber
                            &&& e@.message == "Missing exponent in scientific notation"@
                            &&& e@.help == Some(
                                "The 'e' notation requires digits after it, e.g. 1e10, 2.5e-3"@,
                            )
                            &&& e@.span == mark(text, end)
                        },
                    }
                } else {
                    &&& r is Ok
                    &&& final(source).moved(*old(source), p)
                    &&& final(num)@ == old(num)@
                    &&& *final(is_float) == *old(is_float)
                }
            }),
    {
        let ghost text = source.text();
        let ghost p = source.pos as int;
        match source.peek() {
            Some(c) => {
                if c != 'e' && c != 'E' {
                    return Ok(());
                }
                *is_float = true;
                num.push(c);
                source.next_char();
            },
            None => {
                return Ok(());
            },
        }
        assert(num@ =~= old(num)@ + text.subrange(p, p + 1));
        match source.peek() {
            Some(c) => {
                if c == '+' || c == '-' {
                    num.push(c);
                    source.next_char();
                    assert(num@ =~= old(num)@ + text.subrange(p, p + 2));
                }
            },
            None => {},
        }
        if !Self::consume_digits_and_underscores(source, num) {
            return Err(
                LexerError::with_help(
                    DiagnosticCode::LexInvalidNumber,
                    "Missing exponent in scientific notation",
                    Span::new(source.line, source.col),
                    "The 'e' notation requires digits after it, e.g. 1e10, 2.5e-3",
                ),
            );
        }
        Ok(())
    }

    /// Reads what belongs to a malformed number and reports it.
    fn malformed_number(
        source: &mut Source,
        prefix: &str,
        num: String,
        start_span: Span,
        help: &str,
    ) -> (r: Result<Token, LexerError>)
        requires
            old(source).wf(),
        ensures
            reads(
                *old(source),
                *final(source),
                r,
                malformed(
                    old(source).text(),
                    prefix@,
                    num@,
                    old(source).pos as int,
                    start_span,
                    help@,
                ),
            ),
    {
        let mut num = num;
        let mut span = start_span;
        Self::consume_remaining_invalid(source, &mut num, &mut span);
        Err(
            LexerError::with_help(
                DiagnosticCode::LexInvalidNumber,
                cat(prefix, num.as_str()).as_str(),
                span,
                help,
            ),
        )
    }

    /// The float token with the notation `num`.
    fn parse_float_token(source: &mut Source, num: String, start_span: Span) -> (r: Result<
        Token,
        LexerError,
    >)
        requires
            old(source).wf(),
        ensures
            reads(
                *old(source),
                *final(source),
                r,
                float_token(old(source).text(), num@, old(source).pos as int, start_span),
            ),
    {
        if source.peek() == Some('.') && Self::digit_follows(source, 1) {
            return Self::malformed_number(
                source,
                "Invalid float literal: ",
                num,
                start_span,
                "A number can only have one decimal point. Use separate expressions for chained field access.",
            );
        }
        if Self::letter_follows(source, 0) {
            return Self::malformed_number(
                source,
                "Invalid float literal: ",
                num,
                start_span,
                "Float literals cannot contain letters. Use a space or separate expression.",
            );
        }
        Ok(Token::new(TokenType::Float(FloatLiteral { text: num }), start_span))
    }

    /// The integer token with the notation `num`.
    fn parse_int_token(source: &mut Source, num: String, start_span: Span) -> (r: Result<
        Token,
        LexerError,
    >)
        requires
            old(source).wf(),
            num@.len() > 0,
            all_digits(if num@[0] == '-' { num@.skip(1) } else { num@ }),
        ensures
            reads(
                *old(source),
                *final(source),
                r,
                int_token(old(source).text(), num@, old(source).pos as int, start_span),
            ),
    {
        if Self::letter_follows(source, 0) {
            return Self::malformed_number(
                source,
                "Invalid integer literal: ",
                num,
                start_span,
                "Integer literals cannot contain letters. Variable names must not start with a digit.",
            );
        }
        match parse_int(num.as_str()) {
            Some(v) => Ok(Token::new(TokenType::Int(v), start_span)),
            None => Err(
                LexerError::with_help(
                    DiagnosticCode::LexInvalidNumber,
                    cat("Invalid integer literal: ", num.as_str()).as_str(),
                    start_span,
                    "The integer value is out of range. Valid integers are between -9223372036854775808 and 9223372036854775807.",
                ),
            ),
        }
    }

    /// Reads a number behind its first character.
    pub(crate) fn read_number(source: &mut Source, first_char: char, start_span: Span) -> (r: Result<
        Token,
        LexerError,
    >)
        requires
            old(source).wf(),
            first_char == '.' || first_char == '-' || is_digit(first_char),
        ensures
            reads(
                *old(source),
                *final(source),
                r,
                number(old(source).text(), first_char, old(source).pos as int, start_span),
            ),
    {
        let ghost text = source.text();
        let ghost p = source.pos as int;
        let mut num = String::new();
        let mut is_float = false;
        proof {
            digits_among_are_digits(text.subrange(p, digits_end(text, p)));
        }
        if first_char == '.' {
            is_float = true;
            num.push('0');
            num.push('.');
            assert(num@ =~= seq!['0', '.']);
            if !Self::consume_digits_and_underscores(source, &mut num) {
                return Err(
                    LexerError::with_help(
                        DiagnosticCode::LexInvalidNumber,
                        "Expected digit after decimal point",
                        Span::new(source.line, source.col),
                        "A decimal point must be followed by at least one digit, e.g. 1.0",
                    ),
                );
            }
        } else {
            num.push(first_char);
            assert(num@ =~= seq![first_char]);
            Self::consume_digits_and_underscores(source, &mut num);
            proof {
                assert(num@ == seq![first_char] + digit_run(text, p));
                assert(num@.skip(1) =~= digit_run(text, p));
            }
            match Self::consume_fraction_if_present(source, &mut num, &mut is_float) {
                Err(e) => {
                    return Err(e);
                },
                Ok(()) => {},
            }
        }
        Self::finish_number(source, num, is_float, start_span)
    }

    /// Reads a string behind its first quote.
    pub(crate) fn handle_string_start(source: &mut Source, start_span: Span) -> (r: Result<
        Token,
        LexerError,
    >)
        requires
            old(source).wf(),
            start_span.col_start <= 1 + 3 * old(source).pos,
        ensures
            reads(
                *old(source),
                *final(source),
                r,
                string_literal(old(source).text(), old(source).pos as int, start_span),
            ),
    {
        if Self::is_triple_quote(source) {
            source.next_char();
            source.next_char();
        }
        Self::read_string(source, start_span)
    }

    /// Whether two more quotes follow.
    fn is_triple_quote(source: &Source) -> (r: bool)
        requires
            source.wf(),
        ensures
            r == (at(source.text(), source.pos as int) == Some('"') && at(
                source.text(),
                source.pos + 1,
            ) == Some('"')),
    {
        source.peek() == Some('"') && source.peek_nth(1) == Some('"')
    }

    /// Reads the rest of a string.
    fn read_string(source: &mut Source, start_span: Span) -> (r: Result<Token, LexerError>)
        requires
            old(source).wf(),
            start_span.col_start <= 1 + 3 * old(source).pos,
        ensures
            reads(
                *old(source),
                *final(source),
                r,
                string_rest(old(source).text(), old(source).pos as int, start_span),
            ),
    {
        let ghost text = source.text();
        let mut s = String::new();
        let mut escaped = false;
        let is_triple = Self::is_triple_quote(source);
        if is_triple {
            source.next_char();
            source.next_char();
        }
        let ghost start = source.pos as int;
        let ghost whole = string_body(text, start, is_triple);
        proof {
            match whole {
                Body::Closed { value, .. } => assert(seq![] + value =~= value),
                Body::Open { value } => assert(seq![] + value =~= value),
                _ => {},
            }
        }
        while source.pos < source.chars.len()
            invariant
                source.moved(*old(source), source.pos as int),
                text == source.text(),
                whole == (if escaped {
                    escaped_body(text, source.pos as int, is_triple)
                } else {
                    string_body(text, source.pos as int, is_triple)
                }).behind(s@),
                s@.len() <= source.pos,
                old(source).pos <= source.pos,
                string_rest(text, old(source).pos as int, start_span) == (match whole {
                    Body::Closed { value, end } => crate::lexer::grammar::lexed(
                        crate::lexer::token::Lexeme::Str(value),
                        until(text, start_span, end),
                        end,
                    ),
                    Body::BadEscape { escape, end } => crate::lexer::grammar::refused(
                        DiagnosticCode::LexUnknownEscape,
                        "Unknown escape sequence: \\"@ + seq![escape],
                        Some("Valid escape sequences: \\n, \\t, \\r, \\0, \\\\, \\', \\\""@),
                        escape_mark(text, end),
                        end,
                    ),
                    Body::Open { value } => unterminated(text, value, start_span),
                }),
            decreases text.len() - source.pos,
        {
            let ghost p = source.pos as int;
            let ghost held = s@;
            let c = match source.next_char() {
                Some(c) => c,
                None => ' ',
            };
            if c == '\\' && !escaped {
                escaped = true;
            } else {
                match Self::try_end_string(source, c, escaped, is_triple, s.as_str(), start_span) {
                    Some(token) => {
                        proof {
                            assert(held + Seq::<char>::empty() =~= held);
                        }
                        return Ok(token);
                    },
                    None => {},
                }
                match Self::process_string_char(
                    source,
                    c,
                    &mut escaped,
                    &mut s,
                    "Valid escape sequences: \\n, \\t, \\r, \\0, \\\\, \\', \\\"",
                ) {
                    Err(e) => {
                        return Err(e);
                    },
                    Ok(()) => {
                        proof {
                            match string_body(text, p + 1, is_triple) {
                                Body::Closed { value, .. } => assert(held + (seq![s@.last()]
                                    + value) =~= s@ + value),
                                Body::Open { value } => assert(held + (seq![s@.last()] + value)
                                    =~= s@ + value),
                                _ => {},
                            }
                        }
                    },
                }
            }
        }
        proof {
            assert(s@ + Seq::<char>::empty() =~= s@);
        }
        Self::handle_unterminated_string(source, s.as_str(), start_span)
    }

    /// The string token, where the quote `c` that was read closes it.
    fn try_end_string(
        source: &mut Source,
        c: char,
        escaped: bool,
        is_triple: bool,
        s: &str,
        start_span: Span,
    ) -> (r: Option<Token>)
        requires
            old(source).wf(),
        ensures
            ({
                let text = old(source).text();
                let p = old(source).pos as int;
                let closes = c == '"' && !escaped && (is_triple ==> at(text, p) == Some('"') && at(
                    text,
                    p + 1,
                ) == Some('"'));
                let end = if is_triple { p + 2 } else { p };
                &&& r is Some == closes
                &&& final(source).moved(*old(source), if closes { end } else { p })
                &&& closes ==> r->0@ == (crate::lexer::token::TokenModel {
                    kind: crate::lexer::token::Lexeme::Str(s@),
                    span: until(text, start_span, end),
                })
            }),
    {
        if c != '"' || escaped {
            return None;
        }
        if is_triple {
            if !Self::is_triple_quote(source) {
                return None;
            }
            source.next_char();
            source.next_char();
        }
        let mut span = start_span;
        span.complete(source.line, source.col);
        Some(Token::new(TokenType::Str(s.to_owned()), span))
    }

    /// Adds the character `c`, which was read, to a literal.
    fn process_string_char(
        source: &Source,
        c: char,
        escaped: &mut bool,
        s: &mut String,
        help: &str,
    ) -> (r: Result<(), LexerError>)
        requires
            source.wf(),
        ensures
            !*old(escaped) ==> r is Ok && final(s)@ == old(s)@.push(c) && !*final(escaped),
            *old(escaped) ==> match escape_value(c) {
                Some(v) => r is Ok && final(s)@ == old(s)@.push(v) && !*final(escaped),
                None => r is Err && r->Err_0@ == (crate::lexer::error::LexerErrorModel {
                    code: DiagnosticCode::LexUnknownEscape,
                    message: "Unknown escape sequence: \\"@ + seq![c],
                    help: Some(help@),
                    span: escape_mark(source.text(), source.pos as int),
                }),
            },
    {
        if *escaped {
            match Self::decode_escape(c) {
                Some(decoded) => s.push(decoded),
                None => {
                    let mut message = "Unknown escape sequence: \\".to_owned();
                    message.push(c);
                    assert(message@ =~= "Unknown escape sequence: \\"@ + seq![c]);
                    return Err(
                        LexerError::with_help(
                            DiagnosticCode::LexUnknownEscape,
                            message.as_str(),
                            Span::new(source.line, source.col - 1),
                            help,
                        ),
                    );
                },
            }
            *escaped = false;
        } else {
            s.push(c);
        }
        Ok(())
    }

    /// The error of a string that is open at the end of the text.
    fn handle_unterminated_string(source: &Source, string_content: &str, start_span: Span) -> (r:
        Result<Token, LexerError>)
        requires
            source.wf(),
            source.pos == source.text().len(),
            start_span.col_start <= 1 + 3 * source.pos,
            string_content@.len() <= source.pos,
        ensures
            outcome(r) == unterminated(source.text(), string_content@, start_span).outcome,
    {
        let chars = chars_of(string_content);
        let mut i: usize = 0;
        let mut bytes: usize = 0;
        let ghost skip = |c: char| c != '\n';
        assert(chars@.take(0) =~= seq![]);
        while i < chars.len() && chars[i] != '\n'
            invariant
                i <= chars@.len() <= source.pos <= source.text().len(),
                source.wf(),
                bytes == byte_len(chars@.take(i as int)),
                bytes <= 4 * i,
                skip == (|c: char| c != '\n'),
                scan(chars@, 0, skip) == scan(chars@, i as int, skip),
            decreases chars@.len() - i,
        {
            assert(chars@.take(i + 1).drop_last() =~= chars@.take(i as int));
            bytes += utf8_len(chars[i]);
            i += 1;
        }
        let mut span = start_span;
        span.complete(source.line, start_span.col_start + bytes);
        Err(
            LexerError::with_help(
                DiagnosticCode::LexUnterminatedString,
                "Unterminated string",
                span,
                "Make sure to close the string with a matching quote",
            ),
        )
    }

    /// Reads a character literal behind its opening quote.
    pub(crate) fn read_char(source: &mut Source, start_span: Span) -> (r: Result<Token, LexerError>)
        requires
            old(source).wf(),
        ensures
            reads(
                *old(source),
                *final(source),
                r,
                char_literal(
                    old(source).text(),
                    old(source).pos as int,
                    old(source).pos as int,
                    None,
                    start_span,
                ),
            ),
    {
        let ghost text = source.text();
        let ghost start = source.pos as int;
        let inner = Span::new(start_span.row_start, source.col);
        let mut held = String::new();
        let mut first: Option<char> = None;
        let mut escaped = false;
        while source.pos < source.chars.len()
            invariant
                source.moved(*old(source), source.pos as int),
                text == source.text(),
                start == old(source).pos,
                inner.row_start == start_span.row_start,
                inner.row_end == None::<usize>,
                inner.col_start == col_at(text, start) as usize,
                inner.col_end == None::<usize>,
                held@.len() == (if first is Some { 1int } else { 0int }),
                start <= source.pos,
                escaped ==> source.pos > start && text[source.pos - 1] == '\\',
                char_literal(text, start, start, None, start_span) == char_literal(
                    text,
                    start,
                    if escaped { source.pos - 1 } else { source.pos as int },
                    first,
                    start_span,
                ),
            decreases text.len() - source.pos,
        {
            let c = match source.next_char() {
                Some(c) => c,
                None => ' ',
            };
            if c == '\\' && !escaped {
                escaped = true;
            } else if c == '\'' && !escaped {
                return Self::finish_char_literal(source, first, start_span, inner);
            } else {
                match Self::process_string_char(
                    source,
                    c,
                    &mut escaped,
                    &mut held,
                    "Valid escape sequences: \\n, \\t, \\r, \\0, \\\\, \\'",
                ) {
                    Err(e) => {
                        return Err(e);
                    },
                    Ok(()) => {},
                }
                if first.is_some() {
                    return Self::char_length(inner);
                }
                let chars = chars_of(held.as_str());
                first = Some(chars[0]);
            }
        }
        Err(
            LexerError::with_help(
                DiagnosticCode::LexInvalidCharacterLiteral,
                "Unterminated character literal",
                start_span,
                "Make sure to close the character with a matching quote",
            ),
        )
    }

    /// The error of a character literal of the wrong length.
    fn char_length(inner: Span) -> (r: Result<Token, LexerError>)
        ensures
            r matches Err(e) && e@ == (crate::lexer::error::LexerErrorModel {
                code: DiagnosticCode::LexInvalidCharacterLiteral,
                message: "Char literal must be exactly one character"@,
                help: Some("Example: 'a', '\\n', '\\''"@),
                span: inner,
            }),
    {
        Err(
            LexerError::with_help(
                DiagnosticCode::LexInvalidCharacterLiteral,
                "Char literal must be exactly one character",
                inner,
                "Example: 'a', '\\n', '\\''",
            ),
        )
    }

    /// The character token, where the literal holds one character.
    fn finish_char_literal(
        source: &Source,
        held: Option<char>,
        start_span: Span,
        inner: Span,
    ) -> (r: Result<Token, LexerError>)
        requires
            source.wf(),
        ensures
            match held {
                Some(c) => r matches Ok(t) && t@ == (crate::lexer::token::TokenModel {
                    kind: crate::lexer::token::Lexeme::Plain(TokenType::Char(c)),
                    span: until(source.text(), start_span, source.pos as int),
                }),
                None => r matches Err(e) && e@ == (crate::lexer::error::LexerErrorModel {
                    code: DiagnosticCode::LexInvalidCharacterLiteral,
                    message: "Char literal must be exactly one character"@,
                    help: Some("Example: 'a', '\\n', '\\''"@),
                    span: inner,
                }),
            },
    {
        match held {
            None => Self::char_length(inner),
            Some(c) => {
                let mut span = start_span;
                span.complete(source.line, source.col);
                Ok(Token::new(TokenType::Char(c), span))
            },
        }
    }
}

} // verus!
