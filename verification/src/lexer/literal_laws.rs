//! What literals read back as.

use crate::lexer::grammar::{
    digit_run, digits_among, digits_end, exponent, int_token, int_value, is_digit_or_separator,
    lexed, mark, number, plain, string_body, token_at, until, word_follows, Body,
};
use crate::lexer::token::{Lexeme, TokenType};
use crate::source::at;
use crate::text::{all_digits, decimal, decimal_reads_back, is_digit_spec};
use vstd::prelude::*;

verus! {

proof fn body_reads_to_quote(text: Seq<char>, p: int, e: int)
    requires
        0 <= p <= e < text.len(),
        text[e] == '"',
        forall|i: int| p <= i < e ==> #[trigger] text[i] != '"' && text[i] != '\\',
    ensures
        string_body(text, p, false) == (Body::Closed { value: text.subrange(p, e), end: e + 1 }),
    decreases e - p,
{
    if p < e {
        body_reads_to_quote(text, p + 1, e);
        assert(seq![text[p]] + text.subrange(p + 1, e) =~= text.subrange(p, e));
    } else {
        assert(text.subrange(p, e) =~= seq![]);
    }
}

/// A string literal without escapes carries the characters between its quotes.
pub proof fn string_reads_back(text: Seq<char>, p: int, e: int)
    requires
        0 <= p < e < text.len(),
        text[p] == '"',
        text[e] == '"',
        forall|i: int| p < i < e ==> #[trigger] text[i] != '"' && text[i] != '\\',
        e == p + 1 ==> at(text, e + 1) != Some('"'),
    ensures
        token_at(text, p) == lexed(
            Lexeme::Str(text.subrange(p + 1, e)),
            until(text, until(text, mark(text, p), p + 1), e + 1),
            e + 1,
        ),
{
    reveal(token_at);
    body_reads_to_quote(text, p + 1, e);
    if e > p + 1 {
        assert(text[p + 1] != '"');
    }
}

pub(crate) proof fn all_kept(s: Seq<char>)
    requires
        all_digits(s),
    ensures
        digits_among(s) == s,
    decreases s.len(),
{
    reveal(Seq::filter);
    let keep = |c: char| is_digit_spec(c);
    if s.len() > 0 {
        assert(is_digit_spec(s[s.len() - 1]));
        assert forall|i: int| 0 <= i < s.drop_last().len() implies is_digit_spec(
            #[trigger] s.drop_last()[i],
        ) by {
            assert(s.drop_last()[i] == s[i]);
        }
        all_kept(s.drop_last());
        assert(s.drop_last().push(s.last()) =~= s);
    }
    assert(digits_among(s) =~= s);
}

pub(crate) proof fn digits_read_to(text: Seq<char>, p: int, e: int)
    requires
        0 <= p <= e <= text.len(),
        forall|i: int| p <= i < e ==> is_digit_spec(#[trigger] text[i]),
        e < text.len() ==> !is_digit_or_separator(text[e]),
    ensures
        digits_end(text, p) == e,
    decreases e - p,
{
    let skip = |c: char| is_digit_or_separator(c);
    if p < e {
        assert(is_digit_spec(text[p]));
        digits_read_to(text, p + 1, e);
    }
}

pub(crate) proof fn digit_starts_number(text: Seq<char>, p: int)
    requires
        0 <= p < text.len(),
        is_digit_spec(text[p]),
    ensures
        token_at(text, p) == number(text, text[p], p + 1, until(text, mark(text, p), p + 1)),
{
    reveal(token_at);
}

/// A number in decimal reads back as the number, where it fits and no letter,
/// digit, separator or point follows.
pub proof fn number_reads_back(text: Seq<char>, p: int, n: nat)
    requires
        0 <= p,
        p + decimal(n).len() <= text.len(),
        text.subrange(p, p + decimal(n).len()) == decimal(n),
        n <= i64::MAX,
        ({
            let e = p + decimal(n).len();
            &&& !word_follows(text, e)
            &&& at(text, e) != Some('.')
            &&& at(text, e) matches Some(c) ==> !is_digit_spec(c)
        }),
    ensures
        token_at(text, p) == plain(
            TokenType::Int(n as i64),
            until(text, until(text, mark(text, p), p + 1), p + decimal(n).len()),
            p + decimal(n).len(),
        ),
{
    let d = decimal(n);
    let e = p + d.len();
    decimal_reads_back(n);
    assert forall|i: int| p <= i < e implies is_digit_spec(#[trigger] text[i]) by {
        assert(d[i - p] == text[i]);
        assert(is_digit_spec(d[i - p]));
    }
    assert(is_digit_spec(text[p]));
    digits_read_to(text, p + 1, e);
    let rest = text.subrange(p + 1, e);
    assert forall|i: int| 0 <= i < rest.len() implies is_digit_spec(#[trigger] rest[i]) by {
        assert(rest[i] == text[p + 1 + i]);
    }
    all_kept(rest);
    assert(digit_run(text, p + 1) == rest);
    assert(seq![text[p]] + rest =~= d);
    let span = until(text, mark(text, p), p + 1);
    assert(d[0] == text[p]);
    assert(int_value(d) == Some(n as i64));
    digit_starts_number(text, p);
    assert(number(text, text[p], p + 1, span) == exponent(text, d, false, e, span));
    assert(exponent(text, d, false, e, span) == int_token(text, d, e, until(text, span, e)));
}

} // verus!
