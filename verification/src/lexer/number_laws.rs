//! What fractions, negative numbers and comments read as.

use crate::lexer::grammar::{
    digit_run, exponent, float_token, int_token, int_value, mark, number,
    separates, token_at, token_start, trimmed, until, word_follows,
};
use crate::lexer::literal_laws::{all_kept, digit_starts_number, digits_read_to};
use crate::lexer::token::{Lexeme, TokenType};
use crate::lexer::token_laws::{reads_as, spelled};
use crate::source::{at, comment_end, scan, scan_is_first};
use crate::text::{all_digits, decimal, decimal_reads_back, is_blank_spec, is_digit_spec};
use vstd::prelude::*;

verus! {

/// A token of a kind with `n` characters is read at `p`.
pub open spec fn gives(text: Seq<char>, p: int, kind: Lexeme, n: int) -> bool {
    &&& token_at(text, p).outcome matches Ok(t) && t.kind == kind
    &&& token_at(text, p).end == p + n
}

/// Nothing follows at `p` that could belong to a number.
pub open spec fn number_is_over(text: Seq<char>, p: int) -> bool {
    &&& !word_follows(text, p)
    &&& at(text, p) != Some('.')
    &&& at(text, p) matches Some(c) ==> !is_digit_spec(c)
}

/// Digits with a point between them read as a fraction with that notation.
pub proof fn fraction_reads_as_written(text: Seq<char>, p: int, a: Seq<char>, b: Seq<char>)
    requires
        a.len() > 0,
        b.len() > 0,
        all_digits(a),
        all_digits(b),
        spelled(text, p, a + seq!['.'] + b),
        number_is_over(text, p + a.len() + 1 + b.len()),
    ensures
        gives(text, p, Lexeme::Float(a + seq!['.'] + b), (a.len() + 1 + b.len()) as int),
{
    let all = a + seq!['.'] + b;
    let sub = text.subrange(p, p + all.len());
    let m = p + a.len();
    let e = p + all.len();
    assert forall|i: int| p <= i < m implies is_digit_spec(#[trigger] text[i]) by {
        assert(sub[i - p] == all[i - p]);
        assert(a[i - p] == text[i]);
        assert(is_digit_spec(a[i - p]));
    }
    assert(sub[a.len() as int] == all[a.len() as int]);
    assert(text[m] == '.');
    assert forall|i: int| m + 1 <= i < e implies is_digit_spec(#[trigger] text[i]) by {
        assert(sub[i - p] == all[i - p]);
        assert(b[i - m - 1] == text[i]);
        assert(is_digit_spec(b[i - m - 1]));
    }
    assert(is_digit_spec(text[p]));
    digits_read_to(text, p + 1, m);
    digits_read_to(text, m + 1, e);
    let first = text.subrange(p + 1, m);
    assert forall|i: int| 0 <= i < first.len() implies is_digit_spec(#[trigger] first[i]) by {
        assert(first[i] == text[p + 1 + i]);
    }
    all_kept(first);
    assert(digit_run(text, p + 1) == first);
    assert(seq![text[p]] + first =~= a) by {
        assert forall|i: int| 0 <= i < a.len() implies (seq![text[p]] + first)[i] == a[i] by {
            assert(sub[i] == all[i]);
        }
    }
    let second = text.subrange(m + 1, e);
    assert(second =~= b) by {
        assert forall|i: int| 0 <= i < b.len() implies second[i] == b[i] by {
            assert(sub[a.len() + 1 + i] == all[a.len() + 1 + i]);
        }
    }
    all_kept(second);
    assert(digit_run(text, m + 1) == b);
    assert(is_digit_spec(text[m + 1]));
    let span = until(text, mark(text, p), p + 1);
    digit_starts_number(text, p);
    let num = a.push('.') + b;
    assert(num =~= all);
    assert(number(text, text[p], p + 1, span) == exponent(text, num, true, e, span));
    assert(exponent(text, num, true, e, span) == float_token(text, num, e, until(text, span, e)));
}

/// A minus directly in front of a number makes it negative.
pub proof fn negative_number_reads_back(text: Seq<char>, p: int, n: nat)
    requires
        0 < n <= i64::MAX,
        spelled(text, p, seq!['-'] + decimal(n)),
        number_is_over(text, p + 1 + decimal(n).len()),
    ensures
        reads_as(text, p, TokenType::Int((-n) as i64), (1 + decimal(n).len()) as int),
{
    let d = decimal(n);
    let all = seq!['-'] + d;
    let sub = text.subrange(p, p + all.len());
    let e = p + all.len();
    decimal_reads_back(n);
    assert(sub[0] == all[0]);
    assert(text[p] == '-');
    assert forall|i: int| p + 1 <= i < e implies is_digit_spec(#[trigger] text[i]) by {
        assert(sub[i - p] == all[i - p]);
        assert(is_digit_spec(d[i - p - 1]));
    }
    assert(is_digit_spec(text[p + 1]));
    digits_read_to(text, p + 1, e);
    let rest = text.subrange(p + 1, e);
    assert(rest =~= d) by {
        assert forall|i: int| 0 <= i < d.len() implies rest[i] == d[i] by {
            assert(sub[i + 1] == all[i + 1]);
        }
    }
    all_kept(rest);
    assert(digit_run(text, p + 1) == d);
    assert(all.drop_first() =~= d);
    let span = until(text, mark(text, p), p + 1);
    assert(token_at(text, p) == number(text, '-', p + 1, span)) by {
        reveal(token_at);
    }
    assert(number(text, '-', p + 1, span) == exponent(text, all, false, e, span));
    assert(exponent(text, all, false, e, span) == int_token(text, all, e, until(text, span, e)));
    assert(int_value(all) == Some((-n) as i64));
}

/// Two slashes make a comment of the rest of their line, without its blank
/// margins.
pub proof fn line_comment_reaches_the_newline(text: Seq<char>, p: int, e: int)
    requires
        0 <= p,
        p + 2 <= e <= text.len(),
        text[p] == '/',
        text[p + 1] == '/',
        forall|i: int| p + 2 <= i < e ==> #[trigger] text[i] != '\n',
        e < text.len() ==> text[e] == '\n',
    ensures
        gives(text, p, Lexeme::LineComment(trimmed(text.subrange(p + 2, e))), e - p),
{
    reveal(token_at);
    let skip = |c: char| c != '\n';
    scan_is_first(text, p + 2, skip);
    let f = scan(text, p + 2, skip);
    if f < e {
        assert(text[f] != '\n');
        assert(!skip(text[f]));
    }
    if e < f {
        assert(skip(text[e]));
    }
}

/// A slash and a star make a comment of everything up to the next star and
/// slash.
pub proof fn block_comment_reaches_its_end(text: Seq<char>, p: int, e: int)
    requires
        0 <= p,
        p + 2 <= e,
        e + 1 < text.len(),
        text[p] == '/',
        text[p + 1] == '*',
        text[e] == '*',
        text[e + 1] == '/',
        forall|i: int| p + 2 <= i < e ==> !(#[trigger] text[i] == '*' && text[i + 1] == '/'),
    ensures
        gives(text, p, Lexeme::MultilineComment(trimmed(text.subrange(p + 2, e))), e + 2 - p),
{
    reveal(token_at);
    ends_at_first(text, p + 2, e);
}

/// A comment that is not closed is refused.
pub proof fn open_block_comment_is_refused(text: Seq<char>, p: int)
    requires
        0 <= p,
        p + 1 < text.len(),
        text[p] == '/',
        text[p + 1] == '*',
        forall|i: int|
            p + 2 <= i < text.len() - 1 ==> !(#[trigger] text[i] == '*' && text[i + 1] == '/'),
    ensures
        token_at(text, p).outcome is Err,
        token_at(text, p).end == text.len(),
{
    reveal(token_at);
    never_ends(text, p + 2);
}

proof fn ends_at_first(text: Seq<char>, p: int, e: int)
    requires
        0 <= p <= e,
        e + 1 < text.len(),
        text[e] == '*',
        text[e + 1] == '/',
        forall|i: int| p <= i < e ==> !(#[trigger] text[i] == '*' && text[i + 1] == '/'),
    ensures
        comment_end(text, p) == Some(e),
    decreases e - p,
{
    if p < e {
        assert(!(text[p] == '*' && text[p + 1] == '/'));
        ends_at_first(text, p + 1, e);
    }
}

proof fn never_ends(text: Seq<char>, p: int)
    requires
        0 <= p,
        forall|i: int|
            p <= i < text.len() - 1 ==> !(#[trigger] text[i] == '*' && text[i + 1] == '/'),
    ensures
        comment_end(text, p) is None,
    decreases text.len() - p,
{
    if p + 1 < text.len() {
        assert(!(text[p] == '*' && text[p + 1] == '/'));
        never_ends(text, p + 1);
    }
}

/// `t` is the part of `s` from `i` up to `j`, and the rest of `s` is blank.
pub open spec fn cut_out(s: Seq<char>, t: Seq<char>, i: int, j: int) -> bool {
    &&& 0 <= i <= j <= s.len()
    &&& t == s.subrange(i, j)
    &&& forall|k: int| 0 <= k < i ==> is_blank_spec(#[trigger] s[k])
    &&& forall|k: int| j <= k < s.len() ==> is_blank_spec(#[trigger] s[k])
}

/// Only blanks at the margins are cut off.
pub proof fn only_margins_are_cut(s: Seq<char>)
    ensures
        exists|i: int, j: int| cut_out(s, trimmed(s), i, j),
        trimmed(s).len() > 0 ==> !is_blank_spec(trimmed(s)[0]) && !is_blank_spec(trimmed(s).last()),
    decreases s.len(),
{
    if s.len() > 0 && is_blank_spec(s[0]) {
        let t = s.drop_first();
        only_margins_are_cut(t);
        let (i, j) = choose|i: int, j: int| cut_out(t, trimmed(t), i, j);
        blank_in_front(s, trimmed(t), i, j);
        assert(cut_out(s, trimmed(s), i + 1, j + 1));
    } else if s.len() > 0 && is_blank_spec(s.last()) {
        let t = s.drop_last();
        only_margins_are_cut(t);
        let (i, j) = choose|i: int, j: int| cut_out(t, trimmed(t), i, j);
        blank_behind(s, trimmed(t), i, j);
        assert(cut_out(s, trimmed(s), i, j));
    } else {
        assert(s.subrange(0, s.len() as int) =~= s);
        assert(cut_out(s, trimmed(s), 0, s.len() as int));
    }
}

proof fn blank_in_front(s: Seq<char>, t: Seq<char>, i: int, j: int)
    requires
        s.len() > 0,
        is_blank_spec(s[0]),
        cut_out(s.drop_first(), t, i, j),
    ensures
        cut_out(s, t, i + 1, j + 1),
{
    let r = s.drop_first();
    assert(r.subrange(i, j) =~= s.subrange(i + 1, j + 1));
    assert forall|k: int| 0 <= k < i + 1 implies is_blank_spec(#[trigger] s[k]) by {
        if k > 0 {
            assert(r[k - 1] == s[k]);
        }
    }
    assert forall|k: int| j + 1 <= k < s.len() implies is_blank_spec(#[trigger] s[k]) by {
        assert(r[k - 1] == s[k]);
    }
}

proof fn blank_behind(s: Seq<char>, t: Seq<char>, i: int, j: int)
    requires
        s.len() > 0,
        is_blank_spec(s.last()),
        cut_out(s.drop_last(), t, i, j),
    ensures
        cut_out(s, t, i, j),
{
    let r = s.drop_last();
    assert(r.subrange(i, j) =~= s.subrange(i, j));
    assert forall|k: int| 0 <= k < i implies is_blank_spec(#[trigger] s[k]) by {
        assert(r[k] == s[k]);
    }
    assert forall|k: int| j <= k < s.len() implies is_blank_spec(#[trigger] s[k]) by {
        if k < r.len() {
            assert(r[k] == s[k]);
        }
    }
}

/// The next token starts at the first character that is no blank; a newline is
/// one only inside brackets.
pub proof fn blanks_between_tokens_are_passed(text: Seq<char>, p: int, e: int, in_brackets: bool)
    requires
        0 <= p <= e <= text.len(),
        forall|i: int|
            p <= i < e ==> #[trigger] text[i] == ' ' || text[i] == '\t' || text[i] == '\r' || (
            in_brackets && text[i] == '\n'),
        e < text.len() ==> text[e] != ' ' && text[e] != '\t' && text[e] != '\r' && !(in_brackets
            && text[e] == '\n'),
    ensures
        token_start(text, p, in_brackets) == e,
    decreases e - p,
{
    let skip = |c: char| separates(c, in_brackets);
    if p < e {
        assert(skip(text[p]));
        blanks_between_tokens_are_passed(text, p + 1, e, in_brackets);
    }
}

} // verus!
