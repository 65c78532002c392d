//! What operators, type names and joined spans are.

use crate::ast::operators::{combine_spec, BinaryOp, Precedence, PrimitiveType, UnaryOp};
use crate::lexer::token_laws::{keywords_read_as_themselves, pairs_read_as_one, reads_as,
    single_operators_read_as_themselves, stands_at};
use crate::lexer::{Span, TokenType};
use crate::source::at;
use vstd::prelude::*;

verus! {

/// How a primitive type is written.
pub open spec fn type_word(p: PrimitiveType) -> Seq<char> {
    match p {
        PrimitiveType::Int => "int"@,
        PrimitiveType::Float => "float"@,
        PrimitiveType::Bool => "bool"@,
        PrimitiveType::Char => "char"@,
        PrimitiveType::Str => "string"@,
        PrimitiveType::Void => "void"@,
        PrimitiveType::Auto => "auto"@,
    }
}

/// A word names a primitive type where it is how that type is written, and only
/// there. What `auto` stands for is inferred, so the word names no type.
pub proof fn types_are_named_by_their_words(word: Seq<char>, p: PrimitiveType)
    ensures
        PrimitiveType::named(word) == Some(p) <==> word == type_word(p) && !(p is Auto),
{
    reveal_strlit("int");
    reveal_strlit("float");
    reveal_strlit("bool");
    reveal_strlit("char");
    reveal_strlit("string");
    reveal_strlit("void");
    assert("int"@.len() == 3);
    assert("float"@.len() == 5);
    assert("string"@.len() == 6);
    assert("bool"@.len() == 4 && "bool"@[0] == 'b');
    assert("char"@.len() == 4 && "char"@[0] == 'c');
    assert("void"@.len() == 4 && "void"@[0] == 'v');
}

/// A joined span starts where the first starts and ends where the last ends; a
/// span without an end ends where it starts.
pub proof fn joined_span_reaches_from_first_to_last(first: Span, last: Span)
    ensures
        ({
            let r = combine_spec(first, last);
            &&& r.row_start == first.row_start
            &&& r.col_start == first.col_start
            &&& r.row_end is Some && r.col_end is Some
            &&& (last.row_end is Some ==> r.row_end == last.row_end)
            &&& (last.col_end is Some ==> r.col_end == last.col_end)
            &&& (last.row_end is None ==> r.row_end == Some(last.row_start))
            &&& (last.col_end is None ==> r.col_end == Some(last.col_start))
        }),
{
}

/// Joining is associative: how the spans between are grouped does not matter.
pub proof fn joining_is_associative(a: Span, b: Span, c: Span)
    ensures
        combine_spec(combine_spec(a, b), c) == combine_spec(a, combine_spec(b, c)),
{
}

/// The next tighter precedence is the next one: nothing lies between, and every
/// precedence but the tightest has one.
pub proof fn next_precedence_is_the_next(p: Precedence, q: Precedence)
    requires
        !(p is Primary),
    ensures
        p.rank_spec() < p.next_higher().rank_spec(),
        p.rank_spec() < q.rank_spec() ==> p.next_higher().rank_spec() <= q.rank_spec(),
        p.rank_spec() == q.rank_spec() ==> p == q,
{
}

/// Precedences from the loosest to the tightest.
pub proof fn precedences_rise()
    ensures
        ({
            let r = |p: Precedence| p.rank_spec();
            &&& r(Precedence::Assignment) < r(Precedence::Or)
            &&& r(Precedence::Or) < r(Precedence::And)
            &&& r(Precedence::And) < r(Precedence::Equality)
            &&& r(Precedence::Equality) < r(Precedence::Comparison)
            &&& r(Precedence::Comparison) < r(Precedence::Term)
            &&& r(Precedence::Term) < r(Precedence::Factor)
            &&& r(Precedence::Factor) < r(Precedence::Exponent)
            &&& r(Precedence::Exponent) < r(Precedence::Unary)
            &&& r(Precedence::Unary) < r(Precedence::Call)
            &&& r(Precedence::Call) < r(Precedence::Primary)
        }),
{
}

/// Whether the text at `p` is read as a token that stands for a prefix operator.
pub open spec fn reads_as_prefix(text: Seq<char>, p: int, op: UnaryOp) -> bool {
    exists|kind: TokenType, n: int|
        #[trigger] reads_as(text, p, kind, n) && UnaryOp::of(kind) == Some(op)
}

/// A minus in front of an operand is read as a negation, an exclamation mark as
/// a denial, an ampersand as a reference, a star as a dereference, and doubled
/// signs as updates.
pub proof fn prefix_operators_are_read(text: Seq<char>, p: int, next: Option<char>)
    requires
        0 <= p < text.len(),
        next == at(text, p + 1),
    ensures
        text[p] == '-' && next == Some(' ') ==> reads_as_prefix(text, p, UnaryOp::Neg),
        text[p] == '!' && next != Some('=') ==> reads_as_prefix(text, p, UnaryOp::Not),
        text[p] == '&' && next != Some('&') ==> reads_as_prefix(text, p, UnaryOp::Ref),
        text[p] == '*' && next != Some('*') && next != Some('=') ==> reads_as_prefix(
            text,
            p,
            UnaryOp::Deref,
        ),
        text[p] == '+' && next == Some('+') ==> reads_as_prefix(text, p, UnaryOp::Incr),
        text[p] == '-' && next == Some('-') ==> reads_as_prefix(text, p, UnaryOp::Decr),
{
    single_operators_read_as_themselves(text, p, next);
    if p + 1 < text.len() {
        pairs_read_as_one(text, p);
    }
    assert(UnaryOp::of(TokenType::Minus) == Some(UnaryOp::Neg));
    assert(UnaryOp::of(TokenType::Bang) == Some(UnaryOp::Not));
    assert(UnaryOp::of(TokenType::Ref) == Some(UnaryOp::Ref));
    assert(UnaryOp::of(TokenType::Star) == Some(UnaryOp::Deref));
    assert(UnaryOp::of(TokenType::Incr) == Some(UnaryOp::Incr));
    assert(UnaryOp::of(TokenType::Decr) == Some(UnaryOp::Decr));
}

/// Whether the text at `p` is read as a token that stands for a binary operator.
pub open spec fn reads_as_binary(text: Seq<char>, p: int, op: BinaryOp) -> bool {
    exists|kind: TokenType, n: int|
        #[trigger] reads_as(text, p, kind, n) && BinaryOp::of(kind) == Some(op)
}

/// Doubled signs and signs with `=` are read as the operators that they write.
pub proof fn paired_operators_are_read(text: Seq<char>, p: int)
    requires
        0 <= p,
        p + 1 < text.len(),
    ensures
        text[p] == '*' && text[p + 1] == '*' ==> reads_as_binary(text, p, BinaryOp::Exponent),
        text[p] == '=' && text[p + 1] == '=' ==> reads_as_binary(text, p, BinaryOp::Equal),
        text[p] == '!' && text[p + 1] == '=' ==> reads_as_binary(text, p, BinaryOp::NotEqual),
        text[p] == '<' && text[p + 1] == '=' ==> reads_as_binary(text, p, BinaryOp::LessEqual),
        text[p] == '>' && text[p + 1] == '=' ==> reads_as_binary(text, p, BinaryOp::GreaterEqual),
        text[p] == '&' && text[p + 1] == '&' ==> reads_as_binary(text, p, BinaryOp::LogicalAnd),
        text[p] == '|' && text[p + 1] == '|' ==> reads_as_binary(text, p, BinaryOp::LogicalOr),
        text[p] == '+' && text[p + 1] == '=' ==> reads_as_binary(text, p, BinaryOp::AddAssign),
        text[p] == '-' && text[p + 1] == '=' ==> reads_as_binary(text, p, BinaryOp::SubtractAssign),
        text[p] == '*' && text[p + 1] == '=' ==> reads_as_binary(text, p, BinaryOp::MultiplyAssign),
        text[p] == '/' && text[p + 1] == '=' ==> reads_as_binary(text, p, BinaryOp::DivideAssign),
        text[p] == '%' && text[p + 1] == '=' ==> reads_as_binary(text, p, BinaryOp::ModuloAssign),
{
    pairs_read_as_one(text, p);
    assert(BinaryOp::of(TokenType::StarStar) == Some(BinaryOp::Exponent));
    assert(BinaryOp::of(TokenType::EqEq) == Some(BinaryOp::Equal));
    assert(BinaryOp::of(TokenType::NotEq) == Some(BinaryOp::NotEqual));
    assert(BinaryOp::of(TokenType::Le) == Some(BinaryOp::LessEqual));
    assert(BinaryOp::of(TokenType::Ge) == Some(BinaryOp::GreaterEqual));
    assert(BinaryOp::of(TokenType::And) == Some(BinaryOp::LogicalAnd));
    assert(BinaryOp::of(TokenType::Or) == Some(BinaryOp::LogicalOr));
    assert(BinaryOp::of(TokenType::PlusEq) == Some(BinaryOp::AddAssign));
    assert(BinaryOp::of(TokenType::MinusEq) == Some(BinaryOp::SubtractAssign));
    assert(BinaryOp::of(TokenType::StarEq) == Some(BinaryOp::MultiplyAssign));
    assert(BinaryOp::of(TokenType::SlashEq) == Some(BinaryOp::DivideAssign));
    assert(BinaryOp::of(TokenType::PercentEq) == Some(BinaryOp::ModuloAssign));
}

/// Signs on their own are read as the operators that they write.
pub proof fn single_operators_are_read(text: Seq<char>, p: int)
    requires
        0 <= p,
        p + 1 < text.len(),
        text[p + 1] == ' ',
    ensures
        text[p] == '+' ==> reads_as_binary(text, p, BinaryOp::Add),
        text[p] == '-' ==> reads_as_binary(text, p, BinaryOp::Subtract),
        text[p] == '*' ==> reads_as_binary(text, p, BinaryOp::Multiply),
        text[p] == '/' ==> reads_as_binary(text, p, BinaryOp::Divide),
        text[p] == '%' ==> reads_as_binary(text, p, BinaryOp::Modulo),
        text[p] == '=' ==> reads_as_binary(text, p, BinaryOp::Assign),
        text[p] == '<' ==> reads_as_binary(text, p, BinaryOp::Less),
        text[p] == '>' ==> reads_as_binary(text, p, BinaryOp::Greater),
{
    single_operators_read_as_themselves(text, p, Some(' '));
    assert(BinaryOp::of(TokenType::Plus) == Some(BinaryOp::Add));
    assert(BinaryOp::of(TokenType::Minus) == Some(BinaryOp::Subtract));
    assert(BinaryOp::of(TokenType::Star) == Some(BinaryOp::Multiply));
    assert(BinaryOp::of(TokenType::Slash) == Some(BinaryOp::Divide));
    assert(BinaryOp::of(TokenType::Percent) == Some(BinaryOp::Modulo));
    assert(BinaryOp::of(TokenType::Eq) == Some(BinaryOp::Assign));
    assert(BinaryOp::of(TokenType::Lt) == Some(BinaryOp::Less));
    assert(BinaryOp::of(TokenType::Gt) == Some(BinaryOp::Greater));
}

/// The word `in` is read as the test of membership.
pub proof fn membership_is_read(text: Seq<char>, p: int)
    requires
        stands_at(text, p, "in"@),
    ensures
        reads_as_binary(text, p, BinaryOp::In),
{
    keywords_read_as_themselves(text, p);
    assert(BinaryOp::of(TokenType::In) == Some(BinaryOp::In));
}

} // verus!
