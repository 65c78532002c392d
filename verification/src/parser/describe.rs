//! Token types: comparison and description.

use crate::lexer::token::TokenType;
use crate::text::{cat, decimal, push_decimal, same};
use vstd::prelude::*;

verus! {

/// The number of a token type among all token types.
pub open spec fn tag_spec(t: TokenType) -> u8 {
    match t {
        TokenType::Auto => 0,
        TokenType::Func => 1,
        TokenType::Returns => 2,
        TokenType::Return => 3,
        TokenType::If => 4,
        TokenType::Else => 5,
        TokenType::For => 6,
        TokenType::While => 7,
        TokenType::Match => 8,
        TokenType::Const => 9,
        TokenType::Class => 10,
        TokenType::Interface => 11,
        TokenType::Enum => 12,
        TokenType::Import => 13,
        TokenType::Is => 14,
        TokenType::As => 15,
        TokenType::In => 16,
        TokenType::Break => 17,
        TokenType::Continue => 18,
        TokenType::NoneKeyword => 19,
        TokenType::Common => 20,
        TokenType::Where => 21,
        TokenType::OpenParen => 22,
        TokenType::CloseParen => 23,
        TokenType::OpenBrace => 24,
        TokenType::CloseBrace => 25,
        TokenType::OpenBracket => 26,
        TokenType::CloseBracket => 27,
        TokenType::Dot => 28,
        TokenType::DotDot => 29,
        TokenType::Comma => 30,
        TokenType::Colon => 31,
        TokenType::Eq => 32,
        TokenType::Plus => 33,
        TokenType::Minus => 34,
        TokenType::Star => 35,
        TokenType::StarStar => 36,
        TokenType::Slash => 37,
        TokenType::Percent => 38,
        TokenType::Lt => 39,
        TokenType::Gt => 40,
        TokenType::Le => 41,
        TokenType::Ge => 42,
        TokenType::EqEq => 43,
        TokenType::NotEq => 44,
        TokenType::Bang => 45,
        TokenType::Incr => 46,
        TokenType::Decr => 47,
        TokenType::PlusEq => 48,
        TokenType::MinusEq => 49,
        TokenType::StarEq => 50,
        TokenType::SlashEq => 51,
        TokenType::PercentEq => 52,
        TokenType::And => 53,
        TokenType::Or => 54,
        TokenType::Ref => 55,
        TokenType::Int(_) => 56,
        TokenType::Float(_) => 57,
        TokenType::Bool(_) => 58,
        TokenType::Char(_) => 59,
        TokenType::Str(_) => 60,
        TokenType::Underscore => 61,
        TokenType::Id(_) => 62,
        TokenType::Eof => 63,
        TokenType::NewLine => 64,
        TokenType::LineComment(_) => 65,
        TokenType::MultilineComment(_) => 66,
    }
}

fn tag(t: &TokenType) -> (r: u8)
    ensures
        r == tag_spec(*t),
{
    match t {
        TokenType::Auto => 0,
        TokenType::Func => 1,
        TokenType::Returns => 2,
        TokenType::Return => 3,
        TokenType::If => 4,
        TokenType::Else => 5,
        TokenType::For => 6,
        TokenType::While => 7,
        TokenType::Match => 8,
        TokenType::Const => 9,
        TokenType::Class => 10,
        TokenType::Interface => 11,
        TokenType::Enum => 12,
        TokenType::Import => 13,
        TokenType::Is => 14,
        TokenType::As => 15,
        TokenType::In => 16,
        TokenType::Break => 17,
        TokenType::Continue => 18,
        TokenType::NoneKeyword => 19,
        TokenType::Common => 20,
        TokenType::Where => 21,
        TokenType::OpenParen => 22,
        TokenType::CloseParen => 23,
        TokenType::OpenBrace => 24,
        TokenType::CloseBrace => 25,
        TokenType::OpenBracket => 26,
        TokenType::CloseBracket => 27,
        TokenType::Dot => 28,
        TokenType::DotDot => 29,
        TokenType::Comma => 30,
        TokenType::Colon => 31,
        TokenType::Eq => 32,
        TokenType::Plus => 33,
        TokenType::Minus => 34,
        TokenType::Star => 35,
        TokenType::StarStar => 36,
        TokenType::Slash => 37,
        TokenType::Percent => 38,
        TokenType::Lt => 39,
        TokenType::Gt => 40,
        TokenType::Le => 41,
        TokenType::Ge => 42,
        TokenType::EqEq => 43,
        TokenType::NotEq => 44,
        TokenType::Bang => 45,
        TokenType::Incr => 46,
        TokenType::Decr => 47,
        TokenType::PlusEq => 48,
        TokenType::MinusEq => 49,
        TokenType::StarEq => 50,
        TokenType::SlashEq => 51,
        TokenType::PercentEq => 52,
        TokenType::And => 53,
        TokenType::Or => 54,
        TokenType::Ref => 55,
        TokenType::Int(_) => 56,
        TokenType::Float(_) => 57,
        TokenType::Bool(_) => 58,
        TokenType::Char(_) => 59,
        TokenType::Str(_) => 60,
        TokenType::Underscore => 61,
        TokenType::Id(_) => 62,
        TokenType::Eof => 63,
        TokenType::NewLine => 64,
        TokenType::LineComment(_) => 65,
        TokenType::MultilineComment(_) => 66,
    }
}

/// Whether two token types are the same, what they carry included.
pub fn same_type(a: &TokenType, b: &TokenType) -> (r: bool)
    ensures
        r == (a@ == b@),
{
    match (a, b) {
        (TokenType::Int(x), TokenType::Int(y)) => *x == *y,
        (TokenType::Float(x), TokenType::Float(y)) => same(x.text.as_str(), y.text.as_str()),
        (TokenType::Bool(x), TokenType::Bool(y)) => *x == *y,
        (TokenType::Char(x), TokenType::Char(y)) => *x == *y,
        (TokenType::Str(x), TokenType::Str(y)) => same(x.as_str(), y.as_str()),
        (TokenType::Id(x), TokenType::Id(y)) => same(x.as_str(), y.as_str()),
        (TokenType::LineComment(x), TokenType::LineComment(y)) => same(x.as_str(), y.as_str()),
        (TokenType::MultilineComment(x), TokenType::MultilineComment(y)) => same(
            x.as_str(),
            y.as_str(),
        ),
        _ => tag(a) == tag(b),
    }
}

/// A token type that the parser leaves out.
pub open spec fn is_comment_spec(t: &TokenType) -> bool {
    t is LineComment || t is MultilineComment
}

#[verifier::when_used_as_spec(is_comment_spec)]
pub fn is_comment(t: &TokenType) -> (r: bool)
    ensures
        r == is_comment_spec(t),
{
    match t {
        TokenType::LineComment(_) | TokenType::MultilineComment(_) => true,
        _ => false,
    }
}

/// The decimal notation of a signed number.
pub open spec fn signed_decimal(n: i64) -> Seq<char> {
    if n < 0 {
        seq!['-'] + decimal(-(n as int) as nat)
    } else {
        decimal(n as nat)
    }
}

pub fn signed_string(n: i64) -> (r: String)
    ensures
        r@ == signed_decimal(n),
{
    let mut out = String::new();
    if n < 0 {
        out.push('-');
        let magnitude: u64 = (-(n as i128)) as u64;
        push_decimal(&mut out, magnitude);
        assert(out@ =~= signed_decimal(n));
    } else {
        push_decimal(&mut out, n as u64);
        assert(out@ =~= signed_decimal(n));
    }
    out
}

/// A piece of text between an opening and a closing text.
pub open spec fn quoted(front: Seq<char>, inner: Seq<char>, back: Seq<char>) -> Seq<char> {
    front + inner + back
}

fn quote(front: &str, inner: &str, back: &str) -> (r: String)
    ensures
        r@ == quoted(front@, inner@, back@),
{
    let mut out = cat(front, inner);
    out.append(back);
    out
}

/// How an error message names a token type. Comments never reach the parser.
#[verifier::opaque]
pub open spec fn describe(t: TokenType) -> Seq<char> {
    match t {
        TokenType::Auto => "'auto' keyword"@,
        TokenType::Func => "'func' keyword"@,
        TokenType::Returns => "'returns' keyword"@,
        TokenType::Return => "'return' keyword"@,
        TokenType::Class => "'class' keyword"@,
        TokenType::Interface => "'interface' keyword"@,
        TokenType::Enum => "'enum' keyword"@,
        TokenType::If => "'if' keyword"@,
        TokenType::Else => "'else' keyword"@,
        TokenType::For => "'for' keyword"@,
        TokenType::While => "'while' keyword"@,
        TokenType::Match => "'match' keyword"@,
        TokenType::Const => "'const' keyword"@,
        TokenType::Import => "'import' keyword"@,
        TokenType::Break => "'break' keyword"@,
        TokenType::Continue => "'continue' keyword"@,
        TokenType::In => "'in' keyword"@,
        TokenType::Is => "'is' keyword"@,
        TokenType::As => "'as' keyword"@,
        TokenType::Common => "'common' keyword"@,
        TokenType::Where => "'where' keyword"@,
        TokenType::NoneKeyword => "'none' keyword"@,
        TokenType::OpenBrace => "'{'"@,
        TokenType::CloseBrace => "'}'"@,
        TokenType::OpenParen => "'('"@,
        TokenType::CloseParen => "')'"@,
        TokenType::OpenBracket => "'['"@,
        TokenType::CloseBracket => "']'"@,
        TokenType::Dot => "'.'"@,
        TokenType::DotDot => "'..'"@,
        TokenType::Comma => "','"@,
        TokenType::Colon => "':'"@,
        TokenType::Eq => "'='"@,
        TokenType::Plus => "'+'"@,
        TokenType::Minus => "'-'"@,
        TokenType::Star => "'*'"@,
        TokenType::Slash => "'/'"@,
        TokenType::Percent => "'%'"@,
        TokenType::Lt => "'<'"@,
        TokenType::Gt => "'>'"@,
        TokenType::EqEq => "'=='"@,
        TokenType::NotEq => "'!='"@,
        TokenType::Bang => "'!'"@,
        TokenType::And => "'&&'"@,
        TokenType::Or => "'||'"@,
        TokenType::Eof => "end of file"@,
        TokenType::NewLine => "newline"@,
        TokenType::StarStar => "'**'"@,
        TokenType::Le => "'<='"@,
        TokenType::Ge => "'>='"@,
        TokenType::Incr => "'++'"@,
        TokenType::Decr => "'--'"@,
        TokenType::PlusEq => "'+='"@,
        TokenType::MinusEq => "'-='"@,
        TokenType::StarEq => "'*='"@,
        TokenType::SlashEq => "'/='"@,
        TokenType::PercentEq => "'%='"@,
        TokenType::Ref => "'&'"@,
        TokenType::Underscore => "'_'"@,
        TokenType::Id(name) => quoted("identifier '"@, name@, "'"@),
        TokenType::Int(n) => quoted("integer literal '"@, signed_decimal(n), "'"@),
        TokenType::Float(f) => quoted("float literal '"@, f.text@, "'"@),
        TokenType::Str(s) => quoted("string literal \""@, s@, "\""@),
        TokenType::Bool(b) => if b {
            "boolean literal 'true'"@
        } else {
            "boolean literal 'false'"@
        },
        TokenType::Char(c) => quoted("character literal '"@, seq![c], "'"@),
        TokenType::LineComment(_) | TokenType::MultilineComment(_) => seq![],
    }
}

/// A human-readable description of a token type for error messages.
pub fn describe_token(token_type: &TokenType) -> (r: String)
    requires
        !is_comment(token_type),
    ensures
        r@ == describe(*token_type),
{
    proof {
        reveal(describe);
    }
    match token_type {
        TokenType::Auto => "'auto' keyword".to_owned(),
        TokenType::Func => "'func' keyword".to_owned(),
        TokenType::Returns => "'returns' keyword".to_owned(),
        TokenType::Return => "'return' keyword".to_owned(),
        TokenType::Class => "'class' keyword".to_owned(),
        TokenType::Interface => "'interface' keyword".to_owned(),
        TokenType::Enum => "'enum' keyword".to_owned(),
        TokenType::If => "'if' keyword".to_owned(),
        TokenType::Else => "'else' keyword".to_owned(),
        TokenType::For => "'for' keyword".to_owned(),
        TokenType::While => "'while' keyword".to_owned(),
        TokenType::Match => "'match' keyword".to_owned(),
        TokenType::Const => "'const' keyword".to_owned(),
        TokenType::Import => "'import' keyword".to_owned(),
        TokenType::Break => "'break' keyword".to_owned(),
        TokenType::Continue => "'continue' keyword".to_owned(),
        TokenType::In => "'in' keyword".to_owned(),
        TokenType::Is => "'is' keyword".to_owned(),
        TokenType::As => "'as' keyword".to_owned(),
        TokenType::Common => "'common' keyword".to_owned(),
        TokenType::Where => "'where' keyword".to_owned(),
        TokenType::NoneKeyword => "'none' keyword".to_owned(),
        TokenType::OpenBrace => "'{'".to_owned(),
        TokenType::CloseBrace => "'}'".to_owned(),
        TokenType::OpenParen => "'('".to_owned(),
        TokenType::CloseParen => "')'".to_owned(),
        TokenType::OpenBracket => "'['".to_owned(),
        TokenType::CloseBracket => "']'".to_owned(),
        TokenType::Dot => "'.'".to_owned(),
        TokenType::DotDot => "'..'".to_owned(),
        TokenType::Comma => "','".to_owned(),
        TokenType::Colon => "':'".to_owned(),
        TokenType::Eq => "'='".to_owned(),
        TokenType::Plus => "'+'".to_owned(),
        TokenType::Minus => "'-'".to_owned(),
        TokenType::Star => "'*'".to_owned(),
        TokenType::Slash => "'/'".to_owned(),
        TokenType::Percent => "'%'".to_owned(),
        TokenType::Lt => "'<'".to_owned(),
        TokenType::Gt => "'>'".to_owned(),
        TokenType::EqEq => "'=='".to_owned(),
        TokenType::NotEq => "'!='".to_owned(),
        TokenType::Bang => "'!'".to_owned(),
        TokenType::And => "'&&'".to_owned(),
        TokenType::Or => "'||'".to_owned(),
        TokenType::Eof => "end of file".to_owned(),
        TokenType::NewLine => "newline".to_owned(),
        TokenType::StarStar => "'**'".to_owned(),
        TokenType::Le => "'<='".to_owned(),
        TokenType::Ge => "'>='".to_owned(),
        TokenType::Incr => "'++'".to_owned(),
        TokenType::Decr => "'--'".to_owned(),
        TokenType::PlusEq => "'+='".to_owned(),
        TokenType::MinusEq => "'-='".to_owned(),
        TokenType::StarEq => "'*='".to_owned(),
        TokenType::SlashEq => "'/='".to_owned(),
        TokenType::PercentEq => "'%='".to_owned(),
        TokenType::Ref => "'&'".to_owned(),
        TokenType::Underscore => "'_'".to_owned(),
        TokenType::Id(name) => quote("identifier '", name.as_str(), "'"),
        TokenType::Int(n) => quote("integer literal '", signed_string(*n).as_str(), "'"),
        TokenType::Float(f) => quote("float literal '", f.text.as_str(), "'"),
        TokenType::Str(s) => quote("string literal \"", s.as_str(), "\""),
        TokenType::Bool(b) => if *b {
            "boolean literal 'true'".to_owned()
        } else {
            "boolean literal 'false'".to_owned()
        },
        TokenType::Char(c) => {
            let mut one = String::new();
            one.push(*c);
            assert(one@ =~= seq![*c]);
            quote("character literal '", one.as_str(), "'")
        },
        TokenType::LineComment(_) | TokenType::MultilineComment(_) => String::new(),
    }
}

} // verus!
