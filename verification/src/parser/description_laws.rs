//! How tokens are described.

use crate::lexer::token_laws::{
    delimiters_read_as_themselves, pairs_read_as_one, reads_as,
    single_operators_read_as_themselves,
};
use crate::lexer::TokenType;
use crate::parser::describe::describe;
use crate::source::at;
use vstd::prelude::*;

verus! {

/// The sign that a token is written with, where it is written with one.
pub open spec fn sign(t: TokenType) -> Option<Seq<char>> {
    match t {
        TokenType::OpenBrace => Some(seq!['{']),
        TokenType::CloseBrace => Some(seq!['}']),
        TokenType::OpenParen => Some(seq!['(']),
        TokenType::CloseParen => Some(seq![')']),
        TokenType::OpenBracket => Some(seq!['[']),
        TokenType::CloseBracket => Some(seq![']']),
        TokenType::Dot => Some(seq!['.']),
        TokenType::DotDot => Some(seq!['.', '.']),
        TokenType::Comma => Some(seq![',']),
        TokenType::Colon => Some(seq![':']),
        TokenType::Eq => Some(seq!['=']),
        TokenType::Plus => Some(seq!['+']),
        TokenType::Minus => Some(seq!['-']),
        TokenType::Star => Some(seq!['*']),
        TokenType::Slash => Some(seq!['/']),
        TokenType::Percent => Some(seq!['%']),
        TokenType::Lt => Some(seq!['<']),
        TokenType::Gt => Some(seq!['>']),
        TokenType::EqEq => Some(seq!['=', '=']),
        TokenType::NotEq => Some(seq!['!', '=']),
        TokenType::Bang => Some(seq!['!']),
        TokenType::And => Some(seq!['&', '&']),
        TokenType::Or => Some(seq!['|', '|']),
        TokenType::StarStar => Some(seq!['*', '*']),
        TokenType::Le => Some(seq!['<', '=']),
        TokenType::Ge => Some(seq!['>', '=']),
        TokenType::Incr => Some(seq!['+', '+']),
        TokenType::Decr => Some(seq!['-', '-']),
        TokenType::PlusEq => Some(seq!['+', '=']),
        TokenType::MinusEq => Some(seq!['-', '=']),
        TokenType::StarEq => Some(seq!['*', '=']),
        TokenType::SlashEq => Some(seq!['/', '=']),
        TokenType::PercentEq => Some(seq!['%', '=']),
        TokenType::Ref => Some(seq!['&']),
        TokenType::Underscore => Some(seq!['_']),
        _ => None,
    }
}

/// A sign is described by itself, between quotes.
pub proof fn signs_are_described_by_themselves(t: TokenType)
    requires
        sign(t) is Some,
    ensures
        describe(t) == seq!['\''] + sign(t)->0 + seq!['\''],
{
    reveal(describe);
    reveal_strlit("'{'");
    reveal_strlit("'}'");
    reveal_strlit("'('");
    reveal_strlit("')'");
    reveal_strlit("'['");
    reveal_strlit("']'");
    reveal_strlit("'.'");
    reveal_strlit("'..'");
    reveal_strlit("','");
    reveal_strlit("':'");
    reveal_strlit("'='");
    reveal_strlit("'+'");
    reveal_strlit("'-'");
    reveal_strlit("'*'");
    reveal_strlit("'/'");
    reveal_strlit("'%'");
    reveal_strlit("'<'");
    reveal_strlit("'>'");
    reveal_strlit("'=='");
    reveal_strlit("'!='");
    reveal_strlit("'!'");
    reveal_strlit("'&&'");
    reveal_strlit("'||'");
    reveal_strlit("'**'");
    reveal_strlit("'<='");
    reveal_strlit("'>='");
    reveal_strlit("'++'");
    reveal_strlit("'--'");
    reveal_strlit("'+='");
    reveal_strlit("'-='");
    reveal_strlit("'*='");
    reveal_strlit("'/='");
    reveal_strlit("'%='");
    reveal_strlit("'&'");
    reveal_strlit("'_'");
    assert(describe(t) =~= seq!['\''] + sign(t)->0 + seq!['\'']);
}

/// The sign of a token reads as that token, where nothing follows that would
/// make another of it.
pub proof fn signs_read_as_their_tokens(t: TokenType)
    requires
        sign(t) is Some,
    ensures
        reads_as(sign(t)->0.push(' '), 0, t, sign(t)->0.len() as int),
{
    let text = sign(t)->0.push(' ');
    delimiters_read_as_themselves(text, 0);
    pairs_read_as_one(text, 0);
    single_operators_read_as_themselves(text, 0, Some(text[1]));
    assert(at(text, 1) == Some(text[1]));
}

/// A keyword is described by its word, between quotes.
pub proof fn keywords_are_described_by_their_words()
    ensures
        described_as(TokenType::Auto, "auto"@),
        described_as(TokenType::Func, "func"@),
        described_as(TokenType::Returns, "returns"@),
        described_as(TokenType::Return, "return"@),
        described_as(TokenType::Class, "class"@),
        described_as(TokenType::Interface, "interface"@),
        described_as(TokenType::Enum, "enum"@),
        described_as(TokenType::If, "if"@),
        described_as(TokenType::Else, "else"@),
        described_as(TokenType::For, "for"@),
        described_as(TokenType::While, "while"@),
        described_as(TokenType::Match, "match"@),
        described_as(TokenType::Const, "const"@),
        described_as(TokenType::Import, "import"@),
        described_as(TokenType::Break, "break"@),
        described_as(TokenType::Continue, "continue"@),
        described_as(TokenType::In, "in"@),
        described_as(TokenType::Is, "is"@),
        described_as(TokenType::As, "as"@),
        described_as(TokenType::Common, "common"@),
        described_as(TokenType::Where, "where"@),
        described_as(TokenType::NoneKeyword, "none"@),
{
    reveal(describe);
    reveal_strlit("'");
    reveal_strlit("' keyword");
    reveal_strlit("auto");
    reveal_strlit("'auto' keyword");
    assert("'auto' keyword"@ =~= "'"@ + "auto"@ + "' keyword"@);
    reveal_strlit("func");
    reveal_strlit("'func' keyword");
    assert("'func' keyword"@ =~= "'"@ + "func"@ + "' keyword"@);
    reveal_strlit("returns");
    reveal_strlit("'returns' keyword");
    assert("'returns' keyword"@ =~= "'"@ + "returns"@ + "' keyword"@);
    reveal_strlit("return");
    reveal_strlit("'return' keyword");
    assert("'return' keyword"@ =~= "'"@ + "return"@ + "' keyword"@);
    reveal_strlit("class");
    reveal_strlit("'class' keyword");
    assert("'class' keyword"@ =~= "'"@ + "class"@ + "' keyword"@);
    reveal_strlit("interface");
    reveal_strlit("'interface' keyword");
    assert("'interface' keyword"@ =~= "'"@ + "interface"@ + "' keyword"@);
    reveal_strlit("enum");
    reveal_strlit("'enum' keyword");
    assert("'enum' keyword"@ =~= "'"@ + "enum"@ + "' keyword"@);
    reveal_strlit("if");
    reveal_strlit("'if' keyword");
    assert("'if' keyword"@ =~= "'"@ + "if"@ + "' keyword"@);
    reveal_strlit("else");
    reveal_strlit("'else' keyword");
    assert("'else' keyword"@ =~= "'"@ + "else"@ + "' keyword"@);
    reveal_strlit("for");
    reveal_strlit("'for' keyword");
    assert("'for' keyword"@ =~= "'"@ + "for"@ + "' keyword"@);
    reveal_strlit("while");
    reveal_strlit("'while' keyword");
    assert("'while' keyword"@ =~= "'"@ + "while"@ + "' keyword"@);
    reveal_strlit("match");
    reveal_strlit("'match' keyword");
    assert("'match' keyword"@ =~= "'"@ + "match"@ + "' keyword"@);
    reveal_strlit("const");
    reveal_strlit("'const' keyword");
    assert("'const' keyword"@ =~= "'"@ + "const"@ + "' keyword"@);
    reveal_strlit("import");
    reveal_strlit("'import' keyword");
    assert("'import' keyword"@ =~= "'"@ + "import"@ + "' keyword"@);
    reveal_strlit("break");
    reveal_strlit("'break' keyword");
    assert("'break' keyword"@ =~= "'"@ + "break"@ + "' keyword"@);
    reveal_strlit("continue");
    reveal_strlit("'continue' keyword");
    assert("'continue' keyword"@ =~= "'"@ + "continue"@ + "' keyword"@);
    reveal_strlit("in");
    reveal_strlit("'in' keyword");
    assert("'in' keyword"@ =~= "'"@ + "in"@ + "' keyword"@);
    reveal_strlit("is");
    reveal_strlit("'is' keyword");
    assert("'is' keyword"@ =~= "'"@ + "is"@ + "' keyword"@);
    reveal_strlit("as");
    reveal_strlit("'as' keyword");
    assert("'as' keyword"@ =~= "'"@ + "as"@ + "' keyword"@);
    reveal_strlit("common");
    reveal_strlit("'common' keyword");
    assert("'common' keyword"@ =~= "'"@ + "common"@ + "' keyword"@);
    reveal_strlit("where");
    reveal_strlit("'where' keyword");
    assert("'where' keyword"@ =~= "'"@ + "where"@ + "' keyword"@);
    reveal_strlit("none");
    reveal_strlit("'none' keyword");
    assert("'none' keyword"@ =~= "'"@ + "none"@ + "' keyword"@);
}

/// A keyword is described by a word.
pub open spec fn described_as(t: TokenType, w: Seq<char>) -> bool {
    describe(t) == "'"@ + w + "' keyword"@
}

} // verus!
