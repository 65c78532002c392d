//! Parsing types, patterns and imports.

use crate::ast::nodes::{
    ImportItem, ImportSpec, LiteralNode, PatternNode, StatementKind, StatementNode, TraitBound,
    TraitRef, TypeKind, TypeNode, TypeParam,
};
use crate::ast::operators::{combine, PrimitiveType};
use crate::ast::tree::{
    import_items_of, patterns_of, trait_bounds_of, trait_refs_of, type_params_of, types_of,
    PatternTree,
};
use crate::diagnostic::DiagnosticCode;
use crate::lexer::{FloatLiteral, Span, Token, TokenType};
use crate::parser::cursor::{step, went, Parser};
use crate::parser::error::{ParserError, ParserResult};
use crate::parser::state::tok;
use crate::parser::type_grammar::{
    bounds_in, container_type, fn_type_params, fn_type_params_from, import_alias,
    import_declaration, import_items, import_items_from, import_path, import_spec, last_segment,
    list_pattern, list_pattern_from, named_type, optional_type_args, path_from, path_prefix,
    pattern, pattern_args, pattern_args_from, qualified_name, trait_bounds, trait_bounds_from,
    trait_list, trait_list_from, ty, type_args, type_params, type_params_from, Bounds,
};
use crate::text::{chars_of, same, string_of};
use vstd::prelude::*;

verus! {

broadcast use crate::ast::tree::tree_shapes;

/// The part of a dotted path behind its last dot.
pub fn last_path_segment(path: &str) -> (r: String)
    ensures
        r@ == last_segment(path@),
{
    let chars = chars_of(path);
    let mut from: usize = chars.len();
    assert(chars@.take(chars@.len() as int) =~= chars@);
    assert(chars@.skip(chars@.len() as int) =~= seq![]);
    assert(last_segment(path@) + seq![] =~= last_segment(path@));
    while from > 0 && chars[from - 1] != '.'
        invariant
            from <= chars@.len(),
            chars@ == path@,
            last_segment(path@) == last_segment(chars@.take(from as int)) + chars@.skip(
                from as int,
            ),
        decreases from,
    {
        proof {
            let t = chars@.take(from as int);
            assert(t.drop_last() =~= chars@.take(from - 1));
            assert(last_segment(t.drop_last()).push(t.last()) + chars@.skip(from as int)
                =~= last_segment(t.drop_last()) + chars@.skip(from - 1));
        }
        from -= 1;
    }
    assert(Seq::<char>::empty() + chars@.skip(from as int) =~= chars@.skip(from as int));
    let r = string_of(&chars, from, chars.len());
    assert(r@ =~= chars@.skip(from as int));
    r
}

impl<'a> Parser<'a> {
    /// A type.
    pub fn parse_type(&mut self) -> (r: ParserResult<TypeNode>)
        requires
            old(self).wf(),
        ensures
            went(*old(self), *final(self)),
            r is Ok ==> old(self).current < final(self).current,
            step(final(self).st(), r, |t: TypeNode| t.tree()) == ty(old(self).tokens@, old(self).st()),
        decreases old(self).tokens@.len() - old(self).current, 0int,
    {
        proof {
            reveal(ty);
            reveal(fn_type_params);
            reveal(named_type);
        }
        if self.take(TokenType::Ref) {
            let start_span = self.previous().span;
            let inner = match self.parse_type() {
                Ok(v) => v,
                Err(e) => {
                    return Err(e);
                },
            };
            let end_span = self.previous().span;
            let span = Span {
                row_start: start_span.row_start,
                row_end: end_span.row_end,
                col_start: start_span.col_start,
                col_end: end_span.col_end,
            };
            return Ok(TypeNode { kind: TypeKind::Reference(Box::new(inner)), span });
        }
        if self.is_at_end() {
            return Err(
                ParserError::from_token(
                    DiagnosticCode::ParseExpectedType,
                    "Expected type",
                    self.peek(),
                ),
            );
        }
        let token = self.tokens[self.current];
        let start_span = token.span;
        self.current += 1;
        match &token.token_type {
            TokenType::Id(name) => {
                self.parse_named_type_with_builtin_support(name.clone(), start_span)
            },
            TokenType::Func => {
                match self.consume_token(
                    TokenType::OpenParen,
                    "Expected '(' after 'func' in function type",
                ) {
                    Ok(v) => v,
                    Err(e) => {
                        return Err(e);
                    },
                };
                let params = match self.parse_function_type_params() {
                    Ok(v) => v,
                    Err(e) => {
                        return Err(e);
                    },
                };
                match self.consume_token(
                    TokenType::CloseParen,
                    "Expected ')' after parameter types",
                ) {
                    Ok(v) => v,
                    Err(e) => {
                        return Err(e);
                    },
                };
                match self.consume_token(TokenType::Returns, "Expected 'returns' in function type") {
                    Ok(v) => v,
                    Err(e) => {
                        return Err(e);
                    },
                };
                let ret = match self.parse_type() {
                    Ok(v) => v,
                    Err(e) => {
                        return Err(e);
                    },
                };
                Ok(TypeNode { kind: TypeKind::Function { params, ret: Box::new(ret) }, span: start_span })
            },
            _ => Err(
                ParserError::from_token(
                    DiagnosticCode::ParseExpectedType,
                    "Expected type",
                    token,
                ),
            ),
        }
    }

    /// The parameter types of a function type, which have no names.
    pub(crate) fn parse_function_type_params(&mut self) -> (r: ParserResult<Vec<TypeNode>>)
        requires
            old(self).wf(),
        ensures
            went(*old(self), *final(self)),
            step(final(self).st(), r, |v: Vec<TypeNode>| types_of(v@)) == fn_type_params(old(self).tokens@, old(self).st()),
        decreases old(self).tokens@.len() - old(self).current, 2int,
    {
        proof {
            reveal(fn_type_params);
            reveal(fn_type_params_from);
            reveal(ty);
        }
        let mut args: Vec<TypeNode> = Vec::new();
        if self.check(TokenType::CloseParen) {
            return Ok(args);
        }
        let ghost ts = self.tokens@;
        loop
            invariant
                went(*old(self), *self),
                ts == self.tokens@,
                fn_type_params(ts, old(self).st()) == fn_type_params_from(
                    ts,
                    self.st(),
                    types_of(args@),
                ),
            decreases ts.len() - self.current,
        {
            proof {
                reveal(fn_type_params);
                reveal(fn_type_params_from);
                reveal(ty);
            }
            let arg = match self.parse_type() {
                Ok(v) => v,
                Err(e) => {
                    return Err(e);
                },
            };
            args.push(arg);
            if !self.take(TokenType::Comma) {
                return Ok(args);
            }
            self.skip_newlines();
        }
    }

    /// A type that starts with the name `name`, which has been taken.
    pub(crate) fn parse_named_type_with_builtin_support(&mut self, name: String, start_span: Span) -> (r: ParserResult<TypeNode>)
        requires
            old(self).wf(),
        ensures
            went(*old(self), *final(self)),
            step(final(self).st(), r, |t: TypeNode| t.tree()) == named_type(old(self).tokens@, old(self).st(), name@, start_span),
        decreases old(self).tokens@.len() - old(self).current, 5int,
    {
        proof {
            reveal(named_type);
            reveal(qualified_name);
            reveal(container_type);
            reveal(optional_type_args);
        }
        let name = match self.parse_qualified_name(name) {
            Ok(v) => v,
            Err(e) => {
                return Err(e);
            },
        };
        match PrimitiveType::from_name(name.as_str()) {
            Some(prim_type) => {
                return Ok(TypeNode { kind: TypeKind::Primitive(prim_type), span: start_span });
            },
            None => {},
        }
        let container = same(name.as_str(), "list") || same(name.as_str(), "map") || same(
            name.as_str(),
            "set",
        ) || same(name.as_str(), "tuple");
        if container && self.check(TokenType::Lt) {
            return self.parse_container_type(name.as_str(), start_span);
        }
        let mut args = match self.parse_optional_type_args() {
            Ok(v) => v,
            Err(e) => {
                return Err(e);
            },
        };
        if same(name.as_str(), "dyn") && args.len() > 0 {
            let first = args.swap_remove(0);
            return Ok(TypeNode { kind: TypeKind::TraitObject(Box::new(first)), span: start_span });
        }
        Ok(TypeNode { kind: TypeKind::Named(name, args), span: start_span })
    }

    /// The rest of a module-qualified name.
    pub(crate) fn parse_qualified_name(&mut self, first: String) -> (r: ParserResult<String>)
        requires
            old(self).wf(),
        ensures
            went(*old(self), *final(self)),
            step(final(self).st(), r, |s: String| s@) == qualified_name(old(self).tokens@, old(self).st(), first@),
    {
        proof {
            reveal(qualified_name);
        }
        let mut name = first.clone();
        let ghost ts = self.tokens@;
        loop
            invariant
                went(*old(self), *self),
                ts == self.tokens@,
                qualified_name(ts, old(self).st(), first@) == qualified_name(
                    ts,
                    self.st(),
                    name@,
                ),
            decreases ts.len() - self.current,
        {
            proof {
                reveal(qualified_name);
            }
            if !self.take(TokenType::Dot) {
                return Ok(name);
            }
            let segment = match self.consume_identifier("Expected a type name after '.'") {
                Ok(v) => v,
                Err(e) => {
                    return Err(e);
                },
            };
            name.push('.');
            name.append(segment.as_str());
        }
    }

    /// A list, map, set or tuple type behind its name.
    pub(crate) fn parse_container_type(&mut self, name: &str, start_span: Span) -> (r: ParserResult<TypeNode>)
        requires
            old(self).wf(),
            tok(old(self).tokens@, old(self).current as int, TokenType::Lt),
        ensures
            went(*old(self), *final(self)),
            r is Ok ==> old(self).current < final(self).current,
            step(final(self).st(), r, |t: TypeNode| t.tree()) == container_type(old(self).tokens@, old(self).st(), name@, start_span),
        decreases old(self).tokens@.len() - old(self).current, 4int,
    {
        proof {
            reveal(container_type);
            reveal(ty);
        }
        self.take(TokenType::Lt);
        if same(name, "list") {
            let element = match self.parse_type() {
                Ok(v) => v,
                Err(e) => {
                    return Err(e);
                },
            };
            match self.consume_token(TokenType::Gt, "Expected '>' after list element type") {
                Ok(v) => v,
                Err(e) => {
                    return Err(e);
                },
            };
            Ok(TypeNode { kind: TypeKind::List(Box::new(element)), span: start_span })
        } else if same(name, "map") {
            let key = match self.parse_type() {
                Ok(v) => v,
                Err(e) => {
                    return Err(e);
                },
            };
            match self.consume_token(
                TokenType::Comma,
                "Expected ',' between key and value types in map",
            ) {
                Ok(v) => v,
                Err(e) => {
                    return Err(e);
                },
            };
            let value = match self.parse_type() {
                Ok(v) => v,
                Err(e) => {
                    return Err(e);
                },
            };
            match self.consume_token(TokenType::Gt, "Expected '>' after map value type") {
                Ok(v) => v,
                Err(e) => {
                    return Err(e);
                },
            };
            Ok(TypeNode { kind: TypeKind::MapOf(Box::new(key), Box::new(value)), span: start_span })
        } else if same(name, "set") {
            let element = match self.parse_type() {
                Ok(v) => v,
                Err(e) => {
                    return Err(e);
                },
            };
            match self.consume_token(TokenType::Gt, "Expected '>' after set element type") {
                Ok(v) => v,
                Err(e) => {
                    return Err(e);
                },
            };
            Ok(TypeNode { kind: TypeKind::SetOf(Box::new(element)), span: start_span })
        } else {
            let left = match self.parse_type() {
                Ok(v) => v,
                Err(e) => {
                    return Err(e);
                },
            };
            match self.consume_token(TokenType::Comma, "Expected ',' in tuple type") {
                Ok(v) => v,
                Err(e) => {
                    return Err(e);
                },
            };
            let right = match self.parse_type() {
                Ok(v) => v,
                Err(e) => {
                    return Err(e);
                },
            };
            match self.consume_token(TokenType::Gt, "Expected '>' after tuple type") {
                Ok(v) => v,
                Err(e) => {
                    return Err(e);
                },
            };
            Ok(TypeNode { kind: TypeKind::Tuple(Box::new(left), Box::new(right)), span: start_span })
        }
    }

    /// Type arguments in angle brackets, where there are any.
    pub(crate) fn parse_optional_type_args(&mut self) -> (r: ParserResult<Vec<TypeNode>>)
        requires
            old(self).wf(),
        ensures
            went(*old(self), *final(self)),
            step(final(self).st(), r, |v: Vec<TypeNode>| types_of(v@)) == optional_type_args(old(self).tokens@, old(self).st()),
        decreases old(self).tokens@.len() - old(self).current, 3int,
    {
        proof {
            reveal(optional_type_args);
            reveal(type_args);
        }
        if self.take(TokenType::Lt) {
            let args = match self.parse_type_arguments() {
                Ok(v) => v,
                Err(e) => {
                    return Err(e);
                },
            };
            match self.consume_token(TokenType::Gt, "Expected '>' after type arguments") {
                Ok(v) => v,
                Err(e) => {
                    return Err(e);
                },
            };
            Ok(args)
        } else {
            let args: Vec<TypeNode> = Vec::new();
            Ok(args)
        }
    }

    /// Type arguments up to the closing angle bracket.
    pub(crate) fn parse_type_arguments(&mut self) -> (r: ParserResult<Vec<TypeNode>>)
        requires
            old(self).wf(),
        ensures
            went(*old(self), *final(self)),
            step(final(self).st(), r, |v: Vec<TypeNode>| types_of(v@)) == type_args(old(self).tokens@, old(self).st(), seq![]),
        decreases old(self).tokens@.len() - old(self).current, 1int,
    {
        proof {
            reveal(type_args);
            reveal(ty);
        }
        let mut args: Vec<TypeNode> = Vec::new();
        let ghost ts = self.tokens@;
        loop
            invariant
                went(*old(self), *self),
                ts == self.tokens@,
                type_args(ts, old(self).st(), seq![]) == type_args(
                    ts,
                    self.st(),
                    types_of(args@),
                ),
            decreases ts.len() - self.current,
        {
            proof {
                reveal(type_args);
                reveal(ty);
            }
            if self.check(TokenType::Gt) || self.is_at_end() {
                return Ok(args);
            }
            let arg = match self.parse_type() {
                Ok(v) => v,
                Err(e) => {
                    return Err(e);
                },
            };
            args.push(arg);
            if !self.take(TokenType::Comma) {
                return Ok(args);
            }
            self.skip_newlines();
        }
    }

    /// Trait bounds behind `open`, with `separator` between them.
    pub(crate) fn parse_bounds_after(&mut self, open: TokenType, separator: TokenType) -> (r: ParserResult<Vec<TraitBound>>)
        requires
            old(self).wf(),
        ensures
            went(*old(self), *final(self)),
            step(final(self).st(), r, |v: Vec<TraitBound>| trait_bounds_of(v@)) == trait_bounds(old(self).tokens@, old(self).st(), open, separator),
    {
        proof {
            reveal(trait_bounds);
            reveal(trait_bounds_from);
            reveal(optional_type_args);
        }
        let mut bounds: Vec<TraitBound> = Vec::new();
        if !self.take(open) {
            return Ok(bounds);
        }
        let ghost ts = self.tokens@;
        loop
            invariant
                went(*old(self), *self),
                ts == self.tokens@,
                trait_bounds(ts, old(self).st(), open, separator) == trait_bounds_from(
                    ts,
                    self.st(),
                    separator,
                    trait_bounds_of(bounds@),
                ),
            decreases ts.len() - self.current,
        {
            proof {
                reveal(trait_bounds);
                reveal(trait_bounds_from);
                reveal(optional_type_args);
            }
            let name = match self.consume_identifier("Expected trait name in bound") {
                Ok(v) => v,
                Err(e) => {
                    return Err(e);
                },
            };
            let span = self.previous().span;
            let type_params = match self.parse_optional_type_args() {
                Ok(v) => v,
                Err(e) => {
                    return Err(e);
                },
            };
            let bound = TraitBound { name, type_params, span };
            bounds.push(bound);
            if !self.take_same(&separator) {
                return Ok(bounds);
            }
        }
    }

    /// Takes the current token if it is of type `ty`.
    pub(crate) fn take_same(&mut self, ty: &TokenType) -> (r: bool)
        requires
            old(self).wf(),
        ensures
            went(*old(self), *final(self)),
            r == tok(old(self).tokens@, old(self).current as int, *ty),
            final(self).st() == (if r {
                old(self).st().next()
            } else {
                old(self).st()
            }),
    {
        proof {
            reveal(tok);
        }
        if !self.is_at_end() && crate::parser::describe::same_type(&self.peek().token_type, ty) {
            self.current += 1;
            true
        } else {
            false
        }
    }

    /// The bounds of one type parameter.
    pub(crate) fn parse_trait_bounds(&mut self, style: Bounds) -> (r: ParserResult<Vec<TraitBound>>)
        requires
            old(self).wf(),
        ensures
            went(*old(self), *final(self)),
            step(final(self).st(), r, |v: Vec<TraitBound>| trait_bounds_of(v@)) == bounds_in(old(self).tokens@, old(self).st(), style),
    {
        proof {
            reveal(bounds_in);
        }
        match style {
            Bounds::Class | Bounds::Function => self.parse_bounds_after(
                TokenType::Is,
                TokenType::Ref,
            ),
            Bounds::Colon => self.parse_bounds_after(TokenType::Colon, TokenType::Plus),
            Bounds::Bare => {
                let bounds: Vec<TraitBound> = Vec::new();
                Ok(bounds)
            },
        }
    }

    /// Type parameters in angle brackets, where there are any.
    pub(crate) fn parse_type_params_list(&mut self, style: Bounds) -> (r: ParserResult<Vec<TypeParam>>)
        requires
            old(self).wf(),
        ensures
            went(*old(self), *final(self)),
            step(final(self).st(), r, |v: Vec<TypeParam>| type_params_of(v@)) == type_params(old(self).tokens@, old(self).st(), style),
    {
        proof {
            reveal(type_params);
            reveal(type_params_from);
        }
        let empty: Vec<TypeParam> = Vec::new();
        if !self.take(TokenType::Lt) {
            return Ok(empty);
        }
        if style != Bounds::Class && self.take(TokenType::Gt) {
            return Ok(empty);
        }
        let params = match self.parse_type_params_from(style) {
            Ok(v) => v,
            Err(e) => {
                return Err(e);
            },
        };
        match self.consume_token(TokenType::Gt, "Expected '>' after type parameters") {
            Ok(v) => v,
            Err(e) => {
                return Err(e);
            },
        };
        Ok(params)
    }

    /// Type parameters with commas between them.
    pub(crate) fn parse_type_params_from(&mut self, style: Bounds) -> (r: ParserResult<Vec<TypeParam>>)
        requires
            old(self).wf(),
        ensures
            went(*old(self), *final(self)),
            step(final(self).st(), r, |v: Vec<TypeParam>| type_params_of(v@)) == type_params_from(old(self).tokens@, old(self).st(), style, seq![]),
    {
        proof {
            reveal(type_params_from);
        }
        let mut params: Vec<TypeParam> = Vec::new();
        let ghost ts = self.tokens@;
        loop
            invariant
                went(*old(self), *self),
                ts == self.tokens@,
                type_params_from(ts, old(self).st(), style, seq![]) == type_params_from(
                    ts,
                    self.st(),
                    style,
                    type_params_of(params@),
                ),
            decreases ts.len() - self.current,
        {
            proof {
                reveal(type_params_from);
            }
            let name = match self.consume_identifier("Expected type parameter name") {
                Ok(v) => v,
                Err(e) => {
                    return Err(e);
                },
            };
            let bounds = match self.parse_trait_bounds(style) {
                Ok(v) => v,
                Err(e) => {
                    return Err(e);
                },
            };
            let param = TypeParam { name, bounds };
            params.push(param);
            if !self.take(TokenType::Comma) {
                return Ok(params);
            }
        }
    }

    /// The traits that a class declares.
    pub(crate) fn parse_trait_list(&mut self) -> (r: ParserResult<Vec<TraitRef>>)
        requires
            old(self).wf(),
        ensures
            went(*old(self), *final(self)),
            step(final(self).st(), r, |v: Vec<TraitRef>| trait_refs_of(v@)) == trait_list(old(self).tokens@, old(self).st()),
    {
        proof {
            reveal(trait_list);
            reveal(trait_list_from);
            reveal(optional_type_args);
        }
        let mut traits: Vec<TraitRef> = Vec::new();
        if !self.take(TokenType::Is) {
            return Ok(traits);
        }
        let ghost ts = self.tokens@;
        loop
            invariant
                went(*old(self), *self),
                ts == self.tokens@,
                trait_list(ts, old(self).st()) == trait_list_from(
                    ts,
                    self.st(),
                    trait_refs_of(traits@),
                ),
            decreases ts.len() - self.current,
        {
            proof {
                reveal(trait_list);
                reveal(trait_list_from);
                reveal(optional_type_args);
            }
            let name = match self.consume_identifier("Expected trait name") {
                Ok(v) => v,
                Err(e) => {
                    return Err(e);
                },
            };
            let span = self.previous().span;
            let type_args = match self.parse_optional_type_args() {
                Ok(v) => v,
                Err(e) => {
                    return Err(e);
                },
            };
            let trait_ref = TraitRef { name, type_args, span };
            traits.push(trait_ref);
            if !self.take(TokenType::Comma) {
                return Ok(traits);
            }
        }
    }

    /// A match pattern.
    pub(crate) fn parse_pattern(&mut self) -> (r: ParserResult<PatternNode>)
        requires
            old(self).wf(),
        ensures
            went(*old(self), *final(self)),
            r is Ok ==> old(self).current < final(self).current,
            step(final(self).st(), r, |p: PatternNode| p.tree()) == pattern(old(self).tokens@, old(self).st()),
        decreases old(self).tokens@.len() - old(self).current, 1int,
    {
        proof {
            reveal(pattern);
            reveal(pattern_args);
            reveal(list_pattern);
        }
        if self.is_at_end() {
            return Err(
                ParserError::from_token(
                    DiagnosticCode::InvalidPattern,
                    "Expected pattern",
                    self.peek(),
                ),
            );
        }
        let token = self.tokens[self.current];
        self.current += 1;
        match &token.token_type {
            TokenType::NoneKeyword => {
                let args: Vec<PatternNode> = Vec::new();
                Ok(PatternNode::EnumVariant { name: "none".to_owned(), args })
            },
            TokenType::Id(name) => {
                if self.take(TokenType::OpenParen) {
                    let args = match self.parse_pattern_args() {
                        Ok(v) => v,
                        Err(e) => {
                            return Err(e);
                        },
                    };
                    match self.consume_token(
                        TokenType::CloseParen,
                        "Expected ')' after enum variant arguments",
                    ) {
                        Ok(v) => v,
                        Err(e) => {
                            return Err(e);
                        },
                    };
                    return Ok(PatternNode::EnumVariant { name: name.clone(), args });
                }
                Ok(PatternNode::Identifier(name.clone()))
            },
            TokenType::Underscore => Ok(PatternNode::Wildcard),
            TokenType::OpenBracket => {
                self.skip_newlines();
                let (elements, rest) = match self.parse_list_pattern() {
                    Ok(v) => v,
                    Err(e) => {
                        return Err(e);
                    },
                };
                match self.consume_token(
                    TokenType::CloseBracket,
                    "Expected ']' after list pattern",
                ) {
                    Ok(v) => v,
                    Err(e) => {
                        return Err(e);
                    },
                };
                Ok(PatternNode::List { elements, rest })
            },
            _ => Self::parse_literal_pattern(token),
        }
    }

    /// The literal pattern that a token is.
    fn parse_literal_pattern(token: &Token) -> (r: ParserResult<PatternNode>)
        ensures
            match r {
                Ok(p) => match token.token_type {
                    TokenType::Int(n) => p == PatternNode::Literal(LiteralNode::Integer(n)),
                    TokenType::Float(f) => p == PatternNode::Literal(LiteralNode::Float(f)),
                    TokenType::Bool(b) => p == PatternNode::Literal(LiteralNode::Boolean(b)),
                    TokenType::Char(c) => p == PatternNode::Literal(LiteralNode::Char(c)),
                    TokenType::Str(t) => p == PatternNode::Literal(LiteralNode::String(t)),
                    _ => false,
                },
                Err(e) => e@ == crate::parser::error::fault(
                    DiagnosticCode::InvalidPattern,
                    "Expected pattern"@,
                    token.span,
                ) && !(token.token_type is Int || token.token_type is Float || token.token_type
                    is Bool || token.token_type is Char || token.token_type is Str),
            },
    {
        match &token.token_type {
            TokenType::Int(n) => Ok(PatternNode::Literal(LiteralNode::Integer(*n))),
            TokenType::Float(f) => Ok(
                PatternNode::Literal(LiteralNode::Float(FloatLiteral { text: f.text.clone() })),
            ),
            TokenType::Bool(b) => Ok(PatternNode::Literal(LiteralNode::Boolean(*b))),
            TokenType::Char(c) => Ok(PatternNode::Literal(LiteralNode::Char(*c))),
            TokenType::Str(s) => Ok(PatternNode::Literal(LiteralNode::String(s.clone()))),
            _ => Err(
                ParserError::from_token(
                    DiagnosticCode::InvalidPattern,
                    "Expected pattern",
                    token,
                ),
            ),
        }
    }

    /// The arguments of a variant pattern.
    pub(crate) fn parse_pattern_args(&mut self) -> (r: ParserResult<Vec<PatternNode>>)
        requires
            old(self).wf(),
        ensures
            went(*old(self), *final(self)),
            step(final(self).st(), r, |v: Vec<PatternNode>| patterns_of(v@)) == pattern_args(old(self).tokens@, old(self).st()),
        decreases old(self).tokens@.len() - old(self).current, 3int,
    {
        proof {
            reveal(pattern_args);
            reveal(pattern_args_from);
            reveal(pattern);
        }
        let mut args: Vec<PatternNode> = Vec::new();
        if self.check(TokenType::CloseParen) {
            return Ok(args);
        }
        let ghost ts = self.tokens@;
        loop
            invariant
                went(*old(self), *self),
                ts == self.tokens@,
                pattern_args(ts, old(self).st()) == pattern_args_from(
                    ts,
                    self.st(),
                    patterns_of(args@),
                ),
            decreases ts.len() - self.current,
        {
            proof {
                reveal(pattern_args);
                reveal(pattern_args_from);
                reveal(pattern);
            }
            let arg = match self.parse_pattern() {
                Ok(v) => v,
                Err(e) => {
                    return Err(e);
                },
            };
            args.push(arg);
            if !self.take(TokenType::Comma) {
                return Ok(args);
            }
            self.skip_newlines();
        }
    }

    /// The elements of a list pattern, and what takes the rest.
    pub(crate) fn parse_list_pattern(&mut self) -> (r: ParserResult<(Vec<PatternNode>, Option<Box<PatternNode>>)>)
        requires
            old(self).wf(),
        ensures
            went(*old(self), *final(self)),
            step(final(self).st(), r, |p: (Vec<PatternNode>, Option<Box<PatternNode>>)| list_pattern_tree(p)) == list_pattern(old(self).tokens@, old(self).st()),
        decreases old(self).tokens@.len() - old(self).current, 3int,
    {
        proof {
            reveal(list_pattern);
            reveal(list_pattern_from);
            reveal(pattern);
        }
        let mut elements: Vec<PatternNode> = Vec::new();
        if self.check(TokenType::CloseBracket) {
            return Ok((elements, None));
        }
        let ghost ts = self.tokens@;
        loop
            invariant
                went(*old(self), *self),
                ts == self.tokens@,
                list_pattern(ts, old(self).st()) == list_pattern_from(
                    ts,
                    self.st(),
                    patterns_of(elements@),
                ),
            decreases ts.len() - self.current,
        {
            proof {
                reveal(list_pattern);
                reveal(list_pattern_from);
                reveal(pattern);
            }
            self.skip_newlines();
            if self.take(TokenType::DotDot) {
                let rest = match self.parse_pattern() {
                    Ok(v) => v,
                    Err(e) => {
                        return Err(e);
                    },
                };
                self.skip_newlines();
                return Ok((elements, Some(Box::new(rest))));
            }
            let element = match self.parse_pattern() {
                Ok(v) => v,
                Err(e) => {
                    return Err(e);
                },
            };
            elements.push(element);
            self.skip_newlines();
            if !self.take(TokenType::Comma) {
                return Ok((elements, None));
            }
            self.skip_newlines();
        }
    }

    /// An import declaration.
    pub(crate) fn import_declaration(&mut self) -> (r: ParserResult<StatementNode>)
        requires
            old(self).wf(),
        ensures
            went(*old(self), *final(self)),
            r is Ok ==> old(self).current < final(self).current,
            step(final(self).st(), r, |s: StatementNode| s.tree()) == import_declaration(old(self).tokens@, old(self).st()),
    {
        proof {
            reveal(import_declaration);
            reveal(import_spec);
            reveal(import_path);
        }
        let start_span = match self.consume_token(TokenType::Import, "Expected 'import' keyword") {
            Ok(v) => v,
            Err(e) => {
                return Err(e);
            },
        };
        let path = match self.parse_module_path() {
            Ok(v) => v,
            Err(e) => {
                return Err(e);
            },
        };
        let spec = match self.parse_import_spec(path.as_str()) {
            Ok(v) => v,
            Err(e) => {
                return Err(e);
            },
        };
        let end_span = self.previous().span;
        Ok(
            StatementNode { kind: StatementKind::Import { path, spec },
                span: combine(start_span, end_span),
            },
        )
    }

    /// What an import brings in, behind its path.
    pub(crate) fn parse_import_spec(&mut self, path: &str) -> (r: ParserResult<ImportSpec>)
        requires
            old(self).wf(),
        ensures
            went(*old(self), *final(self)),
            step(final(self).st(), r, |i: ImportSpec| i.tree()) == import_spec(old(self).tokens@, old(self).st(), path@),
    {
        proof {
            reveal(import_spec);
            reveal(import_alias);
            reveal(import_items);
        }
        if self.take(TokenType::Dot) {
            if self.take(TokenType::Star) {
                return Ok(ImportSpec::Wildcard);
            }
            if self.take(TokenType::OpenParen) {
                return self.parse_import_items();
            }
            let item = match self.consume_identifier("Expected item name after '.'") {
                Ok(v) => v,
                Err(e) => {
                    return Err(e);
                },
            };
            let alias = match self.parse_import_alias() {
                Ok(v) => v,
                Err(e) => {
                    return Err(e);
                },
            };
            return Ok(ImportSpec::Item { item, alias });
        }
        match match self.parse_import_alias() {
            Ok(v) => v,
            Err(e) => {
                return Err(e);
            },
        } {
            Some(name) => {
                if same(name.as_str(), "_") {
                    Ok(ImportSpec::Module { alias: None })
                } else {
                    Ok(ImportSpec::Module { alias: Some(name) })
                }
            },
            None => Ok(ImportSpec::Module { alias: Some(last_path_segment(path)) }),
        }
    }

    /// A new name behind `as`, where there is one.
    pub(crate) fn parse_import_alias(&mut self) -> (r: ParserResult<Option<String>>)
        requires
            old(self).wf(),
        ensures
            went(*old(self), *final(self)),
            step(final(self).st(), r, |a: Option<String>| alias_tree(a)) == import_alias(old(self).tokens@, old(self).st()),
    {
        proof {
            reveal(import_alias);
        }
        if self.take(TokenType::As) {
            let alias = match self.consume_identifier("Expected alias after 'as'") {
                Ok(v) => v,
                Err(e) => {
                    return Err(e);
                },
            };
            Ok(Some(alias))
        } else {
            Ok(None)
        }
    }

    /// Imported items up to the closing parenthesis.
    pub(crate) fn parse_import_items(&mut self) -> (r: ParserResult<ImportSpec>)
        requires
            old(self).wf(),
        ensures
            went(*old(self), *final(self)),
            step(final(self).st(), r, |i: ImportSpec| i.tree()) == import_items(old(self).tokens@, old(self).st()),
    {
        proof {
            reveal(import_items);
            reveal(import_items_from);
            reveal(import_alias);
        }
        let empty: Vec<ImportItem> = Vec::new();
        if self.take(TokenType::CloseParen) {
            return Ok(ImportSpec::Items { items: empty });
        }
        let items = match self.parse_import_items_from() {
            Ok(v) => v,
            Err(e) => {
                return Err(e);
            },
        };
        match self.consume_token(TokenType::CloseParen, "Expected ')' after import items") {
            Ok(v) => v,
            Err(e) => {
                return Err(e);
            },
        };
        Ok(ImportSpec::Items { items })
    }

    /// Imported items with commas between them.
    pub(crate) fn parse_import_items_from(&mut self) -> (r: ParserResult<Vec<ImportItem>>)
        requires
            old(self).wf(),
        ensures
            went(*old(self), *final(self)),
            step(final(self).st(), r, |v: Vec<ImportItem>| import_items_of(v@)) == import_items_from(old(self).tokens@, old(self).st(), seq![]),
    {
        proof {
            reveal(import_items_from);
            reveal(import_alias);
        }
        let mut items: Vec<ImportItem> = Vec::new();
        let ghost ts = self.tokens@;
        loop
            invariant
                went(*old(self), *self),
                ts == self.tokens@,
                import_items_from(ts, old(self).st(), seq![]) == import_items_from(
                    ts,
                    self.st(),
                    import_items_of(items@),
                ),
            decreases ts.len() - self.current,
        {
            proof {
                reveal(import_items_from);
                reveal(import_alias);
            }
            let name = match self.consume_identifier("Expected item name") {
                Ok(v) => v,
                Err(e) => {
                    return Err(e);
                },
            };
            let alias = match self.parse_import_alias() {
                Ok(v) => v,
                Err(e) => {
                    return Err(e);
                },
            };
            let item = ImportItem { name, alias };
            items.push(item);
            if !self.take(TokenType::Comma) {
                return Ok(items);
            }
            self.skip_newlines();
        }
    }

    /// A module path: dotted, and relative or absolute where it says so.
    pub(crate) fn parse_module_path(&mut self) -> (r: ParserResult<String>)
        requires
            old(self).wf(),
        ensures
            went(*old(self), *final(self)),
            step(final(self).st(), r, |s: String| s@) == import_path(old(self).tokens@, old(self).st()),
    {
        proof {
            reveal(import_path);
            reveal(path_prefix);
            reveal(path_from);
        }
        let mut path = match self.parse_path_prefix() {
            Ok(v) => v,
            Err(e) => {
                return Err(e);
            },
        };
        let first = match self.consume_identifier("Expected module path") {
            Ok(v) => v,
            Err(e) => {
                return Err(e);
            },
        };
        path.append(first.as_str());
        let ghost ts = self.tokens@;
        loop
            invariant
                went(*old(self), *self),
                ts == self.tokens@,
                import_path(ts, old(self).st()) == path_from(ts, self.st(), path@),
            decreases ts.len() - self.current,
        {
            proof {
                reveal(import_path);
                reveal(path_prefix);
                reveal(path_from);
            }
            if !self.check(TokenType::Dot) || self.ahead(1, TokenType::Star) || self.ahead(
                1,
                TokenType::OpenParen,
            ) {
                return Ok(path);
            }
            let item_follows = match self.peek_ahead(1) {
                Some(t) => matches!(t.token_type, TokenType::Id(_)),
                None => false,
            };
            if item_follows && !self.ahead(2, TokenType::Dot) {
                return Ok(path);
            }
            self.current += 1;
            let segment = match self.consume_identifier("Expected module name after '.'") {
                Ok(v) => v,
                Err(e) => {
                    return Err(e);
                },
            };
            path.push('.');
            path.append(segment.as_str());
        }
    }

    /// The start of a relative or absolute module path.
    pub(crate) fn parse_path_prefix(&mut self) -> (r: ParserResult<String>)
        requires
            old(self).wf(),
        ensures
            went(*old(self), *final(self)),
            step(final(self).st(), r, |s: String| s@) == path_prefix(old(self).tokens@, old(self).st()),
    {
        proof {
            reveal(path_prefix);
        }
        if self.take(TokenType::Dot) {
            match self.consume_token(TokenType::Slash, "Expected '/' after '.'") {
                Ok(v) => v,
                Err(e) => {
                    return Err(e);
                },
            };
            Ok("./".to_owned())
        } else if self.take(TokenType::DotDot) {
            match self.consume_token(TokenType::Slash, "Expected '/' after '..'") {
                Ok(v) => v,
                Err(e) => {
                    return Err(e);
                },
            };
            Ok("../".to_owned())
        } else if self.take(TokenType::Slash) {
            Ok("/".to_owned())
        } else {
            Ok(String::new())
        }
    }
}

pub open spec fn alias_tree(a: Option<String>) -> Option<Seq<char>> {
    match a {
        Some(s) => Some(s@),
        None => None,
    }
}

pub open spec fn list_pattern_tree(p: (Vec<PatternNode>, Option<Box<PatternNode>>)) -> (
    Seq<PatternTree>,
    Option<Box<PatternTree>>,
) {
    (
        patterns_of(p.0@),
        match p.1 {
            Some(x) => Some(Box::new(x.tree())),
            None => None,
        },
    )
}

} // verus!
