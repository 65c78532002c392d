//! The grammar of types, patterns and imports: what each production yields
//! on given tokens.

use crate::ast::operators::{combine, PrimitiveType};
use crate::ast::tree::{
    ImportItemTree, ImportSpecTree, LiteralTree, PatternTree, StmtShape, StmtTree, TraitBoundTree,
    TraitRefTree, TypeParamTree, TypeShape, TypeTree,
};
use crate::diagnostic::DiagnosticCode;
use crate::lexer::{Span, Token, TokenType};
use crate::parser::error::fault;
use crate::parser::state::{
    before, expect, identifier, is_id, le, lt, seen, skip_nl, stuck, tok, State, Step,
};
use vstd::prelude::*;

verus! {

/// The ways in which declarations write the bounds of a type parameter.
#[derive(Debug, Clone, Copy, PartialEq, Eq, Structural)]
pub enum Bounds {
    /// `is A & B`, at least one parameter.
    Class,
    /// `is A & B`.
    Function,
    /// `: A + B`.
    Colon,
    /// No bounds.
    Bare,
}

/// The bounds of a type parameter in the given style.
pub open spec fn bounds_in(ts: Seq<&Token>, st: State, style: Bounds) -> Step<Seq<TraitBoundTree>> {
    match style {
        Bounds::Class | Bounds::Function => trait_bounds(ts, st, TokenType::Is, TokenType::Ref),
        Bounds::Colon => trait_bounds(ts, st, TokenType::Colon, TokenType::Plus),
        Bounds::Bare => (st, Ok(seq![])),
    }
}

/// The built-in generic types with a notation of their own.
pub open spec fn is_container(name: Seq<char>) -> bool {
    name == "list"@ || name == "map"@ || name == "set"@ || name == "tuple"@
}

/// The part of a dotted path behind its last dot.
pub open spec fn last_segment(path: Seq<char>) -> Seq<char>
    decreases path.len(),
{
    if path.len() == 0 || path.last() == '.' {
        seq![]
    } else {
        last_segment(path.drop_last()).push(path.last())
    }
}

#[verifier::opaque]
pub open spec fn ty(ts: Seq<&Token>, st: State) -> Step<TypeTree>
    decreases ts.len() - st.cur, 0int,
{
    let s = st;
    if tok(ts, st.cur, TokenType::Ref) {
        let s = st.next();
        let start = ts[st.cur].span;
        if !lt(ts, st, s) {
            stuck(s)
        } else {
            match ty(ts, s) {
                (s, Err(e)) => (s, Err(e)),
                (s, Ok(inner)) => {
                    let end = before(ts, s.cur).span;
                    (s, Ok(TypeTree { kind: TypeShape::Reference(Box::new(inner)), span: Span { row_start: start.row_start, row_end: end.row_end, col_start: start.col_start, col_end: end.col_end } }))
                },
            }
        }
    } else {
        if st.cur < 0 || st.cur >= ts.len() {
            (s, Err(fault(DiagnosticCode::ParseExpectedType, "Expected type"@, seen(ts, st.cur).span)))
        } else {
            let start = ts[st.cur].span;
            let s = st.next();
            match ts[st.cur].token_type {
                TokenType::Id(name) => {
                    if !lt(ts, st, s) {
                        stuck(s)
                    } else {
                        named_type(ts, s, name@, start)
                    }
                },
                TokenType::Func => {
                    match expect(ts, s, TokenType::OpenParen, "Expected '(' after 'func' in function type"@) {
                        (s, Err(e)) => (s, Err(e)),
                        (s, Ok(_)) => {
                            if !lt(ts, st, s) {
                                stuck(s)
                            } else {
                                match fn_type_params(ts, s) {
                                    (s, Err(e)) => (s, Err(e)),
                                    (s, Ok(ps)) => {
                                        match expect(ts, s, TokenType::CloseParen, "Expected ')' after parameter types"@) {
                                            (s, Err(e)) => (s, Err(e)),
                                            (s, Ok(_)) => {
                                                match expect(ts, s, TokenType::Returns, "Expected 'returns' in function type"@) {
                                                    (s, Err(e)) => (s, Err(e)),
                                                    (s, Ok(_)) => {
                                                        if !lt(ts, st, s) {
                                                            stuck(s)
                                                        } else {
                                                            match ty(ts, s) {
                                                                (s, Err(e)) => (s, Err(e)),
                                                                (s, Ok(ret)) => {
                                                                    (s, Ok(TypeTree { kind: TypeShape::Function { params: ps, ret: Box::new(ret) }, span: start }))
                                                                },
                                                            }
                                                        }
                                                    },
                                                }
                                            },
                                        }
                                    },
                                }
                            }
                        },
                    }
                },
                _ => {
                    (s, Err(fault(DiagnosticCode::ParseExpectedType, "Expected type"@, start)))
                },
            }
        }
    }
}

#[verifier::opaque]
pub open spec fn fn_type_params(ts: Seq<&Token>, st: State) -> Step<Seq<TypeTree>>
    decreases ts.len() - st.cur, 2int,
{
    let s = st;
    if tok(ts, st.cur, TokenType::CloseParen) {
        (s, Ok(seq![]))
    } else {
        fn_type_params_from(ts, st, seq![])
    }
}

#[verifier::opaque]
pub open spec fn fn_type_params_from(ts: Seq<&Token>, st: State, acc: Seq<TypeTree>) -> Step<Seq<TypeTree>>
    decreases ts.len() - st.cur, 1int,
{
    let s = st;
    match ty(ts, st) {
        (s, Err(e)) => (s, Err(e)),
        (s, Ok(t)) => {
            if tok(ts, s.cur, TokenType::Comma) {
                let s = skip_nl(ts, s.next());
                if !lt(ts, st, s) {
                    stuck(s)
                } else {
                    fn_type_params_from(ts, s, acc.push(t))
                }
            } else {
                (s, Ok(acc.push(t)))
            }
        },
    }
}

#[verifier::opaque]
pub open spec fn qualified_name(ts: Seq<&Token>, st: State, name: Seq<char>) -> Step<Seq<char>>
    decreases ts.len() - st.cur, 0int,
{
    let s = st;
    if tok(ts, st.cur, TokenType::Dot) {
        let s = st.next();
        match identifier(ts, s, "Expected a type name after '.'"@) {
            (s, Err(e)) => (s, Err(e)),
            (s, Ok(segment)) => {
                if !lt(ts, st, s) {
                    stuck(s)
                } else {
                    qualified_name(ts, s, name.push('.') + segment)
                }
            },
        }
    } else {
        (s, Ok(name))
    }
}

#[verifier::opaque]
pub open spec fn named_type(ts: Seq<&Token>, st: State, first: Seq<char>, start: Span) -> Step<TypeTree>
    decreases ts.len() - st.cur, 5int,
{
    let s = st;
    match qualified_name(ts, st, first) {
        (s, Err(e)) => (s, Err(e)),
        (s, Ok(name)) => {
            match PrimitiveType::named(name) {
                Some(p) => {
                    (s, Ok(TypeTree { kind: TypeShape::Primitive(p), span: start }))
                },
                None => {
                    if is_container(name) && tok(ts, s.cur, TokenType::Lt) {
                        if !le(ts, st, s) {
                            stuck(s)
                        } else {
                            container_type(ts, s, name, start)
                        }
                    } else {
                        if !le(ts, st, s) {
                            stuck(s)
                        } else {
                            match optional_type_args(ts, s) {
                                (s, Err(e)) => (s, Err(e)),
                                (s, Ok(args)) => {
                                    if name == "dyn"@ && args.len() > 0 {
                                        (s, Ok(TypeTree { kind: TypeShape::TraitObject(Box::new(args[0])), span: start }))
                                    } else {
                                        (s, Ok(TypeTree { kind: TypeShape::Named(name, args), span: start }))
                                    }
                                },
                            }
                        }
                    }
                },
            }
        },
    }
}

#[verifier::opaque]
pub open spec fn container_type(ts: Seq<&Token>, st: State, name: Seq<char>, start: Span) -> Step<TypeTree>
    decreases ts.len() - st.cur, 4int,
{
    let s = st;
    let s = st.next();
    if name == "list"@ {
        if !lt(ts, st, s) {
            stuck(s)
        } else {
            match ty(ts, s) {
                (s, Err(e)) => (s, Err(e)),
                (s, Ok(t)) => {
                    match expect(ts, s, TokenType::Gt, "Expected '>' after list element type"@) {
                        (s, Err(e)) => (s, Err(e)),
                        (s, Ok(_)) => {
                            (s, Ok(TypeTree { kind: TypeShape::List(Box::new(t)), span: start }))
                        },
                    }
                },
            }
        }
    } else if name == "map"@ {
        if !lt(ts, st, s) {
            stuck(s)
        } else {
            match ty(ts, s) {
                (s, Err(e)) => (s, Err(e)),
                (s, Ok(k)) => {
                    match expect(ts, s, TokenType::Comma, "Expected ',' between key and value types in map"@) {
                        (s, Err(e)) => (s, Err(e)),
                        (s, Ok(_)) => {
                            if !lt(ts, st, s) {
                                stuck(s)
                            } else {
                                match ty(ts, s) {
                                    (s, Err(e)) => (s, Err(e)),
                                    (s, Ok(v)) => {
                                        match expect(ts, s, TokenType::Gt, "Expected '>' after map value type"@) {
                                            (s, Err(e)) => (s, Err(e)),
                                            (s, Ok(_)) => {
                                                (s, Ok(TypeTree { kind: TypeShape::MapOf(Box::new(k), Box::new(v)), span: start }))
                                            },
                                        }
                                    },
                                }
                            }
                        },
                    }
                },
            }
        }
    } else if name == "set"@ {
        if !lt(ts, st, s) {
            stuck(s)
        } else {
            match ty(ts, s) {
                (s, Err(e)) => (s, Err(e)),
                (s, Ok(t)) => {
                    match expect(ts, s, TokenType::Gt, "Expected '>' after set element type"@) {
                        (s, Err(e)) => (s, Err(e)),
                        (s, Ok(_)) => {
                            (s, Ok(TypeTree { kind: TypeShape::SetOf(Box::new(t)), span: start }))
                        },
                    }
                },
            }
        }
    } else {
        if !lt(ts, st, s) {
            stuck(s)
        } else {
            match ty(ts, s) {
                (s, Err(e)) => (s, Err(e)),
                (s, Ok(l)) => {
                    match expect(ts, s, TokenType::Comma, "Expected ',' in tuple type"@) {
                        (s, Err(e)) => (s, Err(e)),
                        (s, Ok(_)) => {
                            if !lt(ts, st, s) {
                                stuck(s)
                            } else {
                                match ty(ts, s) {
                                    (s, Err(e)) => (s, Err(e)),
                                    (s, Ok(r)) => {
                                        match expect(ts, s, TokenType::Gt, "Expected '>' after tuple type"@) {
                                            (s, Err(e)) => (s, Err(e)),
                                            (s, Ok(_)) => {
                                                (s, Ok(TypeTree { kind: TypeShape::Tuple(Box::new(l), Box::new(r)), span: start }))
                                            },
                                        }
                                    },
                                }
                            }
                        },
                    }
                },
            }
        }
    }
}

#[verifier::opaque]
pub open spec fn optional_type_args(ts: Seq<&Token>, st: State) -> Step<Seq<TypeTree>>
    decreases ts.len() - st.cur, 3int,
{
    let s = st;
    if tok(ts, st.cur, TokenType::Lt) {
        let s = st.next();
        if !lt(ts, st, s) {
            stuck(s)
        } else {
            match type_args(ts, s, seq![]) {
                (s, Err(e)) => (s, Err(e)),
                (s, Ok(args)) => {
                    match expect(ts, s, TokenType::Gt, "Expected '>' after type arguments"@) {
                        (s, Err(e)) => (s, Err(e)),
                        (s, Ok(_)) => {
                            (s, Ok(args))
                        },
                    }
                },
            }
        }
    } else {
        (s, Ok(seq![]))
    }
}

#[verifier::opaque]
pub open spec fn type_args(ts: Seq<&Token>, st: State, acc: Seq<TypeTree>) -> Step<Seq<TypeTree>>
    decreases ts.len() - st.cur, 1int,
{
    let s = st;
    if tok(ts, st.cur, TokenType::Gt) || st.cur >= ts.len() {
        (s, Ok(acc))
    } else {
        match ty(ts, st) {
            (s, Err(e)) => (s, Err(e)),
            (s, Ok(t)) => {
                if tok(ts, s.cur, TokenType::Comma) {
                    let s = skip_nl(ts, s.next());
                    if !lt(ts, st, s) {
                        stuck(s)
                    } else {
                        type_args(ts, s, acc.push(t))
                    }
                } else {
                    (s, Ok(acc.push(t)))
                }
            },
        }
    }
}

#[verifier::opaque]
pub open spec fn trait_bounds(ts: Seq<&Token>, st: State, open: TokenType, separator: TokenType) -> Step<Seq<TraitBoundTree>>
{
    let s = st;
    if tok(ts, st.cur, open) {
        trait_bounds_from(ts, st.next(), separator, seq![])
    } else {
        (s, Ok(seq![]))
    }
}

#[verifier::opaque]
pub open spec fn trait_bounds_from(ts: Seq<&Token>, st: State, separator: TokenType, acc: Seq<TraitBoundTree>) -> Step<Seq<TraitBoundTree>>
    decreases ts.len() - st.cur, 0int,
{
    let s = st;
    match identifier(ts, s, "Expected trait name in bound"@) {
        (s, Err(e)) => (s, Err(e)),
        (s, Ok(name)) => {
            let span = before(ts, s.cur).span;
            match optional_type_args(ts, s) {
                (s, Err(e)) => (s, Err(e)),
                (s, Ok(args)) => {
                    let more = acc.push(TraitBoundTree { name, type_params: args, span });
                    if tok(ts, s.cur, separator) {
                        let s = s.next();
                        if !lt(ts, st, s) {
                            stuck(s)
                        } else {
                            trait_bounds_from(ts, s, separator, more)
                        }
                    } else {
                        (s, Ok(more))
                    }
                },
            }
        },
    }
}

#[verifier::opaque]
pub open spec fn trait_list(ts: Seq<&Token>, st: State) -> Step<Seq<TraitRefTree>>
{
    let s = st;
    if tok(ts, st.cur, TokenType::Is) {
        trait_list_from(ts, st.next(), seq![])
    } else {
        (s, Ok(seq![]))
    }
}

#[verifier::opaque]
pub open spec fn trait_list_from(ts: Seq<&Token>, st: State, acc: Seq<TraitRefTree>) -> Step<Seq<TraitRefTree>>
    decreases ts.len() - st.cur, 0int,
{
    let s = st;
    match identifier(ts, s, "Expected trait name"@) {
        (s, Err(e)) => (s, Err(e)),
        (s, Ok(name)) => {
            let span = before(ts, s.cur).span;
            match optional_type_args(ts, s) {
                (s, Err(e)) => (s, Err(e)),
                (s, Ok(args)) => {
                    let more = acc.push(TraitRefTree { name, type_args: args, span });
                    if tok(ts, s.cur, TokenType::Comma) {
                        let s = s.next();
                        if !lt(ts, st, s) {
                            stuck(s)
                        } else {
                            trait_list_from(ts, s, more)
                        }
                    } else {
                        (s, Ok(more))
                    }
                },
            }
        },
    }
}

#[verifier::opaque]
pub open spec fn type_params(ts: Seq<&Token>, st: State, style: Bounds) -> Step<Seq<TypeParamTree>>
{
    let s = st;
    if !tok(ts, st.cur, TokenType::Lt) {
        (s, Ok(seq![]))
    } else {
        let s = st.next();
        if style != Bounds::Class && tok(ts, s.cur, TokenType::Gt) {
            (s.next(), Ok(seq![]))
        } else {
            match type_params_from(ts, s, style, seq![]) {
                (s, Err(e)) => (s, Err(e)),
                (s, Ok(ps)) => {
                    match expect(ts, s, TokenType::Gt, "Expected '>' after type parameters"@) {
                        (s, Err(e)) => (s, Err(e)),
                        (s, Ok(_)) => {
                            (s, Ok(ps))
                        },
                    }
                },
            }
        }
    }
}

#[verifier::opaque]
pub open spec fn type_params_from(ts: Seq<&Token>, st: State, style: Bounds, acc: Seq<TypeParamTree>) -> Step<Seq<TypeParamTree>>
    decreases ts.len() - st.cur, 0int,
{
    let s = st;
    match identifier(ts, s, "Expected type parameter name"@) {
        (s, Err(e)) => (s, Err(e)),
        (s, Ok(name)) => {
            match bounds_in(ts, s, style) {
                (s, Err(e)) => (s, Err(e)),
                (s, Ok(bounds)) => {
                    let more = acc.push(TypeParamTree { name, bounds });
                    if tok(ts, s.cur, TokenType::Comma) {
                        let s = s.next();
                        if !lt(ts, st, s) {
                            stuck(s)
                        } else {
                            type_params_from(ts, s, style, more)
                        }
                    } else {
                        (s, Ok(more))
                    }
                },
            }
        },
    }
}

#[verifier::opaque]
pub open spec fn pattern(ts: Seq<&Token>, st: State) -> Step<PatternTree>
    decreases ts.len() - st.cur, 1int,
{
    let s = st;
    if st.cur < 0 || st.cur >= ts.len() {
        (s, Err(fault(DiagnosticCode::InvalidPattern, "Expected pattern"@, seen(ts, st.cur).span)))
    } else {
        let s = st.next();
        match ts[st.cur].token_type {
            TokenType::NoneKeyword => {
                (s, Ok(PatternTree::EnumVariant { name: "none"@, args: seq![] }))
            },
            TokenType::Id(name) => {
                if tok(ts, s.cur, TokenType::OpenParen) {
                    let s = s.next();
                    if !lt(ts, st, s) {
                        stuck(s)
                    } else {
                        match pattern_args(ts, s) {
                            (s, Err(e)) => (s, Err(e)),
                            (s, Ok(args)) => {
                                match expect(ts, s, TokenType::CloseParen, "Expected ')' after enum variant arguments"@) {
                                    (s, Err(e)) => (s, Err(e)),
                                    (s, Ok(_)) => {
                                        (s, Ok(PatternTree::EnumVariant { name: name@, args }))
                                    },
                                }
                            },
                        }
                    }
                } else {
                    (s, Ok(PatternTree::Identifier(name@)))
                }
            },
            TokenType::Underscore => {
                (s, Ok(PatternTree::Wildcard))
            },
            TokenType::OpenBracket => {
                let s = skip_nl(ts, s);
                if !lt(ts, st, s) {
                    stuck(s)
                } else {
                    match list_pattern(ts, s) {
                        (s, Err(e)) => (s, Err(e)),
                        (s, Ok(lr)) => {
                            match expect(ts, s, TokenType::CloseBracket, "Expected ']' after list pattern"@) {
                                (s, Err(e)) => (s, Err(e)),
                                (s, Ok(_)) => {
                                    (s, Ok(PatternTree::List { elements: lr.0, rest: lr.1 }))
                                },
                            }
                        },
                    }
                }
            },
            TokenType::Int(n) => {
                (s, Ok(PatternTree::Literal(LiteralTree::Integer(n))))
            },
            TokenType::Float(f) => {
                (s, Ok(PatternTree::Literal(LiteralTree::Float(f.text@))))
            },
            TokenType::Bool(b) => {
                (s, Ok(PatternTree::Literal(LiteralTree::Boolean(b))))
            },
            TokenType::Char(c) => {
                (s, Ok(PatternTree::Literal(LiteralTree::Char(c))))
            },
            TokenType::Str(t) => {
                (s, Ok(PatternTree::Literal(LiteralTree::String(t@))))
            },
            _ => {
                (s, Err(fault(DiagnosticCode::InvalidPattern, "Expected pattern"@, ts[st.cur].span)))
            },
        }
    }
}

#[verifier::opaque]
pub open spec fn pattern_args(ts: Seq<&Token>, st: State) -> Step<Seq<PatternTree>>
    decreases ts.len() - st.cur, 3int,
{
    let s = st;
    if tok(ts, st.cur, TokenType::CloseParen) {
        (s, Ok(seq![]))
    } else {
        pattern_args_from(ts, st, seq![])
    }
}

#[verifier::opaque]
pub open spec fn pattern_args_from(ts: Seq<&Token>, st: State, acc: Seq<PatternTree>) -> Step<Seq<PatternTree>>
    decreases ts.len() - st.cur, 2int,
{
    let s = st;
    match pattern(ts, st) {
        (s, Err(e)) => (s, Err(e)),
        (s, Ok(p)) => {
            if tok(ts, s.cur, TokenType::Comma) {
                let s = skip_nl(ts, s.next());
                if !lt(ts, st, s) {
                    stuck(s)
                } else {
                    pattern_args_from(ts, s, acc.push(p))
                }
            } else {
                (s, Ok(acc.push(p)))
            }
        },
    }
}

#[verifier::opaque]
pub open spec fn list_pattern(ts: Seq<&Token>, st: State) -> Step<(Seq<PatternTree>, Option<Box<PatternTree>>)>
    decreases ts.len() - st.cur, 3int,
{
    let s = st;
    if tok(ts, st.cur, TokenType::CloseBracket) {
        (s, Ok((seq![], None)))
    } else {
        list_pattern_from(ts, st, seq![])
    }
}

#[verifier::opaque]
pub open spec fn list_pattern_from(ts: Seq<&Token>, st: State, acc: Seq<PatternTree>) -> Step<(Seq<PatternTree>, Option<Box<PatternTree>>)>
    decreases ts.len() - st.cur, 2int,
{
    let s = st;
    let s = skip_nl(ts, st);
    if tok(ts, s.cur, TokenType::DotDot) {
        let s = s.next();
        if !lt(ts, st, s) {
            stuck(s)
        } else {
            match pattern(ts, s) {
                (s, Err(e)) => (s, Err(e)),
                (s, Ok(rest)) => {
                    let s = skip_nl(ts, s);
                    (s, Ok((acc, Some(Box::new(rest)))))
                },
            }
        }
    } else {
        if !le(ts, st, s) {
            stuck(s)
        } else {
            match pattern(ts, s) {
                (s, Err(e)) => (s, Err(e)),
                (s, Ok(p)) => {
                    let s = skip_nl(ts, s);
                    if tok(ts, s.cur, TokenType::Comma) {
                        let s = skip_nl(ts, s.next());
                        if !lt(ts, st, s) {
                            stuck(s)
                        } else {
                            list_pattern_from(ts, s, acc.push(p))
                        }
                    } else {
                        (s, Ok((acc.push(p), None)))
                    }
                },
            }
        }
    }
}

#[verifier::opaque]
pub open spec fn import_alias(ts: Seq<&Token>, st: State) -> Step<Option<Seq<char>>>
{
    let s = st;
    if tok(ts, st.cur, TokenType::As) {
        let s = st.next();
        match identifier(ts, s, "Expected alias after 'as'"@) {
            (s, Err(e)) => (s, Err(e)),
            (s, Ok(alias)) => {
                (s, Ok(Some(alias)))
            },
        }
    } else {
        (s, Ok(None))
    }
}

#[verifier::opaque]
pub open spec fn import_items_from(ts: Seq<&Token>, st: State, acc: Seq<ImportItemTree>) -> Step<Seq<ImportItemTree>>
    decreases ts.len() - st.cur, 0int,
{
    let s = st;
    match identifier(ts, s, "Expected item name"@) {
        (s, Err(e)) => (s, Err(e)),
        (s, Ok(name)) => {
            match import_alias(ts, s) {
                (s, Err(e)) => (s, Err(e)),
                (s, Ok(alias)) => {
                    let more = acc.push(ImportItemTree { name, alias });
                    if tok(ts, s.cur, TokenType::Comma) {
                        let s = skip_nl(ts, s.next());
                        if !lt(ts, st, s) {
                            stuck(s)
                        } else {
                            import_items_from(ts, s, more)
                        }
                    } else {
                        (s, Ok(more))
                    }
                },
            }
        },
    }
}

#[verifier::opaque]
pub open spec fn import_items(ts: Seq<&Token>, st: State) -> Step<ImportSpecTree>
{
    let s = st;
    if tok(ts, st.cur, TokenType::CloseParen) {
        (st.next(), Ok(ImportSpecTree::Items { items: seq![] }))
    } else {
        match import_items_from(ts, st, seq![]) {
            (s, Err(e)) => (s, Err(e)),
            (s, Ok(items)) => {
                match expect(ts, s, TokenType::CloseParen, "Expected ')' after import items"@) {
                    (s, Err(e)) => (s, Err(e)),
                    (s, Ok(_)) => {
                        (s, Ok(ImportSpecTree::Items { items }))
                    },
                }
            },
        }
    }
}

#[verifier::opaque]
pub open spec fn import_spec(ts: Seq<&Token>, st: State, path: Seq<char>) -> Step<ImportSpecTree>
{
    let s = st;
    if tok(ts, st.cur, TokenType::Dot) {
        let s = st.next();
        if tok(ts, s.cur, TokenType::Star) {
            (s.next(), Ok(ImportSpecTree::Wildcard))
        } else {
            if tok(ts, s.cur, TokenType::OpenParen) {
                import_items(ts, s.next())
            } else {
                match identifier(ts, s, "Expected item name after '.'"@) {
                    (s, Err(e)) => (s, Err(e)),
                    (s, Ok(item)) => {
                        match import_alias(ts, s) {
                            (s, Err(e)) => (s, Err(e)),
                            (s, Ok(alias)) => {
                                (s, Ok(ImportSpecTree::Item { item, alias }))
                            },
                        }
                    },
                }
            }
        }
    } else {
        match import_alias(ts, s) {
            (s, Err(e)) => (s, Err(e)),
            (s, Ok(alias)) => {
                match alias {
                    Some(name) => {
                        (s, Ok(ImportSpecTree::Module { alias: if name == "_"@ { None } else { Some(name) } }))
                    },
                    None => {
                        (s, Ok(ImportSpecTree::Module { alias: Some(last_segment(path)) }))
                    },
                }
            },
        }
    }
}

#[verifier::opaque]
pub open spec fn path_prefix(ts: Seq<&Token>, st: State) -> Step<Seq<char>>
{
    let s = st;
    if tok(ts, st.cur, TokenType::Dot) {
        let s = st.next();
        match expect(ts, s, TokenType::Slash, "Expected '/' after '.'"@) {
            (s, Err(e)) => (s, Err(e)),
            (s, Ok(_)) => {
                (s, Ok("./"@))
            },
        }
    } else if tok(ts, st.cur, TokenType::DotDot) {
        let s = st.next();
        match expect(ts, s, TokenType::Slash, "Expected '/' after '..'"@) {
            (s, Err(e)) => (s, Err(e)),
            (s, Ok(_)) => {
                (s, Ok("../"@))
            },
        }
    } else if tok(ts, st.cur, TokenType::Slash) {
        (st.next(), Ok("/"@))
    } else {
        (s, Ok(seq![]))
    }
}

#[verifier::opaque]
pub open spec fn path_from(ts: Seq<&Token>, st: State, path: Seq<char>) -> Step<Seq<char>>
    decreases ts.len() - st.cur, 0int,
{
    let s = st;
    if !tok(ts, st.cur, TokenType::Dot) || tok(ts, st.cur + 1, TokenType::Star) || tok(ts, st.cur + 1, TokenType::OpenParen) || (is_id(ts, st.cur + 1) && !tok(ts, st.cur + 2, TokenType::Dot)) {
        (s, Ok(path))
    } else {
        let s = st.next();
        match identifier(ts, s, "Expected module name after '.'"@) {
            (s, Err(e)) => (s, Err(e)),
            (s, Ok(segment)) => {
                if !lt(ts, st, s) {
                    stuck(s)
                } else {
                    path_from(ts, s, path.push('.') + segment)
                }
            },
        }
    }
}

#[verifier::opaque]
pub open spec fn import_path(ts: Seq<&Token>, st: State) -> Step<Seq<char>>
{
    let s = st;
    match path_prefix(ts, st) {
        (s, Err(e)) => (s, Err(e)),
        (s, Ok(prefix)) => {
            match identifier(ts, s, "Expected module path"@) {
                (s, Err(e)) => (s, Err(e)),
                (s, Ok(first)) => {
                    path_from(ts, s, prefix + first)
                },
            }
        },
    }
}

#[verifier::opaque]
pub open spec fn import_declaration(ts: Seq<&Token>, st: State) -> Step<StmtTree>
{
    let s = st;
    match expect(ts, st, TokenType::Import, "Expected 'import' keyword"@) {
        (s, Err(e)) => (s, Err(e)),
        (s, Ok(start)) => {
            match import_path(ts, s) {
                (s, Err(e)) => (s, Err(e)),
                (s, Ok(path)) => {
                    match import_spec(ts, s, path) {
                        (s, Err(e)) => (s, Err(e)),
                        (s, Ok(what)) => {
                            (s, Ok(StmtTree { kind: StmtShape::Import { path, spec: what }, span: combine(start, before(ts, s.cur).span) }))
                        },
                    }
                },
            }
        },
    }
}

} // verus!
