//! Parsing expressions.

use crate::ast::nodes::{
    ExpressionKind, ExpressionNode, LiteralNode, MapEntry, Param, StatementKind, StatementNode,
    TypeKind, TypeNode, WhereClause,
};
use crate::ast::operators::{combine, BinaryOp, Precedence, UnaryOp};
use crate::ast::tree::{
    expression_kind_variant, statement_kind_variant, exprs_of, map_entrys_of, params_of, stmts_of,
    ExprTree, StmtTree, WhereClauseTree,
};
use crate::diagnostic::DiagnosticCode;
use crate::lexer::{FloatLiteral, Span, Token, TokenType};
use crate::parser::cursor::{step, went, Parser};
use crate::parser::describe::describe_token;
use crate::parser::error::{ParserError, ParserResult};
use crate::parser::grammar::{
    binary_rest, branch, call_args, call_rest, empty_map, field_rest, call_args_from, collection,
    comma_after_newlines, expression, generic_at, generic_target, if_expression, index_or_slice,
    lambda, lambda_params, lambda_params_from, last_span, list_elements, list_elements_from,
    list_literal, map_entries, matching_gt, misplaced_update, more_entries, nested_update,
    nested_update_body, nested_update_entries, nested_update_in, no_expression, parenthesized,
    postfix, postfix_gap, precedence, primary, set_entries, slice, takes_type_args, unary,
    where_clause, where_predicates,
};
use crate::parser::grammar::{binary_rest_def, branch_def, call_args_def, call_args_from_def, call_rest_def, collection_def, expression_def, if_expression_def, index_or_slice_def, lambda_def, list_elements_def, list_elements_from_def, list_literal_def, map_entries_def, parenthesized_def, postfix_def, precedence_def, primary_def, set_entries_def, slice_def, unary_def, where_clause_def, where_predicates_def};
use crate::parser::state::{before, tok};
use crate::text::{cat, chars_of};
use vstd::prelude::*;

verus! {

broadcast use crate::ast::tree::tree_shapes;

pub open spec fn clause_tree(c: Option<WhereClause>) -> Option<WhereClauseTree> {
    match c {
        Some(x) => Some(x.tree()),
        None => None,
    }
}

pub open spec fn expr_tree(e: Option<ExpressionNode>) -> Option<ExprTree> {
    match e {
        Some(x) => Some(x.tree()),
        None => None,
    }
}

pub open spec fn boxed_tree(e: Option<Box<ExpressionNode>>) -> Option<Box<ExprTree>> {
    match e {
        Some(x) => Some(Box::new((*x).tree())),
        None => None,
    }
}

/// Where the last of some statements is.
pub(crate) fn end_of(body: &Vec<StatementNode>, otherwise: Span) -> (r: Span)
    ensures
        r == last_span(stmts_of(body@), otherwise),
{
    if body.len() > 0 {
        body[body.len() - 1].span
    } else {
        otherwise
    }
}

/// A result without an error, or the given error.
pub open spec fn verdict(r: ParserResult<()>) -> Option<crate::parser::error::Fault> {
    match r {
        Ok(_) => None,
        Err(e) => Some(e@),
    }
}

/// Checks that no postfix `++` or `--` stands inside an expression.
pub fn check_no_postfix_increment_decrement(expr: &ExpressionNode) -> (r: ParserResult<()>)
    ensures
        verdict(r) == nested_update(expr.tree()),
    decreases expr,
{
    proof {
        reveal(nested_update);
        reveal(nested_update_in);
        reveal(nested_update_entries);
        reveal(nested_update_body);
    }
    proof {
        expression_kind_variant(expr.kind);
    }
    match &expr.kind {
        ExpressionKind::Unary { op, op_span, expr: inner, postfix } => {
            assert(expr.kind == (ExpressionKind::Unary {
                op: *op,
                op_span: *op_span,
                expr: *inner,
                postfix: *postfix,
            }));
            if *postfix && (*op == UnaryOp::Incr || *op == UnaryOp::Decr) {
                return Err(
                    ParserError::with_help(
                        DiagnosticCode::ParseExpectedToken,
                        "Increment/Decrement operator can only be used as a standalone statement",
                        expr.span,
                        "Expressions like 'x + y++' are not supported. Use 'y++' as a separate statement before the expression.",
                    ),
                );
            }
            check_no_postfix_increment_decrement(inner)
        },
        ExpressionKind::Binary { left, op, op_span, right } => {
            assert(expr.kind == (ExpressionKind::Binary {
                left: *left,
                op: *op,
                op_span: *op_span,
                right: *right,
            }));
            match check_no_postfix_increment_decrement(left) {
                Ok(v) => v,
                Err(e) => {
                    return Err(e);
                },
            };
            check_no_postfix_increment_decrement(right)
        },
        ExpressionKind::Call { func, args } => {
            assert(expr.kind == (ExpressionKind::Call { func: *func, args: *args }));
            match check_no_postfix_increment_decrement(func) {
                Ok(v) => v,
                Err(e) => {
                    return Err(e);
                },
            };
            check_no_postfix_increment_decrement_all(args)
        },
        ExpressionKind::FieldAccess { expr: inner, field } => {
            assert(expr.kind == (ExpressionKind::FieldAccess { expr: *inner, field: *field }));
            check_no_postfix_increment_decrement(inner)
        },
        ExpressionKind::ListAccess { expr: inner, index } => {
            assert(expr.kind == (ExpressionKind::ListAccess { expr: *inner, index: *index }));
            match check_no_postfix_increment_decrement(inner) {
                Ok(v) => v,
                Err(e) => {
                    return Err(e);
                },
            };
            check_no_postfix_increment_decrement(index)
        },
        ExpressionKind::ListLiteral(elements) => {
            assert(expr.kind == ExpressionKind::ListLiteral(*elements));
            check_no_postfix_increment_decrement_all(elements)
        },
        ExpressionKind::SetLiteral(elements) => {
            assert(expr.kind == ExpressionKind::SetLiteral(*elements));
            check_no_postfix_increment_decrement_all(elements)
        },
        ExpressionKind::MapLiteral { key_type, value_type, entries } => {
            assert(expr.kind == (ExpressionKind::MapLiteral {
                key_type: *key_type,
                value_type: *value_type,
                entries: *entries,
            }));
            check_no_postfix_increment_decrement_map_entries(entries)
        },
        ExpressionKind::If { cond, then_expr, else_expr } => {
            assert(expr.kind == (ExpressionKind::If {
                cond: *cond,
                then_expr: *then_expr,
                else_expr: *else_expr,
            }));
            match check_no_postfix_increment_decrement(cond) {
                Ok(v) => v,
                Err(e) => {
                    return Err(e);
                },
            };
            match check_no_postfix_increment_decrement(then_expr) {
                Ok(v) => v,
                Err(e) => {
                    return Err(e);
                },
            };
            check_no_postfix_increment_decrement(else_expr)
        },
        ExpressionKind::Lambda { params, return_type, body, where_clause } => {
            assert(expr.kind == (ExpressionKind::Lambda {
                params: *params,
                return_type: *return_type,
                body: *body,
                where_clause: *where_clause,
            }));
            check_no_postfix_increment_decrement_lambda_body(body)
        },
        _ => Ok(()),
    }
}

fn check_no_postfix_increment_decrement_all(expressions: &Vec<ExpressionNode>) -> (r: ParserResult<
    (),
>)
    ensures
        verdict(r) == nested_update_in(exprs_of(expressions@), expressions@.len() as int),
    decreases expressions,
{
    proof {
        reveal(nested_update);
        reveal(nested_update_in);
        reveal(nested_update_entries);
        reveal(nested_update_body);
    }
    let mut i: usize = 0;
    let ghost es = exprs_of(expressions@);
    while i < expressions.len()
        invariant
            i <= expressions@.len(),
            es == exprs_of(expressions@),
            es.len() == expressions@.len(),
            nested_update_in(es, i as int) is None,
        decreases expressions@.len() - i,
    {
        proof {
            reveal(nested_update);
            reveal(nested_update_in);
            reveal(nested_update_entries);
            reveal(nested_update_body);
        }
        match check_no_postfix_increment_decrement(&expressions[i]) {
            Ok(_) => {},
            Err(e) => {
                proof {
                    first_nested_update_stays(es, i + 1, es.len() as int);
                }
                return Err(e);
            },
        }
        i += 1;
    }
    Ok(())
}

proof fn first_nested_update_stays(es: Seq<ExprTree>, i: int, n: int)
    requires
        0 <= i <= n <= es.len(),
        nested_update_in(es, i) is Some,
    ensures
        nested_update_in(es, n) == nested_update_in(es, i),
    decreases n - i,
{
    reveal(nested_update);
    reveal(nested_update_in);
    reveal(nested_update_entries);
    reveal(nested_update_body);
    if i < n {
        first_nested_update_stays(es, i, n - 1);
    }
}

fn check_no_postfix_increment_decrement_map_entries(entries: &Vec<MapEntry>) -> (r: ParserResult<()>)
    ensures
        verdict(r) == nested_update_entries(map_entrys_of(entries@), entries@.len() as int),
    decreases entries,
{
    proof {
        reveal(nested_update);
        reveal(nested_update_in);
        reveal(nested_update_entries);
        reveal(nested_update_body);
    }
    let mut i: usize = 0;
    let ghost es = map_entrys_of(entries@);
    while i < entries.len()
        invariant
            i <= entries@.len(),
            es == map_entrys_of(entries@),
            es.len() == entries@.len(),
            nested_update_entries(es, i as int) is None,
        decreases entries@.len() - i,
    {
        proof {
            reveal(nested_update);
            reveal(nested_update_in);
            reveal(nested_update_entries);
            reveal(nested_update_body);
        }
        let first = check_no_postfix_increment_decrement(&entries[i].key);
        let both = match first {
            Ok(_) => check_no_postfix_increment_decrement(&entries[i].value),
            Err(e) => Err(e),
        };
        match both {
            Ok(_) => {},
            Err(e) => {
                proof {
                    first_nested_entry_stays(es, i + 1, es.len() as int);
                }
                return Err(e);
            },
        }
        i += 1;
    }
    Ok(())
}

proof fn first_nested_entry_stays(es: Seq<crate::ast::tree::MapEntryTree>, i: int, n: int)
    requires
        0 <= i <= n <= es.len(),
        nested_update_entries(es, i) is Some,
    ensures
        nested_update_entries(es, n) == nested_update_entries(es, i),
    decreases n - i,
{
    reveal(nested_update);
    reveal(nested_update_in);
    reveal(nested_update_entries);
    reveal(nested_update_body);
    if i < n {
        first_nested_entry_stays(es, i, n - 1);
    }
}

/// In a lambda's body a bare update is a statement; only one that is nested
/// in a larger expression is rejected.
fn check_no_postfix_increment_decrement_lambda_body(body: &Vec<StatementNode>) -> (r: ParserResult<
    (),
>)
    ensures
        verdict(r) == nested_update_body(stmts_of(body@), body@.len() as int),
    decreases body,
{
    proof {
        reveal(nested_update);
        reveal(nested_update_in);
        reveal(nested_update_entries);
        reveal(nested_update_body);
    }
    let mut i: usize = 0;
    let ghost ss = stmts_of(body@);
    while i < body.len()
        invariant
            i <= body@.len(),
            ss == stmts_of(body@),
            ss.len() == body@.len(),
            nested_update_body(ss, i as int) is None,
        decreases body@.len() - i,
    {
        proof {
            reveal(nested_update);
            reveal(nested_update_in);
            reveal(nested_update_entries);
            reveal(nested_update_body);
        }
        let statement = &body[i];
        proof {
            statement_kind_variant(statement.kind);
        }
        let checked = match &statement.kind {
            StatementKind::Expression(expr) => {
                proof {
                    expression_kind_variant(expr.kind);
                }
                assert(statement.kind == StatementKind::Expression(*expr));
                match &expr.kind {
                    ExpressionKind::Unary { op, op_span, expr: inner, postfix } => {
                        assert(expr.kind == (ExpressionKind::Unary {
                            op: *op,
                            op_span: *op_span,
                            expr: *inner,
                            postfix: *postfix,
                        }));
                        if *postfix && (*op == UnaryOp::Incr || *op == UnaryOp::Decr) {
                            check_no_postfix_increment_decrement(inner)
                        } else {
                            check_no_postfix_increment_decrement(expr)
                        }
                    },
                    _ => check_no_postfix_increment_decrement(expr),
                }
            },
            _ => Ok(()),
        };
        match checked {
            Ok(_) => {},
            Err(e) => {
                proof {
                    first_nested_statement_stays(ss, i + 1, ss.len() as int);
                }
                return Err(e);
            },
        }
        i += 1;
    }
    Ok(())
}

proof fn first_nested_statement_stays(ss: Seq<StmtTree>, i: int, n: int)
    requires
        0 <= i <= n <= ss.len(),
        nested_update_body(ss, i) is Some,
    ensures
        nested_update_body(ss, n) == nested_update_body(ss, i),
    decreases n - i,
{
    reveal(nested_update);
    reveal(nested_update_in);
    reveal(nested_update_entries);
    reveal(nested_update_body);
    if i < n {
        first_nested_statement_stays(ss, i, n - 1);
    }
}

/// Checks that an update is the whole of an expression statement.
pub fn validate_postfix_in_statement(expr: &ExpressionNode) -> (r: ParserResult<()>)
    ensures
        verdict(r) == misplaced_update(expr.tree()),
{
    proof {
        reveal(misplaced_update);
    }
    proof {
        expression_kind_variant(expr.kind);
    }
    match &expr.kind {
        ExpressionKind::Unary { op, op_span, expr: inner, postfix } => {
            assert(expr.kind == (ExpressionKind::Unary {
                op: *op,
                op_span: *op_span,
                expr: *inner,
                postfix: *postfix,
            }));
            if *postfix && (*op == UnaryOp::Incr || *op == UnaryOp::Decr) {
                return Ok(());
            }
        },
        _ => {},
    }
    check_no_postfix_increment_decrement(expr)
}

/// The name that type arguments behind an expression would belong to.
fn generic_target_name(expr: &ExpressionNode) -> (r: Option<String>)
    ensures
        match r {
            Some(s) => generic_target(expr.tree()) == Some(s@),
            None => generic_target(expr.tree()) is None,
        },
{
    proof {
        expression_kind_variant(expr.kind);
    }
    match &expr.kind {
        ExpressionKind::Identifier(id) => {
            assert(expr.kind == ExpressionKind::Identifier(*id));
            Some(id.clone())
        },
        ExpressionKind::FieldAccess { expr: base, field } => {
            assert(expr.kind == (ExpressionKind::FieldAccess { expr: *base, field: *field }));
            proof {
                expression_kind_variant(base.kind);
            }
            match &base.kind {
                ExpressionKind::Identifier(name) => {
                    assert(base.kind == ExpressionKind::Identifier(*name));
                    let mut out = name.clone();
                    out.push('.');
                    out.append(field.as_str());
                    Some(out)
                },
                _ => Some(field.clone()),
            }
        },
        _ => None,
    }
}

impl<'a> Parser<'a> {
    /// An expression.
    pub fn parse_expression(&mut self) -> (r: ParserResult<ExpressionNode>)
        requires
            old(self).wf(),
        ensures
            went(*old(self), *final(self)),
            r is Ok ==> old(self).current < final(self).current,
            step(final(self).st(), r, |e: ExpressionNode| e.tree()) == expression(old(self).tokens@, old(self).st()),
        decreases old(self).tokens@.len() - old(self).current, 50int,
    {
        proof {
            expression_def(self.tokens@, self.st());
        }
        self.parse_precedence(Precedence::Assignment)
    }

    /// An expression whose operators bind at least as tightly as the given
    /// precedence.
    pub(crate) fn parse_precedence(&mut self, min_precedence: Precedence) -> (r: ParserResult<ExpressionNode>)
        requires
            old(self).wf(),
        ensures
            went(*old(self), *final(self)),
            r is Ok ==> old(self).current < final(self).current,
            step(final(self).st(), r, |e: ExpressionNode| e.tree()) == precedence(old(self).tokens@, old(self).st(), min_precedence),
        decreases old(self).tokens@.len() - old(self).current, 40int,
    {
        proof {
            precedence_def(self.tokens@, self.st(), min_precedence);
        }
        let ghost ts = self.tokens@;
        let mut value = match self.parse_unary() {
            Ok(v) => v,
            Err(e) => {
                return Err(e);
            },
        };
        loop
            invariant
                went(*old(self), *self),
                old(self).current < self.current,
                ts == self.tokens@,
                precedence(ts, old(self).st(), min_precedence) == binary_rest(
                    ts,
                    self.st(),
                    value.tree(),
                    min_precedence,
                ),
            decreases ts.len() - self.current,
        {
            proof {
                binary_rest_def(ts, self.st(), value.tree(), min_precedence);
            }
            let op = match self.peek_operator() {
                Some(op) => op,
                None => {
                    return Ok(value);
                },
            };
            let op_precedence = op.precedence();
            if op_precedence.rank() < min_precedence.rank() {
                return Ok(value);
            }
            self.current += 1;
            let next_precedence = if op.is_right_associative() {
                op_precedence
            } else {
                op_precedence.next_higher()
            };
            let right = match self.parse_precedence(next_precedence) {
                Ok(v) => v,
                Err(e) => {
                    return Err(e);
                },
            };
            let op_span = self.previous().span;
            let span = combine(value.span, right.span);
            value = ExpressionNode { kind: ExpressionKind::Binary {
                    left: Box::new(value),
                    op,
                    op_span,
                    right: Box::new(right),
                },
                span,
            };
        }
    }

    /// The binary operator that the current token is.
    fn peek_operator(&self) -> (r: Option<BinaryOp>)
        requires
            self.wf(),
        ensures
            r == (if self.current < self.tokens@.len() {
                BinaryOp::of(self.tokens@[self.current as int].token_type)
            } else {
                None
            }),
    {
        if self.is_at_end() {
            return None;
        }
        BinaryOp::parse(&self.peek().token_type)
    }

    /// An operand with its prefix and postfix operators.
    pub(crate) fn parse_unary(&mut self) -> (r: ParserResult<ExpressionNode>)
        requires
            old(self).wf(),
        ensures
            went(*old(self), *final(self)),
            r is Ok ==> old(self).current < final(self).current,
            step(final(self).st(), r, |e: ExpressionNode| e.tree()) == unary(old(self).tokens@, old(self).st()),
        decreases old(self).tokens@.len() - old(self).current, 30int,
    {
        proof {
            unary_def(self.tokens@, self.st());
        }
        if !self.is_at_end() {
            let token = self.tokens[self.current];
            match UnaryOp::parse(&token.token_type) {
                Some(op) => {
                    self.current += 1;
                    if op == UnaryOp::Incr || op == UnaryOp::Decr {
                        return Err(
                            ParserError::with_help(
                                DiagnosticCode::ParseExpectedToken,
                                "Increment/Decrement operator can only be used in the postfix position",
                                token.span,
                                "Place the operator after the variable: 'x++' or 'x--' instead of '++x' or '--x'",
                            ),
                        );
                    }
                    let expr = match self.parse_precedence(Precedence::Unary) {
                        Ok(v) => v,
                        Err(e) => {
                            return Err(e);
                        },
                    };
                    let span = combine(token.span, expr.span);
                    return Ok(
                        ExpressionNode { kind: ExpressionKind::Unary {
                                op,
                                op_span: token.span,
                                expr: Box::new(expr),
                                postfix: false,
                            },
                            span,
                        },
                    );
                },
                None => {},
            }
        }
        let expr = match self.parse_primary() {
            Ok(v) => v,
            Err(e) => {
                return Err(e);
            },
        };
        self.parse_postfix_operators(expr)
    }

    /// The error of a token that starts no expression.
    fn unexpected_primary_error(token: &Token) -> (r: ParserError)
        requires
            !crate::parser::describe::is_comment(&token.token_type),
        ensures
            r@ == no_expression(*token),
    {
        proof {
            reveal(no_expression);
        }
        match &token.token_type {
            TokenType::Match => ParserError::with_help(
                DiagnosticCode::ParseExpectedToken,
                "match cannot be used as an expression; it can only be used as a statement",
                token.span,
                "Use 'match' as a standalone statement with 'return' in each arm, or use an if/else expression for inline conditionals.",
            ),
            TokenType::Return => ParserError::with_help(
                DiagnosticCode::ParseExpectedToken,
                "Unexpected 'return' statement",
                token.span,
                "'return' can only be used inside a function body",
            ),
            _ => ParserError::from_token(
                DiagnosticCode::ParseExpectedExpression,
                cat(
                    "Expected expression, found ",
                    describe_token(&token.token_type).as_str(),
                ).as_str(),
                token,
            ),
        }
    }

    /// An operand: a literal, a name, or an expression between brackets.
    pub(crate) fn parse_primary(&mut self) -> (r: ParserResult<ExpressionNode>)
        requires
            old(self).wf(),
        ensures
            went(*old(self), *final(self)),
            r is Ok ==> old(self).current < final(self).current,
            step(final(self).st(), r, |e: ExpressionNode| e.tree()) == primary(old(self).tokens@, old(self).st()),
        decreases old(self).tokens@.len() - old(self).current, 20int,
    {
        proof {
            primary_def(self.tokens@, self.st());
        }
        if self.is_at_end() {
            return Err(
                ParserError::new(
                    DiagnosticCode::ParseExpectedExpression,
                    "Expected expression, found end of input",
                    self.peek().span,
                ),
            );
        }
        let token = self.tokens[self.current];
        let span = token.span;
        self.current += 1;
        let kind = match &token.token_type {
            TokenType::OpenParen => {
                return self.parse_parenthesized_or_tuple_expression(span);
            },
            TokenType::OpenBracket => {
                return self.parse_list_literal_expression(span);
            },
            TokenType::OpenBrace => {
                return self.parse_collection_literal(span);
            },
            TokenType::Func => {
                return self.parse_lambda_expression(span);
            },
            TokenType::If => {
                return self.parse_if_expression(span);
            },
            TokenType::Int(n) => ExpressionKind::Literal(LiteralNode::Integer(*n)),
            TokenType::Bool(b) => ExpressionKind::Literal(LiteralNode::Boolean(*b)),
            TokenType::NoneKeyword => ExpressionKind::NoneValue,
            TokenType::Char(c) => ExpressionKind::Literal(LiteralNode::Char(*c)),
            TokenType::Str(s) => ExpressionKind::Literal(LiteralNode::String(s.clone())),
            TokenType::Float(f) => ExpressionKind::Literal(
                LiteralNode::Float(FloatLiteral { text: f.text.clone() }),
            ),
            TokenType::Id(id) => ExpressionKind::Identifier(id.clone()),
            _ => {
                return Err(Self::unexpected_primary_error(token));
            },
        };
        self.parse_postfix_operators(ExpressionNode { kind, span })
    }

    /// The postfix operators behind an expression.
    pub(crate) fn parse_postfix_operators(&mut self, first: ExpressionNode) -> (r: ParserResult<ExpressionNode>)
        requires
            old(self).wf(),
        ensures
            went(*old(self), *final(self)),
            step(final(self).st(), r, |e: ExpressionNode| e.tree()) == postfix(old(self).tokens@, old(self).st(), first.tree()),
        decreases old(self).tokens@.len() - old(self).current, 10int,
    {
        proof {
            postfix_def(self.tokens@, self.st(), first.tree());
        }
        let ghost ts = self.tokens@;
        let ghost start = first.tree();
        let mut expr = first;
        loop
            invariant
                went(*old(self), *self),
                ts == self.tokens@,
                start == first.tree(),
                postfix(ts, old(self).st(), start) == postfix(ts, self.st(), expr.tree()),
            decreases ts.len() - self.current,
        {
            proof {
                postfix_def(ts, self.st(), expr.tree());
            }
            if self.take(TokenType::OpenParen) {
                expr = match self.parse_call_postfix(expr) {
                    Ok(v) => v,
                    Err(e) => {
                        return Err(e);
                    },
                };
            } else if self.take(TokenType::Dot) {
                expr = match self.parse_field_access_postfix(expr) {
                    Ok(v) => v,
                    Err(e) => {
                        return Err(e);
                    },
                };
            } else if self.take(TokenType::OpenBracket) {
                expr = match self.parse_index_postfix(expr) {
                    Ok(v) => v,
                    Err(e) => {
                        return Err(e);
                    },
                };
            } else if self.check(TokenType::Lt) {
                let name = match self.should_consume_generic_type_args(&expr) {
                    Some(name) => name,
                    None => {
                        return Ok(expr);
                    },
                };
                self.current += 1;
                let args = match self.parse_type_arguments() {
                    Ok(v) => v,
                    Err(e) => {
                        return Err(e);
                    },
                };
                let end_span = match self.consume_token(
                    TokenType::Gt,
                    "Expected '>' after type arguments",
                ) {
                    Ok(v) => v,
                    Err(e) => {
                        return Err(e);
                    },
                };
                expr = ExpressionNode { kind: ExpressionKind::GenericType(name, args),
                    span: combine(expr.span, end_span),
                };
            } else if self.take(TokenType::Incr) {
                expr = self.parse_postfix_update(expr, UnaryOp::Incr);
            } else if self.take(TokenType::Decr) {
                expr = self.parse_postfix_update(expr, UnaryOp::Decr);
            } else if !self.skip_newline_gap_for_postfix() {
                return Ok(expr);
            }
        }
    }

    /// An update of `expr` by the operator that was just taken.
    fn parse_postfix_update(&self, expr: ExpressionNode, op: UnaryOp) -> (r: ExpressionNode)
        requires
            self.wf(),
        ensures
            r.tree() == (ExprTree {
                kind: crate::ast::tree::ExprShape::Unary {
                    op,
                    op_span: before(self.tokens@, self.current as int).span,
                    expr: Box::new(expr.tree()),
                    postfix: true,
                },
                span: combine(
                    expr.tree().span,
                    before(self.tokens@, self.current as int).span,
                ),
            }),
    {
        let op_span = self.previous().span;
        let span = combine(expr.span, op_span);
        ExpressionNode { kind: ExpressionKind::Unary { op, op_span, expr: Box::new(expr), postfix: true },
            span,
        }
    }

    /// Moves over newlines to a postfix operator on a following line.
    fn skip_newline_gap_for_postfix(&mut self) -> (r: bool)
        requires
            old(self).wf(),
        ensures
            went(*old(self), *final(self)),
            r == (postfix_gap(old(self).tokens@, old(self).current as int) is Some),
            r ==> old(self).current < final(self).current,
            final(self).st() == (if r {
                old(self).st().at(postfix_gap(old(self).tokens@, old(self).current as int)->0)
            } else {
                old(self).st()
            }),
    {
        let end = self.newlines_end();
        if end > self.current && (self.token_is(end, TokenType::Dot) || self.token_is(
            end,
            TokenType::OpenParen,
        ) || self.token_is(end, TokenType::OpenBracket)) {
            self.current = end;
            true
        } else {
            false
        }
    }

    /// The generic type's name, where `<` opens type arguments.
    fn should_consume_generic_type_args(&self, expr: &ExpressionNode) -> (r: Option<String>)
        requires
            self.wf(),
            self.current < self.tokens@.len(),
        ensures
            match r {
                Some(s) => generic_at(self.tokens@, self.current as int, expr.tree()) == Some(s@),
                None => generic_at(self.tokens@, self.current as int, expr.tree()) is None,
            },
    {
        proof {
            reveal(generic_at);
        }
        let name = match generic_target_name(expr) {
            Some(name) => name,
            None => {
                return None;
            },
        };
        match self.find_matching_generic_gt_index() {
            Some(gt) => {
                if self.should_consume_generics_for_target(name.as_str(), gt) {
                    Some(name)
                } else {
                    None
                }
            },
            None => None,
        }
    }

    /// The `>` that balances the `<` at the current token, on the same line.
    fn find_matching_generic_gt_index(&self) -> (r: Option<usize>)
        requires
            self.wf(),
            self.current < self.tokens@.len(),
        ensures
            match r {
                Some(i) => i < self.tokens@.len() && matching_gt(
                    self.tokens@,
                    self.current + 1,
                    1,
                ) == Some(i as int),
                None => matching_gt(self.tokens@, self.current + 1, 1) is None,
            },
    {
        proof {
            reveal(matching_gt);
        }
        let mut i: usize = self.current + 1;
        let mut depth: usize = 1;
        while i < self.tokens.len()
            invariant
                self.wf(),
                self.current < i <= self.tokens@.len(),
                1 <= depth <= i,
                matching_gt(self.tokens@, self.current + 1, 1) == matching_gt(
                    self.tokens@,
                    i as int,
                    depth as int,
                ),
            decreases self.tokens@.len() - i,
        {
            proof {
                reveal(matching_gt);
            }
            match &self.tokens[i].token_type {
                TokenType::Lt => {
                    depth += 1;
                },
                TokenType::Gt => {
                    if depth == 1 {
                        return Some(i);
                    }
                    depth -= 1;
                },
                TokenType::Eof
                | TokenType::NewLine
                | TokenType::OpenBrace
                | TokenType::CloseBrace => {
                    return None;
                },
                _ => {},
            }
            i += 1;
        }
        None
    }

    /// Whether type arguments that end at `gt_idx` belong to a name.
    fn should_consume_generics_for_target(&self, generic_target_name: &str, gt_idx: usize) -> (r: bool)
        requires
            self.wf(),
            gt_idx < self.tokens@.len(),
        ensures
            r == takes_type_args(self.tokens@, generic_target_name@, gt_idx as int),
    {
        proof {
            reveal(takes_type_args);
        }
        if gt_idx + 1 < self.tokens.len() {
            let chars = chars_of(generic_target_name);
            let capital = chars.len() > 0 && 'A' <= chars[0] && chars[0] <= 'Z';
            match &self.tokens[gt_idx + 1].token_type {
                TokenType::Dot
                | TokenType::OpenParen
                | TokenType::CloseParen
                | TokenType::Eq
                | TokenType::NewLine
                | TokenType::Eof => true,
                _ => capital,
            }
        } else {
            true
        }
    }

    /// A call behind its opening parenthesis.
    pub(crate) fn parse_call_postfix(&mut self, expr: ExpressionNode) -> (r: ParserResult<ExpressionNode>)
        requires
            old(self).wf(),
        ensures
            went(*old(self), *final(self)),
            r is Ok ==> old(self).current < final(self).current,
            step(final(self).st(), r, |e: ExpressionNode| e.tree()) == call_rest(old(self).tokens@, old(self).st(), expr.tree()),
        decreases old(self).tokens@.len() - old(self).current, 75int,
    {
        proof {
            call_rest_def(self.tokens@, self.st(), expr.tree());
        }
        let args = match self.parse_call_args() {
            Ok(v) => v,
            Err(e) => {
                return Err(e);
            },
        };
        let end_span = match self.consume_token(
            TokenType::CloseParen,
            "Expected ')' after arguments",
        ) {
            Ok(v) => v,
            Err(e) => {
                return Err(e);
            },
        };
        let span = combine(expr.span, end_span);
        Ok(ExpressionNode { kind: ExpressionKind::Call { func: Box::new(expr), args }, span })
    }

    /// The arguments of a call. A trailing comma ends the list.
    pub(crate) fn parse_call_args(&mut self) -> (r: ParserResult<Vec<ExpressionNode>>)
        requires
            old(self).wf(),
        ensures
            went(*old(self), *final(self)),
            step(final(self).st(), r, |v: Vec<ExpressionNode>| exprs_of(v@)) == call_args(old(self).tokens@, old(self).st()),
        decreases old(self).tokens@.len() - old(self).current, 70int,
    {
        proof {
            call_args_def(self.tokens@, self.st());
        }
        let mut args: Vec<ExpressionNode> = Vec::new();
        if self.check(TokenType::CloseParen) {
            return Ok(args);
        }
        let ghost ts = self.tokens@;
        loop
            invariant
                went(*old(self), *self),
                ts == self.tokens@,
                call_args(ts, old(self).st()) == call_args_from(ts, self.st(), exprs_of(args@)),
            decreases ts.len() - self.current,
        {
            proof {
                call_args_from_def(ts, self.st(), exprs_of(args@));
            }
            self.skip_newlines();
            let arg = match self.parse_expression() {
                Ok(v) => v,
                Err(e) => {
                    return Err(e);
                },
            };
            args.push(arg);
            self.skip_newlines();
            if !self.take(TokenType::Comma) {
                return Ok(args);
            }
            self.skip_newlines();
            if self.check(TokenType::CloseParen) {
                return Ok(args);
            }
        }
    }

    /// A field access behind its dot.
    pub(crate) fn parse_field_access_postfix(&mut self, expr: ExpressionNode) -> (r: ParserResult<ExpressionNode>)
        requires
            old(self).wf(),
        ensures
            went(*old(self), *final(self)),
            r is Ok ==> old(self).current < final(self).current,
            step(final(self).st(), r, |e: ExpressionNode| e.tree()) == field_rest(old(self).tokens@, old(self).st(), expr.tree()),
    {
        let field = match self.consume_identifier("Expected field name after '.'") {
            Ok(v) => v,
            Err(e) => {
                return Err(e);
            },
        };
        let field_span = self.previous().span;
        let span = combine(expr.span, field_span);
        Ok(
            ExpressionNode { kind: ExpressionKind::FieldAccess { expr: Box::new(expr), field },
                span,
            },
        )
    }

    /// An index or a slice behind its opening bracket.
    pub(crate) fn parse_index_postfix(&mut self, expr: ExpressionNode) -> (r: ParserResult<ExpressionNode>)
        requires
            old(self).wf(),
        ensures
            went(*old(self), *final(self)),
            r is Ok ==> old(self).current < final(self).current,
            step(final(self).st(), r, |e: ExpressionNode| e.tree()) == index_or_slice(old(self).tokens@, old(self).st(), expr.tree()),
        decreases old(self).tokens@.len() - old(self).current, 60int,
    {
        proof {
            index_or_slice_def(self.tokens@, self.st(), expr.tree());
        }
        if self.take(TokenType::Colon) {
            return self.finish_slice(expr, None);
        }
        let index = match self.parse_expression() {
            Ok(v) => v,
            Err(e) => {
                return Err(e);
            },
        };
        if self.take(TokenType::Colon) {
            return self.finish_slice(expr, Some(Box::new(index)));
        }
        let end_span = match self.consume_token(TokenType::CloseBracket, "Expected ']' after index") {
            Ok(v) => v,
            Err(e) => {
                return Err(e);
            },
        };
        let span = combine(expr.span, end_span);
        Ok(
            ExpressionNode { kind: ExpressionKind::ListAccess { expr: Box::new(expr), index: Box::new(index) },
                span,
            },
        )
    }

    /// A slice behind its colon; the end bound is optional.
    pub(crate) fn finish_slice(&mut self, expr: ExpressionNode, start: Option<Box<ExpressionNode>>) -> (r: ParserResult<ExpressionNode>)
        requires
            old(self).wf(),
        ensures
            went(*old(self), *final(self)),
            r is Ok ==> old(self).current < final(self).current,
            step(final(self).st(), r, |e: ExpressionNode| e.tree()) == slice(old(self).tokens@, old(self).st(), expr.tree(), boxed_tree(start)),
        decreases old(self).tokens@.len() - old(self).current, 60int,
    {
        proof {
            slice_def(self.tokens@, self.st(), expr.tree(), boxed_tree(start));
        }
        if self.take(TokenType::CloseBracket) {
            let end_span = self.previous().span;
            let span = combine(expr.span, end_span);
            return Ok(
                ExpressionNode { kind: ExpressionKind::Slice { expr: Box::new(expr), start, end: None },
                    span,
                },
            );
        }
        let end = match self.parse_expression() {
            Ok(v) => v,
            Err(e) => {
                return Err(e);
            },
        };
        let end_span = match self.consume_token(TokenType::CloseBracket, "Expected ']' after slice") {
            Ok(v) => v,
            Err(e) => {
                return Err(e);
            },
        };
        let span = combine(expr.span, end_span);
        Ok(
            ExpressionNode { kind: ExpressionKind::Slice {
                    expr: Box::new(expr),
                    start,
                    end: Some(Box::new(end)),
                },
                span,
            },
        )
    }

    /// A parenthesised expression or a tuple, behind its opening parenthesis.
    pub(crate) fn parse_parenthesized_or_tuple_expression(&mut self, start_span: Span) -> (r: ParserResult<ExpressionNode>)
        requires
            old(self).wf(),
        ensures
            went(*old(self), *final(self)),
            r is Ok ==> old(self).current < final(self).current,
            step(final(self).st(), r, |e: ExpressionNode| e.tree()) == parenthesized(old(self).tokens@, old(self).st(), start_span),
        decreases old(self).tokens@.len() - old(self).current, 60int,
    {
        proof {
            parenthesized_def(self.tokens@, self.st(), start_span);
        }
        self.skip_newlines();
        if self.take(TokenType::CloseParen) {
            let end_span = self.previous().span;
            return Err(
                ParserError::with_help(
                    DiagnosticCode::ParseExpectedToken,
                    "Tuple must have exactly 2 elements, found empty parentheses",
                    combine(start_span, end_span),
                    "Tuples are created with two elements: (value1, value2). Example: auto pair = (1, \"hello\")",
                ),
            );
        }
        let first = match self.parse_expression() {
            Ok(v) => v,
            Err(e) => {
                return Err(e);
            },
        };
        self.skip_newlines();
        if self.take(TokenType::Comma) {
            self.skip_newlines();
            if self.take(TokenType::CloseParen) {
                let end_span = self.previous().span;
                return Err(
                    ParserError::with_help(
                        DiagnosticCode::ParseExpectedToken,
                        "Tuple must have exactly 2 elements, found only 1",
                        combine(start_span, end_span),
                        "Tuples require exactly two elements: (value1, value2). A trailing comma after a single value is not allowed.",
                    ),
                );
            }
            let second = match self.parse_expression() {
                Ok(v) => v,
                Err(e) => {
                    return Err(e);
                },
            };
            self.skip_newlines();
            match self.consume_token(TokenType::CloseParen, "Expected ')' after tuple elements") {
                Ok(v) => v,
                Err(e) => {
                    return Err(e);
                },
            };
            let end_span = self.previous().span;
            let mut elements: Vec<ExpressionNode> = Vec::new();
            let ghost pair = seq![first.tree(), second.tree()];
            elements.push(first);
            elements.push(second);
            assert(exprs_of(elements@) =~= pair);
            return self.parse_postfix_operators(
                ExpressionNode { kind: ExpressionKind::TupleLiteral(elements),
                    span: combine(start_span, end_span),
                },
            );
        }
        match self.consume_token(TokenType::CloseParen, "Expected ')' after expression") {
            Ok(v) => v,
            Err(e) => {
                return Err(e);
            },
        };
        self.parse_postfix_operators(first)
    }

    /// A list literal behind its opening bracket.
    pub(crate) fn parse_list_literal_expression(&mut self, start_span: Span) -> (r: ParserResult<ExpressionNode>)
        requires
            old(self).wf(),
        ensures
            went(*old(self), *final(self)),
            r is Ok ==> old(self).current < final(self).current,
            step(final(self).st(), r, |e: ExpressionNode| e.tree()) == list_literal(old(self).tokens@, old(self).st(), start_span),
        decreases old(self).tokens@.len() - old(self).current, 80int,
    {
        proof {
            list_literal_def(self.tokens@, self.st(), start_span);
        }
        self.skip_newlines();
        let elements = match self.parse_list_elements() {
            Ok(v) => v,
            Err(e) => {
                return Err(e);
            },
        };
        self.skip_newlines();
        let end_span = match self.consume_token(
            TokenType::CloseBracket,
            "Expected ']' after list elements",
        ) {
            Ok(v) => v,
            Err(e) => {
                return Err(e);
            },
        };
        self.parse_postfix_operators(
            ExpressionNode { kind: ExpressionKind::ListLiteral(elements),
                span: combine(start_span, end_span),
            },
        )
    }

    /// The elements of a list literal.
    pub(crate) fn parse_list_elements(&mut self) -> (r: ParserResult<Vec<ExpressionNode>>)
        requires
            old(self).wf(),
        ensures
            went(*old(self), *final(self)),
            step(final(self).st(), r, |v: Vec<ExpressionNode>| exprs_of(v@)) == list_elements(old(self).tokens@, old(self).st()),
        decreases old(self).tokens@.len() - old(self).current, 70int,
    {
        proof {
            list_elements_def(self.tokens@, self.st());
        }
        let mut elements: Vec<ExpressionNode> = Vec::new();
        if self.check(TokenType::CloseBracket) {
            return Ok(elements);
        }
        let ghost ts = self.tokens@;
        loop
            invariant
                went(*old(self), *self),
                ts == self.tokens@,
                list_elements(ts, old(self).st()) == list_elements_from(
                    ts,
                    self.st(),
                    exprs_of(elements@),
                ),
            decreases ts.len() - self.current,
        {
            proof {
                list_elements_from_def(ts, self.st(), exprs_of(elements@));
            }
            let element = match self.parse_expression() {
                Ok(v) => v,
                Err(e) => {
                    return Err(e);
                },
            };
            elements.push(element);
            self.skip_newlines();
            if self.take(TokenType::Comma) {
                self.skip_newlines();
                if self.check(TokenType::CloseBracket) {
                    return Ok(elements);
                }
            } else if !self.consume_newline_delimited_comma(TokenType::CloseBracket) {
                return Ok(elements);
            }
        }
    }

    /// Takes a comma behind newlines, where another element follows it.
    fn consume_newline_delimited_comma(&mut self, close: TokenType) -> (r: bool)
        requires
            old(self).wf(),
        ensures
            went(*old(self), *final(self)),
            (final(self).st(), r) == comma_after_newlines(
                old(self).tokens@,
                old(self).st(),
                close,
            ),
    {
        let end = self.newlines_end();
        if end == self.current || !self.token_is(end, TokenType::Comma) {
            return false;
        }
        if end + 1 >= self.tokens.len() || self.token_is(end + 1, TokenType::NewLine)
            || self.token_is(end + 1, TokenType::Comma) || self.token_is(end + 1, close) {
            return false;
        }
        self.current = end + 1;
        self.skip_newlines();
        true
    }

    /// A set or map literal behind its opening brace.
    pub(crate) fn parse_collection_literal(&mut self, start_span: Span) -> (r: ParserResult<ExpressionNode>)
        requires
            old(self).wf(),
        ensures
            went(*old(self), *final(self)),
            r is Ok ==> old(self).current < final(self).current,
            step(final(self).st(), r, |e: ExpressionNode| e.tree()) == collection(old(self).tokens@, old(self).st(), start_span),
        decreases old(self).tokens@.len() - old(self).current, 80int,
    {
        proof {
            collection_def(self.tokens@, self.st(), start_span);
        }
        self.skip_newlines();
        if self.check(TokenType::CloseBrace) {
            return self.parse_empty_set(start_span);
        }
        if self.check(TokenType::Colon) {
            return self.parse_empty_map(start_span);
        }
        let first = match self.parse_expression() {
            Ok(v) => v,
            Err(e) => {
                return Err(e);
            },
        };
        if self.take(TokenType::Colon) {
            let value = match self.parse_expression() {
                Ok(v) => v,
                Err(e) => {
                    return Err(e);
                },
            };
            let mut entries: Vec<MapEntry> = Vec::new();
            entries.push(MapEntry { key: first, value });
            let entries = match self.parse_map_entries(entries) {
                Ok(v) => v,
                Err(e) => {
                    return Err(e);
                },
            };
            let end_span = match self.consume_token(
                TokenType::CloseBrace,
                "Expected '}' after collection",
            ) {
                Ok(v) => v,
                Err(e) => {
                    return Err(e);
                },
            };
            Ok(Self::map_literal(entries, start_span, end_span))
        } else {
            let mut elements: Vec<ExpressionNode> = Vec::new();
            elements.push(first);
            let elements = match self.parse_set_entries(elements) {
                Ok(v) => v,
                Err(e) => {
                    return Err(e);
                },
            };
            let end_span = match self.consume_token(
                TokenType::CloseBrace,
                "Expected '}' after collection",
            ) {
                Ok(v) => v,
                Err(e) => {
                    return Err(e);
                },
            };
            Ok(
                ExpressionNode { kind: ExpressionKind::SetLiteral(elements),
                    span: combine(start_span, end_span),
                },
            )
        }
    }

    /// The map literal with the given entries.
    fn map_literal(entries: Vec<MapEntry>, start_span: Span, end_span: Span) -> (r: ExpressionNode)
        ensures
            r.tree() == (ExprTree {
                kind: crate::ast::tree::ExprShape::MapLiteral {
                    key_type: crate::parser::grammar::auto_type(start_span),
                    value_type: crate::parser::grammar::auto_type(start_span),
                    entries: map_entrys_of(entries@),
                },
                span: combine(start_span, end_span),
            }),
    {
        ExpressionNode { kind: ExpressionKind::MapLiteral {
                key_type: Box::new(TypeNode { kind: TypeKind::Auto, span: start_span }),
                value_type: Box::new(TypeNode { kind: TypeKind::Auto, span: start_span }),
                entries,
            },
            span: combine(start_span, end_span),
        }
    }

    /// The empty set, at its closing brace.
    fn parse_empty_set(&mut self, start_span: Span) -> (r: ParserResult<ExpressionNode>)
        requires
            old(self).wf(),
            tok(old(self).tokens@, old(self).current as int, TokenType::CloseBrace),
        ensures
            went(*old(self), *final(self)),
            old(self).current < final(self).current,
            final(self).st() == old(self).st().next(),
            r matches Ok(e) && e.tree() == (ExprTree {
                kind: crate::ast::tree::ExprShape::SetLiteral(seq![]),
                span: combine(start_span, old(self).tokens@[old(self).current as int].span),
            }),
    {
        self.take(TokenType::CloseBrace);
        let end_span = self.previous().span;
        let elements: Vec<ExpressionNode> = Vec::new();
        Ok(
            ExpressionNode { kind: ExpressionKind::SetLiteral(elements),
                span: combine(start_span, end_span),
            },
        )
    }

    /// The empty map, at its colon.
    pub(crate) fn parse_empty_map(&mut self, start_span: Span) -> (r: ParserResult<ExpressionNode>)
        requires
            old(self).wf(),
            tok(old(self).tokens@, old(self).current as int, TokenType::Colon),
        ensures
            went(*old(self), *final(self)),
            r is Ok ==> old(self).current < final(self).current,
            step(final(self).st(), r, |e: ExpressionNode| e.tree()) == empty_map(old(self).tokens@, old(self).st(), start_span),
    {
        self.take(TokenType::Colon);
        self.skip_newlines();
        let end_span = match self.consume_token(TokenType::CloseBrace, "Expected '}' after '{:'") {
            Ok(v) => v,
            Err(e) => {
                return Err(e);
            },
        };
        let entries: Vec<MapEntry> = Vec::new();
        Ok(Self::map_literal(entries, start_span, end_span))
    }

    /// The rest of a set literal's elements.
    pub(crate) fn parse_set_entries(&mut self, first: Vec<ExpressionNode>) -> (r: ParserResult<Vec<ExpressionNode>>)
        requires
            old(self).wf(),
        ensures
            went(*old(self), *final(self)),
            step(final(self).st(), r, |v: Vec<ExpressionNode>| exprs_of(v@)) == set_entries(old(self).tokens@, old(self).st(), exprs_of(first@)),
        decreases old(self).tokens@.len() - old(self).current, 60int,
    {
        proof {
            set_entries_def(self.tokens@, self.st(), exprs_of(first@));
        }
        let ghost ts = self.tokens@;
        let mut elements = first;
        loop
            invariant
                went(*old(self), *self),
                ts == self.tokens@,
                set_entries(ts, old(self).st(), exprs_of(first@)) == set_entries(
                    ts,
                    self.st(),
                    exprs_of(elements@),
                ),
            decreases ts.len() - self.current,
        {
            proof {
                set_entries_def(ts, self.st(), exprs_of(elements@));
            }
            self.skip_newlines();
            if !self.has_comma_or_entry() {
                return Ok(elements);
            }
            let element = match self.parse_expression() {
                Ok(v) => v,
                Err(e) => {
                    return Err(e);
                },
            };
            elements.push(element);
        }
    }

    /// The rest of a map literal's entries.
    pub(crate) fn parse_map_entries(&mut self, first: Vec<MapEntry>) -> (r: ParserResult<Vec<MapEntry>>)
        requires
            old(self).wf(),
        ensures
            went(*old(self), *final(self)),
            step(final(self).st(), r, |v: Vec<MapEntry>| map_entrys_of(v@)) == map_entries(old(self).tokens@, old(self).st(), map_entrys_of(first@)),
        decreases old(self).tokens@.len() - old(self).current, 60int,
    {
        proof {
            map_entries_def(self.tokens@, self.st(), map_entrys_of(first@));
        }
        let ghost ts = self.tokens@;
        let mut entries = first;
        loop
            invariant
                went(*old(self), *self),
                ts == self.tokens@,
                map_entries(ts, old(self).st(), map_entrys_of(first@)) == map_entries(
                    ts,
                    self.st(),
                    map_entrys_of(entries@),
                ),
            decreases ts.len() - self.current,
        {
            proof {
                map_entries_def(ts, self.st(), map_entrys_of(entries@));
            }
            self.skip_newlines();
            if !self.has_comma_or_entry() {
                return Ok(entries);
            }
            let key = match self.parse_expression() {
                Ok(v) => v,
                Err(e) => {
                    return Err(e);
                },
            };
            match self.consume_token(TokenType::Colon, "Expected ':' after map key") {
                Ok(v) => v,
                Err(e) => {
                    return Err(e);
                },
            };
            let value = match self.parse_expression() {
                Ok(v) => v,
                Err(e) => {
                    return Err(e);
                },
            };
            let entry = MapEntry { key, value };
            entries.push(entry);
        }
    }

    /// Whether another entry follows; its separator is taken.
    fn has_comma_or_entry(&mut self) -> (r: bool)
        requires
            old(self).wf(),
        ensures
            went(*old(self), *final(self)),
            (final(self).st(), r) == more_entries(old(self).tokens@, old(self).st()),
    {
        if self.take(TokenType::Comma) {
            self.skip_newlines();
            return !self.check(TokenType::CloseBrace);
        }
        self.consume_newline_delimited_comma(TokenType::CloseBrace)
    }

    /// A lambda behind its `func`.
    pub(crate) fn parse_lambda_expression(&mut self, start_span: Span) -> (r: ParserResult<ExpressionNode>)
        requires
            old(self).wf(),
        ensures
            went(*old(self), *final(self)),
            r is Ok ==> old(self).current < final(self).current,
            step(final(self).st(), r, |e: ExpressionNode| e.tree()) == lambda(old(self).tokens@, old(self).st(), start_span),
        decreases old(self).tokens@.len() - old(self).current, 90int,
    {
        proof {
            lambda_def(self.tokens@, self.st(), start_span);
        }
        match self.consume_token(TokenType::OpenParen, "Expected '(' after 'func' in lambda") {
            Ok(v) => v,
            Err(e) => {
                return Err(e);
            },
        };
        let params = match self.parse_lambda_params() {
            Ok(v) => v,
            Err(e) => {
                return Err(e);
            },
        };
        match self.consume_token(TokenType::CloseParen, "Expected ')' after parameters") {
            Ok(v) => v,
            Err(e) => {
                return Err(e);
            },
        };
        let where_clause = match self.parse_where_clause() {
            Ok(v) => v,
            Err(e) => {
                return Err(e);
            },
        };
        if where_clause.is_some() {
            self.skip_newlines();
        }
        if !self.take(TokenType::Returns) {
            let message = cat(
                "Expected 'returns' after lambda parameters, found ",
                describe_token(&self.peek().token_type).as_str(),
            );
            return Err(
                ParserError::with_help(
                    DiagnosticCode::ParseExpectedToken,
                    message.as_str(),
                    self.peek().span,
                    "Lambda expressions require an explicit return type. Example: func(int x) returns int { return x + 1 }",
                ),
            );
        }
        let return_type = match self.parse_type() {
            Ok(v) => v,
            Err(e) => {
                return Err(e);
            },
        };
        let (body, _) = match self.block() {
            Ok(v) => v,
            Err(e) => {
                return Err(e);
            },
        };
        let end_span = end_of(&body, start_span);
        self.parse_postfix_operators(
            ExpressionNode { kind: ExpressionKind::Lambda { params, return_type, body, where_clause },
                span: combine(start_span, end_span),
            },
        )
    }

    /// The parameters of a lambda, which have no default values.
    pub(crate) fn parse_lambda_params(&mut self) -> (r: ParserResult<Vec<Param>>)
        requires
            old(self).wf(),
        ensures
            went(*old(self), *final(self)),
            step(final(self).st(), r, |v: Vec<Param>| params_of(v@)) == lambda_params(old(self).tokens@, old(self).st()),
    {
        let mut params: Vec<Param> = Vec::new();
        if self.check(TokenType::CloseParen) {
            return Ok(params);
        }
        let ghost ts = self.tokens@;
        loop
            invariant
                went(*old(self), *self),
                ts == self.tokens@,
                lambda_params(ts, old(self).st()) == lambda_params_from(
                    ts,
                    self.st(),
                    params_of(params@),
                ),
            decreases ts.len() - self.current,
        {
            let type_ = match self.parse_type() {
                Ok(v) => v,
                Err(e) => {
                    return Err(e);
                },
            };
            let name = match self.consume_identifier("Expected parameter name") {
                Ok(v) => v,
                Err(e) => {
                    return Err(e);
                },
            };
            if self.take(TokenType::Eq) {
                let span = self.previous().span;
                return Err(
                    ParserError::with_help(
                        DiagnosticCode::ParseExpectedToken,
                        "Default arguments are not supported in lambda expressions",
                        span,
                        "Lambda parameters cannot have default values. Define a named function instead if you need default parameters.",
                    ),
                );
            }
            let param = Param { name, type_, default_value: None };
            params.push(param);
            if !self.take(TokenType::Comma) {
                return Ok(params);
            }
            self.skip_newlines();
        }
    }

    /// An if-expression behind its `if`. A bare `else` takes a branch, and
    /// `else if` chains into a nested if-expression.
    pub(crate) fn parse_if_expression(&mut self, token_span: Span) -> (r: ParserResult<ExpressionNode>)
        requires
            old(self).wf(),
        ensures
            went(*old(self), *final(self)),
            r is Ok ==> old(self).current < final(self).current,
            step(final(self).st(), r, |e: ExpressionNode| e.tree()) == if_expression(old(self).tokens@, old(self).st(), token_span),
        decreases old(self).tokens@.len() - old(self).current, 90int,
    {
        proof {
            if_expression_def(self.tokens@, self.st(), token_span);
        }
        let cond = match self.parse_expression() {
            Ok(v) => v,
            Err(e) => {
                return Err(e);
            },
        };
        let then_expr = match self.parse_if_branch_expression("then expression") {
            Ok(v) => v,
            Err(e) => {
                return Err(e);
            },
        };
        self.skip_newlines();
        match self.consume_token(TokenType::Else, "Expected 'else' after then branch") {
            Ok(v) => v,
            Err(e) => {
                return Err(e);
            },
        };
        self.skip_newlines();
        let else_expr = if self.take(TokenType::If) {
            let if_span = self.previous().span;
            match self.parse_if_expression(if_span) {
                Ok(v) => v,
                Err(e) => {
                    return Err(e);
                },
            }
        } else {
            match self.parse_if_branch_expression("else expression") {
                Ok(v) => v,
                Err(e) => {
                    return Err(e);
                },
            }
        };
        let span = combine(token_span, self.previous().span);
        Ok(
            ExpressionNode { kind: ExpressionKind::If {
                    cond: Box::new(cond),
                    then_expr: Box::new(then_expr),
                    else_expr: Box::new(else_expr),
                },
                span,
            },
        )
    }

    /// One branch of an if-expression: a value in braces.
    pub(crate) fn parse_if_branch_expression(&mut self, what: &str) -> (r: ParserResult<ExpressionNode>)
        requires
            old(self).wf(),
        ensures
            went(*old(self), *final(self)),
            r is Ok ==> old(self).current < final(self).current,
            step(final(self).st(), r, |e: ExpressionNode| e.tree()) == branch(old(self).tokens@, old(self).st(), what@),
        decreases old(self).tokens@.len() - old(self).current, 60int,
    {
        proof {
            branch_def(self.tokens@, self.st(), what@);
        }
        match self.consume_token(TokenType::OpenBrace, cat("Expected '{' before ", what).as_str()) {
            Ok(v) => v,
            Err(e) => {
                return Err(e);
            },
        };
        self.skip_newlines();
        let expr = match self.parse_expression() {
            Ok(v) => v,
            Err(e) => {
                return Err(e);
            },
        };
        self.skip_newlines();
        match self.consume_token(TokenType::CloseBrace, cat("Expected '}' after ", what).as_str()) {
            Ok(v) => v,
            Err(e) => {
                return Err(e);
            },
        };
        Ok(expr)
    }

    /// An optional `where { ... }` block: predicates with commas between them,
    /// newlines anywhere, and a trailing comma tolerated. The block may start
    /// on a following line; if no `where` follows, the newlines stay.
    pub(crate) fn parse_where_clause(&mut self) -> (r: ParserResult<Option<WhereClause>>)
        requires
            old(self).wf(),
        ensures
            went(*old(self), *final(self)),
            step(final(self).st(), r, |c: Option<WhereClause>| clause_tree(c)) == where_clause(old(self).tokens@, old(self).st()),
        decreases old(self).tokens@.len() - old(self).current, 70int,
    {
        proof {
            where_clause_def(self.tokens@, self.st());
        }
        if !self.skip_newlines_before(TokenType::Where) {
            return Ok(None);
        }
        self.take(TokenType::Where);
        let start_span = self.previous().span;
        self.skip_newlines();
        match self.consume_token(TokenType::OpenBrace, "Expected '{' after 'where'") {
            Ok(v) => v,
            Err(e) => {
                return Err(e);
            },
        };
        let predicates = match self.parse_where_predicates() {
            Ok(v) => v,
            Err(e) => {
                return Err(e);
            },
        };
        self.skip_newlines();
        let end_span = match self.consume_token(
            TokenType::CloseBrace,
            "Expected '}' after where predicates (predicates are comma-separated)",
        ) {
            Ok(v) => v,
            Err(e) => {
                return Err(e);
            },
        };
        let span = combine(start_span, end_span);
        if predicates.len() == 0 {
            return Err(
                ParserError::with_help(
                    DiagnosticCode::ParseExpectedToken,
                    "Empty 'where' block",
                    span,
                    "A where block must contain at least one boolean predicate. Example: where { value > 0 }",
                ),
            );
        }
        Ok(Some(WhereClause { predicates, span }))
    }

    /// The predicates of a `where` block.
    pub(crate) fn parse_where_predicates(&mut self) -> (r: ParserResult<Vec<ExpressionNode>>)
        requires
            old(self).wf(),
        ensures
            went(*old(self), *final(self)),
            step(final(self).st(), r, |v: Vec<ExpressionNode>| exprs_of(v@)) == where_predicates(old(self).tokens@, old(self).st(), seq![]),
        decreases old(self).tokens@.len() - old(self).current, 60int,
    {
        proof {
            where_predicates_def(self.tokens@, self.st(), seq![]);
        }
        let mut predicates: Vec<ExpressionNode> = Vec::new();
        let ghost ts = self.tokens@;
        loop
            invariant
                went(*old(self), *self),
                ts == self.tokens@,
                where_predicates(ts, old(self).st(), seq![]) == where_predicates(
                    ts,
                    self.st(),
                    exprs_of(predicates@),
                ),
            decreases ts.len() - self.current,
        {
            proof {
                where_predicates_def(ts, self.st(), exprs_of(predicates@));
            }
            self.skip_newlines();
            if self.check(TokenType::CloseBrace) {
                return Ok(predicates);
            }
            let predicate = match self.parse_expression() {
                Ok(v) => v,
                Err(e) => {
                    return Err(e);
                },
            };
            predicates.push(predicate);
            self.skip_newlines();
            if !self.take(TokenType::Comma) {
                return Ok(predicates);
            }
        }
    }
}

} // verus!
